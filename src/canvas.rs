//! Immediate-mode canvas: turns draw calls into a flat vertex byte stream.
//!
//! Every vertex is nine little-endian IEEE-754 single-precision words: a
//! position (x, y, depth), a colour (r, g, b, a) and a texture coordinate
//! (u, v). The library computes in 16.16 fixed point; each value is written
//! as the single-precision number it stands for, which is exact.
use vstd::prelude::*;
use crate::geom::{
    abs, bounded, clamp_int, offset_r_theta, rect_ok, remap, remap_spec, tdiv, unit_spec, Rect, Vec2, COORD_LIMIT,
    ONE, TURN,
};

verus! {

pub const VERTEX_WORDS: usize = 9;

/// Size in bytes of one vertex record.
pub const VERTEX_BYTES: usize = 36;

/// Segments of the fan that stands for a full circle.
pub const CIRCLE_SEGMENTS: i32 = 40;

#[derive(Clone, Copy, Debug, PartialEq, Eq, Structural)]
pub struct Vec4 {
    pub x: i64,
    pub y: i64,
    pub z: i64,
    pub w: i64,
}

impl Vec4 {
    pub fn new(x: i64, y: i64, z: i64, w: i64) -> (r: Vec4)
        ensures
            r == (Vec4 { x, y, z, w }),
    {
        Vec4 { x, y, z, w }
    }
}

/// The normalized-device rectangle that the camera rectangle is mapped onto.
pub open spec fn ndc_rect() -> Rect {
    Rect { x: 0, y: 0, w: ONE, h: ONE }
}

/// Texture coordinates are written in units of `2^-UV_SCALE`, fine enough
/// that the atlas cell's edge, 1/20, is the single-precision number nearest it.
pub const UV_SCALE: u64 = 28;

/// The atlas cell whose texels are solid white: 1/20 of the atlas on each
/// side, in units of `2^-UV_SCALE`.
pub const CELL_SIZE: i64 = 13421773;

pub open spec fn white_cell() -> Rect {
    Rect { x: 0, y: 0, w: CELL_SIZE, h: CELL_SIZE }
}

/// Largest magnitude written exactly: 24 significant bits.
pub const WORD_LIMIT: i64 = 0xff_ffff;

pub open spec fn two_pow(n: nat) -> int
    decreases n,
{
    if n == 0 { 1 } else { 2 * two_pow((n - 1) as nat) }
}

/// `a` doubled until its bit 23 is set, with the number of doublings added to `s`.
pub open spec fn lift(a: int, s: nat) -> (int, nat)
    decreases 0x100_0000 - a,
{
    if a <= 0 || a >= 0x80_0000 { (a, s) } else { lift(2 * a, s + 1) }
}

/// Bits of the single-precision number `v / 2^k`, for `|v| <= WORD_LIMIT`:
/// sign, biased exponent `150 - k - s`, and the 23 bits of the significand
/// below its leading one, where the significand is `|v|` doubled `s` times.
pub open spec fn f32_bits_at(v: int, k: int) -> u32 {
    if v == 0 {
        0
    } else {
        let (m, s) = lift(abs(v), 0);
        ((if v < 0 { 0x8000_0000int } else { 0 }) + (150 - k - s) * 0x80_0000 + (m - 0x80_0000)) as u32
    }
}

/// Bits of the single-precision number `v / ONE`.
pub open spec fn f32_bits(v: int) -> u32 {
    f32_bits_at(v, 16)
}

/// A value in units of `2^-k`, held to `[-WORD_LIMIT, WORD_LIMIT]` and written
/// as single precision.
pub open spec fn word_at(v: int, k: int) -> u32 {
    f32_bits_at(clamp_int(v, -WORD_LIMIT as int, WORD_LIMIT as int), k)
}

/// A 16.16 value held to `[-WORD_LIMIT, WORD_LIMIT]` and written as single precision.
pub open spec fn word_of(v: int) -> u32 {
    word_at(v, 16)
}

proof fn lemma_two_pow_pos(n: nat)
    ensures
        two_pow(n) >= 1,
    decreases n,
{
    if n > 0 {
        lemma_two_pow_pos((n - 1) as nat);
    }
}

proof fn lemma_two_pow_small(n: nat)
    requires
        two_pow(n) < 0x100_0000,
    ensures
        n < 24,
{
    if n >= 24 {
        lemma_two_pow_grows(24, n);
        reveal_with_fuel(two_pow, 25);
        assert(two_pow(24) == 0x100_0000);
    }
}

proof fn lemma_two_pow_grows(a: nat, b: nat)
    requires
        a <= b,
    ensures
        two_pow(a) <= two_pow(b),
    decreases b - a,
{
    if a < b {
        lemma_two_pow_grows(a, (b - 1) as nat);
        lemma_two_pow_pos((b - 1) as nat);
    }
}

proof fn lemma_lift(a: int, s: nat)
    requires
        0 < a < 0x100_0000,
    ensures
        lift(a, s).1 >= s,
        lift(a, s).0 == a * two_pow((lift(a, s).1 - s) as nat),
        0x80_0000 <= lift(a, s).0 < 0x100_0000,
    decreases 0x100_0000 - a,
{
    if a < 0x80_0000 {
        lemma_lift(2 * a, s + 1);
        let k = (lift(a, s).1 - s - 1) as nat;
        assert(two_pow(k + 1) == 2 * two_pow(k));
        assert(2 * a * two_pow(k) == a * (2 * two_pow(k))) by (nonlinear_arith);
    } else {
        assert(lift(a, s).1 - s == 0);
    }
}

/// The word written for `v` at scale `k` is a normal single-precision number
/// whose value is exactly `v / 2^k`: its significand `m` is `|v|` doubled `s`
/// times, so `m * 2^(e - 150) == |v| * 2^(s + 150 - k - s - 150) == |v| / 2^k`.
pub proof fn f32_bits_is_exact(v: int, k: int)
    requires
        0 < abs(v) <= WORD_LIMIT,
        0 <= k <= 100,
    ensures
        ({
            let (m, s) = lift(abs(v), 0);
            let w = f32_bits_at(v, k) as int;
            &&& m == abs(v) * two_pow(s)
            &&& 0x80_0000 <= m < 0x100_0000
            &&& s <= 23
            &&& (w >= 0x8000_0000) == (v < 0)
            &&& (w % 0x8000_0000) / 0x80_0000 == 150 - k - s
            &&& w % 0x80_0000 == m - 0x80_0000
        }),
{
    lemma_lift(abs(v), 0);
    let (m, s) = lift(abs(v), 0);
    lemma_two_pow_pos(s);
    assert(two_pow(s) <= m) by (nonlinear_arith)
        requires m == abs(v) * two_pow(s), abs(v) >= 1, two_pow(s) >= 1;
    lemma_two_pow_small(s);
}

/// Writes `v / ONE` as a single-precision word, for `|v| <= WORD_LIMIT`.
pub fn f32_word(v: i64) -> (r: u32)
    requires
        -WORD_LIMIT <= v <= WORD_LIMIT,
    ensures
        r == f32_bits(v as int),
{
    f32_word_at(v, 16)
}

/// Writes `v / 2^k` as a single-precision word, for `|v| <= WORD_LIMIT`.
pub fn f32_word_at(v: i64, k: u64) -> (r: u32)
    requires
        -WORD_LIMIT <= v <= WORD_LIMIT,
        k <= 100,
    ensures
        r == f32_bits_at(v as int, k as int),
{
    if v == 0 {
        return 0;
    }
    let a0: u64 = if v < 0 { (-v) as u64 } else { v as u64 };
    let mut a: u64 = a0;
    let mut s: u64 = 0;
    proof {
        lemma_lift(a0 as int, 0);
    }
    while a < 0x80_0000
        invariant
            0 < a0 <= a < 0x100_0000,
            a0 == abs(v as int),
            a == a0 * two_pow(s as nat),
            lift(a0 as int, 0) == lift(a as int, s as nat),
            s < 24,
        decreases 0x100_0000 - a,
    {
        proof {
            lemma_two_pow_pos(s as nat);
            assert(two_pow((s + 1) as nat) == 2 * two_pow(s as nat));
            assert(2 * a == a0 * two_pow((s + 1) as nat)) by (nonlinear_arith)
                requires a == a0 * two_pow(s as nat), two_pow((s + 1) as nat) == 2 * two_pow(s as nat);
            assert(two_pow((s + 1) as nat) <= 2 * a) by (nonlinear_arith)
                requires 2 * a == a0 * two_pow((s + 1) as nat), a0 >= 1, two_pow((s + 1) as nat) >= 1;
            lemma_two_pow_small((s + 1) as nat);
        }
        a = 2 * a;
        s = s + 1;
    }
    let sign: u64 = if v < 0 { 0x8000_0000 } else { 0 };
    (sign + (150 - k - s) * 0x80_0000 + (a - 0x80_0000)) as u32
}

pub open spec fn word_bytes(w: u32) -> Seq<u8> {
    seq![(w & 0xff) as u8, ((w >> 8u32) & 0xff) as u8, ((w >> 16u32) & 0xff) as u8, ((w >> 24u32) & 0xff) as u8]
}

pub open spec fn value_bytes(v: int) -> Seq<u8> {
    word_bytes(word_of(v))
}

/// Bytes of a texture coordinate given in units of `2^-UV_SCALE`.
pub open spec fn uv_bytes(v: int) -> Seq<u8> {
    word_bytes(word_at(v, UV_SCALE as int))
}

pub open spec fn vertex_bytes(pos: Vec2, depth: int, c: Vec4, uv: Vec2) -> Seq<u8> {
    value_bytes(pos.x as int) + value_bytes(pos.y as int) + value_bytes(depth)
        + value_bytes(c.x as int) + value_bytes(c.y as int) + value_bytes(c.z as int)
        + value_bytes(c.w as int) + uv_bytes(uv.x as int) + uv_bytes(uv.y as int)
}

/// The drawing state that applies to the next primitive.
pub struct PenState {
    pub depth: i64,
    pub colour: Vec4,
    pub camera: Rect,
}

/// Bytes of one vertex at world point `p`, textured from `uv_from` onto the white cell.
pub open spec fn point_bytes(s: PenState, uv_from: Rect, p: Vec2) -> Seq<u8> {
    vertex_bytes(remap_spec(p, s.camera, ndc_rect()), s.depth as int, s.colour,
        remap_spec(p, uv_from, white_cell()))
}

pub open spec fn aabb_spec(a: Vec2, b: Vec2, c: Vec2) -> Rect {
    let x0 = min3(a.x as int, b.x as int, c.x as int);
    let y0 = min3(a.y as int, b.y as int, c.y as int);
    Rect {
        x: x0 as i64,
        y: y0 as i64,
        w: (max3(a.x as int, b.x as int, c.x as int) - x0) as i64,
        h: (max3(a.y as int, b.y as int, c.y as int) - y0) as i64,
    }
}

pub open spec fn min3(a: int, b: int, c: int) -> int {
    if a <= b && a <= c { a } else if b <= c { b } else { c }
}

pub open spec fn max3(a: int, b: int, c: int) -> int {
    if a >= b && a >= c { a } else if b >= c { b } else { c }
}

pub open spec fn tri_bytes(s: PenState, uv_from: Rect, a: Vec2, b: Vec2, c: Vec2) -> Seq<u8> {
    point_bytes(s, uv_from, a) + point_bytes(s, uv_from, b) + point_bytes(s, uv_from, c)
}

pub struct KRCanvas {
    depth: i64,
    colour: Vec4,
    buf: Vec<u8>,
    from_rect: Rect,
}

impl KRCanvas {
    /// The bytes written so far.
    pub closed spec fn stream(&self) -> Seq<u8> {
        self.buf@
    }

    /// The state that the next primitive is drawn with.
    pub closed spec fn pen(&self) -> PenState {
        PenState { depth: self.depth, colour: self.colour, camera: self.from_rect }
    }

    /// The stream holds whole vertex records and the camera is a valid rectangle.
    pub closed spec fn wf(&self) -> bool {
        (self.buf@.len() as int) % (VERTEX_BYTES as int) == 0 && rect_ok(self.from_rect)
    }

    pub fn new(screen_rect: Rect) -> (r: KRCanvas)
        requires
            rect_ok(screen_rect),
        ensures
            r.wf(),
            r.stream() == Seq::<u8>::empty(),
            r.pen() == (PenState { depth: ONE, colour: Vec4 { x: 0, y: 0, z: 0, w: ONE }, camera: screen_rect }),
    {
        KRCanvas { depth: ONE, colour: Vec4 { x: 0, y: 0, z: 0, w: ONE }, buf: Vec::new(), from_rect: screen_rect }
    }

    pub fn set_colour(&mut self, c: Vec4)
        ensures
            final(self).pen() == (PenState { colour: c, ..old(self).pen() }),
            final(self).stream() == old(self).stream(),
            final(self).wf() == old(self).wf(),
    {
        self.colour = c;
    }

    pub fn set_depth(&mut self, d: i64)
        ensures
            final(self).pen() == (PenState { depth: d, ..old(self).pen() }),
            final(self).stream() == old(self).stream(),
            final(self).wf() == old(self).wf(),
    {
        self.depth = d;
    }

    pub fn set_camera(&mut self, cam: Rect)
        requires
            rect_ok(cam),
        ensures
            final(self).pen() == (PenState { camera: cam, ..old(self).pen() }),
            final(self).stream() == old(self).stream(),
            old(self).wf() ==> final(self).wf(),
    {
        self.from_rect = cam;
    }

    #[verifier::spinoff_prover]
    fn push_value(&mut self, v: i64, k: u64)
        requires
            k <= 100,
        ensures
            final(self).buf@ == old(self).buf@ + word_bytes(word_at(v as int, k as int)),
            final(self).depth == old(self).depth,
            final(self).colour == old(self).colour,
            final(self).from_rect == old(self).from_rect,
    {
        let c: i64 = if v < -WORD_LIMIT {
            -WORD_LIMIT
        } else if v > WORD_LIMIT {
            WORD_LIMIT
        } else {
            v
        };
        let w: u32 = f32_word_at(c, k);
        self.buf.push((w & 0xff) as u8);
        self.buf.push(((w >> 8u32) & 0xff) as u8);
        self.buf.push(((w >> 16u32) & 0xff) as u8);
        self.buf.push(((w >> 24u32) & 0xff) as u8);
        assert(self.buf@ =~= old(self).buf@ + word_bytes(word_at(v as int, k as int)));
    }

    #[verifier::spinoff_prover]
    fn push_point(&mut self, p: Vec2, uv_from: Rect)
        requires
            bounded(p),
            rect_ok(uv_from),
            rect_ok(old(self).from_rect),
        ensures
            final(self).buf@ == old(self).buf@ + point_bytes(old(self).pen(), uv_from, p),
            final(self).depth == old(self).depth,
            final(self).colour == old(self).colour,
            final(self).from_rect == old(self).from_rect,
    {
        let ndc = Rect { x: 0, y: 0, w: ONE, h: ONE };
        let cell = Rect { x: 0, y: 0, w: CELL_SIZE, h: CELL_SIZE };
        let pos = remap(p, self.from_rect, ndc);
        let uv = remap(p, uv_from, cell);
        let depth = self.depth;
        let colour = self.colour;
        self.push_value(pos.x, 16);
        self.push_value(pos.y, 16);
        self.push_value(depth, 16);
        self.push_value(colour.x, 16);
        self.push_value(colour.y, 16);
        self.push_value(colour.z, 16);
        self.push_value(colour.w, 16);
        self.push_value(uv.x, UV_SCALE);
        self.push_value(uv.y, UV_SCALE);
        assert(self.buf@ =~= old(self).buf@ + point_bytes(old(self).pen(), uv_from, p));
    }

    #[verifier::spinoff_prover]
    fn push_triangle(&mut self, a: Vec2, b: Vec2, c: Vec2, uv_from: Rect)
        requires
            old(self).wf(),
            bounded(a),
            bounded(b),
            bounded(c),
            rect_ok(uv_from),
        ensures
            final(self).wf(),
            final(self).stream() == old(self).stream() + tri_bytes(old(self).pen(), uv_from, a, b, c),
            final(self).pen() == old(self).pen(),
    {
        self.push_point(a, uv_from);
        self.push_point(b, uv_from);
        self.push_point(c, uv_from);
        assert(self.buf@ =~= old(self).buf@ + tri_bytes(old(self).pen(), uv_from, a, b, c));
    }

    /// Appends one triangle; its texture coordinates span its own bounding box.
    pub fn triangle(&mut self, a: Vec2, b: Vec2, c: Vec2)
        requires
            old(self).wf(),
            bounded(a),
            bounded(b),
            bounded(c),
        ensures
            final(self).wf(),
            final(self).stream() == old(self).stream() + tri_bytes(old(self).pen(), aabb_spec(a, b, c), a, b, c),
            final(self).pen() == old(self).pen(),
    {
        let x0 = if a.x <= b.x && a.x <= c.x { a.x } else if b.x <= c.x { b.x } else { c.x };
        let x1 = if a.x >= b.x && a.x >= c.x { a.x } else if b.x >= c.x { b.x } else { c.x };
        let y0 = if a.y <= b.y && a.y <= c.y { a.y } else if b.y <= c.y { b.y } else { c.y };
        let y1 = if a.y >= b.y && a.y >= c.y { a.y } else if b.y >= c.y { b.y } else { c.y };
        let bb = Rect { x: x0, y: y0, w: x1 - x0, h: y1 - y0 };
        self.push_triangle(a, b, c, bb);
    }

    /// Appends two triangles covering `r`; texture coordinates span the whole rectangle.
    pub fn rect(&mut self, r: Rect)
        requires
            old(self).wf(),
            rect_ok(r),
        ensures
            final(self).wf(),
            final(self).stream() == old(self).stream() + rect_bytes(old(self).pen(), r),
            final(self).pen() == old(self).pen(),
    {
        let tl = Vec2 { x: r.x, y: r.y };
        let tr = Vec2 { x: r.x + r.w, y: r.y };
        let bl = Vec2 { x: r.x, y: r.y + r.h };
        let br = Vec2 { x: r.x + r.w, y: r.y + r.h };
        self.push_triangle(tl, tr, bl, r);
        self.push_triangle(bl, tr, br, r);
        assert(self.buf@ =~= old(self).buf@ + rect_bytes(old(self).pen(), r));
    }

    /// A regular polygon of `n_sides` sides around `center`, as a triangle fan.
    /// A count of at most zero draws nothing.
    pub fn poly(&mut self, center: Vec2, radius: i64, n_sides: i32)
        requires
            old(self).wf(),
            bounded(center),
            0 <= radius,
            abs(center.x as int) + radius <= COORD_LIMIT,
            abs(center.y as int) + radius <= COORD_LIMIT,
        ensures
            final(self).wf(),
            final(self).stream() == old(self).stream() + fan_bytes(old(self).pen(), center, radius as int, 0,
                TURN as int, n_sides as int, fan_count(n_sides as int)),
            final(self).stream().len() == old(self).stream().len() + fan_count(n_sides as int) * 108,
            final(self).pen() == old(self).pen(),
    {
        self.poly_part(center, radius, 0, TURN as i32, n_sides);
    }

    /// The slice of a circle between binary angles `from` and `to`, as a fan of `n_sides` triangles.
    #[verifier::spinoff_prover]
    #[verifier::rlimit(50)]
    pub fn poly_part(&mut self, center: Vec2, radius: i64, from: i32, to: i32, n_sides: i32)
        requires
            old(self).wf(),
            bounded(center),
            0 <= radius,
            abs(center.x as int) + radius <= COORD_LIMIT,
            abs(center.y as int) + radius <= COORD_LIMIT,
        ensures
            final(self).wf(),
            final(self).stream() == old(self).stream() + fan_bytes(old(self).pen(), center, radius as int, from as int,
                to as int, n_sides as int, fan_count(n_sides as int)),
            final(self).stream().len() == old(self).stream().len() + fan_count(n_sides as int) * 108,
            final(self).pen() == old(self).pen(),
    {
        let n: i64 = if n_sides <= 0 { 0 } else { n_sides as i64 };
        let mut i: i64 = 0;
        proof {
            reveal_with_fuel(fan_bytes, 1);
            assert(self.stream() =~= old(self).stream() + fan_bytes(old(self).pen(), center, radius as int,
                from as int, to as int, n_sides as int, 0));
        }
        while i < n
            invariant
                0 <= i <= n <= i32::MAX,
                n == fan_count(n_sides as int),
                self.wf(),
                self.pen() == old(self).pen(),
                self.stream().len() == old(self).stream().len() + i * 108,
                self.stream() == old(self).stream() + fan_bytes(old(self).pen(), center, radius as int, from as int,
                    to as int, n_sides as int, i as nat),
                bounded(center),
                abs(center.x as int) + radius <= COORD_LIMIT,
                abs(center.y as int) + radius <= COORD_LIMIT,
                0 <= radius,
            decreases n - i,
        {
            self.fan_triangle(center, radius, from, to, i, n);
            proof {
                reveal_with_fuel(fan_bytes, 2);
                assert(self.stream() =~= old(self).stream() + fan_bytes(old(self).pen(), center, radius as int,
                    from as int, to as int, n_sides as int, (i + 1) as nat));
            }
            i = i + 1;
        }
    }

    /// The `i`-th triangle of the fan from binary angle `from` to `to` in `n` steps.
    fn fan_triangle(&mut self, center: Vec2, radius: i64, from: i32, to: i32, i: i64, n: i64)
        requires
            old(self).wf(),
            bounded(center),
            0 <= radius,
            abs(center.x as int) + radius <= COORD_LIMIT,
            abs(center.y as int) + radius <= COORD_LIMIT,
            0 <= i < n <= i32::MAX,
        ensures
            final(self).wf(),
            final(self).pen() == old(self).pen(),
            ({
                let p1 = offset_spec(center, radius as int, from + tdiv(i * (to - from), n as int));
                let p2 = offset_spec(center, radius as int, from + tdiv((i + 1) * (to - from), n as int));
                final(self).stream() == old(self).stream() + tri_bytes(old(self).pen(), aabb_spec(center, p1, p2),
                    center, p1, p2)
            }),
            final(self).stream().len() == old(self).stream().len() + 108,
    {
        let t1 = fan_angle(from, to, i, n);
        let t2 = fan_angle(from, to, i + 1, n);
        let p1 = offset_r_theta(center, radius, t1);
        let p2 = offset_r_theta(center, radius, t2);
        let ghost pen = self.pen();
        self.triangle(center, p1, p2);
        proof {
            lemma_tri_len(pen, aabb_spec(center, p1, p2), center, p1, p2);
            assert(p1 == offset_spec(center, radius as int, from + tdiv(i * (to - from), n as int)));
            assert(p2 == offset_spec(center, radius as int, from + tdiv((i + 1) * (to - from), n as int)));
        }
    }

    /// A circle as a fan of `CIRCLE_SEGMENTS` triangles.
    pub fn circle(&mut self, center: Vec2, radius: i64)
        requires
            old(self).wf(),
            bounded(center),
            0 <= radius,
            abs(center.x as int) + radius <= COORD_LIMIT,
            abs(center.y as int) + radius <= COORD_LIMIT,
        ensures
            final(self).wf(),
            final(self).stream() == old(self).stream() + fan_bytes(old(self).pen(), center, radius as int, 0,
                TURN as int, CIRCLE_SEGMENTS as int, CIRCLE_SEGMENTS as nat),
            final(self).stream().len() == old(self).stream().len() + CIRCLE_SEGMENTS * 108,
            final(self).pen() == old(self).pen(),
    {
        self.poly(center, radius, CIRCLE_SEGMENTS);
    }

    /// Hands over the finished stream.
    pub fn bytes(self) -> (r: Vec<u8>)
        requires
            self.wf(),
        ensures
            r@ == self.stream(),
            (r@.len() as int) % (VERTEX_BYTES as int) == 0,
    {
        self.buf
    }
}

/// Whatever draw calls were made, the stream holds whole vertex records only.
pub proof fn stream_holds_whole_vertices(c: KRCanvas)
    requires
        c.wf(),
    ensures
        (c.stream().len() as int) % (VERTEX_BYTES as int) == 0,
{
}

/// Number of triangles of a fan of `n` sides: none for `n <= 0`.
pub open spec fn fan_count(n: int) -> nat {
    if n <= 0 { 0 } else { n as nat }
}

/// `center` moved by `radius` along binary angle `a`.
pub open spec fn offset_spec(center: Vec2, radius: int, a: int) -> Vec2 {
    Vec2 {
        x: (center.x + tdiv(unit_spec(a).x * radius, ONE as int)) as i64,
        y: (center.y + tdiv(unit_spec(a).y * radius, ONE as int)) as i64,
    }
}

/// The first `k` of the `n` triangles of the fan around `center` from binary
/// angle `from` to `to`.
#[verifier::opaque]
pub open spec fn fan_bytes(s: PenState, center: Vec2, radius: int, from: int, to: int, n: int, k: nat) -> Seq<u8>
    decreases k,
{
    if k == 0 {
        Seq::empty()
    } else {
        let i = k - 1;
        let p1 = offset_spec(center, radius, from + tdiv(i * (to - from), n));
        let p2 = offset_spec(center, radius, from + tdiv((i + 1) * (to - from), n));
        fan_bytes(s, center, radius, from, to, n, (k - 1) as nat) + tri_bytes(s, aabb_spec(center, p1, p2), center, p1, p2)
    }
}

pub open spec fn rect_bytes(s: PenState, r: Rect) -> Seq<u8> {
    let tl = Vec2 { x: r.x, y: r.y };
    let tr = Vec2 { x: (r.x + r.w) as i64, y: r.y };
    let bl = Vec2 { x: r.x, y: (r.y + r.h) as i64 };
    let br = Vec2 { x: (r.x + r.w) as i64, y: (r.y + r.h) as i64 };
    tri_bytes(s, r, tl, tr, bl) + tri_bytes(s, r, bl, tr, br)
}

/// Binary angle of the `i`-th of `n` steps from `from` to `to`.
fn fan_angle(from: i32, to: i32, i: i64, n: i64) -> (r: i64)
    requires
        0 <= i <= n,
        1 <= n <= i32::MAX,
    ensures
        r == from + tdiv(i * (to - from), n as int),
        abs(r - from) <= abs(to - from),
{
    let d = to as i128 - from as i128;
    assert(abs(i * d) <= n * abs(d as int)) by (nonlinear_arith)
        requires 0 <= i <= n;
    assert(n * abs(d as int) <= 0x8000_0000 * 0x1_0000_0000) by (nonlinear_arith)
        requires 1 <= n <= 0x7fff_ffff, abs(d as int) <= 0x1_0000_0000;
    let p = (i as i128) * d;
    let q: i128 = if p >= 0 { p / (n as i128) } else { -((-p) / (n as i128)) };
    assert(abs(q as int) <= abs(d as int)) by (nonlinear_arith)
        requires abs(p as int) <= n * abs(d as int), n >= 1, q == tdiv(p as int, n as int);
    (from as i128 + q) as i64
}

proof fn lemma_tri_len(s: PenState, uv_from: Rect, a: Vec2, b: Vec2, c: Vec2)
    ensures
        tri_bytes(s, uv_from, a, b, c).len() == 108,
{
}

/// `a / b` rounded toward zero.
pub(crate) fn div_toward_zero(a: i64, b: i64) -> (r: i64)
    requires
        b >= 1,
        a > i64::MIN,
    ensures
        r == tdiv(a as int, b as int),
        abs(r as int) <= abs(a as int),
{
    if a >= 0 {
        assert((a as int) / (b as int) <= a) by (nonlinear_arith) requires a >= 0, b >= 1;
        a / b
    } else {
        assert((-a as int) / (b as int) <= -a) by (nonlinear_arith) requires -a >= 0, b >= 1;
        -((-a) / b)
    }
}

} // verus!
