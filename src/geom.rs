//! 16.16 fixed-point vectors and axis-aligned rectangles.
use vstd::prelude::*;

verus! {

/// One world unit in 16.16 fixed point.
pub const ONE: i64 = 65536;

/// Largest coordinate magnitude any entity may hold.
pub const COORD_LIMIT: i64 = 134217728;

#[derive(Clone, Copy, Debug, PartialEq, Eq, Structural)]
pub struct Vec2 {
    pub x: i64,
    pub y: i64,
}

#[derive(Clone, Copy, Debug, PartialEq, Eq, Structural)]
pub struct Rect {
    pub x: i64,
    pub y: i64,
    pub w: i64,
    pub h: i64,
}

pub open spec fn abs(a: int) -> int {
    if a < 0 { -a } else { a }
}

/// Division rounding toward zero, as integer division does in Rust.
pub open spec fn tdiv(a: int, b: int) -> int {
    if a >= 0 { a / b } else { -((-a) / b) }
}

pub open spec fn bounded(v: Vec2) -> bool {
    -COORD_LIMIT <= v.x <= COORD_LIMIT && -COORD_LIMIT <= v.y <= COORD_LIMIT
}

pub open spec fn len_sq_spec(v: Vec2) -> int {
    v.x * v.x + v.y * v.y
}

/// The rectangle is well formed and lies inside the coordinate limit.
pub open spec fn rect_ok(r: Rect) -> bool {
    0 <= r.w && 0 <= r.h && -COORD_LIMIT <= r.x && r.x + r.w <= COORD_LIMIT
        && -COORD_LIMIT <= r.y && r.y + r.h <= COORD_LIMIT
}

pub open spec fn contains_spec(r: Rect, p: Vec2) -> bool {
    r.x <= p.x <= r.x + r.w && r.y <= p.y <= r.y + r.h
}

pub open spec fn clamp_int(v: int, lo: int, hi: int) -> int {
    if v < lo { lo } else if v > hi { hi } else { v }
}

pub open spec fn clamp_spec(r: Rect, p: Vec2) -> Vec2 {
    Vec2 { x: clamp_int(p.x as int, r.x as int, r.x + r.w) as i64,
           y: clamp_int(p.y as int, r.y as int, r.y + r.h) as i64 }
}

/// The unit vector along `v` in fixed point, or zero for the zero vector.
pub open spec fn normalize_spec(v: Vec2, len: int) -> Vec2 {
    if len == 0 {
        Vec2 { x: 0, y: 0 }
    } else {
        Vec2 { x: tdiv(v.x * ONE, len) as i64, y: tdiv(v.y * ONE, len) as i64 }
    }
}

pub open spec fn is_isqrt(n: int, r: int) -> bool {
    0 <= r && r * r <= n < (r + 1) * (r + 1)
}

/// The integer square root, rounded down.
pub open spec fn sqrt_floor(n: int) -> int {
    choose|r: int| is_isqrt(n, r)
}

pub proof fn lemma_isqrt_unique(n: int, r1: int, r2: int)
    requires
        is_isqrt(n, r1),
        is_isqrt(n, r2),
    ensures
        r1 == r2,
{
    if r1 < r2 {
        assert((r1 + 1) * (r1 + 1) <= r2 * r2) by (nonlinear_arith) requires 0 <= r1 < r2;
    } else if r2 < r1 {
        assert((r2 + 1) * (r2 + 1) <= r1 * r1) by (nonlinear_arith) requires 0 <= r2 < r1;
    }
}

pub proof fn lemma_sqrt_floor(n: int, r: int)
    requires
        is_isqrt(n, r),
    ensures
        sqrt_floor(n) == r,
{
    lemma_isqrt_unique(n, sqrt_floor(n), r);
}

impl Vec2 {
    pub fn new(x: i64, y: i64) -> (r: Vec2)
        ensures
            r == (Vec2 { x, y }),
    {
        Vec2 { x, y }
    }

    pub fn zero() -> (r: Vec2)
        ensures
            r == (Vec2 { x: 0, y: 0 }),
    {
        Vec2 { x: 0, y: 0 }
    }

    pub fn add(self, o: Vec2) -> (r: Vec2)
        requires
            bounded(self),
            bounded(o),
        ensures
            r.x == self.x + o.x,
            r.y == self.y + o.y,
    {
        Vec2 { x: self.x + o.x, y: self.y + o.y }
    }

    pub fn sub(self, o: Vec2) -> (r: Vec2)
        requires
            bounded(self),
            bounded(o),
        ensures
            r.x == self.x - o.x,
            r.y == self.y - o.y,
    {
        Vec2 { x: self.x - o.x, y: self.y - o.y }
    }

    /// Dot product, in squared fixed-point units.
    pub fn dot(self, o: Vec2) -> (r: i128)
        requires
            bounded(self) || (abs(self.x as int) <= 2 * COORD_LIMIT && abs(self.y as int) <= 2
                * COORD_LIMIT),
            bounded(o) || (abs(o.x as int) <= 2 * COORD_LIMIT && abs(o.y as int) <= 2
                * COORD_LIMIT),
        ensures
            r == self.x * o.x + self.y * o.y,
            abs(r as int) <= 8 * COORD_LIMIT * COORD_LIMIT,
    {
        let ax = self.x as i128;
        let ay = self.y as i128;
        let bx = o.x as i128;
        let by = o.y as i128;
        assert(abs(ax * bx) <= 4 * COORD_LIMIT * COORD_LIMIT) by (nonlinear_arith)
            requires abs(ax as int) <= 2 * COORD_LIMIT, abs(bx as int) <= 2 * COORD_LIMIT;
        assert(abs(ay * by) <= 4 * COORD_LIMIT * COORD_LIMIT) by (nonlinear_arith)
            requires abs(ay as int) <= 2 * COORD_LIMIT, abs(by as int) <= 2 * COORD_LIMIT;
        ax * bx + ay * by
    }

    /// Squared length of a vector whose components lie within twice the coordinate limit.
    pub fn len_sq(self) -> (r: u64)
        requires
            abs(self.x as int) <= 2 * COORD_LIMIT,
            abs(self.y as int) <= 2 * COORD_LIMIT,
        ensures
            r == len_sq_spec(self),
            r <= 8 * COORD_LIMIT * COORD_LIMIT,
    {
        let x = self.x as i128;
        let y = self.y as i128;
        assert(x * x <= 4 * COORD_LIMIT * COORD_LIMIT) by (nonlinear_arith)
            requires abs(x as int) <= 2 * COORD_LIMIT;
        assert(y * y <= 4 * COORD_LIMIT * COORD_LIMIT) by (nonlinear_arith)
            requires abs(y as int) <= 2 * COORD_LIMIT;
        assert(0 <= x * x && 0 <= y * y) by (nonlinear_arith);
        (x * x + y * y) as u64
    }

    /// Euclidean length, rounded down.
    pub fn length(self) -> (r: u64)
        requires
            abs(self.x as int) <= 2 * COORD_LIMIT,
            abs(self.y as int) <= 2 * COORD_LIMIT,
        ensures
            is_isqrt(len_sq_spec(self), r as int),
            r == sqrt_floor(len_sq_spec(self)),
            r <= 4 * COORD_LIMIT,
    {
        let n = self.len_sq();
        assert(n <= 8 * COORD_LIMIT * COORD_LIMIT) by (nonlinear_arith)
            requires
                n == self.x * self.x + self.y * self.y,
                abs(self.x as int) <= 2 * COORD_LIMIT,
                abs(self.y as int) <= 2 * COORD_LIMIT;
        let r = isqrt(n);
        proof {
            lemma_sqrt_floor(n as int, r as int);
        }
        assert(r <= 4 * COORD_LIMIT) by (nonlinear_arith)
            requires r * r <= n, n <= 8 * COORD_LIMIT * COORD_LIMIT, r >= 0;
        r
    }

    /// The unit vector along `self` (length `ONE`), guarded so that the zero
    /// vector yields the zero vector instead of a division by zero.
    pub fn normalize(self) -> (r: Vec2)
        requires
            abs(self.x as int) <= 2 * COORD_LIMIT,
            abs(self.y as int) <= 2 * COORD_LIMIT,
        ensures
            r == normalize_spec(self, sqrt_floor(len_sq_spec(self))),
            abs(r.x as int) <= ONE,
            abs(r.y as int) <= ONE,
            (r.x == 0 && r.y == 0) <==> (self.x == 0 && self.y == 0),
    {
        let len = self.length();
        if len == 0 {
            assert(self.x == 0 && self.y == 0) by (nonlinear_arith)
                requires self.x * self.x + self.y * self.y < 1;
            let r = Vec2 { x: 0, y: 0 };
            assert(is_isqrt(len_sq_spec(self), 0) && r == normalize_spec(self, 0));
            r
        } else {
            let l = len as i64;
            assert(abs(self.x as int) <= l && abs(self.y as int) <= l) by (nonlinear_arith)
                requires self.x * self.x + self.y * self.y < (l + 1) * (l + 1), l >= 1;
            let x = scale_div(self.x, l);
            let y = scale_div(self.y, l);
            proof {
                lemma_unit_nonzero(self.x as int, self.y as int, l as int);
            }
            let r = Vec2 { x, y };
            assert(is_isqrt(len_sq_spec(self), l as int) && r == normalize_spec(self, l as int));
            r
        }
    }
}

proof fn lemma_unit_nonzero(x: int, y: int, l: int)
    requires
        l >= 1,
        l * l <= x * x + y * y,
    ensures
        abs(x) * ONE >= l || abs(y) * ONE >= l,
{
    let xa = abs(x);
    let ya = abs(y);
    assert(xa * xa == x * x && ya * ya == y * y) by (nonlinear_arith)
        requires xa == abs(x), ya == abs(y);
    if xa * ONE < l && ya * ONE < l {
        assert(xa < l && ya < l);
        assert(xa * xa * 2 < l * l) by (nonlinear_arith)
            requires 0 <= xa, xa * 65536 < l, l >= 1;
        assert(ya * ya * 2 < l * l) by (nonlinear_arith)
            requires 0 <= ya, ya * 65536 < l, l >= 1;
    }
}

/// `v * ONE / d`, rounded toward zero, for `|v| <= d`.
fn scale_div(v: i64, d: i64) -> (r: i64)
    requires
        d >= 1,
        abs(v as int) <= d,
        d <= 4 * COORD_LIMIT,
    ensures
        r == tdiv(v * ONE, d as int),
        abs(r as int) <= ONE,
        (r == 0) ==> (v == 0 || abs(v as int) * ONE < d),
        v >= 0 ==> r >= 0,
        v <= 0 ==> r <= 0,
{
    if v >= 0 {
        assert((v as int) * ONE / (d as int) <= ONE) by (nonlinear_arith) requires 0 <= v <= d, d >= 1;
        assert((v as int) * ONE / (d as int) >= 0) by (nonlinear_arith) requires 0 <= v, d >= 1;
        assert(((v as int) * ONE / (d as int) == 0) ==> v * ONE < d) by (nonlinear_arith) requires 0 <= v, d >= 1;
        v * ONE / d
    } else {
        let a = -v;
        assert((a as int) * ONE / (d as int) <= ONE) by (nonlinear_arith) requires 0 <= a <= d, d >= 1;
        assert((a as int) * ONE / (d as int) >= 0) by (nonlinear_arith) requires 0 <= a, d >= 1;
        assert(((a as int) * ONE / (d as int) == 0) ==> a * ONE < d) by (nonlinear_arith) requires 0 <= a, d >= 1;
        -(a * ONE / d)
    }
}

/// Integer square root: the largest `r` with `r * r <= n`.
pub fn isqrt(n: u64) -> (r: u64)
    ensures
        is_isqrt(n as int, r as int),
{
    let mut lo: u64 = 0;
    let mut hi: u64 = 4294967296;
    assert(n < hi * hi) by (nonlinear_arith) requires n <= 0xffff_ffff_ffff_ffffu64, hi == 4294967296u64;
    while hi - lo > 1
        invariant
            lo < hi <= 4294967296,
            lo * lo <= n,
            n < hi * hi,
        decreases hi - lo,
    {
        let mid = lo + (hi - lo) / 2;
        assert(mid * mid <= 4294967296 * 4294967296) by (nonlinear_arith) requires mid <= 4294967296;
        if (mid as u128) * (mid as u128) <= n as u128 {
            lo = mid;
        } else {
            hi = mid;
        }
    }
    assert(hi == lo + 1);
    lo
}

/// One coordinate carried from the span `[f0, f0 + fw]` onto `[t0, t0 + tw]`;
/// an empty source span maps everything onto `t0`.
pub open spec fn remap1(v: int, f0: int, fw: int, t0: int, tw: int) -> int {
    if fw == 0 { t0 } else { t0 + tdiv((v - f0) * tw, fw) }
}

pub open spec fn remap_spec(v: Vec2, from: Rect, to: Rect) -> Vec2 {
    Vec2 {
        x: remap1(v.x as int, from.x as int, from.w as int, to.x as int, to.w as int) as i64,
        y: remap1(v.y as int, from.y as int, from.h as int, to.y as int, to.h as int) as i64,
    }
}

fn remap_coord(v: i64, f0: i64, fw: i64, t0: i64, tw: i64) -> (r: i64)
    requires
        abs(v as int) <= COORD_LIMIT,
        abs(f0 as int) <= COORD_LIMIT,
        abs(t0 as int) <= COORD_LIMIT,
        0 <= fw <= 2 * COORD_LIMIT,
        0 <= tw <= 2 * COORD_LIMIT,
    ensures
        r == remap1(v as int, f0 as int, fw as int, t0 as int, tw as int),
{
    if fw == 0 {
        t0
    } else {
        let d = v - f0;
        assert(abs(d * tw) <= 4 * COORD_LIMIT * COORD_LIMIT) by (nonlinear_arith)
            requires abs(d as int) <= 2 * COORD_LIMIT, 0 <= tw <= 2 * COORD_LIMIT;
        let p = d * tw;
        let q = if p >= 0 {
            p / fw
        } else {
            -((-p) / fw)
        };
        assert(abs(q as int) <= abs(p as int)) by (nonlinear_arith)
            requires fw >= 1, q == tdiv(p as int, fw as int);
        t0 + q
    }
}

/// Carries `v` from the rectangle `from` onto the rectangle `to`.
pub fn remap(v: Vec2, from: Rect, to: Rect) -> (r: Vec2)
    requires
        bounded(v),
        rect_ok(from),
        rect_ok(to),
    ensures
        r == remap_spec(v, from, to),
{
    Vec2 {
        x: remap_coord(v.x, from.x, from.w, to.x, to.w),
        y: remap_coord(v.y, from.y, from.h, to.y, to.h),
    }
}


/// A full turn in binary angle units.
pub const TURN: i64 = 1024;

/// `sin(j / 64 of a turn)` in fixed point, for `j` in `0..=16`.
pub open spec fn quarter_sine(j: int) -> int {
    if j == 0 {
        0
    } else if j == 1 {
        6424
    } else if j == 2 {
        12785
    } else if j == 3 {
        19024
    } else if j == 4 {
        25080
    } else if j == 5 {
        30893
    } else if j == 6 {
        36410
    } else if j == 7 {
        41576
    } else if j == 8 {
        46341
    } else if j == 9 {
        50660
    } else if j == 10 {
        54491
    } else if j == 11 {
        57798
    } else if j == 12 {
        60547
    } else if j == 13 {
        62714
    } else if j == 14 {
        64277
    } else if j == 15 {
        65220
    } else {
        65536
    }
}

fn quarter_sine_exec(j: i64) -> (r: i64)
    requires
        0 <= j <= 16,
    ensures
        r == quarter_sine(j as int),
        0 <= r <= ONE,
{
    match j {
        0 => 0,
        1 => 6424,
        2 => 12785,
        3 => 19024,
        4 => 25080,
        5 => 30893,
        6 => 36410,
        7 => 41576,
        8 => 46341,
        9 => 50660,
        10 => 54491,
        11 => 57798,
        12 => 60547,
        13 => 62714,
        14 => 64277,
        15 => 65220,
        _ => 65536,
    }
}

/// The unit vector at the `i`-th of 64 evenly spaced directions.
pub open spec fn coarse_dir(i: int) -> Vec2 {
    let q = i / 16;
    let j = i % 16;
    if q == 0 {
        Vec2 { x: quarter_sine(16 - j) as i64, y: quarter_sine(j) as i64 }
    } else if q == 1 {
        Vec2 { x: -quarter_sine(j) as i64, y: quarter_sine(16 - j) as i64 }
    } else if q == 2 {
        Vec2 { x: -quarter_sine(16 - j) as i64, y: -quarter_sine(j) as i64 }
    } else {
        Vec2 { x: quarter_sine(j) as i64, y: -quarter_sine(16 - j) as i64 }
    }
}

pub open spec fn unit_ok(v: Vec2) -> bool {
    -ONE <= v.x <= ONE && -ONE <= v.y <= ONE
}

fn coarse_dir_exec(i: i64) -> (r: Vec2)
    requires
        0 <= i < 64,
    ensures
        r == coarse_dir(i as int),
        unit_ok(r),
{
    let q = i / 16;
    let j = i % 16;
    let s = quarter_sine_exec(j);
    let c = quarter_sine_exec(16 - j);
    if q == 0 {
        Vec2 { x: c, y: s }
    } else if q == 1 {
        Vec2 { x: -s, y: c }
    } else if q == 2 {
        Vec2 { x: -c, y: -s }
    } else {
        Vec2 { x: s, y: -c }
    }
}

pub open spec fn lerp1(a: int, b: int, f: int) -> int {
    a + tdiv((b - a) * f, 16)
}

/// The unit vector at binary angle `a`: the table of 64 directions,
/// interpolated linearly between neighbouring entries.
pub open spec fn unit_spec(a: int) -> Vec2 {
    let k = a % (TURN as int);
    let i = k / 16;
    let f = k % 16;
    let u0 = coarse_dir(i);
    let u1 = coarse_dir((i + 1) % 64);
    Vec2 { x: lerp1(u0.x as int, u1.x as int, f) as i64, y: lerp1(u0.y as int, u1.y as int, f) as i64 }
}

fn lerp1_exec(a: i64, b: i64, f: i64) -> (r: i64)
    requires
        -ONE <= a <= ONE,
        -ONE <= b <= ONE,
        0 <= f < 16,
    ensures
        r == lerp1(a as int, b as int, f as int),
        -ONE <= r <= ONE,
{
    assert(abs((b - a) * f) <= 32 * ONE) by (nonlinear_arith)
        requires -ONE <= a <= ONE, -ONE <= b <= ONE, 0 <= f < 16;
    let p = (b - a) * f;
    let q = if p >= 0 {
        p / 16
    } else {
        -((-p) / 16)
    };
    assert(-ONE <= a + q <= ONE) by (nonlinear_arith)
        requires
            -ONE <= a <= ONE,
            -ONE <= b <= ONE,
            0 <= f < 16,
            p == (b - a) * f,
            q == tdiv(p as int, 16);
    a + q
}

/// The unit vector at binary angle `a` (a full turn is `TURN`).
pub fn unit_at(a: i64) -> (r: Vec2)
    ensures
        r == unit_spec(a as int),
        unit_ok(r),
{
    let k = a % TURN;
    let k = if k < 0 { k + TURN } else { k };
    assert(k == (a as int) % (TURN as int));
    let i = k / 16;
    let f = k % 16;
    let u0 = coarse_dir_exec(i);
    let u1 = coarse_dir_exec((i + 1) % 64);
    Vec2 { x: lerp1_exec(u0.x, u1.x, f), y: lerp1_exec(u0.y, u1.y, f) }
}

/// `center` moved by `radius` along binary angle `a`.
pub fn offset_r_theta(center: Vec2, radius: i64, a: i64) -> (r: Vec2)
    requires
        bounded(center),
        0 <= radius <= COORD_LIMIT,
    ensures
        r.x == center.x + tdiv(unit_spec(a as int).x * radius, ONE as int),
        r.y == center.y + tdiv(unit_spec(a as int).y * radius, ONE as int),
        abs(r.x - center.x) <= radius,
        abs(r.y - center.y) <= radius,
{
    let u = unit_at(a);
    Vec2 { x: center.x + scale_fixed(u.x, radius), y: center.y + scale_fixed(u.y, radius) }
}

/// `u * radius / ONE`, rounded toward zero, for a unit component `u`.
fn scale_fixed(u: i64, radius: i64) -> (r: i64)
    requires
        -ONE <= u <= ONE,
        0 <= radius <= COORD_LIMIT,
    ensures
        r == tdiv(u * radius, ONE as int),
        abs(r as int) <= radius,
{
    assert(abs(u * radius) <= ONE * radius) by (nonlinear_arith)
        requires -ONE <= u <= ONE, 0 <= radius;
    let p = u * radius;
    let q = if p >= 0 { p / ONE } else { -((-p) / ONE) };
    assert(abs(q as int) <= radius) by (nonlinear_arith)
        requires abs(p as int) <= ONE * radius, q == tdiv(p as int, ONE as int), radius >= 0;
    q
}

/// The binary angle, among the 64 table directions, whose direction is
/// closest to that of `v` (largest dot product).
pub fn angle_of(v: Vec2) -> (r: i64)
    requires
        bounded(v),
    ensures
        0 <= r < TURN,
        r % 16 == 0,
        forall|k: int| 0 <= k < 64 ==> #[trigger] dot_spec(coarse_dir(k), v) <= dot_spec(coarse_dir(r / 16), v),
{
    let mut best: i64 = 0;
    let mut best_dot = coarse_dir_exec(0).dot(v);
    let mut i: i64 = 1;
    while i < 64
        invariant
            1 <= i <= 64,
            0 <= best < 64,
            best_dot == dot_spec(coarse_dir(best as int), v),
            bounded(v),
            forall|k: int| 0 <= k < i ==> #[trigger] dot_spec(coarse_dir(k), v) <= best_dot,
        decreases 64 - i,
    {
        let d = coarse_dir_exec(i).dot(v);
        if d > best_dot {
            best = i;
            best_dot = d;
        }
        i = i + 1;
    }
    best * 16
}

pub open spec fn dot_spec(a: Vec2, b: Vec2) -> int {
    a.x * b.x + a.y * b.y
}

impl Rect {
    pub fn new(x: i64, y: i64, w: i64, h: i64) -> (r: Rect)
        ensures
            r == (Rect { x, y, w, h }),
    {
        Rect { x, y, w, h }
    }

    pub fn contains(&self, p: Vec2) -> (r: bool)
        requires
            rect_ok(*self),
        ensures
            r == contains_spec(*self, p),
    {
        self.x <= p.x && p.x <= self.x + self.w && self.y <= p.y && p.y <= self.y + self.h
    }

    /// The point of the rectangle nearest to `p`: `p` itself when inside.
    pub fn snap(&self, p: Vec2) -> (r: Vec2)
        requires
            rect_ok(*self),
        ensures
            r == clamp_spec(*self, p),
            contains_spec(*self, r),
            contains_spec(*self, p) ==> r == p,
    {
        let x = if p.x < self.x {
            self.x
        } else if p.x > self.x + self.w {
            self.x + self.w
        } else {
            p.x
        };
        let y = if p.y < self.y {
            self.y
        } else if p.y > self.y + self.h {
            self.y + self.h
        } else {
            p.y
        };
        Vec2 { x, y }
    }

    /// The rectangle grown on every side by `d` (shrunk when `d` is negative).
    pub fn dilate(&self, d: i64) -> (r: Rect)
        requires
            rect_ok(*self),
            abs(d as int) <= COORD_LIMIT,
        ensures
            r.x == self.x - d,
            r.y == self.y - d,
            r.w == clamp_int(self.w + 2 * d, 0, 4 * COORD_LIMIT),
            r.h == clamp_int(self.h + 2 * d, 0, 4 * COORD_LIMIT),
    {
        let w = self.w + 2 * d;
        let h = self.h + 2 * d;
        Rect {
            x: self.x - d,
            y: self.y - d,
            w: if w < 0 { 0 } else if w > 4 * COORD_LIMIT { 4 * COORD_LIMIT } else { w },
            h: if h < 0 { 0 } else if h > 4 * COORD_LIMIT { 4 * COORD_LIMIT } else { h },
        }
    }
}

} // verus!
