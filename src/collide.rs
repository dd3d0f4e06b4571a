//! Positional collision resolution: enemy against enemy, circle against
//! building, and player against enemy.
use vstd::prelude::*;
use crate::geom::{
    abs, clamp_int, clamp_spec, is_isqrt, len_sq_spec, lemma_sqrt_floor, normalize_spec, rect_ok, sqrt_floor,
    tdiv, Rect, Vec2, COORD_LIMIT, ONE,
};
use crate::motion::{
    arena_spec, direction, in_world, scaled, scaled_spec, world_spec,
};
use crate::rules::{
    CONTACT_DAMAGE, ENEMY_RADIUS, HP_MAX, PLAYER_RADIUS, WORLD_LIMIT,
};
use crate::sim::cell_rect_spec;

verus! {

/// The corrective push on an enemy at `p` from one at `q`: half the
/// penetration depth `2 * ENEMY_RADIUS - |p - q|`, along the axis from `q` to `p`.
pub open spec fn push_spec(p: Vec2, q: Vec2) -> Vec2 {
    let d = Vec2 { x: (p.x - q.x) as i64, y: (p.y - q.y) as i64 };
    let len = sqrt_floor(len_sq_spec(d));
    if len >= 2 * ENEMY_RADIUS {
        Vec2 { x: 0, y: 0 }
    } else {
        let pen = 2 * ENEMY_RADIUS - len;
        let n = normalize_spec(d, len);
        Vec2 { x: tdiv(tdiv(pen * n.x, ONE as int), 2) as i64, y: tdiv(tdiv(pen * n.y, ONE as int), 2) as i64 }
    }
}

/// Sum of the pushes on an enemy at `p` from the first `n` enemies of `s`.
pub open spec fn push_total(s: Seq<Vec2>, p: Vec2, n: nat) -> Vec2
    decreases n,
{
    if n == 0 {
        Vec2 { x: 0, y: 0 }
    } else {
        let t = push_total(s, p, (n - 1) as nat);
        let c = push_spec(p, s[n - 1]);
        Vec2 { x: (t.x + c.x) as i64, y: (t.y + c.y) as i64 }
    }
}

/// Every enemy moved by the pushes of all the others, computed from the
/// positions before any of them moved.
pub open spec fn resolve_spec(s: Seq<Vec2>) -> Seq<Vec2> {
    Seq::new(s.len(), |i: int| {
        let t = push_total(s, s[i], s.len());
        Vec2 { x: (s[i].x + t.x) as i64, y: (s[i].y + t.y) as i64 }
    })
}

pub(crate) fn push(p: Vec2, q: Vec2) -> (r: Vec2)
    requires
        in_world(p),
        in_world(q),
    ensures
        r == push_spec(p, q),
        abs(r.x as int) <= ENEMY_RADIUS,
        abs(r.y as int) <= ENEMY_RADIUS,
{
    proof {
        lemma_push_sign(p, q);
    }
    let d = p.sub(q);
    assert(d == (Vec2 { x: (p.x - q.x) as i64, y: (p.y - q.y) as i64 }));
    let len = d.length();
    if len >= (2 * ENEMY_RADIUS) as u64 {
        Vec2 { x: 0, y: 0 }
    } else {
        let pen = 2 * ENEMY_RADIUS - len as i64;
        let n = d.normalize();
        let s = scaled(n, pen);
        assert(n.x * pen == pen * n.x && n.y * pen == pen * n.y) by (nonlinear_arith);
        proof {
            lemma_tdiv_sign(s.x as int, 2);
            lemma_tdiv_sign(s.y as int, 2);
        }
        let r = Vec2 { x: half(s.x), y: half(s.y) };
        assert(len == sqrt_floor(len_sq_spec(d)));
        assert(n == normalize_spec(d, len as int));
        assert(r.x == tdiv(tdiv(pen * n.x, ONE as int), 2));
        assert(r.y == tdiv(tdiv(pen * n.y, ONE as int), 2));
        r
    }
}

/// `v / 2`, rounded toward zero.
pub(crate) fn half(v: i64) -> (r: i64)
    requires
        abs(v as int) <= COORD_LIMIT,
    ensures
        r == tdiv(v as int, 2),
{
    if v >= 0 {
        v / 2
    } else {
        -((-v) / 2)
    }
}

proof fn lemma_len_sq_nonneg(d: Vec2)
    ensures
        len_sq_spec(d) >= 0,
{
    assert(d.x * d.x >= 0 && d.y * d.y >= 0) by (nonlinear_arith);
}

proof fn lemma_push_sign(p: Vec2, q: Vec2)
    requires
        in_world(p),
        in_world(q),
    ensures
        p.x - q.x >= 0 ==> push_spec(p, q).x >= 0,
        p.x - q.x <= 0 ==> push_spec(p, q).x <= 0,
        p.y - q.y >= 0 ==> push_spec(p, q).y >= 0,
        p.y - q.y <= 0 ==> push_spec(p, q).y <= 0,
        abs(push_spec(p, q).x as int) <= ENEMY_RADIUS,
        abs(push_spec(p, q).y as int) <= ENEMY_RADIUS,
{
    let d = Vec2 { x: (p.x - q.x) as i64, y: (p.y - q.y) as i64 };
    let len = sqrt_floor(len_sq_spec(d));
    lemma_len_sq_nonneg(d);
    lemma_isqrt_exists(len_sq_spec(d));
    let r0 = choose|r: int| #[trigger] is_isqrt(len_sq_spec(d), r);
    lemma_sqrt_floor(len_sq_spec(d), r0);
    if len == 0 {
    } else if len < 2 * ENEMY_RADIUS {
        let pen = 2 * ENEMY_RADIUS - len;
        let n = normalize_spec(d, len);
        lemma_tdiv_sign(d.x * ONE, len);
        lemma_tdiv_sign(d.y * ONE, len);
        assert(d.x >= 0 ==> d.x * ONE >= 0) by (nonlinear_arith);
        assert(d.x <= 0 ==> d.x * ONE <= 0) by (nonlinear_arith);
        assert(d.y >= 0 ==> d.y * ONE >= 0) by (nonlinear_arith);
        assert(d.y <= 0 ==> d.y * ONE <= 0) by (nonlinear_arith);
        lemma_unit_bound(d, len);
        lemma_half_push_sign(pen, n.x as int);
        lemma_half_push_sign(pen, n.y as int);
    }
}

proof fn lemma_isqrt_exists(n: int)
    requires
        n >= 0,
    ensures
        exists|r: int| #[trigger] is_isqrt(n, r),
    decreases n,
{
    if n == 0 {
        assert(is_isqrt(0, 0));
    } else {
        lemma_isqrt_exists(n - 1);
        let r = choose|r: int| #[trigger] is_isqrt(n - 1, r);
        if (r + 1) * (r + 1) <= n {
            assert((r + 2) * (r + 2) > n) by (nonlinear_arith)
                requires n - 1 < (r + 1) * (r + 1), r >= 0;
            assert(is_isqrt(n, r + 1));
        } else {
            assert(is_isqrt(n, r));
        }
    }
}

proof fn lemma_tdiv_sign(a: int, b: int)
    requires
        b > 0,
    ensures
        a >= 0 ==> tdiv(a, b) >= 0,
        a <= 0 ==> tdiv(a, b) <= 0,
        abs(tdiv(a, b)) <= abs(a),
{
    if a >= 0 {
        assert(a / b <= a) by (nonlinear_arith) requires a >= 0, b > 0;
        assert(a / b >= 0) by (nonlinear_arith) requires a >= 0, b > 0;
    } else {
        assert((-a) / b <= -a) by (nonlinear_arith) requires -a >= 0, b > 0;
        assert((-a) / b >= 0) by (nonlinear_arith) requires -a >= 0, b > 0;
    }
}

proof fn lemma_unit_bound(d: Vec2, len: int)
    requires
        len >= 1,
        is_isqrt(len_sq_spec(d), len) || len == sqrt_floor(len_sq_spec(d)),
        abs(d.x as int) <= 2 * WORLD_LIMIT,
        abs(d.y as int) <= 2 * WORLD_LIMIT,
    ensures
        abs(normalize_spec(d, len).x as int) <= ONE,
        abs(normalize_spec(d, len).y as int) <= ONE,
{
    lemma_len_sq_nonneg(d);
    lemma_isqrt_exists(len_sq_spec(d));
    let r = choose|r: int| #[trigger] is_isqrt(len_sq_spec(d), r);
    lemma_sqrt_floor(len_sq_spec(d), r);
    assert(is_isqrt(len_sq_spec(d), len));
    assert(abs(d.x as int) <= len && abs(d.y as int) <= len) by (nonlinear_arith)
        requires d.x * d.x + d.y * d.y < (len + 1) * (len + 1), len >= 1;
    lemma_scale_div_bound(d.x as int, len);
    lemma_scale_div_bound(d.y as int, len);
}

proof fn lemma_scale_div_bound(v: int, len: int)
    requires
        len >= 1,
        abs(v) <= len,
    ensures
        abs(tdiv(v * ONE, len)) <= ONE,
{
    if v >= 0 {
        assert((v * ONE) / len <= ONE) by (nonlinear_arith) requires 0 <= v <= len, len >= 1;
        assert((v * ONE) / len >= 0) by (nonlinear_arith) requires 0 <= v, len >= 1;
    } else {
        assert(((-v) * ONE) / len <= ONE) by (nonlinear_arith) requires 0 <= -v <= len, len >= 1;
        assert(((-v) * ONE) / len >= 0) by (nonlinear_arith) requires 0 <= -v, len >= 1;
        assert(-(v * ONE) == (-v) * ONE);
    }
}

proof fn lemma_half_push_sign(pen: int, u: int)
    requires
        0 < pen <= 2 * ENEMY_RADIUS,
        abs(u) <= ONE,
    ensures
        u >= 0 ==> tdiv(tdiv(pen * u, ONE as int), 2) >= 0,
        u <= 0 ==> tdiv(tdiv(pen * u, ONE as int), 2) <= 0,
        abs(tdiv(tdiv(pen * u, ONE as int), 2)) <= ENEMY_RADIUS,
{
    assert(u >= 0 ==> pen * u >= 0) by (nonlinear_arith) requires pen > 0;
    assert(u <= 0 ==> pen * u <= 0) by (nonlinear_arith) requires pen > 0;
    assert(abs(pen * u) <= pen * ONE) by (nonlinear_arith) requires pen > 0, abs(u) <= ONE;
    let a = pen * u;
    if a >= 0 {
        assert(a / (ONE as int) <= pen) by (nonlinear_arith) requires 0 <= a <= pen * ONE;
    } else {
        assert((-a) / (ONE as int) <= pen) by (nonlinear_arith) requires 0 <= -a <= pen * ONE;
    }
    lemma_tdiv_sign(a, ONE as int);
    lemma_tdiv_sign(tdiv(a, ONE as int), 2);
}

/// Two enemies alone, overlapping or not, are never brought closer together by
/// collision resolution: each push points away from the other enemy on both axes.
pub proof fn collision_never_closes_pair(a: Vec2, b: Vec2)
    requires
        in_world(a),
        in_world(b),
    ensures
        ({
            let r = resolve_spec(seq![a, b]);
            len_sq_spec(Vec2 { x: (r[0].x - r[1].x) as i64, y: (r[0].y - r[1].y) as i64 })
                >= len_sq_spec(Vec2 { x: (a.x - b.x) as i64, y: (a.y - b.y) as i64 })
        }),
{
    let s = seq![a, b];
    lemma_push_sign(a, a);
    lemma_push_sign(a, b);
    lemma_push_sign(b, a);
    lemma_push_sign(b, b);
    reveal_with_fuel(push_total, 3);
    let r = resolve_spec(s);
    let pa = push_total(s, a, 2);
    let pb = push_total(s, b, 2);
    assert(r[0].x == a.x + pa.x && r[1].x == b.x + pb.x);
    let dx = a.x - b.x;
    let dy = a.y - b.y;
    let nx = r[0].x - r[1].x;
    let ny = r[0].y - r[1].y;
    assert(abs(nx) >= abs(dx) && abs(ny) >= abs(dy));
    assert(nx * nx >= dx * dx) by (nonlinear_arith) requires abs(nx) >= abs(dx);
    assert(ny * ny >= dy * dy) by (nonlinear_arith) requires abs(ny) >= abs(dy);
}

/// A circle of `radius` centred at `p`, pushed out of the rectangle `r`
/// along the axis from the rectangle's nearest point to the centre, by
/// exactly the penetration depth.
pub open spec fn wall_push_spec(p: Vec2, r: Rect, radius: int) -> Vec2 {
    let snap = clamp_spec(r, p);
    let d = Vec2 { x: (p.x - snap.x) as i64, y: (p.y - snap.y) as i64 };
    let len = sqrt_floor(len_sq_spec(d));
    if len >= radius {
        p
    } else {
        let s = scaled_spec(direction(d), radius - len);
        Vec2 { x: (p.x + s.x) as i64, y: (p.y + s.y) as i64 }
    }
}

pub fn wall_push(p: Vec2, r: Rect, radius: i64) -> (q: Vec2)
    requires
        in_world(p),
        rect_ok(r),
        0 <= radius <= ONE,
    ensures
        q == wall_push_spec(p, r, radius as int),
        abs(q.x - p.x) <= radius,
        abs(q.y - p.y) <= radius,
{
    let snap = r.snap(p);
    let d = p.sub(snap);
    assert(d == (Vec2 { x: (p.x - snap.x) as i64, y: (p.y - snap.y) as i64 }));
    let len = d.length();
    if len >= radius as u64 {
        p
    } else {
        let s = scaled(d.normalize(), radius - len as i64);
        Vec2 { x: p.x + s.x, y: p.y + s.y }
    }
}

/// `p` pushed out of the buildings on the first `n` cells in turn, each
/// push followed by a clamp into `bounds`.
pub open spec fn walls_fold(p: Vec2, cells: Seq<(i32, i32)>, n: nat, radius: int, bounds: Rect) -> Vec2
    decreases n,
{
    if n == 0 {
        p
    } else {
        let q = walls_fold(p, cells, (n - 1) as nat, radius, bounds);
        clamp_spec(bounds, wall_push_spec(q, cell_rect_spec(cells[n - 1]), radius))
    }
}

/// One contact between the player at `player` and an enemy at `e`: when they
/// overlap, each is pushed half the penetration apart along the axis between
/// them (the player kept in the arena, the enemy in the world bounds).
/// Returns the new player position, the new enemy position, and whether they
/// touched.
pub open spec fn contact_step(player: Vec2, e: Vec2) -> (Vec2, Vec2, bool) {
    let d = Vec2 { x: (player.x - e.x) as i64, y: (player.y - e.y) as i64 };
    let len = sqrt_floor(len_sq_spec(d));
    if len < PLAYER_RADIUS + ENEMY_RADIUS {
        let s = scaled_spec(direction(d), (PLAYER_RADIUS + ENEMY_RADIUS - len) / 2);
        (
            clamp_spec(arena_spec(), Vec2 { x: (player.x + s.x) as i64, y: (player.y + s.y) as i64 }),
            clamp_spec(world_spec(), Vec2 { x: (e.x - s.x) as i64, y: (e.y - s.y) as i64 }),
            true,
        )
    } else {
        (player, e, false)
    }
}

/// Player position and health after contact with the first `n` enemies of
/// `es`, taken in order.
pub open spec fn contact_fold(player: Vec2, hp: int, es: Seq<Vec2>, n: nat) -> (Vec2, int)
    decreases n,
{
    if n == 0 {
        (player, hp)
    } else {
        let prev = contact_fold(player, hp, es, (n - 1) as nat);
        let c = contact_step(prev.0, es[n - 1]);
        (c.0, if c.2 { clamp_int(prev.1 - CONTACT_DAMAGE, 0, HP_MAX as int) } else { prev.1 })
    }
}

} // verus!
