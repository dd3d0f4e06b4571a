//! Bounds, velocities and movement of entities in 16.16 fixed point.
use vstd::prelude::*;
use crate::geom::{
    abs, bounded, clamp_spec, len_sq_spec, normalize_spec, rect_ok, sqrt_floor, tdiv, Rect, Vec2, COORD_LIMIT,
    ONE,
};
use crate::rules::{
    ACQUISITION_RANGE, ARENA_HALF, ENEMY_SPEED, ENEMY_STEER_RATE, MAX_DT_MS, VEL_LIMIT, WORLD_LIMIT,
};

verus! {

pub open spec fn in_world(p: Vec2) -> bool {
    -WORLD_LIMIT <= p.x <= WORLD_LIMIT && -WORLD_LIMIT <= p.y <= WORLD_LIMIT
}

pub open spec fn vel_ok(v: Vec2) -> bool {
    -VEL_LIMIT <= v.x <= VEL_LIMIT && -VEL_LIMIT <= v.y <= VEL_LIMIT
}

pub open spec fn arena_spec() -> Rect {
    Rect { x: -262144i64, y: -262144i64, w: 524288i64, h: 524288i64 }
}

pub open spec fn world_spec() -> Rect {
    Rect { x: -16777216i64, y: -16777216i64, w: 33554432i64, h: 33554432i64 }
}

pub fn arena() -> (r: Rect)
    ensures
        r == arena_spec(),
        rect_ok(r),
{
    Rect { x: -ARENA_HALF, y: -ARENA_HALF, w: 2 * ARENA_HALF, h: 2 * ARENA_HALF }
}

pub fn world() -> (r: Rect)
    ensures
        r == world_spec(),
        rect_ok(r),
{
    Rect { x: -WORLD_LIMIT, y: -WORLD_LIMIT, w: 2 * WORLD_LIMIT, h: 2 * WORLD_LIMIT }
}

/// `p` held inside the world bounds.
pub fn clamp_world(p: Vec2) -> (r: Vec2)
    requires
        bounded(p),
    ensures
        r == clamp_spec(world_spec(), p),
        in_world(r),
{
    world().snap(p)
}

/// Offset of a unit vector `u` (length `ONE`) scaled to length `k`.
pub open spec fn scaled_spec(u: Vec2, k: int) -> Vec2 {
    Vec2 { x: tdiv(u.x * k, ONE as int) as i64, y: tdiv(u.y * k, ONE as int) as i64 }
}

fn scale_comp(u: i64, k: i64) -> (r: i64)
    requires
        -ONE <= u <= ONE,
        0 <= k <= COORD_LIMIT,
    ensures
        r == tdiv(u * k, ONE as int),
        abs(r as int) <= k,
        u >= 0 ==> r >= 0,
        u <= 0 ==> r <= 0,
{
    assert(abs(u * k) <= ONE * k) by (nonlinear_arith) requires -ONE <= u <= ONE, 0 <= k;
    let p = u * k;
    if p >= 0 {
        assert((p as int) / (ONE as int) <= k) by (nonlinear_arith) requires 0 <= p <= ONE * k;
        assert(u < 0 ==> p <= 0) by (nonlinear_arith) requires p == u * k, k >= 0;
        p / ONE
    } else {
        assert((-p as int) / (ONE as int) <= k) by (nonlinear_arith) requires 0 <= -p <= ONE * k;
        assert(u > 0 ==> p >= 0) by (nonlinear_arith) requires p == u * k, k >= 0;
        -((-p) / ONE)
    }
}

/// The unit vector `u` scaled to length `k`.
pub fn scaled(u: Vec2, k: i64) -> (r: Vec2)
    requires
        -ONE <= u.x <= ONE,
        -ONE <= u.y <= ONE,
        0 <= k <= COORD_LIMIT,
    ensures
        r == scaled_spec(u, k as int),
        r.x == tdiv(u.x * k, ONE as int),
        r.y == tdiv(u.y * k, ONE as int),
        abs(r.x as int) <= k,
        abs(r.y as int) <= k,
{
    Vec2 { x: scale_comp(u.x, k), y: scale_comp(u.y, k) }
}

/// Displacement of velocity `v` over `dt_ms` milliseconds.
pub open spec fn step_spec(v: Vec2, dt_ms: int) -> Vec2 {
    Vec2 { x: tdiv(v.x * dt_ms, 1000) as i64, y: tdiv(v.y * dt_ms, 1000) as i64 }
}

fn step_comp(v: i64, dt_ms: i64) -> (r: i64)
    requires
        -VEL_LIMIT <= v <= VEL_LIMIT,
        0 <= dt_ms <= MAX_DT_MS,
    ensures
        r == tdiv(v * dt_ms, 1000),
        abs(r as int) <= VEL_LIMIT / 10,
{
    assert(abs(v * dt_ms) <= VEL_LIMIT * MAX_DT_MS) by (nonlinear_arith)
        requires -VEL_LIMIT <= v <= VEL_LIMIT, 0 <= dt_ms <= MAX_DT_MS;
    let p = v * dt_ms;
    if p >= 0 {
        p / 1000
    } else {
        -((-p) / 1000)
    }
}

pub open spec fn moved_spec(p: Vec2, v: Vec2, dt_ms: int) -> Vec2 {
    Vec2 { x: (p.x + step_spec(v, dt_ms).x) as i64, y: (p.y + step_spec(v, dt_ms).y) as i64 }
}

pub open spec fn integrate_spec(p: Vec2, v: Vec2, dt_ms: int) -> Vec2 {
    clamp_spec(world_spec(), moved_spec(p, v, dt_ms))
}

pub(crate) fn moved(p: Vec2, v: Vec2, dt_ms: i64) -> (r: Vec2)
    requires
        in_world(p),
        vel_ok(v),
        0 <= dt_ms <= MAX_DT_MS,
    ensures
        r == moved_spec(p, v, dt_ms as int),
        bounded(r),
{
    let d = Vec2 { x: step_comp(v.x, dt_ms), y: step_comp(v.y, dt_ms) };
    Vec2 { x: p.x + d.x, y: p.y + d.y }
}

/// `p` moved by velocity `v` for `dt_ms` milliseconds, held inside the world.
pub fn integrate(p: Vec2, v: Vec2, dt_ms: i64) -> (r: Vec2)
    requires
        in_world(p),
        vel_ok(v),
        0 <= dt_ms <= MAX_DT_MS,
    ensures
        r == integrate_spec(p, v, dt_ms as int),
        in_world(r),
{
    clamp_world(moved(p, v, dt_ms))
}

/// The unit vector along `v`, or zero for the zero vector.
pub open spec fn direction(v: Vec2) -> Vec2 {
    normalize_spec(v, sqrt_floor(len_sq_spec(v)))
}

pub open spec fn lerp_spec(a: Vec2, b: Vec2, f: int) -> Vec2 {
    Vec2 {
        x: (a.x + tdiv((b.x - a.x) * f, ONE as int)) as i64,
        y: (a.y + tdiv((b.y - a.y) * f, ONE as int)) as i64,
    }
}

fn lerp_comp(a: i64, b: i64, f: i64) -> (r: i64)
    requires
        -ONE <= a <= ONE,
        -ONE <= b <= ONE,
        0 <= f <= ONE,
    ensures
        r == a + tdiv((b - a) * f, ONE as int),
        -ONE <= r <= ONE,
{
    if b >= a {
        assert(0 <= (b - a) * f <= (b - a) * ONE) by (nonlinear_arith) requires 0 <= b - a, 0 <= f <= ONE;
        let p = (b - a) * f;
        assert(0 <= (p as int) / (ONE as int) <= b - a) by (nonlinear_arith) requires 0 <= p <= (b - a) * ONE;
        a + p / ONE
    } else {
        assert(0 <= (a - b) * f <= (a - b) * ONE) by (nonlinear_arith) requires 0 <= a - b, 0 <= f <= ONE;
        let p = (a - b) * f;
        assert(0 <= (p as int) / (ONE as int) <= a - b) by (nonlinear_arith) requires 0 <= p <= (a - b) * ONE;
        assert(-p == (b - a) * f) by (nonlinear_arith) requires p == (a - b) * f;
        a - p / ONE
    }
}

/// Blend of `a` toward `b` by the fraction `f / ONE`; both unit-bounded.
pub fn lerp(a: Vec2, b: Vec2, f: i64) -> (r: Vec2)
    requires
        -ONE <= a.x <= ONE && -ONE <= a.y <= ONE,
        -ONE <= b.x <= ONE && -ONE <= b.y <= ONE,
        0 <= f <= ONE,
    ensures
        r == lerp_spec(a, b, f as int),
        -ONE <= r.x <= ONE && -ONE <= r.y <= ONE,
{
    Vec2 { x: lerp_comp(a.x, b.x, f), y: lerp_comp(a.y, b.y, f) }
}

/// Fraction (of `ONE`) by which an enemy turns toward its goal in `dt_ms`.
pub open spec fn steer_blend_spec(dt_ms: int) -> int {
    ENEMY_STEER_RATE * ONE * dt_ms / 1000
}

/// New velocity of an enemy at `pos` moving with `vel`: its heading blended
/// toward the player (toward zero when the player is out of range), at
/// constant speed.
pub open spec fn steer_spec(vel: Vec2, pos: Vec2, player: Vec2, dt_ms: int) -> Vec2 {
    let cur = direction(vel);
    let to_player = Vec2 { x: (player.x - pos.x) as i64, y: (player.y - pos.y) as i64 };
    let goal = if len_sq_spec(to_player) > ACQUISITION_RANGE * ACQUISITION_RANGE {
        Vec2 { x: 0, y: 0 }
    } else {
        direction(to_player)
    };
    scaled_spec(direction(lerp_spec(cur, goal, steer_blend_spec(dt_ms))), ENEMY_SPEED as int)
}

pub(crate) fn steer_one(vel: Vec2, pos: Vec2, player: Vec2, dt_ms: i64) -> (r: Vec2)
    requires
        vel_ok(vel),
        in_world(pos),
        in_world(player),
        0 <= dt_ms <= MAX_DT_MS,
    ensures
        r == steer_spec(vel, pos, player, dt_ms as int),
        vel_ok(r),
{
    let cur = vel.normalize();
    let to_player = player.sub(pos);
    assert(to_player == (Vec2 { x: (player.x - pos.x) as i64, y: (player.y - pos.y) as i64 }));
    let goal = if to_player.len_sq() > (ACQUISITION_RANGE * ACQUISITION_RANGE) as u64 {
        Vec2 { x: 0, y: 0 }
    } else {
        to_player.normalize()
    };
    assert(0 <= 327680 * dt_ms <= 32768000) by (nonlinear_arith) requires 0 <= dt_ms <= 100;
    assert(0 <= (327680 * dt_ms) / 1000 <= ONE) by (nonlinear_arith) requires 0 <= 327680 * dt_ms <= 32768000;
    let f = ENEMY_STEER_RATE * ONE * dt_ms / 1000;
    let mixed = lerp(cur, goal, f);
    scaled(mixed.normalize(), ENEMY_SPEED)
}

} // verus!
