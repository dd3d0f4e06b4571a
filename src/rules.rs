//! Tunables of the simulation and the pure rules that use them.
use vstd::prelude::*;
use crate::canvas::Vec4;
use crate::geom::{bounded, clamp_int, dot_spec, tdiv, len_sq_spec, Vec2, COORD_LIMIT, ONE};

verus! {

/// Full health.
pub const HP_MAX: i64 = 65536;

pub const PLAYER_RADIUS: i64 = 3932;
pub const PLAYER_SPEED: i64 = 65536;
pub const MELEE_RADIUS: i64 = 19661;
pub const MELEE_DAMAGE: i64 = 32768;
pub const MELEE_COOLDOWN_MS: u64 = 500;
pub const ARC_MS: u64 = 60;
pub const MELEE_NUDGE: i64 = 1966;
pub const CONTACT_DAMAGE: i64 = 655;

pub const ENEMY_RADIUS: i64 = 1966;
pub const ENEMY_SPEED: i64 = 26214;
pub const ENEMY_STEER_RATE: i64 = 5;
pub const ACQUISITION_RANGE: i64 = 65536;

pub const SCRAP_RADIUS: i64 = 1311;
pub const SUCK_RADIUS: i64 = 32768;
pub const SUCK_FORCE: i64 = 655360;

pub const PROJECTILE_SPEED: i64 = 131072;
pub const PROJECTILE_RADIUS: i64 = 1311;
pub const EXPLODE_RADIUS: i64 = 16384;
pub const SELF_DAMAGE: i64 = 13107;
pub const EXPLOSION_MS: u64 = 150;

pub const BUILDING_SIZE: i64 = 13107;
pub const WALL_COST: i64 = 3;

/// Half the side of the square arena, centred on the origin.
pub const ARENA_HALF: i64 = 262144;
/// Enemies farther than this from the player are culled.
pub const HORIZON: i64 = 265421;
/// Every entity stays within this distance of the origin on each axis.
pub const WORLD_LIMIT: i64 = 16777216;
pub const VEL_LIMIT: i64 = 262144;

pub const SPAWN_INTERVAL_MS: u64 = 1000;
pub const SPAWN_ANCHORS: u32 = 8;
pub const DAY_MS: u64 = 200000;
pub const MAX_DT_MS: u64 = 100;

pub const DAY_ENEMY_CAP: usize = 200;
pub const NIGHT_ENEMY_CAP: usize = 400;
pub const MAX_SCRAP: usize = 1024;
pub const MAX_BUILDINGS: usize = 1024;
pub const SCRAP_LIMIT: i64 = 1000000000;

pub const BASE_SPAWN_PPM: u64 = 20000;
pub const SPAWN_PPM_PER_SECOND: u64 = 100;
pub const MAX_SPAWN_PPM: u64 = 200000;

/// `hp - dmg`, held to `[0, HP_MAX]`.
pub fn apply_damage(hp: i64, dmg: i64) -> (r: i64)
    requires
        -HP_MAX <= hp <= HP_MAX,
        0 <= dmg <= HP_MAX,
    ensures
        r == clamp_int(hp - dmg, 0, HP_MAX as int),
        0 <= r <= HP_MAX,
{
    let v = hp - dmg;
    if v < 0 {
        0
    } else if v > HP_MAX {
        HP_MAX
    } else {
        v
    }
}

pub open spec fn colour_ok(c: Vec4) -> bool {
    0 <= c.x <= ONE && 0 <= c.y <= ONE && 0 <= c.z <= ONE && 0 <= c.w <= ONE
}

/// The ease factor of a health value: its square, with health first held to `[0, ONE]`.
pub open spec fn ease_spec(hp: int) -> int {
    let t = clamp_int(hp, 0, ONE as int);
    t * t / ONE as int
}

pub open spec fn ramp1(lo: int, hi: int, e: int) -> int {
    lo + tdiv((hi - lo) * e, ONE as int)
}

pub open spec fn ramp_spec(lo: Vec4, hi: Vec4, hp: int) -> Vec4 {
    let e = ease_spec(hp);
    Vec4 {
        x: ramp1(lo.x as int, hi.x as int, e) as i64,
        y: ramp1(lo.y as int, hi.y as int, e) as i64,
        z: ramp1(lo.z as int, hi.z as int, e) as i64,
        w: ramp1(lo.w as int, hi.w as int, e) as i64,
    }
}

pub open spec fn between(v: int, a: int, b: int) -> bool {
    (a <= v <= b) || (b <= v <= a)
}

fn ramp_channel(lo: i64, hi: i64, e: i64) -> (r: i64)
    requires
        0 <= lo <= ONE,
        0 <= hi <= ONE,
        0 <= e <= ONE,
    ensures
        r == ramp1(lo as int, hi as int, e as int),
        between(r as int, lo as int, hi as int),
{
    if hi >= lo {
        assert(0 <= (hi - lo) * e <= (hi - lo) * ONE) by (nonlinear_arith)
            requires 0 <= hi - lo, 0 <= e <= ONE;
        let p = (hi - lo) * e;
        assert(0 <= p / ONE <= hi - lo) by (nonlinear_arith)
            requires 0 <= p <= (hi - lo) * ONE;
        lo + p / ONE
    } else {
        assert(0 <= (lo - hi) * e <= (lo - hi) * ONE) by (nonlinear_arith)
            requires 0 <= lo - hi, 0 <= e <= ONE;
        let p = (lo - hi) * e;
        assert(0 <= p / ONE <= lo - hi) by (nonlinear_arith)
            requires 0 <= p <= (lo - hi) * ONE;
        assert(-p == (hi - lo) * e) by (nonlinear_arith) requires p == (lo - hi) * e;
        lo - p / ONE
    }
}

/// Colour for a health value: linear between `lo` and `hi`, driven by the
/// square of the health, which is first held to `[0, ONE]`, so any health
/// value gives a valid colour.
pub fn health_colour(lo: Vec4, hi: Vec4, hp: i64) -> (r: Vec4)
    requires
        colour_ok(lo),
        colour_ok(hi),
    ensures
        r == ramp_spec(lo, hi, hp as int),
        colour_ok(r),
        between(r.x as int, lo.x as int, hi.x as int),
        between(r.y as int, lo.y as int, hi.y as int),
        between(r.z as int, lo.z as int, hi.z as int),
        between(r.w as int, lo.w as int, hi.w as int),
{
    let t = if hp < 0 { 0 } else if hp > ONE { ONE } else { hp };
    assert(0 <= (t * t) as int / (ONE as int) <= ONE) by (nonlinear_arith) requires 0 <= t <= ONE;
    let e = t * t / ONE;
    Vec4 {
        x: ramp_channel(lo.x, hi.x, e),
        y: ramp_channel(lo.y, hi.y, e),
        z: ramp_channel(lo.z, hi.z, e),
        w: ramp_channel(lo.w, hi.w, e),
    }
}

pub open spec fn spawn_ppm_spec(t_ms: int) -> int {
    let p = BASE_SPAWN_PPM + (t_ms / 1000) * SPAWN_PPM_PER_SECOND;
    if p > MAX_SPAWN_PPM { MAX_SPAWN_PPM as int } else { p }
}

/// Probability, in parts per million, that a spawn anchor produces an enemy:
/// grows with time up to a ceiling.
pub fn spawn_ppm(t_ms: u64) -> (r: u32)
    ensures
        r == spawn_ppm_spec(t_ms as int),
{
    let secs = t_ms / 1000;
    if secs >= (MAX_SPAWN_PPM - BASE_SPAWN_PPM) / SPAWN_PPM_PER_SECOND {
        MAX_SPAWN_PPM as u32
    } else {
        (BASE_SPAWN_PPM + secs * SPAWN_PPM_PER_SECOND) as u32
    }
}

pub open spec fn is_night_spec(t_ms: int) -> bool {
    t_ms % (DAY_MS as int) >= DAY_MS / 2
}

/// The second half of each day cycle is night.
pub fn is_night(t_ms: u64) -> (r: bool)
    ensures
        r == is_night_spec(t_ms as int),
{
    t_ms % DAY_MS >= DAY_MS / 2
}

/// The enemy population cap: larger at night.
pub fn enemy_cap(t_ms: u64) -> (r: usize)
    ensures
        r == (if is_night_spec(t_ms as int) { NIGHT_ENEMY_CAP } else { DAY_ENEMY_CAP }),
{
    if is_night(t_ms) {
        NIGHT_ENEMY_CAP
    } else {
        DAY_ENEMY_CAP
    }
}

/// A melee strike from `player` aimed at `aim` hits an enemy at `enemy` when
/// the enemy is closer than `MELEE_RADIUS + ENEMY_RADIUS` and the angle between
/// the aim and the direction to the enemy is below half the arc, an eighth of a
/// turn: the cosine of the angle is above `1/sqrt(2)`.
pub open spec fn melee_hits_spec(player: Vec2, aim: Vec2, enemy: Vec2) -> bool {
    let a = Vec2 { x: (aim.x - player.x) as i64, y: (aim.y - player.y) as i64 };
    let v = Vec2 { x: (enemy.x - player.x) as i64, y: (enemy.y - player.y) as i64 };
    let d = dot_spec(a, v);
    len_sq_spec(v) < (MELEE_RADIUS + ENEMY_RADIUS) * (MELEE_RADIUS + ENEMY_RADIUS)
        && d > 0 && 2 * d * d > len_sq_spec(a) * len_sq_spec(v)
}

pub fn melee_hits(player: Vec2, aim: Vec2, enemy: Vec2) -> (r: bool)
    requires
        bounded(player),
        bounded(aim),
        bounded(enemy),
    ensures
        r == melee_hits_spec(player, aim, enemy),
{
    let a = aim.sub(player);
    let v = enemy.sub(player);
    let dist_sq = v.len_sq();
    let reach = MELEE_RADIUS + ENEMY_RADIUS;
    if dist_sq >= (reach * reach) as u64 {
        return false;
    }
    let d = a.dot(v);
    if d <= 0 {
        return false;
    }
    let la = a.len_sq() as i128;
    let lv = dist_sq as i128;
    assert(la * lv <= 64 * COORD_LIMIT * COORD_LIMIT * COORD_LIMIT * COORD_LIMIT) by (nonlinear_arith)
        requires 0 <= la <= 8 * COORD_LIMIT * COORD_LIMIT, 0 <= lv <= 8 * COORD_LIMIT * COORD_LIMIT;
    assert(d * d <= 64 * COORD_LIMIT * COORD_LIMIT * COORD_LIMIT * COORD_LIMIT) by (nonlinear_arith)
        requires 0 < d <= 8 * COORD_LIMIT * COORD_LIMIT;
    let dd = d * d;
    assert(2 * d * d == dd * 2) by (nonlinear_arith) requires dd == d * d;
    dd * 2 > la * lv
}

} // verus!
