//! The entity simulation: state, its invariant, and one tick of it.
use vstd::prelude::*;
use crate::geom::{
    abs, bounded, clamp_int, clamp_spec, contains_spec, len_sq_spec, angle_of, remap, remap_spec, unit_at, unit_spec, rect_ok, tdiv,
    Rect, Vec2, COORD_LIMIT, ONE, TURN,
};
use crate::rng::{
    chance, hash2, khash, roll_spec,
};
use crate::canvas::{
    div_toward_zero, fan_bytes, rect_bytes, KRCanvas, PenState, Vec4, CIRCLE_SEGMENTS,
};
use crate::input::{
    FrameInputState, KeyStatus,
};
use crate::motion::{
    arena, arena_spec, clamp_world, direction, in_world, integrate, integrate_spec, moved, moved_spec, scaled,
    scaled_spec, steer_one, steer_spec, vel_ok, world, world_spec,
};
use crate::collide::{
    contact_fold, contact_step, half, push, push_total, resolve_spec, wall_push, walls_fold,
};
use crate::rules::{
    ramp_spec, apply_damage, enemy_cap, health_colour, is_night_spec, melee_hits, melee_hits_spec, spawn_ppm,
    spawn_ppm_spec, ARC_MS, ARENA_HALF, BUILDING_SIZE, CONTACT_DAMAGE, DAY_ENEMY_CAP, DAY_MS, ENEMY_RADIUS,
    EXPLODE_RADIUS, EXPLOSION_MS, HORIZON, HP_MAX, MAX_BUILDINGS, MAX_DT_MS, MAX_SCRAP, MELEE_COOLDOWN_MS,
    MELEE_DAMAGE, MELEE_NUDGE, MELEE_RADIUS, NIGHT_ENEMY_CAP, PLAYER_RADIUS, PLAYER_SPEED, PROJECTILE_RADIUS,
    PROJECTILE_SPEED, SCRAP_LIMIT, SCRAP_RADIUS, SELF_DAMAGE, SPAWN_ANCHORS, SPAWN_INTERVAL_MS, SUCK_FORCE,
    VEL_LIMIT, WALL_COST, WORLD_LIMIT,
};

verus! {

// ---------------------------------------------------------------- spawning

/// The spawn anchors: the corners and edge midpoints of the arena, in turn
/// around it.
pub open spec fn anchor_spec(k: int) -> Vec2 {
    let a = ARENA_HALF as int;
    let x = if k == 0 || k == 6 || k == 7 { -a } else if k == 1 || k == 5 { 0 } else { a };
    let y = if k <= 2 { -a } else if k == 3 || k == 7 { 0 } else { a };
    Vec2 { x: x as i64, y: y as i64 }
}

pub fn anchor(k: u32) -> (r: Vec2)
    ensures
        r == anchor_spec(k as int),
        contains_spec(arena_spec(), r),
{
    let a = ARENA_HALF;
    let x = if k == 0 || k == 6 || k == 7 { -a } else if k == 1 || k == 5 { 0 } else { a };
    let y = if k <= 2 { -a } else if k == 3 || k == 7 { 0 } else { a };
    Vec2 { x, y }
}

/// Enemies spawned at the first `k` anchors: anchor `j` spawns one when the
/// draw for `(seed, j)` falls below `ppm`, while fewer than `room` have spawned.
pub open spec fn spawned(seed: u32, ppm: u32, room: int, k: nat) -> Seq<Vec2>
    decreases k,
{
    if k == 0 {
        Seq::empty()
    } else {
        let prev = spawned(seed, ppm, room, (k - 1) as nat);
        if prev.len() < room && roll_spec(seed, (k - 1) as u32) < ppm {
            prev.push(anchor_spec(k - 1))
        } else {
            prev
        }
    }
}

// ---------------------------------------------------------------- buildings

/// `a / b` rounded down.
pub open spec fn floor_div(a: int, b: int) -> int {
    a / b
}

/// The building cell that holds the world point `p`.
pub open spec fn cell_of_spec(p: Vec2) -> (i32, i32) {
    (floor_div(p.x as int, BUILDING_SIZE as int) as i32, floor_div(p.y as int, BUILDING_SIZE as int) as i32)
}

fn floor_div_exec(a: i64, b: i64) -> (r: i64)
    requires
        1 <= b <= COORD_LIMIT,
        abs(a as int) <= COORD_LIMIT,
    ensures
        r == floor_div(a as int, b as int),
        abs(r as int) <= COORD_LIMIT,
{
    if a >= 0 {
        assert((a as int) / (b as int) <= a) by (nonlinear_arith) requires a >= 0, b >= 1;
        a / b
    } else {
        let q = (-a + b - 1) / b;
        assert(-q == (a as int) / (b as int)) by (nonlinear_arith)
            requires a < 0, b >= 1, q == (-a + b - 1) as int / (b as int);
        assert(q <= -a) by (nonlinear_arith) requires a < 0, b >= 1, q == (-a + b - 1) as int / (b as int);
        -q
    }
}

pub fn cell_of(p: Vec2) -> (r: (i32, i32))
    requires
        bounded(p),
    ensures
        r == cell_of_spec(p),
{
    let i = floor_div_exec(p.x, BUILDING_SIZE);
    let j = floor_div_exec(p.y, BUILDING_SIZE);
    assert(abs(i as int) <= COORD_LIMIT / 13107 + 1) by (nonlinear_arith)
        requires i == (p.x as int) / 13107, abs(p.x as int) <= COORD_LIMIT;
    assert(abs(j as int) <= COORD_LIMIT / 13107 + 1) by (nonlinear_arith)
        requires j == (p.y as int) / 13107, abs(p.y as int) <= COORD_LIMIT;
    (i as i32, j as i32)
}

/// The square that a building on cell `c` covers.
pub open spec fn cell_rect_spec(c: (i32, i32)) -> Rect {
    Rect { x: (c.0 * BUILDING_SIZE) as i64, y: (c.1 * BUILDING_SIZE) as i64, w: BUILDING_SIZE, h: BUILDING_SIZE }
}

pub fn cell_rect(c: (i32, i32)) -> (r: Rect)
    requires
        cell_ok(c),
    ensures
        r == cell_rect_spec(c),
        rect_ok(r),
{
    Rect { x: c.0 as i64 * BUILDING_SIZE, y: c.1 as i64 * BUILDING_SIZE, w: BUILDING_SIZE, h: BUILDING_SIZE }
}

// ---------------------------------------------------------------- projectile

pub open spec fn touches_enemy(p: Vec2, e: Vec2) -> bool {
    len_sq_spec(Vec2 { x: (e.x - p.x) as i64, y: (e.y - p.y) as i64 })
        < (ENEMY_RADIUS + PROJECTILE_RADIUS) * (ENEMY_RADIUS + PROJECTILE_RADIUS)
}

/// The projectile at `p` reaches into the rectangle dilated by its radius.
pub open spec fn touches_rect(p: Vec2, r: Rect) -> bool {
    let snap = clamp_spec(r, p);
    len_sq_spec(Vec2 { x: (p.x - snap.x) as i64, y: (p.y - snap.y) as i64 }) < PROJECTILE_RADIUS * PROJECTILE_RADIUS
}

/// `q` lies strictly within the blast of an explosion at `c`.
pub open spec fn in_blast(c: Vec2, q: Vec2) -> bool {
    len_sq_spec(Vec2 { x: (q.x - c.x) as i64, y: (q.y - c.y) as i64 }) < EXPLODE_RADIUS * EXPLODE_RADIUS
}

pub fn blast_hits(c: Vec2, q: Vec2) -> (r: bool)
    requires
        in_world(c),
        in_world(q),
    ensures
        r == in_blast(c, q),
{
    let d = q.sub(c);
    assert(d == (Vec2 { x: (q.x - c.x) as i64, y: (q.y - c.y) as i64 }));
    d.len_sq() < (EXPLODE_RADIUS * EXPLODE_RADIUS) as u64
}

pub open spec fn vel_rect_spec() -> Rect {
    Rect { x: -262144i64, y: -262144i64, w: 524288i64, h: 524288i64 }
}

fn vel_rect() -> (r: Rect)
    ensures
        r == vel_rect_spec(),
        rect_ok(r),
{
    Rect { x: -VEL_LIMIT, y: -VEL_LIMIT, w: 2 * VEL_LIMIT, h: 2 * VEL_LIMIT }
}

/// Units per second of a displacement `d` over `dt_ms` milliseconds.
fn rate(d: i64, dt_ms: i64) -> (r: i64)
    requires
        abs(d as int) <= 2 * WORLD_LIMIT,
        0 < dt_ms <= MAX_DT_MS,
    ensures
        r == tdiv(d * 1000, dt_ms as int),
        abs(r as int) <= 2000 * WORLD_LIMIT,
{
    let p = d * 1000;
    if p >= 0 {
        assert((p as int) / (dt_ms as int) <= p) by (nonlinear_arith) requires p >= 0, dt_ms >= 1;
        p / dt_ms
    } else {
        assert((-p as int) / (dt_ms as int) <= -p) by (nonlinear_arith) requires -p >= 0, dt_ms >= 1;
        -((-p) / dt_ms)
    }
}

// ---------------------------------------------------------------- pickups

/// Square of `PLAYER_RADIUS + SCRAP_RADIUS + SUCK_RADIUS`, the distance within
/// which pickups are drawn toward the player.
pub const ATTRACT_RANGE_SQ: u64 = 1444836121;

/// A pickup at `p` is touching the player at `player`.
pub open spec fn in_contact(player: Vec2, p: Vec2) -> bool {
    len_sq_spec(Vec2 { x: (player.x - p.x) as i64, y: (player.y - p.y) as i64 })
        < (PLAYER_RADIUS + SCRAP_RADIUS) * (PLAYER_RADIUS + SCRAP_RADIUS)
}

pub fn contact(player: Vec2, p: Vec2) -> (r: bool)
    requires
        in_world(player),
        in_world(p),
    ensures
        r == in_contact(player, p),
{
    let d = player.sub(p);
    assert(d == (Vec2 { x: (player.x - p.x) as i64, y: (player.y - p.y) as i64 }));
    d.len_sq() < ((PLAYER_RADIUS + SCRAP_RADIUS) * (PLAYER_RADIUS + SCRAP_RADIUS)) as u64
}

/// Velocity of a pickup at `p` after one tick: accelerated toward the player
/// when within the attraction radius, at rest otherwise.
pub open spec fn attract_spec(player: Vec2, p: Vec2, vel: Vec2, dt_ms: int) -> Vec2 {
    let d = Vec2 { x: (player.x - p.x) as i64, y: (player.y - p.y) as i64 };
    if len_sq_spec(d) < ATTRACT_RANGE_SQ {
        let a = scaled_spec(direction(d), SUCK_FORCE * dt_ms / 1000);
        clamp_spec(vel_rect_spec(), Vec2 { x: (vel.x + a.x) as i64, y: (vel.y + a.y) as i64 })
    } else {
        Vec2 { x: 0, y: 0 }
    }
}

fn attract(player: Vec2, p: Vec2, vel: Vec2, dt_ms: i64) -> (r: Vec2)
    requires
        in_world(player),
        in_world(p),
        vel_ok(vel),
        0 <= dt_ms <= MAX_DT_MS,
    ensures
        r == attract_spec(player, p, vel, dt_ms as int),
        vel_ok(r),
{
    let d = player.sub(p);
    assert(d == (Vec2 { x: (player.x - p.x) as i64, y: (player.y - p.y) as i64 }));
    if d.len_sq() < ATTRACT_RANGE_SQ {
        assert(0 <= 655360 * dt_ms <= 65536000) by (nonlinear_arith) requires 0 <= dt_ms <= 100;
        let a = scaled(d.normalize(), SUCK_FORCE * dt_ms / 1000);
        vel_rect().snap(Vec2 { x: vel.x + a.x, y: vel.y + a.y })
    } else {
        Vec2 { x: 0, y: 0 }
    }
}

// ---------------------------------------------------------------- ground detail

/// Spacing of the grid on which ground detail may grow.
pub const GRASS_SPACING: i64 = 9830;

/// Whether a tuft grows on grid site `(i, j)`, and its seed: a spatial hash,
/// so the detail is the same every frame without being stored.
pub fn grass_site(i: i64, j: i64) -> (r: (bool, u32))
    ensures
        r.1 == crate::rng::hash2_spec(crate::rng::khash_spec(i as u32) ^ 69u32, j as u32),
        r.0 == (roll_spec(r.1, 0) < 200000),
{
    let seed = hash2(khash(i as u32) ^ 69u32, j as u32);
    (chance(seed, 0, 200000), seed)
}

fn grass_tuft(x: i64, y: i64, kc: &mut KRCanvas)
    requires
        old(kc).wf(),
        -WORLD_LIMIT <= x <= WORLD_LIMIT,
        -WORLD_LIMIT <= y <= WORLD_LIMIT,
    ensures
        final(kc).wf(),
{
    kc.set_depth(72090);
    kc.set_colour(Vec4 { x: 0, y: 0, z: 0, w: 26214 });
    kc.triangle(Vec2 { x, y }, Vec2 { x: x + 655, y }, Vec2 { x: x - 1311, y: y - 1966 });
    kc.triangle(Vec2 { x, y }, Vec2 { x: x + 655, y }, Vec2 { x: x - 1966, y: y - 1638 });
    kc.triangle(Vec2 { x, y }, Vec2 { x: x + 655, y }, Vec2 { x: x - 655, y: y - 1638 });
    kc.set_depth(78643);
    kc.set_colour(Vec4 { x: 13107, y: 52429, z: 0, w: ONE });
    kc.triangle(Vec2 { x, y }, Vec2 { x: x + 655, y }, Vec2 { x, y: y - 1966 });
    kc.triangle(Vec2 { x, y }, Vec2 { x: x + 655, y }, Vec2 { x: x - 655, y: y - 1638 });
    kc.triangle(Vec2 { x, y }, Vec2 { x: x + 655, y }, Vec2 { x: x + 655, y: y - 1638 });
}

/// Ground detail over the camera rectangle.
fn draw_grass(camera: Rect, kc: &mut KRCanvas)
    requires
        old(kc).wf(),
        rect_ok(camera),
    ensures
        final(kc).wf(),
{
    let i0 = floor_div_exec(camera.x, GRASS_SPACING) - 1;
    let i1 = floor_div_exec(camera.x + camera.w, GRASS_SPACING) + 1;
    let j0 = floor_div_exec(camera.y, GRASS_SPACING) - 1;
    let j1 = floor_div_exec(camera.y + camera.h, GRASS_SPACING) + 1;
    let lim = WORLD_LIMIT / GRASS_SPACING - 1;
    let i0 = if i0 < -lim { -lim } else { i0 };
    let i1 = if i1 > lim { lim } else { i1 };
    let j0 = if j0 < -lim { -lim } else { j0 };
    let j1 = if j1 > lim { lim } else { j1 };
    let mut i = i0;
    while i <= i1
        invariant
            kc.wf(),
            -lim <= i0,
            i1 <= lim,
            -lim <= j0,
            j1 <= lim,
            lim == WORLD_LIMIT / GRASS_SPACING - 1,
            i0 <= i <= i1 + 1 || i == i0,
        decreases i1 + 1 - i,
    {
        let mut j = j0;
        while j <= j1
            invariant
                kc.wf(),
                -lim <= i0 <= i <= i1 <= lim,
                -lim <= j0,
                j1 <= lim,
                lim == WORLD_LIMIT / GRASS_SPACING - 1,
                j0 <= j <= j1 + 1 || j == j0,
            decreases j1 + 1 - j,
        {
            let (grows, seed) = grass_site(i, j);
            if grows {
                let xo = crate::rng::uniform(seed, 1231513, -1966, 1966);
                let yo = crate::rng::uniform(seed, 1238987, -1966, 1966);
                let x = i * GRASS_SPACING + GRASS_SPACING / 2 + xo;
                let y = j * GRASS_SPACING + GRASS_SPACING / 2 + yo;
                grass_tuft(x, y, kc);
            }
            j = j + 1;
        }
        i = i + 1;
    }
}

/// Whatever the player's position before the boundary clamp, the clamped
/// position lies inside the arena.
pub proof fn clamp_keeps_player_in_arena(p: Vec2)
    ensures
        contains_spec(arena_spec(), clamp_spec(arena_spec(), p)),
{
}

/// An enemy at `e` struck by the player at `player`: moved `MELEE_NUDGE`
/// away from the player, within the world bounds.
pub open spec fn nudged(e: Vec2, player: Vec2) -> Vec2 {
    let n = scaled_spec(direction(Vec2 { x: (e.x - player.x) as i64, y: (e.y - player.y) as i64 }), MELEE_NUDGE as int);
    clamp_spec(world_spec(), Vec2 { x: (e.x + n.x) as i64, y: (e.y + n.y) as i64 })
}

// ---------------------------------------------------------------- tick

/// `v / 5`, rounded toward zero.
fn fifth(v: i64) -> (r: i64)
    requires
        abs(v as int) <= 4 * COORD_LIMIT,
    ensures
        r == tdiv(v as int, 5),
{
    if v >= 0 { v / 5 } else { -((-v) / 5) }
}

/// The camera rectangle: `zoom` high, as wide as the screen's aspect (at
/// most four to one) allows, centred on `center`.
pub open spec fn camera_spec(zoom: int, center: Vec2, screen: Rect) -> Rect {
    let sw = if screen.w > 4 * screen.h { 4 * screen.h } else { screen.w as int };
    let w = zoom * sw / (screen.h as int);
    Rect { x: (center.x - w / 2) as i64, y: (center.y - zoom / 2) as i64, w: w as i64, h: zoom as i64 }
}

/// Milliseconds a tick covers: the snapshot's, at most `MAX_DT_MS`.
pub open spec fn dt_spec(inputs: FrameInputState) -> i64 {
    if inputs.dt_ms > MAX_DT_MS { MAX_DT_MS as i64 } else { inputs.dt_ms as i64 }
}

/// The zoom after one tick of scrolling, held to `[ZOOM_MIN, ZOOM_MAX]`.
pub open spec fn zoom_spec(z: int, inputs: FrameInputState) -> i64 {
    let z1 = if inputs.scroll_up { z * 10 / 11 } else if inputs.scroll_down { z / 10 * 11 } else { z };
    clamp_int(z1, ZOOM_MIN as int, ZOOM_MAX as int) as i64
}

/// The building kind toggled by the build key.
pub open spec fn toggled(k: Option<i32>) -> Option<i32> {
    match k {
        Some(0) => None,
        _ => Some(0),
    }
}

// ---------------------------------------------------------------- scene

/// Bytes of a filled circle drawn at `depth` in `colour` through `camera`.
pub open spec fn disc_bytes(depth: int, colour: Vec4, camera: Rect, center: Vec2, radius: int) -> Seq<u8> {
    fan_bytes(PenState { depth: depth as i64, colour, camera }, center, radius, 0, TURN as int,
        CIRCLE_SEGMENTS as int, CIRCLE_SEGMENTS as nat)
}

/// The rectangle `r` grown on every side by `d`.
pub open spec fn dilated_spec(r: Rect, d: int) -> Rect {
    Rect {
        x: (r.x - d) as i64,
        y: (r.y - d) as i64,
        w: clamp_int(r.w + 2 * d, 0, 4 * COORD_LIMIT) as i64,
        h: clamp_int(r.h + 2 * d, 0, 4 * COORD_LIMIT) as i64,
    }
}

/// The first `n` buildings: a grey square and a darker inset square each.
pub open spec fn buildings_bytes(cells: Seq<(i32, i32)>, camera: Rect, n: nat) -> Seq<u8>
    decreases n,
{
    if n == 0 {
        Seq::empty()
    } else {
        let r = cell_rect_spec(cells[n - 1]);
        buildings_bytes(cells, camera, (n - 1) as nat)
            + rect_bytes(PenState { depth: 98304, colour: Vec4 { x: 32768, y: 32768, z: 32768, w: ONE }, camera }, r)
            + rect_bytes(PenState { depth: 104858, colour: Vec4 { x: 19661, y: 19661, z: 19661, w: ONE }, camera },
                dilated_spec(r, -655))
    }
}

/// Height by which pickups bob at clock time `t`.
pub open spec fn bob_lift(t: int) -> int {
    tdiv(unit_spec((t % 2094) * TURN / 2094).y as int, 66)
}

/// The first `n` pickups: a shadow, and the pickup bobbing above it.
pub open spec fn pickups_bytes(ps: Seq<Vec2>, t: int, camera: Rect, n: nat) -> Seq<u8>
    decreases n,
{
    if n == 0 {
        Seq::empty()
    } else {
        let p = ps[n - 1];
        pickups_bytes(ps, t, camera, (n - 1) as nat)
            + disc_bytes(72090, Vec4 { x: 0, y: 0, z: 0, w: 26214 }, camera, p, SCRAP_RADIUS as int)
            + disc_bytes(98304, Vec4 { x: 0, y: 0, z: ONE, w: ONE }, camera,
                Vec2 { x: p.x, y: (p.y - 3277 + bob_lift(t)) as i64 }, SCRAP_RADIUS as int)
    }
}

/// The first `n` enemies: a disc coloured by health, larger with more scrap.
pub open spec fn enemies_bytes(g: Game, camera: Rect, n: nat) -> Seq<u8>
    decreases n,
{
    if n == 0 {
        Seq::empty()
    } else {
        let i = n - 1;
        enemies_bytes(g, camera, (n - 1) as nat)
            + disc_bytes(98304, ramp_spec(Vec4 { x: ONE, y: 0, z: 0, w: ONE }, Vec4 { x: 0, y: 0, z: 0, w: ONE },
                g.enemy_hp[i] as int), camera, g.enemy_pos[i], ENEMY_RADIUS + 1311 * g.enemy_scrap[i])
    }
}

// ---------------------------------------------------------------- state

/// `ONE` along an axis: toward the positive key, away from the negative one,
/// zero when both or neither are held.
pub open spec fn axis_spec(neg: bool, pos: bool) -> i64 {
    ((if pos { ONE } else { 0 }) - (if neg { ONE } else { 0 })) as i64
}

fn axis(neg: bool, pos: bool) -> (r: i64)
    ensures
        r == axis_spec(neg, pos),
{
    (if pos { ONE } else { 0 }) - (if neg { ONE } else { 0 })
}

/// The player's velocity after one tick of input: halfway from the old
/// velocity to the held direction at full speed.
pub open spec fn player_vel_spec(vel: Vec2, input: FrameInputState) -> Vec2 {
    let steer = Vec2 {
        x: axis_spec(input.left.is_held(), input.right.is_held()),
        y: axis_spec(input.up.is_held(), input.down.is_held()),
    };
    let target = scaled_spec(direction(steer), PLAYER_SPEED as int);
    Vec2 { x: tdiv(vel.x + target.x, 2) as i64, y: tdiv(vel.y + target.y, 2) as i64 }
}

pub const ZOOM_MIN: i64 = 26214;
pub const ZOOM_MAX: i64 = 327680;
/// Building cells lie within this many cells of the origin on each axis.
pub const CELL_LIMIT: i32 = 64;

pub open spec fn cell_ok(c: (i32, i32)) -> bool {
    -CELL_LIMIT <= c.0 <= CELL_LIMIT && -CELL_LIMIT <= c.1 <= CELL_LIMIT
}

#[derive(Clone, Copy, Debug, PartialEq, Eq, Structural)]
pub struct Projectile {
    pub pos: Vec2,
    pub vel: Vec2,
}

/// Entity state of the arena. Each entity kind is kept as parallel arrays
/// indexed by position; removal swaps the last entry into the gap.
pub struct Game {
    /// Height of the camera rectangle, in world units.
    pub zoom_level: i64,
    pub player_pos: Vec2,
    pub player_vel: Vec2,
    /// Player health in `[0, HP_MAX]`; zero is the dead state.
    pub player_hp: i64,
    /// Scrap collected and not yet spent.
    pub player_scrap: i64,
    /// Clock time at which the next melee strike is allowed.
    pub player_next_t: u64,
    /// Clock time until which the melee arc is drawn.
    pub player_draw_arc_t: u64,
    /// The building kind being placed, if any.
    pub player_place_building_kind: Option<i32>,
    pub projectile: Option<Projectile>,
    pub explosion_pos: Vec2,
    /// Clock time until which the last explosion is drawn.
    pub explosion_until: u64,
    pub scrap_pos: Vec<Vec2>,
    pub scrap_vel: Vec<Vec2>,
    pub enemy_hp: Vec<i64>,
    pub enemy_vel: Vec<Vec2>,
    pub enemy_pos: Vec<Vec2>,
    /// Scrap each enemy carries; it makes the enemy larger.
    pub enemy_scrap: Vec<i64>,
    pub building_pos: Vec<(i32, i32)>,
    pub building_hp: Vec<i64>,
    pub building_kind: Vec<i32>,
    pub paused: bool,
    /// Simulation clock, in milliseconds.
    pub t: u64,
    /// Clock time after which the next spawn round happens.
    pub next_spawn_t: u64,
}

pub open spec fn enemies_ok(pos: Seq<Vec2>, vel: Seq<Vec2>, hp: Seq<i64>, scrap: Seq<i64>) -> bool {
    &&& vel.len() == pos.len()
    &&& hp.len() == pos.len()
    &&& scrap.len() == pos.len()
    &&& pos.len() <= NIGHT_ENEMY_CAP
    &&& forall|i: int| 0 <= i < pos.len() ==> #[trigger] in_world(pos[i])
    &&& forall|i: int| 0 <= i < vel.len() ==> #[trigger] vel_ok(vel[i])
    &&& forall|i: int| 0 <= i < hp.len() ==> 0 <= #[trigger] hp[i] <= HP_MAX
    &&& forall|i: int| 0 <= i < scrap.len() ==> 0 <= #[trigger] scrap[i] <= 16
}

impl Game {
    /// The state of a fresh game, as `new` makes it.
    pub open spec fn fresh_spec(r: Game) -> bool {
        &&& r.zoom_level == ONE
        &&& r.player_pos == (Vec2 { x: 0, y: 0 })
        &&& r.player_vel == (Vec2 { x: 0, y: 0 })
        &&& r.player_hp == HP_MAX
        &&& r.player_scrap == 0
        &&& r.player_next_t == 0
        &&& r.player_draw_arc_t == 0
        &&& r.player_place_building_kind.is_none()
        &&& r.projectile.is_none()
        &&& r.explosion_pos == (Vec2 { x: 0, y: 0 })
        &&& r.explosion_until == 0
        &&& r.scrap_pos@ == seq![Vec2 { x: ONE, y: ONE }, Vec2 { x: 98304, y: 98304 }]
        &&& r.scrap_vel@ == seq![Vec2 { x: 0, y: 0 }, Vec2 { x: 0, y: 0 }]
        &&& r.enemy_pos@.len() == 0
        &&& r.enemy_vel@.len() == 0
        &&& r.enemy_hp@.len() == 0
        &&& r.enemy_scrap@.len() == 0
        &&& r.building_pos@.len() == 0
        &&& r.building_hp@.len() == 0
        &&& r.building_kind@.len() == 0
        &&& !r.paused
        &&& r.t == 0
        &&& r.next_spawn_t == 0
    }

    /// One tick from `a` to `b` on `inputs`, step by step through the
    /// intermediate states `g0` to `g15`, each step as its own relation says:
    /// reset, zoom and clock; spawning; culling; player movement; the camera
    /// and the pointer `aim` in the world; the build key; the primary button
    /// (wall or melee strike); the secondary button (projectile); enemy
    /// steering; enemy collisions; walls; player contact; velocity
    /// reconciliation against the positions before steering; the projectile;
    /// deaths and drops; pickups; and the boundary clamp.
    pub open spec fn tick_chain(
        a: Game, b: Game, inputs: FrameInputState, camera: Rect, aim: Vec2,
        g0: Game, g1: Game, g2: Game, g3: Game, g4: Game, g5: Game, g6: Game, g7: Game,
        g8: Game, g9: Game, g10: Game, g11: Game, g12: Game, g13: Game, g14: Game, g15: Game,
    ) -> bool {
        let dt = dt_spec(inputs);
        let alive = g4.player_hp > 0;
        &&& (if inputs.reset == KeyStatus::JustPressed { Game::fresh_spec(g0) } else { g0 == a })
        &&& g1 == (Game { zoom_level: zoom_spec(g0.zoom_level as int, inputs), t: g0.t.saturating_add(inputs.dt_ms as u64), ..g0 })
        &&& Game::spawn_enemies_step(g1, g2, inputs.seed)
        &&& Game::cull_enemies_step(g2, g3)
        &&& Game::move_player_step(g3, g4, inputs, dt)
        &&& ({
            let cam0 = camera_spec(g4.zoom_level as int, g4.player_pos, inputs.screen_rect);
            let aim0 = clamp_spec(world_spec(), remap_spec(inputs.mouse_pos, inputs.screen_rect, cam0));
            let centre = Vec2 {
                x: (g4.player_pos.x + tdiv(aim0.x - g4.player_pos.x, 5)) as i64,
                y: (g4.player_pos.y + tdiv(aim0.y - g4.player_pos.y, 5)) as i64,
            };
            camera == camera_spec(g4.zoom_level as int, centre, inputs.screen_rect)
        })
        &&& aim == clamp_spec(world_spec(), remap_spec(inputs.mouse_pos, inputs.screen_rect, camera))
        &&& g5 == (if alive && inputs.build == KeyStatus::JustPressed {
            Game { player_place_building_kind: toggled(g4.player_place_building_kind), ..g4 }
        } else {
            g4
        })
        &&& (if alive && inputs.lmb == KeyStatus::JustPressed {
            if g5.player_place_building_kind.is_some() {
                Game::place_wall_step(g5, g6, aim)
            } else if g5.t >= g5.player_next_t {
                Game::melee_step(g5, g6, aim)
            } else {
                g6 == g5
            }
        } else {
            g6 == g5
        })
        &&& (if alive && inputs.rmb == KeyStatus::JustPressed && g6.projectile.is_none() {
            Game::fire_step(g6, g7, aim)
        } else {
            g7 == g6
        })
        &&& Game::steer_enemies_step(g7, g8, dt)
        &&& Game::resolve_enemy_collisions_step(g8, g9)
        &&& Game::collide_walls_step(g9, g10)
        &&& Game::player_contact_step(g10, g11)
        &&& Game::reconcile_velocities_step(g11, g12, g7.enemy_pos@, dt)
        &&& Game::step_projectile_step(g12, g13, dt)
        &&& Game::remove_dead_enemies_step(g13, g14)
        &&& Game::update_pickups_step(g14, g15, dt)
        &&& Game::clamp_player_step(g15, b)
    }

    /// What `spawn_enemies` does, relating the state before (`a`) to the state after (`b`).
    pub open spec fn spawn_enemies_step(a: Game, b: Game, seed: u32) -> bool {
        &&& b == (Game { enemy_pos: b.enemy_pos, enemy_vel: b.enemy_vel, enemy_hp: b.enemy_hp, enemy_scrap: b.enemy_scrap, next_spawn_t: b.next_spawn_t, ..a })
        &&& b.t == a.t
        &&& a.t <= a.next_spawn_t ==> b.enemy_pos@ == a.enemy_pos@
        &&& a.t > a.next_spawn_t ==> b.enemy_pos@ == a.enemy_pos@ + spawned(
                    seed, spawn_ppm_spec(a.t as int) as u32,
                    (if is_night_spec(a.t as int) { NIGHT_ENEMY_CAP } else { DAY_ENEMY_CAP }) - a.enemy_pos.len(),
                    SPAWN_ANCHORS as nat)
        &&& b.next_spawn_t == (if a.t > a.next_spawn_t {
                    if a.next_spawn_t <= u64::MAX - SPAWN_INTERVAL_MS { (a.next_spawn_t + SPAWN_INTERVAL_MS) as u64 } else { u64::MAX }
                } else {
                    a.next_spawn_t
                })
        &&& b.enemy_hp@.subrange(0, a.enemy_pos.len() as int) == a.enemy_hp@
        &&& forall|i: int| a.enemy_pos.len() <= i < b.enemy_pos.len() ==> #[trigger] b.enemy_vel[i] == (Vec2 { x: 0, y: 0 }) && b.enemy_scrap[i] == 0
        &&& forall|i: int| a.enemy_pos.len() <= i < b.enemy_pos.len() ==> #[trigger] b.enemy_hp[i] == HP_MAX
        &&& b.player_pos == a.player_pos
        &&& b.player_vel == a.player_vel
        &&& b.player_hp == a.player_hp
    }

    /// What `cull_enemies` does, relating the state before (`a`) to the state after (`b`).
    pub open spec fn cull_enemies_step(a: Game, b: Game) -> bool {
        &&& b == (Game { enemy_pos: b.enemy_pos, enemy_vel: b.enemy_vel, enemy_hp: b.enemy_hp, enemy_scrap: b.enemy_scrap, ..a })
        &&& b.t == a.t
        &&& b.enemy_pos.len() <= a.enemy_pos.len()
        &&& forall|k: int| 0 <= k < b.enemy_pos.len() ==> b.near_player(#[trigger] b.enemy_pos[k])
        &&& b.player_hp == a.player_hp
        &&& forall|j: int| 0 <= j < a.enemy_pos.len() && a.near_player(a.enemy_pos[j])
                    ==> exists|k: int| 0 <= k < b.enemy_pos.len() && #[trigger] b.enemy_pos[k] == a.enemy_pos[j]
                        && b.enemy_hp[k] == a.enemy_hp[j]
        &&& b.player_pos == a.player_pos
    }

    /// What `move_player` does, relating the state before (`a`) to the state after (`b`).
    pub open spec fn move_player_step(a: Game, b: Game, input: FrameInputState, dt_ms: i64) -> bool {
        &&& b == (Game { player_pos: b.player_pos, player_vel: b.player_vel, ..a })
        &&& b.t == a.t
        &&& a.dead_spec() ==> b.player_pos == a.player_pos
        &&& !a.dead_spec() ==> b.player_vel == player_vel_spec(a.player_vel, input)
        &&& !a.dead_spec() ==> b.player_pos == clamp_spec(arena_spec(),
                    moved_spec(a.player_pos, b.player_vel, dt_ms as int))
        &&& b.enemy_pos@ == a.enemy_pos@
        &&& b.enemy_vel@ == a.enemy_vel@
        &&& b.enemy_hp@ == a.enemy_hp@
        &&& b.enemy_scrap@ == a.enemy_scrap@
        &&& b.player_hp == a.player_hp
    }

    /// What `place_wall` does, relating the state before (`a`) to the state after (`b`).
    pub open spec fn place_wall_step(a: Game, b: Game, aim: Vec2) -> bool {
        &&& b == (Game { building_pos: b.building_pos, building_kind: b.building_kind, building_hp: b.building_hp, player_scrap: b.player_scrap, ..a })
        &&& b.t == a.t
        &&& ({
                    let c = cell_of_spec(aim);
                    let ok = cell_ok(c) && a.player_scrap >= WALL_COST
                        && a.building_pos.len() < MAX_BUILDINGS;
                    &&& ok ==> b.building_pos@ == a.building_pos@.push(c)
                        && b.building_kind@ == a.building_kind@.push(0)
                        && b.building_hp@ == a.building_hp@.push((4 * HP_MAX) as i64)
                        && b.player_scrap == a.player_scrap - WALL_COST
                    &&& !ok ==> b.building_pos@ == a.building_pos@
                        && b.building_kind@ == a.building_kind@
                        && b.building_hp@ == a.building_hp@
                        && b.player_scrap == a.player_scrap
                })
        &&& b.enemy_pos@ == a.enemy_pos@
        &&& b.enemy_hp@ == a.enemy_hp@
        &&& b.player_pos == a.player_pos
        &&& b.player_hp == a.player_hp
    }

    /// What `melee` does, relating the state before (`a`) to the state after (`b`).
    pub open spec fn melee_step(a: Game, b: Game, aim: Vec2) -> bool {
        &&& b == (Game { enemy_pos: b.enemy_pos, enemy_hp: b.enemy_hp, player_next_t: b.player_next_t, player_draw_arc_t: b.player_draw_arc_t, ..a })
        &&& b.player_next_t == a.t.saturating_add(MELEE_COOLDOWN_MS)
        &&& b.player_draw_arc_t == a.t.saturating_add(ARC_MS)
        &&& b.t == a.t
        &&& b.enemy_pos.len() == a.enemy_pos.len()
        &&& forall|i: int| 0 <= i < a.enemy_pos.len() ==> #[trigger] b.enemy_hp[i] == (
                    if melee_hits_spec(a.player_pos, aim, a.enemy_pos[i]) {
                        clamp_int(a.enemy_hp[i] - MELEE_DAMAGE, 0, HP_MAX as int) as i64
                    } else {
                        a.enemy_hp[i]
                    })
        &&& forall|i: int| 0 <= i < a.enemy_pos.len() ==> #[trigger] b.enemy_pos[i] == (
                    if melee_hits_spec(a.player_pos, aim, a.enemy_pos[i]) {
                        nudged(a.enemy_pos[i], a.player_pos)
                    } else {
                        a.enemy_pos[i]
                    })
        &&& b.player_pos == a.player_pos
        &&& b.player_vel == a.player_vel
        &&& b.player_hp == a.player_hp
    }

    /// What `fire` does, relating the state before (`a`) to the state after (`b`).
    pub open spec fn fire_step(a: Game, b: Game, aim: Vec2) -> bool {
        &&& b == (Game { projectile: b.projectile, ..a })
        &&& b.t == a.t
        &&& b.projectile == Some(Projectile {
                    pos: a.player_pos,
                    vel: scaled_spec(direction(Vec2 { x: (aim.x - a.player_pos.x) as i64,
                        y: (aim.y - a.player_pos.y) as i64 }), PROJECTILE_SPEED as int),
                })
        &&& b.enemy_pos@ == a.enemy_pos@
        &&& b.enemy_hp@ == a.enemy_hp@
        &&& b.player_pos == a.player_pos
        &&& b.player_hp == a.player_hp
    }

    /// What `steer_enemies` does, relating the state before (`a`) to the state after (`b`).
    pub open spec fn steer_enemies_step(a: Game, b: Game, dt_ms: i64) -> bool {
        &&& b == (Game { enemy_pos: b.enemy_pos, enemy_vel: b.enemy_vel, ..a })
        &&& b.t == a.t
        &&& b.enemy_pos.len() == a.enemy_pos.len()
        &&& forall|i: int| 0 <= i < a.enemy_pos.len() ==> #[trigger] b.enemy_vel[i]
                    == steer_spec(a.enemy_vel[i], a.enemy_pos[i], a.player_pos, dt_ms as int)
        &&& forall|i: int| 0 <= i < a.enemy_pos.len() ==> #[trigger] b.enemy_pos[i]
                    == integrate_spec(a.enemy_pos[i], b.enemy_vel[i], dt_ms as int)
        &&& b.enemy_hp@ == a.enemy_hp@
        &&& b.enemy_scrap@ == a.enemy_scrap@
        &&& b.player_pos == a.player_pos
        &&& b.player_vel == a.player_vel
        &&& b.player_hp == a.player_hp
    }

    /// What `resolve_enemy_collisions` does, relating the state before (`a`) to the state after (`b`).
    pub open spec fn resolve_enemy_collisions_step(a: Game, b: Game) -> bool {
        &&& b == (Game { enemy_pos: b.enemy_pos, ..a })
        &&& b.t == a.t
        &&& b.enemy_pos@ == Seq::new(a.enemy_pos@.len(), |i: int|
                    clamp_spec(world_spec(), resolve_spec(a.enemy_pos@)[i]))
        &&& b.enemy_vel@ == a.enemy_vel@
        &&& b.enemy_hp@ == a.enemy_hp@
        &&& b.enemy_scrap@ == a.enemy_scrap@
        &&& b.player_pos == a.player_pos
        &&& b.player_vel == a.player_vel
        &&& b.player_hp == a.player_hp
    }

    /// What `collide_walls` does, relating the state before (`a`) to the state after (`b`).
    pub open spec fn collide_walls_step(a: Game, b: Game) -> bool {
        &&& b == (Game { enemy_pos: b.enemy_pos, player_pos: b.player_pos, ..a })
        &&& b.t == a.t
        &&& b.player_pos == walls_fold(a.player_pos, a.building_pos@,
                    a.building_pos.len() as nat, PLAYER_RADIUS as int, arena_spec())
        &&& b.enemy_pos.len() == a.enemy_pos.len()
        &&& forall|j: int| 0 <= j < a.enemy_pos.len() ==> #[trigger] b.enemy_pos[j]
                    == walls_fold(a.enemy_pos[j], a.building_pos@, a.building_pos.len() as nat,
                        ENEMY_RADIUS as int, world_spec())
        &&& b.enemy_vel@ == a.enemy_vel@
        &&& b.enemy_hp@ == a.enemy_hp@
        &&& b.enemy_scrap@ == a.enemy_scrap@
        &&& b.player_hp == a.player_hp
        &&& b.player_vel == a.player_vel
    }

    /// What `player_contact` does, relating the state before (`a`) to the state after (`b`).
    pub open spec fn player_contact_step(a: Game, b: Game) -> bool {
        &&& b == (Game { enemy_pos: b.enemy_pos, player_pos: b.player_pos, player_hp: b.player_hp, ..a })
        &&& b.t == a.t
        &&& b.enemy_pos.len() == a.enemy_pos.len()
        &&& b.player_pos == contact_fold(a.player_pos, a.player_hp as int,
                    a.enemy_pos@, a.enemy_pos.len() as nat).0
        &&& b.player_hp == contact_fold(a.player_pos, a.player_hp as int,
                    a.enemy_pos@, a.enemy_pos.len() as nat).1
        &&& forall|k: int| 0 <= k < a.enemy_pos.len() ==> #[trigger] b.enemy_pos[k]
                    == contact_step(contact_fold(a.player_pos, a.player_hp as int, a.enemy_pos@,
                        k as nat).0, a.enemy_pos[k]).1
        &&& b.player_hp <= a.player_hp
        &&& b.enemy_vel@ == a.enemy_vel@
        &&& b.enemy_hp@ == a.enemy_hp@
        &&& b.enemy_scrap@ == a.enemy_scrap@
        &&& b.player_vel == a.player_vel
    }

    /// What `reconcile_velocities` does, relating the state before (`a`) to the state after (`b`).
    pub open spec fn reconcile_velocities_step(a: Game, b: Game, start: Seq<Vec2>, dt_ms: i64) -> bool {
        &&& b == (Game { enemy_vel: b.enemy_vel, ..a })
        &&& b.t == a.t
        &&& b.enemy_pos@ == a.enemy_pos@
        &&& b.enemy_hp@ == a.enemy_hp@
        &&& dt_ms == 0 ==> b.enemy_vel@ == a.enemy_vel@
        &&& dt_ms > 0 ==> forall|i: int| 0 <= i < a.enemy_pos.len() ==> #[trigger] b.enemy_vel[i]
                    == clamp_spec(vel_rect_spec(), Vec2 {
                        x: tdiv((a.enemy_pos[i].x - start[i].x) * 1000, dt_ms as int) as i64,
                        y: tdiv((a.enemy_pos[i].y - start[i].y) * 1000, dt_ms as int) as i64,
                    })
        &&& b.player_pos == a.player_pos
        &&& b.player_hp == a.player_hp
    }

    /// What `step_projectile` does, relating the state before (`a`) to the state after (`b`).
    pub open spec fn step_projectile_step(a: Game, b: Game, dt_ms: i64) -> bool {
        &&& b == (Game { projectile: b.projectile, enemy_hp: b.enemy_hp, player_hp: b.player_hp, explosion_pos: b.explosion_pos, explosion_until: b.explosion_until, ..a })
        &&& b.t == a.t
        &&& b.player_hp <= a.player_hp
        &&& b.enemy_pos@ == a.enemy_pos@
        &&& b.player_pos == a.player_pos
        &&& match a.projectile {
                    None => b.projectile.is_none() && b.player_hp == a.player_hp
                        && b.enemy_hp@ == a.enemy_hp@,
                    Some(pr) => {
                        let np = moved_spec(pr.pos, pr.vel, dt_ms as int);
                        if !contains_spec(arena_spec(), np) {
                            b.projectile.is_none() && b.player_hp == a.player_hp
                                && b.enemy_hp@ == a.enemy_hp@
                        } else if a.touches_spec(np) {
                            &&& b.projectile.is_none()
                            &&& b.explosion_pos == np
                            &&& b.explosion_until == a.t.saturating_add(EXPLOSION_MS)
                            &&& b.player_hp == (if in_blast(np, a.player_pos) {
                                clamp_int(a.player_hp - SELF_DAMAGE, 0, HP_MAX as int) as i64
                            } else {
                                a.player_hp
                            })
                            &&& forall|i: int| 0 <= i < a.enemy_pos.len() ==> #[trigger] b.enemy_hp[i] == (
                                if in_blast(np, a.enemy_pos[i]) { 0 } else { a.enemy_hp[i] })
                        } else {
                            b.projectile == Some(Projectile { pos: np, vel: pr.vel })
                                && b.player_hp == a.player_hp
                                && b.enemy_hp@ == a.enemy_hp@
                        }
                    },
                }
    }

    /// What `remove_dead_enemies` does, relating the state before (`a`) to the state after (`b`).
    pub open spec fn remove_dead_enemies_step(a: Game, b: Game) -> bool {
        &&& b == (Game { enemy_pos: b.enemy_pos, enemy_vel: b.enemy_vel, enemy_hp: b.enemy_hp, enemy_scrap: b.enemy_scrap, scrap_pos: b.scrap_pos, scrap_vel: b.scrap_vel, ..a })
        &&& b.t == a.t
        &&& forall|k: int| 0 <= k < b.enemy_hp.len() ==> #[trigger] b.enemy_hp[k] > 0
        &&& forall|j: int| 0 <= j < a.enemy_pos.len() && a.enemy_hp[j] > 0
                    ==> exists|k: int| 0 <= k < b.enemy_pos.len() && #[trigger] b.enemy_pos[k] == a.enemy_pos[j]
                        && b.enemy_hp[k] == a.enemy_hp[j]
        &&& b.scrap_pos@.subrange(0, a.scrap_pos.len() as int) == a.scrap_pos@
        &&& a.scrap_pos.len() + a.enemy_pos.len() <= MAX_SCRAP ==> b.scrap_pos.len()
                    == a.scrap_pos.len() + a.enemy_pos.len() - b.enemy_pos.len()
        &&& b.player_pos == a.player_pos
        &&& b.player_hp == a.player_hp
    }

    /// What `update_pickups` does, relating the state before (`a`) to the state after (`b`).
    pub open spec fn update_pickups_step(a: Game, b: Game, dt_ms: i64) -> bool {
        &&& b == (Game { scrap_pos: b.scrap_pos, scrap_vel: b.scrap_vel, player_scrap: b.player_scrap, ..a })
        &&& b.t == a.t
        &&& forall|k: int| 0 <= k < b.scrap_pos.len() ==> !in_contact(b.player_pos, #[trigger] b.scrap_pos[k])
        &&& forall|j: int| 0 <= j < a.scrap_pos.len() && !in_contact(a.player_pos, a.pickup_moved(j, dt_ms as int))
                    ==> exists|k: int| 0 <= k < b.scrap_pos.len() && #[trigger] b.scrap_pos[k]
                        == a.pickup_moved(j, dt_ms as int)
        &&& a.player_scrap + a.scrap_pos.len() <= SCRAP_LIMIT ==>
                    b.player_scrap == a.player_scrap + a.scrap_pos.len() - b.scrap_pos.len()
        &&& b.enemy_pos@ == a.enemy_pos@
        &&& b.enemy_hp@ == a.enemy_hp@
        &&& b.player_pos == a.player_pos
        &&& b.player_hp == a.player_hp
    }

    /// What `clamp_player` does, relating the state before (`a`) to the state after (`b`).
    pub open spec fn clamp_player_step(a: Game, b: Game) -> bool {
        &&& b == (Game { player_pos: b.player_pos, ..a })
        &&& b.t == a.t
        &&& b.player_pos == clamp_spec(arena_spec(), a.player_pos)
        &&& contains_spec(arena_spec(), b.player_pos)
        &&& b.player_hp == a.player_hp
        &&& b.enemy_hp@ == a.enemy_hp@
        &&& b.scrap_pos@ == a.scrap_pos@
    }

    pub open spec fn enemies_wf(&self) -> bool {
        enemies_ok(self.enemy_pos@, self.enemy_vel@, self.enemy_hp@, self.enemy_scrap@)
    }

    pub open spec fn player_wf(&self) -> bool {
        &&& contains_spec(arena_spec(), self.player_pos)
        &&& vel_ok(self.player_vel)
        &&& 0 <= self.player_hp <= HP_MAX
    }

    pub open spec fn scrap_wf(&self) -> bool {
        &&& self.scrap_vel.len() == self.scrap_pos.len()
        &&& self.scrap_pos.len() <= MAX_SCRAP
        &&& forall|i: int| 0 <= i < self.scrap_pos.len() ==> #[trigger] in_world(self.scrap_pos[i])
        &&& forall|i: int| 0 <= i < self.scrap_vel.len() ==> #[trigger] vel_ok(self.scrap_vel[i])
    }

    pub open spec fn buildings_wf(&self) -> bool {
        &&& self.building_hp.len() == self.building_pos.len()
        &&& self.building_kind.len() == self.building_pos.len()
        &&& self.building_pos.len() <= MAX_BUILDINGS
        &&& forall|i: int| 0 <= i < self.building_pos.len() ==> #[trigger] cell_ok(self.building_pos[i])
    }

    pub open spec fn misc_wf(&self) -> bool {
        &&& match self.projectile {
            Some(p) => contains_spec(arena_spec(), p.pos) && vel_ok(p.vel),
            None => true,
        }
        &&& in_world(self.explosion_pos)
        &&& ZOOM_MIN <= self.zoom_level <= ZOOM_MAX
        &&& 0 <= self.player_scrap <= SCRAP_LIMIT
    }

    /// Every part of `wf` but the player standing in the arena.
    pub open spec fn wf_but_position(&self) -> bool {
        &&& self.enemies_wf()
        &&& vel_ok(self.player_vel)
        &&& 0 <= self.player_hp <= HP_MAX
        &&& self.scrap_wf()
        &&& self.buildings_wf()
        &&& self.misc_wf()
    }

    pub open spec fn wf(&self) -> bool {
        &&& self.enemies_wf()
        &&& self.player_wf()
        &&& self.scrap_wf()
        &&& self.buildings_wf()
        &&& self.misc_wf()
    }

    /// The position `p` lies within the horizon of the player.
    pub open spec fn near_player(&self, p: Vec2) -> bool {
        len_sq_spec(Vec2 { x: (p.x - self.player_pos.x) as i64, y: (p.y - self.player_pos.y) as i64 })
            <= HORIZON * HORIZON
    }

    /// Where pickup `j` ends up after this tick's attraction and movement.
    pub open spec fn pickup_moved(&self, j: int, dt_ms: int) -> Vec2 {
        integrate_spec(self.scrap_pos[j], attract_spec(self.player_pos, self.scrap_pos[j], self.scrap_vel[j], dt_ms), dt_ms)
    }

    /// Whether the player has been killed (health zero).
    pub open spec fn dead_spec(&self) -> bool {
        self.player_hp <= 0
    }

    fn remove_enemy(&mut self, i: usize)
        requires
            old(self).wf(),
            i < old(self).enemy_pos.len(),
        ensures
            *final(self) == (Game { enemy_pos: final(self).enemy_pos, enemy_vel: final(self).enemy_vel, enemy_hp: final(self).enemy_hp, enemy_scrap: final(self).enemy_scrap, ..*old(self) }),
            final(self).wf(),
            final(self).t == old(self).t,
            final(self).enemy_pos@ == old(self).enemy_pos@.update(i as int, old(self).enemy_pos@.last()).drop_last(),
            final(self).enemy_vel@ == old(self).enemy_vel@.update(i as int, old(self).enemy_vel@.last()).drop_last(),
            final(self).enemy_hp@ == old(self).enemy_hp@.update(i as int, old(self).enemy_hp@.last()).drop_last(),
            final(self).enemy_scrap@ == old(self).enemy_scrap@.update(i as int, old(self).enemy_scrap@.last()).drop_last(),
            final(self).scrap_pos@ == old(self).scrap_pos@,
            final(self).scrap_vel@ == old(self).scrap_vel@,
            final(self).player_pos == old(self).player_pos,
            final(self).player_vel == old(self).player_vel,
            final(self).player_hp == old(self).player_hp,
    {
        self.enemy_pos.swap_remove(i);
        self.enemy_vel.swap_remove(i);
        self.enemy_hp.swap_remove(i);
        self.enemy_scrap.swap_remove(i);
        proof {
            let n = old(self).enemy_pos.len() as int;
            assert forall|k: int| 0 <= k < self.enemy_pos.len() implies #[trigger] in_world(self.enemy_pos[k]) by {
                assert(in_world(old(self).enemy_pos[if k == i { n - 1 } else { k }]));
            }
            assert forall|k: int| 0 <= k < self.enemy_vel.len() implies #[trigger] vel_ok(self.enemy_vel[k]) by {
                assert(vel_ok(old(self).enemy_vel[if k == i { n - 1 } else { k }]));
            }
            assert forall|k: int| 0 <= k < self.enemy_hp.len() implies 0 <= #[trigger] self.enemy_hp[k] <= HP_MAX by {
                let j = if k == i { n - 1 } else { k };
                assert(0 <= old(self).enemy_hp[j] <= HP_MAX);
            }
            assert forall|k: int| 0 <= k < self.enemy_scrap.len() implies 0 <= #[trigger] self.enemy_scrap[k] <= 16 by {
                let j = if k == i { n - 1 } else { k };
                assert(0 <= old(self).enemy_scrap[j] <= 16);
            }
        }
    }

    /// Enemy `k` of `self` has the same position, velocity, health and scrap
    /// as enemy `j` of `o`.
    pub open spec fn same_enemy(&self, k: int, o: Game, j: int) -> bool {
        &&& self.enemy_pos[k] == o.enemy_pos[j]
        &&& self.enemy_vel[k] == o.enemy_vel[j]
        &&& self.enemy_hp[k] == o.enemy_hp[j]
        &&& self.enemy_scrap[k] == o.enemy_scrap[j]
    }

    /// Removes every enemy farther than the horizon from the player; every
    /// other enemy stays, with its velocity, health and scrap.
    #[verifier::spinoff_prover]
    pub fn cull_enemies(&mut self)
        requires
            old(self).wf(),
        ensures
            *final(self) == (Game { enemy_pos: final(self).enemy_pos, enemy_vel: final(self).enemy_vel, enemy_hp: final(self).enemy_hp, enemy_scrap: final(self).enemy_scrap, ..*old(self) }),
            final(self).wf(),
            Game::cull_enemies_step(*old(self), *final(self)),
    {
        let mut idx: usize = self.enemy_pos.len();
        while idx > 0
            invariant
                *self == (Game { enemy_pos: self.enemy_pos, enemy_vel: self.enemy_vel, enemy_hp: self.enemy_hp, enemy_scrap: self.enemy_scrap, ..*old(self) }),
                self.wf(),
                self.t == old(self).t,
                idx <= self.enemy_pos.len() <= old(self).enemy_pos.len(),
                self.player_pos == old(self).player_pos,
                self.player_hp == old(self).player_hp,
                forall|k: int| 0 <= k < idx ==> self.same_enemy(k, *old(self), k),
                forall|k: int| idx <= k < self.enemy_pos.len() ==> self.near_player(#[trigger] self.enemy_pos[k]),
                forall|j: int| idx <= j < old(self).enemy_pos.len() && old(self).near_player(old(self).enemy_pos[j])
                    ==> exists|k: int| 0 <= k < self.enemy_pos.len() && #[trigger] self.same_enemy(k, *old(self), j),
            decreases idx,
        {
            idx = idx - 1;
            assert(self.same_enemy(idx as int, *old(self), idx as int));
            assert(in_world(self.enemy_pos[idx as int]));
            let d = self.enemy_pos[idx].sub(self.player_pos);
            let far = d.len_sq() > (HORIZON * HORIZON) as u64;
            if far {
                let ghost g0 = *self;
                let ghost last = g0.enemy_pos.len() - 1;
                self.remove_enemy(idx);
                proof {
                    assert forall|k: int| 0 <= k < idx implies self.same_enemy(k, *old(self), k) by {
                        assert(g0.same_enemy(k, *old(self), k));
                    }
                    assert forall|j: int| idx <= j < old(self).enemy_pos.len() && old(self).near_player(old(self).enemy_pos[j])
                        implies exists|k: int| 0 <= k < self.enemy_pos.len() && #[trigger] self.same_enemy(k, *old(self), j) by {
                        let k0 = choose|k: int| 0 <= k < g0.enemy_pos.len() && #[trigger] g0.same_enemy(k, *old(self), j);
                        assert(k0 != idx);
                        if k0 == last {
                            assert(self.same_enemy(idx as int, *old(self), j));
                        } else {
                            assert(self.same_enemy(k0, *old(self), j));
                        }
                    }
                }
            } else {
                assert(self.same_enemy(idx as int, *old(self), idx as int));
            }
        }
    }

    /// Enemy–enemy collision: every enemy is moved by half the penetration of
    /// each enemy it overlaps, all computed from the positions before any
    /// moved, then held inside the world bounds.
    #[verifier::spinoff_prover]
    pub fn resolve_enemy_collisions(&mut self)
        requires
            old(self).wf(),
        ensures
            *final(self) == (Game { enemy_pos: final(self).enemy_pos, ..*old(self) }),
            final(self).wf(),
            Game::resolve_enemy_collisions_step(*old(self), *final(self)),
    {
        let n = self.enemy_pos.len();
        let ghost s = self.enemy_pos@;
        let mut totals: Vec<Vec2> = Vec::new();
        let mut i: usize = 0;
        while i < n
            invariant
                *self == (Game { enemy_pos: self.enemy_pos, ..*old(self) }),
                self == old(self),
                s == self.enemy_pos@,
                n == s.len(),
                self.wf(),
                self.t == old(self).t,
                i <= n,
                totals.len() == i,
                forall|k: int| 0 <= k < i ==> #[trigger] totals[k] == push_total(s, s[k], n as nat),
                forall|k: int| 0 <= k < i ==> abs(#[trigger] totals[k].x as int) <= n * ENEMY_RADIUS
                    && abs(totals[k].y as int) <= n * ENEMY_RADIUS,
            decreases n - i,
        {
            let p = self.enemy_pos[i];
            assert(in_world(s[i as int]));
            let mut t = Vec2 { x: 0, y: 0 };
            let mut j: usize = 0;
            while j < n
                invariant
                    *self == (Game { enemy_pos: self.enemy_pos, ..*old(self) }),
                    self == old(self),
                    s == self.enemy_pos@,
                    n == s.len(),
                    n <= NIGHT_ENEMY_CAP,
                    self.wf(),
                    self.t == old(self).t,
                    j <= n,
                    in_world(p),
                    p == s[i as int],
                    t == push_total(s, p, j as nat),
                    abs(t.x as int) <= j * ENEMY_RADIUS,
                    abs(t.y as int) <= j * ENEMY_RADIUS,
                decreases n - j,
            {
                assert(in_world(s[j as int]));
                let c = push(p, self.enemy_pos[j]);
                t = Vec2 { x: t.x + c.x, y: t.y + c.y };
                j = j + 1;
            }
            totals.push(t);
            i = i + 1;
        }
        let mut i: usize = 0;
        while i < n
            invariant
                *self == (Game { enemy_pos: self.enemy_pos, ..*old(self) }),
                n == s.len(),
                n <= NIGHT_ENEMY_CAP,
                s == old(self).enemy_pos@,
                self.enemy_pos.len() == n,
                self.enemy_vel@ == old(self).enemy_vel@,
                self.enemy_hp@ == old(self).enemy_hp@,
                self.enemy_scrap@ == old(self).enemy_scrap@,
                self.player_pos == old(self).player_pos,
                self.player_vel == old(self).player_vel,
                self.player_hp == old(self).player_hp,
                self.t == old(self).t,
                self.player_wf(),
                self.scrap_wf(),
                self.buildings_wf(),
                self.misc_wf(),
                totals.len() == n,
                forall|k: int| 0 <= k < n ==> #[trigger] totals[k] == push_total(s, s[k], n as nat),
                forall|k: int| 0 <= k < n ==> abs(#[trigger] totals[k].x as int) <= n * ENEMY_RADIUS
                    && abs(totals[k].y as int) <= n * ENEMY_RADIUS,
                forall|k: int| 0 <= k < n ==> #[trigger] in_world(s[k]),
                forall|k: int| i <= k < n ==> self.enemy_pos[k] == s[k],
                forall|k: int| 0 <= k < i ==> #[trigger] self.enemy_pos[k] == clamp_spec(world_spec(), resolve_spec(s)[k]),
                forall|k: int| 0 <= k < i ==> in_world(#[trigger] self.enemy_pos[k]),
            decreases n - i,
        {
            let p = self.enemy_pos[i];
            let t = totals[i];
            assert(in_world(s[i as int]));
            let q = clamp_world(Vec2 { x: p.x + t.x, y: p.y + t.y });
            self.enemy_pos.set(i, q);
            i = i + 1;
        }
        assert(self.enemy_pos@ =~= Seq::new(s.len(), |i: int| clamp_spec(world_spec(), resolve_spec(s)[i])));
        assert(self.enemies_wf());
    }

    /// Enemy steering and movement: every velocity is computed from the
    /// positions before the tick's movement, then every enemy moves.
    #[verifier::spinoff_prover]
    pub fn steer_enemies(&mut self, dt_ms: i64)
        requires
            old(self).wf(),
            0 <= dt_ms <= MAX_DT_MS,
        ensures
            *final(self) == (Game { enemy_pos: final(self).enemy_pos, enemy_vel: final(self).enemy_vel, ..*old(self) }),
            final(self).wf(),
            Game::steer_enemies_step(*old(self), *final(self), dt_ms),
    {
        let n = self.enemy_pos.len();
        let mut i: usize = 0;
        while i < n
            invariant
                *self == (Game { enemy_pos: self.enemy_pos, enemy_vel: self.enemy_vel, ..*old(self) }),
                self.wf(),
                self.t == old(self).t,
                n == self.enemy_pos.len(),
                n == self.enemy_vel.len(),
                n == old(self).enemy_pos.len(),
                0 <= dt_ms <= MAX_DT_MS,
                i <= n,
                self.enemy_pos@ == old(self).enemy_pos@,
                self.enemy_hp@ == old(self).enemy_hp@,
                self.enemy_scrap@ == old(self).enemy_scrap@,
                self.player_pos == old(self).player_pos,
                self.player_vel == old(self).player_vel,
                self.player_hp == old(self).player_hp,
                forall|k: int| 0 <= k < i ==> #[trigger] self.enemy_vel[k]
                    == steer_spec(old(self).enemy_vel[k], old(self).enemy_pos[k], old(self).player_pos, dt_ms as int),
                forall|k: int| i <= k < n ==> self.enemy_vel[k] == old(self).enemy_vel[k],
            decreases n - i,
        {
            assert(in_world(self.enemy_pos[i as int]) && vel_ok(self.enemy_vel[i as int]));
            let v = steer_one(self.enemy_vel[i], self.enemy_pos[i], self.player_pos, dt_ms);
            let ghost before = self.enemy_vel@;
            self.enemy_vel.set(i, v);
            proof {
                assert forall|k: int| 0 <= k < self.enemy_vel.len() implies #[trigger] vel_ok(self.enemy_vel[k]) by {
                    if k != i {
                        assert(vel_ok(before[k]));
                    }
                }
            }
            i = i + 1;
        }
        let ghost vels = self.enemy_vel@;
        let mut i: usize = 0;
        while i < n
            invariant
                *self == (Game { enemy_pos: self.enemy_pos, enemy_vel: self.enemy_vel, ..*old(self) }),
                self.wf(),
                self.t == old(self).t,
                n == self.enemy_pos.len(),
                n == self.enemy_vel.len(),
                n == old(self).enemy_pos.len(),
                0 <= dt_ms <= MAX_DT_MS,
                i <= n,
                self.enemy_vel@ == vels,
                self.enemy_hp@ == old(self).enemy_hp@,
                self.enemy_scrap@ == old(self).enemy_scrap@,
                self.player_pos == old(self).player_pos,
                self.player_vel == old(self).player_vel,
                self.player_hp == old(self).player_hp,
                forall|k: int| 0 <= k < n ==> #[trigger] vels[k]
                    == steer_spec(old(self).enemy_vel[k], old(self).enemy_pos[k], old(self).player_pos, dt_ms as int),
                forall|k: int| 0 <= k < i ==> #[trigger] self.enemy_pos[k]
                    == integrate_spec(old(self).enemy_pos[k], vels[k], dt_ms as int),
                forall|k: int| i <= k < n ==> self.enemy_pos[k] == old(self).enemy_pos[k],
            decreases n - i,
        {
            assert(in_world(self.enemy_pos[i as int]) && vel_ok(self.enemy_vel[i as int]));
            let p = integrate(self.enemy_pos[i], self.enemy_vel[i], dt_ms);
            let ghost before = self.enemy_pos@;
            self.enemy_pos.set(i, p);
            proof {
                assert forall|k: int| 0 <= k < self.enemy_pos.len() implies #[trigger] in_world(self.enemy_pos[k]) by {
                    if k != i {
                        assert(in_world(before[k]));
                    }
                }
            }
            i = i + 1;
        }
    }

    /// Player movement: the velocity is blended halfway toward the target set
    /// by the held direction keys, and the player moves and stays in the arena.
    /// A dead player stands still.
    pub fn move_player(&mut self, input: &FrameInputState, dt_ms: i64)
        requires
            old(self).wf(),
            0 <= dt_ms <= MAX_DT_MS,
        ensures
            *final(self) == (Game { player_pos: final(self).player_pos, player_vel: final(self).player_vel, ..*old(self) }),
            final(self).wf(),
            Game::move_player_step(*old(self), *final(self), *input, dt_ms),
    {
        if self.player_hp <= 0 {
            self.player_vel = Vec2 { x: 0, y: 0 };
            return;
        }
        let sx: i64 = axis(input.left.held(), input.right.held());
        let sy: i64 = axis(input.up.held(), input.down.held());
        let dir = Vec2 { x: sx, y: sy }.normalize();
        let target = scaled(dir, PLAYER_SPEED);
        let v = Vec2 { x: half(self.player_vel.x + target.x), y: half(self.player_vel.y + target.y) };
        self.player_vel = v;
        let a = arena();
        self.player_pos = a.snap(moved(self.player_pos, v, dt_ms));
    }

    /// Spawn scheduling: once the clock passes the next spawn time, that time
    /// moves on by one interval and each anchor in turn may spawn an enemy,
    /// up to the population cap.
    #[verifier::spinoff_prover]
    pub fn spawn_enemies(&mut self, seed: u32)
        requires
            old(self).wf(),
        ensures
            final(self).wf(),
            Game::spawn_enemies_step(*old(self), *final(self), seed),
    {
        self.spawn_round(seed);
    }

    #[verifier::spinoff_prover]
    fn spawn_round(&mut self, seed: u32)
        requires
            old(self).wf(),
        ensures
            *final(self) == (Game { enemy_pos: final(self).enemy_pos, enemy_vel: final(self).enemy_vel, enemy_hp: final(self).enemy_hp, enemy_scrap: final(self).enemy_scrap, next_spawn_t: final(self).next_spawn_t, ..*old(self) }),
            final(self).wf(),
            final(self).t == old(self).t,
            old(self).t <= old(self).next_spawn_t ==> final(self).enemy_pos@ == old(self).enemy_pos@,
            old(self).t > old(self).next_spawn_t ==> final(self).enemy_pos@ == old(self).enemy_pos@ + spawned(
                seed, spawn_ppm_spec(old(self).t as int) as u32,
                (if is_night_spec(old(self).t as int) { NIGHT_ENEMY_CAP } else { DAY_ENEMY_CAP }) - old(self).enemy_pos.len(),
                SPAWN_ANCHORS as nat),
            final(self).next_spawn_t == (if old(self).t > old(self).next_spawn_t {
                if old(self).next_spawn_t <= u64::MAX - SPAWN_INTERVAL_MS { (old(self).next_spawn_t + SPAWN_INTERVAL_MS) as u64 } else { u64::MAX }
            } else {
                old(self).next_spawn_t
            }),
            final(self).enemy_hp@.subrange(0, old(self).enemy_pos.len() as int) == old(self).enemy_hp@,
            forall|i: int| old(self).enemy_pos.len() <= i < final(self).enemy_pos.len() ==> #[trigger] final(self).enemy_vel[i] == (Vec2 { x: 0, y: 0 }) && final(self).enemy_scrap[i] == 0,
            forall|i: int| old(self).enemy_pos.len() <= i < final(self).enemy_pos.len() ==> #[trigger] final(self).enemy_hp[i] == HP_MAX,
            final(self).player_pos == old(self).player_pos,
            final(self).player_vel == old(self).player_vel,
            final(self).player_hp == old(self).player_hp,

    {
        if self.t <= self.next_spawn_t {
            return;
        }
        self.next_spawn_t = if self.next_spawn_t <= u64::MAX - SPAWN_INTERVAL_MS {
            self.next_spawn_t + SPAWN_INTERVAL_MS
        } else {
            u64::MAX
        };
        let ppm = spawn_ppm(self.t);
        let cap = enemy_cap(self.t);
        let ghost nst = self.next_spawn_t;
        let ghost n0 = old(self).enemy_pos.len() as int;
        let ghost room = cap - n0;
        let mut k: u32 = 0;
        while k < SPAWN_ANCHORS
            invariant
                *self == (Game { enemy_pos: self.enemy_pos, enemy_vel: self.enemy_vel, enemy_hp: self.enemy_hp, enemy_scrap: self.enemy_scrap, next_spawn_t: self.next_spawn_t, ..*old(self) }),
                self.wf(),
                self.t == old(self).t,
                k <= SPAWN_ANCHORS,
                self.next_spawn_t == nst,
                cap <= NIGHT_ENEMY_CAP,
                room == cap - n0,
                n0 == old(self).enemy_pos.len(),
                self.enemy_pos@ == old(self).enemy_pos@ + spawned(seed, ppm, room, k as nat),
                self.enemy_hp@.subrange(0, n0) == old(self).enemy_hp@,
                forall|i: int| n0 <= i < self.enemy_pos.len() ==> #[trigger] self.enemy_vel[i] == (Vec2 { x: 0, y: 0 }) && self.enemy_scrap[i] == 0,
                forall|i: int| n0 <= i < self.enemy_pos.len() ==> #[trigger] self.enemy_hp[i] == HP_MAX,
                self.player_pos == old(self).player_pos,
                self.player_vel == old(self).player_vel,
                self.player_hp == old(self).player_hp,
            decreases SPAWN_ANCHORS - k,
        {
            let ghost prev = spawned(seed, ppm, room, k as nat);
            if self.enemy_pos.len() < cap && chance(seed, k, ppm) {
                let p = anchor(k);
                let ghost hp0 = self.enemy_hp@;
                self.enemy_pos.push(p);
                self.enemy_vel.push(Vec2 { x: 0, y: 0 });
                self.enemy_hp.push(HP_MAX);
                self.enemy_scrap.push(0);
                assert(self.enemy_hp@.subrange(0, n0) =~= hp0.subrange(0, n0));
                assert(self.enemy_pos@ =~= old(self).enemy_pos@ + spawned(seed, ppm, room, (k + 1) as nat));
                proof {
                    let m = self.enemy_pos.len() - 1;
                    assert forall|i: int| 0 <= i < self.enemy_pos.len() implies #[trigger] in_world(self.enemy_pos[i]) by {
                        if i < m { assert(in_world(self.enemy_pos@.drop_last()[i])); }
                    }
                    assert forall|i: int| 0 <= i < self.enemy_vel.len() implies #[trigger] vel_ok(self.enemy_vel[i]) by {
                        if i < m { assert(vel_ok(self.enemy_vel@.drop_last()[i])); }
                    }
                    assert forall|i: int| 0 <= i < self.enemy_hp.len() implies 0 <= #[trigger] self.enemy_hp[i] <= HP_MAX by {
                        if i < m { assert(0 <= self.enemy_hp@.drop_last()[i] <= HP_MAX); }
                    }
                    assert forall|i: int| 0 <= i < self.enemy_scrap.len() implies 0 <= #[trigger] self.enemy_scrap[i] <= 16 by {
                        if i < m { assert(0 <= self.enemy_scrap@.drop_last()[i] <= 16); }
                    }
                }
            } else {
                assert(spawned(seed, ppm, room, (k + 1) as nat) == prev);
            }
            k = k + 1;
        }
    }

    /// Melee strike aimed at `aim`: every enemy that `melee_hits` takes
    /// `MELEE_DAMAGE` and is nudged away from the player; the strike then
    /// cools down.
    #[verifier::spinoff_prover]
    pub fn melee(&mut self, aim: Vec2)
        requires
            old(self).wf(),
            bounded(aim),
        ensures
            *final(self) == (Game { enemy_pos: final(self).enemy_pos, enemy_hp: final(self).enemy_hp, player_next_t: final(self).player_next_t, player_draw_arc_t: final(self).player_draw_arc_t, ..*old(self) }),
            final(self).wf(),
            Game::melee_step(*old(self), *final(self), aim),
    {
        self.player_next_t = self.t.saturating_add(MELEE_COOLDOWN_MS);
        self.player_draw_arc_t = self.t.saturating_add(ARC_MS);
        let n = self.enemy_pos.len();
        let mut i: usize = 0;
        while i < n
            invariant
                *self == (Game { enemy_pos: self.enemy_pos, enemy_hp: self.enemy_hp, player_next_t: self.player_next_t, player_draw_arc_t: self.player_draw_arc_t, ..*old(self) }),
                self.wf(),
                self.player_next_t == old(self).t.saturating_add(MELEE_COOLDOWN_MS),
                self.player_draw_arc_t == old(self).t.saturating_add(ARC_MS),
                self.t == old(self).t,
                bounded(aim),
                n == self.enemy_pos.len(),
                n == old(self).enemy_pos.len(),
                i <= n,
                self.player_pos == old(self).player_pos,
                self.player_vel == old(self).player_vel,
                self.player_hp == old(self).player_hp,
                forall|k: int| 0 <= k < i ==> #[trigger] self.enemy_hp[k] == (
                    if melee_hits_spec(old(self).player_pos, aim, old(self).enemy_pos[k]) {
                        clamp_int(old(self).enemy_hp[k] - MELEE_DAMAGE, 0, HP_MAX as int) as i64
                    } else {
                        old(self).enemy_hp[k]
                    }),
                forall|k: int| 0 <= k < i ==> #[trigger] self.enemy_pos[k] == (
                    if melee_hits_spec(old(self).player_pos, aim, old(self).enemy_pos[k]) {
                        nudged(old(self).enemy_pos[k], old(self).player_pos)
                    } else {
                        old(self).enemy_pos[k]
                    }),
                forall|k: int| i <= k < n ==> self.enemy_pos[k] == old(self).enemy_pos[k] && self.enemy_hp[k] == old(self).enemy_hp[k],
            decreases n - i,
        {
            let p = self.enemy_pos[i];
            assert(in_world(self.enemy_pos[i as int]));
            if melee_hits(self.player_pos, aim, p) {
                assert(0 <= self.enemy_hp[i as int] <= HP_MAX);
                let h = apply_damage(self.enemy_hp[i], MELEE_DAMAGE);
                let ghost hp0 = self.enemy_hp@;
                self.enemy_hp.set(i, h);
                let d = p.sub(self.player_pos);
                assert(d == (Vec2 { x: (p.x - self.player_pos.x) as i64, y: (p.y - self.player_pos.y) as i64 }));
                let away = d.normalize();
                let nudge = scaled(away, MELEE_NUDGE);
                let q = clamp_world(Vec2 { x: p.x + nudge.x, y: p.y + nudge.y });
                let ghost pos0 = self.enemy_pos@;
                self.enemy_pos.set(i, q);
                proof {
                    assert forall|k: int| 0 <= k < self.enemy_pos.len() implies #[trigger] in_world(self.enemy_pos[k]) by {
                        if k != i { assert(in_world(pos0[k])); }
                    }
                    assert forall|k: int| 0 <= k < self.enemy_hp.len() implies 0 <= #[trigger] self.enemy_hp[k] <= HP_MAX by {
                        if k != i { assert(0 <= hp0[k] <= HP_MAX); }
                    }
                }
            }
            i = i + 1;
        }
    }

    /// Launches the projectile from the player toward `aim`.
    pub fn fire(&mut self, aim: Vec2)
        requires
            old(self).wf(),
            bounded(aim),
        ensures
            *final(self) == (Game { projectile: final(self).projectile, ..*old(self) }),
            final(self).wf(),
            Game::fire_step(*old(self), *final(self), aim),
    {
        let d = aim.sub(self.player_pos);
        assert(d == (Vec2 { x: (aim.x - self.player_pos.x) as i64, y: (aim.y - self.player_pos.y) as i64 }));
        let v = scaled(d.normalize(), PROJECTILE_SPEED);
        self.projectile = Some(Projectile { pos: self.player_pos, vel: v });
    }

    /// Places a wall on the building cell under `aim`, paying `WALL_COST` scrap,
    /// when the cell is within bounds, the player can pay and there is room.
    pub fn place_wall(&mut self, aim: Vec2)
        requires
            old(self).wf(),
            bounded(aim),
        ensures
            *final(self) == (Game { building_pos: final(self).building_pos, building_kind: final(self).building_kind, building_hp: final(self).building_hp, player_scrap: final(self).player_scrap, ..*old(self) }),
            final(self).wf(),
            Game::place_wall_step(*old(self), *final(self), aim),
    {
        let c = cell_of(aim);
        if -CELL_LIMIT <= c.0 && c.0 <= CELL_LIMIT && -CELL_LIMIT <= c.1 && c.1 <= CELL_LIMIT
            && self.player_scrap >= WALL_COST && self.building_pos.len() < MAX_BUILDINGS {
            self.player_scrap = self.player_scrap - WALL_COST;
            self.building_pos.push(c);
            self.building_kind.push(0);
            self.building_hp.push(4 * HP_MAX);
            proof {
                let m = self.building_pos.len() - 1;
                assert forall|i: int| 0 <= i < self.building_pos.len() implies #[trigger] cell_ok(self.building_pos[i]) by {
                    if i < m { assert(cell_ok(self.building_pos@.drop_last()[i])); }
                }
            }
        }
    }

    /// Player and enemies are pushed out of every building in turn; the player
    /// stays in the arena and enemies in the world bounds.
    #[verifier::spinoff_prover]
    pub fn collide_walls(&mut self)
        requires
            old(self).wf(),
        ensures
            *final(self) == (Game { enemy_pos: final(self).enemy_pos, player_pos: final(self).player_pos, ..*old(self) }),
            final(self).wf(),
            Game::collide_walls_step(*old(self), *final(self)),
    {
        let nb = self.building_pos.len();
        let n = self.enemy_pos.len();
        let ghost cells = self.building_pos@;
        let mut b: usize = 0;
        while b < nb
            invariant
                *self == (Game { enemy_pos: self.enemy_pos, player_pos: self.player_pos, ..*old(self) }),
                self.wf(),
                self.t == old(self).t,
                cells == self.building_pos@,
                cells == old(self).building_pos@,
                nb == self.building_pos.len(),
                n == self.enemy_pos.len(),
                n == old(self).enemy_pos.len(),
                b <= nb,
                self.enemy_vel@ == old(self).enemy_vel@,
                self.enemy_hp@ == old(self).enemy_hp@,
                self.enemy_scrap@ == old(self).enemy_scrap@,
                self.player_hp == old(self).player_hp,
                self.player_vel == old(self).player_vel,
                self.player_pos == walls_fold(old(self).player_pos, cells, b as nat, PLAYER_RADIUS as int, arena_spec()),
                forall|k: int| 0 <= k < n ==> #[trigger] self.enemy_pos[k]
                    == walls_fold(old(self).enemy_pos[k], cells, b as nat, ENEMY_RADIUS as int, world_spec()),
            decreases nb - b,
        {
            assert(cell_ok(self.building_pos[b as int]));
            let r = cell_rect(self.building_pos[b]);
            let a = arena();
            self.player_pos = a.snap(wall_push(self.player_pos, r, PLAYER_RADIUS));
            let mut j: usize = 0;
            while j < n
                invariant
                    *self == (Game { enemy_pos: self.enemy_pos, player_pos: self.player_pos, ..*old(self) }),
                    self.wf(),
                    self.t == old(self).t,
                    cells == self.building_pos@,
                    nb == self.building_pos.len(),
                    n == self.enemy_pos.len(),
                    n == old(self).enemy_pos.len(),
                    b < nb,
                    j <= n,
                    rect_ok(r),
                    r == cell_rect_spec(cells[b as int]),
                    self.enemy_vel@ == old(self).enemy_vel@,
                    self.enemy_hp@ == old(self).enemy_hp@,
                    self.enemy_scrap@ == old(self).enemy_scrap@,
                    self.player_hp == old(self).player_hp,
                    self.player_vel == old(self).player_vel,
                    self.player_pos == walls_fold(old(self).player_pos, cells, (b + 1) as nat, PLAYER_RADIUS as int, arena_spec()),
                    forall|k: int| 0 <= k < j ==> #[trigger] self.enemy_pos[k]
                        == walls_fold(old(self).enemy_pos[k], cells, (b + 1) as nat, ENEMY_RADIUS as int, world_spec()),
                    forall|k: int| j <= k < n ==> #[trigger] self.enemy_pos[k]
                        == walls_fold(old(self).enemy_pos[k], cells, b as nat, ENEMY_RADIUS as int, world_spec()),
                decreases n - j,
            {
                assert(in_world(self.enemy_pos[j as int]));
                let q = clamp_world(wall_push(self.enemy_pos[j], r, ENEMY_RADIUS));
                let ghost pos0 = self.enemy_pos@;
                self.enemy_pos.set(j, q);
                proof {
                    assert forall|k: int| 0 <= k < self.enemy_pos.len() implies #[trigger] in_world(self.enemy_pos[k]) by {
                        if k != j { assert(in_world(pos0[k])); }
                    }
                }
                j = j + 1;
            }
            b = b + 1;
        }
    }

    /// Player–enemy contact, enemy by enemy: each overlapping pair is
    /// separated half and half along the axis between them, and the player
    /// takes `CONTACT_DAMAGE` per contact, its health held to `[0, HP_MAX]`.
    #[verifier::spinoff_prover]
    pub fn player_contact(&mut self)
        requires
            old(self).wf(),
        ensures
            *final(self) == (Game { enemy_pos: final(self).enemy_pos, player_pos: final(self).player_pos, player_hp: final(self).player_hp, ..*old(self) }),
            final(self).wf(),
            Game::player_contact_step(*old(self), *final(self)),
    {
        let n = self.enemy_pos.len();
        let ghost es = self.enemy_pos@;
        let reach = PLAYER_RADIUS + ENEMY_RADIUS;
        let mut j: usize = 0;
        while j < n
            invariant
                *self == (Game { enemy_pos: self.enemy_pos, player_pos: self.player_pos, player_hp: self.player_hp, ..*old(self) }),
                self.wf(),
                self.t == old(self).t,
                es == old(self).enemy_pos@,
                n == self.enemy_pos.len(),
                n == es.len(),
                j <= n,
                reach == PLAYER_RADIUS + ENEMY_RADIUS,
                self.enemy_vel@ == old(self).enemy_vel@,
                self.enemy_hp@ == old(self).enemy_hp@,
                self.enemy_scrap@ == old(self).enemy_scrap@,
                self.player_hp <= old(self).player_hp,
                self.player_vel == old(self).player_vel,
                self.player_pos == contact_fold(old(self).player_pos, old(self).player_hp as int, es, j as nat).0,
                self.player_hp == contact_fold(old(self).player_pos, old(self).player_hp as int, es, j as nat).1,
                forall|k: int| 0 <= k < j ==> #[trigger] self.enemy_pos[k]
                    == contact_step(contact_fold(old(self).player_pos, old(self).player_hp as int, es, k as nat).0, es[k]).1,
                forall|k: int| j <= k < n ==> #[trigger] self.enemy_pos[k] == es[k],
            decreases n - j,
        {
            let e = self.enemy_pos[j];
            assert(in_world(self.enemy_pos[j as int]));
            let d = self.player_pos.sub(e);
            assert(d == (Vec2 { x: (self.player_pos.x - e.x) as i64, y: (self.player_pos.y - e.y) as i64 }));
            let len = d.length();
            if len < reach as u64 {
                let pen = reach - len as i64;
                let s = scaled(d.normalize(), pen / 2);
                let a = arena();
                self.player_pos = a.snap(Vec2 { x: self.player_pos.x + s.x, y: self.player_pos.y + s.y });
                let q = clamp_world(Vec2 { x: e.x - s.x, y: e.y - s.y });
                let ghost pos0 = self.enemy_pos@;
                self.enemy_pos.set(j, q);
                self.player_hp = apply_damage(self.player_hp, CONTACT_DAMAGE);
                proof {
                    assert forall|k: int| 0 <= k < self.enemy_pos.len() implies #[trigger] in_world(self.enemy_pos[k]) by {
                        if k != j { assert(in_world(pos0[k])); }
                    }
                }
            }
            j = j + 1;
        }
    }

    /// Velocity reconciliation: each enemy's velocity becomes the motion it
    /// actually made since `start` over `dt_ms`, held to the velocity bounds.
    /// With no elapsed time the velocities are kept.
    pub fn reconcile_velocities(&mut self, start: &Vec<Vec2>, dt_ms: i64)
        requires
            old(self).wf(),
            start.len() == old(self).enemy_pos.len(),
            forall|i: int| 0 <= i < start.len() ==> #[trigger] in_world(start[i]),
            0 <= dt_ms <= MAX_DT_MS,
        ensures
            *final(self) == (Game { enemy_vel: final(self).enemy_vel, ..*old(self) }),
            final(self).wf(),
            Game::reconcile_velocities_step(*old(self), *final(self), start@, dt_ms),
    {
        if dt_ms == 0 {
            return;
        }
        let n = self.enemy_pos.len();
        let mut i: usize = 0;
        while i < n
            invariant
                *self == (Game { enemy_vel: self.enemy_vel, ..*old(self) }),
                self.wf(),
                self.t == old(self).t,
                n == self.enemy_pos.len(),
                n == start.len(),
                0 < dt_ms <= MAX_DT_MS,
                i <= n,
                forall|k: int| 0 <= k < start.len() ==> #[trigger] in_world(start[k]),
                self.enemy_pos@ == old(self).enemy_pos@,
                self.enemy_hp@ == old(self).enemy_hp@,
                self.player_pos == old(self).player_pos,
                self.player_hp == old(self).player_hp,
                forall|k: int| 0 <= k < i ==> #[trigger] self.enemy_vel[k]
                    == clamp_spec(vel_rect_spec(), Vec2 {
                        x: tdiv((old(self).enemy_pos[k].x - start[k].x) * 1000, dt_ms as int) as i64,
                        y: tdiv((old(self).enemy_pos[k].y - start[k].y) * 1000, dt_ms as int) as i64,
                    }),
            decreases n - i,
        {
            let p = self.enemy_pos[i];
            let s0 = start[i];
            assert(in_world(self.enemy_pos[i as int]) && in_world(start[i as int]));
            let v = Vec2 { x: rate(p.x - s0.x, dt_ms), y: rate(p.y - s0.y, dt_ms) };
            let w = vel_rect().snap(v);
            let ghost vel0 = self.enemy_vel@;
            self.enemy_vel.set(i, w);
            proof {
                assert forall|k: int| 0 <= k < self.enemy_vel.len() implies #[trigger] vel_ok(self.enemy_vel[k]) by {
                    if k != i { assert(vel_ok(vel0[k])); }
                }
            }
            i = i + 1;
        }
    }

    /// The projectile explodes at `c`: enemies within `EXPLODE_RADIUS` are
    /// killed, the player takes `SELF_DAMAGE` once if within it, the projectile
    /// is gone and the explosion is shown for `EXPLOSION_MS`.
    #[verifier::spinoff_prover]
    pub fn explode(&mut self, c: Vec2)
        requires
            old(self).wf(),
            in_world(c),
        ensures
            *final(self) == (Game { projectile: final(self).projectile, enemy_hp: final(self).enemy_hp, player_hp: final(self).player_hp, explosion_pos: final(self).explosion_pos, explosion_until: final(self).explosion_until, ..*old(self) }),
            final(self).wf(),
            final(self).t == old(self).t,
            final(self).projectile.is_none(),
            final(self).player_hp == (if in_blast(c, old(self).player_pos) {
                clamp_int(old(self).player_hp - SELF_DAMAGE, 0, HP_MAX as int) as i64
            } else {
                old(self).player_hp
            }),
            final(self).enemy_pos@ == old(self).enemy_pos@,
            forall|i: int| 0 <= i < old(self).enemy_pos.len() ==> #[trigger] final(self).enemy_hp[i] == (
                if in_blast(c, old(self).enemy_pos[i]) { 0 } else { old(self).enemy_hp[i] }),
            final(self).player_pos == old(self).player_pos,
            final(self).explosion_pos == c,
            final(self).explosion_until == old(self).t.saturating_add(EXPLOSION_MS),
    {
        let n = self.enemy_pos.len();
        let mut i: usize = 0;
        while i < n
            invariant
                *self == (Game { projectile: self.projectile, enemy_hp: self.enemy_hp, player_hp: self.player_hp, explosion_pos: self.explosion_pos, explosion_until: self.explosion_until, ..*old(self) }),
                self.wf(),
                self.t == old(self).t,
                in_world(c),
                n == self.enemy_pos.len(),
                n == old(self).enemy_pos.len(),
                i <= n,
                self.enemy_pos@ == old(self).enemy_pos@,
                self.player_pos == old(self).player_pos,
                self.player_hp == old(self).player_hp,
                self.projectile == old(self).projectile,
                self.t == old(self).t,
                forall|k: int| 0 <= k < i ==> #[trigger] self.enemy_hp[k] == (
                    if in_blast(c, old(self).enemy_pos[k]) { 0 } else { old(self).enemy_hp[k] }),
                forall|k: int| i <= k < n ==> self.enemy_hp[k] == old(self).enemy_hp[k],
            decreases n - i,
        {
            assert(in_world(self.enemy_pos[i as int]));
            if blast_hits(c, self.enemy_pos[i]) {
                let ghost hp0 = self.enemy_hp@;
                self.enemy_hp.set(i, 0);
                proof {
                    assert forall|k: int| 0 <= k < self.enemy_hp.len() implies 0 <= #[trigger] self.enemy_hp[k] <= HP_MAX by {
                        if k != i { assert(0 <= hp0[k] <= HP_MAX); }
                    }
                }
            }
            i = i + 1;
        }
        if blast_hits(c, self.player_pos) {
            self.player_hp = apply_damage(self.player_hp, SELF_DAMAGE);
        }
        self.projectile = None;
        self.explosion_pos = c;
        self.explosion_until = self.t.saturating_add(EXPLOSION_MS);
    }

    /// Projectile flight: it moves, is cleared when it leaves the arena, and
    /// explodes where it first comes within reach of an enemy or a building.
    #[verifier::spinoff_prover]
    pub fn step_projectile(&mut self, dt_ms: i64)
        requires
            old(self).wf(),
            0 <= dt_ms <= MAX_DT_MS,
        ensures
            *final(self) == (Game { projectile: final(self).projectile, enemy_hp: final(self).enemy_hp, player_hp: final(self).player_hp, explosion_pos: final(self).explosion_pos, explosion_until: final(self).explosion_until, ..*old(self) }),
            final(self).wf(),
            Game::step_projectile_step(*old(self), *final(self), dt_ms),
    {
        match self.projectile {
            None => {},
            Some(pr) => {
                let np = moved(pr.pos, pr.vel, dt_ms);
                let a = arena();
                if !a.contains(np) {
                    self.projectile = None;
                    return;
                }
                if self.projectile_touches(np) {
                    self.explode(np);
                } else {
                    self.projectile = Some(Projectile { pos: np, vel: pr.vel });
                }
            },
        }
    }

    /// A projectile at `p` is within reach of an enemy or a building.
    pub open spec fn touches_spec(&self, p: Vec2) -> bool {
        (exists|i: int| 0 <= i < self.enemy_pos.len() && #[trigger] touches_enemy(p, self.enemy_pos[i]))
            || (exists|b: int| 0 <= b < self.building_pos.len() && #[trigger] touches_rect(p, cell_rect_spec(self.building_pos[b])))
    }

    /// Whether a projectile at `p` is within reach of an enemy or a building.
    pub fn projectile_touches(&self, p: Vec2) -> (r: bool)
        requires
            self.wf(),
            in_world(p),
        ensures
            r == self.touches_spec(p),
    {
        let n = self.enemy_pos.len();
        let mut i: usize = 0;
        while i < n
            invariant
                self.wf(),
                in_world(p),
                n == self.enemy_pos.len(),
                i <= n,
                forall|k: int| 0 <= k < i ==> !#[trigger] touches_enemy(p, self.enemy_pos[k]),
            decreases n - i,
        {
            assert(in_world(self.enemy_pos[i as int]));
            let d = self.enemy_pos[i].sub(p);
            assert(d == (Vec2 { x: (self.enemy_pos[i as int].x - p.x) as i64, y: (self.enemy_pos[i as int].y - p.y) as i64 }));
            if d.len_sq() < ((ENEMY_RADIUS + PROJECTILE_RADIUS) * (ENEMY_RADIUS + PROJECTILE_RADIUS)) as u64 {
                assert(touches_enemy(p, self.enemy_pos[i as int]));
                return true;
            }
            i = i + 1;
        }
        let nb = self.building_pos.len();
        let mut b: usize = 0;
        while b < nb
            invariant
                self.wf(),
                in_world(p),
                nb == self.building_pos.len(),
                b <= nb,
                forall|k: int| 0 <= k < self.enemy_pos.len() ==> !#[trigger] touches_enemy(p, self.enemy_pos[k]),
                forall|k: int| 0 <= k < b ==> !#[trigger] touches_rect(p, cell_rect_spec(self.building_pos[k])),
            decreases nb - b,
        {
            assert(cell_ok(self.building_pos[b as int]));
            let r = cell_rect(self.building_pos[b]);
            let snap = r.snap(p);
            let d = p.sub(snap);
            assert(d == (Vec2 { x: (p.x - snap.x) as i64, y: (p.y - snap.y) as i64 }));
            if d.len_sq() < (PROJECTILE_RADIUS * PROJECTILE_RADIUS) as u64 {
                assert(touches_rect(p, cell_rect_spec(self.building_pos[b as int])));
                return true;
            }
            b = b + 1;
        }
        false
    }

    fn remove_scrap(&mut self, i: usize)
        requires
            old(self).wf(),
            i < old(self).scrap_pos.len(),
        ensures
            *final(self) == (Game { scrap_pos: final(self).scrap_pos, scrap_vel: final(self).scrap_vel, ..*old(self) }),
            final(self).wf(),
            final(self).t == old(self).t,
            final(self).scrap_pos@ == old(self).scrap_pos@.update(i as int, old(self).scrap_pos@.last()).drop_last(),
            final(self).scrap_vel@ == old(self).scrap_vel@.update(i as int, old(self).scrap_vel@.last()).drop_last(),
            final(self).enemy_pos@ == old(self).enemy_pos@,
            final(self).enemy_hp@ == old(self).enemy_hp@,
            final(self).player_pos == old(self).player_pos,
            final(self).player_hp == old(self).player_hp,
            final(self).player_scrap == old(self).player_scrap,
    {
        self.scrap_pos.swap_remove(i);
        self.scrap_vel.swap_remove(i);
        proof {
            let n = old(self).scrap_pos.len() as int;
            assert forall|k: int| 0 <= k < self.scrap_pos.len() implies #[trigger] in_world(self.scrap_pos[k]) by {
                assert(in_world(old(self).scrap_pos[if k == i { n - 1 } else { k }]));
            }
            assert forall|k: int| 0 <= k < self.scrap_vel.len() implies #[trigger] vel_ok(self.scrap_vel[k]) by {
                assert(vel_ok(old(self).scrap_vel[if k == i { n - 1 } else { k }]));
            }
        }
    }

    /// Death and drops: every enemy with no health left is removed, leaving a
    /// pickup where it stood while there is room for one.
    #[verifier::spinoff_prover]
    pub fn remove_dead_enemies(&mut self)
        requires
            old(self).wf(),
        ensures
            *final(self) == (Game { enemy_pos: final(self).enemy_pos, enemy_vel: final(self).enemy_vel, enemy_hp: final(self).enemy_hp, enemy_scrap: final(self).enemy_scrap, scrap_pos: final(self).scrap_pos, scrap_vel: final(self).scrap_vel, ..*old(self) }),
            final(self).wf(),
            Game::remove_dead_enemies_step(*old(self), *final(self)),
    {
        let mut idx: usize = self.enemy_pos.len();
        while idx > 0
            invariant
                *self == (Game { enemy_pos: self.enemy_pos, enemy_vel: self.enemy_vel, enemy_hp: self.enemy_hp, enemy_scrap: self.enemy_scrap, scrap_pos: self.scrap_pos, scrap_vel: self.scrap_vel, ..*old(self) }),
                self.wf(),
                self.t == old(self).t,
                idx <= self.enemy_pos.len() <= old(self).enemy_pos.len(),
                self.player_pos == old(self).player_pos,
                self.player_hp == old(self).player_hp,
                old(self).scrap_pos.len() <= self.scrap_pos.len(),
                old(self).scrap_pos.len() + old(self).enemy_pos.len() <= MAX_SCRAP ==> self.scrap_pos.len()
                    == old(self).scrap_pos.len() + old(self).enemy_pos.len() - self.enemy_pos.len(),
                self.scrap_pos@.subrange(0, old(self).scrap_pos.len() as int) == old(self).scrap_pos@,
                forall|k: int| 0 <= k < idx ==> self.enemy_pos[k] == old(self).enemy_pos[k] && self.enemy_hp[k] == old(self).enemy_hp[k],
                forall|k: int| idx <= k < self.enemy_hp.len() ==> #[trigger] self.enemy_hp[k] > 0,
                self.enemy_pos.len() == self.enemy_hp.len(),
                forall|j: int| idx <= j < old(self).enemy_pos.len() && old(self).enemy_hp[j] > 0
                    ==> exists|k: int| 0 <= k < self.enemy_pos.len() && #[trigger] self.enemy_pos[k] == old(self).enemy_pos[j]
                        && self.enemy_hp[k] == old(self).enemy_hp[j],
            decreases idx,
        {
            idx = idx - 1;
            if self.enemy_hp[idx] <= 0 {
                if self.scrap_pos.len() < MAX_SCRAP {
                    let p = self.enemy_pos[idx];
                    assert(in_world(self.enemy_pos[idx as int]));
                    let ghost sp0 = self.scrap_pos@;
                    assert(self.enemy_pos[idx as int] == old(self).enemy_pos[idx as int]);
                    assert(old(self).enemy_hp[idx as int] <= 0);
                    self.scrap_pos.push(p);
                    self.scrap_vel.push(Vec2 { x: 0, y: 0 });
                    assert(self.scrap_pos@.subrange(0, old(self).scrap_pos.len() as int)
                        =~= sp0.subrange(0, old(self).scrap_pos.len() as int));
                    proof {
                        let m = self.scrap_pos.len() - 1;
                        assert forall|i: int| 0 <= i < self.scrap_pos.len() implies #[trigger] in_world(self.scrap_pos[i]) by {
                            if i < m { assert(in_world(self.scrap_pos@.drop_last()[i])); }
                        }
                        assert forall|i: int| 0 <= i < self.scrap_vel.len() implies #[trigger] vel_ok(self.scrap_vel[i]) by {
                            if i < m { assert(vel_ok(self.scrap_vel@.drop_last()[i])); }
                        }
                    }
                }
                let ghost before = self.enemy_pos@;
                let ghost hp_before = self.enemy_hp@;
                let ghost last = before.len() - 1;
                self.remove_enemy(idx);
                proof {
                    assert forall|k: int| idx <= k < self.enemy_hp.len() implies #[trigger] self.enemy_hp[k] > 0 by {
                        if k == idx { assert(hp_before[last] > 0); } else { assert(hp_before[k] > 0); }
                    }
                    assert forall|j: int| idx < j < old(self).enemy_pos.len() && old(self).enemy_hp[j] > 0
                        implies exists|k: int| 0 <= k < self.enemy_pos.len() && #[trigger] self.enemy_pos[k] == old(self).enemy_pos[j]
                            && self.enemy_hp[k] == old(self).enemy_hp[j] by {
                        let k0 = choose|k: int| 0 <= k < before.len() && #[trigger] before[k] == old(self).enemy_pos[j]
                            && hp_before[k] == old(self).enemy_hp[j];
                        assert(k0 != idx);
                        if k0 == last {
                            assert(self.enemy_pos[idx as int] == old(self).enemy_pos[j]);
                            assert(self.enemy_hp[idx as int] == old(self).enemy_hp[j]);
                        } else {
                            assert(self.enemy_pos[k0] == old(self).enemy_pos[j]);
                            assert(self.enemy_hp[k0] == old(self).enemy_hp[j]);
                        }
                    }
                }
            } else {
                assert(self.enemy_pos[idx as int] == old(self).enemy_pos[idx as int]
                    && self.enemy_hp[idx as int] == old(self).enemy_hp[idx as int]);
            }
        }
    }

    /// Pickup attraction and collection: pickups near the player accelerate
    /// toward it and move; those then touching the player are collected, one
    /// scrap each, and removed; every other pickup stays.
    #[verifier::spinoff_prover]
    pub fn update_pickups(&mut self, dt_ms: i64)
        requires
            old(self).wf(),
            0 <= dt_ms <= MAX_DT_MS,
        ensures
            *final(self) == (Game { scrap_pos: final(self).scrap_pos, scrap_vel: final(self).scrap_vel, player_scrap: final(self).player_scrap, ..*old(self) }),
            final(self).wf(),
            Game::update_pickups_step(*old(self), *final(self), dt_ms),
    {
        let n = self.scrap_pos.len();
        let mut i: usize = 0;
        while i < n
            invariant
                *self == (Game { scrap_pos: self.scrap_pos, scrap_vel: self.scrap_vel, player_scrap: self.player_scrap, ..*old(self) }),
                self.wf(),
                self.t == old(self).t,
                n == self.scrap_pos.len(),
                n == old(self).scrap_pos.len(),
                i <= n,
                0 <= dt_ms <= MAX_DT_MS,
                self.enemy_pos@ == old(self).enemy_pos@,
                self.enemy_hp@ == old(self).enemy_hp@,
                self.player_pos == old(self).player_pos,
                self.player_hp == old(self).player_hp,
                self.player_scrap == old(self).player_scrap,
                forall|k: int| 0 <= k < i ==> #[trigger] self.scrap_pos[k] == old(self).pickup_moved(k, dt_ms as int),
                forall|k: int| i <= k < n ==> #[trigger] self.scrap_pos[k] == old(self).scrap_pos[k]
                    && self.scrap_vel[k] == old(self).scrap_vel[k],
            decreases n - i,
        {
            assert(in_world(self.scrap_pos[i as int]) && vel_ok(self.scrap_vel[i as int]));
            let v = attract(self.player_pos, self.scrap_pos[i], self.scrap_vel[i], dt_ms);
            let p = integrate(self.scrap_pos[i], v, dt_ms);
            let ghost v0 = self.scrap_vel@;
            let ghost p0 = self.scrap_pos@;
            self.scrap_vel.set(i, v);
            self.scrap_pos.set(i, p);
            proof {
                assert(self.scrap_pos[i as int] == old(self).pickup_moved(i as int, dt_ms as int));
                assert forall|k: int| 0 <= k < i implies #[trigger] self.scrap_pos[k] == old(self).pickup_moved(k, dt_ms as int) by {
                    assert(self.scrap_pos[k] == p0[k]);
                }
                assert forall|k: int| i < k < n implies #[trigger] self.scrap_pos[k] == old(self).scrap_pos[k]
                    && self.scrap_vel[k] == old(self).scrap_vel[k] by {
                    assert(self.scrap_pos[k] == p0[k] && self.scrap_vel[k] == v0[k]);
                }
                assert forall|k: int| 0 <= k < self.scrap_pos.len() implies #[trigger] in_world(self.scrap_pos[k]) by {
                    if k != i { assert(in_world(p0[k])); }
                }
                assert forall|k: int| 0 <= k < self.scrap_vel.len() implies #[trigger] vel_ok(self.scrap_vel[k]) by {
                    if k != i { assert(vel_ok(v0[k])); }
                }
                assert forall|k: int| 0 <= k < i + 1 implies #[trigger] self.scrap_pos[k]
                    == old(self).pickup_moved(k, dt_ms as int) by {
                    if k == i {
                        assert(self.scrap_pos[i as int] == old(self).pickup_moved(i as int, dt_ms as int));
                    }
                }
            }
            i = i + 1;
        }
        let ghost moved = self.scrap_pos@;
        let mut idx: usize = n;
        while idx > 0
            invariant
                *self == (Game { scrap_pos: self.scrap_pos, scrap_vel: self.scrap_vel, player_scrap: self.player_scrap, ..*old(self) }),
                self.wf(),
                self.t == old(self).t,
                idx <= self.scrap_pos.len() <= n,
                n == old(self).scrap_pos.len(),
                moved.len() == n,
                forall|k: int| 0 <= k < n ==> #[trigger] moved[k] == old(self).pickup_moved(k, dt_ms as int),
                forall|k: int| 0 <= k < idx ==> #[trigger] self.scrap_pos[k] == moved[k],
                self.enemy_pos@ == old(self).enemy_pos@,
                self.enemy_hp@ == old(self).enemy_hp@,
                self.player_pos == old(self).player_pos,
                self.player_hp == old(self).player_hp,
                old(self).player_scrap <= self.player_scrap,
                old(self).player_scrap + n <= SCRAP_LIMIT ==>
                    self.player_scrap == old(self).player_scrap + n - self.scrap_pos.len(),
                forall|k: int| idx <= k < self.scrap_pos.len() ==> !in_contact(self.player_pos, #[trigger] self.scrap_pos[k]),
                forall|j: int| idx <= j < n && !in_contact(old(self).player_pos, moved[j])
                    ==> exists|k: int| 0 <= k < self.scrap_pos.len() && #[trigger] self.scrap_pos[k] == moved[j],
            decreases idx,
        {
            idx = idx - 1;
            assert(in_world(self.scrap_pos[idx as int]));
            if contact(self.player_pos, self.scrap_pos[idx]) {
                let ghost before = self.scrap_pos@;
                let ghost last = before.len() - 1;
                self.remove_scrap(idx);
                if self.player_scrap < SCRAP_LIMIT {
                    self.player_scrap = self.player_scrap + 1;
                }
                proof {
                    assert forall|k: int| idx <= k < self.scrap_pos.len() implies !in_contact(self.player_pos, #[trigger] self.scrap_pos[k]) by {
                        if k == idx { assert(!in_contact(self.player_pos, before[last])); }
                        else { assert(!in_contact(self.player_pos, before[k])); }
                    }
                    assert forall|j: int| idx <= j < n && !in_contact(old(self).player_pos, moved[j])
                        implies exists|k: int| 0 <= k < self.scrap_pos.len() && #[trigger] self.scrap_pos[k] == moved[j] by {
                        let k0 = choose|k: int| 0 <= k < before.len() && #[trigger] before[k] == moved[j];
                        if k0 == idx {
                            assert(before[idx as int] == moved[idx as int]);
                        } else if k0 == last {
                            assert(self.scrap_pos[idx as int] == moved[j]);
                        } else {
                            assert(self.scrap_pos[k0] == moved[j]);
                        }
                    }
                }
            } else {
                assert(self.scrap_pos[idx as int] == moved[idx as int]);
            }
        }
        proof {
            assert forall|j: int| 0 <= j < old(self).scrap_pos.len() && !in_contact(old(self).player_pos, old(self).pickup_moved(j, dt_ms as int))
                implies exists|k: int| 0 <= k < self.scrap_pos.len() && #[trigger] self.scrap_pos[k]
                    == old(self).pickup_moved(j, dt_ms as int) by {
                assert(moved[j] == old(self).pickup_moved(j, dt_ms as int));
            }
        }
    }

    /// A fresh simulation: the player at the centre with full health, two
    /// pickups nearby, nothing else.
    pub fn new() -> (r: Game)
        ensures
            r.wf(),
            r.zoom_level == ONE,
            r.player_pos == (Vec2 { x: 0, y: 0 }),
            r.player_vel == (Vec2 { x: 0, y: 0 }),
            r.player_hp == HP_MAX,
            r.player_scrap == 0,
            r.player_next_t == 0,
            r.player_draw_arc_t == 0,
            r.player_place_building_kind.is_none(),
            r.projectile.is_none(),
            r.explosion_pos == (Vec2 { x: 0, y: 0 }),
            r.explosion_until == 0,
            r.scrap_pos@ == seq![Vec2 { x: ONE, y: ONE }, Vec2 { x: 98304, y: 98304 }],
            r.scrap_vel@ == seq![Vec2 { x: 0, y: 0 }, Vec2 { x: 0, y: 0 }],
            r.enemy_pos@.len() == 0,
            r.enemy_vel@.len() == 0,
            r.enemy_hp@.len() == 0,
            r.enemy_scrap@.len() == 0,
            r.building_pos@.len() == 0,
            r.building_hp@.len() == 0,
            r.building_kind@.len() == 0,
            !r.paused,
            r.t == 0,
            r.next_spawn_t == 0,
    {
        let mut scrap_pos: Vec<Vec2> = Vec::new();
        scrap_pos.push(Vec2 { x: ONE, y: ONE });
        scrap_pos.push(Vec2 { x: 98304, y: 98304 });
        let mut scrap_vel: Vec<Vec2> = Vec::new();
        scrap_vel.push(Vec2 { x: 0, y: 0 });
        scrap_vel.push(Vec2 { x: 0, y: 0 });
        let g = Game {
            zoom_level: ONE,
            player_pos: Vec2 { x: 0, y: 0 },
            player_vel: Vec2 { x: 0, y: 0 },
            player_hp: HP_MAX,
            player_scrap: 0,
            player_next_t: 0,
            player_draw_arc_t: 0,
            player_place_building_kind: None,
            projectile: None,
            explosion_pos: Vec2 { x: 0, y: 0 },
            explosion_until: 0,
            scrap_pos,
            scrap_vel,
            enemy_hp: Vec::new(),
            enemy_vel: Vec::new(),
            enemy_pos: Vec::new(),
            enemy_scrap: Vec::new(),
            building_pos: Vec::new(),
            building_hp: Vec::new(),
            building_kind: Vec::new(),
            paused: false,
            t: 0,
            next_spawn_t: 0,
        };
        assert(g.scrap_pos@ =~= seq![Vec2 { x: ONE, y: ONE }, Vec2 { x: 98304, y: 98304 }]);
        assert(g.scrap_vel@ =~= seq![Vec2 { x: 0, y: 0 }, Vec2 { x: 0, y: 0 }]);
        g
    }

    /// Boundary clamp: the player, wherever it stands, is held inside the arena.
    pub fn clamp_player(&mut self)
        requires
            old(self).wf_but_position(),
        ensures
            *final(self) == (Game { player_pos: final(self).player_pos, ..*old(self) }),
            final(self).wf(),
            Game::clamp_player_step(*old(self), *final(self)),
    {
        let a = arena();
        self.player_pos = a.snap(self.player_pos);
    }

    fn enemy_positions(&self) -> (r: Vec<Vec2>)
        requires
            self.wf(),
        ensures
            r@ == self.enemy_pos@,
    {
        let mut r: Vec<Vec2> = Vec::new();
        let mut i: usize = 0;
        while i < self.enemy_pos.len()
            invariant
                i <= self.enemy_pos.len(),
                r@ == self.enemy_pos@.subrange(0, i as int),
            decreases self.enemy_pos.len() - i,
        {
            r.push(self.enemy_pos[i]);
            i = i + 1;
            assert(r@ =~= self.enemy_pos@.subrange(0, i as int));
        }
        assert(r@ =~= self.enemy_pos@);
        r
    }

    /// The camera rectangle: `zoom_level` high, as wide as the screen's aspect
    /// (at most four to one) allows, centred on `center`.
    fn camera_at(&self, center: Vec2, screen: Rect) -> (r: Rect)
        requires
            self.wf(),
            in_world(center),
            rect_ok(screen),
            screen.w > 0,
            screen.h > 0,
        ensures
            rect_ok(r),
            r == camera_spec(self.zoom_level as int, center, screen),
    {
        let h = self.zoom_level;
        let sw = if screen.w > 4 * screen.h { 4 * screen.h } else { screen.w };
        assert(screen.h <= 2 * COORD_LIMIT);
        assert(0 <= h * sw <= ZOOM_MAX * 4 * screen.h) by (nonlinear_arith)
            requires 0 <= h <= ZOOM_MAX, 0 <= sw <= 4 * screen.h;
        assert(ZOOM_MAX * 4 * screen.h <= ZOOM_MAX * 8 * COORD_LIMIT) by (nonlinear_arith)
            requires 0 < screen.h <= 2 * COORD_LIMIT;
        assert((h * sw) as int / (screen.h as int) <= ZOOM_MAX * 4) by (nonlinear_arith)
            requires 0 <= h * sw <= ZOOM_MAX * 4 * screen.h, screen.h > 0;
        let w = h * sw / screen.h;
        Rect { x: center.x - w / 2, y: center.y - h / 2, w, h }
    }

    /// Where the pointer is in the world, seen through `camera`.
    fn pointer_in_world(input: &FrameInputState, camera: Rect) -> (r: Vec2)
        requires
            input.wf(),
            rect_ok(camera),
        ensures
            in_world(r),
            r == clamp_spec(world_spec(), remap_spec(input.mouse_pos, input.screen_rect, camera)),
    {
        let m = remap(input.mouse_pos, input.screen_rect, camera);
        let x = if m.x < -WORLD_LIMIT { -WORLD_LIMIT } else if m.x > WORLD_LIMIT { WORLD_LIMIT } else { m.x };
        let y = if m.y < -WORLD_LIMIT { -WORLD_LIMIT } else if m.y > WORLD_LIMIT { WORLD_LIMIT } else { m.y };
        Vec2 { x, y }
    }

    /// One tick: advance the clock, spawn, cull, move the player, act on the
    /// buttons, steer and move enemies, resolve collisions and contact, fly
    /// the projectile, remove the dead, collect pickups, clamp the player to
    /// the arena, and draw everything into `kc`.
    #[verifier::spinoff_prover]
    #[verifier::rlimit(100)]
    pub fn frame(&mut self, inputs: &FrameInputState, kc: &mut KRCanvas)
        requires
            old(self).wf(),
            old(kc).wf(),
            inputs.wf(),
        ensures
            final(self).wf(),
            final(kc).wf(),
            contains_spec(arena_spec(), final(self).player_pos),
            0 <= final(self).player_hp <= HP_MAX,
            inputs.reset != KeyStatus::JustPressed ==> final(self).t == old(self).t.saturating_add(inputs.dt_ms as u64),
            final(self).player_hp <= (if inputs.reset == KeyStatus::JustPressed { HP_MAX } else { old(self).player_hp }),
            forall|k: int| 0 <= k < final(self).enemy_hp.len() ==> #[trigger] final(self).enemy_hp[k] > 0,
            forall|k: int| 0 <= k < final(self).scrap_pos.len()
                ==> !in_contact(final(self).player_pos, #[trigger] final(self).scrap_pos[k]),
            exists|camera: Rect, aim: Vec2, g0: Game, g1: Game, g2: Game, g3: Game, g4: Game, g5: Game, g6: Game,
                g7: Game, g8: Game, g9: Game, g10: Game, g11: Game, g12: Game, g13: Game, g14: Game, g15: Game|
                #[trigger] Game::tick_chain(*old(self), *final(self), *inputs, camera, aim, g0, g1, g2, g3, g4, g5,
                    g6, g7, g8, g9, g10, g11, g12, g13, g14, g15),
    {
        if inputs.reset.just_pressed() {
            *self = Game::new();
        }
        let ghost g0 = *self;
        assert(inputs.reset == KeyStatus::JustPressed ==> Game::fresh_spec(g0));
        if inputs.scroll_up {
            self.zoom_level = self.zoom_level * 10 / 11;
        } else if inputs.scroll_down {
            self.zoom_level = self.zoom_level / 10 * 11;
        }
        if self.zoom_level < ZOOM_MIN {
            self.zoom_level = ZOOM_MIN;
        } else if self.zoom_level > ZOOM_MAX {
            self.zoom_level = ZOOM_MAX;
        }
        let dt: i64 = if (inputs.dt_ms as u64) > MAX_DT_MS { MAX_DT_MS as i64 } else { inputs.dt_ms as i64 };
        self.t = self.t.saturating_add(inputs.dt_ms as u64);
        let hp0 = self.player_hp;
        let ghost g1 = *self;
        self.spawn_enemies(inputs.seed);
        let ghost g2 = *self;
        self.cull_enemies();
        let ghost g3 = *self;
        self.move_player(inputs, dt);
        let ghost g4 = *self;

        let cam0 = self.camera_at(self.player_pos, inputs.screen_rect);
        let aim0 = Game::pointer_in_world(inputs, cam0);
        let centre = Vec2 {
            x: self.player_pos.x + fifth(aim0.x - self.player_pos.x),
            y: self.player_pos.y + fifth(aim0.y - self.player_pos.y),
        };
        let camera = self.camera_at(centre, inputs.screen_rect);
        let aim = Game::pointer_in_world(inputs, camera);

        if self.player_hp > 0 && inputs.build.just_pressed() {
            self.player_place_building_kind = match self.player_place_building_kind {
                Some(0) => None,
                _ => Some(0),
            };
        }
        let ghost g5 = *self;
        let alive = self.player_hp > 0;
        if alive && inputs.lmb.just_pressed() {
            if self.player_place_building_kind.is_some() {
                self.place_wall(aim);
            } else if self.t >= self.player_next_t {
                self.melee(aim);
            }
        }
        let ghost g6 = *self;
        if alive && inputs.rmb.just_pressed() && self.projectile.is_none() {
            self.fire(aim);
        }
        let ghost g7 = *self;

        let start = self.enemy_positions();
        self.steer_enemies(dt);
        let ghost g8 = *self;
        self.resolve_enemy_collisions();
        let ghost g9 = *self;
        self.collide_walls();
        let ghost g10 = *self;
        self.player_contact();
        let ghost g11 = *self;
        self.reconcile_velocities(&start, dt);
        let ghost g12 = *self;
        self.step_projectile(dt);
        let ghost g13 = *self;
        self.remove_dead_enemies();
        let ghost g14 = *self;
        self.update_pickups(dt);
        let ghost g15 = *self;
        self.clamp_player();
        proof {
            assert(self.player_hp <= hp0);
            assert(g5 == (if g4.player_hp > 0 && inputs.build == KeyStatus::JustPressed {
                Game { player_place_building_kind: toggled(g4.player_place_building_kind), ..g4 }
            } else {
                g4
            }));
            assert(Game::tick_chain(*old(self), *self, *inputs, camera, aim, g0, g1, g2, g3, g4, g5, g6, g7,
                g8, g9, g10, g11, g12, g13, g14, g15));
        }
        self.draw(inputs, camera, aim, kc);
    }

    /// Draws the tick into `kc`: background, buildings, pickups, enemies,
    /// player, melee arc, projectile and explosion, ground detail and the
    /// night overlay, each at its own depth.
    pub fn draw(&self, inputs: &FrameInputState, camera: Rect, aim: Vec2, kc: &mut KRCanvas)
        requires
            self.wf(),
            old(kc).wf(),
            inputs.wf(),
            rect_ok(camera),
            in_world(aim),
        ensures
            final(kc).wf(),
    {
        kc.set_colour(Vec4 { x: 13107, y: 39322, z: 13107, w: ONE });
        kc.set_depth(ONE);
        kc.rect(inputs.screen_rect);
        kc.set_camera(camera);
        self.draw_buildings(kc);
        self.draw_pickups(kc);
        self.draw_enemies(kc);
        self.draw_player(aim, kc);
        draw_grass(camera, kc);
        kc.set_camera(inputs.screen_rect);
        kc.set_depth(10 * ONE);
        let phase = ((self.t % DAY_MS) as i64) * TURN / (DAY_MS as i64);
        let s = unit_at(phase).y;
        let darkness = if s >= 0 { 0 } else if -s > 52429 { 52429 } else { -s };
        kc.set_colour(Vec4 { x: 0, y: 0, z: 0, w: darkness });
        kc.rect(inputs.screen_rect);
    }

    /// Walls: a grey square and a darker inset square per building.
    #[verifier::spinoff_prover]
    #[verifier::rlimit(60)]
    pub fn draw_buildings(&self, kc: &mut KRCanvas)
        requires
            self.wf(),
            old(kc).wf(),
        ensures
            final(kc).wf(),
            final(kc).pen().camera == old(kc).pen().camera,
            final(kc).stream() == old(kc).stream() + buildings_bytes(self.building_pos@, old(kc).pen().camera,
                self.building_pos.len() as nat),
    {
        let nb = self.building_pos.len();
        let ghost cam = kc.pen().camera;
        let ghost s0 = kc.stream();
        let mut b: usize = 0;
        while b < nb
            invariant
                self.wf(),
                kc.wf(),
                nb == self.building_pos.len(),
                b <= nb,
                kc.pen().camera == cam,
                kc.stream() == s0 + buildings_bytes(self.building_pos@, cam, b as nat),
            decreases nb - b,
        {
            assert(cell_ok(self.building_pos[b as int]));
            let r = cell_rect(self.building_pos[b]);
            kc.set_depth(98304);
            kc.set_colour(Vec4 { x: 32768, y: 32768, z: 32768, w: ONE });
            kc.rect(r);
            let inner = r.dilate(-655);
            assert(inner == dilated_spec(r, -655));
            kc.set_depth(104858);
            kc.set_colour(Vec4 { x: 19661, y: 19661, z: 19661, w: ONE });
            kc.rect(inner);
            assert(kc.stream() =~= s0 + buildings_bytes(self.building_pos@, cam, (b + 1) as nat));
            b = b + 1;
        }
    }

    /// Pickups: a shadow and the bobbing pickup above it.
    #[verifier::spinoff_prover]
    #[verifier::rlimit(60)]
    pub fn draw_pickups(&self, kc: &mut KRCanvas)
        requires
            self.wf(),
            old(kc).wf(),
        ensures
            final(kc).wf(),
            final(kc).pen().camera == old(kc).pen().camera,
            final(kc).stream() == old(kc).stream() + pickups_bytes(self.scrap_pos@, self.t as int, old(kc).pen().camera,
                self.scrap_pos.len() as nat),
    {
        let bob_angle = ((self.t % 2094) as i64) * TURN / 2094;
        let bob = unit_at(bob_angle);
        let lift = div_toward_zero(bob.y, 66);
        let ns = self.scrap_pos.len();
        let ghost cam = kc.pen().camera;
        let ghost s0 = kc.stream();
        let mut i: usize = 0;
        while i < ns
            invariant
                self.wf(),
                kc.wf(),
                ns == self.scrap_pos.len(),
                i <= ns,
                lift == bob_lift(self.t as int),
                -ONE <= lift <= ONE,
                kc.pen().camera == cam,
                kc.stream() == s0 + pickups_bytes(self.scrap_pos@, self.t as int, cam, i as nat),
            decreases ns - i,
        {
            let p = self.scrap_pos[i];
            assert(in_world(self.scrap_pos[i as int]));
            kc.set_depth(72090);
            kc.set_colour(Vec4 { x: 0, y: 0, z: 0, w: 26214 });
            kc.circle(p, SCRAP_RADIUS);
            kc.set_depth(98304);
            kc.set_colour(Vec4 { x: 0, y: 0, z: ONE, w: ONE });
            kc.circle(Vec2 { x: p.x, y: p.y - 3277 + lift }, SCRAP_RADIUS);
            assert(kc.stream() =~= s0 + pickups_bytes(self.scrap_pos@, self.t as int, cam, (i + 1) as nat));
            i = i + 1;
        }
    }

    /// Enemies: a disc coloured by health, larger with more scrap.
    #[verifier::spinoff_prover]
    #[verifier::rlimit(60)]
    pub fn draw_enemies(&self, kc: &mut KRCanvas)
        requires
            self.wf(),
            old(kc).wf(),
        ensures
            final(kc).wf(),
            final(kc).pen().camera == old(kc).pen().camera,
            final(kc).stream() == old(kc).stream() + enemies_bytes(*self, old(kc).pen().camera,
                self.enemy_pos.len() as nat),
    {
        let ne = self.enemy_pos.len();
        let ghost cam = kc.pen().camera;
        let ghost s0 = kc.stream();
        let mut i: usize = 0;
        while i < ne
            invariant
                self.wf(),
                kc.wf(),
                ne == self.enemy_pos.len(),
                i <= ne,
                kc.pen().camera == cam,
                kc.stream() == s0 + enemies_bytes(*self, cam, i as nat),
            decreases ne - i,
        {
            assert(in_world(self.enemy_pos[i as int]) && 0 <= self.enemy_scrap[i as int] <= 16);
            let c = health_colour(Vec4 { x: ONE, y: 0, z: 0, w: ONE }, Vec4 { x: 0, y: 0, z: 0, w: ONE }, self.enemy_hp[i]);
            kc.set_depth(98304);
            kc.set_colour(c);
            kc.circle(self.enemy_pos[i], ENEMY_RADIUS + 1311 * self.enemy_scrap[i]);
            assert(kc.stream() =~= s0 + enemies_bytes(*self, cam, (i + 1) as nat));
            i = i + 1;
        }
    }

    /// The player, the melee arc, the projectile, the explosion and the
    /// building about to be placed.
    fn draw_player(&self, aim: Vec2, kc: &mut KRCanvas)
        requires
            self.wf(),
            old(kc).wf(),
            in_world(aim),
        ensures
            final(kc).wf(),
    {
        let pc = health_colour(Vec4 { x: ONE, y: ONE, z: ONE, w: ONE }, Vec4 { x: 39322, y: 0, z: 0, w: ONE }, self.player_hp);
        kc.set_colour(pc);
        kc.set_depth(98304);
        kc.circle(self.player_pos, PLAYER_RADIUS);

        if self.t < self.player_draw_arc_t {
            let left = self.player_draw_arc_t - self.t;
            let alpha = if left >= ARC_MS { ONE } else { (left as i64) * ONE / (ARC_MS as i64) };
            kc.set_depth(91750);
            kc.set_colour(Vec4 { x: ONE, y: ONE, z: ONE, w: alpha });
            let facing = angle_of(aim.sub(self.player_pos));
            kc.poly_part(self.player_pos, MELEE_RADIUS, (facing - TURN / 8) as i32, (facing + TURN / 8) as i32, 20);
        }

        match self.projectile {
            Some(pr) => {
                kc.set_depth(98304);
                kc.set_colour(Vec4 { x: ONE, y: 32768, z: 0, w: ONE });
                kc.circle(pr.pos, PROJECTILE_RADIUS);
            },
            None => {},
        }
        if self.t < self.explosion_until {
            kc.set_depth(101581);
            kc.set_colour(Vec4 { x: ONE, y: 52429, z: 13107, w: 39322 });
            kc.circle(self.explosion_pos, EXPLODE_RADIUS);
        }

        match self.player_place_building_kind {
            Some(_) => {
                let c = cell_of(aim);
                if -CELL_LIMIT <= c.0 && c.0 <= CELL_LIMIT && -CELL_LIMIT <= c.1 && c.1 <= CELL_LIMIT {
                    let r = cell_rect(c);
                    kc.set_depth(98304);
                    kc.set_colour(Vec4 { x: 32768, y: 32768, z: 32768, w: 32768 });
                    kc.rect(r);
                    kc.set_depth(104858);
                    kc.set_colour(Vec4 { x: 19661, y: 19661, z: 19661, w: 32768 });
                    kc.rect(r.dilate(-655));
                }
            },
            None => {},
        }
    }
}

} // verus!
