use round_survival::canvas::KRCanvas;
use round_survival::geom::{Rect, Vec2, ONE};
use round_survival::input::{FrameInputState, KeyStatus};
use round_survival::rules::{
    CONTACT_DAMAGE, ENEMY_RADIUS, ENEMY_SPEED, EXPLODE_RADIUS, HP_MAX, PLAYER_SPEED, PROJECTILE_SPEED, SELF_DAMAGE,
};
use round_survival::sim::{Game, Projectile};

fn screen() -> Rect {
    Rect::new(0, 0, 1600, 1600)
}

fn idle(dt_ms: u32, seed: u32) -> FrameInputState {
    FrameInputState::idle(dt_ms, seed, screen())
}

fn add_enemy(g: &mut Game, p: Vec2) {
    g.enemy_pos.push(p);
    g.enemy_vel.push(Vec2::zero());
    g.enemy_hp.push(HP_MAX);
    g.enemy_scrap.push(0);
}

fn tick(g: &mut Game, input: &FrameInputState) -> Vec<u8> {
    let mut kc = KRCanvas::new(input.screen_rect);
    g.frame(input, &mut kc);
    kc.bytes()
}

#[test]
fn fresh_game() {
    let g = Game::new();
    assert_eq!(g.player_pos, Vec2::zero());
    assert_eq!(g.player_hp, HP_MAX);
    assert_eq!(g.scrap_pos.len(), 2);
    assert!(g.enemy_pos.is_empty());
}

#[test]
fn runs_are_deterministic() {
    let mut a = Game::new();
    let mut b = Game::new();
    for i in 0..200u32 {
        let mut input = idle(16 + i % 5, i.wrapping_mul(2654435761));
        input.right = if i % 40 < 20 { KeyStatus::Pressed } else { KeyStatus::Up };
        input.lmb = if i % 10 == 0 { KeyStatus::JustPressed } else { KeyStatus::Up };
        input.mouse_pos = Vec2::new(1000, 700);
        let ba = tick(&mut a, &input);
        let bb = tick(&mut b, &input);
        assert_eq!(ba, bb);
        assert_eq!(ba.len() % 36, 0);
    }
    assert_eq!(a.enemy_pos, b.enemy_pos);
    assert_eq!(a.enemy_hp, b.enemy_hp);
    assert_eq!(a.player_pos, b.player_pos);
    assert_eq!(a.player_hp, b.player_hp);
    assert_eq!(a.scrap_pos, b.scrap_pos);
}

#[test]
fn spawn_at_anchor_two_is_reproducible() {
    let run = || {
        let mut g = Game::new();
        g.t = 5_000;
        g.spawn_enemies(42);
        g.enemy_pos.clone()
    };
    let first = run();
    let second = run();
    assert_eq!(first, second);
    // with seed 42 no anchor draws below a probability of 0.02
    assert!(first.is_empty());
}

#[test]
fn collision_pushes_pair_apart() {
    let mut g = Game::new();
    add_enemy(&mut g, Vec2::new(0, 0));
    add_enemy(&mut g, Vec2::new(ENEMY_RADIUS, 0));
    let before = g.enemy_pos[1].x - g.enemy_pos[0].x;
    g.resolve_enemy_collisions();
    let after = g.enemy_pos[1].x - g.enemy_pos[0].x;
    assert!(after > before);
    assert_eq!(g.enemy_pos[0], Vec2::new(-ENEMY_RADIUS / 2, 0));
    assert_eq!(g.enemy_pos[1], Vec2::new(ENEMY_RADIUS + ENEMY_RADIUS / 2, 0));
}

#[test]
fn player_stays_in_arena() {
    let mut g = Game::new();
    g.player_pos = Vec2::new(4 * ONE, 4 * ONE);
    for _ in 0..50 {
        let mut input = idle(100, 1);
        input.right = KeyStatus::Pressed;
        input.down = KeyStatus::Pressed;
        tick(&mut g, &input);
        assert!(g.player_pos.x <= 4 * ONE && g.player_pos.y <= 4 * ONE);
        assert!(g.player_pos.x >= -4 * ONE && g.player_pos.y >= -4 * ONE);
    }
}

#[test]
fn explosion_self_damage_once() {
    let mut g = Game::new();
    g.explode(Vec2::new(EXPLODE_RADIUS - 10, 0));
    assert_eq!(g.player_hp, HP_MAX - SELF_DAMAGE);
    assert!(g.projectile.is_none());
    g.explode(Vec2::new(EXPLODE_RADIUS + 10, 0));
    assert_eq!(g.player_hp, HP_MAX - SELF_DAMAGE);
}

#[test]
fn projectile_explodes_on_enemy() {
    let mut g = Game::new();
    add_enemy(&mut g, Vec2::new(17000, 0));
    add_enemy(&mut g, Vec2::new(-3 * ONE, 0));
    g.projectile = Some(Projectile { pos: Vec2::new(16000, 0), vel: Vec2::zero() });
    g.step_projectile(16);
    assert!(g.projectile.is_none());
    assert_eq!(g.player_hp, HP_MAX - SELF_DAMAGE);
    assert_eq!(g.enemy_hp[0], 0);
    assert_eq!(g.enemy_hp[1], HP_MAX);
    g.remove_dead_enemies();
    assert_eq!(g.enemy_pos, vec![Vec2::new(-3 * ONE, 0)]);
    assert_eq!(g.scrap_pos.len(), 3);
}

#[test]
fn pickup_collected_once() {
    let mut g = Game::new();
    g.scrap_pos.push(Vec2::new(1000, 0));
    g.scrap_vel.push(Vec2::zero());
    tick(&mut g, &idle(16, 3));
    assert_eq!(g.player_scrap, 1);
    assert!(!g.scrap_pos.contains(&Vec2::new(1000, 0)));
    assert_eq!(g.scrap_pos.len(), 2);
    tick(&mut g, &idle(16, 4));
    assert_eq!(g.player_scrap, 1);
    assert_eq!(g.scrap_pos.len(), 2);
}

#[test]
fn melee_hits_enemy_in_front() {
    let mut g = Game::new();
    add_enemy(&mut g, Vec2::new(10000, 0));
    add_enemy(&mut g, Vec2::new(-10000, 0));
    g.melee(Vec2::new(ONE, 0));
    assert_eq!(g.enemy_hp[0], HP_MAX / 2);
    assert_eq!(g.enemy_hp[1], HP_MAX);
    assert_eq!(g.enemy_pos[0], Vec2::new(10000 + ENEMY_RADIUS, 0));
}

#[test]
fn culling_drops_far_enemies() {
    let mut g = Game::new();
    add_enemy(&mut g, Vec2::new(5 * ONE, 0));
    add_enemy(&mut g, Vec2::new(ONE, 0));
    add_enemy(&mut g, Vec2::new(0, -6 * ONE));
    g.cull_enemies();
    assert_eq!(g.enemy_pos, vec![Vec2::new(ONE, 0)]);
}

#[test]
fn walls_cost_scrap() {
    let mut g = Game::new();
    g.player_scrap = 4;
    g.place_wall(Vec2::new(ONE / 2, ONE / 2));
    assert_eq!(g.player_scrap, 1);
    assert_eq!(g.building_pos, vec![(2, 2)]);
    g.place_wall(Vec2::new(-ONE / 2, ONE / 2));
    assert_eq!(g.building_pos.len(), 1);
}

#[test]
fn reset_restarts() {
    let mut g = Game::new();
    g.player_hp = 10;
    g.player_scrap = 7;
    let mut input = idle(16, 0);
    input.reset = KeyStatus::JustPressed;
    tick(&mut g, &input);
    assert_eq!(g.player_hp, HP_MAX);
    assert_eq!(g.player_scrap, 0);
    assert_eq!(g.t, 16);
}

#[test]
fn walls_push_enemies_out() {
    let mut g = Game::new();
    g.player_pos = Vec2::new(-ONE, -ONE);
    g.building_pos.push((0, 0));
    g.building_hp.push(4 * HP_MAX);
    g.building_kind.push(0);
    add_enemy(&mut g, Vec2::new(13107 + 1000, 5000));
    g.collide_walls();
    assert_eq!(g.enemy_pos[0], Vec2::new(13107 + ENEMY_RADIUS, 5000));
    assert_eq!(g.player_pos, Vec2::new(-ONE, -ONE));
}

#[test]
fn contact_separates_and_damages() {
    let mut g = Game::new();
    add_enemy(&mut g, Vec2::new(3000, 0));
    g.player_contact();
    assert_eq!(g.player_pos, Vec2::new(-1449, 0));
    assert_eq!(g.enemy_pos[0], Vec2::new(4449, 0));
    assert_eq!(g.player_hp, HP_MAX - CONTACT_DAMAGE);
}

#[test]
fn velocities_follow_actual_motion() {
    let mut g = Game::new();
    add_enemy(&mut g, Vec2::new(100, -50));
    g.reconcile_velocities(&vec![Vec2::new(0, 0)], 10);
    assert_eq!(g.enemy_vel[0], Vec2::new(10000, -5000));
    g.reconcile_velocities(&vec![Vec2::new(0, 0)], 0);
    assert_eq!(g.enemy_vel[0], Vec2::new(10000, -5000));
}

#[test]
fn enemies_steer_toward_player() {
    let mut g = Game::new();
    add_enemy(&mut g, Vec2::new(ONE / 2, 0));
    add_enemy(&mut g, Vec2::new(2 * ONE, 0));
    g.steer_enemies(100);
    assert_eq!(g.enemy_vel[0], Vec2::new(-ENEMY_SPEED, 0));
    assert_eq!(g.enemy_pos[0], Vec2::new(ONE / 2 - ENEMY_SPEED / 10, 0));
    assert_eq!(g.enemy_vel[1], Vec2::zero());
    assert_eq!(g.enemy_pos[1], Vec2::new(2 * ONE, 0));
}

#[test]
fn projectile_fired_at_aim() {
    let mut g = Game::new();
    g.fire(Vec2::new(ONE, 0));
    assert_eq!(g.projectile, Some(Projectile { pos: Vec2::zero(), vel: Vec2::new(PROJECTILE_SPEED, 0) }));
    g.step_projectile(100);
    assert_eq!(g.projectile, Some(Projectile { pos: Vec2::new(PROJECTILE_SPEED / 10, 0), vel: Vec2::new(PROJECTILE_SPEED, 0) }));
}

#[test]
fn player_moves_with_keys() {
    let mut g = Game::new();
    let mut input = idle(100, 0);
    input.right = KeyStatus::Pressed;
    g.move_player(&input, 100);
    assert_eq!(g.player_vel, Vec2::new(PLAYER_SPEED / 2, 0));
    assert_eq!(g.player_pos, Vec2::new(PLAYER_SPEED / 20, 0));
    g.player_hp = 0;
    g.move_player(&input, 100);
    assert_eq!(g.player_pos, Vec2::new(PLAYER_SPEED / 20, 0));
}

#[test]
fn fresh_game_full_state() {
    let g = Game::new();
    assert_eq!(g.zoom_level, ONE);
    assert_eq!(g.player_vel, Vec2::zero());
    assert!(!g.paused);
    assert!(g.player_place_building_kind.is_none());
    assert_eq!(g.scrap_vel, vec![Vec2::zero(), Vec2::zero()]);
    assert!(g.enemy_vel.is_empty() && g.enemy_hp.is_empty() && g.enemy_scrap.is_empty());
    assert!(g.building_pos.is_empty() && g.building_hp.is_empty() && g.building_kind.is_empty());
}

#[test]
fn dead_enemy_leaves_pickup() {
    let mut g = Game::new();
    add_enemy(&mut g, Vec2::new(ONE / 2, 0));
    g.enemy_hp[0] = 0;
    g.remove_dead_enemies();
    assert!(g.enemy_pos.is_empty());
    assert_eq!(g.scrap_pos.len(), 3);
    assert_eq!(g.scrap_pos[2], Vec2::new(ONE / 2, 0));
}
