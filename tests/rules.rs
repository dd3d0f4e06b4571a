use round_survival::canvas::Vec4;
use round_survival::geom::{Vec2, ONE};
use round_survival::rng::{chance, hash2, khash, roll, uniform};
use round_survival::rules::{
    apply_damage, enemy_cap, health_colour, is_night, melee_hits, spawn_ppm, ENEMY_RADIUS, HP_MAX,
    MELEE_RADIUS,
};

#[test]
fn khash_known_values() {
    assert_eq!(khash(1), 270369);
    assert_eq!(hash2(42, 2), 3900939284);
    assert_eq!(roll(42, 2), 939284);
}

#[test]
fn spawn_decision_is_deterministic() {
    // seed 42, probability 0.02, anchor 2
    let first = chance(42, 2, 20000);
    let second = chance(42, 2, 20000);
    assert_eq!(first, second);
    assert!(!first);
    assert!(chance(42, 4, 60000));
}

#[test]
fn uniform_stays_in_range() {
    for i in 0..100u32 {
        let v = uniform(7, i, -1966, 1966);
        assert!(-1966 <= v && v < 1966);
    }
}

#[test]
fn damage_is_clamped() {
    assert_eq!(apply_damage(HP_MAX, 13107), HP_MAX - 13107);
    assert_eq!(apply_damage(100, 13107), 0);
    assert_eq!(apply_damage(0, 0), 0);
}

#[test]
fn colour_ramp_accepts_any_health() {
    let lo = Vec4::new(ONE, 0, 0, ONE);
    let hi = Vec4::new(0, 0, ONE, ONE);
    assert_eq!(health_colour(lo, hi, -5 * ONE), lo);
    assert_eq!(health_colour(lo, hi, 7 * ONE), hi);
    assert_eq!(health_colour(lo, hi, ONE / 2), Vec4::new(ONE - ONE / 4, 0, ONE / 4, ONE));
}

#[test]
fn tunables_follow_time() {
    assert_eq!(spawn_ppm(0), 20000);
    assert_eq!(spawn_ppm(10_000), 21000);
    assert_eq!(spawn_ppm(100_000_000), 200000);
    assert!(!is_night(0));
    assert!(is_night(150_000));
    assert_eq!(enemy_cap(0), 200);
    assert_eq!(enemy_cap(150_000), 400);
}

fn polar(r: f64, theta: f64) -> Vec2 {
    Vec2::new((r * theta.cos()).round() as i64, (r * theta.sin()).round() as i64)
}

#[test]
fn melee_arc_boundary() {
    let player = Vec2::new(0, 0);
    let aim = Vec2::new(ONE, 0);
    let reach = (MELEE_RADIUS + ENEMY_RADIUS) as f64;
    let half_arc = std::f64::consts::PI / 4.0;
    let eps = 0.01;
    assert!(melee_hits(player, aim, polar(reach - 50.0, half_arc - eps)));
    assert!(!melee_hits(player, aim, polar(reach - 50.0, half_arc + eps)));
    assert!(melee_hits(player, aim, polar(reach - 50.0, -(half_arc - eps))));
    assert!(!melee_hits(player, aim, polar(reach + 50.0, 0.0)));
    assert!(!melee_hits(player, player, polar(reach - 50.0, 0.0)));
}
