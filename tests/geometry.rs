use round_survival::geom::{isqrt, remap, unit_at, Rect, Vec2, ONE, TURN};

#[test]
fn isqrt_exact_and_between_squares() {
    assert_eq!(isqrt(0), 0);
    assert_eq!(isqrt(1), 1);
    assert_eq!(isqrt(15), 3);
    assert_eq!(isqrt(16), 4);
    assert_eq!(isqrt(1_000_000_000_000), 1_000_000);
    assert_eq!(isqrt(u64::MAX), 4_294_967_295);
}

#[test]
fn normalize_three_four_five() {
    let n = Vec2::new(3 * ONE, 4 * ONE).normalize();
    assert_eq!(n, Vec2::new(3 * ONE / 5, 4 * ONE / 5));
    let m = Vec2::new(-3 * ONE, 0).normalize();
    assert_eq!(m, Vec2::new(-ONE, 0));
}

#[test]
fn normalize_zero_is_guarded() {
    assert_eq!(Vec2::zero().normalize(), Vec2::zero());
}

#[test]
fn snap_clamps_outside_points_only() {
    let r = Rect::new(0, 0, 10, 20);
    assert_eq!(r.snap(Vec2::new(5, 5)), Vec2::new(5, 5));
    assert_eq!(r.snap(Vec2::new(-3, 30)), Vec2::new(0, 20));
    assert_eq!(r.snap(Vec2::new(12, -1)), Vec2::new(10, 0));
    assert!(r.contains(Vec2::new(10, 20)));
    assert!(!r.contains(Vec2::new(11, 20)));
}

#[test]
fn remap_between_rectangles() {
    let from = Rect::new(0, 0, 1600, 800);
    let to = Rect::new(-ONE, -ONE, 2 * ONE, 2 * ONE);
    assert_eq!(remap(Vec2::new(800, 400), from, to), Vec2::new(0, 0));
    assert_eq!(remap(Vec2::new(1600, 0), from, to), Vec2::new(ONE, -ONE));
    let empty = Rect::new(5, 5, 0, 0);
    assert_eq!(remap(Vec2::new(9, 9), empty, to), Vec2::new(-ONE, -ONE));
}

#[test]
fn unit_directions_on_the_axes() {
    assert_eq!(unit_at(0), Vec2::new(ONE, 0));
    assert_eq!(unit_at(TURN / 4), Vec2::new(0, ONE));
    assert_eq!(unit_at(TURN / 2), Vec2::new(-ONE, 0));
    assert_eq!(unit_at(-TURN / 4), Vec2::new(0, -ONE));
    assert_eq!(unit_at(TURN / 8), Vec2::new(46341, 46341));
}
