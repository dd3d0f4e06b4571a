use round_survival::canvas::{f32_word, KRCanvas, Vec4, VERTEX_BYTES};
use round_survival::geom::{Rect, Vec2, ONE, TURN};

fn unit_canvas() -> KRCanvas {
    KRCanvas::new(Rect::new(0, 0, ONE, ONE))
}

#[test]
fn empty_canvas_gives_empty_stream() {
    let kc = unit_canvas();
    let b = kc.bytes();
    assert_eq!(b.len(), 0);
    assert_eq!(b.len() % VERTEX_BYTES, 0);
}

#[test]
fn triangle_writes_three_records() {
    let mut kc = unit_canvas();
    kc.set_colour(Vec4::new(ONE, 0, ONE / 2, ONE));
    kc.set_depth(2 * ONE);
    kc.triangle(Vec2::new(0, 0), Vec2::new(ONE, 0), Vec2::new(0, ONE));
    let b = kc.bytes();
    assert_eq!(b.len(), 3 * VERTEX_BYTES);
    let word = |i: usize| f32::from_le_bytes([b[4 * i], b[4 * i + 1], b[4 * i + 2], b[4 * i + 3]]);
    // first vertex: position, depth, colour, texture coordinate
    assert_eq!((word(0), word(1), word(2)), (0.0, 0.0, 2.0));
    assert_eq!((word(3), word(4), word(5), word(6)), (1.0, 0.0, 0.5, 1.0));
    assert_eq!((word(7), word(8)), (0.0, 0.0));
    // second vertex sits at the right edge of the camera and of the atlas cell
    assert_eq!((word(9), word(10)), (1.0, 0.0));
    assert_eq!((word(16), word(17)), (0.05, 0.0));
}

#[test]
fn camera_applies_to_later_calls_only() {
    let mut kc = unit_canvas();
    kc.triangle(Vec2::new(ONE, ONE), Vec2::new(0, 0), Vec2::new(0, 0));
    kc.set_camera(Rect::new(0, 0, 2 * ONE, 2 * ONE));
    kc.triangle(Vec2::new(ONE, ONE), Vec2::new(0, 0), Vec2::new(0, 0));
    let b = kc.bytes();
    let word = |i: usize| f32::from_le_bytes([b[4 * i], b[4 * i + 1], b[4 * i + 2], b[4 * i + 3]]);
    assert_eq!(word(0), 1.0);
    assert_eq!(word(27), 0.5);
}

#[test]
fn shapes_write_whole_records() {
    let mut kc = unit_canvas();
    kc.rect(Rect::new(0, 0, ONE, ONE));
    kc.circle(Vec2::new(ONE / 2, ONE / 2), ONE / 4);
    kc.poly(Vec2::new(0, 0), ONE, 5);
    kc.poly_part(Vec2::new(0, 0), ONE, 0, (TURN / 4) as i32, 20);
    let b = kc.bytes();
    assert_eq!(b.len(), (2 + 40 + 5 + 20) * 3 * VERTEX_BYTES);
    assert_eq!(b.len() % VERTEX_BYTES, 0);
}

#[test]
fn out_of_range_values_saturate() {
    let mut kc = KRCanvas::new(Rect::new(0, 0, 1, 1));
    kc.triangle(Vec2::new(100_000_000, 0), Vec2::new(0, 0), Vec2::new(0, 0));
    let b = kc.bytes();
    assert_eq!(f32::from_le_bytes([b[0], b[1], b[2], b[3]]), 0xff_ffff as f32 / 65536.0);
}

#[test]
fn words_are_exact_single_precision() {
    for v in [1i64, -1, 3, ONE, -ONE, 3 * ONE / 5, 0xff_ffff, -0xff_ffff, 123_456] {
        assert_eq!(f32::from_bits(f32_word(v)), v as f32 / 65536.0);
    }
    assert_eq!(f32_word(0), 0);
    assert_eq!(f32_word(ONE), 1.0f32.to_bits());
}

#[test]
fn non_positive_side_counts_draw_nothing() {
    let mut kc = unit_canvas();
    kc.poly(Vec2::new(0, 0), ONE, -3);
    kc.poly(Vec2::new(0, 0), ONE, 0);
    kc.poly_part(Vec2::new(0, 0), ONE, i32::MIN, i32::MAX, -1);
    assert_eq!(kc.bytes().len(), 0);
}

#[test]
fn wide_angles_are_accepted() {
    let mut kc = unit_canvas();
    kc.poly_part(Vec2::new(0, 0), ONE, i32::MIN, i32::MAX, 3);
    assert_eq!(kc.bytes().len(), 3 * 3 * VERTEX_BYTES);
}

#[test]
fn rect_texture_coordinates_span_the_white_cell() {
    let mut kc = unit_canvas();
    kc.rect(Rect::new(0, 0, ONE, ONE));
    let b = kc.bytes();
    assert_eq!(b.len(), 216);
    let word = |i: usize| f32::from_le_bytes([b[4 * i], b[4 * i + 1], b[4 * i + 2], b[4 * i + 3]]);
    let uvs: Vec<(f32, f32)> = (0..6).map(|v| (word(9 * v + 7), word(9 * v + 8))).collect();
    assert_eq!(uvs, vec![(0.0, 0.0), (0.05, 0.0), (0.0, 0.05), (0.0, 0.05), (0.05, 0.0), (0.05, 0.05)]);
    assert_eq!(&b[64..68], &[0xCD, 0xCC, 0x4C, 0x3D]);
}
