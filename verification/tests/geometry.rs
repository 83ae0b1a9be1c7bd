use pattern_kernel::bbox::BBox2D;
use pattern_kernel::intersection::{ray_segment, segment_segment};
use pattern_kernel::transform::Transform2D;
use pattern_kernel::num::{div_round_milli, isqrt, mul_div_round};
use pattern_kernel::sample::arc_steps_count;
use pattern_kernel::trig::cos_sin_ppm;
use pattern_kernel::vec2::Vec2;

#[test]
fn rounding_is_to_nearest() {
    assert_eq!(div_round_milli(5, 10), 1);
    assert_eq!(div_round_milli(4, 10), 0);
    assert_eq!(div_round_milli(15, 10), 2);
    assert_eq!(div_round_milli(1000, 3), 333);
}

#[test]
fn rounding_is_symmetric() {
    assert_eq!(div_round_milli(-5, 10), -1);
    assert_eq!(div_round_milli(-4, 10), 0);
    assert_eq!(div_round_milli(7, 2), 4);
    assert_eq!(div_round_milli(-7, 2), -4);
    assert_eq!(mul_div_round(3, 500, 1000), 2);
    assert_eq!(mul_div_round(-3, 500, 1000), -2);
}

#[test]
fn integer_square_root_brackets() {
    assert_eq!(isqrt(0), 0);
    assert_eq!(isqrt(1), 1);
    assert_eq!(isqrt(24), 4);
    assert_eq!(isqrt(25), 5);
    assert_eq!(isqrt(48_999_999_999_999_999_999u128), 6_999_999_999);
}

#[test]
fn cosine_and_sine_at_cardinal_angles() {
    assert_eq!(cos_sin_ppm(0), (1_000_000, 0));
    // One radian.
    assert_eq!(cos_sin_ppm(1000), (540_302, 841_471));
    // A quarter turn (1.571 rad in thousandths).
    let (c, s) = cos_sin_ppm(1571);
    assert!(c.abs() <= 1000);
    assert!(s >= 999_999);
    // Half a turn.
    let (c2, s2) = cos_sin_ppm(3142);
    assert!(c2 <= -999_999);
    assert!(s2.abs() <= 1000);
}

#[test]
fn cosine_is_even_and_sine_is_odd() {
    for a in [137i64, 1000, 2500, 6283, 123_456] {
        let (cp, sp) = cos_sin_ppm(a);
        let (cn, sn) = cos_sin_ppm(-a);
        assert_eq!(cp, cn);
        assert_eq!(sp, -sn);
    }
}

#[test]
fn arc_step_count_formula() {
    // One radian of sweep: ten steps of a tenth each.
    assert_eq!(arc_steps_count(0, 1000), 10);
    // A tiny sweep still gets the floor of four steps.
    assert_eq!(arc_steps_count(0, 50), 4);
    assert_eq!(arc_steps_count(0, 0), 4);
    // A full turn.
    assert_eq!(arc_steps_count(0, 6283), 63);
    // The count depends on the sweep alone, not its direction or offset.
    assert_eq!(arc_steps_count(1000, 0), 10);
    assert_eq!(arc_steps_count(2000, 3000), 10);
    // The same input always yields the same count.
    assert_eq!(arc_steps_count(250, 4250), arc_steps_count(250, 4250));
}

#[test]
fn vector_operations_are_exact() {
    let a = Vec2::new(3000, 4000);
    let b = Vec2::new(-1000, 2000);
    assert_eq!(a.length(), 5000);
    assert_eq!(a.length_squared(), 25_000_000);
    assert_eq!(a.dot(&b), 5_000_000);
    assert_eq!(a.cross(&b), 10_000_000);
    let s = a.add(&b);
    assert_eq!((s.x, s.y), (2000, 6000));
    let d = a.sub(&b);
    assert_eq!((d.x, d.y), (4000, 2000));
    let n = a.neg();
    assert_eq!((n.x, n.y), (-3000, -4000));
    let p = a.perpendicular();
    assert_eq!((p.x, p.y), (-4000, 3000));
    assert_eq!(a.distance(&b), Vec2::new(4000, 2000).length());
}

#[test]
fn normalize_guards_the_zero_vector() {
    let z = Vec2::zero().normalize();
    assert_eq!((z.x, z.y), (0, 0));
    let u = Vec2::new(3000, 4000).normalize();
    assert_eq!((u.x, u.y), (600, 800));
}

#[test]
fn lerp_interpolates() {
    let a = Vec2::new(0, 0);
    let b = Vec2::new(10_000, -2000);
    let mid = a.lerp(&b, 500);
    assert_eq!((mid.x, mid.y), (5000, -1000));
    let start = a.lerp(&b, 0);
    assert_eq!((start.x, start.y), (0, 0));
    let end = a.lerp(&b, 1000);
    assert_eq!((end.x, end.y), (10_000, -2000));
}

#[test]
fn empty_bbox_has_negative_extents() {
    let b = BBox2D::empty();
    assert!(b.width() < 0);
    assert!(b.height() < 0);
}

#[test]
fn bbox_accumulates_and_queries() {
    let mut b = BBox2D::empty();
    b.expand_point(&Vec2::new(1000, 2000));
    b.expand_point(&Vec2::new(-3000, 5000));
    assert_eq!(b.min.x, -3000);
    assert_eq!(b.min.y, 2000);
    assert_eq!(b.max.x, 1000);
    assert_eq!(b.max.y, 5000);
    assert_eq!(b.width(), 4000);
    assert_eq!(b.height(), 3000);
    let c = b.center();
    assert_eq!((c.x, c.y), (-1000, 3500));
    let e = b.expand_by(500);
    assert_eq!(e.min.x, -3500);
    assert_eq!(e.max.y, 5500);
    assert!(b.contains(&Vec2::new(0, 3000)));
    assert!(!b.contains(&Vec2::new(0, 1000)));
    let other = BBox2D::from_points(&vec![Vec2::new(900, 4000), Vec2::new(2000, 6000)]);
    assert!(b.intersects(&other));
    let u = b.union(&other);
    assert_eq!(u.max.x, 2000);
    assert_eq!(u.max.y, 6000);
}

#[test]
fn rotate_a_quarter_turn() {
    let v = Vec2::new(1000, 0);
    let r = v.rotate(1571);
    assert_eq!((r.x, r.y), (0, 1000));
    let back = r.rotate(-1571);
    assert_eq!((back.x, back.y), (1000, 0));
}

#[test]
fn transforms_apply_and_compose() {
    let p = Vec2::new(1000, 2000);
    let id = Transform2D::identity();
    let q = id.apply(&p);
    assert_eq!((q.x, q.y), (1000, 2000));
    let t = Transform2D::translate(5000, -2000);
    let moved = t.apply(&p);
    assert_eq!((moved.x, moved.y), (6000, 0));
    let s = Transform2D::scale(2_000_000, 1_000_000);
    let stretched = s.apply(&p);
    assert_eq!((stretched.x, stretched.y), (2000, 2000));
    let mx = Transform2D::mirror_x().apply(&p);
    assert_eq!((mx.x, mx.y), (-1000, 2000));
    let my = Transform2D::mirror_y().apply(&p);
    assert_eq!((my.x, my.y), (1000, -2000));
    // Scaling after translating moves first and stretches the moved
    // point, so the composite doubles the translated x.
    let combined = t.then(&s);
    let r = combined.apply(&p);
    let staged = s.apply(&t.apply(&p));
    assert_eq!((r.x, r.y), (staged.x, staged.y));
    assert_eq!((r.x, r.y), (12_000, 0));
}

#[test]
fn inverse_undoes_a_translation_and_rejects_degeneracy() {
    let t = Transform2D::translate(5000, -2000);
    let inv = t.inverse().unwrap();
    let p = Vec2::new(1234, -567);
    let round = inv.apply(&t.apply(&p));
    assert_eq!((round.x, round.y), (1234, -567));
    let flat = Transform2D::scale(0, 1_000_000);
    assert!(flat.inverse().is_none());
}

#[test]
fn crossing_segments_intersect_in_the_middle() {
    let hit = segment_segment(
        Vec2::new(0, 0),
        Vec2::new(10_000, 10_000),
        Vec2::new(0, 10_000),
        Vec2::new(10_000, 0),
    )
    .unwrap();
    assert_eq!((hit.x, hit.y), (5000, 5000));
    // Parallel segments never intersect.
    assert!(segment_segment(
        Vec2::new(0, 0),
        Vec2::new(10_000, 0),
        Vec2::new(0, 1000),
        Vec2::new(10_000, 1000),
    )
    .is_none());
    // Lines that cross outside the segments do not count.
    assert!(segment_segment(
        Vec2::new(0, 0),
        Vec2::new(1000, 1000),
        Vec2::new(0, 10_000),
        Vec2::new(10_000, 0),
    )
    .is_none());
}

#[test]
fn ray_hits_a_segment_ahead_of_it() {
    let t = ray_segment(
        Vec2::new(0, 0),
        Vec2::new(1000, 0),
        Vec2::new(5000, -1000),
        Vec2::new(5000, 1000),
    )
    .unwrap();
    assert_eq!(t, 5000);
    // Behind the ray: no hit.
    assert!(ray_segment(
        Vec2::new(0, 0),
        Vec2::new(-1000, 0),
        Vec2::new(5000, -1000),
        Vec2::new(5000, 1000),
    )
    .is_none());
}

#[test]
fn angles_follow_the_trigonometric_convention() {
    assert_eq!(Vec2::new(1000, 0).angle(), 0);
    assert_eq!(Vec2::new(1000, 1000).angle(), 785);
    assert_eq!(Vec2::new(0, 1000).angle(), 1571);
    assert_eq!(Vec2::new(-1000, 0).angle(), 3142);
    assert_eq!(Vec2::new(0, -1000).angle(), -1571);
    assert_eq!(Vec2::new(3000, 4000).angle(), 927);
    assert_eq!(Vec2::new(4000, 3000).angle(), 644);
}

#[test]
fn angle_between_is_signed() {
    let right = Vec2::new(1000, 0);
    let up = Vec2::new(0, 1000);
    assert_eq!(right.angle_between(&up), 1571);
    assert_eq!(up.angle_between(&right), -1571);
    assert_eq!(right.angle_between(&right), 0);
}
