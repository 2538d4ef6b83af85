use rake::fixed::Fixed;
use rake::point::{cross_product, dot_product, normalize, snap_to_pixel, Point, Point2D};

fn fx(x: f64) -> Fixed {
    Fixed::from_raw((x * 65536.0).round() as i32)
}

fn pt(x: f64, y: f64, z: f64) -> Point {
    Point::new(fx(x), fx(y), fx(z))
}

fn raw(p: Point) -> (i32, i32, i32) {
    (p.x.raw(), p.y.raw(), p.z.raw())
}

#[test]
fn vectors_add_and_subtract_by_coordinate() {
    assert_eq!(raw(pt(1.0, 2.0, 3.0).add(pt(0.5, -2.0, 1.0))), raw(pt(1.5, 0.0, 4.0)));
    assert_eq!(raw(pt(1.0, 2.0, 3.0).sub(pt(0.5, -2.0, 1.0))), raw(pt(0.5, 4.0, 2.0)));
}

#[test]
fn vectors_scale() {
    assert_eq!(raw(pt(1.0, -2.0, 3.0).mul(fx(2.5))), raw(pt(2.5, -5.0, 7.5)));
}

#[test]
fn dot_product_of_axis_vectors() {
    assert_eq!(pt(1.0, 0.0, 0.0).dot(pt(0.0, 1.0, 0.0)).raw(), 0);
    assert_eq!(pt(1.0, 2.0, 3.0).dot(pt(4.0, 5.0, 6.0)).raw(), fx(32.0).raw());
    assert_eq!(dot_product(pt(1.0, 2.0, 3.0), pt(4.0, 5.0, 6.0)).raw(), fx(32.0).raw());
}

#[test]
fn cross_product_is_right_handed() {
    assert_eq!(raw(pt(1.0, 0.0, 0.0).cross(pt(0.0, 1.0, 0.0))), raw(pt(0.0, 0.0, 1.0)));
    assert_eq!(raw(cross_product(pt(0.0, 1.0, 0.0), pt(0.0, 0.0, 1.0))), raw(pt(1.0, 0.0, 0.0)));
    assert_eq!(raw(pt(1.0, 2.0, 3.0).cross(pt(4.0, 5.0, 6.0))), raw(pt(-3.0, 6.0, -3.0)));
}

#[test]
fn magnitude_of_a_three_four_five_vector() {
    assert_eq!(pt(3.0, 4.0, 0.0).magnitude().raw(), fx(5.0).raw());
    assert_eq!(pt(0.0, 0.0, 0.0).magnitude().raw(), 0);
}

#[test]
fn magnitude_measures_long_vectors() {
    // 950 squared is far outside the range of the numbers themselves
    assert_eq!(pt(950.0, 0.0, 0.0).magnitude().raw(), fx(950.0).raw());
    assert_eq!(pt(3000.0, 4000.0, 0.0).magnitude().raw(), fx(5000.0).raw());
    // longer than the largest number: saturated
    assert_eq!(pt(32767.0, 32767.0, 32767.0).magnitude().raw(), fx(32767.0).raw());
}

#[test]
fn normalize_gives_length_one() {
    assert_eq!(raw(pt(3.0, 4.0, 0.0).normalize()), raw(pt(0.6, 0.8, 0.0)));
    assert_eq!(raw(normalize(pt(0.0, 0.0, -7.0))), raw(pt(0.0, 0.0, -1.0)));
}

#[test]
fn normalize_gives_length_one_to_short_and_long_vectors() {
    let tiny = Point::new(Fixed::from_raw(1), Fixed::from_raw(1), Fixed::zero());
    assert_eq!(raw(tiny.normalize()), (46341, 46341, 0));
    let smallest = Point::new(Fixed::zero(), Fixed::from_raw(-1), Fixed::zero());
    assert_eq!(raw(smallest.normalize()), (0, -65536, 0));
    let long = pt(32767.0, 32767.0, 32767.0);
    assert_eq!(raw(long.normalize()), (37837, 37837, 37837));
    for v in [tiny, long, pt(25000.0, 0.0, 25000.0), pt(0.001, -300.0, 7.5)] {
        let n = v.normalize();
        let (x, y, z) = (n.x.raw() as i64, n.y.raw() as i64, n.z.raw() as i64);
        let square = x * x + y * y + z * z;
        assert!(square >= 65536 * 65536 - 3 * 65536);
        assert!(square <= 65536 * 65536 + 5 * 65536);
    }
}

#[test]
fn normalize_leaves_the_zero_vector() {
    assert_eq!(raw(pt(0.0, 0.0, 0.0).normalize()), (0, 0, 0));
}

#[test]
fn clamp_length_shortens_long_vectors_only() {
    assert_eq!(raw(pt(3.0, 4.0, 0.0).clamp_length(fx(10.0))), raw(pt(3.0, 4.0, 0.0)));
    assert_eq!(raw(pt(3.0, 4.0, 0.0).clamp_length(fx(5.0))), raw(pt(3.0, 4.0, 0.0)));
    assert_eq!(raw(pt(3.0, 4.0, 0.0).clamp_length(fx(2.5))), raw(pt(1.5, 2.0, 0.0)));
    assert_eq!(raw(pt(0.0, 0.0, 0.0).clamp_length(fx(-1.0))), (0, 0, 0));
    // a negative limit counts as zero
    assert_eq!(raw(pt(3.0, 4.0, 0.0).clamp_length(fx(-1.0))), (0, 0, 0));
}

#[test]
fn clamp_length_never_leaves_a_vector_longer_than_the_limit() {
    let limit = fx(950.0);
    let clamped = pt(25000.0, 0.0, 25000.0).clamp_length(limit);
    assert_eq!(raw(clamped), (44023902, 0, 44023902));
    for v in [pt(25000.0, 0.0, 25000.0), pt(32767.0, -32767.0, 32767.0), pt(951.0, 0.0, 0.0)] {
        let c = v.clamp_length(limit);
        let (x, y, z) = (c.x.raw() as i128, c.y.raw() as i128, c.z.raw() as i128);
        let l = limit.raw() as i128;
        assert!(x * x + y * y + z * z <= l * l);
        assert!(x * x + y * y + z * z >= (l - 4) * (l - 4));
    }
}

#[test]
fn snapping_moves_to_the_nearest_pixel() {
    let p = snap_to_pixel(Point2D::new(fx(2.4), fx(-2.5), fx(0.3)));
    assert_eq!((p.x.raw(), p.y.raw(), p.z.raw()), (fx(2.0).raw(), fx(-3.0).raw(), fx(0.3).raw()));
}

#[test]
fn screen_points_are_equal_by_value() {
    let a = Point2D::new(fx(1.0), fx(2.0), fx(3.0));
    let b = Point2D::new(fx(1.0), fx(2.0), fx(3.0));
    let c = Point2D::new(fx(1.0), fx(2.0), fx(3.5));
    assert!(a == b);
    assert!(a != c);
}

#[test]
fn operators_do_what_the_methods_do() {
    let a = pt(1.0, 2.0, 3.0);
    let b = pt(0.5, -2.0, 1.0);
    assert_eq!(raw(a + b), raw(a.add(b)));
    assert_eq!(raw(a - b), raw(a.sub(b)));
    assert_eq!(raw(a * fx(2.5)), raw(a.mul(fx(2.5))));
    assert_eq!(raw(a + b), raw(pt(1.5, 0.0, 4.0)));
    assert_eq!(raw(a - b), raw(pt(0.5, 4.0, 2.0)));
    assert_eq!(raw(a * fx(2.5)), raw(pt(2.5, 5.0, 7.5)));
    let far = pt(30000.0, -30000.0, 0.0);
    assert_eq!(raw(far + far), raw(pt(32767.0, -32767.0, 0.0)));
}
