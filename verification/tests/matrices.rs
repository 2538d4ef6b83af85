use rake::angle::Angle;
use rake::fixed::Fixed;
use rake::matrix::Matrix4x4;
use rake::point::Point;

fn fx(x: f64) -> Fixed {
    Fixed::from_raw((x * 65536.0).round() as i32)
}

fn pt(x: f64, y: f64, z: f64) -> Point {
    Point::new(fx(x), fx(y), fx(z))
}

fn angle(radians: f64) -> Angle {
    Angle::new(fx(radians.cos()), fx(radians.sin()))
}

fn raw(p: Point) -> (i32, i32, i32) {
    (p.x.raw(), p.y.raw(), p.z.raw())
}

fn rows(m: &Matrix4x4) -> [[i32; 4]; 4] {
    let mut out = [[0i32; 4]; 4];
    for i in 0..4 {
        for j in 0..4 {
            out[i][j] = m.data[i][j].raw();
        }
    }
    out
}

fn sample_matrix() -> Matrix4x4 {
    Matrix4x4 {
        data: [
            [fx(1.5), fx(-2.0), fx(0.0), fx(4.0)],
            [fx(0.25), fx(1.0), fx(3.0), fx(5.0)],
            [fx(0.0), fx(-1.0), fx(2.0), fx(6.0)],
            [fx(0.0), fx(0.0), fx(0.0), fx(1.0)],
        ],
    }
}

const ONE: i32 = 65536;

#[test]
fn identity_has_ones_on_the_diagonal() {
    assert_eq!(
        rows(&Matrix4x4::identity()),
        [[ONE, 0, 0, 0], [0, ONE, 0, 0], [0, 0, ONE, 0], [0, 0, 0, ONE]]
    );
}

#[test]
fn multiplying_by_the_identity_changes_nothing() {
    let m = sample_matrix();
    assert_eq!(rows(&m.multiply(&Matrix4x4::identity())), rows(&m));
    assert_eq!(rows(&Matrix4x4::identity().multiply(&m)), rows(&m));
}

#[test]
fn the_identity_moves_no_point() {
    let p = pt(12.5, -3.25, 700.0);
    assert_eq!(raw(Matrix4x4::identity().multiply_point(&p)), raw(p));
    assert_eq!(raw(Matrix4x4::identity().multiply_point_affine(&p)), raw(p));
}

#[test]
fn rotation_round_trip_is_the_identity() {
    let angles = [
        0.0,
        std::f64::consts::FRAC_PI_4,
        std::f64::consts::FRAC_PI_2,
        std::f64::consts::PI,
        3.0 * std::f64::consts::FRAC_PI_2,
    ];
    for theta in angles {
        let there = Matrix4x4::rotate_x(angle(theta));
        let back = Matrix4x4::rotate_x(angle(-theta));
        let product = rows(&there.multiply(&back));
        let identity = rows(&Matrix4x4::identity());
        for i in 0..4 {
            for j in 0..4 {
                // two raw units are 0.00003
                assert!((product[i][j] - identity[i][j]).abs() <= 2);
            }
        }
    }
}

#[test]
fn negated_angle_matches_the_angle_of_the_negative() {
    let a = angle(0.7).negated();
    let b = angle(-0.7);
    assert_eq!((a.cos.raw(), a.sin.raw()), (b.cos.raw(), b.sin.raw()));
    assert_eq!((Angle::zero().cos.raw(), Angle::zero().sin.raw()), (ONE, 0));
}

#[test]
fn tangent_is_sine_over_cosine() {
    let a = Angle::new(Fixed::from_raw(56756), Fixed::from_raw(32768));
    assert_eq!(a.tan().raw(), 37837);
}

#[test]
fn matrix_product_is_rows_times_columns() {
    let a = sample_matrix();
    let b = Matrix4x4::translate(fx(1.0), fx(2.0), fx(3.0));
    assert_eq!(
        rows(&a.multiply(&b)),
        [
            [98304, -131072, 0, 98304],
            [16384, 65536, 196608, 1064960],
            [0, -65536, 131072, 655360],
            [0, 0, 0, 65536]
        ]
    );
}

#[test]
fn translation_stands_in_the_fourth_column() {
    let product = Matrix4x4::translate(fx(1.0), fx(2.0), fx(3.0))
        .multiply(&Matrix4x4::scale(fx(2.0), fx(2.0), fx(2.0)));
    assert_eq!(
        rows(&product),
        [
            [2 * ONE, 0, 0, ONE],
            [0, 2 * ONE, 0, 2 * ONE],
            [0, 0, 2 * ONE, 3 * ONE],
            [0, 0, 0, ONE]
        ]
    );
    // scaling acts first, then the translation
    assert_eq!(raw(product.multiply_point(&pt(1.0, 1.0, 1.0))), raw(pt(3.0, 4.0, 5.0)));
}

#[test]
fn rotations_have_the_standard_entries() {
    let a = Angle::new(Fixed::from_raw(56756), Fixed::from_raw(32768));
    let (c, s) = (56756, 32768);
    assert_eq!(
        rows(&Matrix4x4::rotate_x(a)),
        [[ONE, 0, 0, 0], [0, c, -s, 0], [0, s, c, 0], [0, 0, 0, ONE]]
    );
    assert_eq!(
        rows(&Matrix4x4::rotate_y(a)),
        [[c, 0, s, 0], [0, ONE, 0, 0], [-s, 0, c, 0], [0, 0, 0, ONE]]
    );
    assert_eq!(
        rows(&Matrix4x4::rotate_z(a)),
        [[c, -s, 0, 0], [s, c, 0, 0], [0, 0, ONE, 0], [0, 0, 0, ONE]]
    );
}

#[test]
fn point_transform_takes_rows_times_the_point() {
    let a = sample_matrix();
    assert_eq!(raw(a.multiply_point(&pt(1.0, 2.0, 3.0))), (98304, 1064960, 655360));
    assert_eq!(raw(a.multiply_point_affine(&pt(1.0, 2.0, 3.0))), (98304, 1064960, 655360));
}

#[test]
fn translation_adds_its_offset() {
    let t = Matrix4x4::translate(fx(1.0), fx(-2.0), fx(0.5));
    assert_eq!(raw(t.multiply_point(&pt(10.0, 20.0, 30.0))), raw(pt(11.0, 18.0, 30.5)));
}

#[test]
fn scaling_multiplies_each_coordinate() {
    let s = Matrix4x4::scale(fx(2.0), fx(3.0), fx(-1.0));
    assert_eq!(raw(s.multiply_point(&pt(1.0, 1.0, 1.0))), raw(pt(2.0, 3.0, -1.0)));
}

#[test]
fn general_transform_divides_by_the_weight() {
    // the fourth row makes the weight equal to z
    let mut m = Matrix4x4::identity();
    m.data[3][2] = fx(1.0);
    m.data[3][3] = fx(0.0);
    assert_eq!(raw(m.multiply_point(&pt(4.0, 2.0, 8.0))), raw(pt(0.5, 0.25, 1.0)));
    // the affine transform ignores the weight
    assert_eq!(raw(m.multiply_point_affine(&pt(4.0, 2.0, 8.0))), raw(pt(4.0, 2.0, 8.0)));
    // a weight of zero leaves the coordinates undivided
    assert_eq!(raw(m.multiply_point(&pt(4.0, 2.0, 0.0))), raw(pt(4.0, 2.0, 0.0)));
}

#[test]
fn quarter_turns_are_right_handed() {
    let quarter = Angle::new(fx(0.0), fx(1.0));
    assert_eq!(raw(Matrix4x4::rotate_z(quarter).multiply_point(&pt(1.0, 0.0, 0.0))), raw(pt(0.0, 1.0, 0.0)));
    assert_eq!(raw(Matrix4x4::rotate_x(quarter).multiply_point(&pt(0.0, 1.0, 0.0))), raw(pt(0.0, 0.0, 1.0)));
    assert_eq!(raw(Matrix4x4::rotate_y(quarter).multiply_point(&pt(0.0, 0.0, 1.0))), raw(pt(1.0, 0.0, 0.0)));
}

#[test]
fn rotation_about_an_axis_follows_the_right_hand() {
    let quarter = Angle::new(fx(0.0), fx(1.0));
    let about_y = Matrix4x4::rotation_around_axis(pt(0.0, 2.0, 0.0), quarter);
    assert_eq!(
        rows(&about_y),
        [[0, 0, ONE, 0], [0, ONE, 0, 0], [-ONE, 0, 0, 0], [0, 0, 0, ONE]]
    );
    assert_eq!(raw(about_y.multiply_point(&pt(0.0, 0.0, 1.0))), raw(pt(1.0, 0.0, 0.0)));
    let about_z = Matrix4x4::rotation_around_axis(pt(0.0, 0.0, 3.0), quarter);
    assert_eq!(raw(about_z.multiply_point(&pt(1.0, 0.0, 0.0))), raw(pt(0.0, 1.0, 0.0)));
    assert_eq!(rows(&about_z), rows(&Matrix4x4::rotate_z(quarter)));
}
