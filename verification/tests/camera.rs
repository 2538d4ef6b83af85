use rake::angle::Angle;
use rake::camera::{
    Camera, HALF_PI, KEY_BACKWARD, KEY_FORWARD, KEY_JUMP, KEY_LEFT, KEY_RIGHT,
};
use rake::fixed::Fixed;
use rake::point::Point;

fn fx(x: f64) -> Fixed {
    Fixed::from_raw((x * 65536.0).round() as i32)
}

fn pt(x: f64, y: f64, z: f64) -> Point {
    Point::new(fx(x), fx(y), fx(z))
}

fn raw(p: Point) -> (i32, i32, i32) {
    (p.x.raw(), p.y.raw(), p.z.raw())
}

fn camera_at(position: Point) -> Camera {
    Camera::new(
        position,
        pt(0.0, 0.0, -1.0),
        pt(0.0, 1.0, 0.0),
        Angle::new(Fixed::from_raw(56756), Fixed::from_raw(32768)),
        Fixed::from_ratio(16, 9),
        Fixed::from_raw(6554),
        Fixed::from_int(100),
    )
}

fn keys(down: &[usize]) -> [bool; 256] {
    let mut k = [false; 256];
    for &code in down {
        k[code] = true;
    }
    k
}

fn rows(m: &rake::matrix::Matrix4x4) -> [[i32; 4]; 4] {
    let mut out = [[0i32; 4]; 4];
    for i in 0..4 {
        for j in 0..4 {
            out[i][j] = m.data[i][j].raw();
        }
    }
    out
}

const DT: i32 = 1092;

#[test]
fn a_new_camera_stands_still() {
    let c = camera_at(pt(0.0, 0.0, -5.0));
    assert_eq!(raw(c.velocity), (0, 0, 0));
    assert_eq!(c.acceleration.raw(), 65536);
    assert_eq!(c.gravity.raw(), 80 * 65536);
    assert_eq!(c.vertical_velocity.raw(), 0);
    assert!(!c.is_jumping);
    assert_eq!(c.look_sensitivity.raw(), 66);
    assert_eq!(c.yaw.raw(), 0);
    assert_eq!(c.pitch.raw(), 0);
    assert_eq!(raw(c.position), raw(pt(0.0, 0.0, -5.0)));
    assert_eq!(c.aspect_ratio.raw(), 116508);
}

#[test]
fn view_matrix_for_a_camera_along_z() {
    let c = camera_at(pt(3.0, 1.5, -5.0));
    assert_eq!(
        rows(&c.view_matrix()),
        [
            [65536, 0, 0, -196608],
            [0, 65536, 0, -98304],
            [0, 0, 65536, 327680],
            [0, 0, 0, 65536]
        ]
    );
}

#[test]
fn view_matrix_takes_the_camera_to_the_origin() {
    let mut c = camera_at(pt(12.25, -3.5, 7.75));
    c.forward = pt(0.3, -0.5, 0.8);
    c.up = pt(0.1, 0.9, 0.2);
    let view = c.view_matrix();
    assert_eq!(
        rows(&view),
        [
            [-61036, 1489, 23820, 568298],
            [13234, 56543, 30377, -199638],
            [-19861, 33101, -52961, 769599],
            [0, 0, 0, 65536]
        ]
    );
    assert_eq!(raw(view.multiply_point(&c.position)), (0, 0, 0));

    let far_away = camera_at(pt(30000.0, -30000.0, 30000.0));
    assert_eq!(raw(far_away.view_matrix().multiply_point(&far_away.position)), (0, 0, 0));
}

#[test]
fn projection_matrix_for_sixty_degrees() {
    let c = camera_at(pt(0.0, 0.0, -5.0));
    assert_eq!(
        rows(&c.projection_matrix()),
        [[63850, 0, 0, 0], [0, 113512, 0, 0], [0, 0, 65602, -6561], [0, 0, 65536, 0]]
    );
}

#[test]
fn steps_along_the_axes_of_the_camera() {
    let mut c = camera_at(pt(1.0, 2.0, 3.0));
    c.forward = pt(0.0, 0.0, -2.0);
    c.move_forward(fx(1.5));
    assert_eq!(raw(c.position), (65536, 131072, 294912));
    c.move_backward(fx(1.5));
    assert_eq!(raw(c.position), raw(pt(1.0, 2.0, 3.0)));
    c.forward = pt(0.0, 0.0, -1.0);
    c.strafe_right(fx(2.0));
    assert_eq!(raw(c.position), (196608, 131072, 196608));
    c.strafe_left(fx(2.0));
    assert_eq!(raw(c.position), raw(pt(1.0, 2.0, 3.0)));
    c.move_up(fx(0.5));
    assert_eq!(raw(c.position), raw(pt(1.0, 1.5, 3.0)));
    c.move_down(fx(0.5));
    assert_eq!(raw(c.position), raw(pt(1.0, 2.0, 3.0)));
}

#[test]
fn looking_left_and_right_turns_about_up() {
    let step = Angle::new(Fixed::from_raw(65209), Fixed::from_raw(6543));
    let mut c = camera_at(pt(0.0, 0.0, 0.0));
    c.look_left(step);
    assert_eq!(raw(c.forward), (-6543, 0, -65209));
    let mut d = camera_at(pt(0.0, 0.0, 0.0));
    d.look_right(step);
    assert_eq!(raw(d.forward), (6543, 0, -65209));
}

#[test]
fn forward_and_up_follow_yaw_and_pitch() {
    let mut c = camera_at(pt(0.0, 0.0, 0.0));
    c.update_forward(Angle::zero(), Angle::zero());
    assert_eq!(raw(c.forward), (65536, 0, 0));
    assert_eq!(raw(c.up), (0, 65536, 0));
    c.update_forward(
        Angle::new(Fixed::from_raw(57513), Fixed::from_raw(31420)),
        Angle::new(Fixed::from_raw(63499), Fixed::from_raw(16214)),
    );
    assert_eq!(raw(c.forward), (55725, 16214, 30443));
    assert_eq!(raw(c.up), (-14229, 63499, -7773));
}

#[test]
fn up_has_length_one_with_the_pitch_at_a_quarter_turn() {
    let yaw = Angle::new(Fixed::from_raw(57513), Fixed::from_raw(31420));
    let mut c = camera_at(pt(0.0, 0.0, 0.0));
    c.update_forward(yaw, Angle::new(Fixed::zero(), Fixed::one()));
    assert_eq!(raw(c.forward), (0, 65536, 0));
    assert_eq!(raw(c.up), (-57513, 0, -31420));
    let length = c.up.magnitude().raw();
    assert!((65534..=65538).contains(&length));

    c.update_forward(Angle::zero(), Angle::new(Fixed::zero(), Fixed::one().neg()));
    assert_eq!(raw(c.forward), (0, -65536, 0));
    assert_eq!(raw(c.up), (65536, 0, 0));
}

#[test]
fn pointer_movement_changes_yaw_and_pitch() {
    let mut c = camera_at(pt(0.0, 0.0, -5.0));
    assert!(c.look_around(fx(5.0), fx(-3.0)));
    assert_eq!((c.yaw.raw(), c.pitch.raw()), (-330, -198));
}

#[test]
fn no_pointer_movement_is_no_turn() {
    let mut c = camera_at(pt(0.0, 0.0, -5.0));
    c.yaw = fx(0.5);
    c.pitch = fx(0.25);
    assert!(!c.look_around(Fixed::zero(), Fixed::zero()));
    assert_eq!((c.yaw.raw(), c.pitch.raw()), (fx(0.5).raw(), fx(0.25).raw()));
}

#[test]
fn pitch_stops_at_a_quarter_turn() {
    let mut c = camera_at(pt(0.0, 0.0, -5.0));
    assert!(c.look_around(Fixed::zero(), fx(30000.0)));
    assert_eq!(c.pitch.raw(), HALF_PI);
    assert_eq!(c.pitch.raw(), 102944);
    let mut d = camera_at(pt(0.0, 0.0, -5.0));
    assert!(d.look_around(Fixed::zero(), fx(-30000.0)));
    assert_eq!(d.pitch.raw(), -102944);
}

#[test]
fn walking_jumping_and_landing() {
    let dt = Fixed::from_raw(DT);
    let still = (Fixed::zero(), Fixed::zero());
    let mut c = camera_at(pt(0.0, 0.0, -5.0));
    assert!(c.is_on_ground());

    assert!(!c.update_movement(dt, &keys(&[KEY_FORWARD]), still));
    assert_eq!(raw(c.position), (0, 0, -327328));
    assert_eq!(raw(c.velocity), (0, 0, 21136));
    assert!(!c.is_jumping);

    c.update_movement(dt, &keys(&[KEY_FORWARD, KEY_RIGHT]), still);
    assert_eq!(raw(c.position), (249, 0, -326868));
    assert_eq!(raw(c.velocity), (14950, 0, 27617));

    c.update_movement(dt, &keys(&[KEY_JUMP]), still);
    assert_eq!(raw(c.position), (498, 0, -326408));
    assert_eq!(raw(c.velocity), (14950, 0, 27617));
    assert!(c.is_jumping);
    assert_eq!(c.vertical_velocity.raw(), 27 * 65536);

    c.update_movement(dt, &keys(&[KEY_FORWARD]), still);
    assert_eq!(raw(c.position), (747, 28028, -325730));
    assert_eq!(raw(c.velocity), (14944, 0, 40713));
    assert_eq!(c.vertical_velocity.raw(), 1682112);
    assert!(!c.is_on_ground());

    let mut steps = 0;
    while c.is_jumping {
        c.update_movement(dt, &keys(&[]), still);
        steps += 1;
        assert!(steps < 1000);
    }
    assert_eq!(steps, 39);
    assert_eq!(raw(c.position), (10426, 0, -299364));
    assert_eq!(raw(c.velocity), (14849, 0, 40440));
    assert_eq!(c.vertical_velocity.raw(), 0);
    assert!(c.is_on_ground());
}

#[test]
fn speed_in_the_air_is_held_at_its_limit() {
    let mut c = camera_at(pt(0.0, 10.0, 0.0));
    c.is_jumping = true;
    c.velocity = pt(25000.0, 0.0, 25000.0);
    c.update_movement(Fixed::from_raw(DT), &keys(&[]), (Fixed::zero(), Fixed::zero()));
    assert_eq!(raw(c.velocity), (44023902, 0, 44023902));
    let (x, z) = (c.velocity.x.raw() as i128, c.velocity.z.raw() as i128);
    let limit = 950i128 * 65536;
    assert!(x * x + z * z <= limit * limit);
    // and it is not far below the limit either
    assert!(x * x + z * z >= (limit - 65536) * (limit - 65536));
}

#[test]
fn movement_holds_the_pitch_within_a_quarter_turn() {
    let mut c = camera_at(pt(0.0, 0.0, -5.0));
    c.pitch = fx(5.0);
    c.update_movement(Fixed::from_raw(DT), &keys(&[]), (Fixed::zero(), Fixed::zero()));
    assert_eq!(c.pitch.raw(), HALF_PI);
    c.pitch = fx(-5.0);
    c.update_movement(Fixed::from_raw(DT), &keys(&[]), (Fixed::zero(), Fixed::zero()));
    assert_eq!(c.pitch.raw(), -HALF_PI);
}

#[test]
fn camera_does_not_sink_below_the_ground() {
    let mut c = camera_at(pt(0.0, 0.5, 0.0));
    c.is_jumping = true;
    c.vertical_velocity = fx(-200.0);
    c.update_movement(Fixed::from_raw(DT), &keys(&[]), (Fixed::zero(), Fixed::zero()));
    assert_eq!(c.position.y.raw(), 0);
    assert_eq!(c.vertical_velocity.raw(), 0);
    assert!(!c.is_jumping);
}

#[test]
fn movement_takes_the_pointer_in_last() {
    let mut c = camera_at(pt(0.0, 0.0, -5.0));
    let turned = c.update_movement(Fixed::from_raw(DT), &keys(&[]), (fx(5.0), fx(-3.0)));
    assert!(turned);
    assert_eq!((c.yaw.raw(), c.pitch.raw()), (-330, -198));
    assert_eq!(raw(c.position), raw(pt(0.0, 0.0, -5.0)));
}

#[test]
fn opposite_keys_cancel() {
    let mut c = camera_at(pt(0.0, 0.0, -5.0));
    c.update_movement(
        Fixed::from_raw(DT),
        &keys(&[KEY_FORWARD, KEY_BACKWARD, KEY_LEFT, KEY_RIGHT]),
        (Fixed::zero(), Fixed::zero()),
    );
    assert_eq!(raw(c.velocity), (0, 0, 0));
    assert_eq!(raw(c.position), raw(pt(0.0, 0.0, -5.0)));
}
