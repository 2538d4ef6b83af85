//! The camera: its pose, its lens, and first-person movement.
//!
//! The camera sees what lies against [`Camera::forward`]: a point at
//! `position - forward` has the depth one in view space. The library has no
//! trigonometry, so whatever depends on the sine or cosine of an angle takes
//! an [`Angle`] from its caller: the lens holds half of the field of view as
//! one, and [`Camera::update_forward`] takes the yaw and the pitch as two.

use crate::angle::{Angle, Trig};
use crate::fixed::{
    fx_add, fx_div, fx_max, fx_min, fx_mul, fx_sub, in_range, lemma_clamp_neg, lemma_div_unit,
    lemma_isqrt_unique, lemma_mul_neg, lemma_mul_unit, lemma_mul_zero, lemma_round_div_exact,
    Fixed,
};
use crate::matrix::{mat_apply, mat_row, mat_rotation_around_axis, Mat4, Matrix4x4};
use crate::point::{
    lemma_clamp_length_bound, lemma_fine_length_positive, lemma_normalize_unit, near_unit,
    v3_add, v3_clamp_length, v3_cross, v3_dot, v3_fine_length, v3_in_range, v3_magnitude,
    v3_norm_sq, v3_normalize, v3_scale, v3_sub, v3_zero, Point, Vec3,
};
use vstd::prelude::*;

verus! {

/// Key codes that the movement reads.
pub const KEY_FORWARD: usize = 87;

pub const KEY_BACKWARD: usize = 83;

pub const KEY_LEFT: usize = 65;

pub const KEY_RIGHT: usize = 68;

pub const KEY_JUMP: usize = 86;

/// Top speed on the ground: 320.
pub const MAX_GROUND_SPEED: i32 = 0x0140_0000;

/// Top speed in the air: 950.
pub const MAX_AIR_SPEED: i32 = 0x03b6_0000;

/// Acceleration on the ground: 5.5.
pub const GROUND_ACCEL: i32 = 0x0005_8000;

/// Acceleration in the air: 12.
pub const AIR_ACCEL: i32 = 0x000c_0000;

/// Share of the velocity that ground friction leaves: 0.6.
pub const GROUND_FRICTION: i32 = 39322;

/// Upward speed at the start of a jump: 27.
pub const JUMP_SPEED: i32 = 0x001b_0000;

/// Drag in the air: 0.01.
pub const AIR_DRAG: i32 = 655;

/// Factor on the wished ground speed: 1.1.
pub const DIAGONAL_SCALE: i32 = 72090;

/// Gain from strafing on the ground: 0.02.
pub const STRAFE_BOOST: i32 = 1311;

/// Gravity of a new camera: 80.
pub const DEFAULT_GRAVITY: i32 = 0x0050_0000;

/// Look sensitivity of a new camera: 0.001.
pub const DEFAULT_LOOK_SENSITIVITY: i32 = 66;

/// A quarter turn in radians, the limit of the pitch.
pub const HALF_PI: i32 = 102944;

/// Mathematical model of a [`Camera`].
pub ghost struct CameraState {
    pub position: Vec3,
    pub forward: Vec3,
    pub up: Vec3,
    pub half_fov: Trig,
    pub aspect_ratio: int,
    pub near: int,
    pub far: int,
    pub velocity: Vec3,
    pub acceleration: int,
    pub gravity: int,
    pub vertical_velocity: int,
    pub is_jumping: bool,
    pub look_sensitivity: int,
    pub yaw: int,
    pub pitch: int,
}

/// The state of a camera that has just been made.
pub open spec fn camera_new(
    position: Vec3,
    forward: Vec3,
    up: Vec3,
    half_fov: Trig,
    aspect_ratio: int,
    near: int,
    far: int,
) -> CameraState {
    CameraState {
        position,
        forward,
        up,
        half_fov,
        aspect_ratio,
        near,
        far,
        velocity: v3_zero(),
        acceleration: 0x1_0000,
        gravity: DEFAULT_GRAVITY as int,
        vertical_velocity: 0,
        is_jumping: false,
        look_sensitivity: DEFAULT_LOOK_SENSITIVITY as int,
        yaw: 0,
        pitch: 0,
    }
}

/// The unit vector to the right of the view.
pub open spec fn camera_right(forward: Vec3, up: Vec3) -> Vec3 {
    v3_normalize(v3_cross(forward, up))
}

/// The matrix that takes world space to view space: its rows are an
/// orthonormal basis made of `forward` and `up`, and its fourth column
/// takes the camera's position to the origin.
pub open spec fn view_matrix_of(position: Vec3, forward: Vec3, up: Vec3) -> Mat4 {
    let f = v3_normalize(forward);
    let r = camera_right(f, up);
    let u = v3_cross(r, f);
    seq![
        seq![r.x, r.y, r.z, -v3_dot(r, position)],
        seq![u.x, u.y, u.z, -v3_dot(u, position)],
        seq![-f.x, -f.y, -f.z, v3_dot(f, position)],
        seq![0, 0, 0, 0x1_0000],
    ]
}

/// The perspective projection: its fourth row makes view-space `z` the
/// perspective weight.
pub open spec fn projection_matrix_of(half_fov: Trig, aspect_ratio: int, near: int, far: int) -> Mat4 {
    let t = fx_div(half_fov.sin, half_fov.cos);
    let depth = fx_sub(far, near);
    seq![
        seq![fx_div(0x1_0000, fx_mul(aspect_ratio, t)), 0, 0, 0],
        seq![0, fx_div(0x1_0000, t), 0, 0],
        seq![0, 0, fx_div(far, depth), fx_div(fx_mul(-far, near), depth)],
        seq![0, 0, 0x1_0000, 0],
    ]
}

/// The position after a step of `distance` along `direction`, scaled to length one.
pub open spec fn step_along(position: Vec3, direction: Vec3, distance: int) -> Vec3 {
    v3_add(position, v3_scale(v3_normalize(direction), distance))
}

/// The position after a step of `distance` against `direction`, scaled to length one.
pub open spec fn step_against(position: Vec3, direction: Vec3, distance: int) -> Vec3 {
    v3_sub(position, v3_scale(v3_normalize(direction), distance))
}

/// `forward` turned about `up` by the angle `step`, and scaled to length one.
pub open spec fn turned_forward(forward: Vec3, up: Vec3, step: Trig) -> Vec3 {
    v3_normalize(mat_apply(mat_rotation_around_axis(up, step), forward))
}

/// The axis of view for the given yaw and pitch.
pub open spec fn forward_of(yaw: Trig, pitch: Trig) -> Vec3 {
    v3_normalize(
        Vec3 { x: fx_mul(yaw.cos, pitch.cos), y: pitch.sin, z: fx_mul(yaw.sin, pitch.cos) },
    )
}

/// The direction to the right of an axis of view: across the axis and the
/// upward direction of the world, and where the axis itself points up or
/// down, so that these two have nothing across, across the yaw alone.
pub open spec fn right_of(forward: Vec3, yaw: Trig) -> Vec3 {
    let across = v3_cross(forward, Vec3 { x: 0, y: 0x1_0000, z: 0 });
    if across.x == 0 && across.y == 0 && across.z == 0 {
        v3_normalize(Vec3 { x: -yaw.sin, y: 0, z: yaw.cos })
    } else {
        v3_normalize(across)
    }
}

/// The upward direction that belongs to an axis of view, of length one
/// also where the axis points straight up or down.
pub open spec fn up_of(forward: Vec3, yaw: Trig) -> Vec3 {
    v3_normalize(v3_cross(right_of(forward, yaw), forward))
}

/// The pitch held within a quarter turn up and down.
pub open spec fn held_pitch(pitch: int) -> int {
    fx_min(fx_max(pitch, -(HALF_PI as int)), HALF_PI as int)
}

/// Yaw and pitch after the pointer moved by `(dx, dy)`; no movement changes nothing.
pub open spec fn look_step(c: CameraState, dx: int, dy: int) -> CameraState {
    if dx == 0 && dy == 0 {
        c
    } else {
        CameraState {
            yaw: fx_sub(c.yaw, fx_mul(dx, c.look_sensitivity)),
            pitch: fx_min(
                fx_max(fx_add(c.pitch, fx_mul(dy, c.look_sensitivity)), -(HALF_PI as int)),
                HALF_PI as int,
            ),
            ..c
        }
    }
}

/// The horizontal direction that the pressed keys ask for, of length one or zero.
pub open spec fn wish_direction(c: CameraState, keys: Seq<bool>) -> Vec3 {
    let side = v3_cross(c.forward, c.up);
    let d0 = v3_zero();
    let d1 = if keys[KEY_FORWARD as int] {
        v3_sub(d0, c.forward)
    } else {
        d0
    };
    let d2 = if keys[KEY_BACKWARD as int] {
        v3_add(d1, c.forward)
    } else {
        d1
    };
    let d3 = if keys[KEY_LEFT as int] {
        v3_sub(d2, side)
    } else {
        d2
    };
    let d4 = if keys[KEY_RIGHT as int] {
        v3_add(d3, side)
    } else {
        d3
    };
    v3_normalize(Vec3 { x: d4.x, y: 0, z: d4.z })
}

/// Whether the camera stands on the ground plane `y = 0`.
pub open spec fn on_ground(c: CameraState) -> bool {
    c.position.y <= 0
}

/// One step on the ground: acceleration towards the wished velocity,
/// friction unless a jump starts, and the jump itself.
pub open spec fn ground_step(c: CameraState, dir: Vec3, dt: int, keys: Seq<bool>) -> CameraState {
    let v1 = if v3_magnitude(dir) > 0 {
        let wish = v3_scale(v3_scale(dir, MAX_GROUND_SPEED as int), DIAGONAL_SCALE as int);
        let accel = fx_mul(GROUND_ACCEL as int, dt);
        let v = v3_add(c.velocity, v3_scale(v3_scale(v3_sub(wish, c.velocity), accel), dt));
        if keys[KEY_LEFT as int] || keys[KEY_RIGHT as int] {
            v3_scale(v, fx_add(0x1_0000, fx_mul(STRAFE_BOOST as int, dt)))
        } else {
            v
        }
    } else {
        c.velocity
    };
    if keys[KEY_JUMP as int] {
        CameraState { velocity: v1, is_jumping: true, vertical_velocity: JUMP_SPEED as int, ..c }
    } else {
        CameraState { velocity: v3_scale(v1, GROUND_FRICTION as int), ..c }
    }
}

/// One step in the air: air strafing, drag, the speed held at
/// [`MAX_AIR_SPEED`], gravity, and landing.
pub open spec fn air_step(c: CameraState, dir: Vec3, dt: int) -> CameraState {
    let v1 = if v3_magnitude(dir) > 0 {
        let air_accel = fx_mul(AIR_ACCEL as int, dt);
        let wish = v3_scale(dir, MAX_AIR_SPEED as int);
        v3_add(c.velocity, v3_clamp_length(v3_sub(wish, c.velocity), air_accel))
    } else {
        c.velocity
    };
    let v2 = v3_scale(v1, fx_sub(0x1_0000, fx_mul(AIR_DRAG as int, dt)));
    let v3 = v3_clamp_length(v2, MAX_AIR_SPEED as int);
    let vv = fx_sub(c.vertical_velocity, fx_mul(c.gravity, dt));
    let y = fx_add(c.position.y, fx_mul(vv, dt));
    if y < 0 {
        CameraState {
            velocity: v3,
            vertical_velocity: 0,
            is_jumping: false,
            position: Vec3 { x: c.position.x, y: 0, z: c.position.z },
            ..c
        }
    } else {
        CameraState {
            velocity: v3,
            vertical_velocity: vv,
            position: Vec3 { x: c.position.x, y, z: c.position.z },
            ..c
        }
    }
}

/// The position carried along by the horizontal velocity for the time `dt`.
pub open spec fn drift(c: CameraState, dt: int) -> CameraState {
    CameraState {
        position: Vec3 {
            x: fx_add(c.position.x, fx_mul(c.velocity.x, dt)),
            y: c.position.y,
            z: fx_add(c.position.z, fx_mul(c.velocity.z, dt)),
        },
        ..c
    }
}

/// One whole step of movement: the keys, the physics, then the pointer.
/// The pitch is held within a quarter turn whether the pointer moved or not.
pub open spec fn movement_step(c: CameraState, dt: int, keys: Seq<bool>, dx: int, dy: int) -> CameraState {
    let dir = wish_direction(c, keys);
    let c1 = if !c.is_jumping && on_ground(c) {
        ground_step(c, dir, dt, keys)
    } else {
        air_step(c, dir, dt)
    };
    let c2 = look_step(drift(c1, dt), dx, dy);
    CameraState { pitch: held_pitch(c2.pitch), ..c2 }
}

/// After a step of movement the camera is not below the ground if it was
/// not before, its pitch lies within a quarter turn up and down, and where
/// the step was made in the air its speed is no more than
/// [`MAX_AIR_SPEED`].
pub proof fn lemma_movement_keeps_bounds(c: CameraState, dt: int, keys: Seq<bool>, dx: int, dy: int)
    ensures
        c.position.y >= 0 ==> movement_step(c, dt, keys, dx, dy).position.y >= 0,
        -HALF_PI <= movement_step(c, dt, keys, dx, dy).pitch <= HALF_PI,
        !(!c.is_jumping && on_ground(c)) ==> v3_norm_sq(
            movement_step(c, dt, keys, dx, dy).velocity,
        ) <= MAX_AIR_SPEED * MAX_AIR_SPEED,
{
    let dir = wish_direction(c, keys);
    if !(!c.is_jumping && on_ground(c)) {
        let v1 = if v3_magnitude(dir) > 0 {
            let air_accel = fx_mul(AIR_ACCEL as int, dt);
            let wish = v3_scale(dir, MAX_AIR_SPEED as int);
            v3_add(c.velocity, v3_clamp_length(v3_sub(wish, c.velocity), air_accel))
        } else {
            c.velocity
        };
        let v2 = v3_scale(v1, fx_sub(0x1_0000, fx_mul(AIR_DRAG as int, dt)));
        lemma_clamp_length_bound(v2, MAX_AIR_SPEED as int);
    }
}

/// Where a step in the air brings the camera to the ground, it lands: it
/// stands at height zero, falls no more and is no longer jumping.
pub proof fn lemma_landing(c: CameraState, dir: Vec3, dt: int)
    requires
        fx_add(c.position.y, fx_mul(fx_sub(c.vertical_velocity, fx_mul(c.gravity, dt)), dt)) < 0,
    ensures
        air_step(c, dir, dt).position.y == 0,
        air_step(c, dir, dt).vertical_velocity == 0,
        !air_step(c, dir, dt).is_jumping,
{
}

/// Whatever the angles, `forward` and `up` are of length one but for
/// rounding, or zero: `forward` is zero only where the cosines and sines
/// given make a zero vector, `up` only where `forward` and the direction to
/// its right have nothing across.
pub proof fn lemma_forward_and_up_unit_or_zero(yaw: Trig, pitch: Trig)
    ensures
        near_unit(forward_of(yaw, pitch)) || forward_of(yaw, pitch) == v3_zero(),
        near_unit(up_of(forward_of(yaw, pitch), yaw)) || up_of(forward_of(yaw, pitch), yaw)
            == v3_zero(),
{
    let d = Vec3 { x: fx_mul(yaw.cos, pitch.cos), y: pitch.sin, z: fx_mul(yaw.sin, pitch.cos) };
    if !(d.x == 0 && d.y == 0 && d.z == 0) {
        lemma_normalize_unit(d);
    }
    let f = forward_of(yaw, pitch);
    let over = v3_cross(right_of(f, yaw), f);
    if !(over.x == 0 && over.y == 0 && over.z == 0) {
        lemma_normalize_unit(over);
    }
}

/// With the pitch at a quarter turn, where the axis of view points
/// straight up or down, `forward` and `up` still have length one but for
/// rounding, whatever the yaw.
pub proof fn lemma_up_at_quarter_turn(yaw: Trig, up: bool)
    requires
        in_range(yaw.cos),
        in_range(yaw.sin),
        !(yaw.cos == 0 && yaw.sin == 0),
    ensures
        ({
            let pitch = Trig {
                cos: 0,
                sin: if up {
                    0x1_0000
                } else {
                    -0x1_0000
                },
            };
            &&& forward_of(yaw, pitch) == (Vec3 { x: 0, y: pitch.sin, z: 0 })
            &&& near_unit(forward_of(yaw, pitch))
            &&& near_unit(up_of(forward_of(yaw, pitch), yaw))
        }),
{
    let s: int = if up {
        0x1_0000
    } else {
        -0x1_0000
    };
    let pitch = Trig { cos: 0, sin: s };
    lemma_mul_zero(yaw.cos);
    lemma_mul_zero(yaw.sin);
    let d = Vec3 { x: 0, y: s, z: 0 };
    assert(v3_norm_sq(d) == 0x1_0000_0000) by (nonlinear_arith)
        requires
            d.x == 0 && d.z == 0,
            d.y == 0x1_0000 || d.y == -0x1_0000,
    ;
    lemma_isqrt_unique(0x1_0000_0000_0000_0000int, 0x1_0000_0000int);
    assert(v3_fine_length(d) == 0x1_0000_0000);
    lemma_round_div_exact(0, 0x1_0000_0000);
    lemma_round_div_exact(s, 0x1_0000_0000);
    let f = forward_of(yaw, pitch);
    assert(f == d);
    lemma_mul_unit(s);
    lemma_mul_unit(0);
    lemma_mul_zero(s);
    lemma_mul_zero(0x1_0000);
    let across = v3_cross(f, Vec3 { x: 0, y: 0x1_0000, z: 0 });
    assert(across.x == 0 && across.y == 0 && across.z == 0);
    let side = Vec3 { x: -yaw.sin, y: 0, z: yaw.cos };
    lemma_normalize_unit(side);
    let r = v3_normalize(side);
    assert(right_of(f, yaw) == r);
    lemma_fine_length_positive(side);
    lemma_round_div_exact(0, v3_fine_length(side));
    assert(r.y == 0);
    lemma_mul_unit(r.x);
    lemma_mul_unit(r.z);
    lemma_mul_zero(r.x);
    lemma_mul_zero(r.y);
    lemma_mul_zero(r.z);
    lemma_mul_neg(r.x, 0x1_0000);
    lemma_mul_neg(r.z, 0x1_0000);
    let over = v3_cross(r, f);
    assert(over.y == 0);
    assert(over.x == -fx_mul(r.z, s));
    assert(over.z == fx_mul(r.x, s));
    assert(!(over.x == 0 && over.y == 0 && over.z == 0));
    lemma_normalize_unit(over);
    lemma_normalize_unit(d);
}

/// After the pointer moved, the pitch lies within a quarter turn up and down.
pub proof fn lemma_pitch_stays_within_a_quarter_turn(c: CameraState, dx: int, dy: int)
    requires
        !(dx == 0 && dy == 0),
    ensures
        -HALF_PI <= look_step(c, dx, dy).pitch <= HALF_PI,
{
}

/// The view matrix takes the camera's own position to the origin of view space.
pub proof fn lemma_view_matrix_centers_camera(position: Vec3, forward: Vec3, up: Vec3)
    requires
        v3_in_range(position),
        v3_in_range(forward),
        v3_in_range(up),
    ensures
        mat_apply(view_matrix_of(position, forward, up), position) == v3_zero(),
{
    let f = v3_normalize(forward);
    let r = camera_right(f, up);
    let u = v3_cross(r, f);
    let m = view_matrix_of(position, forward, up);
    let p = position;
    assert(mat_row(m, p, 0) == 0) by {
        lemma_clamp_neg(v3_dot(r, p));
    }
    assert(mat_row(m, p, 1) == 0) by {
        lemma_clamp_neg(v3_dot(u, p));
    }
    assert(mat_row(m, p, 2) == 0) by {
        lemma_mul_neg(f.x, p.x);
        lemma_mul_neg(f.y, p.y);
        lemma_mul_neg(f.z, p.z);
        lemma_clamp_neg(fx_mul(f.x, p.x) + fx_mul(f.y, p.y));
        lemma_clamp_neg(fx_add(fx_mul(f.x, p.x), fx_mul(f.y, p.y)) + fx_mul(f.z, p.z));
    }
    assert(mat_row(m, p, 3) == 0x1_0000) by {
        lemma_mul_zero(p.x);
        lemma_mul_zero(p.y);
        lemma_mul_zero(p.z);
    }
    lemma_div_unit(0);
}

/// The camera.
#[derive(Debug)]
pub struct Camera {
    pub position: Point,
    /// The axis of view, of length one. The camera sees what lies against it.
    pub forward: Point,
    pub up: Point,
    /// Half of the vertical field of view.
    pub half_fov: Angle,
    /// Width of the picture over its height.
    pub aspect_ratio: Fixed,
    pub near: Fixed,
    pub far: Fixed,
    /// Horizontal velocity.
    pub velocity: Point,
    pub acceleration: Fixed,
    pub gravity: Fixed,
    pub vertical_velocity: Fixed,
    pub is_jumping: bool,
    /// Radians of turn per unit of pointer movement.
    pub look_sensitivity: Fixed,
    /// Horizontal turn in radians.
    pub yaw: Fixed,
    /// Vertical turn in radians, between minus and plus a quarter turn.
    pub pitch: Fixed,
}

impl View for Camera {
    type V = CameraState;

    open spec fn view(&self) -> CameraState {
        CameraState {
            position: self.position@,
            forward: self.forward@,
            up: self.up@,
            half_fov: self.half_fov@,
            aspect_ratio: self.aspect_ratio@,
            near: self.near@,
            far: self.far@,
            velocity: self.velocity@,
            acceleration: self.acceleration@,
            gravity: self.gravity@,
            vertical_velocity: self.vertical_velocity@,
            is_jumping: self.is_jumping,
            look_sensitivity: self.look_sensitivity@,
            yaw: self.yaw@,
            pitch: self.pitch@,
        }
    }
}

impl Camera {
    /// A camera at rest with the given pose and lens.
    pub fn new(
        position: Point,
        forward: Point,
        up: Point,
        half_fov: Angle,
        aspect_ratio: Fixed,
        near: Fixed,
        far: Fixed,
    ) -> (c: Camera)
        ensures
            c@ == camera_new(
                position@,
                forward@,
                up@,
                half_fov@,
                aspect_ratio@,
                near@,
                far@,
            ),
    {
        Camera {
            position,
            forward,
            up,
            half_fov,
            aspect_ratio,
            near,
            far,
            velocity: Point::new(Fixed::zero(), Fixed::zero(), Fixed::zero()),
            acceleration: Fixed::one(),
            gravity: Fixed::from_raw(DEFAULT_GRAVITY),
            vertical_velocity: Fixed::zero(),
            is_jumping: false,
            look_sensitivity: Fixed::from_raw(DEFAULT_LOOK_SENSITIVITY),
            yaw: Fixed::zero(),
            pitch: Fixed::zero(),
        }
    }

    /// The matrix that takes world space to the view space of this camera.
    pub fn view_matrix(&self) -> (m: Matrix4x4)
        ensures
            m@ == view_matrix_of(self@.position, self@.forward, self@.up),
    {
        let forward = self.forward.normalize();
        let right = forward.cross(self.up).normalize();
        let up = right.cross(forward);

        let tx = right.dot(self.position).neg();
        let ty = up.dot(self.position).neg();
        let tz = forward.dot(self.position);

        let zero = Fixed::zero();
        let m = Matrix4x4 {
            data: [
                [right.x, right.y, right.z, tx],
                [up.x, up.y, up.z, ty],
                [forward.x.neg(), forward.y.neg(), forward.z.neg(), tz],
                [zero, zero, zero, Fixed::one()],
            ],
        };
        proof {
            let s = view_matrix_of(self@.position, self@.forward, self@.up);
            assert(m@[0] =~= s[0]);
            assert(m@[1] =~= s[1]);
            assert(m@[2] =~= s[2]);
            assert(m@[3] =~= s[3]);
            assert(m@ =~= s);
        }
        m
    }

    /// The perspective projection of this camera.
    pub fn projection_matrix(&self) -> (m: Matrix4x4)
        ensures
            m@ == projection_matrix_of(
                self@.half_fov,
                self@.aspect_ratio,
                self@.near,
                self@.far,
            ),
    {
        let t = self.half_fov.tan();
        let depth = self.far.sub(self.near);
        let zero = Fixed::zero();
        let one = Fixed::one();
        let m = Matrix4x4 {
            data: [
                [one.div(self.aspect_ratio.mul(t)), zero, zero, zero],
                [zero, one.div(t), zero, zero],
                [zero, zero, self.far.div(depth), self.far.neg().mul(self.near).div(depth)],
                [zero, zero, one, zero],
            ],
        };
        proof {
            let s = projection_matrix_of(
                self@.half_fov,
                self@.aspect_ratio,
                self@.near,
                self@.far,
            );
            assert(m@[0] =~= s[0]);
            assert(m@[1] =~= s[1]);
            assert(m@[2] =~= s[2]);
            assert(m@[3] =~= s[3]);
            assert(m@ =~= s);
        }
        m
    }

    /// A step against `forward`, towards what the camera sees.
    pub fn move_forward(&mut self, distance: Fixed)
        ensures
            final(self)@ == (CameraState {
                position: step_against(old(self)@.position, old(self)@.forward, distance@),
                ..old(self)@
            }),
    {
        self.position = self.position.sub(self.forward.normalize().mul(distance));
    }

    /// A step along `forward`, away from what the camera sees.
    pub fn move_backward(&mut self, distance: Fixed)
        ensures
            final(self)@ == (CameraState {
                position: step_along(old(self)@.position, old(self)@.forward, distance@),
                ..old(self)@
            }),
    {
        self.position = self.position.add(self.forward.normalize().mul(distance));
    }

    /// A step to the right of the view.
    pub fn strafe_right(&mut self, distance: Fixed)
        ensures
            final(self)@ == (CameraState {
                position: step_along(
                    old(self)@.position,
                    v3_cross(old(self)@.forward, old(self)@.up),
                    distance@,
                ),
                ..old(self)@
            }),
    {
        let right = self.forward.cross(self.up).normalize();
        self.position = self.position.add(right.mul(distance));
    }

    /// A step to the left of the view.
    pub fn strafe_left(&mut self, distance: Fixed)
        ensures
            final(self)@ == (CameraState {
                position: step_against(
                    old(self)@.position,
                    v3_cross(old(self)@.forward, old(self)@.up),
                    distance@,
                ),
                ..old(self)@
            }),
    {
        let right = self.forward.cross(self.up).normalize();
        self.position = self.position.sub(right.mul(distance));
    }

    /// A step against `up`.
    pub fn move_up(&mut self, distance: Fixed)
        ensures
            final(self)@ == (CameraState {
                position: step_against(old(self)@.position, old(self)@.up, distance@),
                ..old(self)@
            }),
    {
        self.position = self.position.sub(self.up.normalize().mul(distance));
    }

    /// A step along `up`.
    pub fn move_down(&mut self, distance: Fixed)
        ensures
            final(self)@ == (CameraState {
                position: step_along(old(self)@.position, old(self)@.up, distance@),
                ..old(self)@
            }),
    {
        self.position = self.position.add(self.up.normalize().mul(distance));
    }

    /// Turns the view about `up` by `step`, the angle of the look sensitivity.
    pub fn look_left(&mut self, step: Angle)
        ensures
            final(self)@ == (CameraState {
                forward: turned_forward(old(self)@.forward, old(self)@.up, step@),
                ..old(self)@
            }),
    {
        let rotation_matrix = Matrix4x4::rotation_around_axis(self.up, step);
        self.forward = rotation_matrix.multiply_point(&self.forward).normalize();
    }

    /// Turns the view about `up` by `step` the other way round.
    pub fn look_right(&mut self, step: Angle)
        ensures
            final(self)@ == (CameraState {
                forward: turned_forward(
                    old(self)@.forward,
                    old(self)@.up,
                    Trig { cos: step@.cos, sin: -step@.sin },
                ),
                ..old(self)@
            }),
    {
        let rotation_matrix = Matrix4x4::rotation_around_axis(self.up, step.negated());
        self.forward = rotation_matrix.multiply_point(&self.forward).normalize();
    }

    /// Sets `forward` and `up` from the cosine and sine of the yaw and of
    /// the pitch. Both have length one but for rounding, also with the
    /// pitch at a quarter turn: see [`lemma_up_at_quarter_turn`]. No coordinate needs to be set to zero for being too
    /// small: the smallest number other than zero is 1/65536.
    pub fn update_forward(&mut self, yaw: Angle, pitch: Angle)
        ensures
            final(self)@ == (CameraState {
                forward: forward_of(yaw@, pitch@),
                up: up_of(forward_of(yaw@, pitch@), yaw@),
                ..old(self)@
            }),
    {
        let direction = Point {
            x: yaw.cos.mul(pitch.cos),
            y: Fixed::from_raw(pitch.sin.raw()),
            z: yaw.sin.mul(pitch.cos),
        };
        self.forward = direction.normalize();

        let world_up = Point::new(Fixed::zero(), Fixed::one(), Fixed::zero());
        let across = self.forward.cross(world_up);
        let right = if across.x.is_zero() && across.y.is_zero() && across.z.is_zero() {
            Point::new(yaw.sin.neg(), Fixed::zero(), Fixed::from_raw(yaw.cos.raw())).normalize()
        } else {
            across.normalize()
        };
        self.up = right.cross(self.forward).normalize();
    }

    /// Takes a pointer movement into the yaw and the pitch, and holds the
    /// pitch within a quarter turn up and down. No movement at all changes
    /// nothing. Returns whether there was movement, in which case `forward`
    /// and `up` are due for [`Camera::update_forward`] with the new angles.
    pub fn look_around(&mut self, delta_x: Fixed, delta_y: Fixed) -> (turned: bool)
        ensures
            final(self)@ == look_step(old(self)@, delta_x@, delta_y@),
            turned == !(delta_x@ == 0 && delta_y@ == 0),
    {
        if delta_x.is_zero() && delta_y.is_zero() {
            return false;
        }
        self.yaw = self.yaw.sub(delta_x.mul(self.look_sensitivity));
        self.pitch = self.pitch.add(delta_y.mul(self.look_sensitivity));
        self.pitch = self.pitch.max(Fixed::from_raw(-HALF_PI)).min(Fixed::from_raw(HALF_PI));
        true
    }

    /// The horizontal direction that the pressed keys ask for.
    fn wish_direction(&self, keys: &[bool; 256]) -> (dir: Point)
        ensures
            dir@ == wish_direction(self@, keys@),
    {
        let zero = Fixed::zero();
        let mut move_dir = Point::new(zero, zero, zero);
        if keys[KEY_FORWARD] {
            move_dir = move_dir.sub(self.forward);
        }
        if keys[KEY_BACKWARD] {
            move_dir = move_dir.add(self.forward);
        }
        if keys[KEY_LEFT] {
            move_dir = move_dir.sub(self.forward.cross(self.up));
        }
        if keys[KEY_RIGHT] {
            move_dir = move_dir.add(self.forward.cross(self.up));
        }
        move_dir.y = zero;
        move_dir.normalize()
    }

    fn ground_step(&mut self, move_dir: Point, delta_time: Fixed, keys: &[bool; 256])
        ensures
            final(self)@ == ground_step(old(self)@, move_dir@, delta_time@, keys@),
    {
        if Fixed::zero().lt(move_dir.magnitude()) {
            let wish_vel = move_dir.mul(Fixed::from_raw(MAX_GROUND_SPEED)).mul(
                Fixed::from_raw(DIAGONAL_SCALE),
            );
            let accel = Fixed::from_raw(GROUND_ACCEL).mul(delta_time);
            self.velocity = self.velocity.add(
                wish_vel.sub(self.velocity).mul(accel).mul(delta_time),
            );
            if keys[KEY_LEFT] || keys[KEY_RIGHT] {
                self.velocity = self.velocity.mul(
                    Fixed::one().add(Fixed::from_raw(STRAFE_BOOST).mul(delta_time)),
                );
            }
        }
        if !keys[KEY_JUMP] {
            self.velocity = self.velocity.mul(Fixed::from_raw(GROUND_FRICTION));
        } else {
            self.is_jumping = true;
            self.vertical_velocity = Fixed::from_raw(JUMP_SPEED);
        }
    }

    fn air_step(&mut self, move_dir: Point, delta_time: Fixed)
        ensures
            final(self)@ == air_step(old(self)@, move_dir@, delta_time@),
    {
        if Fixed::zero().lt(move_dir.magnitude()) {
            let air_accel = Fixed::from_raw(AIR_ACCEL).mul(delta_time);
            let wish_vel = move_dir.mul(Fixed::from_raw(MAX_AIR_SPEED));
            self.velocity = self.velocity.add(wish_vel.sub(self.velocity).clamp_length(air_accel));
        }
        self.velocity = self.velocity.mul(
            Fixed::one().sub(Fixed::from_raw(AIR_DRAG).mul(delta_time)),
        );
        self.velocity = self.velocity.clamp_length(Fixed::from_raw(MAX_AIR_SPEED));
        self.vertical_velocity = self.vertical_velocity.sub(self.gravity.mul(delta_time));
        self.position.y = self.position.y.add(self.vertical_velocity.mul(delta_time));
        if self.position.y.lt(Fixed::zero()) {
            self.position.y = Fixed::zero();
            self.vertical_velocity = Fixed::zero();
            self.is_jumping = false;
        }
    }

    /// One step of first-person movement over the time `delta_time`: the
    /// pressed keys steer, the ground or the air decides the physics, and
    /// the pointer turns the view. Returns what [`Camera::look_around`] returns.
    pub fn update_movement(
        &mut self,
        delta_time: Fixed,
        keys: &[bool; 256],
        mouse_delta: (Fixed, Fixed),
    ) -> (turned: bool)
        ensures
            final(self)@ == movement_step(
                old(self)@,
                delta_time@,
                keys@,
                mouse_delta.0@,
                mouse_delta.1@,
            ),
            turned == !(mouse_delta.0@ == 0 && mouse_delta.1@ == 0),
    {
        let move_dir = self.wish_direction(keys);
        if !self.is_jumping && self.is_on_ground() {
            self.ground_step(move_dir, delta_time, keys);
        } else {
            self.air_step(move_dir, delta_time);
        }
        self.position.x = self.position.x.add(self.velocity.x.mul(delta_time));
        self.position.z = self.position.z.add(self.velocity.z.mul(delta_time));
        let turned = self.look_around(mouse_delta.0, mouse_delta.1);
        self.pitch = self.pitch.max(Fixed::from_raw(-HALF_PI)).min(Fixed::from_raw(HALF_PI));
        turned
    }

    /// Whether the camera stands on the ground plane `y = 0`.
    pub fn is_on_ground(&self) -> (r: bool)
        ensures
            r == on_ground(self@),
    {
        self.position.y.le(Fixed::zero())
    }
}

} // verus!
