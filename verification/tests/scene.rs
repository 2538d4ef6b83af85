use rake::angle::Angle;
use rake::camera::{Camera, KEY_FORWARD};
use rake::fixed::Fixed;
use rake::framebuffer::{Framebuffer, BACKGROUND, FAR};
use rake::input::KEY_LOCK;
use rake::point::Point;
use rake::polygon::{project_polygon, Polygon};
use rake::scene::{
    handle_input, project_visible, render_polygon_into, render_scene, shared_texture, update_scene,
};
use rake::texture::Texture;
use std::sync::Arc;

const QUAD_COLOR: u32 = 0xff12_3456;
const ONE: i32 = 65536;

fn fx(x: f64) -> Fixed {
    Fixed::from_raw((x * 65536.0).round() as i32)
}

fn pt(x: f64, y: f64, z: f64) -> Point {
    Point::new(fx(x), fx(y), fx(z))
}

/// A camera at the origin that sees along +z, with a right angle of view.
fn camera() -> Camera {
    Camera::new(
        pt(0.0, 0.0, 0.0),
        pt(0.0, 0.0, -1.0),
        pt(0.0, 1.0, 0.0),
        Angle::new(Fixed::from_raw(46341), Fixed::from_raw(46341)),
        Fixed::one(),
        Fixed::from_raw(6554),
        Fixed::from_int(100),
    )
}

fn quad_at(z: f64, color: u32) -> Polygon {
    let mut p = Polygon::new(color);
    p.add_point(pt(-2.0, -2.0, z));
    p.add_point(pt(-2.0, 2.0, z));
    p.add_point(pt(2.0, 2.0, z));
    p.add_point(pt(2.0, -2.0, z));
    // the texture has its first row at the top: y points up in space and
    // down in a texture
    p.set_tex_coords(vec![
        (fx(0.0), fx(1.0)),
        (fx(0.0), fx(0.0)),
        (fx(1.0), fx(0.0)),
        (fx(1.0), fx(1.0)),
    ]);
    p
}

fn screen(p: &rake::polygon::Polygon2D) -> Vec<(i32, i32, i32)> {
    p.vertices.iter().map(|v| (v.x.round(), v.y.round(), v.z.raw())).collect()
}

#[test]
fn quad_projects_to_a_centred_square() {
    let c = camera();
    let projected = project_polygon(
        &quad_at(8.0, QUAD_COLOR),
        &c.view_matrix(),
        &c.projection_matrix(),
        100,
        100,
    );
    assert_eq!(
        screen(&projected),
        vec![
            (37, 37, 8 * ONE),
            (63, 37, 8 * ONE),
            (63, 63, 8 * ONE),
            (37, 63, 8 * ONE)
        ]
    );
    // clipping begins with the second corner, and each corner keeps its
    // own texture coordinate
    let uvs: Vec<(i32, i32)> =
        projected.uv_coords.iter().map(|uv| (uv.0.raw(), uv.1.raw())).collect();
    assert_eq!(uvs, vec![(0, 0), (ONE, 0), (ONE, ONE), (0, ONE)]);
}

#[test]
fn quad_is_rendered_in_the_middle_of_the_frame() {
    let mut frame = Framebuffer::new(100, 100);
    let failed = render_scene(&vec![quad_at(8.0, QUAD_COLOR)], &camera(), &mut frame);
    assert_eq!(failed, 0);
    assert_eq!(frame.pixel(50, 50), Some(QUAD_COLOR));
    assert_eq!(frame.depth(50, 50).unwrap().raw(), 8 * ONE);
    assert_eq!(frame.pixel(5, 5), Some(BACKGROUND));
    assert_eq!(frame.depth(5, 5).unwrap().raw(), FAR);
    for y in 0..100usize {
        for x in 0..100usize {
            let inside = (37..=63).contains(&x) && (37..=63).contains(&y);
            assert_eq!(frame.pixel(x, y), Some(if inside { QUAD_COLOR } else { BACKGROUND }));
        }
    }
}

#[test]
fn drawing_a_projected_quad_by_hand_gives_the_same_picture() {
    let c = camera();
    let mut by_hand = Framebuffer::new(100, 100);
    by_hand.clear();
    let projected = project_polygon(
        &quad_at(8.0, QUAD_COLOR),
        &c.view_matrix(),
        &c.projection_matrix(),
        100,
        100,
    );
    assert_eq!(by_hand.draw_polygon(&projected, None, QUAD_COLOR), Ok(()));

    let mut rendered = Framebuffer::new(100, 100);
    render_scene(&vec![quad_at(8.0, QUAD_COLOR)], &c, &mut rendered);
    assert_eq!(by_hand.pixels(), rendered.pixels());
}

#[test]
fn rendering_clears_what_was_drawn_before() {
    let mut frame = Framebuffer::new(100, 100);
    render_scene(&vec![quad_at(8.0, QUAD_COLOR)], &camera(), &mut frame);
    render_scene(&Vec::new(), &camera(), &mut frame);
    assert!(frame.pixels().iter().all(|&c| c == BACKGROUND));
}

#[test]
fn nearer_quad_hides_the_farther_one_in_either_order() {
    let near = || quad_at(8.0, 0xff00_ff00);
    let far = || quad_at(16.0, 0xffff_0000);
    let mut a = Framebuffer::new(100, 100);
    render_scene(&vec![near(), far()], &camera(), &mut a);
    let mut b = Framebuffer::new(100, 100);
    render_scene(&vec![far(), near()], &camera(), &mut b);
    assert_eq!(a.pixels(), b.pixels());
    assert_eq!(a.pixel(50, 50), Some(0xff00_ff00));
    assert_eq!(a.depth(50, 50).unwrap().raw(), 8 * ONE);
}

#[test]
fn faces_that_look_away_are_left_out() {
    let mut away = quad_at(8.0, QUAD_COLOR);
    away.vertices.reverse();
    let c = camera();
    assert!(project_visible(&away, c.position, &c.view_matrix(), &c.projection_matrix(), 100, 100)
        .is_none());
    let mut frame = Framebuffer::new(100, 100);
    assert_eq!(render_scene(&vec![away], &c, &mut frame), 0);
    assert!(frame.pixels().iter().all(|&c| c == BACKGROUND));
}

#[test]
fn faces_behind_the_camera_are_clipped_away() {
    let c = camera();
    let mut behind = quad_at(-8.0, QUAD_COLOR);
    behind.vertices.reverse();
    let projected =
        project_visible(&behind, c.position, &c.view_matrix(), &c.projection_matrix(), 100, 100)
            .unwrap();
    assert_eq!(projected.vertices.len(), 0);
    assert_eq!(projected.uv_coords.len(), 0);
    let mut frame = Framebuffer::new(100, 100);
    assert_eq!(render_scene(&vec![behind], &c, &mut frame), 0);
    assert!(frame.pixels().iter().all(|&c| c == BACKGROUND));
}

#[test]
fn faces_without_texture_coordinates_are_projected_and_drawn() {
    let c = camera();
    let mut bare = quad_at(8.0, QUAD_COLOR);
    bare.set_tex_coords(Vec::new());
    let projected = project_polygon(&bare, &c.view_matrix(), &c.projection_matrix(), 100, 100);
    assert_eq!(projected.vertices.len(), 4);
    assert_eq!(projected.uv_coords.len(), 4);
    assert!(projected.uv_coords.iter().all(|uv| uv.0.raw() == 0 && uv.1.raw() == 0));

    let mut three = quad_at(8.0, QUAD_COLOR);
    three.tex_coords.pop();
    let projected = project_polygon(&three, &c.view_matrix(), &c.projection_matrix(), 100, 100);
    assert_eq!(projected.vertices.len(), 4);
    let uvs: Vec<(i32, i32)> =
        projected.uv_coords.iter().map(|uv| (uv.0.raw(), uv.1.raw())).collect();
    assert_eq!(uvs, vec![(0, 0), (ONE, 0), (0, 0), (0, ONE)]);

    let mut frame = Framebuffer::new(100, 100);
    assert_eq!(render_scene(&vec![bare], &c, &mut frame), 0);
    assert_eq!(frame.pixel(50, 50), Some(QUAD_COLOR));
}

#[test]
fn face_that_is_clipped_keeps_every_corner_that_is_left() {
    let c = camera();
    let mut p = Polygon::new(QUAD_COLOR);
    p.add_point(pt(0.0, 0.0, -1.0));
    p.add_point(pt(1.0, 0.0, 5.0));
    p.add_point(pt(0.0, 1.0, 5.0));
    p.set_tex_coords(vec![(fx(0.0), fx(0.0)), (fx(1.0), fx(0.0)), (fx(0.0), fx(1.0))]);
    let projected = project_polygon(&p, &c.view_matrix(), &c.projection_matrix(), 100, 100);
    assert_eq!(projected.vertices.len(), 4);
    let uvs: Vec<(i32, i32)> =
        projected.uv_coords.iter().map(|uv| (uv.0.raw(), uv.1.raw())).collect();
    // the crossings are 0.1833 of the way from the first corner to the others
    assert_eq!(uvs, vec![(12015, 0), (ONE, 0), (0, ONE), (0, 12015)]);
    let depths: Vec<i32> = projected.vertices.iter().map(|v| v.z.raw()).collect();
    assert_eq!(depths, vec![6554, 5 * ONE, 5 * ONE, 6554]);
}

#[test]
fn faces_that_cannot_be_triangulated_are_counted() {
    let c = camera();
    let mut line = Polygon::new(QUAD_COLOR);
    for i in 0..5 {
        line.add_point(pt(i as f64 - 2.0, i as f64 - 2.0, 8.0));
    }
    line.set_tex_coords(vec![(fx(0.0), fx(0.0)); 5]);
    let mut frame = Framebuffer::new(100, 100);
    let failed = render_scene(&vec![line, quad_at(8.0, QUAD_COLOR)], &c, &mut frame);
    assert_eq!(failed, 1);
    assert_eq!(frame.pixel(50, 50), Some(QUAD_COLOR));
}

#[test]
fn one_face_is_rendered_into_a_frame_that_is_kept() {
    let c = camera();
    let mut frame = Framebuffer::new(100, 100);
    frame.clear();
    let far = quad_at(16.0, 0xffff_0000);
    let near = quad_at(8.0, 0xff00_ff00);
    assert!(!render_polygon_into(&far, c.position, &c.view_matrix(), &c.projection_matrix(), &mut frame));
    assert_eq!(frame.pixel(50, 50), Some(0xffff_0000));
    assert!(!render_polygon_into(&near, c.position, &c.view_matrix(), &c.projection_matrix(), &mut frame));
    assert_eq!(frame.pixel(50, 50), Some(0xff00_ff00));
    // the farther quad is smaller on the screen, the nearer one covers it
    assert_eq!(frame.pixels().iter().filter(|&&p| p == 0xffff_0000).count(), 0);
}

#[test]
fn textured_face_shows_its_texture() {
    let texture = Arc::new(Texture::new(
        2,
        2,
        vec![
            255, 0, 0, 255, /**/ 0, 255, 0, 255, //
            0, 0, 255, 255, /**/ 255, 255, 255, 255,
        ],
    ));
    let mut face = quad_at(8.0, QUAD_COLOR);
    assert!(shared_texture(&face).is_none());
    face.set_texture(texture.clone());
    assert_eq!(shared_texture(&face).unwrap().width(), 2);

    let mut frame = Framebuffer::new(100, 100);
    assert_eq!(render_scene(&vec![face], &camera(), &mut frame), 0);
    // the top left of the screen square has the texture coordinate (0, 0)
    assert_eq!(frame.pixel(40, 40), Some(0xffff_0000));
    assert_eq!(frame.pixel(60, 40), Some(0xff00_ff00));
    assert_eq!(frame.pixel(40, 60), Some(0xff00_00ff));
    assert_eq!(frame.pixel(60, 60), Some(0xffff_ffff));
    assert_eq!(frame.pixel(5, 5), Some(BACKGROUND));
}

fn keys(down: &[usize]) -> [bool; 256] {
    let mut k = [false; 256];
    for &code in down {
        k[code] = true;
    }
    k
}

#[test]
fn scene_update_moves_the_camera_unless_locked() {
    let dt = Fixed::from_raw(1092);
    let mut c = camera();
    c.position = pt(0.0, 0.0, -5.0);
    update_scene(&mut c, &keys(&[KEY_FORWARD]), dt);
    assert_eq!((c.position.x.raw(), c.position.y.raw(), c.position.z.raw()), (0, 0, -327328));

    let mut locked = camera();
    locked.position = pt(0.0, 0.0, -5.0);
    update_scene(&mut locked, &keys(&[KEY_FORWARD, KEY_LOCK]), dt);
    assert_eq!(locked.position.z.raw(), -5 * ONE);
    assert_eq!(locked.velocity.z.raw(), 0);
}

#[test]
fn pointer_turns_the_camera_unless_locked() {
    let mut c = camera();
    // five pixels right of the middle and three above it
    assert!(handle_input(&mut c, &keys(&[]), (405, 297), 800, 600));
    assert_eq!((c.yaw.raw(), c.pitch.raw()), (-330, -198));

    let mut still = camera();
    assert!(!handle_input(&mut still, &keys(&[]), (400, 300), 800, 600));
    assert_eq!((still.yaw.raw(), still.pitch.raw()), (0, 0));

    let mut locked = camera();
    assert!(!handle_input(&mut locked, &keys(&[KEY_LOCK]), (405, 297), 800, 600));
    assert_eq!((locked.yaw.raw(), locked.pitch.raw()), (0, 0));

    let mut odd = camera();
    assert!(handle_input(&mut odd, &keys(&[]), (0, 0), 801, -3));
    // 801 / 2 is 400 and -3 / 2 is -2, rounded down
    assert_eq!(odd.yaw.raw(), Fixed::from_int(400).mul(Fixed::from_raw(66)).raw());
    assert_eq!(odd.pitch.raw(), Fixed::from_int(2).mul(Fixed::from_raw(66)).raw());
}
