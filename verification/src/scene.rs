//! Rendering a whole scene, and what the input does to the camera.

use crate::camera::{
    look_step, movement_step, projection_matrix_of, view_matrix_of, Camera, CameraState,
};
use crate::fixed::{fx_from_int, saturate, Fixed};
use crate::framebuffer::{draw, frame_wf, uniform_frame, FrameState, Framebuffer, BACKGROUND, FAR};
use crate::input::KEY_LOCK;
use crate::matrix::{Mat4, Matrix4x4};
use crate::point::{Point, Vec3};
use crate::polygon::{
    backface, is_backface, points2d_view, points_view, project_polygon, projected_uvs,
    projected_vertices, uvs_view, Polygon, Polygon2D,
};
use crate::texture::Texture;
use crate::triangulate::triangulation_of;
use vstd::prelude::*;

verus! {

/// The texture of a face, where it has one.
pub open spec fn texture_of(polygon: &Polygon) -> Option<&Texture> {
    match polygon.texture {
        Some(arc) => Some(&*arc),
        None => None,
    }
}

/// The corners on the screen of a face that is not culled.
pub open spec fn screen_vertices(
    polygon: &Polygon,
    view: Mat4,
    projection: Mat4,
    width: int,
    height: int,
) -> Seq<Vec3> {
    projected_vertices(points_view(polygon.vertices@), view, projection, width, height)
}

/// The texture coordinates on the screen of a face that is not culled.
pub open spec fn screen_uvs(polygon: &Polygon, view: Mat4) -> Seq<(int, int)> {
    projected_uvs(points_view(polygon.vertices@), uvs_view(polygon.tex_coords@), view)
}

/// The frame after one face was rendered: culled faces leave it as it is,
/// the others are projected and drawn.
pub open spec fn render_polygon(
    f: FrameState,
    polygon: &Polygon,
    camera: Vec3,
    view: Mat4,
    projection: Mat4,
) -> FrameState {
    if backface(points_view(polygon.vertices@), camera) {
        f
    } else {
        draw(
            f,
            screen_vertices(polygon, view, projection, f.width, f.height),
            screen_uvs(polygon, view),
            texture_of(polygon),
            polygon.color,
        )
    }
}

/// Whether a face is left out because it faces the camera and still could
/// not be triangulated.
pub open spec fn polygon_fails(
    polygon: &Polygon,
    camera: Vec3,
    view: Mat4,
    projection: Mat4,
    width: int,
    height: int,
) -> bool {
    &&& !backface(points_view(polygon.vertices@), camera)
    &&& triangulation_of(
        screen_vertices(polygon, view, projection, width, height),
        screen_uvs(polygon, view),
    ).is_err()
}

/// The frame after the first `k` faces were rendered, in their order.
pub open spec fn render_upto(
    f: FrameState,
    polygons: Seq<Polygon>,
    k: int,
    camera: Vec3,
    view: Mat4,
    projection: Mat4,
) -> FrameState
    decreases k,
{
    if k <= 0 {
        f
    } else {
        render_polygon(
            render_upto(f, polygons, k - 1, camera, view, projection),
            &polygons[k - 1],
            camera,
            view,
            projection,
        )
    }
}

/// How many of the first `k` faces were left out for want of a triangulation.
pub open spec fn failures_upto(
    polygons: Seq<Polygon>,
    k: int,
    camera: Vec3,
    view: Mat4,
    projection: Mat4,
    width: int,
    height: int,
) -> int
    decreases k,
{
    if k <= 0 {
        0
    } else {
        failures_upto(polygons, k - 1, camera, view, projection, width, height) + (
        if polygon_fails(&polygons[k - 1], camera, view, projection, width, height) {
            1int
        } else {
            0int
        })
    }
}

/// The picture of a scene: a cleared frame, into which every face is rendered.
pub open spec fn rendered(f: FrameState, polygons: Seq<Polygon>, camera: CameraState) -> FrameState {
    render_upto(
        uniform_frame(f.width, f.height, BACKGROUND, FAR as int),
        polygons,
        polygons.len() as int,
        camera.position,
        view_matrix_of(camera.position, camera.forward, camera.up),
        projection_matrix_of(camera.half_fov, camera.aspect_ratio, camera.near, camera.far),
    )
}

/// The face on the screen, unless it is culled. This is the part of
/// rendering that reads the scene only, so faces can be projected apart
/// from each other.
pub fn project_visible(
    polygon: &Polygon,
    camera_position: Point,
    view_matrix: &Matrix4x4,
    projection_matrix: &Matrix4x4,
    screen_width: usize,
    screen_height: usize,
) -> (r: Option<Polygon2D>)
    ensures
        r.is_none() == backface(points_view(polygon.vertices@), camera_position@),
        match r {
            Some(p) => {
                &&& points2d_view(p.vertices@) == screen_vertices(
                    polygon,
                    view_matrix@,
                    projection_matrix@,
                    screen_width as int,
                    screen_height as int,
                )
                &&& uvs_view(p.uv_coords@) == screen_uvs(polygon, view_matrix@)
            },
            None => true,
        },
{
    if is_backface(polygon, camera_position) {
        return None;
    }
    Some(project_polygon(polygon, view_matrix, projection_matrix, screen_width, screen_height))
}

/// The texture that a face shares, where it has one.
pub fn shared_texture(polygon: &Polygon) -> (r: Option<&Texture>)
    ensures
        r == texture_of(polygon),
{
    match &polygon.texture {
        Some(arc) => Some(&**arc),
        None => None,
    }
}

/// Renders one face into the frame. Returns whether it was left out
/// because it could not be triangulated.
pub fn render_polygon_into(
    polygon: &Polygon,
    camera_position: Point,
    view_matrix: &Matrix4x4,
    projection_matrix: &Matrix4x4,
    framebuffer: &mut Framebuffer,
) -> (failed: bool)
    ensures
        final(framebuffer)@ == render_polygon(
            old(framebuffer)@,
            polygon,
            camera_position@,
            view_matrix@,
            projection_matrix@,
        ),
        frame_wf(final(framebuffer)@),
        final(framebuffer)@.width == old(framebuffer)@.width,
        final(framebuffer)@.height == old(framebuffer)@.height,
        failed == polygon_fails(
            polygon,
            camera_position@,
            view_matrix@,
            projection_matrix@,
            old(framebuffer)@.width,
            old(framebuffer)@.height,
        ),
{
    let width = framebuffer.width();
    let height = framebuffer.height();
    match project_visible(
        polygon,
        camera_position,
        view_matrix,
        projection_matrix,
        width,
        height,
    ) {
        Some(projected) => {
            let outcome = framebuffer.draw_polygon(
                &projected,
                shared_texture(polygon),
                polygon.color,
            );
            outcome.is_err()
        },
        None => false,
    }
}

/// Renders the scene as the camera sees it: clears the frame, then culls,
/// projects and draws each face in turn. Returns how many faces were left
/// out because they could not be triangulated.
pub fn render_scene(polygons: &Vec<Polygon>, camera: &Camera, framebuffer: &mut Framebuffer) -> (failed:
    usize)
    ensures
        final(framebuffer)@ == rendered(old(framebuffer)@, polygons@, camera@),
        frame_wf(final(framebuffer)@),
        failed == failures_upto(
            polygons@,
            polygons@.len() as int,
            camera@.position,
            view_matrix_of(camera@.position, camera@.forward, camera@.up),
            projection_matrix_of(
                camera@.half_fov,
                camera@.aspect_ratio,
                camera@.near,
                camera@.far,
            ),
            old(framebuffer)@.width,
            old(framebuffer)@.height,
        ),
{
    let view_matrix = camera.view_matrix();
    let projection_matrix = camera.projection_matrix();
    let position = camera.position;

    framebuffer.clear();
    let ghost f0 = framebuffer@;
    let ghost cam = position@;
    let ghost view = view_matrix@;
    let ghost projection = projection_matrix@;

    let n = polygons.len();
    let mut failed: usize = 0;
    let mut i: usize = 0;
    while i < n
        invariant
            0 <= i <= n,
            n == polygons@.len(),
            cam == position@,
            view == view_matrix@,
            projection == projection_matrix@,
            framebuffer@.width == f0.width,
            framebuffer@.height == f0.height,
            frame_wf(framebuffer@),
            framebuffer@ == render_upto(f0, polygons@, i as int, cam, view, projection),
            failed == failures_upto(
                polygons@,
                i as int,
                cam,
                view,
                projection,
                f0.width,
                f0.height,
            ),
            failed <= i,
        decreases n - i,
    {
        let left_out = render_polygon_into(
            &polygons[i],
            position,
            &view_matrix,
            &projection_matrix,
            framebuffer,
        );
        if left_out {
            failed = failed + 1;
        }
        i = i + 1;
    }
    failed
}

/// The camera after the time `delta_time` went by: it moves as the keys
/// say, unless it is locked.
pub fn update_scene(camera: &mut Camera, keys: &[bool; 256], delta_time: Fixed)
    ensures
        final(camera)@ == (if keys@[KEY_LOCK as int] {
            old(camera)@
        } else {
            movement_step(old(camera)@, delta_time@, keys@, 0, 0)
        }),
{
    if !keys[KEY_LOCK] {
        let _ = camera.update_movement(delta_time, keys, (Fixed::zero(), Fixed::zero()));
    }
}

/// Turns the camera by as much as the pointer is away from the middle of
/// the window, unless the camera is locked. Returns whether yaw or pitch
/// changed.
pub fn handle_input(
    camera: &mut Camera,
    keys: &[bool; 256],
    cursor: (i32, i32),
    window_width: i32,
    window_height: i32,
) -> (turned: bool)
    ensures
        final(camera)@ == (if keys@[KEY_LOCK as int] {
            old(camera)@
        } else {
            look_step(
                old(camera)@,
                fx_from_int(cursor.0 - window_width / 2),
                fx_from_int(cursor.1 - window_height / 2),
            )
        }),
        turned == (!keys@[KEY_LOCK as int] && !(fx_from_int(cursor.0 - window_width / 2) == 0
            && fx_from_int(cursor.1 - window_height / 2) == 0)),
{
    if keys[KEY_LOCK] {
        return false;
    }
    let delta_x = saturate((cursor.0 as i128 - half(window_width) as i128) * 0x1_0000);
    let delta_y = saturate((cursor.1 as i128 - half(window_height) as i128) * 0x1_0000);
    camera.look_around(delta_x, delta_y)
}

/// Half of a length, rounded down.
fn half(n: i32) -> (r: i32)
    ensures
        r == n / 2,
{
    if n >= 0 {
        n / 2
    } else if n % 2 == 0 {
        n / 2
    } else {
        n / 2 - 1
    }
}

} // verus!
