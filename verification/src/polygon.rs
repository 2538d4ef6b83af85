//! Polygons in space and on the screen.

use crate::angle::{Angle, Trig};
use crate::fixed::{
    fx_add, fx_div, fx_from_int, fx_mul, fx_round, fx_sub, lemma_product_bound, Fixed,
};
use crate::matrix::{
    mat_apply, mat_mul, mat_rotate_x, mat_rotate_y, mat_rotate_z, mat_scale, mat_translate, Mat4,
    Matrix4x4,
};
use crate::point::{v3_norm_sq, Point, Point2D, Vec3};
use crate::texture::Texture;
use std::sync::Arc;
use vstd::prelude::*;

verus! {

/// The raw values of a sequence of points.
pub open spec fn points_view(s: Seq<Point>) -> Seq<Vec3> {
    Seq::new(s.len(), |i: int| s[i]@)
}

/// The raw values of a sequence of screen points.
pub open spec fn points2d_view(s: Seq<Point2D>) -> Seq<Vec3> {
    Seq::new(s.len(), |i: int| s[i]@)
}

/// The raw values of a sequence of texture coordinates.
pub open spec fn uvs_view(s: Seq<(Fixed, Fixed)>) -> Seq<(int, int)> {
    Seq::new(s.len(), |i: int| (s[i].0@, s[i].1@))
}

/// The near plane of the projection: 0.1.
pub const NEAR_PLANE: i32 = 6554;

/// The matrix of a model transform, the product of translation, turns
/// about `z`, `y` and `x`, and scaling: applied to a point it scales first,
/// then turns about `x`, `y` and `z`, then moves.
pub open spec fn model_matrix(
    translation: (int, int, int),
    rotation: (Trig, Trig, Trig),
    scale: (int, int, int),
) -> Mat4 {
    mat_mul(
        mat_mul(
            mat_mul(
                mat_mul(
                    mat_translate(translation.0, translation.1, translation.2),
                    mat_rotate_z(rotation.2),
                ),
                mat_rotate_y(rotation.1),
            ),
            mat_rotate_x(rotation.0),
        ),
        mat_scale(scale.0, scale.1, scale.2),
    )
}

/// Every point taken through the general transform of `m`.
pub open spec fn transform_all(vs: Seq<Vec3>, m: Mat4) -> Seq<Vec3> {
    Seq::new(vs.len(), |i: int| mat_apply(m, vs[i]))
}

/// The corner after `i` in a polygon of `n` corners.
pub open spec fn successor(n: int, i: int) -> int {
    if i + 1 == n {
        0
    } else {
        i + 1
    }
}

/// The point in which the edge from `cur` to `next` meets the plane `z = near`.
pub open spec fn plane_crossing(cur: Vec3, next: Vec3, near: int) -> Vec3 {
    let t = fx_div(fx_sub(near, cur.z), fx_sub(next.z, cur.z));
    Vec3 {
        x: fx_add(cur.x, fx_mul(t, fx_sub(next.x, cur.x))),
        y: fx_add(cur.y, fx_mul(t, fx_sub(next.y, cur.y))),
        z: near,
    }
}

/// What one edge gives to the clipped polygon: its end where the whole edge
/// is in front of the plane, the crossing where it leaves, the crossing and
/// its end where it enters, and nothing where it is behind.
pub open spec fn clip_edge(cur: Vec3, next: Vec3, near: int) -> Seq<Vec3> {
    let cur_inside = cur.z >= near;
    let next_inside = next.z >= near;
    if cur_inside && next_inside {
        seq![next]
    } else if cur_inside {
        seq![plane_crossing(cur, next, near)]
    } else if next_inside {
        seq![plane_crossing(cur, next, near), next]
    } else {
        Seq::empty()
    }
}

/// What the first `k` edges give to the clipped polygon.
pub open spec fn clip_upto(vs: Seq<Vec3>, near: int, k: int) -> Seq<Vec3>
    decreases k,
{
    if k <= 0 {
        Seq::empty()
    } else {
        clip_upto(vs, near, k - 1) + clip_edge(
            vs[k - 1],
            vs[successor(vs.len() as int, k - 1)],
            near,
        )
    }
}

/// The part of a polygon in front of the plane `z = near`.
pub open spec fn clip(vs: Seq<Vec3>, near: int) -> Seq<Vec3> {
    clip_upto(vs, near, vs.len() as int)
}

/// The screen point of a point in view space: projected, divided by the
/// projected depth, mapped to pixels with `y` pointing down, and moved to
/// the nearest pixel. Its depth is the depth in view space.
pub open spec fn project_vertex(p: Vec3, projection: Mat4, width: int, height: int) -> Vec3 {
    let q = mat_apply(projection, p);
    let x_ndc = fx_div(q.x, q.z);
    let y_ndc = fx_div(q.y, q.z);
    let half_w = fx_div(fx_from_int(width), 0x2_0000);
    let half_h = fx_div(fx_from_int(height), 0x2_0000);
    Vec3 {
        x: fx_round(fx_mul(half_w, fx_add(0x1_0000, x_ndc))) * 0x1_0000,
        y: fx_round(fx_mul(half_h, fx_sub(0x1_0000, y_ndc))) * 0x1_0000,
        z: p.z,
    }
}

/// The texture coordinate of corner `i`: the one that the face holds for
/// it, or `(0, 0)` where the face holds none.
pub open spec fn uv_at(uvs: Seq<(int, int)>, i: int) -> (int, int) {
    if 0 <= i < uvs.len() {
        uvs[i]
    } else {
        (0, 0)
    }
}

/// The texture coordinate of the point in which the edge from `cur` to
/// `next` meets the plane `z = near`: as far between the coordinates of its
/// ends as the point is between the ends.
pub open spec fn uv_crossing(
    cur: Vec3,
    next: Vec3,
    uv_cur: (int, int),
    uv_next: (int, int),
    near: int,
) -> (int, int) {
    let t = fx_div(fx_sub(near, cur.z), fx_sub(next.z, cur.z));
    (
        fx_add(uv_cur.0, fx_mul(t, fx_sub(uv_next.0, uv_cur.0))),
        fx_add(uv_cur.1, fx_mul(t, fx_sub(uv_next.1, uv_cur.1))),
    )
}

/// The texture coordinates of what one edge gives to the clipped polygon,
/// one for each point of [`clip_edge`].
pub open spec fn clip_edge_uvs(
    cur: Vec3,
    next: Vec3,
    uv_cur: (int, int),
    uv_next: (int, int),
    near: int,
) -> Seq<(int, int)> {
    let cur_inside = cur.z >= near;
    let next_inside = next.z >= near;
    if cur_inside && next_inside {
        seq![uv_next]
    } else if cur_inside {
        seq![uv_crossing(cur, next, uv_cur, uv_next, near)]
    } else if next_inside {
        seq![uv_crossing(cur, next, uv_cur, uv_next, near), uv_next]
    } else {
        Seq::empty()
    }
}

/// The texture coordinates of what the first `k` edges give to the clipped
/// polygon.
pub open spec fn clip_uvs_upto(vs: Seq<Vec3>, uvs: Seq<(int, int)>, near: int, k: int) -> Seq<
    (int, int),
>
    decreases k,
{
    if k <= 0 {
        Seq::empty()
    } else {
        clip_uvs_upto(vs, uvs, near, k - 1) + clip_edge_uvs(
            vs[k - 1],
            vs[successor(vs.len() as int, k - 1)],
            uv_at(uvs, k - 1),
            uv_at(uvs, successor(vs.len() as int, k - 1)),
            near,
        )
    }
}

/// The texture coordinates of the corners of [`clip`], each corner with
/// its own: a corner of the polygon keeps its coordinate, and a crossing
/// has the coordinate between those of the two ends of its edge.
pub open spec fn clip_uvs(vs: Seq<Vec3>, uvs: Seq<(int, int)>, near: int) -> Seq<(int, int)> {
    clip_uvs_upto(vs, uvs, near, vs.len() as int)
}

/// The corners of a face that are left for the screen: those that
/// clipping leaves in view space, or none where these are fewer than three.
pub open spec fn surviving(vs: Seq<Vec3>, view: Mat4) -> Seq<Vec3> {
    let clipped = clip(transform_all(vs, view), NEAR_PLANE as int);
    if clipped.len() < 3 {
        Seq::empty()
    } else {
        clipped
    }
}

/// The corners of the projected polygon: every corner that is left,
/// projected.
pub open spec fn projected_vertices(
    vs: Seq<Vec3>,
    view: Mat4,
    projection: Mat4,
    width: int,
    height: int,
) -> Seq<Vec3> {
    let left = surviving(vs, view);
    Seq::new(left.len(), |i: int| project_vertex(left[i], projection, width, height))
}

/// The texture coordinates of the projected polygon, one for each of its
/// corners.
pub open spec fn projected_uvs(vs: Seq<Vec3>, uvs: Seq<(int, int)>, view: Mat4) -> Seq<(int, int)> {
    if clip(transform_all(vs, view), NEAR_PLANE as int).len() < 3 {
        Seq::empty()
    } else {
        clip_uvs(transform_all(vs, view), uvs, NEAR_PLANE as int)
    }
}

/// The normal of a face, taken from its first three corners: the exact
/// cross product of its first two edges, in squares of raw units.
pub open spec fn face_normal(vs: Seq<Vec3>) -> Vec3 {
    let a = Vec3 { x: vs[1].x - vs[0].x, y: vs[1].y - vs[0].y, z: vs[1].z - vs[0].z };
    let b = Vec3 { x: vs[2].x - vs[0].x, y: vs[2].y - vs[0].y, z: vs[2].z - vs[0].z };
    Vec3 { x: a.y * b.z - a.z * b.y, y: a.z * b.x - a.x * b.z, z: a.x * b.y - a.y * b.x }
}

/// How far the face looks towards the camera: the exact dot product of its
/// normal and the vector from its first corner to the camera. Its sign is
/// the sign of the dot product of the two unit vectors, without rounding.
pub open spec fn facing(vs: Seq<Vec3>, camera: Vec3) -> int {
    let n = face_normal(vs);
    n.x * (camera.x - vs[0].x) + n.y * (camera.y - vs[0].y) + n.z * (camera.z - vs[0].z)
}

/// Whether the face is culled: it has fewer than three corners or looks away
/// from the camera.
pub open spec fn backface(vs: Seq<Vec3>, camera: Vec3) -> bool {
    vs.len() < 3 || facing(vs, camera) < 0
}

/// Every corner of a clipped polygon is in front of the plane or on it.
pub proof fn lemma_clip_in_front(vs: Seq<Vec3>, near: int, k: int)
    requires
        0 <= k <= vs.len(),
    ensures
        forall|j: int| 0 <= j < clip_upto(vs, near, k).len() ==> clip_upto(vs, near, k)[j].z >= near,
    decreases k,
{
    if k > 0 {
        lemma_clip_in_front(vs, near, k - 1);
        let head = clip_upto(vs, near, k - 1);
        let tail = clip_edge(vs[k - 1], vs[successor(vs.len() as int, k - 1)], near);
        assert forall|j: int| 0 <= j < (head + tail).len() implies (head + tail)[j].z >= near by {
            if j < head.len() {
                assert((head + tail)[j] == head[j]);
            } else {
                assert((head + tail)[j] == tail[j - head.len()]);
            }
        }
    }
}

/// A polygon that lies behind the plane clips to nothing.
pub proof fn lemma_clip_all_behind(vs: Seq<Vec3>, near: int, k: int)
    requires
        0 <= k <= vs.len(),
        forall|i: int| 0 <= i < vs.len() ==> vs[i].z < near,
    ensures
        clip_upto(vs, near, k) == Seq::<Vec3>::empty(),
    decreases k,
{
    if k > 0 {
        lemma_clip_all_behind(vs, near, k - 1);
        assert(clip_upto(vs, near, k) =~= Seq::<Vec3>::empty());
    }
}

/// A polygon in front of the plane keeps its corners, beginning with the second.
pub proof fn lemma_clip_all_in_front(vs: Seq<Vec3>, near: int, k: int)
    requires
        0 <= k <= vs.len(),
        forall|i: int| 0 <= i < vs.len() ==> vs[i].z >= near,
    ensures
        clip_upto(vs, near, k) == Seq::new(k as nat, |i: int| vs[successor(vs.len() as int, i)]),
    decreases k,
{
    if k > 0 {
        lemma_clip_all_in_front(vs, near, k - 1);
    }
    assert(clip_upto(vs, near, k) =~= Seq::new(
        k as nat,
        |i: int| vs[successor(vs.len() as int, i)],
    ));
}

/// Clipping gives as many texture coordinates as corners.
pub proof fn lemma_clip_uvs_len(vs: Seq<Vec3>, uvs: Seq<(int, int)>, near: int, k: int)
    requires
        0 <= k <= vs.len(),
    ensures
        clip_uvs_upto(vs, uvs, near, k).len() == clip_upto(vs, near, k).len(),
    decreases k,
{
    if k > 0 {
        lemma_clip_uvs_len(vs, uvs, near, k - 1);
    }
}

/// A polygon in front of the plane keeps its texture coordinates, each
/// with its corner: both begin with the second corner.
pub proof fn lemma_clip_uvs_all_in_front(vs: Seq<Vec3>, uvs: Seq<(int, int)>, near: int, k: int)
    requires
        0 <= k <= vs.len(),
        forall|i: int| 0 <= i < vs.len() ==> vs[i].z >= near,
    ensures
        clip_uvs_upto(vs, uvs, near, k) == Seq::new(
            k as nat,
            |i: int| uv_at(uvs, successor(vs.len() as int, i)),
        ),
    decreases k,
{
    if k > 0 {
        lemma_clip_uvs_all_in_front(vs, uvs, near, k - 1);
    }
    assert(clip_uvs_upto(vs, uvs, near, k) =~= Seq::new(
        k as nat,
        |i: int| uv_at(uvs, successor(vs.len() as int, i)),
    ));
}

/// A face that lies in front of the near plane is projected corner by
/// corner, and each corner on the screen carries the texture coordinate of
/// the corner that it is the image of.
pub proof fn lemma_projection_keeps_pairs(
    vs: Seq<Vec3>,
    uvs: Seq<(int, int)>,
    view: Mat4,
    projection: Mat4,
    width: int,
    height: int,
    k: int,
)
    requires
        vs.len() >= 3,
        forall|i: int| 0 <= i < vs.len() ==> mat_apply(view, vs[i]).z >= NEAR_PLANE,
        0 <= k < vs.len(),
    ensures
        projected_vertices(vs, view, projection, width, height).len() == vs.len(),
        projected_uvs(vs, uvs, view).len() == vs.len(),
        projected_vertices(vs, view, projection, width, height)[k] == project_vertex(
            mat_apply(view, vs[successor(vs.len() as int, k)]),
            projection,
            width,
            height,
        ),
        projected_uvs(vs, uvs, view)[k] == uv_at(uvs, successor(vs.len() as int, k)),
{
    let ws = transform_all(vs, view);
    lemma_clip_all_in_front(ws, NEAR_PLANE as int, ws.len() as int);
    lemma_clip_uvs_all_in_front(ws, uvs, NEAR_PLANE as int, ws.len() as int);
}

/// Two cameras on opposite sides of the plane of a face, equally far from
/// it, as a camera and its mirror image in the plane are: the face is
/// culled for just one of them.
pub proof fn lemma_backface_flips(vs: Seq<Vec3>, camera: Vec3, mirrored: Vec3)
    requires
        vs.len() >= 3,
        facing(vs, camera) != 0,
        facing(vs, mirrored) == -facing(vs, camera),
    ensures
        backface(vs, mirrored) == !backface(vs, camera),
        facing(vs, camera) > 0 ==> !backface(vs, camera) && backface(vs, mirrored),
{
}

/// The mirror image of a camera in the plane of a face is as far from the
/// plane on the other side: where `mirrored` is `camera` moved by `k`
/// times the normal, with `k` times the squared length of the normal equal
/// to minus twice the facing, the facings are opposite.
pub proof fn lemma_mirror_in_plane(vs: Seq<Vec3>, camera: Vec3, mirrored: Vec3, k: int)
    requires
        vs.len() >= 3,
        mirrored.x - camera.x == k * face_normal(vs).x,
        mirrored.y - camera.y == k * face_normal(vs).y,
        mirrored.z - camera.z == k * face_normal(vs).z,
        k * v3_norm_sq(face_normal(vs)) == -2 * facing(vs, camera),
    ensures
        facing(vs, mirrored) == -facing(vs, camera),
{
    let n = face_normal(vs);
    let f = facing(vs, camera);
    let dx = camera.x - vs[0].x;
    let dy = camera.y - vs[0].y;
    let dz = camera.z - vs[0].z;
    assert(n.x * (dx + k * n.x) == n.x * dx + k * (n.x * n.x)) by (nonlinear_arith);
    assert(n.y * (dy + k * n.y) == n.y * dy + k * (n.y * n.y)) by (nonlinear_arith);
    assert(n.z * (dz + k * n.z) == n.z * dz + k * (n.z * n.z)) by (nonlinear_arith);
    assert(k * (n.x * n.x + n.y * n.y + n.z * n.z) == k * (n.x * n.x) + k * (n.y * n.y) + k * (
    n.z * n.z)) by (nonlinear_arith);
}

/// The image of a camera under reflection in the first corner of a face
/// lies on the other side of its plane, equally far from it.
pub proof fn lemma_mirror_in_corner(vs: Seq<Vec3>, camera: Vec3, mirrored: Vec3)
    requires
        vs.len() >= 3,
        mirrored.x - vs[0].x == -(camera.x - vs[0].x),
        mirrored.y - vs[0].y == -(camera.y - vs[0].y),
        mirrored.z - vs[0].z == -(camera.z - vs[0].z),
    ensures
        facing(vs, mirrored) == -facing(vs, camera),
{
    let n = face_normal(vs);
    let dx = camera.x - vs[0].x;
    let dy = camera.y - vs[0].y;
    let dz = camera.z - vs[0].z;
    assert(n.x * (-dx) == -(n.x * dx)) by (nonlinear_arith);
    assert(n.y * (-dy) == -(n.y * dy)) by (nonlinear_arith);
    assert(n.z * (-dz) == -(n.z * dz)) by (nonlinear_arith);
}

/// A flat face in space: its corners in order, a texture coordinate for
/// each corner, a colour, and a texture that it may share with other faces.
#[derive(Debug)]
pub struct Polygon {
    pub vertices: Vec<Point>,
    pub tex_coords: Vec<(Fixed, Fixed)>,
    pub texture: Option<Arc<Texture>>,
    pub color: u32,
}

impl Polygon {
    /// A face without corners, of the given colour.
    pub fn new(colorout: u32) -> (p: Polygon)
        ensures
            p.vertices@.len() == 0,
            p.tex_coords@.len() == 0,
            p.texture.is_none(),
            p.color == colorout,
    {
        Polygon { vertices: Vec::new(), tex_coords: Vec::new(), texture: None, color: colorout }
    }

    /// Gives the face a texture.
    pub fn set_texture(&mut self, texture: Arc<Texture>)
        ensures
            final(self).texture == Some(texture),
            final(self).vertices == old(self).vertices,
            final(self).tex_coords == old(self).tex_coords,
            final(self).color == old(self).color,
    {
        self.texture = Some(texture);
    }

    /// Sets the texture coordinates, one for each corner.
    pub fn set_tex_coords(&mut self, tex_vec: Vec<(Fixed, Fixed)>)
        ensures
            final(self).tex_coords == tex_vec,
            final(self).vertices == old(self).vertices,
            final(self).texture == old(self).texture,
            final(self).color == old(self).color,
    {
        self.tex_coords = tex_vec;
    }

    /// Sets the colour.
    pub fn set_color(&mut self, color: u32)
        ensures
            final(self).color == color,
            final(self).vertices == old(self).vertices,
            final(self).tex_coords == old(self).tex_coords,
            final(self).texture == old(self).texture,
    {
        self.color = color;
    }

    /// Adds a corner behind the others.
    pub fn add_point(&mut self, point: Point)
        ensures
            final(self).vertices@ == old(self).vertices@.push(point),
            final(self).tex_coords == old(self).tex_coords,
            final(self).texture == old(self).texture,
            final(self).color == old(self).color,
    {
        self.vertices.push(point);
    }

    /// Scales the face, turns it about `x`, `y` and `z`, and moves it.
    pub fn transform_full(
        &mut self,
        translation: (Fixed, Fixed, Fixed),
        rotation: (Angle, Angle, Angle),
        scale: (Fixed, Fixed, Fixed),
    )
        ensures
            points_view(final(self).vertices@) == transform_all(
                points_view(old(self).vertices@),
                model_matrix(
                    (translation.0@, translation.1@, translation.2@),
                    (rotation.0@, rotation.1@, rotation.2@),
                    (scale.0@, scale.1@, scale.2@),
                ),
            ),
            final(self).tex_coords == old(self).tex_coords,
            final(self).texture == old(self).texture,
            final(self).color == old(self).color,
    {
        let translation_matrix = Matrix4x4::translate(translation.0, translation.1, translation.2);
        let rotation_x_matrix = Matrix4x4::rotate_x(rotation.0);
        let rotation_y_matrix = Matrix4x4::rotate_y(rotation.1);
        let rotation_z_matrix = Matrix4x4::rotate_z(rotation.2);
        let scaling_matrix = Matrix4x4::scale(scale.0, scale.1, scale.2);

        let combined_matrix = translation_matrix.multiply(&rotation_z_matrix).multiply(
            &rotation_y_matrix,
        ).multiply(&rotation_x_matrix).multiply(&scaling_matrix);

        let n = self.vertices.len();
        let mut i: usize = 0;
        while i < n
            invariant
                0 <= i <= n,
                n == self.vertices@.len(),
                n == old(self).vertices@.len(),
                self.tex_coords == old(self).tex_coords,
                self.texture == old(self).texture,
                self.color == old(self).color,
                forall|k: int|
                    0 <= k < i ==> (#[trigger] self.vertices@[k])@ == mat_apply(
                        combined_matrix@,
                        old(self).vertices@[k]@,
                    ),
                forall|k: int| i <= k < n ==> self.vertices@[k] == old(self).vertices@[k],
            decreases n - i,
        {
            let moved = combined_matrix.multiply_point(&self.vertices[i]);
            self.vertices[i] = moved;
            i = i + 1;
        }
        assert(points_view(self.vertices@) =~= transform_all(
            points_view(old(self).vertices@),
            combined_matrix@,
        ));
    }
}

/// A face on the screen: its corners in order and a texture coordinate for each.
#[derive(Clone, Debug)]
pub struct Polygon2D {
    pub vertices: Vec<Point2D>,
    pub uv_coords: Vec<(Fixed, Fixed)>,
}

/// Projects a face onto a screen of the given size: into view space,
/// clipped at the near plane, then corner by corner onto the screen.
///
/// Every corner that clipping leaves is projected, with its own texture
/// coordinate: a corner of the face keeps the coordinate of the face for
/// it, or `(0, 0)` where the face holds none, and a corner on the near
/// plane has the coordinate between those of the two ends of its edge. The
/// result is empty where clipping leaves fewer than three corners.
pub fn project_polygon(
    polygon: &Polygon,
    view_matrix: &Matrix4x4,
    projection_matrix: &Matrix4x4,
    screen_width: usize,
    screen_height: usize,
) -> (r: Polygon2D)
    ensures
        points2d_view(r.vertices@) == projected_vertices(
            points_view(polygon.vertices@),
            view_matrix@,
            projection_matrix@,
            screen_width as int,
            screen_height as int,
        ),
        uvs_view(r.uv_coords@) == projected_uvs(
            points_view(polygon.vertices@),
            uvs_view(polygon.tex_coords@),
            view_matrix@,
        ),
        r.vertices@.len() == r.uv_coords@.len(),
{
    let mut vertices_2d: Vec<Point2D> = Vec::new();
    let ghost vs = points_view(polygon.vertices@);
    let ghost uvs = uvs_view(polygon.tex_coords@);

    let n = polygon.vertices.len();
    let mut view_vertices: Vec<Point> = Vec::new();
    let mut i: usize = 0;
    while i < n
        invariant
            0 <= i <= n,
            n == polygon.vertices@.len(),
            view_vertices@.len() == i,
            forall|k: int|
                0 <= k < i ==> (#[trigger] view_vertices@[k])@ == mat_apply(
                    view_matrix@,
                    polygon.vertices@[k]@,
                ),
        decreases n - i,
    {
        view_vertices.push(view_matrix.multiply_point(&polygon.vertices[i]));
        i = i + 1;
    }
    assert(points_view(view_vertices@) =~= transform_all(vs, view_matrix@));

    let (clipped, clipped_uvs) = clip_face_to_near_plane(
        &view_vertices,
        &polygon.tex_coords,
        Fixed::from_raw(NEAR_PLANE),
    );
    let ghost cl = points_view(clipped@);

    if clipped.len() < 3 {
        let uv_coords_2d: Vec<(Fixed, Fixed)> = Vec::new();
        assert(points2d_view(vertices_2d@) =~= projected_vertices(
            vs,
            view_matrix@,
            projection_matrix@,
            screen_width as int,
            screen_height as int,
        ));
        assert(uvs_view(uv_coords_2d@) =~= projected_uvs(vs, uvs, view_matrix@));
        return Polygon2D { vertices: vertices_2d, uv_coords: uv_coords_2d };
    }
    let m = clipped.len();
    let half_w = Fixed::from_usize(screen_width).div(Fixed::from_int(2));
    let half_h = Fixed::from_usize(screen_height).div(Fixed::from_int(2));
    let mut j: usize = 0;
    while j < m
        invariant
            0 <= j <= m,
            m == clipped@.len(),
            cl == points_view(clipped@),
            half_w@ == fx_div(fx_from_int(screen_width as int), 0x2_0000),
            half_h@ == fx_div(fx_from_int(screen_height as int), 0x2_0000),
            vertices_2d@.len() == j,
            forall|k: int|
                0 <= k < j ==> (#[trigger] vertices_2d@[k])@ == project_vertex(
                    cl[k],
                    projection_matrix@,
                    screen_width as int,
                    screen_height as int,
                ),
        decreases m - j,
    {
        let vertex = clipped[j];
        let projected = projection_matrix.multiply_point(&vertex);

        let x_ndc = projected.x.div(projected.z);
        let y_ndc = projected.y.div(projected.z);

        let screen_x = half_w.mul(Fixed::one().add(x_ndc)).round();
        let screen_y = half_h.mul(Fixed::one().sub(y_ndc)).round();

        vertices_2d.push(
            Point2D {
                x: Fixed::from_int(screen_x),
                y: Fixed::from_int(screen_y),
                z: Fixed::from_raw(vertex.z.raw()),
            },
        );
        j = j + 1;
    }
    assert(points2d_view(vertices_2d@) =~= projected_vertices(
        vs,
        view_matrix@,
        projection_matrix@,
        screen_width as int,
        screen_height as int,
    ));
    Polygon2D { vertices: vertices_2d, uv_coords: clipped_uvs }
}

/// The texture coordinate of corner `i` of a face.
fn tex_coord_at(tex_coords: &Vec<(Fixed, Fixed)>, i: usize) -> (r: (Fixed, Fixed))
    ensures
        (r.0@, r.1@) == uv_at(uvs_view(tex_coords@), i as int),
{
    if i < tex_coords.len() {
        tex_coords[i]
    } else {
        (Fixed::zero(), Fixed::zero())
    }
}

/// Clips a face at the plane `z = near`, corners and texture coordinates
/// together: each corner that is left has its own coordinate.
pub fn clip_face_to_near_plane(
    vertices: &Vec<Point>,
    tex_coords: &Vec<(Fixed, Fixed)>,
    near: Fixed,
) -> (r: (Vec<Point>, Vec<(Fixed, Fixed)>))
    ensures
        points_view(r.0@) == clip(points_view(vertices@), near@),
        uvs_view(r.1@) == clip_uvs(points_view(vertices@), uvs_view(tex_coords@), near@),
        r.0@.len() == r.1@.len(),
        forall|j: int| 0 <= j < r.0@.len() ==> (#[trigger] r.0@[j])@.z >= near@,
{
    let mut clipped_vertices: Vec<Point> = Vec::new();
    let mut clipped_uvs: Vec<(Fixed, Fixed)> = Vec::new();
    let ghost vs = points_view(vertices@);
    let ghost uvs = uvs_view(tex_coords@);
    let n = vertices.len();
    let mut i: usize = 0;
    while i < n
        invariant
            0 <= i <= n,
            n == vertices@.len(),
            vs == points_view(vertices@),
            uvs == uvs_view(tex_coords@),
            points_view(clipped_vertices@) == clip_upto(vs, near@, i as int),
            uvs_view(clipped_uvs@) == clip_uvs_upto(vs, uvs, near@, i as int),
            clipped_vertices@.len() == clipped_uvs@.len(),
        decreases n - i,
    {
        let j = if i + 1 == n {
            0
        } else {
            i + 1
        };
        let current = vertices[i];
        let next = vertices[j];
        let current_uv = tex_coord_at(tex_coords, i);
        let next_uv = tex_coord_at(tex_coords, j);
        let ghost before = points_view(clipped_vertices@);
        let ghost before_uvs = uvs_view(clipped_uvs@);

        let current_inside = near.le(current.z);
        let next_inside = near.le(next.z);

        if current_inside && next_inside {
            clipped_vertices.push(next);
            clipped_uvs.push(next_uv);
            assert(points_view(clipped_vertices@) =~= before + seq![next@]);
            assert(uvs_view(clipped_uvs@) =~= before_uvs + seq![(next_uv.0@, next_uv.1@)]);
        } else if current_inside || next_inside {
            let t = near.sub(current.z).div(next.z.sub(current.z));
            let intersection = Point {
                x: current.x.add(t.mul(next.x.sub(current.x))),
                y: current.y.add(t.mul(next.y.sub(current.y))),
                z: Fixed::from_raw(near.raw()),
            };
            let between = (
                current_uv.0.add(t.mul(next_uv.0.sub(current_uv.0))),
                current_uv.1.add(t.mul(next_uv.1.sub(current_uv.1))),
            );
            if current_inside {
                clipped_vertices.push(intersection);
                clipped_uvs.push(between);
                assert(points_view(clipped_vertices@) =~= before + seq![intersection@]);
                assert(uvs_view(clipped_uvs@) =~= before_uvs + seq![(between.0@, between.1@)]);
            } else {
                clipped_vertices.push(intersection);
                clipped_vertices.push(next);
                clipped_uvs.push(between);
                clipped_uvs.push(next_uv);
                assert(points_view(clipped_vertices@) =~= before + seq![intersection@, next@]);
                assert(uvs_view(clipped_uvs@) =~= before_uvs + seq![
                    (between.0@, between.1@),
                    (next_uv.0@, next_uv.1@),
                ]);
            }
        } else {
            assert(points_view(clipped_vertices@) =~= before + Seq::<Vec3>::empty());
            assert(uvs_view(clipped_uvs@) =~= before_uvs + Seq::<(int, int)>::empty());
        }
        i = i + 1;
    }
    proof {
        lemma_clip_in_front(vs, near@, n as int);
        assert forall|j: int| 0 <= j < clipped_vertices@.len() implies (
        #[trigger] clipped_vertices@[j])@.z >= near@ by {
            assert(points_view(clipped_vertices@)[j] == clipped_vertices@[j]@);
        }
    }
    (clipped_vertices, clipped_uvs)
}

/// Clips a polygon at the plane `z = near`: what is left lies in front of
/// the plane or on it.
pub fn clip_polygon_to_near_plane(vertices: &Vec<Point>, near: Fixed) -> (r: Vec<Point>)
    ensures
        points_view(r@) == clip(points_view(vertices@), near@),
        forall|j: int| 0 <= j < r@.len() ==> (#[trigger] r@[j])@.z >= near@,
{
    let mut clipped_vertices: Vec<Point> = Vec::new();
    let ghost vs = points_view(vertices@);
    let n = vertices.len();
    let mut i: usize = 0;
    while i < n
        invariant
            0 <= i <= n,
            n == vertices@.len(),
            vs == points_view(vertices@),
            points_view(clipped_vertices@) == clip_upto(vs, near@, i as int),
        decreases n - i,
    {
        let current = vertices[i];
        let next = vertices[if i + 1 == n {
            0
        } else {
            i + 1
        }];
        let ghost before = points_view(clipped_vertices@);

        let current_inside = near.le(current.z);
        let next_inside = near.le(next.z);

        if current_inside && next_inside {
            clipped_vertices.push(next);
            assert(points_view(clipped_vertices@) =~= before + seq![next@]);
        } else if current_inside || next_inside {
            let t = near.sub(current.z).div(next.z.sub(current.z));
            let intersection = Point {
                x: current.x.add(t.mul(next.x.sub(current.x))),
                y: current.y.add(t.mul(next.y.sub(current.y))),
                z: Fixed::from_raw(near.raw()),
            };
            if current_inside {
                clipped_vertices.push(intersection);
                assert(points_view(clipped_vertices@) =~= before + seq![intersection@]);
            } else {
                clipped_vertices.push(intersection);
                clipped_vertices.push(next);
                assert(points_view(clipped_vertices@) =~= before + seq![intersection@, next@]);
            }
        } else {
            assert(points_view(clipped_vertices@) =~= before + Seq::<Vec3>::empty());
        }
        i = i + 1;
    }
    proof {
        lemma_clip_in_front(vs, near@, n as int);
        assert forall|j: int| 0 <= j < clipped_vertices@.len() implies (
        #[trigger] clipped_vertices@[j])@.z >= near@ by {
            assert(points_view(clipped_vertices@)[j] == clipped_vertices@[j]@);
        }
    }
    clipped_vertices
}

/// Whether a face is culled for a camera at `camera_position`: it has
/// fewer than three corners, or it looks away from the camera. The sign
/// that decides is taken exactly, so a face is culled from one side of its
/// plane and from no place on the other; a face without area is not culled.
pub fn is_backface(polygon: &Polygon, camera_position: Point) -> (r: bool)
    ensures
        r == backface(points_view(polygon.vertices@), camera_position@),
{
    if polygon.vertices.len() < 3 {
        return true;
    }
    let v0 = polygon.vertices[0];
    let v1 = polygon.vertices[1];
    let v2 = polygon.vertices[2];
    let (ax, ay, az) = difference(&v1, &v0);
    let (bx, by, bz) = difference(&v2, &v0);
    let (dx, dy, dz) = difference(&camera_position, &v0);
    proof {
        lemma_product_bound(ay as int, bz as int, 0x1_0000_0000, 0x1_0000_0000);
        lemma_product_bound(az as int, by as int, 0x1_0000_0000, 0x1_0000_0000);
        lemma_product_bound(az as int, bx as int, 0x1_0000_0000, 0x1_0000_0000);
        lemma_product_bound(ax as int, bz as int, 0x1_0000_0000, 0x1_0000_0000);
        lemma_product_bound(ax as int, by as int, 0x1_0000_0000, 0x1_0000_0000);
        lemma_product_bound(ay as int, bx as int, 0x1_0000_0000, 0x1_0000_0000);
    }
    let nx = ay * bz - az * by;
    let ny = az * bx - ax * bz;
    let nz = ax * by - ay * bx;
    proof {
        lemma_product_bound(
            nx as int,
            dx as int,
            0x2_0000_0000_0000_0000int,
            0x1_0000_0000,
        );
        lemma_product_bound(
            ny as int,
            dy as int,
            0x2_0000_0000_0000_0000int,
            0x1_0000_0000,
        );
        lemma_product_bound(
            nz as int,
            dz as int,
            0x2_0000_0000_0000_0000int,
            0x1_0000_0000,
        );
    }
    nx * dx + ny * dy + nz * dz < 0
}

/// The exact differences of the coordinates of two points, in raw units.
fn difference(a: &Point, b: &Point) -> (d: (i128, i128, i128))
    ensures
        d.0 == a@.x - b@.x,
        d.1 == a@.y - b@.y,
        d.2 == a@.z - b@.z,
        -0x1_0000_0000 <= d.0 <= 0x1_0000_0000,
        -0x1_0000_0000 <= d.1 <= 0x1_0000_0000,
        -0x1_0000_0000 <= d.2 <= 0x1_0000_0000,
{
    (
        a.x.raw() as i128 - b.x.raw() as i128,
        a.y.raw() as i128 - b.y.raw() as i128,
        a.z.raw() as i128 - b.z.raw() as i128,
    )
}

} // verus!
