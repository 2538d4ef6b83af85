//! Ready-made geometry and models read from files: the test cube, and the
//! faces of a Wavefront OBJ file.

use crate::fixed::{fx_from_int, Fixed};
use crate::obj_text::{
    find, find_byte, find_line_end, find_word, find_word_end, index_at, line_end, number_at,
    read_index, read_number, skip_spaces, word_end,
};
use crate::point::{Point, Vec3};
use crate::polygon::{points_view, uvs_view, Polygon};
use vstd::prelude::*;

verus! {

/// The colour of a face that brings none of its own.
pub const DEFAULT_COLOR: u32 = 0xffff_ffff;

/// The point with the given whole coordinates.
pub open spec fn whole_point(x: int, y: int, z: int) -> Vec3 {
    Vec3 { x: fx_from_int(x), y: fx_from_int(y), z: fx_from_int(z) }
}

/// The corners of face `i` of the test cube, which spans `-1 ..= 1` in `x`
/// and `y` and `-4 ..= -2` in `z`.
pub open spec fn test_cube_face(i: int) -> Seq<Vec3> {
    if i == 0 {
        seq![
            whole_point(-1, -1, -2),
            whole_point(1, -1, -2),
            whole_point(1, 1, -2),
            whole_point(-1, 1, -2),
        ]
    } else if i == 1 {
        seq![
            whole_point(-1, -1, -4),
            whole_point(-1, 1, -4),
            whole_point(1, 1, -4),
            whole_point(1, -1, -4),
        ]
    } else if i == 2 {
        seq![
            whole_point(1, -1, -4),
            whole_point(1, 1, -4),
            whole_point(1, 1, -2),
            whole_point(1, -1, -2),
        ]
    } else if i == 3 {
        seq![
            whole_point(-1, -1, -4),
            whole_point(-1, -1, -2),
            whole_point(-1, 1, -2),
            whole_point(-1, 1, -4),
        ]
    } else if i == 4 {
        seq![
            whole_point(-1, 1, -4),
            whole_point(-1, 1, -2),
            whole_point(1, 1, -2),
            whole_point(1, 1, -4),
        ]
    } else {
        seq![
            whole_point(-1, -1, -4),
            whole_point(1, -1, -4),
            whole_point(1, -1, -2),
            whole_point(-1, -1, -2),
        ]
    }
}

/// The colour of face `i` of the test cube: front red, back green, right
/// blue, left yellow, top cyan, bottom magenta.
pub open spec fn test_cube_color(i: int) -> u32 {
    if i == 0 {
        0xff00_00ff
    } else if i == 1 {
        0x00ff_00ff
    } else if i == 2 {
        0x0000_ffff
    } else if i == 3 {
        0xffff_00ff
    } else if i == 4 {
        0x00ff_ffff
    } else {
        0xff00_ffff
    }
}

/// Whether `p` is face `i` of the test cube: four corners, a colour, no texture.
pub open spec fn is_test_cube_face(p: &Polygon, i: int) -> bool {
    &&& points_view(p.vertices@) == test_cube_face(i)
    &&& p.tex_coords@.len() == 0
    &&& p.texture.is_none()
    &&& p.color == test_cube_color(i)
}

/// A face of four corners with whole coordinates and one colour.
fn quad(color: u32, a: (i32, i32, i32), b: (i32, i32, i32), c: (i32, i32, i32), d: (i32, i32, i32)) -> (p:
    Polygon)
    ensures
        points_view(p.vertices@) == seq![
            whole_point(a.0 as int, a.1 as int, a.2 as int),
            whole_point(b.0 as int, b.1 as int, b.2 as int),
            whole_point(c.0 as int, c.1 as int, c.2 as int),
            whole_point(d.0 as int, d.1 as int, d.2 as int),
        ],
        p.tex_coords@.len() == 0,
        p.texture.is_none(),
        p.color == color,
{
    let mut p = Polygon::new(color);
    p.add_point(Point::new(Fixed::from_int(a.0), Fixed::from_int(a.1), Fixed::from_int(a.2)));
    p.add_point(Point::new(Fixed::from_int(b.0), Fixed::from_int(b.1), Fixed::from_int(b.2)));
    p.add_point(Point::new(Fixed::from_int(c.0), Fixed::from_int(c.1), Fixed::from_int(c.2)));
    p.add_point(Point::new(Fixed::from_int(d.0), Fixed::from_int(d.1), Fixed::from_int(d.2)));
    assert(points_view(p.vertices@) =~= seq![
        whole_point(a.0 as int, a.1 as int, a.2 as int),
        whole_point(b.0 as int, b.1 as int, b.2 as int),
        whole_point(c.0 as int, c.1 as int, c.2 as int),
        whole_point(d.0 as int, d.1 as int, d.2 as int),
    ]);
    p
}

/// The six faces of a cube to try the renderer on.
pub fn load_test_cube() -> (polygons: Vec<Polygon>)
    ensures
        polygons@.len() == 6,
        forall|i: int| 0 <= i < 6 ==> is_test_cube_face(&#[trigger] polygons@[i], i),
{
    let mut polygons: Vec<Polygon> = Vec::new();
    let front = quad(0xff00_00ff, (-1, -1, -2), (1, -1, -2), (1, 1, -2), (-1, 1, -2));
    let back = quad(0x00ff_00ff, (-1, -1, -4), (-1, 1, -4), (1, 1, -4), (1, -1, -4));
    let right = quad(0x0000_ffff, (1, -1, -4), (1, 1, -4), (1, 1, -2), (1, -1, -2));
    let left = quad(0xffff_00ff, (-1, -1, -4), (-1, -1, -2), (-1, 1, -2), (-1, 1, -4));
    let top = quad(0x00ff_ffff, (-1, 1, -4), (-1, 1, -2), (1, 1, -2), (1, 1, -4));
    let bottom = quad(0xff00_ffff, (-1, -1, -4), (1, -1, -4), (1, -1, -2), (-1, -1, -2));
    polygons.push(front);
    polygons.push(back);
    polygons.push(right);
    polygons.push(left);
    polygons.push(top);
    polygons.push(bottom);
    polygons
}

/// The place of a vertex read from a model file: as it stands where `z`
/// points up, and with `y` and `z` exchanged and the new `y` reversed
/// where `y` points up.
pub open spec fn oriented(x: int, y: int, z: int, z_up: bool) -> Vec3 {
    if z_up {
        Vec3 { x, y, z }
    } else {
        Vec3 { x, y: -z, z: y }
    }
}

/// The vertex of a model file in the frame of the scene.
pub fn orient_vertex(x: Fixed, y: Fixed, z: Fixed, z_up: bool) -> (p: Point)
    ensures
        p@ == oriented(x@, y@, z@, z_up),
{
    if z_up {
        Point::new(x, y, z)
    } else {
        Point::new(x, z.neg(), y)
    }
}

/// Whether the 1-based index `index` names an entry of a list of `len` entries.
pub open spec fn names_entry(index: usize, len: int) -> bool {
    0 < index <= len
}

/// The corners that the first `k` references of a face give: each
/// reference that names a vertex gives that vertex.
pub open spec fn face_vertices<T>(vertices: Seq<T>, refs: Seq<(usize, Option<usize>)>, k: int) -> Seq<
    T,
>
    decreases k,
{
    if k <= 0 {
        Seq::empty()
    } else {
        let before = face_vertices(vertices, refs, k - 1);
        let r = refs[k - 1];
        if names_entry(r.0, vertices.len() as int) {
            before.push(vertices[r.0 - 1])
        } else {
            before
        }
    }
}

/// The texture coordinates that the first `k` references of a face give:
/// each reference that names a vertex and a texture coordinate gives that
/// coordinate.
pub open spec fn face_tex_coords<T>(
    vertex_count: int,
    tex_coords: Seq<T>,
    refs: Seq<(usize, Option<usize>)>,
    k: int,
) -> Seq<T>
    decreases k,
{
    if k <= 0 {
        Seq::empty()
    } else {
        let before = face_tex_coords(vertex_count, tex_coords, refs, k - 1);
        let r = refs[k - 1];
        match r.1 {
            Some(t) => if names_entry(r.0, vertex_count) && names_entry(t, tex_coords.len() as int) {
                before.push(tex_coords[t - 1])
            } else {
                before
            },
            None => before,
        }
    }
}

/// A list with its second and third entries exchanged, where it has both.
pub open spec fn second_and_third_swapped<T>(s: Seq<T>) -> Seq<T> {
    if s.len() >= 3 {
        s.update(1, s[2]).update(2, s[1])
    } else {
        s
    }
}

/// Makes the face that a line of corner references describes. Each
/// reference holds the 1-based index of a vertex and, where it has one, of
/// a texture coordinate; references that name nothing are passed over. A
/// face needs three corners. Its second and third texture coordinates
/// change places.
pub fn face_polygon(
    vertices: &Vec<Point>,
    tex_coords: &Vec<(Fixed, Fixed)>,
    refs: &Vec<(usize, Option<usize>)>,
) -> (r: Option<Polygon>)
    ensures
        r.is_some() == (face_vertices(vertices@, refs@, refs@.len() as int).len() >= 3),
        match r {
            Some(p) => {
                &&& p.vertices@ == face_vertices(vertices@, refs@, refs@.len() as int)
                &&& p.tex_coords@ == second_and_third_swapped(
                    face_tex_coords(
                        vertices@.len() as int,
                        tex_coords@,
                        refs@,
                        refs@.len() as int,
                    ),
                )
                &&& p.texture.is_none()
                &&& p.color == DEFAULT_COLOR
            },
            None => true,
        },
{
    let mut face_points: Vec<Point> = Vec::new();
    let mut face_coords: Vec<(Fixed, Fixed)> = Vec::new();
    let n = refs.len();
    let mut k: usize = 0;
    while k < n
        invariant
            0 <= k <= n,
            n == refs@.len(),
            face_points@ == face_vertices(vertices@, refs@, k as int),
            face_coords@ == face_tex_coords(vertices@.len() as int, tex_coords@, refs@, k as int),
        decreases n - k,
    {
        let (v_idx, vt) = refs[k];
        if v_idx > 0 && v_idx <= vertices.len() {
            face_points.push(vertices[v_idx - 1]);
            match vt {
                Some(vt_idx) => {
                    if vt_idx > 0 && vt_idx <= tex_coords.len() {
                        face_coords.push(tex_coords[vt_idx - 1]);
                    }
                },
                None => {},
            }
        }
        k = k + 1;
    }
    if face_points.len() < 3 {
        return None;
    }
    if face_coords.len() >= 3 {
        let second = face_coords[1];
        let third = face_coords[2];
        face_coords[1] = third;
        face_coords[2] = second;
    }
    Some(Polygon { vertices: face_points, tex_coords: face_coords, texture: None, color: DEFAULT_COLOR })
}

/// Mathematical model of a face read from a file.
pub ghost struct FaceModel {
    pub vertices: Seq<Vec3>,
    pub tex_coords: Seq<(int, int)>,
}

/// What has been read of a file: the vertices and texture coordinates that
/// faces may name, and the faces so far.
pub ghost struct ObjModel {
    pub vertices: Seq<Vec3>,
    pub tex_coords: Seq<(int, int)>,
    pub faces: Seq<FaceModel>,
}

/// The faces as read, each by its corners and texture coordinates.
pub open spec fn faces_view(polygons: Seq<Polygon>) -> Seq<FaceModel> {
    Seq::new(
        polygons.len(),
        |i: int|
            FaceModel {
                vertices: points_view(polygons[i].vertices@),
                tex_coords: uvs_view(polygons[i].tex_coords@),
            },
    )
}

/// The corner reference that the word from `a` to `b` spells, `v`, `v/vt`
/// or `v/vt/vn`: the index of a vertex and, where something stands behind
/// the first stroke, the index of a texture coordinate.
pub open spec fn corner_ref(s: Seq<u8>, a: int, b: int) -> (usize, Option<usize>) {
    let first = find_byte(s, a, b, 47);
    let vertex = index_at(s, a, first) as usize;
    if first < b {
        let second = find_byte(s, first + 1, b, 47);
        if first + 1 < second {
            (vertex, Some(index_at(s, first + 1, second) as usize))
        } else {
            (vertex, None)
        }
    } else {
        (vertex, None)
    }
}

/// The corner references that the words from `i` to the end of the line spell.
pub open spec fn face_refs(s: Seq<u8>, i: int, end: int) -> Seq<(usize, Option<usize>)>
    decreases end - i,
{
    let a = skip_spaces(s, i, end);
    let b = word_end(s, a, end);
    if a >= end || b <= i || b > end {
        Seq::empty()
    } else {
        seq![corner_ref(s, a, b)] + face_refs(s, b, end)
    }
}

/// The face that corner references describe, where they name three
/// vertices or more.
pub open spec fn face_of(m: ObjModel, refs: Seq<(usize, Option<usize>)>) -> Option<FaceModel> {
    let corners = face_vertices(m.vertices, refs, refs.len() as int);
    if corners.len() >= 3 {
        Some(
            FaceModel {
                vertices: corners,
                tex_coords: second_and_third_swapped(
                    face_tex_coords(
                        m.vertices.len() as int,
                        m.tex_coords,
                        refs,
                        refs.len() as int,
                    ),
                ),
            },
        )
    } else {
        None
    }
}

/// The number that the next word at or after `i` spells, and where that
/// word ends. Where the line has no more words the number is zero.
pub open spec fn number_after(s: Seq<u8>, i: int, end: int) -> (int, int) {
    let a = skip_spaces(s, i, end);
    let b = word_end(s, a, end);
    (number_at(s, a, b), b)
}

/// What is read after the line from `start` to `end`: a line `v` adds a
/// vertex, a line `vt` a texture coordinate, a line `f` a face if it has
/// three corners; empty lines, comments and all other lines add nothing.
pub open spec fn after_line(m: ObjModel, s: Seq<u8>, start: int, end: int, z_up: bool) -> ObjModel {
    let a = skip_spaces(s, start, end);
    let b = word_end(s, a, end);
    if a >= end || s[a] == 35 {
        m
    } else if b - a == 1 && s[a] == 118 {
        let x = number_after(s, b, end);
        let y = number_after(s, x.1, end);
        let z = number_after(s, y.1, end);
        ObjModel { vertices: m.vertices.push(oriented(x.0, y.0, z.0, z_up)), ..m }
    } else if b - a == 2 && s[a] == 118 && s[a + 1] == 116 {
        let u = number_after(s, b, end);
        let v = number_after(s, u.1, end);
        ObjModel { tex_coords: m.tex_coords.push((u.0, v.0)), ..m }
    } else if b - a == 1 && s[a] == 102 {
        match face_of(m, face_refs(s, b, end)) {
            Some(face) => ObjModel { faces: m.faces.push(face), ..m },
            None => m,
        }
    } else {
        m
    }
}

/// What is read after all lines from the one that begins at `i`.
pub open spec fn after_lines(m: ObjModel, s: Seq<u8>, i: int, z_up: bool) -> ObjModel
    decreases s.len() + 1 - i,
{
    let end = line_end(s, i);
    if i >= s.len() || end < i || end > s.len() {
        m
    } else {
        after_lines(after_line(m, s, i, end, z_up), s, end + 1, z_up)
    }
}

/// What is read of a whole file.
pub open spec fn obj_model(s: Seq<u8>, z_up: bool) -> ObjModel {
    after_lines(
        ObjModel { vertices: Seq::empty(), tex_coords: Seq::empty(), faces: Seq::empty() },
        s,
        0,
        z_up,
    )
}

/// Why a file gave no scene.
#[derive(Clone, Copy, Debug, PartialEq, Eq)]
pub enum ObjError {
    /// The file holds no face of three corners or more.
    NoPolygons,
}

/// Taking the corners of a face commutes with taking raw values.
proof fn lemma_face_vertices_view(vertices: Seq<Point>, refs: Seq<(usize, Option<usize>)>, k: int)
    requires
        0 <= k <= refs.len(),
    ensures
        points_view(face_vertices(vertices, refs, k)) == face_vertices(
            points_view(vertices),
            refs,
            k,
        ),
    decreases k,
{
    if k > 0 {
        lemma_face_vertices_view(vertices, refs, k - 1);
    }
    assert(points_view(face_vertices(vertices, refs, k)) =~= face_vertices(
        points_view(vertices),
        refs,
        k,
    ));
}

/// Taking the texture coordinates of a face commutes with taking raw values.
proof fn lemma_face_tex_coords_view(
    vertex_count: int,
    tex_coords: Seq<(Fixed, Fixed)>,
    refs: Seq<(usize, Option<usize>)>,
    k: int,
)
    requires
        0 <= k <= refs.len(),
    ensures
        uvs_view(face_tex_coords(vertex_count, tex_coords, refs, k)) == face_tex_coords(
            vertex_count,
            uvs_view(tex_coords),
            refs,
            k,
        ),
    decreases k,
{
    if k > 0 {
        lemma_face_tex_coords_view(vertex_count, tex_coords, refs, k - 1);
    }
    assert(uvs_view(face_tex_coords(vertex_count, tex_coords, refs, k)) =~= face_tex_coords(
        vertex_count,
        uvs_view(tex_coords),
        refs,
        k,
    ));
}

/// The corner reference that a word spells.
fn read_corner_ref(s: &[u8], a: usize, b: usize) -> (r: (usize, Option<usize>))
    requires
        a <= b <= s@.len(),
    ensures
        r == corner_ref(s@, a as int, b as int),
{
    let first = find(s, a, b, 47);
    let vertex = read_index(s, a, first);
    if first < b {
        let second = find(s, first + 1, b, 47);
        if first + 1 < second {
            (vertex, Some(read_index(s, first + 1, second)))
        } else {
            (vertex, None)
        }
    } else {
        (vertex, None)
    }
}

/// The corner references that the rest of a line spells.
fn read_face_refs(s: &[u8], i: usize, end: usize) -> (refs: Vec<(usize, Option<usize>)>)
    requires
        i <= end <= s@.len(),
    ensures
        refs@ == face_refs(s@, i as int, end as int),
{
    let mut refs: Vec<(usize, Option<usize>)> = Vec::new();
    let mut j = i;
    loop
        invariant
            i <= j <= end <= s@.len(),
            refs@ + face_refs(s@, j as int, end as int) == face_refs(s@, i as int, end as int),
        ensures
            refs@ == face_refs(s@, i as int, end as int),
        decreases end - j,
    {
        let a = find_word(s, j, end);
        let b = find_word_end(s, a, end);
        if a >= end || b <= j {
            assert(refs@ + Seq::<(usize, Option<usize>)>::empty() =~= refs@);
            break ;
        }
        let ghost before = refs@;
        refs.push(read_corner_ref(s, a, b));
        proof {
            let r = corner_ref(s@, a as int, b as int);
            assert(before.push(r) + face_refs(s@, b as int, end as int) =~= before + (seq![r]
                + face_refs(s@, b as int, end as int)));
        }
        j = b;
    }
    refs
}

/// The number that the next word spells, and where that word ends.
fn read_number_after(s: &[u8], i: usize, end: usize) -> (r: (Fixed, usize))
    requires
        i <= end <= s@.len(),
    ensures
        (r.0@, r.1 as int) == number_after(s@, i as int, end as int),
        i <= r.1 <= end,
{
    let a = find_word(s, i, end);
    let b = find_word_end(s, a, end);
    (read_number(s, a, b), b)
}

/// Reads the faces of a Wavefront OBJ file from its bytes.
///
/// The vertices stand as the file has them where `z_up` holds, and are
/// turned so that `y` points up where it does not. Every face has the
/// colour [`DEFAULT_COLOR`] and no texture. A file without a face of three
/// corners or more is refused.
pub fn load_obj(content: &[u8], z_up: bool) -> (r: Result<Vec<Polygon>, ObjError>)
    ensures
        match r {
            Ok(polygons) => {
                &&& faces_view(polygons@) == obj_model(content@, z_up).faces
                &&& polygons@.len() > 0
                &&& forall|k: int|
                    0 <= k < polygons@.len() ==> (#[trigger] polygons@[k]).color == DEFAULT_COLOR
                        && polygons@[k].texture.is_none()
            },
            Err(e) => e == ObjError::NoPolygons && obj_model(content@, z_up).faces.len() == 0,
        },
{
    let mut vertices: Vec<Point> = Vec::new();
    let mut tex_coords: Vec<(Fixed, Fixed)> = Vec::new();
    let mut polygons: Vec<Polygon> = Vec::new();
    let n = content.len();
    let mut i: usize = 0;
    proof {
        assert(points_view(vertices@) =~= Seq::<Vec3>::empty());
        assert(uvs_view(tex_coords@) =~= Seq::<(int, int)>::empty());
        assert(faces_view(polygons@) =~= Seq::<FaceModel>::empty());
    }
    while i < n
        invariant
            0 <= i <= n,
            n == content@.len(),
            after_lines(
                ObjModel {
                    vertices: points_view(vertices@),
                    tex_coords: uvs_view(tex_coords@),
                    faces: faces_view(polygons@),
                },
                content@,
                i as int,
                z_up,
            ) == obj_model(content@, z_up),
            forall|k: int|
                0 <= k < polygons@.len() ==> (#[trigger] polygons@[k]).color == DEFAULT_COLOR
                    && polygons@[k].texture.is_none(),
        decreases n - i,
    {
        let end = find_line_end(content, i);
        let ghost m = ObjModel {
            vertices: points_view(vertices@),
            tex_coords: uvs_view(tex_coords@),
            faces: faces_view(polygons@),
        };
        let a = find_word(content, i, end);
        let b = find_word_end(content, a, end);
        if a >= end || content[a] == 35 {
        } else if b - a == 1 && content[a] == 118 {
            let (x, after_x) = read_number_after(content, b, end);
            let (y, after_y) = read_number_after(content, after_x, end);
            let (z, _) = read_number_after(content, after_y, end);
            let vertex = orient_vertex(x, y, z, z_up);
            vertices.push(vertex);
            assert(points_view(vertices@) =~= m.vertices.push(vertex@));
        } else if b - a == 2 && content[a] == 118 && content[a + 1] == 116 {
            let (u, after_u) = read_number_after(content, b, end);
            let (v, _) = read_number_after(content, after_u, end);
            tex_coords.push((u, v));
            assert(uvs_view(tex_coords@) =~= m.tex_coords.push((u@, v@)));
        } else if b - a == 1 && content[a] == 102 {
            let refs = read_face_refs(content, b, end);
            proof {
                lemma_face_vertices_view(vertices@, refs@, refs@.len() as int);
                lemma_face_tex_coords_view(
                    vertices@.len() as int,
                    tex_coords@,
                    refs@,
                    refs@.len() as int,
                );
            }
            match face_polygon(&vertices, &tex_coords, &refs) {
                Some(polygon) => {
                    proof {
                        let raw = face_tex_coords(
                            vertices@.len() as int,
                            tex_coords@,
                            refs@,
                            refs@.len() as int,
                        );
                        assert(uvs_view(second_and_third_swapped(raw))
                            =~= second_and_third_swapped(uvs_view(raw)));
                    }
                    let ghost face = FaceModel {
                        vertices: points_view(polygon.vertices@),
                        tex_coords: uvs_view(polygon.tex_coords@),
                    };
                    polygons.push(polygon);
                    assert(faces_view(polygons@) =~= m.faces.push(face));
                },
                None => {},
            }
        }
        proof {
            let now = ObjModel {
                vertices: points_view(vertices@),
                tex_coords: uvs_view(tex_coords@),
                faces: faces_view(polygons@),
            };
            assert(now == after_line(m, content@, i as int, end as int, z_up));
            if end == n {
                assert(after_lines(now, content@, end + 1, z_up) == now);
            }
        }
        i = if end == n {
            n
        } else {
            end + 1
        };
    }
    if polygons.len() == 0 {
        Err(ObjError::NoPolygons)
    } else {
        Ok(polygons)
    }
}

} // verus!
