//! Triangulation of screen polygons by ear clipping.
//!
//! All tests of orientation are exact: they are signs of integer
//! determinants of the raw coordinates, so a corner that lies exactly on an
//! edge counts as lying on it, without tolerance.

use crate::fixed::{lemma_product_bound, Fixed};
use crate::point::{Point2D, Vec3};
use crate::polygon::{points2d_view, uvs_view, Polygon2D};
use vstd::prelude::*;

verus! {

/// The most corners a polygon may have to be triangulated.
pub const MAX_VERTICES: u64 = 0xffff_ffff;

/// Mathematical model of a [`Vertex2D`].
pub ghost struct Corner {
    pub pos: Vec3,
    pub uv: (int, int),
}

/// Mathematical model of a [`Triangle`].
pub ghost struct Tri {
    pub a: Corner,
    pub b: Corner,
    pub c: Corner,
}

/// Twice the signed area of the triangle `a`, `b`, `c`: positive where the
/// three turn to the left in a frame whose `y` grows upwards.
pub open spec fn orient(a: Vec3, b: Vec3, c: Vec3) -> int {
    (b.x - a.x) * (c.y - a.y) - (b.y - a.y) * (c.x - a.x)
}

/// Whether three points turn to the left.
pub open spec fn turns_left(a: Vec3, b: Vec3, c: Vec3) -> bool {
    orient(a, b, c) > 0
}

/// Whether `p` lies in the triangle `a`, `b`, `c` or on the line through one of its edges.
pub open spec fn lies_in_triangle(p: Vec3, a: Vec3, b: Vec3, c: Vec3) -> bool {
    let d1 = orient(p, a, b);
    let d2 = orient(p, b, c);
    let d3 = orient(p, c, a);
    let has_neg = d1 < 0 || d2 < 0 || d3 < 0;
    let has_pos = d1 > 0 || d2 > 0 || d3 > 0;
    !(has_neg && has_pos) || d1 == 0 || d2 == 0 || d3 == 0
}

/// The corner before `i` in a polygon of `n` corners.
pub open spec fn prev_index(n: int, i: int) -> int {
    if i == 0 {
        n - 1
    } else {
        i - 1
    }
}

/// The corner after `i` in a polygon of `n` corners.
pub open spec fn next_index(n: int, i: int) -> int {
    if i + 1 == n {
        0
    } else {
        i + 1
    }
}

/// The term of the edge that leaves corner `i` in the winding sum.
pub open spec fn shoelace_term(s: Seq<Corner>, i: int) -> int {
    let cur = s[i].pos;
    let next = s[next_index(s.len() as int, i)].pos;
    (next.x - cur.x) * (next.y + cur.y)
}

/// The winding sum over the edges that leave the first `k` corners.
pub open spec fn shoelace_upto(s: Seq<Corner>, k: int) -> int
    decreases k,
{
    if k <= 0 {
        0
    } else {
        shoelace_upto(s, k - 1) + shoelace_term(s, k - 1)
    }
}

/// The winding sum over all edges: minus twice the signed area, so it is
/// positive where the corners run to the right.
pub open spec fn shoelace(s: Seq<Corner>) -> int {
    shoelace_upto(s, s.len() as int)
}

/// The corners in the opposite sense of rotation, beginning with the same
/// corner: the first, then the last, and so on back to the second.
pub open spec fn reversed(s: Seq<Corner>) -> Seq<Corner> {
    Seq::new(
        s.len(),
        |i: int|
            if i == 0 {
                s[0]
            } else {
                s[s.len() - i]
            },
    )
}

/// The corners in the order in which the winding sum is not positive.
pub open spec fn put_in_order(s: Seq<Corner>) -> Seq<Corner> {
    if shoelace(s) > 0 {
        reversed(s)
    } else {
        s
    }
}

/// The triangle of corner `i` and its two neighbours.
pub open spec fn ear_triangle(s: Seq<Corner>, i: int) -> Tri {
    Tri { a: s[prev_index(s.len() as int, i)], b: s[i], c: s[next_index(s.len() as int, i)] }
}

/// Whether corner `k` is none of the corners of `t` and lies in `t`.
pub open spec fn blocks(s: Seq<Corner>, k: int, t: Tri) -> bool {
    &&& s[k].pos != t.a.pos
    &&& s[k].pos != t.b.pos
    &&& s[k].pos != t.c.pos
    &&& lies_in_triangle(s[k].pos, t.a.pos, t.b.pos, t.c.pos)
}

/// Whether `t` turns to the left and no corner of `s` blocks it.
pub open spec fn ear_test(s: Seq<Corner>, t: Tri) -> bool {
    &&& turns_left(t.a.pos, t.b.pos, t.c.pos)
    &&& forall|k: int| 0 <= k < s.len() ==> !#[trigger] blocks(s, k, t)
}

/// Whether corner `i` is an ear.
pub open spec fn ear_at(s: Seq<Corner>, i: int) -> bool {
    ear_test(s, ear_triangle(s, i))
}

/// The corner that the scan for an ear looks at in its step `k`: the scan
/// begins with the second corner and ends with the first.
pub open spec fn scan_corner(n: int, k: int) -> int {
    next_index(n, k)
}

/// The first step at or after step `k` in which the scan finds an ear; the
/// number of corners if it finds none.
pub open spec fn first_ear_from(s: Seq<Corner>, k: int) -> int
    decreases s.len() - k,
{
    if k >= s.len() {
        s.len() as int
    } else if ear_at(s, scan_corner(s.len() as int, k)) {
        k
    } else {
        first_ear_from(s, k + 1)
    }
}

/// Ear clipping: cut off the first ear that the scan finds until a
/// triangle is left. `None` where more than three corners are left and
/// none of them is an ear.
pub open spec fn ear_clip(s: Seq<Corner>) -> Option<Seq<Tri>>
    decreases s.len(),
{
    if s.len() < 3 {
        Some(Seq::empty())
    } else if s.len() == 3 {
        Some(seq![Tri { a: s[0], b: s[1], c: s[2] }])
    } else {
        let k = first_ear_from(s, 0);
        if k < 0 || k >= s.len() {
            None
        } else {
            let i = scan_corner(s.len() as int, k);
            match ear_clip(s.remove(i)) {
                Some(rest) => Some(seq![ear_triangle(s, i)] + rest),
                None => None,
            }
        }
    }
}

/// The two triangles into which a polygon of four corners is split.
pub open spec fn quad_split(s: Seq<Corner>) -> Seq<Tri> {
    seq![Tri { a: s[0], b: s[1], c: s[2] }, Tri { a: s[2], b: s[3], c: s[0] }]
}

/// The triangles of a polygon: a polygon of four corners is split along
/// the diagonal from its first to its third corner, any other is put in
/// order and ear-clipped.
pub open spec fn triangulate(s: Seq<Corner>) -> Option<Seq<Tri>> {
    if s.len() == 4 {
        Some(quad_split(s))
    } else {
        ear_clip(put_in_order(s))
    }
}

/// The corners of a polygon, each with its texture coordinate.
pub open spec fn polygon_corners(vertices: Seq<Vec3>, uvs: Seq<(int, int)>) -> Seq<Corner> {
    Seq::new(vertices.len(), |i: int| Corner { pos: vertices[i], uv: uvs[i] })
}

/// What triangulation makes of a polygon with the given corners and
/// texture coordinates: its triangles, or the reason why it has none.
pub open spec fn triangulation_of(vertices: Seq<Vec3>, uvs: Seq<(int, int)>) -> Result<
    Seq<Tri>,
    TriangulationError,
> {
    if vertices.len() != uvs.len() {
        Err(TriangulationError::MismatchedCoordinates)
    } else if vertices.len() > MAX_VERTICES {
        Err(TriangulationError::TooManyVertices)
    } else {
        match triangulate(polygon_corners(vertices, uvs)) {
            Some(t) => Ok(t),
            None => Err(TriangulationError::NoEar),
        }
    }
}

/// `p` followed by the triangles of `o`, where there are any.
pub open spec fn prepend(p: Seq<Tri>, o: Option<Seq<Tri>>) -> Option<Seq<Tri>> {
    match o {
        Some(r) => Some(p + r),
        None => None,
    }
}

/// Ear clipping, where it succeeds, cuts a polygon of `n >= 3` corners
/// into `n - 2` triangles.
pub proof fn lemma_ear_clip_count(s: Seq<Corner>)
    requires
        s.len() >= 3,
        ear_clip(s).is_some(),
    ensures
        ear_clip(s).unwrap().len() == s.len() - 2,
    decreases s.len(),
{
    if s.len() > 3 {
        let i = scan_corner(s.len() as int, first_ear_from(s, 0));
        lemma_ear_clip_count(s.remove(i));
    }
}

/// Triangulation, where it succeeds, cuts a polygon of `n >= 3` corners
/// into `n - 2` triangles.
pub proof fn lemma_triangulate_count(s: Seq<Corner>)
    requires
        s.len() >= 3,
        triangulate(s).is_some(),
    ensures
        triangulate(s).unwrap().len() == s.len() - 2,
{
    if s.len() != 4 {
        lemma_ear_clip_count(put_in_order(s));
    }
}

/// The first step with an ear is a step from `k` on, or the number of
/// corners, and the corner of that step is an ear.
pub proof fn lemma_first_ear_in_range(s: Seq<Corner>, k: int)
    requires
        0 <= k <= s.len(),
    ensures
        k <= first_ear_from(s, k) <= s.len(),
        first_ear_from(s, k) < s.len() ==> ear_at(
            s,
            scan_corner(s.len() as int, first_ear_from(s, k)),
        ),
    decreases s.len() - k,
{
    if k < s.len() && !ear_at(s, scan_corner(s.len() as int, k)) {
        lemma_first_ear_in_range(s, k + 1);
    }
}

/// Whether the three corners of a triangle are corners of `s`.
pub open spec fn made_of(t: Tri, s: Seq<Corner>) -> bool {
    s.contains(t.a) && s.contains(t.b) && s.contains(t.c)
}

/// Ear clipping makes its triangles of the corners of the polygon.
pub proof fn lemma_ear_clip_corners(s: Seq<Corner>)
    requires
        ear_clip(s).is_some(),
    ensures
        forall|k: int|
            0 <= k < ear_clip(s).unwrap().len() ==> made_of(#[trigger] ear_clip(s).unwrap()[k], s),
    decreases s.len(),
{
    let ts = ear_clip(s).unwrap();
    if s.len() == 3 {
        assert(s.contains(s[0]) && s.contains(s[1]) && s.contains(s[2]));
    } else if s.len() > 3 {
        lemma_first_ear_in_range(s, 0);
        let i = scan_corner(s.len() as int, first_ear_from(s, 0));
        let rest = s.remove(i);
        lemma_ear_clip_corners(rest);
        let tail = ear_clip(rest).unwrap();
        let ear = ear_triangle(s, i);
        assert(s.contains(s[prev_index(s.len() as int, i)]));
        assert(s.contains(s[i]));
        assert(s.contains(s[next_index(s.len() as int, i)]));
        assert forall|c: Corner| rest.contains(c) implies s.contains(c) by {
            let j = choose|j: int| 0 <= j < rest.len() && rest[j] == c;
            if j < i {
                assert(s[j] == c);
            } else {
                assert(s[j + 1] == c);
            }
        }
        assert forall|k: int| 0 <= k < ts.len() implies made_of(#[trigger] ts[k], s) by {
            if k > 0 {
                assert(ts[k] == tail[k - 1]);
                assert(made_of(tail[k - 1], rest));
            }
        }
    }
}

/// Triangulation makes its triangles of the corners of the polygon.
pub proof fn lemma_triangulate_corners(s: Seq<Corner>)
    requires
        triangulate(s).is_some(),
    ensures
        forall|k: int|
            0 <= k < triangulate(s).unwrap().len() ==> made_of(
                #[trigger] triangulate(s).unwrap()[k],
                s,
            ),
{
    let ts = triangulate(s).unwrap();
    if s.len() == 4 {
        assert(s.contains(s[0]) && s.contains(s[1]) && s.contains(s[2]) && s.contains(s[3]));
    } else {
        let o = put_in_order(s);
        lemma_ear_clip_corners(o);
        assert forall|c: Corner| o.contains(c) implies s.contains(c) by {
            let j = choose|j: int| 0 <= j < o.len() && o[j] == c;
            if shoelace(s) > 0 && j > 0 {
                assert(s[s.len() - j] == c);
            } else {
                assert(s[j] == c);
            }
        }
        assert forall|k: int| 0 <= k < ts.len() implies made_of(#[trigger] ts[k], s) by {
            assert(made_of(ts[k], o));
        }
    }
}

/// A product of a difference with a sum or a difference, written out.
proof fn lemma_expand(p: int, q: int, r: int, s: int)
    by (nonlinear_arith)
    ensures
        (p - q) * (r + s) == p * r + p * s - q * r - q * s,
        (p - q) * (r - s) == p * r - p * s - q * r + q * s,
{
}

/// The orientation of three points, written out.
proof fn lemma_orient_expanded(a: Vec3, b: Vec3, c: Vec3)
    ensures
        orient(a, b, c) == b.x * c.y - b.x * a.y - a.x * c.y - b.y * c.x + b.y * a.x + a.y * c.x,
{
    lemma_expand(b.x, a.x, c.y, a.y);
    lemma_expand(b.y, a.y, c.x, a.x);
    assert(a.x * a.y == a.y * a.x) by (nonlinear_arith);
}

/// The orientation of three points stays under a cyclic shift and changes
/// its sign where two of them change places.
pub proof fn lemma_orient_symmetry(a: Vec3, b: Vec3, c: Vec3)
    ensures
        orient(b, c, a) == orient(a, b, c),
        orient(c, a, b) == orient(a, b, c),
        orient(b, a, c) == -orient(a, b, c),
        orient(a, c, b) == -orient(a, b, c),
        orient(c, b, a) == -orient(a, b, c),
{
    lemma_orient_expanded(a, b, c);
    lemma_orient_expanded(b, c, a);
    lemma_orient_expanded(c, a, b);
    lemma_orient_expanded(b, a, c);
    lemma_orient_expanded(a, c, b);
    lemma_orient_expanded(c, b, a);
    assert(a.x * b.y == b.y * a.x) by (nonlinear_arith);
    assert(a.x * c.y == c.y * a.x) by (nonlinear_arith);
    assert(b.x * a.y == a.y * b.x) by (nonlinear_arith);
    assert(b.x * c.y == c.y * b.x) by (nonlinear_arith);
    assert(c.x * a.y == a.y * c.x) by (nonlinear_arith);
    assert(c.x * b.y == b.y * c.x) by (nonlinear_arith);
}

/// The winding sum of four corners is minus twice the signed area.
pub proof fn lemma_shoelace_quad(s: Seq<Corner>)
    requires
        s.len() == 4,
    ensures
        shoelace(s) == -(orient(s[0].pos, s[1].pos, s[2].pos) + orient(
            s[0].pos,
            s[2].pos,
            s[3].pos,
        )),
{
    let a = s[0].pos;
    let b = s[1].pos;
    let c = s[2].pos;
    let d = s[3].pos;
    reveal_with_fuel(shoelace_upto, 5);
    assert(shoelace(s) == (b.x - a.x) * (b.y + a.y) + (c.x - b.x) * (c.y + b.y) + (d.x - c.x) * (d.y
        + c.y) + (a.x - d.x) * (a.y + d.y));
    lemma_expand(b.x, a.x, b.y, a.y);
    lemma_expand(c.x, b.x, c.y, b.y);
    lemma_expand(d.x, c.x, d.y, c.y);
    lemma_expand(a.x, d.x, a.y, d.y);
    lemma_orient_expanded(a, b, c);
    lemma_orient_expanded(a, c, d);
    assert(a.x * b.y == b.y * a.x) by (nonlinear_arith);
    assert(a.x * c.y == c.y * a.x) by (nonlinear_arith);
    assert(a.x * d.y == d.y * a.x) by (nonlinear_arith);
    assert(b.x * a.y == a.y * b.x) by (nonlinear_arith);
    assert(b.x * c.y == c.y * b.x) by (nonlinear_arith);
    assert(c.x * a.y == a.y * c.x) by (nonlinear_arith);
    assert(c.x * b.y == b.y * c.x) by (nonlinear_arith);
    assert(c.x * d.y == d.y * c.x) by (nonlinear_arith);
    assert(d.x * a.y == a.y * d.x) by (nonlinear_arith);
    assert(d.x * c.y == c.y * d.x) by (nonlinear_arith);
}

/// Whether a polygon of four corners is convex: its four corners all turn
/// to the left, or all to the right.
pub open spec fn convex_quad(s: Seq<Corner>) -> bool {
    &&& s.len() == 4
    &&& {
        ||| {
            &&& orient(s[0].pos, s[1].pos, s[2].pos) > 0
            &&& orient(s[1].pos, s[2].pos, s[3].pos) > 0
            &&& orient(s[2].pos, s[3].pos, s[0].pos) > 0
            &&& orient(s[3].pos, s[0].pos, s[1].pos) > 0
        }
        ||| {
            &&& orient(s[0].pos, s[1].pos, s[2].pos) < 0
            &&& orient(s[1].pos, s[2].pos, s[3].pos) < 0
            &&& orient(s[2].pos, s[3].pos, s[0].pos) < 0
            &&& orient(s[3].pos, s[0].pos, s[1].pos) < 0
        }
    }
}

/// Whether two triangles have the same three corners, in whatever order.
pub open spec fn same_corners(t: Tri, u: Tri) -> bool {
    ||| (t.a == u.a && t.b == u.b && t.c == u.c)
    ||| (t.a == u.b && t.b == u.c && t.c == u.a)
    ||| (t.a == u.c && t.b == u.a && t.c == u.b)
    ||| (t.a == u.a && t.b == u.c && t.c == u.b)
    ||| (t.a == u.b && t.b == u.a && t.c == u.c)
    ||| (t.a == u.c && t.b == u.b && t.c == u.a)
}

/// Whether two pairs of triangles are the same two triangles.
pub open spec fn same_two_triangles(e: Seq<Tri>, q: Seq<Tri>) -> bool {
    &&& e.len() == 2
    &&& q.len() == 2
    &&& {
        ||| (same_corners(e[0], q[0]) && same_corners(e[1], q[1]))
        ||| (same_corners(e[0], q[1]) && same_corners(e[1], q[0]))
    }
}

/// On a convex polygon of four corners, whichever way it winds, ear
/// clipping cuts the same two triangles as the shortcut for four corners:
/// both cut along the diagonal from the first to the third corner.
pub proof fn lemma_quad_shortcut_agrees(s: Seq<Corner>)
    requires
        convex_quad(s),
    ensures
        ear_clip(put_in_order(s)).is_some(),
        same_two_triangles(ear_clip(put_in_order(s)).unwrap(), quad_split(s)),
        triangulate(s) == Some(quad_split(s)),
{
    let a = s[0].pos;
    let b = s[1].pos;
    let c = s[2].pos;
    let d = s[3].pos;
    lemma_shoelace_quad(s);
    lemma_orient_symmetry(a, b, c);
    lemma_orient_symmetry(b, c, d);
    lemma_orient_symmetry(c, d, a);
    lemma_orient_symmetry(d, a, b);
    lemma_orient_symmetry(a, c, d);
    if orient(a, b, c) > 0 {
        assert(put_in_order(s) == s);
        let t = ear_triangle(s, 1);
        assert(t == Tri { a: s[0], b: s[1], c: s[2] });
        assert forall|k: int| 0 <= k < s.len() implies !#[trigger] blocks(s, k, t) by {
            if k == 3 {
                lemma_orient_symmetry(d, a, b);
                lemma_orient_symmetry(d, b, c);
                lemma_orient_symmetry(d, c, a);
                assert(orient(d, a, b) > 0);
                assert(orient(d, c, a) < 0);
            }
        }
        assert(ear_at(s, 1));
        assert(first_ear_from(s, 0) == 0);
        let rest = s.remove(1);
        assert(rest.len() == 3);
        assert(rest[0] == s[0] && rest[1] == s[2] && rest[2] == s[3]);
        let last = Tri { a: s[0], b: s[2], c: s[3] };
        assert(ear_clip(rest) == Some(seq![last]));
        assert(seq![t] + seq![last] =~= seq![t, last]);
        assert(ear_clip(s) == Some(seq![t, last]));
        assert(same_corners(t, quad_split(s)[0]));
        assert(same_corners(last, quad_split(s)[1]));
    } else {
        let r = reversed(s);
        assert(shoelace(s) > 0);
        assert(put_in_order(s) == r);
        assert(r.len() == 4);
        assert(r[0] == s[0] && r[1] == s[3] && r[2] == s[2] && r[3] == s[1]);
        let t = ear_triangle(r, 1);
        assert(t == Tri { a: s[0], b: s[3], c: s[2] });
        lemma_orient_symmetry(a, d, c);
        assert(orient(a, d, c) > 0);
        assert forall|k: int| 0 <= k < r.len() implies !#[trigger] blocks(r, k, t) by {
            if k == 3 {
                lemma_orient_symmetry(b, a, d);
                lemma_orient_symmetry(b, d, c);
                lemma_orient_symmetry(b, c, a);
                assert(orient(b, a, d) > 0);
                assert(orient(b, c, a) < 0);
            }
        }
        assert(ear_at(r, 1));
        assert(first_ear_from(r, 0) == 0);
        let rest = r.remove(1);
        assert(rest.len() == 3);
        assert(rest[0] == s[0] && rest[1] == s[2] && rest[2] == s[1]);
        let last = Tri { a: s[0], b: s[2], c: s[1] };
        assert(ear_clip(rest) == Some(seq![last]));
        assert(seq![t] + seq![last] =~= seq![t, last]);
        assert(ear_clip(r) == Some(seq![t, last]));
        assert(same_corners(t, quad_split(s)[1]));
        assert(same_corners(last, quad_split(s)[0]));
    }
}

/// A corner of a screen polygon with its texture coordinate.
#[derive(Clone, Copy, Debug)]
pub struct Vertex2D {
    pub pos: Point2D,
    pub uv: (Fixed, Fixed),
}

impl View for Vertex2D {
    type V = Corner;

    open spec fn view(&self) -> Corner {
        Corner { pos: self.pos@, uv: (self.uv.0@, self.uv.1@) }
    }
}

/// A triangle on the screen.
#[derive(Clone, Copy, Debug)]
pub struct Triangle {
    pub a: Vertex2D,
    pub b: Vertex2D,
    pub c: Vertex2D,
}

impl View for Triangle {
    type V = Tri;

    open spec fn view(&self) -> Tri {
        Tri { a: self.a@, b: self.b@, c: self.c@ }
    }
}

/// The models of a sequence of corners.
pub open spec fn corners_view(s: Seq<Vertex2D>) -> Seq<Corner> {
    Seq::new(s.len(), |i: int| s[i]@)
}

/// The models of a sequence of triangles.
pub open spec fn tris_view(s: Seq<Triangle>) -> Seq<Tri> {
    Seq::new(s.len(), |i: int| s[i]@)
}

/// Why a polygon was not triangulated.
#[derive(Clone, Copy, Debug, PartialEq, Eq)]
pub enum TriangulationError {
    /// The polygon does not have one texture coordinate for each corner.
    MismatchedCoordinates,
    /// The polygon has more than [`MAX_VERTICES`] corners.
    TooManyVertices,
    /// More than three corners were left and none of them was an ear: the
    /// polygon is degenerate or crosses itself.
    NoEar,
}

fn orient_raw(a: &Point2D, b: &Point2D, c: &Point2D) -> (r: i128)
    ensures
        r == orient(a@, b@, c@),
{
    let ax = a.x.raw() as i128;
    let ay = a.y.raw() as i128;
    let dx1 = b.x.raw() as i128 - ax;
    let dy1 = c.y.raw() as i128 - ay;
    let dy2 = b.y.raw() as i128 - ay;
    let dx2 = c.x.raw() as i128 - ax;
    proof {
        lemma_product_bound(dx1 as int, dy1 as int, 0x1_0000_0000, 0x1_0000_0000);
        lemma_product_bound(dy2 as int, dx2 as int, 0x1_0000_0000, 0x1_0000_0000);
    }
    dx1 * dy1 - dy2 * dx2
}

/// Whether three points turn to the left.
pub fn is_ccw(a: &Point2D, b: &Point2D, c: &Point2D) -> (r: bool)
    ensures
        r == turns_left(a@, b@, c@),
{
    orient_raw(a, b, c) > 0
}

/// Whether `p` lies in the triangle `a`, `b`, `c` or on the line through
/// one of its edges.
pub fn is_point_in_triangle(p: &Point2D, a: &Point2D, b: &Point2D, c: &Point2D) -> (r: bool)
    ensures
        r == lies_in_triangle(p@, a@, b@, c@),
{
    let d1 = orient_raw(p, a, b);
    let d2 = orient_raw(p, b, c);
    let d3 = orient_raw(p, c, a);

    let has_neg = (d1 < 0) || (d2 < 0) || (d3 < 0);
    let has_pos = (d1 > 0) || (d2 > 0) || (d3 > 0);

    !(has_neg && has_pos) || d1 == 0 || d2 == 0 || d3 == 0
}

/// Whether the winding sum is not positive, so that the corners need no reversal.
pub fn is_polygon_ccw(vertices: &Vec<Vertex2D>) -> (r: bool)
    requires
        vertices.len() <= MAX_VERTICES,
    ensures
        r == (shoelace(corners_view(vertices@)) <= 0),
{
    let n = vertices.len();
    let ghost s = corners_view(vertices@);
    let mut sum: i128 = 0;
    let mut i: usize = 0;
    while i < n
        invariant
            0 <= i <= n,
            n == vertices.len(),
            n <= MAX_VERTICES,
            s == corners_view(vertices@),
            sum == shoelace_upto(s, i as int),
            -(i * 0x1_0000_0000_0000_0000) <= sum <= i * 0x1_0000_0000_0000_0000,
        decreases n - i,
    {
        let current = vertices[i].pos;
        let j = if i + 1 == n {
            0
        } else {
            i + 1
        };
        let next = vertices[j].pos;
        let dx = next.x.raw() as i128 - current.x.raw() as i128;
        let sy = next.y.raw() as i128 + current.y.raw() as i128;
        proof {
            lemma_product_bound(dx as int, sy as int, 0x1_0000_0000, 0x1_0000_0000);
            assert(dx * sy == shoelace_term(s, i as int));
        }
        sum = sum + dx * sy;
        i = i + 1;
    }
    sum <= 0
}

/// The corners in the order in which the winding sum is not positive:
/// where it is positive they are taken the other way round from the first
/// corner, each with its texture coordinate.
pub fn ensure_ccw(vertices: Vec<Vertex2D>) -> (r: Vec<Vertex2D>)
    requires
        vertices.len() <= MAX_VERTICES,
    ensures
        corners_view(r@) == put_in_order(corners_view(vertices@)),
        r.len() == vertices.len(),
{
    if is_polygon_ccw(&vertices) {
        return vertices;
    }
    let n = vertices.len();
    if n == 0 {
        assert(corners_view(vertices@) =~= reversed(corners_view(vertices@)));
        return vertices;
    }
    let mut out: Vec<Vertex2D> = Vec::new();
    out.push(vertices[0]);
    let mut i: usize = n;
    while i > 1
        invariant
            1 <= i <= n,
            n == vertices.len(),
            out.len() == n - i + 1,
            out@[0] == vertices@[0],
            forall|k: int| 1 <= k < out.len() ==> out@[k] == vertices@[n - k],
        decreases i,
    {
        i = i - 1;
        out.push(vertices[i]);
    }
    assert(corners_view(out@) =~= reversed(corners_view(vertices@)));
    out
}

/// Whether the corner `curr` between `prev` and `next` is an ear of `vertices`.
pub fn is_ear(prev: &Vertex2D, curr: &Vertex2D, next: &Vertex2D, vertices: &Vec<Vertex2D>) -> (r:
    bool)
    ensures
        r == ear_test(corners_view(vertices@), Tri { a: prev@, b: curr@, c: next@ }),
{
    if !is_ccw(&prev.pos, &curr.pos, &next.pos) {
        return false;
    }
    let ghost s = corners_view(vertices@);
    let ghost t = Tri { a: prev@, b: curr@, c: next@ };
    let n = vertices.len();
    let mut k: usize = 0;
    while k < n
        invariant
            0 <= k <= n,
            n == vertices.len(),
            s == corners_view(vertices@),
            t == (Tri { a: prev@, b: curr@, c: next@ }),
            forall|j: int| 0 <= j < k ==> !#[trigger] blocks(s, j, t),
        decreases n - k,
    {
        let v = vertices[k].pos;
        if v != prev.pos && v != curr.pos && v != next.pos && is_point_in_triangle(
            &v,
            &prev.pos,
            &curr.pos,
            &next.pos,
        ) {
            assert(blocks(s, k as int, t));
            return false;
        }
        k = k + 1;
    }
    true
}

/// The corners of `polygon`, each with its texture coordinate.
fn zip_corners(polygon: &Polygon2D) -> (r: Vec<Vertex2D>)
    requires
        polygon.vertices.len() == polygon.uv_coords.len(),
    ensures
        corners_view(r@) == polygon_corners(
            points2d_view(polygon.vertices@),
            uvs_view(polygon.uv_coords@),
        ),
        r.len() == polygon.vertices.len(),
{
    let n = polygon.vertices.len();
    let mut out: Vec<Vertex2D> = Vec::new();
    let mut i: usize = 0;
    while i < n
        invariant
            0 <= i <= n,
            n == polygon.vertices.len(),
            n == polygon.uv_coords.len(),
            out.len() == i,
            forall|k: int|
                0 <= k < i ==> out@[k] == (Vertex2D {
                    pos: polygon.vertices@[k],
                    uv: polygon.uv_coords@[k],
                }),
        decreases n - i,
    {
        out.push(Vertex2D { pos: polygon.vertices[i], uv: polygon.uv_coords[i] });
        i = i + 1;
    }
    assert(corners_view(out@) =~= polygon_corners(
        points2d_view(polygon.vertices@),
        uvs_view(polygon.uv_coords@),
    ));
    out
}

/// Ear clipping of corners that are already in order: `None` where more
/// than three corners are left and none of them is an ear.
pub fn clip_ears(vertices: Vec<Vertex2D>) -> (r: Option<Vec<Triangle>>)
    ensures
        match r {
            Some(t) => ear_clip(corners_view(vertices@)) == Some(tris_view(t@)),
            None => ear_clip(corners_view(vertices@)).is_none(),
        },
{
    let ghost start = corners_view(vertices@);
    let mut work = vertices;
    let mut triangles: Vec<Triangle> = Vec::new();
    proof {
        if let Some(all) = ear_clip(start) {
            assert(tris_view(triangles@) + all =~= all);
        }
    }
    while work.len() > 3
        invariant
            start == corners_view(vertices@),
            prepend(tris_view(triangles@), ear_clip(corners_view(work@))) == ear_clip(start),
        decreases work.len(),
    {
        let n = work.len();
        let ghost s = corners_view(work@);
        let mut k: usize = 0;
        let mut i: usize = 1;
        let mut found = false;
        while k < n && !found
            invariant
                0 <= k <= n,
                n == work.len(),
                n > 3,
                s == corners_view(work@),
                k < n ==> i == scan_corner(n as int, k as int),
                i < n,
                first_ear_from(s, 0) == first_ear_from(s, k as int),
                found ==> k < n && ear_at(s, i as int),
            decreases n - k + (if found { 0int } else { 1int }),
        {
            let p = if i == 0 {
                n - 1
            } else {
                i - 1
            };
            let q = if i + 1 == n {
                0
            } else {
                i + 1
            };
            let prev = work[p];
            let curr = work[i];
            let next = work[q];
            assert(ear_triangle(s, i as int) == (Tri { a: prev@, b: curr@, c: next@ }));
            if is_ear(&prev, &curr, &next, &work) {
                found = true;
            } else {
                k = k + 1;
                i = if k >= n - 1 {
                    0
                } else {
                    k + 1
                };
            }
        }
        if !found {
            proof {
                assert(first_ear_from(s, n as int) == n);
                assert(ear_clip(s).is_none());
            }
            return None;
        }
        proof {
            assert(first_ear_from(s, k as int) == k);
        }
        let p = if i == 0 {
            n - 1
        } else {
            i - 1
        };
        let q = if i + 1 == n {
            0
        } else {
            i + 1
        };
        let ear = Triangle { a: work[p], b: work[i], c: work[q] };
        let ghost before = tris_view(triangles@);
        triangles.push(ear);
        work.remove(i);
        proof {
            assert(corners_view(work@) =~= s.remove(i as int));
            assert(tris_view(triangles@) =~= before.push(ear@));
            match ear_clip(s.remove(i as int)) {
                Some(rest) => {
                    assert(before.push(ear@) + rest =~= before + (seq![ear@] + rest));
                },
                None => {},
            }
        }
    }
    if work.len() == 3 {
        let last = Triangle { a: work[0], b: work[1], c: work[2] };
        let ghost before = tris_view(triangles@);
        triangles.push(last);
        proof {
            assert(tris_view(triangles@) =~= before + seq![last@]);
        }
    } else {
        proof {
            assert(tris_view(triangles@) =~= tris_view(triangles@) + Seq::<Tri>::empty());
        }
    }
    Some(triangles)
}

/// Splits a screen polygon into triangles.
///
/// A polygon of fewer than three corners has no triangles. The polygon is
/// refused where its two lists differ in length, where it has too many
/// corners, and where ear clipping finds no ear.
pub fn triangulate_ear_clipping(polygon: &Polygon2D) -> (r: Result<
    Vec<Triangle>,
    TriangulationError,
>)
    ensures
        match r {
            Ok(t) => triangulation_of(
                points2d_view(polygon.vertices@),
                uvs_view(polygon.uv_coords@),
            ) == Ok::<Seq<Tri>, TriangulationError>(tris_view(t@)),
            Err(e) => triangulation_of(
                points2d_view(polygon.vertices@),
                uvs_view(polygon.uv_coords@),
            ) == Err::<Seq<Tri>, TriangulationError>(e),
        },
{
    if polygon.vertices.len() != polygon.uv_coords.len() {
        return Err(TriangulationError::MismatchedCoordinates);
    }
    if polygon.vertices.len() as u64 > MAX_VERTICES {
        return Err(TriangulationError::TooManyVertices);
    }
    let corners = zip_corners(polygon);
    if corners.len() == 4 {
        let mut triangles: Vec<Triangle> = Vec::new();
        triangles.push(Triangle { a: corners[0], b: corners[1], c: corners[2] });
        triangles.push(Triangle { a: corners[2], b: corners[3], c: corners[0] });
        assert(tris_view(triangles@) =~= quad_split(corners_view(corners@)));
        return Ok(triangles);
    }
    let ordered = ensure_ccw(corners);
    match clip_ears(ordered) {
        Some(triangles) => Ok(triangles),
        None => Err(TriangulationError::NoEar),
    }
}

} // verus!
