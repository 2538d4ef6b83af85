use rake::fixed::Fixed;
use rake::point::Point2D;
use rake::polygon::Polygon2D;
use rake::triangulate::{
    clip_ears, ensure_ccw, is_ccw, is_ear, is_point_in_triangle, is_polygon_ccw,
    triangulate_ear_clipping, Triangle, TriangulationError, Vertex2D, MAX_VERTICES,
};

fn at(x: i32, y: i32) -> Point2D {
    Point2D::new(Fixed::from_int(x), Fixed::from_int(y), Fixed::zero())
}

fn polygon(points: &[(i32, i32)]) -> Polygon2D {
    Polygon2D {
        vertices: points.iter().map(|&(x, y)| at(x, y)).collect(),
        uv_coords: points
            .iter()
            .enumerate()
            .map(|(i, _)| (Fixed::from_int(i as i32), Fixed::from_int(10 * i as i32)))
            .collect(),
    }
}

fn corners(points: &[(i32, i32)]) -> Vec<Vertex2D> {
    points
        .iter()
        .enumerate()
        .map(|(i, &(x, y))| Vertex2D {
            pos: at(x, y),
            uv: (Fixed::from_int(i as i32), Fixed::from_int(10 * i as i32)),
        })
        .collect()
}

/// Each corner as (x, y, index in the polygon it came from).
fn shape(t: &Triangle) -> [(i32, i32, i32); 3] {
    let c = |v: &Vertex2D| (v.pos.x.round(), v.pos.y.round(), v.uv.0.round());
    [c(&t.a), c(&t.b), c(&t.c)]
}

fn shapes(ts: &Vec<Triangle>) -> Vec<[(i32, i32, i32); 3]> {
    ts.iter().map(shape).collect()
}

const SQUARE: [(i32, i32); 4] = [(0, 0), (4, 0), (4, 4), (0, 4)];
const PENTAGON: [(i32, i32); 5] = [(0, 0), (4, 0), (6, 3), (3, 6), (-1, 3)];

#[test]
fn orientation_of_three_points() {
    assert!(is_ccw(&at(0, 0), &at(1, 0), &at(0, 1)));
    assert!(!is_ccw(&at(0, 0), &at(0, 1), &at(1, 0)));
    assert!(!is_ccw(&at(0, 0), &at(1, 1), &at(2, 2)));
}

#[test]
fn orientation_is_exact_for_the_largest_coordinates() {
    let far = 32767;
    assert!(is_ccw(&at(-far, -far), &at(far, -far), &at(far, far)));
    assert!(!is_ccw(&at(-far, -far), &at(far, far), &at(far, -far)));
    let a = Point2D::new(Fixed::from_raw(0), Fixed::from_raw(0), Fixed::zero());
    let b = Point2D::new(Fixed::from_raw(2147418112), Fixed::from_raw(2147418111), Fixed::zero());
    let c = Point2D::new(Fixed::from_raw(2147418111), Fixed::from_raw(2147418110), Fixed::zero());
    // b and c differ by one raw unit each: the determinant is -1
    assert!(!is_ccw(&a, &b, &c));
    assert!(is_ccw(&a, &c, &b));
}

#[test]
fn points_in_and_on_a_triangle() {
    let (a, b, c) = (at(0, 0), at(4, 0), at(0, 4));
    assert!(is_point_in_triangle(&at(1, 1), &a, &b, &c));
    assert!(is_point_in_triangle(&at(2, 2), &a, &b, &c));
    assert!(is_point_in_triangle(&at(0, 0), &a, &b, &c));
    assert!(!is_point_in_triangle(&at(3, 3), &a, &b, &c));
    assert!(!is_point_in_triangle(&at(-1, 1), &a, &b, &c));
    // on the line through an edge, outside the triangle
    assert!(is_point_in_triangle(&at(6, 0), &a, &b, &c));
}

#[test]
fn winding_of_a_polygon() {
    assert!(is_polygon_ccw(&corners(&SQUARE)));
    let mut clockwise = SQUARE;
    clockwise.reverse();
    assert!(!is_polygon_ccw(&corners(&clockwise)));
    assert!(is_polygon_ccw(&corners(&[(0, 0), (1, 1), (2, 2)])));
    assert!(is_polygon_ccw(&Vec::new()));
}

#[test]
fn clockwise_corners_are_reversed() {
    let mut clockwise = PENTAGON;
    clockwise.reverse();
    let ordered = ensure_ccw(corners(&clockwise));
    let back: Vec<(i32, i32)> = ordered.iter().map(|v| (v.pos.x.round(), v.pos.y.round())).collect();
    // the other way round, beginning with the same corner
    assert_eq!(back, vec![(-1, 3), (0, 0), (4, 0), (6, 3), (3, 6)]);
    // each corner keeps its texture coordinate
    assert_eq!(ordered[0].uv.0.round(), 0);
    assert_eq!(ordered[1].uv.0.round(), 4);
    assert_eq!(ordered[4].uv.0.round(), 1);

    let kept = ensure_ccw(corners(&PENTAGON));
    let same: Vec<(i32, i32)> = kept.iter().map(|v| (v.pos.x.round(), v.pos.y.round())).collect();
    assert_eq!(same, PENTAGON.to_vec());
}

#[test]
fn ears_of_an_l_shape() {
    let l = corners(&[(0, 0), (4, 0), (4, 2), (2, 2), (2, 4), (0, 4)]);
    // the corner (0, 0) is no ear: (2, 2) lies on the far edge of its triangle
    assert!(!is_ear(&l[5], &l[0], &l[1], &l));
    assert!(is_ear(&l[0], &l[1], &l[2], &l));
    assert!(is_ear(&l[4], &l[5], &l[0], &l));
    // the inner corner turns to the right
    assert!(!is_ear(&l[2], &l[3], &l[4], &l));
}

#[test]
fn triangle_is_its_own_triangulation() {
    let ts = triangulate_ear_clipping(&polygon(&[(0, 0), (4, 0), (0, 4)])).unwrap();
    assert_eq!(shapes(&ts), vec![[(0, 0, 0), (4, 0, 1), (0, 4, 2)]]);
}

#[test]
fn clockwise_triangle_is_reversed() {
    let ts = triangulate_ear_clipping(&polygon(&[(0, 0), (0, 4), (4, 0)])).unwrap();
    assert_eq!(shapes(&ts), vec![[(0, 0, 0), (4, 0, 2), (0, 4, 1)]]);
}

#[test]
fn fewer_than_three_corners_give_no_triangles() {
    assert_eq!(triangulate_ear_clipping(&polygon(&[])).unwrap().len(), 0);
    assert_eq!(triangulate_ear_clipping(&polygon(&[(0, 0)])).unwrap().len(), 0);
    assert_eq!(triangulate_ear_clipping(&polygon(&[(0, 0), (1, 1)])).unwrap().len(), 0);
}

#[test]
fn quad_is_split_along_its_first_diagonal() {
    let ts = triangulate_ear_clipping(&polygon(&SQUARE)).unwrap();
    assert_eq!(
        shapes(&ts),
        vec![
            [(0, 0, 0), (4, 0, 1), (4, 4, 2)],
            [(4, 4, 2), (0, 4, 3), (0, 0, 0)]
        ]
    );
}

/// The triangles as a set of sets of corners.
fn as_sets(ts: &Vec<Triangle>) -> Vec<Vec<(i32, i32, i32)>> {
    let mut all: Vec<Vec<(i32, i32, i32)>> = ts
        .iter()
        .map(|t| {
            let mut corners = shape(t).to_vec();
            corners.sort();
            corners
        })
        .collect();
    all.sort();
    all
}

#[test]
fn quad_shortcut_and_ear_clipping_cut_the_same_two_triangles() {
    let mut clockwise = SQUARE;
    clockwise.reverse();
    let slanted = [(0, 0), (5, 1), (7, 6), (-2, 3)];
    for quad in [SQUARE, clockwise, slanted] {
        let shortcut = triangulate_ear_clipping(&polygon(&quad)).unwrap();
        let clipped = clip_ears(ensure_ccw(corners(&quad))).unwrap();
        assert_eq!(shortcut.len(), 2);
        assert_eq!(clipped.len(), 2);
        assert_eq!(as_sets(&shortcut), as_sets(&clipped));
    }
    let clipped = clip_ears(ensure_ccw(corners(&SQUARE))).unwrap();
    assert_eq!(
        shapes(&clipped),
        vec![
            [(0, 0, 0), (4, 0, 1), (4, 4, 2)],
            [(0, 0, 0), (4, 4, 2), (0, 4, 3)]
        ]
    );
}

#[test]
fn convex_pentagon_gives_three_triangles() {
    let ts = triangulate_ear_clipping(&polygon(&PENTAGON)).unwrap();
    assert_eq!(
        shapes(&ts),
        vec![
            [(0, 0, 0), (4, 0, 1), (6, 3, 2)],
            [(0, 0, 0), (6, 3, 2), (3, 6, 3)],
            [(0, 0, 0), (3, 6, 3), (-1, 3, 4)]
        ]
    );
}

#[test]
fn either_winding_is_cut_into_a_fan() {
    let mut clockwise = PENTAGON;
    clockwise.reverse();
    let a = triangulate_ear_clipping(&polygon(&PENTAGON)).unwrap();
    let b = triangulate_ear_clipping(&polygon(&clockwise)).unwrap();
    // the clockwise polygon begins with the corner (-1, 3): from there it
    // is cut like the other from its first corner, into a fan
    let positions = |ts: &Vec<Triangle>| -> Vec<[(i32, i32); 3]> {
        ts.iter().map(|t| shape(t).map(|c| (c.0, c.1))).collect()
    };
    assert_eq!(
        positions(&a),
        vec![
            [(0, 0), (4, 0), (6, 3)],
            [(0, 0), (6, 3), (3, 6)],
            [(0, 0), (3, 6), (-1, 3)]
        ]
    );
    assert_eq!(
        positions(&b),
        vec![
            [(-1, 3), (0, 0), (4, 0)],
            [(-1, 3), (4, 0), (6, 3)],
            [(-1, 3), (6, 3), (3, 6)]
        ]
    );
}

#[test]
fn concave_polygon_is_cut_into_its_ears() {
    let ts = triangulate_ear_clipping(&polygon(&[(0, 0), (4, 0), (4, 2), (2, 2), (2, 4), (0, 4)]))
        .unwrap();
    assert_eq!(
        shapes(&ts),
        vec![
            [(0, 0, 0), (4, 0, 1), (4, 2, 2)],
            [(0, 0, 0), (4, 2, 2), (2, 2, 3)],
            [(0, 0, 0), (2, 2, 3), (2, 4, 4)],
            [(0, 0, 0), (2, 4, 4), (0, 4, 5)]
        ]
    );
}

#[test]
fn polygon_without_area_has_no_ear() {
    let line = polygon(&[(0, 0), (1, 1), (2, 2), (3, 3), (4, 4)]);
    assert_eq!(triangulate_ear_clipping(&line).err(), Some(TriangulationError::NoEar));
    assert!(clip_ears(corners(&[(0, 0), (1, 1), (2, 2), (3, 3), (4, 4)])).is_none());
}

#[test]
fn degenerate_polygon_has_no_ear() {
    let p = polygon(&[(3, 3), (5, 3), (6, 1), (0, 3), (0, 6)]);
    assert_eq!(triangulate_ear_clipping(&p).err(), Some(TriangulationError::NoEar));
}

#[test]
fn polygon_needs_a_texture_coordinate_for_each_corner() {
    let mut p = polygon(&PENTAGON);
    p.uv_coords.pop();
    assert_eq!(
        triangulate_ear_clipping(&p).err(),
        Some(TriangulationError::MismatchedCoordinates)
    );
    let mut q = polygon(&SQUARE);
    q.uv_coords.push((Fixed::zero(), Fixed::zero()));
    assert_eq!(
        triangulate_ear_clipping(&q).err(),
        Some(TriangulationError::MismatchedCoordinates)
    );
}

#[test]
fn limit_on_the_number_of_corners() {
    assert_eq!(MAX_VERTICES, 0xffff_ffff);
}
