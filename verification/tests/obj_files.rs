use rake::fixed::Fixed;
use rake::obj_text::{
    find, find_line_end, find_word, find_word_end, read_index, read_number, FRACTION_DIGITS,
};
use rake::object::{load_obj, ObjError, DEFAULT_COLOR};
use rake::polygon::Polygon;

fn number(text: &str) -> i32 {
    read_number(text.as_bytes(), 0, text.len()).raw()
}

fn index(text: &str) -> usize {
    read_index(text.as_bytes(), 0, text.len())
}

fn fx(x: f64) -> i32 {
    (x * 65536.0).round() as i32
}

fn corners(p: &Polygon) -> Vec<(i32, i32, i32)> {
    p.vertices.iter().map(|v| (v.x.raw(), v.y.raw(), v.z.raw())).collect()
}

fn coords(p: &Polygon) -> Vec<(i32, i32)> {
    p.tex_coords.iter().map(|c| (c.0.raw(), c.1.raw())).collect()
}

#[test]
fn numbers_are_read_with_sign_and_fraction() {
    assert_eq!(number("0"), 0);
    assert_eq!(number("1"), 65536);
    assert_eq!(number("-1"), -65536);
    assert_eq!(number("+1"), 65536);
    assert_eq!(number("1.5"), fx(1.5));
    assert_eq!(number("-2.25"), fx(-2.25));
    assert_eq!(number(".5"), fx(0.5));
    assert_eq!(number("5."), fx(5.0));
    assert_eq!(number("0.1"), 6554);
    assert_eq!(number("0.000000"), 0);
    assert_eq!(number("-0.353553"), fx(-0.353553));
    assert_eq!(number("123.456"), fx(123.456));
    assert_eq!(number("007"), 7 * 65536);
}

#[test]
fn numbers_round_to_the_nearest_raw_value() {
    // a third of a raw unit and two thirds of one
    assert_eq!(number("0.000005086"), 0);
    assert_eq!(number("0.000010173"), 1);
    // exactly half a raw unit
    assert_eq!(number("0.00000762939453125"), 0);
    assert_eq!(number("0.000007629"), 0);
    assert_eq!(number("0.000007630"), 1);
}

#[test]
fn digits_behind_the_ninth_do_not_count() {
    assert_eq!(FRACTION_DIGITS, 9);
    assert_eq!(number("0.3333333339999"), number("0.333333333"));
    assert_eq!(number("0.123456789123456789"), fx(0.123456789));
}

#[test]
fn large_numbers_saturate() {
    assert_eq!(number("32767"), 32767 * 65536);
    assert_eq!(number("32767.9"), 32767 * 65536);
    assert_eq!(number("40000"), 32767 * 65536);
    assert_eq!(number("-40000"), -32767 * 65536);
    assert_eq!(number("99999999999999999999999999999999999999"), 32767 * 65536);
}

#[test]
fn what_is_no_number_counts_as_zero() {
    assert_eq!(number(""), 0);
    assert_eq!(number("-"), 0);
    assert_eq!(number("."), 0);
    assert_eq!(number("-."), 0);
    assert_eq!(number("abc"), 0);
    assert_eq!(number("1.5x"), 0);
    assert_eq!(number("1.5.2"), 0);
    assert_eq!(number("--1"), 0);
    assert_eq!(number("1,5"), 0);
    assert_eq!(number("e5"), 0);
    assert_eq!(number("1e"), 0);
    assert_eq!(number("1e+"), 0);
    assert_eq!(number("1e5x"), 0);
    assert_eq!(number("1e5.0"), 0);
    assert_eq!(number("1e 5"), 0);
    assert_eq!(number("inf"), 0);
}

#[test]
fn numbers_may_have_an_exponent() {
    assert_eq!(number("1e0"), 65536);
    assert_eq!(number("1e2"), 100 * 65536);
    assert_eq!(number("1E2"), 100 * 65536);
    assert_eq!(number("1.5e+01"), 15 * 65536);
    assert_eq!(number("-1.5e1"), -15 * 65536);
    assert_eq!(number("25e-1"), fx(2.5));
    assert_eq!(number("2.5e-1"), fx(0.25));
    assert_eq!(number("1.5e-0"), fx(1.5));
    assert_eq!(number("-1.192093e-07"), 0);
    assert_eq!(number("7.62939453125e-06"), 0);
    assert_eq!(number("7.63e-06"), 1);
    assert_eq!(number("123456e-3"), fx(123.456));
    assert_eq!(number("100000000000000e-12"), 100 * 65536);
    assert_eq!(number("0.000000001e9"), 65536);
    assert_eq!(number("0e99"), 0);
    assert_eq!(number("0.0e-99"), 0);
}

#[test]
fn exponents_saturate() {
    assert_eq!(number("1e5"), 32767 * 65536);
    assert_eq!(number("-1e5"), -32767 * 65536);
    assert_eq!(number("1e99"), 32767 * 65536);
    assert_eq!(number("1e9999999999999999999999"), 32767 * 65536);
    assert_eq!(number("0.000000001e11"), 100 * 65536);
    assert_eq!(number("1e-99"), 0);
    assert_eq!(number("99999999999999999999e-99"), 0);
    assert_eq!(number("1e-9999999999999999999999"), 0);
}

#[test]
fn indices_are_digits_only() {
    assert_eq!(index("1"), 1);
    assert_eq!(index("42"), 42);
    assert_eq!(index("007"), 7);
    assert_eq!(index(""), 0);
    assert_eq!(index("0"), 0);
    assert_eq!(index("-1"), 0);
    assert_eq!(index("+1"), 0);
    assert_eq!(index("1a"), 0);
    assert_eq!(index("1.0"), 0);
    assert_eq!(index("99999999999999999999999999"), usize::MAX);
}

#[test]
fn numbers_are_read_from_the_middle_of_a_text() {
    let text = b"v 1.5 -2 x";
    assert_eq!(read_number(text, 2, 5).raw(), fx(1.5));
    assert_eq!(read_number(text, 6, 8).raw(), fx(-2.0));
    assert_eq!(read_number(text, 9, 10).raw(), 0);
    assert_eq!(read_index(text, 7, 8), 2);
}

#[test]
fn lines_and_words_are_found() {
    let text = b"ab  cd\n\tef \r\ngh";
    assert_eq!(find_line_end(text, 0), 6);
    assert_eq!(find_line_end(text, 7), 12);
    assert_eq!(find_line_end(text, 13), 15);
    assert_eq!(find_line_end(text, 15), 15);
    assert_eq!(find_word(text, 0, 6), 0);
    assert_eq!(find_word_end(text, 0, 6), 2);
    assert_eq!(find_word(text, 2, 6), 4);
    assert_eq!(find_word_end(text, 4, 6), 6);
    assert_eq!(find_word(text, 7, 12), 8);
    assert_eq!(find_word_end(text, 8, 12), 10);
    assert_eq!(find_word(text, 10, 12), 12);
    assert_eq!(find(text, 0, 15, b'c'), 4);
    assert_eq!(find(text, 0, 15, b'z'), 15);
    assert_eq!(find(text, 5, 15, b'c'), 15);
}

const SQUARE: &str = "# a square with a texture
v 0 0 0
v 1 0 0
v 1 1 0
v 0 1 0
vt 0 0
vt 1 0
vt 1 1
vt 0 1
vn 0 0 1

f 1/1/1 2/2/1 3/3/1 4/4/1
";

#[test]
fn faces_are_read_with_their_texture_coordinates() {
    let polygons = load_obj(SQUARE.as_bytes(), true).unwrap();
    assert_eq!(polygons.len(), 1);
    let face = &polygons[0];
    assert_eq!(
        corners(face),
        vec![(0, 0, 0), (65536, 0, 0), (65536, 65536, 0), (0, 65536, 0)]
    );
    // the second and the third coordinate change places
    assert_eq!(coords(face), vec![(0, 0), (65536, 65536), (65536, 0), (0, 65536)]);
    assert_eq!(face.color, DEFAULT_COLOR);
    assert!(face.texture.is_none());
}

#[test]
fn vertices_are_turned_unless_z_points_up() {
    let text = b"v 1 2 3\nv 4 5 6\nv 7 8 9\nf 1 2 3\n";
    let as_written = load_obj(text, true).unwrap();
    assert_eq!(
        corners(&as_written[0]),
        vec![(fx(1.0), fx(2.0), fx(3.0)), (fx(4.0), fx(5.0), fx(6.0)), (fx(7.0), fx(8.0), fx(9.0))]
    );
    let turned = load_obj(text, false).unwrap();
    assert_eq!(
        corners(&turned[0]),
        vec![
            (fx(1.0), fx(-3.0), fx(2.0)),
            (fx(4.0), fx(-6.0), fx(5.0)),
            (fx(7.0), fx(-9.0), fx(8.0))
        ]
    );
    assert!(turned[0].tex_coords.is_empty());
}

#[test]
fn faces_name_what_was_read_before_them() {
    let text = b"v 0 0 0\nv 1 0 0\nf 1 2 3\nv 0 1 0\nf 1 2 3\nf 3 2 1 2\n";
    let polygons = load_obj(text, true).unwrap();
    assert_eq!(polygons.len(), 2);
    assert_eq!(corners(&polygons[0]), vec![(0, 0, 0), (65536, 0, 0), (0, 65536, 0)]);
    assert_eq!(corners(&polygons[1]).len(), 4);
}

#[test]
fn corner_references_may_leave_parts_out() {
    let text = b"v 0 0 0\nv 1 0 0\nv 0 1 0\nvt 0.25 0.5\nf 1//7 2/1 3/ 0/1 9/1 x/1 2/x\n";
    let polygons = load_obj(text, true).unwrap();
    assert_eq!(polygons.len(), 1);
    assert_eq!(
        corners(&polygons[0]),
        vec![(0, 0, 0), (65536, 0, 0), (0, 65536, 0), (65536, 0, 0)]
    );
    assert_eq!(coords(&polygons[0]), vec![(16384, 32768)]);
}

#[test]
fn missing_numbers_are_zero() {
    let text = b"v 1\nv\nv 2 3\nvt 0.5\nf 1/1 2/1 3/1\n";
    let polygons = load_obj(text, true).unwrap();
    assert_eq!(corners(&polygons[0]), vec![(65536, 0, 0), (0, 0, 0), (131072, 196608, 0)]);
    assert_eq!(coords(&polygons[0]), vec![(32768, 0), (32768, 0), (32768, 0)]);
}

#[test]
fn other_lines_are_passed_over() {
    let text = b"mtllib a.mtl\no thing\n  # v 9 9 9\nvx 1 2 3\nvtt 1 2\nfoo 1 2 3\ns off\n\n   \nv 0 0 0\r\n\tv 1 0 0 \r\n v 0 1 0\r\nusemtl m\r\nf 1 2 3\r\n";
    let polygons = load_obj(text, true).unwrap();
    assert_eq!(polygons.len(), 1);
    assert_eq!(corners(&polygons[0]), vec![(0, 0, 0), (65536, 0, 0), (0, 65536, 0)]);
}

#[test]
fn last_line_needs_no_line_feed() {
    let polygons = load_obj(b"v 0 0 0\nv 1 0 0\nv 0 1 0\nf 1 2 3", true).unwrap();
    assert_eq!(polygons.len(), 1);
}

#[test]
fn file_without_faces_is_refused() {
    assert_eq!(load_obj(b"", true).err(), Some(ObjError::NoPolygons));
    assert_eq!(load_obj(b"v 0 0 0\nv 1 0 0\nv 0 1 0\n", true).err(), Some(ObjError::NoPolygons));
    assert_eq!(
        load_obj(b"v 0 0 0\nv 1 0 0\nv 0 1 0\nf 1 2\n", true).err(),
        Some(ObjError::NoPolygons)
    );
    assert_eq!(
        load_obj(b"v 0 0 0\nv 1 0 0\nv 0 1 0\nf 1 2 4\n", true).err(),
        Some(ObjError::NoPolygons)
    );
}

#[test]
fn numbers_in_a_file_keep_their_value() {
    let text = b"v -0.353553 0.612372 123.456\nv 0 0 0\nv 1 1 1\nf 1 2 3\n";
    let polygons = load_obj(text, true).unwrap();
    let v = polygons[0].vertices[0];
    assert_eq!(
        (v.x.raw(), v.y.raw(), v.z.raw()),
        (fx(-0.353553), fx(0.612372), fx(123.456))
    );
    assert_eq!(Fixed::from_raw(fx(0.612372)).raw(), 40132);
}
