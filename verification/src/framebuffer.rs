//! The frame buffer and the triangle fill.
//!
//! A frame holds a colour and a depth for every pixel, row by row from the
//! top. A triangle is filled on whole pixels: its corners are moved to the
//! nearest pixel, and a pixel belongs to it where the three edge functions
//! do not disagree in sign with its area, so both windings are drawn. Depth
//! and texture coordinates are interpolated linearly on the screen, exactly,
//! with one rounding at the end.

use crate::fixed::{
    clamp, fx_round, lemma_product_bound, round_div, round_div_wide, saturate, Fixed,
};
use crate::point::{Point2D, Vec3};
use crate::polygon::{points2d_view, uvs_view, Polygon2D};
use crate::texture::{texel_at, texture_valid, Texture};
use crate::triangulate::{
    triangulate_ear_clipping, triangulation_of, tris_view, Corner, Tri, Triangle,
    TriangulationError, Vertex2D,
};
use vstd::prelude::*;

verus! {

/// The colour of a cleared frame: opaque black.
pub const BACKGROUND: u32 = 0xff00_0000;

/// The depth of a cleared frame: the largest raw value, behind everything.
pub const FAR: i32 = 0x7fff_0000;

/// Mathematical model of a [`Framebuffer`].
pub ghost struct FrameState {
    pub width: int,
    pub height: int,
    /// The colour of each pixel, row by row.
    pub pixels: Seq<u32>,
    /// The raw depth of each pixel, row by row.
    pub depth: Seq<int>,
}

/// Both buffers hold one entry for each pixel.
pub open spec fn frame_wf(f: FrameState) -> bool {
    &&& f.width >= 0
    &&& f.height >= 0
    &&& f.pixels.len() == f.width * f.height
    &&& f.depth.len() == f.width * f.height
}

/// A frame in which every pixel has the same colour and the same depth.
pub open spec fn uniform_frame(width: int, height: int, color: u32, depth: int) -> FrameState {
    FrameState {
        width,
        height,
        pixels: Seq::new((width * height) as nat, |i: int| color),
        depth: Seq::new((width * height) as nat, |i: int| depth),
    }
}

/// The pixel column of a corner.
pub open spec fn pixel_x(c: Corner) -> int {
    fx_round(c.pos.x)
}

/// The pixel row of a corner.
pub open spec fn pixel_y(c: Corner) -> int {
    fx_round(c.pos.y)
}

/// The edge function of the directed edge from `a` to `b` at the point `p`.
pub open spec fn edge(ax: int, ay: int, bx: int, by: int, px: int, py: int) -> int {
    (px - ax) * (by - ay) - (py - ay) * (bx - ax)
}

/// Twice the signed area of a triangle on whole pixels.
pub open spec fn area(t: Tri) -> int {
    edge(pixel_x(t.a), pixel_y(t.a), pixel_x(t.b), pixel_y(t.b), pixel_x(t.c), pixel_y(t.c))
}

/// The weight of corner `a` at the pixel `(x, y)`, times the area.
pub open spec fn weight_a(t: Tri, x: int, y: int) -> int {
    edge(pixel_x(t.b), pixel_y(t.b), pixel_x(t.c), pixel_y(t.c), x, y)
}

/// The weight of corner `b` at the pixel `(x, y)`, times the area.
pub open spec fn weight_b(t: Tri, x: int, y: int) -> int {
    edge(pixel_x(t.c), pixel_y(t.c), pixel_x(t.a), pixel_y(t.a), x, y)
}

/// The weight of corner `c` at the pixel `(x, y)`, times the area.
pub open spec fn weight_c(t: Tri, x: int, y: int) -> int {
    area(t) - weight_a(t, x, y) - weight_b(t, x, y)
}

/// Whether the pixel lies in the triangle: the area is not zero and none of
/// the three weights is negative.
pub open spec fn inside(t: Tri, x: int, y: int) -> bool {
    let n = area(t);
    let wa = weight_a(t, x, y);
    let wb = weight_b(t, x, y);
    let wc = weight_c(t, x, y);
    if n > 0 {
        wa >= 0 && wb >= 0 && wc >= 0
    } else if n < 0 {
        wa <= 0 && wb <= 0 && wc <= 0
    } else {
        false
    }
}

/// The smallest of three integers.
pub open spec fn min3(a: int, b: int, c: int) -> int {
    if a <= b && a <= c {
        a
    } else if b <= c {
        b
    } else {
        c
    }
}

/// The largest of three integers.
pub open spec fn max3(a: int, b: int, c: int) -> int {
    if a >= b && a >= c {
        a
    } else if b >= c {
        b
    } else {
        c
    }
}

/// Whether the pixel lies in the bounding box of the triangle and on a
/// screen of the given size.
pub open spec fn in_box(t: Tri, width: int, height: int, x: int, y: int) -> bool {
    &&& 0 <= x < width
    &&& 0 <= y < height
    &&& min3(pixel_x(t.a), pixel_x(t.b), pixel_x(t.c)) <= x <= max3(
        pixel_x(t.a),
        pixel_x(t.b),
        pixel_x(t.c),
    )
    &&& min3(pixel_y(t.a), pixel_y(t.b), pixel_y(t.c)) <= y <= max3(
        pixel_y(t.a),
        pixel_y(t.b),
        pixel_y(t.c),
    )
}

/// The value at the pixel of a quantity that is `qa`, `qb`, `qc` at the corners.
pub open spec fn interpolate(t: Tri, x: int, y: int, qa: int, qb: int, qc: int) -> int {
    clamp(
        round_div(
            weight_a(t, x, y) * qa + weight_b(t, x, y) * qb + weight_c(t, x, y) * qc,
            area(t),
        ),
    )
}

/// The raw depth of the triangle at the pixel.
pub open spec fn depth_at(t: Tri, x: int, y: int) -> int {
    interpolate(t, x, y, t.a.pos.z, t.b.pos.z, t.c.pos.z)
}

/// The texel column or row for a raw texture coordinate: the coordinate
/// times the size, rounded down and held inside the texture.
pub open spec fn texel_index(coord: int, size: int) -> int {
    if coord <= 0 {
        0
    } else if coord * size / 0x1_0000 >= size {
        size - 1
    } else {
        coord * size / 0x1_0000
    }
}

/// Whether there is a colour to paint with: no texture, or one that can be sampled.
pub open spec fn paintable(texture: Option<&Texture>) -> bool {
    match texture {
        None => true,
        Some(tx) => texture_valid(tx.width, tx.height, tx.data@),
    }
}

/// The colour of the triangle at the pixel: the plain colour, or the texel
/// nearest to the interpolated texture coordinate.
pub open spec fn colour_at(t: Tri, texture: Option<&Texture>, color: u32, x: int, y: int) -> u32 {
    match texture {
        None => color,
        Some(tx) => texel_at(
            tx.width,
            tx.data@,
            texel_index(interpolate(t, x, y, t.a.uv.0, t.b.uv.0, t.c.uv.0), tx.width as int),
            texel_index(interpolate(t, x, y, t.a.uv.1, t.b.uv.1, t.c.uv.1), tx.height as int),
        ),
    }
}

/// Whether the triangle is drawn at pixel `i`: there is a colour to paint
/// with, the pixel lies in the triangle, and the triangle is nearer there
/// than what the frame holds.
pub open spec fn hits(f: FrameState, t: Tri, texture: Option<&Texture>, i: int) -> bool {
    let x = i % f.width;
    let y = i / f.width;
    &&& paintable(texture)
    &&& inside(t, x, y)
    &&& depth_at(t, x, y) < f.depth[i]
}

/// The frame after one triangle was filled.
pub open spec fn fill(f: FrameState, t: Tri, texture: Option<&Texture>, color: u32) -> FrameState {
    FrameState {
        pixels: Seq::new(
            f.pixels.len(),
            |i: int|
                if hits(f, t, texture, i) {
                    colour_at(t, texture, color, i % f.width, i / f.width)
                } else {
                    f.pixels[i]
                },
        ),
        depth: Seq::new(
            f.depth.len(),
            |i: int|
                if hits(f, t, texture, i) {
                    depth_at(t, i % f.width, i / f.width)
                } else {
                    f.depth[i]
                },
        ),
        ..f
    }
}

/// The frame after the triangles were filled one after the other.
pub open spec fn fill_all(f: FrameState, ts: Seq<Tri>, texture: Option<&Texture>, color: u32) -> FrameState
    decreases ts.len(),
{
    if ts.len() == 0 {
        f
    } else {
        fill_all(fill(f, ts[0], texture, color), ts.drop_first(), texture, color)
    }
}

/// The frame after a polygon was drawn: its triangles filled, or nothing
/// changed where it has none.
pub open spec fn draw(
    f: FrameState,
    vertices: Seq<Vec3>,
    uvs: Seq<(int, int)>,
    texture: Option<&Texture>,
    color: u32,
) -> FrameState {
    match triangulation_of(vertices, uvs) {
        Ok(ts) => fill_all(f, ts, texture, color),
        Err(_) => f,
    }
}

/// The triangle of three screen points that carry no texture coordinates.
pub open spec fn plain_triangle(a: Vec3, b: Vec3, c: Vec3) -> Tri {
    Tri {
        a: Corner { pos: a, uv: (0, 0) },
        b: Corner { pos: b, uv: (0, 0) },
        c: Corner { pos: c, uv: (0, 0) },
    }
}

/// The triangle of three screen points and their texture coordinates.
pub open spec fn textured_triangle(
    a: Vec3,
    b: Vec3,
    c: Vec3,
    uv_a: (int, int),
    uv_b: (int, int),
    uv_c: (int, int),
) -> Tri {
    Tri {
        a: Corner { pos: a, uv: uv_a },
        b: Corner { pos: b, uv: uv_b },
        c: Corner { pos: c, uv: uv_c },
    }
}

/// Whether pixel `i` comes before the pixel `(x, y)` in a frame of width `w`.
pub open spec fn visited(w: int, i: int, x: int, y: int) -> bool {
    i / w < y || (i / w == y && i % w < x)
}

/// Filling a triangle never moves a depth away from the viewer.
pub proof fn lemma_fill_depth_never_grows(
    f: FrameState,
    t: Tri,
    texture: Option<&Texture>,
    color: u32,
    i: int,
)
    requires
        0 <= i < f.depth.len(),
    ensures
        fill(f, t, texture, color).depth[i] <= f.depth[i],
{
}

/// The depths of a frame do not depend on the order in which two
/// triangles are filled.
pub proof fn lemma_fill_depth_order(
    f: FrameState,
    t1: Tri,
    texture1: Option<&Texture>,
    color1: u32,
    t2: Tri,
    texture2: Option<&Texture>,
    color2: u32,
)
    ensures
        fill(fill(f, t1, texture1, color1), t2, texture2, color2).depth == fill(
            fill(f, t2, texture2, color2),
            t1,
            texture1,
            color1,
        ).depth,
{
    let one = fill(fill(f, t1, texture1, color1), t2, texture2, color2).depth;
    let other = fill(fill(f, t2, texture2, color2), t1, texture1, color1).depth;
    assert(one =~= other);
}

/// Where two triangles meet at a pixel and one of them is nearer, the
/// pixel has the colour of the nearer one, whichever was filled first.
pub proof fn lemma_nearer_triangle_shows(
    f: FrameState,
    near: Tri,
    far: Tri,
    near_color: u32,
    far_color: u32,
    i: int,
)
    requires
        0 <= i < f.pixels.len(),
        f.pixels.len() == f.depth.len(),
        hits(f, near, None, i),
        hits(f, far, None, i),
        depth_at(near, i % f.width, i / f.width) < depth_at(far, i % f.width, i / f.width),
    ensures
        fill(fill(f, far, None, far_color), near, None, near_color).pixels[i] == near_color,
        fill(fill(f, near, None, near_color), far, None, far_color).pixels[i] == near_color,
{
}

/// A product with a difference, written out.
proof fn lemma_times_difference(w: int, a: int, b: int)
    by (nonlinear_arith)
    ensures
        w * (a - b) == w * a - w * b,
{
}

/// A weighted mean lies between the least and the largest of its terms:
/// where `n * u` is the sum of `wa * a`, `wb * b` and `wc * c`, the weights
/// add up to `n` and none of them has another sign than `n`.
proof fn lemma_weighted_mean(n: int, wa: int, wb: int, wc: int, a: int, b: int, c: int, u: int)
    requires
        n == wa + wb + wc,
        n * u == wa * a + wb * b + wc * c,
        (n > 0 && wa >= 0 && wb >= 0 && wc >= 0) || (n < 0 && wa <= 0 && wb <= 0 && wc <= 0),
    ensures
        min3(a, b, c) <= u <= max3(a, b, c),
{
    let lo = min3(a, b, c);
    let hi = max3(a, b, c);
    lemma_times_difference(wa, a, lo);
    lemma_times_difference(wb, b, lo);
    lemma_times_difference(wc, c, lo);
    lemma_times_difference(n, u, lo);
    lemma_times_difference(wa, hi, a);
    lemma_times_difference(wb, hi, b);
    lemma_times_difference(wc, hi, c);
    lemma_times_difference(n, hi, u);
    assert(n * lo == wa * lo + wb * lo + wc * lo) by (nonlinear_arith)
        requires
            n == wa + wb + wc,
    ;
    assert(n * hi == wa * hi + wb * hi + wc * hi) by (nonlinear_arith)
        requires
            n == wa + wb + wc,
    ;
    assert(wa * (a - lo) + wb * (b - lo) + wc * (c - lo) == n * (u - lo));
    assert(wa * (hi - a) + wb * (hi - b) + wc * (hi - c) == n * (hi - u));
    if n > 0 {
        assert(wa * (a - lo) >= 0 && wb * (b - lo) >= 0 && wc * (c - lo) >= 0)
            by (nonlinear_arith)
            requires
                wa >= 0 && wb >= 0 && wc >= 0,
                a - lo >= 0 && b - lo >= 0 && c - lo >= 0,
        ;
        assert(wa * (hi - a) >= 0 && wb * (hi - b) >= 0 && wc * (hi - c) >= 0)
            by (nonlinear_arith)
            requires
                wa >= 0 && wb >= 0 && wc >= 0,
                hi - a >= 0 && hi - b >= 0 && hi - c >= 0,
        ;
        assert(u - lo >= 0) by (nonlinear_arith)
            requires
                n > 0,
                n * (u - lo) >= 0,
        ;
        assert(hi - u >= 0) by (nonlinear_arith)
            requires
                n > 0,
                n * (hi - u) >= 0,
        ;
    } else {
        assert(wa * (a - lo) <= 0 && wb * (b - lo) <= 0 && wc * (c - lo) <= 0)
            by (nonlinear_arith)
            requires
                wa <= 0 && wb <= 0 && wc <= 0,
                a - lo >= 0 && b - lo >= 0 && c - lo >= 0,
        ;
        assert(wa * (hi - a) <= 0 && wb * (hi - b) <= 0 && wc * (hi - c) <= 0)
            by (nonlinear_arith)
            requires
                wa <= 0 && wb <= 0 && wc <= 0,
                hi - a >= 0 && hi - b >= 0 && hi - c >= 0,
        ;
        assert(u - lo >= 0) by (nonlinear_arith)
            requires
                n < 0,
                n * (u - lo) <= 0,
        ;
        assert(hi - u >= 0) by (nonlinear_arith)
            requires
                n < 0,
                n * (hi - u) <= 0,
        ;
    }
}

/// The pixel is the mean of the corners, weighted by the three weights.
proof fn lemma_weights_locate(t: Tri, x: int, y: int)
    ensures
        area(t) * x == weight_a(t, x, y) * pixel_x(t.a) + weight_b(t, x, y) * pixel_x(t.b)
            + weight_c(t, x, y) * pixel_x(t.c),
        area(t) * y == weight_a(t, x, y) * pixel_y(t.a) + weight_b(t, x, y) * pixel_y(t.b)
            + weight_c(t, x, y) * pixel_y(t.c),
{
    let xc = pixel_x(t.c);
    let yc = pixel_y(t.c);
    let a = pixel_x(t.a) - xc;
    let p = pixel_y(t.a) - yc;
    let b = pixel_x(t.b) - xc;
    let q = pixel_y(t.b) - yc;
    let u = x - xc;
    let v = y - yc;
    let n = area(t);
    let wa = weight_a(t, x, y);
    let wb = weight_b(t, x, y);
    let wc = weight_c(t, x, y);
    assert(n == p * b - a * q) by (nonlinear_arith)
        requires
            n == (0 - a) * (q - p) - (0 - p) * (b - a),
    ;
    assert(wa == v * b - u * q) by (nonlinear_arith)
        requires
            wa == (u - b) * (0 - q) - (v - q) * (0 - b),
    ;
    assert(wb == u * p - v * a) by (nonlinear_arith)
        requires
            wb == (u - 0) * (p - 0) - (v - 0) * (a - 0),
    ;
    assert(n * u == wa * a + wb * b) by (nonlinear_arith)
        requires
            n == p * b - a * q,
            wa == v * b - u * q,
            wb == u * p - v * a,
    ;
    assert(n * v == wa * p + wb * q) by (nonlinear_arith)
        requires
            n == p * b - a * q,
            wa == v * b - u * q,
            wb == u * p - v * a,
    ;
    assert(n * x == wa * (a + xc) + wb * (b + xc) + wc * xc) by (nonlinear_arith)
        requires
            n * u == wa * a + wb * b,
            u == x - xc,
            wc == n - wa - wb,
    ;
    assert(n * y == wa * (p + yc) + wb * (q + yc) + wc * yc) by (nonlinear_arith)
        requires
            n * v == wa * p + wb * q,
            v == y - yc,
            wc == n - wa - wb,
    ;
}

/// A pixel in a triangle lies in the bounding box of its corners: the box
/// spares work and leaves no pixel out.
pub proof fn lemma_inside_in_box(t: Tri, width: int, height: int, x: int, y: int)
    requires
        inside(t, x, y),
        0 <= x < width,
        0 <= y < height,
    ensures
        in_box(t, width, height, x, y),
{
    lemma_weights_locate(t, x, y);
    lemma_weighted_mean(
        area(t),
        weight_a(t, x, y),
        weight_b(t, x, y),
        weight_c(t, x, y),
        pixel_x(t.a),
        pixel_x(t.b),
        pixel_x(t.c),
        x,
    );
    lemma_weighted_mean(
        area(t),
        weight_a(t, x, y),
        weight_b(t, x, y),
        weight_c(t, x, y),
        pixel_y(t.a),
        pixel_y(t.b),
        pixel_y(t.c),
        y,
    );
}

/// Pixel `(x, y)` has the index `y * w + x`, and no other pixel has it.
pub proof fn lemma_pixel_index(w: int, h: int, x: int, y: int)
    requires
        0 <= x < w,
        0 <= y < h,
    ensures
        0 <= y * w,
        0 <= y * w + x < w * h,
        (y * w + x) / w == y,
        (y * w + x) % w == x,
{
    assert(0 <= y * w && (y + 1) * w <= h * w && h * w == w * h && (y + 1) * w == y * w + w)
        by (nonlinear_arith)
        requires
            0 <= y < h,
            0 < w,
    ;
    vstd::arithmetic::div_mod::lemma_fundamental_div_mod_converse(y * w + x, w, y, x);
}

/// An index is made of its row and its column.
pub proof fn lemma_index_pixel(w: int, h: int, i: int)
    requires
        0 <= i < w * h,
        0 <= w,
        0 <= h,
    ensures
        0 < w,
        i == (i / w) * w + i % w,
        0 <= i % w < w,
        0 <= i / w < h,
{
    assert(w > 0) by (nonlinear_arith)
        requires
            0 <= i < w * h,
            0 <= w,
    ;
    vstd::arithmetic::div_mod::lemma_fundamental_div_mod(i, w);
    vstd::arithmetic::div_mod::lemma_mod_bound(i, w);
    let q = i / w;
    assert(w * q == q * w) by (nonlinear_arith);
    assert(0 <= q < h) by (nonlinear_arith)
        requires
            i == q * w + i % w,
            0 <= i % w < w,
            0 <= i < w * h,
            0 < w,
    {
        if q >= h {
            assert(q * w >= h * w);
        }
        if q < 0 {
            assert(q * w <= -w);
        }
    }
}

/// A frame: a colour and a depth for every pixel.
pub struct Framebuffer {
    width: usize,
    height: usize,
    pixels: Vec<u32>,
    z_buffer: Vec<Fixed>,
}

impl View for Framebuffer {
    type V = FrameState;

    closed spec fn view(&self) -> FrameState {
        FrameState {
            width: self.width as int,
            height: self.height as int,
            pixels: self.pixels@,
            depth: Seq::new(self.z_buffer@.len(), |i: int| self.z_buffer@[i]@),
        }
    }
}

/// The three corners on whole pixels, and twice the signed area.
struct Snapped {
    ax: i64,
    ay: i64,
    bx: i64,
    by: i64,
    cx: i64,
    cy: i64,
    area: i64,
}

impl Snapped {
    spec fn of(self, t: Tri) -> bool {
        &&& self.ax == pixel_x(t.a)
        &&& self.ay == pixel_y(t.a)
        &&& self.bx == pixel_x(t.b)
        &&& self.by == pixel_y(t.b)
        &&& self.cx == pixel_x(t.c)
        &&& self.cy == pixel_y(t.c)
        &&& self.area == area(t)
        &&& -0x2_0000_0000 <= self.area <= 0x2_0000_0000
        &&& -32767 <= self.ax <= 32767
        &&& -32767 <= self.ay <= 32767
        &&& -32767 <= self.bx <= 32767
        &&& -32767 <= self.by <= 32767
        &&& -32767 <= self.cx <= 32767
        &&& -32767 <= self.cy <= 32767
    }
}

fn edge_function(ax: i64, ay: i64, bx: i64, by: i64, px: i64, py: i64) -> (r: i64)
    requires
        -32767 <= ax <= 32767,
        -32767 <= ay <= 32767,
        -32767 <= bx <= 32767,
        -32767 <= by <= 32767,
        -32767 <= px <= 32767,
        -32767 <= py <= 32767,
    ensures
        r == edge(ax as int, ay as int, bx as int, by as int, px as int, py as int),
        -0x2_0000_0000 <= r <= 0x2_0000_0000,
{
    proof {
        lemma_product_bound((px - ax) as int, (by - ay) as int, 0x1_0000, 0x1_0000);
        lemma_product_bound((py - ay) as int, (bx - ax) as int, 0x1_0000, 0x1_0000);
    }
    (px - ax) * (by - ay) - (py - ay) * (bx - ax)
}

fn snap(tri: &Triangle) -> (s: Snapped)
    ensures
        s.of(tri@),
{
    let ax = tri.a.pos.x.round() as i64;
    let ay = tri.a.pos.y.round() as i64;
    let bx = tri.b.pos.x.round() as i64;
    let by = tri.b.pos.y.round() as i64;
    let cx = tri.c.pos.x.round() as i64;
    let cy = tri.c.pos.y.round() as i64;
    let area = edge_function(ax, ay, bx, by, cx, cy);
    Snapped { ax, ay, bx, by, cx, cy, area }
}

/// The interpolated value of a quantity at a pixel, from the three weights.
fn interpolate_raw(wa: i64, wb: i64, wc: i64, area: i64, qa: Fixed, qb: Fixed, qc: Fixed) -> (r:
    Fixed)
    requires
        area != 0,
        -0x2_0000_0000 <= wa <= 0x2_0000_0000,
        -0x2_0000_0000 <= wb <= 0x2_0000_0000,
        -0x8_0000_0000 <= wc <= 0x8_0000_0000,
        -0x2_0000_0000 <= area <= 0x2_0000_0000,
    ensures
        r@ == clamp(round_div(wa * qa@ + wb * qb@ + wc * qc@, area as int)),
{
    let a = qa.raw() as i128;
    let b = qb.raw() as i128;
    let c = qc.raw() as i128;
    proof {
        lemma_product_bound(wa as int, a as int, 0x2_0000_0000, 0x8000_0000);
        lemma_product_bound(wb as int, b as int, 0x2_0000_0000, 0x8000_0000);
        lemma_product_bound(wc as int, c as int, 0x8_0000_0000, 0x8000_0000);
    }
    let n: i128 = wa as i128 * a + wb as i128 * b + wc as i128 * c;
    saturate(round_div_wide(n, area as i128))
}

/// The texel column or row for a texture coordinate.
fn texel_index_raw(coord: Fixed, size: usize) -> (r: usize)
    requires
        size > 0,
    ensures
        r == texel_index(coord@, size as int),
        r < size,
{
    let c = coord.raw();
    if c <= 0 {
        return 0;
    }
    proof {
        lemma_product_bound(c as int, size as int, 0x8000_0000, 0x1_0000_0000_0000_0000);
        assert(c * size >= 0) by (nonlinear_arith)
            requires
                c > 0,
                size > 0,
        ;
    }
    let scaled: u128 = (c as u128 * size as u128) / 0x1_0000;
    if scaled >= size as u128 {
        size - 1
    } else {
        scaled as usize
    }
}

/// Depth and colour of the triangle at a pixel, where the pixel lies in it.
fn sample(
    tri: &Triangle,
    s: &Snapped,
    texture: Option<&Texture>,
    color: u32,
    x: i64,
    y: i64,
) -> (r: Option<(Fixed, u32)>)
    requires
        s.of(tri@),
        s.area != 0,
        paintable(texture),
        0 <= x <= 32767,
        0 <= y <= 32767,
    ensures
        r.is_some() == inside(tri@, x as int, y as int),
        match r {
            Some((z, c)) => z@ == depth_at(tri@, x as int, y as int) && c == colour_at(
                tri@,
                texture,
                color,
                x as int,
                y as int,
            ),
            None => true,
        },
{
    let wa = edge_function(s.bx, s.by, s.cx, s.cy, x, y);
    let wb = edge_function(s.cx, s.cy, s.ax, s.ay, x, y);
    let wc = s.area - wa - wb;
    let is_inside = if s.area > 0 {
        wa >= 0 && wb >= 0 && wc >= 0
    } else {
        wa <= 0 && wb <= 0 && wc <= 0
    };
    if !is_inside {
        return None;
    }
    let z = interpolate_raw(wa, wb, wc, s.area, tri.a.pos.z, tri.b.pos.z, tri.c.pos.z);
    let c = match texture {
        None => color,
        Some(tx) => {
            let u = interpolate_raw(wa, wb, wc, s.area, tri.a.uv.0, tri.b.uv.0, tri.c.uv.0);
            let v = interpolate_raw(wa, wb, wc, s.area, tri.a.uv.1, tri.b.uv.1, tri.c.uv.1);
            let tex_x = texel_index_raw(u, tx.width);
            let tex_y = texel_index_raw(v, tx.height);
            match tx.texel(tex_x, tex_y) {
                Some(c) => c,
                None => color,
            }
        },
    };
    Some((z, c))
}

fn min3_raw(a: i64, b: i64, c: i64) -> (r: i64)
    ensures
        r == min3(a as int, b as int, c as int),
{
    if a <= b && a <= c {
        a
    } else if b <= c {
        b
    } else {
        c
    }
}

fn max3_raw(a: i64, b: i64, c: i64) -> (r: i64)
    ensures
        r == max3(a as int, b as int, c as int),
{
    if a >= b && a >= c {
        a
    } else if b >= c {
        b
    } else {
        c
    }
}

impl Clone for Framebuffer {
    /// A frame of the same size with the same colours and depths.
    fn clone(&self) -> (r: Framebuffer)
        ensures
            r@ == self@,
    {
        proof {
            use_type_invariant(self);
        }
        let n = self.pixels.len();
        let mut pixels: Vec<u32> = Vec::new();
        let mut z_buffer: Vec<Fixed> = Vec::new();
        let mut i: usize = 0;
        while i < n
            invariant
                0 <= i <= n,
                n == self.pixels@.len(),
                n == self.z_buffer@.len(),
                pixels@.len() == i,
                z_buffer@.len() == i,
                forall|k: int| 0 <= k < i ==> pixels@[k] == self.pixels@[k],
                forall|k: int| 0 <= k < i ==> z_buffer@[k] == self.z_buffer@[k],
            decreases n - i,
        {
            pixels.push(self.pixels[i]);
            z_buffer.push(self.z_buffer[i]);
            i = i + 1;
        }
        let r = Framebuffer { width: self.width, height: self.height, pixels, z_buffer };
        proof {
            assert(r@.pixels =~= self@.pixels);
            assert(r@.depth =~= self@.depth);
        }
        r
    }
}

impl Framebuffer {
    #[verifier::type_invariant]
    spec fn well_formed(self) -> bool {
        &&& self.pixels@.len() == self.width * self.height
        &&& self.z_buffer@.len() == self.width * self.height
    }

    /// A black frame of the given size, with nothing in front of the far depth.
    pub fn new(width: usize, height: usize) -> (f: Framebuffer)
        requires
            width * height <= usize::MAX,
        ensures
            f@ == uniform_frame(width as int, height as int, 0, FAR as int),
            frame_wf(f@),
    {
        let n = width * height;
        let mut pixels: Vec<u32> = Vec::new();
        let mut z_buffer: Vec<Fixed> = Vec::new();
        let mut i: usize = 0;
        while i < n
            invariant
                0 <= i <= n,
                pixels.len() == i,
                z_buffer.len() == i,
                forall|k: int| 0 <= k < i ==> pixels@[k] == 0,
                forall|k: int| 0 <= k < i ==> (#[trigger] z_buffer@[k])@ == FAR,
            decreases n - i,
        {
            pixels.push(0);
            z_buffer.push(Fixed::from_raw(FAR));
            i = i + 1;
        }
        let f = Framebuffer { width, height, pixels, z_buffer };
        proof {
            let u = uniform_frame(width as int, height as int, 0, FAR as int);
            assert(f@.pixels =~= u.pixels);
            assert(f@.depth =~= u.depth);
        }
        f
    }

    /// Gives the frame a new size. What it held is discarded: the result is
    /// a new frame of that size.
    pub fn resize(&mut self, width: usize, height: usize)
        requires
            width * height <= usize::MAX,
        ensures
            final(self)@ == uniform_frame(width as int, height as int, 0, FAR as int),
            frame_wf(final(self)@),
    {
        *self = Framebuffer::new(width, height);
    }

    /// Fills the frame with the background colour and the far depth.
    pub fn clear(&mut self)
        ensures
            final(self)@ == uniform_frame(
                old(self)@.width,
                old(self)@.height,
                BACKGROUND,
                FAR as int,
            ),
            frame_wf(final(self)@),
    {
        proof {
            use_type_invariant(&*self);
        }
        let n = self.pixels.len();
        let mut i: usize = 0;
        while i < n
            invariant
                0 <= i <= n,
                self.width == old(self).width,
                self.height == old(self).height,
                n == self.width * self.height,
                self.pixels@.len() == n,
                self.z_buffer@.len() == n,
                forall|k: int| 0 <= k < i ==> self.pixels@[k] == BACKGROUND,
                forall|k: int| 0 <= k < i ==> (#[trigger] self.z_buffer@[k])@ == FAR,
            decreases n - i,
        {
            self.pixels[i] = BACKGROUND;
            self.z_buffer[i] = Fixed::from_raw(FAR);
            i = i + 1;
        }
        proof {
            let u = uniform_frame(old(self)@.width, old(self)@.height, BACKGROUND, FAR as int);
            assert(self@.pixels =~= u.pixels);
            assert(self@.depth =~= u.depth);
        }
    }

    /// Fills one triangle, with the plain colour or with the texture.
    fn fill_triangle(&mut self, tri: &Triangle, texture: Option<&Texture>, color: u32)
        ensures
            final(self)@ == fill(old(self)@, tri@, texture, color),
            frame_wf(final(self)@),
    {
        proof {
            use_type_invariant(&*self);
        }
        let ghost f0 = self@;
        let ghost t = tri@;
        let ghost target = fill(f0, t, texture, color);
        let w = self.width;
        let h = self.height;
        let n = self.pixels.len();
        let can_paint = match texture {
            None => true,
            Some(tx) => tx.is_valid(),
        };
        let s = snap(tri);
        if w == 0 || h == 0 || !can_paint || s.area == 0 {
            proof {
                if w == 0 || h == 0 {
                    assert(w * h == 0) by (nonlinear_arith)
                        requires
                            w == 0 || h == 0,
                    ;
                }
                assert(target.pixels =~= f0.pixels);
                assert(target.depth =~= f0.depth);
            }
            return ;
        }
        let right: i64 = if w > 32768 {
            32767
        } else {
            (w - 1) as i64
        };
        let bottom: i64 = if h > 32768 {
            32767
        } else {
            (h - 1) as i64
        };
        let lo_x = min3_raw(s.ax, s.bx, s.cx);
        let hi_x = max3_raw(s.ax, s.bx, s.cx);
        let lo_y = min3_raw(s.ay, s.by, s.cy);
        let hi_y = max3_raw(s.ay, s.by, s.cy);
        let min_x: i64 = if lo_x < 0 {
            0
        } else {
            lo_x
        };
        let max_x: i64 = if hi_x > right {
            right
        } else {
            hi_x
        };
        let min_y: i64 = if lo_y < 0 {
            0
        } else {
            lo_y
        };
        let max_y: i64 = if hi_y > bottom {
            bottom
        } else {
            hi_y
        };
        proof {
            assert forall|i: int| 0 <= i < n && #[trigger] hits(f0, t, texture, i) implies min_x
                <= i % (w as int) <= max_x && min_y <= i / (w as int) <= max_y by {
                lemma_index_pixel(w as int, h as int, i);
                lemma_inside_in_box(t, w as int, h as int, i % (w as int), i / (w as int));
            }
        }
        let mut y: i64 = min_y;
        while y <= max_y
            invariant
                self.width == w,
                self.height == h,
                w > 0,
                h > 0,
                n == w * h,
                self.pixels@.len() == n,
                self.z_buffer@.len() == n,
                f0.width == w,
                f0.height == h,
                f0.pixels.len() == n,
                f0.depth.len() == n,
                t == tri@,
                target == fill(f0, t, texture, color),
                s.of(t),
                s.area != 0,
                paintable(texture),
                0 <= min_x,
                max_x <= 32767,
                max_x < w,
                0 <= min_y <= y,
                max_y <= 32767,
                max_y < h,
                y <= max_y + 1 || y == min_y,
                forall|i: int|
                    0 <= i < n && #[trigger] hits(f0, t, texture, i) ==> min_x <= i % (w as int)
                        <= max_x && min_y <= i / (w as int) <= max_y,
                forall|i: int|
                    0 <= i < n ==> #[trigger] self.pixels@[i] == (if i / (w as int) < y {
                        target.pixels[i]
                    } else {
                        f0.pixels[i]
                    }),
                forall|i: int|
                    0 <= i < n ==> (#[trigger] self.z_buffer@[i])@ == (if i / (w as int) < y {
                        target.depth[i]
                    } else {
                        f0.depth[i]
                    }),
            decreases max_y + 1 - y,
        {
            let mut x: i64 = min_x;
            while x <= max_x
                invariant
                    self.width == w,
                    self.height == h,
                    w > 0,
                    h > 0,
                    n == w * h,
                    self.pixels@.len() == n,
                    self.z_buffer@.len() == n,
                    f0.width == w,
                    f0.height == h,
                    f0.pixels.len() == n,
                    f0.depth.len() == n,
                    t == tri@,
                    target == fill(f0, t, texture, color),
                    s.of(t),
                    s.area != 0,
                    paintable(texture),
                    0 <= min_x <= x,
                    max_x <= 32767,
                    max_x < w,
                    0 <= min_y <= y <= max_y,
                    max_y <= 32767,
                    max_y < h,
                    x <= max_x + 1 || x == min_x,
                    forall|i: int|
                        0 <= i < n && #[trigger] hits(f0, t, texture, i) ==> min_x <= i % (
                        w as int) <= max_x && min_y <= i / (w as int) <= max_y,
                    forall|i: int|
                        0 <= i < n ==> #[trigger] self.pixels@[i] == (if visited(
                            w as int,
                            i,
                            x as int,
                            y as int,
                        ) {
                            target.pixels[i]
                        } else {
                            f0.pixels[i]
                        }),
                    forall|i: int|
                        0 <= i < n ==> (#[trigger] self.z_buffer@[i])@ == (if visited(
                            w as int,
                            i,
                            x as int,
                            y as int,
                        ) {
                            target.depth[i]
                        } else {
                            f0.depth[i]
                        }),
                decreases max_x + 1 - x,
            {
                proof {
                    lemma_pixel_index(w as int, h as int, x as int, y as int);
                    assert forall|i: int|
                        0 <= i < n && #[trigger] visited(w as int, i, x + 1, y as int) && !visited(
                            w as int,
                            i,
                            x as int,
                            y as int,
                        ) implies i == y * w + x by {
                        lemma_index_pixel(w as int, h as int, i);
                    }
                }
                let idx: usize = (y as usize) * w + (x as usize);
                match sample(tri, &s, texture, color, x, y) {
                    Some((z, c)) => {
                        if z.lt(self.z_buffer[idx]) {
                            self.z_buffer[idx] = z;
                            self.pixels[idx] = c;
                        }
                    },
                    None => {},
                }
                x = x + 1;
            }
            y = y + 1;
        }
        proof {
            assert(self@.pixels =~= target.pixels);
            assert(self@.depth =~= target.depth);
        }
    }

    /// Fills a triangle with one colour.
    pub fn rasterize_triangle(&mut self, v0: Point2D, v1: Point2D, v2: Point2D, color: u32)
        ensures
            final(self)@ == fill(old(self)@, plain_triangle(v0@, v1@, v2@), None, color),
            frame_wf(final(self)@),
    {
        let zero = Fixed::zero();
        let tri = Triangle {
            a: Vertex2D { pos: v0, uv: (zero, zero) },
            b: Vertex2D { pos: v1, uv: (zero, zero) },
            c: Vertex2D { pos: v2, uv: (zero, zero) },
        };
        self.fill_triangle(&tri, None, color);
    }

    /// Fills a triangle with the texels of a texture. A texture that cannot
    /// be sampled paints nothing.
    pub fn rasterize_triangle_with_texture(
        &mut self,
        v0: Point2D,
        v1: Point2D,
        v2: Point2D,
        uv0: (Fixed, Fixed),
        uv1: (Fixed, Fixed),
        uv2: (Fixed, Fixed),
        texture: &Texture,
    )
        ensures
            final(self)@ == fill(
                old(self)@,
                textured_triangle(
                    v0@,
                    v1@,
                    v2@,
                    (uv0.0@, uv0.1@),
                    (uv1.0@, uv1.1@),
                    (uv2.0@, uv2.1@),
                ),
                Some(texture),
                0,
            ),
            frame_wf(final(self)@),
    {
        let tri = Triangle {
            a: Vertex2D { pos: v0, uv: uv0 },
            b: Vertex2D { pos: v1, uv: uv1 },
            c: Vertex2D { pos: v2, uv: uv2 },
        };
        self.fill_triangle(&tri, Some(texture), 0);
    }

    /// Triangulates a screen polygon and fills its triangles, with the
    /// texture where there is one and with the colour where there is none.
    /// A polygon that cannot be triangulated is skipped: the frame stays
    /// as it is and the reason is returned.
    pub fn draw_polygon(&mut self, polygon: &Polygon2D, texture: Option<&Texture>, color: u32) -> (r:
        Result<(), TriangulationError>)
        ensures
            final(self)@ == draw(
                old(self)@,
                points2d_view(polygon.vertices@),
                uvs_view(polygon.uv_coords@),
                texture,
                color,
            ),
            frame_wf(final(self)@),
            final(self)@.width == old(self)@.width,
            final(self)@.height == old(self)@.height,
            match r {
                Ok(_) => triangulation_of(
                    points2d_view(polygon.vertices@),
                    uvs_view(polygon.uv_coords@),
                ).is_ok(),
                Err(e) => triangulation_of(
                    points2d_view(polygon.vertices@),
                    uvs_view(polygon.uv_coords@),
                ) == Err::<Seq<Tri>, TriangulationError>(e),
            },
    {
        proof {
            use_type_invariant(&*self);
        }
        let triangles = match triangulate_ear_clipping(polygon) {
            Ok(t) => t,
            Err(e) => {
                return Err(e);
            },
        };
        let ghost f0 = self@;
        let ghost ts = tris_view(triangles@);
        let n = triangles.len();
        let mut k: usize = 0;
        proof {
            assert(ts.subrange(0, n as int) =~= ts);
        }
        while k < n
            invariant
                0 <= k <= n,
                n == triangles.len(),
                ts == tris_view(triangles@),
                frame_wf(self@),
                self@.width == f0.width,
                self@.height == f0.height,
                fill_all(self@, ts.subrange(k as int, n as int), texture, color) == fill_all(
                    f0,
                    ts,
                    texture,
                    color,
                ),
            decreases n - k,
        {
            proof {
                let rest = ts.subrange(k as int, n as int);
                assert(rest[0] == ts[k as int]);
                assert(rest.drop_first() =~= ts.subrange(k + 1, n as int));
            }
            self.fill_triangle(&triangles[k], texture, color);
            k = k + 1;
        }
        Ok(())
    }

    /// The number of pixels in a row.
    pub fn width(&self) -> (w: usize)
        ensures
            w == self@.width,
            frame_wf(self@),
    {
        proof {
            use_type_invariant(self);
        }
        self.width
    }

    /// The number of rows.
    pub fn height(&self) -> (h: usize)
        ensures
            h == self@.height,
            frame_wf(self@),
    {
        proof {
            use_type_invariant(self);
        }
        self.height
    }

    /// The colours, row by row from the top.
    pub fn pixels(&self) -> (p: &Vec<u32>)
        ensures
            p@ == self@.pixels,
            frame_wf(self@),
    {
        proof {
            use_type_invariant(self);
        }
        &self.pixels
    }

    /// The depths, row by row from the top.
    pub fn z_buffer(&self) -> (z: &Vec<Fixed>)
        ensures
            z@.len() == self@.depth.len(),
            forall|i: int| 0 <= i < z@.len() ==> (#[trigger] z@[i])@ == self@.depth[i],
            frame_wf(self@),
    {
        proof {
            use_type_invariant(self);
        }
        &self.z_buffer
    }

    /// The colour of the pixel in column `x` of row `y`, where the frame has one.
    pub fn pixel(&self, x: usize, y: usize) -> (c: Option<u32>)
        ensures
            c == if x < self@.width && y < self@.height {
                Some(self@.pixels[y * self@.width + x])
            } else {
                None
            },
    {
        proof {
            use_type_invariant(self);
        }
        if x >= self.width || y >= self.height {
            return None;
        }
        proof {
            lemma_pixel_index(self.width as int, self.height as int, x as int, y as int);
        }
        let n = self.pixels.len();
        Some(self.pixels[y * self.width + x])
    }

    /// The depth of the pixel in column `x` of row `y`, where the frame has one.
    pub fn depth(&self, x: usize, y: usize) -> (d: Option<Fixed>)
        ensures
            match d {
                Some(z) => x < self@.width && y < self@.height && z@ == self@.depth[y
                    * self@.width + x],
                None => !(x < self@.width && y < self@.height),
            },
    {
        proof {
            use_type_invariant(self);
        }
        if x >= self.width || y >= self.height {
            return None;
        }
        proof {
            lemma_pixel_index(self.width as int, self.height as int, x as int, y as int);
        }
        let n = self.z_buffer.len();
        Some(self.z_buffer[y * self.width + x])
    }
}

} // verus!
