//! Points and vectors in space, and points on the screen.

use crate::fixed::{
    clamp, fx_add, fx_mul, fx_round, fx_sub, iabs, in_range, is_isqrt, isqrt, isqrt_u128,
    isqrt_u64, lemma_isqrt_exists, lemma_isqrt_unique, lemma_product_bound,
    lemma_round_div_error, lemma_square_order, lemma_trunc_div_bound,
    round_div, round_div_wide, saturate, trunc_div, trunc_div_wide, Fixed,
};
use vstd::prelude::*;

verus! {

/// Mathematical model of a [`Point`] or a [`Point2D`]: its three raw coordinates.
pub ghost struct Vec3 {
    pub x: int,
    pub y: int,
    pub z: int,
}

/// The zero vector.
pub open spec fn v3_zero() -> Vec3 {
    Vec3 { x: 0, y: 0, z: 0 }
}

/// Whether all three coordinates are raw values of numbers.
pub open spec fn v3_in_range(v: Vec3) -> bool {
    in_range(v.x) && in_range(v.y) && in_range(v.z)
}

/// Sum, coordinate by coordinate.
pub open spec fn v3_add(a: Vec3, b: Vec3) -> Vec3 {
    Vec3 { x: fx_add(a.x, b.x), y: fx_add(a.y, b.y), z: fx_add(a.z, b.z) }
}

/// Difference, coordinate by coordinate.
pub open spec fn v3_sub(a: Vec3, b: Vec3) -> Vec3 {
    Vec3 { x: fx_sub(a.x, b.x), y: fx_sub(a.y, b.y), z: fx_sub(a.z, b.z) }
}

/// The vector times the raw value `k`.
pub open spec fn v3_scale(a: Vec3, k: int) -> Vec3 {
    Vec3 { x: fx_mul(a.x, k), y: fx_mul(a.y, k), z: fx_mul(a.z, k) }
}

/// Dot product, each product rounded and each sum saturated, left to right.
pub open spec fn v3_dot(a: Vec3, b: Vec3) -> int {
    fx_add(fx_add(fx_mul(a.x, b.x), fx_mul(a.y, b.y)), fx_mul(a.z, b.z))
}

/// Cross product, each product rounded and each difference saturated.
pub open spec fn v3_cross(a: Vec3, b: Vec3) -> Vec3 {
    Vec3 {
        x: fx_sub(fx_mul(a.y, b.z), fx_mul(a.z, b.y)),
        y: fx_sub(fx_mul(a.z, b.x), fx_mul(a.x, b.z)),
        z: fx_sub(fx_mul(a.x, b.y), fx_mul(a.y, b.x)),
    }
}

/// The square of the Euclidean length, exactly, in squares of raw units.
pub open spec fn v3_norm_sq(a: Vec3) -> int {
    a.x * a.x + a.y * a.y + a.z * a.z
}

/// Euclidean length as a number: the integer square root of the exact sum
/// of squares, rounded down to a raw value and held at the largest number.
/// Lengths are compared and divided by through [`v3_norm_sq`] and
/// [`v3_fine_length`], which neither round to a raw value nor saturate.
pub open spec fn v3_magnitude(a: Vec3) -> int {
    clamp(isqrt(v3_norm_sq(a)))
}

/// Euclidean length with sixteen more binary digits than a raw value and
/// without saturation: 65536 times the length in raw units, rounded down.
pub open spec fn v3_fine_length(a: Vec3) -> int {
    isqrt(v3_norm_sq(a) * 0x1_0000_0000)
}

/// The vector scaled to length one: each coordinate divided by the fine
/// length. The zero vector stays as it is.
pub open spec fn v3_normalize(a: Vec3) -> Vec3 {
    if a.x == 0 && a.y == 0 && a.z == 0 {
        a
    } else {
        let m = v3_fine_length(a);
        Vec3 {
            x: clamp(round_div(a.x * 0x1_0000_0000, m)),
            y: clamp(round_div(a.y * 0x1_0000_0000, m)),
            z: clamp(round_div(a.z * 0x1_0000_0000, m)),
        }
    }
}

/// Whether a vector has length one but for rounding: its squared length
/// is no more than three parts in 65536 below one and five above, which
/// holds the length itself within 4 parts in 100000 of one.
pub open spec fn near_unit(a: Vec3) -> bool {
    0x1_0000 * 0x1_0000 - 3 * 0x1_0000 <= v3_norm_sq(a) <= 0x1_0000 * 0x1_0000 + 5 * 0x1_0000
}

/// The length that `max` allows: `max` itself, or zero where it is negative.
pub open spec fn length_limit(max: int) -> int {
    if max < 0 {
        0
    } else {
        max
    }
}

/// The exact length rounded up to a whole raw unit.
pub open spec fn v3_length_ceiling(a: Vec3) -> int {
    isqrt(v3_norm_sq(a) - 1) + 1
}

/// The vector itself where it is no longer than `max`, else the vector
/// scaled down to that length: each coordinate times `max` over the length,
/// with the length rounded up and the quotient towards zero, so that the
/// result is never longer than `max`.
pub open spec fn v3_clamp_length(a: Vec3, max: int) -> Vec3 {
    let m = length_limit(max);
    if v3_norm_sq(a) <= m * m {
        a
    } else {
        let l = v3_length_ceiling(a);
        Vec3 {
            x: clamp(trunc_div(a.x * m, l)),
            y: clamp(trunc_div(a.y * m, l)),
            z: clamp(trunc_div(a.z * m, l)),
        }
    }
}

/// The point with `x` and `y` moved to the nearest whole pixel.
pub open spec fn v3_snap(a: Vec3) -> Vec3 {
    Vec3 { x: fx_round(a.x) * 0x1_0000, y: fx_round(a.y) * 0x1_0000, z: a.z }
}

/// Only the zero vector has length zero.
pub proof fn lemma_magnitude_zero(a: Vec3)
    ensures
        v3_magnitude(a) == 0 <==> a == v3_zero(),
        0 <= v3_magnitude(a),
{
    let n = a.x * a.x + a.y * a.y + a.z * a.z;
    assert(a.x * a.x >= 0 && a.y * a.y >= 0 && a.z * a.z >= 0) by (nonlinear_arith);
    assert(a.x != 0 ==> a.x * a.x >= 1) by (nonlinear_arith);
    assert(a.y != 0 ==> a.y * a.y >= 1) by (nonlinear_arith);
    assert(a.z != 0 ==> a.z * a.z >= 1) by (nonlinear_arith);
    lemma_isqrt_exists(n);
    let r = isqrt(n);
    assert(is_isqrt(n, r));
    if a == v3_zero() {
        assert(n == 0) by (nonlinear_arith)
            requires
                a.x == 0 && a.y == 0 && a.z == 0,
                n == a.x * a.x + a.y * a.y + a.z * a.z,
        ;
        lemma_isqrt_unique(0, 0);
    } else {
        assert(n >= 1);
        if r == 0 {
            assert((r + 1) * (r + 1) == 1) by (nonlinear_arith)
                requires
                    r == 0,
            ;
        }
    }
}

/// The squares of the coordinates are not negative, and their sum is zero
/// for the zero vector only.
pub proof fn lemma_norm_sq_positive(a: Vec3)
    ensures
        a.x * a.x >= 0,
        a.y * a.y >= 0,
        a.z * a.z >= 0,
        v3_norm_sq(a) >= 0,
        !(a.x == 0 && a.y == 0 && a.z == 0) ==> v3_norm_sq(a) >= 1,
{
    assert(a.x * a.x >= 0 && a.y * a.y >= 0 && a.z * a.z >= 0) by (nonlinear_arith);
    assert(a.x != 0 ==> a.x * a.x >= 1) by (nonlinear_arith);
    assert(a.y != 0 ==> a.y * a.y >= 1) by (nonlinear_arith);
    assert(a.z != 0 ==> a.z * a.z >= 1) by (nonlinear_arith);
}

/// The fine length of a vector other than zero is at least 65536, and
/// 65536 times a coordinate is never more than it.
pub proof fn lemma_fine_length_positive(a: Vec3)
    requires
        !(a.x == 0 && a.y == 0 && a.z == 0),
    ensures
        v3_fine_length(a) >= 0x1_0000,
        is_isqrt(v3_norm_sq(a) * 0x1_0000_0000, v3_fine_length(a)),
        0x1_0000 * iabs(a.x) <= v3_fine_length(a),
        0x1_0000 * iabs(a.y) <= v3_fine_length(a),
        0x1_0000 * iabs(a.z) <= v3_fine_length(a),
{
    lemma_norm_sq_positive(a);
    let n = v3_norm_sq(a);
    let big = n * 0x1_0000_0000;
    lemma_isqrt_exists(big);
    let m = isqrt(big);
    assert(0x1_0000 * 0x1_0000 < (m + 1) * (m + 1));
    lemma_square_order(0x1_0000, m + 1);
    lemma_coordinate_below(a.x, n, m);
    lemma_coordinate_below(a.y, n, m);
    lemma_coordinate_below(a.z, n, m);
}

/// Where the square of `x` is at most `n`, 65536 times `x` is at most the
/// integer square root of `n` times the square of 65536.
proof fn lemma_coordinate_below(x: int, n: int, m: int)
    requires
        x * x <= n,
        0 <= m,
        n * 0x1_0000_0000 < (m + 1) * (m + 1),
    ensures
        0x1_0000 * iabs(x) <= m,
{
    let k = 0x1_0000 * iabs(x);
    assert(k * k == 0x1_0000_0000 * (x * x)) by (nonlinear_arith)
        requires
            k == 0x1_0000 * x || k == 0x1_0000 * (-x),
    ;
    assert(k * k < (m + 1) * (m + 1));
    lemma_square_order(k, m + 1);
}

/// What one coordinate gives to the squared length of a normalized
/// vector: with `t` the exact dividend, `r` the rounded quotient by `m`,
/// the square of `r * m` is near the square of `t`.
proof fn lemma_rounded_square(t: int, r: int, m: int)
    requires
        m > 0,
        -m <= 2 * (r * m - t) <= m,
        -(0x1_0000 * m) <= t <= 0x1_0000 * m,
    ensures
        t * t - 0x1_0000 * (m * m) <= (r * r) * (m * m),
        4 * ((r * r) * (m * m)) <= 4 * (t * t) + 4 * (0x1_0000 * (m * m)) + m * m,
        -0x1_0000 <= r <= 0x1_0000,
{
    let e = r * m - t;
    lemma_product_bound(t, 2 * e, 0x1_0000 * m, m);
    lemma_product_bound(2 * e, 2 * e, m, m);
    assert((0x1_0000 * m) * m == 0x1_0000 * (m * m)) by (nonlinear_arith);
    assert(t * (2 * e) == 2 * (t * e)) by (nonlinear_arith);
    assert((2 * e) * (2 * e) == 4 * (e * e)) by (nonlinear_arith);
    assert((r * m) * (r * m) == (r * r) * (m * m)) by (nonlinear_arith);
    assert((r * m) * (r * m) == t * t + 2 * (t * e) + e * e) by (nonlinear_arith)
        requires
            e == r * m - t,
    ;
    assert(e * e >= 0) by (nonlinear_arith);
    assert(-0x1_0000 <= r <= 0x1_0000) by (nonlinear_arith)
        requires
            m > 0,
            -m <= 2 * (r * m - t) <= m,
            -(0x1_0000 * m) <= t <= 0x1_0000 * m,
    {
        if r > 0x1_0000 {
            assert(r * m >= 0x1_0001 * m);
        }
        if r < -0x1_0000 {
            assert(r * m <= -0x1_0001 * m);
        }
    }
}

/// A vector other than zero, however short or long, is normalized to
/// length one but for rounding: see [`near_unit`] for the bound. A number
/// has steps of 1 in 65536, so no tighter bound than about 1 in 100000
/// can hold of a vector of three of them.
pub proof fn lemma_normalize_unit(a: Vec3)
    requires
        !(a.x == 0 && a.y == 0 && a.z == 0),
    ensures
        near_unit(v3_normalize(a)),
        v3_in_range(v3_normalize(a)),
        !(v3_normalize(a).x == 0 && v3_normalize(a).y == 0 && v3_normalize(a).z == 0),
{
    lemma_norm_sq_positive(a);
    lemma_fine_length_positive(a);
    let n = v3_norm_sq(a);
    let big = n * 0x1_0000_0000;
    let m = v3_fine_length(a);
    let tx = a.x * 0x1_0000_0000;
    let ty = a.y * 0x1_0000_0000;
    let tz = a.z * 0x1_0000_0000;
    let rx = round_div(tx, m);
    let ry = round_div(ty, m);
    let rz = round_div(tz, m);
    lemma_round_div_error(tx, m);
    lemma_round_div_error(ty, m);
    lemma_round_div_error(tz, m);
    lemma_rounded_square(tx, rx, m);
    lemma_rounded_square(ty, ry, m);
    lemma_rounded_square(tz, rz, m);
    let r = v3_normalize(a);
    assert(r.x == rx && r.y == ry && r.z == rz);
    let mm = m * m;
    let rr = rx * rx + ry * ry + rz * rz;
    assert(rr == v3_norm_sq(r));
    assert(tx * tx == 0x1_0000_0000_0000_0000 * (a.x * a.x)) by (nonlinear_arith)
        requires
            tx == a.x * 0x1_0000_0000,
    ;
    assert(ty * ty == 0x1_0000_0000_0000_0000 * (a.y * a.y)) by (nonlinear_arith)
        requires
            ty == a.y * 0x1_0000_0000,
    ;
    assert(tz * tz == 0x1_0000_0000_0000_0000 * (a.z * a.z)) by (nonlinear_arith)
        requires
            tz == a.z * 0x1_0000_0000,
    ;
    let tt = tx * tx + ty * ty + tz * tz;
    assert(0x1_0000_0000 * big == 0x1_0000_0000_0000_0000 * n) by (nonlinear_arith)
        requires
            big == n * 0x1_0000_0000,
    ;
    assert(tt == 0x1_0000_0000 * big);
    assert(rr * mm == (rx * rx) * mm + (ry * ry) * mm + (rz * rz) * mm) by (nonlinear_arith)
        requires
            rr == rx * rx + ry * ry + rz * rz,
    ;
    assert(mm <= big);
    assert(big < mm + 2 * m + 1) by (nonlinear_arith)
        requires
            big < (m + 1) * (m + 1),
            mm == m * m,
    ;
    assert(0x1_0000 * m <= mm) by (nonlinear_arith)
        requires
            m >= 0x1_0000,
            mm == m * m,
    ;
    assert(mm >= 1) by (nonlinear_arith)
        requires
            m >= 0x1_0000,
            mm == m * m,
    ;
    // from below
    assert(rr * mm >= (0x1_0000_0000 - 3 * 0x1_0000) * mm) by (nonlinear_arith)
        requires
            rr * mm >= tt - 3 * (0x1_0000 * mm),
            tt == 0x1_0000_0000 * big,
            mm <= big,
    ;
    assert(rr >= 0x1_0000_0000 - 3 * 0x1_0000) by (nonlinear_arith)
        requires
            rr * mm >= (0x1_0000_0000 - 3 * 0x1_0000) * mm,
            mm >= 1,
    ;
    // from above
    assert(4 * (rr * mm) <= (4 * 0x1_0000_0000 + 20 * 0x1_0000 + 3) * mm) by (nonlinear_arith)
        requires
            4 * (rr * mm) <= 4 * tt + 12 * (0x1_0000 * mm) + 3 * mm,
            tt == 0x1_0000_0000 * big,
            big <= mm + 2 * m,
            0x1_0000 * m <= mm,
    ;
    assert(4 * rr <= 4 * 0x1_0000_0000 + 20 * 0x1_0000 + 3) by (nonlinear_arith)
        requires
            4 * (rr * mm) <= (4 * 0x1_0000_0000 + 20 * 0x1_0000 + 3) * mm,
            mm >= 1,
    ;
}

/// Length clamping never leaves a vector longer than the limit.
pub proof fn lemma_clamp_length_bound(a: Vec3, max: int)
    requires
        in_range(max),
    ensures
        v3_norm_sq(v3_clamp_length(a, max)) <= length_limit(max) * length_limit(max),
{
    let m = length_limit(max);
    let n = v3_norm_sq(a);
    lemma_norm_sq_positive(a);
    if n > m * m {
        assert(m * m >= 0) by (nonlinear_arith);
        lemma_isqrt_exists(n - 1);
        let l = v3_length_ceiling(a);
        assert(l * l >= n);
        let qx = trunc_div(a.x * m, l);
        let qy = trunc_div(a.y * m, l);
        let qz = trunc_div(a.z * m, l);
        lemma_shortened_square(a.x, m, l, qx);
        lemma_shortened_square(a.y, m, l, qy);
        lemma_shortened_square(a.z, m, l, qz);
        let r = v3_clamp_length(a, max);
        assert(r.x == qx && r.y == qy && r.z == qz);
        let rr = qx * qx + qy * qy + qz * qz;
        let ll = l * l;
        let mm = m * m;
        assert(rr * ll == (qx * qx) * ll + (qy * qy) * ll + (qz * qz) * ll) by (nonlinear_arith)
            requires
                rr == qx * qx + qy * qy + qz * qz,
        ;
        assert(n * mm == (a.x * a.x) * mm + (a.y * a.y) * mm + (a.z * a.z) * mm)
            by (nonlinear_arith)
            requires
                n == a.x * a.x + a.y * a.y + a.z * a.z,
        ;
        assert(rr <= mm) by (nonlinear_arith)
            requires
                rr * ll <= n * mm,
                n <= ll,
                ll >= 1,
                mm >= 0,
                rr >= 0,
        {
            assert(n * mm <= ll * mm);
            if rr > mm {
                assert(rr * ll >= (mm + 1) * ll);
            }
        }
    }
}

/// What one coordinate gives to the squared length of a shortened vector:
/// with `q` the quotient of `x * m` by `l` towards zero, the square of
/// `q * l` is at most the square of `x * m`.
proof fn lemma_shortened_square(x: int, m: int, l: int, q: int)
    requires
        l >= 1,
        0 <= m <= 0x7fff_0000,
        x * x <= l * l,
        q == trunc_div(x * m, l),
    ensures
        (q * q) * (l * l) <= (x * x) * (m * m),
        q * q >= 0,
        q == clamp(q),
{
    lemma_trunc_div_bound(x * m, l);
    let aq = iabs(q);
    let ax = iabs(x);
    assert(iabs(x * m) == ax * m) by (nonlinear_arith)
        requires
            m >= 0,
            ax == iabs(x),
    ;
    assert(aq * l <= ax * m);
    assert(aq >= 0);
    assert((aq * l) * (aq * l) <= (ax * m) * (ax * m)) by (nonlinear_arith)
        requires
            0 <= aq * l <= ax * m,
    ;
    assert((aq * l) * (aq * l) == (q * q) * (l * l)) by (nonlinear_arith)
        requires
            aq == q || aq == -q,
    ;
    assert((ax * m) * (ax * m) == (x * x) * (m * m)) by (nonlinear_arith)
        requires
            ax == x || ax == -x,
    ;
    assert(q * q >= 0) by (nonlinear_arith);
    assert(ax * ax == x * x) by (nonlinear_arith)
        requires
            ax == x || ax == -x,
    ;
    assert(ax <= l) by {
        if ax > l {
            assert(ax * ax > l * l) by (nonlinear_arith)
                requires
                    ax > l,
                    l >= 1,
            ;
        }
    }
    assert(aq <= m) by (nonlinear_arith)
        requires
            aq * l <= ax * m,
            ax <= l,
            l >= 1,
            m >= 0,
            aq >= 0,
    {
        if aq > m {
            assert(aq * l >= (m + 1) * l);
            assert(ax * m <= l * m);
        }
    }
}

/// A point or a vector in space.
#[derive(Debug, Clone, Copy)]
pub struct Point {
    pub x: Fixed,
    pub y: Fixed,
    pub z: Fixed,
}

impl View for Point {
    type V = Vec3;

    open spec fn view(&self) -> Vec3 {
        Vec3 { x: self.x@, y: self.y@, z: self.z@ }
    }
}

impl DeepView for Point {
    type V = Vec3;

    open spec fn deep_view(&self) -> Vec3 {
        self@
    }
}

/// The point with the given raw coordinates.
pub open spec fn point_of(v: Vec3) -> Point {
    Point { x: Fixed { raw: v.x as i32 }, y: Fixed { raw: v.y as i32 }, z: Fixed { raw: v.z as i32 } }
}

/// The exact sum of the three squares.
fn raw_norm_sq(x: i32, y: i32, z: i32) -> (n: u64)
    requires
        in_range(x as int),
        in_range(y as int),
        in_range(z as int),
    ensures
        n == v3_norm_sq(Vec3 { x: x as int, y: y as int, z: z as int }),
        n <= 3 * (0x7fff_0000 * 0x7fff_0000),
{
    let ax: u64 = if x < 0 {
        (-x) as u64
    } else {
        x as u64
    };
    let ay: u64 = if y < 0 {
        (-y) as u64
    } else {
        y as u64
    };
    let az: u64 = if z < 0 {
        (-z) as u64
    } else {
        z as u64
    };
    assert(ax * ax == x * x && ax * ax <= 0x7fff_0000 * 0x7fff_0000) by (nonlinear_arith)
        requires
            ax == x || ax == -x,
            0 <= ax <= 0x7fff_0000,
    ;
    assert(ay * ay == y * y && ay * ay <= 0x7fff_0000 * 0x7fff_0000) by (nonlinear_arith)
        requires
            ay == y || ay == -y,
            0 <= ay <= 0x7fff_0000,
    ;
    assert(az * az == z * z && az * az <= 0x7fff_0000 * 0x7fff_0000) by (nonlinear_arith)
        requires
            az == z || az == -z,
            0 <= az <= 0x7fff_0000,
    ;
    ax * ax + ay * ay + az * az
}

impl Point {
    /// The point with the given coordinates.
    pub fn new(x: Fixed, y: Fixed, z: Fixed) -> (p: Point)
        ensures
            p@ == (Vec3 { x: x@, y: y@, z: z@ }),
    {
        Point { x, y, z }
    }

    /// Sum, coordinate by coordinate.
    pub fn add(self, other: Point) -> (r: Point)
        ensures
            r@ == v3_add(self@, other@),
    {
        Point { x: self.x.add(other.x), y: self.y.add(other.y), z: self.z.add(other.z) }
    }

    /// Difference, coordinate by coordinate.
    pub fn sub(self, other: Point) -> (r: Point)
        ensures
            r@ == v3_sub(self@, other@),
    {
        Point { x: self.x.sub(other.x), y: self.y.sub(other.y), z: self.z.sub(other.z) }
    }

    /// The vector times the scalar `k`.
    pub fn mul(self, k: Fixed) -> (r: Point)
        ensures
            r@ == v3_scale(self@, k@),
    {
        Point { x: self.x.mul(k), y: self.y.mul(k), z: self.z.mul(k) }
    }

    /// Dot product.
    pub fn dot(self, other: Point) -> (r: Fixed)
        ensures
            r@ == v3_dot(self@, other@),
    {
        self.x.mul(other.x).add(self.y.mul(other.y)).add(self.z.mul(other.z))
    }

    /// Euclidean length, rounded down to a raw value and saturated.
    pub fn magnitude(&self) -> (r: Fixed)
        ensures
            r@ == v3_magnitude(self@),
    {
        let n = raw_norm_sq(self.x.raw(), self.y.raw(), self.z.raw());
        saturate(isqrt_u64(n) as i128)
    }

    /// The vector itself where it is no longer than `max`, else the vector
    /// scaled down to that length; a negative `max` counts as zero. The
    /// result is never longer than `max`: see [`lemma_clamp_length_bound`].
    pub fn clamp_length(&self, max: Fixed) -> (r: Point)
        ensures
            r@ == v3_clamp_length(self@, max@),
    {
        let x = self.x.raw();
        let y = self.y.raw();
        let z = self.z.raw();
        let m: i128 = if max.raw() < 0 {
            0
        } else {
            max.raw() as i128
        };
        let n = raw_norm_sq(x, y, z);
        proof {
            lemma_product_bound(m as int, m as int, 0x7fff_0000, 0x7fff_0000);
        }
        if n as i128 <= m * m {
            return *self;
        }
        let l: i128 = isqrt_u64(n - 1) as i128 + 1;
        proof {
            lemma_product_bound(x as int, m as int, 0x7fff_0000, 0x7fff_0000);
            lemma_product_bound(y as int, m as int, 0x7fff_0000, 0x7fff_0000);
            lemma_product_bound(z as int, m as int, 0x7fff_0000, 0x7fff_0000);
        }
        Point {
            x: saturate(trunc_div_wide(x as i128 * m, l)),
            y: saturate(trunc_div_wide(y as i128 * m, l)),
            z: saturate(trunc_div_wide(z as i128 * m, l)),
        }
    }

    /// The vector scaled to length one, but for rounding: see
    /// [`lemma_normalize_unit`]. The zero vector stays as it is.
    pub fn normalize(self) -> (r: Point)
        ensures
            r@ == v3_normalize(self@),
    {
        let x = self.x.raw();
        let y = self.y.raw();
        let z = self.z.raw();
        if x == 0 && y == 0 && z == 0 {
            return self;
        }
        let n = raw_norm_sq(x, y, z);
        let m: i128 = isqrt_u128(n as u128 * 0x1_0000_0000) as i128;
        proof {
            lemma_fine_length_positive(self@);
        }
        Point {
            x: saturate(round_div_wide(x as i128 * 0x1_0000_0000, m)),
            y: saturate(round_div_wide(y as i128 * 0x1_0000_0000, m)),
            z: saturate(round_div_wide(z as i128 * 0x1_0000_0000, m)),
        }
    }

    /// Cross product.
    pub fn cross(self, other: Point) -> (r: Point)
        ensures
            r@ == v3_cross(self@, other@),
    {
        Point {
            x: self.y.mul(other.z).sub(self.z.mul(other.y)),
            y: self.z.mul(other.x).sub(self.x.mul(other.z)),
            z: self.x.mul(other.y).sub(self.y.mul(other.x)),
        }
    }
}

impl core::ops::Add for Point {
    type Output = Point;

    /// Sum, coordinate by coordinate.
    fn add(self, other: Point) -> (r: Point) {
        Point { x: self.x.add(other.x), y: self.y.add(other.y), z: self.z.add(other.z) }
    }
}

impl vstd::std_specs::ops::AddSpecImpl for Point {
    open spec fn obeys_add_spec() -> bool {
        true
    }

    open spec fn add_req(self, other: Point) -> bool {
        true
    }

    open spec fn add_spec(self, other: Point) -> Point {
        point_of(v3_add(self@, other@))
    }
}

impl core::ops::Sub for Point {
    type Output = Point;

    /// Difference, coordinate by coordinate.
    fn sub(self, other: Point) -> (r: Point) {
        Point { x: self.x.sub(other.x), y: self.y.sub(other.y), z: self.z.sub(other.z) }
    }
}

impl vstd::std_specs::ops::SubSpecImpl for Point {
    open spec fn obeys_sub_spec() -> bool {
        true
    }

    open spec fn sub_req(self, other: Point) -> bool {
        true
    }

    open spec fn sub_spec(self, other: Point) -> Point {
        point_of(v3_sub(self@, other@))
    }
}

impl core::ops::Mul<Fixed> for Point {
    type Output = Point;

    /// The vector times the scalar `k`.
    fn mul(self, k: Fixed) -> (r: Point) {
        Point { x: self.x.mul(k), y: self.y.mul(k), z: self.z.mul(k) }
    }
}

impl vstd::std_specs::ops::MulSpecImpl<Fixed> for Point {
    open spec fn obeys_mul_spec() -> bool {
        true
    }

    open spec fn mul_req(self, k: Fixed) -> bool {
        true
    }

    open spec fn mul_spec(self, k: Fixed) -> Point {
        point_of(v3_scale(self@, k@))
    }
}

/// A point on the screen: `x` and `y` in pixels, `z` its depth.
#[derive(Copy, Clone, Debug)]
pub struct Point2D {
    pub x: Fixed,
    pub y: Fixed,
    pub z: Fixed,
}

impl View for Point2D {
    type V = Vec3;

    open spec fn view(&self) -> Vec3 {
        Vec3 { x: self.x@, y: self.y@, z: self.z@ }
    }
}

impl DeepView for Point2D {
    type V = Vec3;

    open spec fn deep_view(&self) -> Vec3 {
        self@
    }
}

impl PartialEq for Point2D {
    /// Two screen points are equal where their coordinates and depths are.
    fn eq(&self, other: &Point2D) -> (r: bool) {
        self.x.equals(other.x) && self.y.equals(other.y) && self.z.equals(other.z)
    }
}

impl vstd::std_specs::cmp::PartialEqSpecImpl for Point2D {
    open spec fn obeys_eq_spec() -> bool {
        true
    }

    open spec fn eq_spec(&self, other: &Point2D) -> bool {
        self@ == other@
    }
}

impl Point2D {
    /// The screen point with the given coordinates and depth.
    pub fn new(x: Fixed, y: Fixed, z: Fixed) -> (p: Point2D)
        ensures
            p@ == (Vec3 { x: x@, y: y@, z: z@ }),
    {
        Point2D { x, y, z }
    }
}

/// The vector scaled to length one. The zero vector stays as it is.
pub fn normalize(vec: Point) -> (r: Point)
    ensures
        r@ == v3_normalize(vec@),
{
    vec.normalize()
}

/// Cross product.
pub fn cross_product(a: Point, b: Point) -> (r: Point)
    ensures
        r@ == v3_cross(a@, b@),
{
    a.cross(b)
}

/// Dot product.
pub fn dot_product(a: Point, b: Point) -> (r: Fixed)
    ensures
        r@ == v3_dot(a@, b@),
{
    a.dot(b)
}

/// The screen point moved to the nearest whole pixel; its depth stays.
pub fn snap_to_pixel(point: Point2D) -> (r: Point2D)
    ensures
        r@ == v3_snap(point@),
{
    Point2D {
        x: Fixed::from_int(point.x.round()),
        y: Fixed::from_int(point.y.round()),
        z: point.z,
    }
}

} // verus!
