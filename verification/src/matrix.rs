//! 4x4 matrices that transform points.
//!
//! A point is a column `(x, y, z, 1)` and a matrix transforms it by the dot
//! products of its rows with that column, so the fourth column of a matrix
//! carries the translation and the fourth row the perspective weight. The
//! rotations are right-handed: a quarter turn about `z` takes the `x` axis
//! to the `y` axis. In a product the right factor acts first.

use crate::angle::{Angle, Trig};
use crate::fixed::{
    fx_add, fx_div, fx_mul, fx_sub, in_range, lemma_div_unit, lemma_mul_commutes, lemma_mul_neg,
    lemma_mul_unit, lemma_mul_zero, Fixed,
};
use crate::point::{v3_in_range, v3_normalize, Point, Vec3};
use vstd::prelude::*;

verus! {

/// Mathematical model of a [`Matrix4x4`]: four rows of four raw values.
pub type Mat4 = Seq<Seq<int>>;

/// Whether `m` has four rows of four raw values.
pub open spec fn mat_wf(m: Mat4) -> bool {
    &&& m.len() == 4
    &&& forall|i: int| 0 <= i < 4 ==> (#[trigger] m[i]).len() == 4
    &&& forall|i: int, j: int| 0 <= i < 4 && 0 <= j < 4 ==> in_range(#[trigger] m[i][j])
}

/// The matrix that changes nothing.
pub open spec fn mat_identity() -> Mat4 {
    seq![
        seq![0x1_0000, 0, 0, 0],
        seq![0, 0x1_0000, 0, 0],
        seq![0, 0, 0x1_0000, 0],
        seq![0, 0, 0, 0x1_0000],
    ]
}

/// The matrix that moves a point by `(tx, ty, tz)`.
pub open spec fn mat_translate(tx: int, ty: int, tz: int) -> Mat4 {
    seq![
        seq![0x1_0000, 0, 0, tx],
        seq![0, 0x1_0000, 0, ty],
        seq![0, 0, 0x1_0000, tz],
        seq![0, 0, 0, 0x1_0000],
    ]
}

/// The matrix that scales the three coordinates by `sx`, `sy` and `sz`.
pub open spec fn mat_scale(sx: int, sy: int, sz: int) -> Mat4 {
    seq![
        seq![sx, 0, 0, 0],
        seq![0, sy, 0, 0],
        seq![0, 0, sz, 0],
        seq![0, 0, 0, 0x1_0000],
    ]
}

/// The right-handed rotation about the `z` axis.
pub open spec fn mat_rotate_z(a: Trig) -> Mat4 {
    seq![
        seq![a.cos, -a.sin, 0, 0],
        seq![a.sin, a.cos, 0, 0],
        seq![0, 0, 0x1_0000, 0],
        seq![0, 0, 0, 0x1_0000],
    ]
}

/// The right-handed rotation about the `x` axis.
pub open spec fn mat_rotate_x(a: Trig) -> Mat4 {
    seq![
        seq![0x1_0000, 0, 0, 0],
        seq![0, a.cos, -a.sin, 0],
        seq![0, a.sin, a.cos, 0],
        seq![0, 0, 0, 0x1_0000],
    ]
}

/// The right-handed rotation about the `y` axis.
pub open spec fn mat_rotate_y(a: Trig) -> Mat4 {
    seq![
        seq![a.cos, 0, a.sin, 0],
        seq![0, 0x1_0000, 0, 0],
        seq![-a.sin, 0, a.cos, 0],
        seq![0, 0, 0, 0x1_0000],
    ]
}

/// Rodrigues' rotation about `axis`, which is scaled to length one first.
pub open spec fn mat_rotation_around_axis(axis: Vec3, a: Trig) -> Mat4 {
    let n = v3_normalize(axis);
    let (x, y, z) = (n.x, n.y, n.z);
    let c = a.cos;
    let s = a.sin;
    let t = fx_sub(0x1_0000, c);
    seq![
        seq![
            fx_add(c, fx_mul(fx_mul(x, x), t)),
            fx_sub(fx_mul(fx_mul(x, y), t), fx_mul(z, s)),
            fx_add(fx_mul(fx_mul(x, z), t), fx_mul(y, s)),
            0,
        ],
        seq![
            fx_add(fx_mul(fx_mul(y, x), t), fx_mul(z, s)),
            fx_add(c, fx_mul(fx_mul(y, y), t)),
            fx_sub(fx_mul(fx_mul(y, z), t), fx_mul(x, s)),
            0,
        ],
        seq![
            fx_sub(fx_mul(fx_mul(z, x), t), fx_mul(y, s)),
            fx_add(fx_mul(fx_mul(z, y), t), fx_mul(x, s)),
            fx_add(c, fx_mul(fx_mul(z, z), t)),
            0,
        ],
        seq![0, 0, 0, 0x1_0000],
    ]
}

/// Row `i` of `a` times column `j` of `b`, summed left to right.
pub open spec fn mat_mul_entry(a: Mat4, b: Mat4, i: int, j: int) -> int {
    fx_add(
        fx_add(fx_add(fx_mul(a[i][0], b[0][j]), fx_mul(a[i][1], b[1][j])), fx_mul(a[i][2], b[2][j])),
        fx_mul(a[i][3], b[3][j]),
    )
}

/// The product of two matrices: rows of `a` times columns of `b`.
pub open spec fn mat_mul(a: Mat4, b: Mat4) -> Mat4 {
    Seq::new(4, |i: int| Seq::new(4, |j: int| mat_mul_entry(a, b, i, j)))
}

/// Row `i` of `m` times the column `(p, 1)`, summed left to right.
pub open spec fn mat_row(m: Mat4, p: Vec3, i: int) -> int {
    fx_add(fx_add(fx_add(fx_mul(m[i][0], p.x), fx_mul(m[i][1], p.y)), fx_mul(m[i][2], p.z)), m[i][3])
}

/// The general transform of a point: the first three rows times the
/// point, divided by the fourth wherever that is not zero.
pub open spec fn mat_apply(m: Mat4, p: Vec3) -> Vec3 {
    let x = mat_row(m, p, 0);
    let y = mat_row(m, p, 1);
    let z = mat_row(m, p, 2);
    let w = mat_row(m, p, 3);
    if w != 0 {
        Vec3 { x: fx_div(x, w), y: fx_div(y, w), z: fx_div(z, w) }
    } else {
        Vec3 { x, y, z }
    }
}

/// The affine transform of a point: the first three rows times the point,
/// the fourth ignored.
pub open spec fn mat_apply_affine(m: Mat4, p: Vec3) -> Vec3 {
    Vec3 { x: mat_row(m, p, 0), y: mat_row(m, p, 1), z: mat_row(m, p, 2) }
}

/// Whether the fourth row is `(0, 0, 0, 1)`, as in every product of
/// translations, rotations and scalings.
pub open spec fn mat_is_affine(m: Mat4) -> bool {
    m[3][0] == 0 && m[3][1] == 0 && m[3][2] == 0 && m[3][3] == 0x1_0000
}

/// Multiplying by the identity from the right changes no matrix.
pub proof fn lemma_multiply_identity(m: Mat4)
    requires
        mat_wf(m),
    ensures
        mat_mul(m, mat_identity()) == m,
{
    let p = mat_mul(m, mat_identity());
    assert forall|i: int| 0 <= i < 4 implies #[trigger] p[i] == m[i] by {
        lemma_mul_unit(m[i][0]);
        lemma_mul_unit(m[i][1]);
        lemma_mul_unit(m[i][2]);
        lemma_mul_unit(m[i][3]);
        assert(p[i] =~= m[i]);
    }
    assert(p =~= m);
}

/// Multiplying by the identity from the left changes no matrix.
pub proof fn lemma_identity_multiply(m: Mat4)
    requires
        mat_wf(m),
    ensures
        mat_mul(mat_identity(), m) == m,
{
    let p = mat_mul(mat_identity(), m);
    assert forall|i: int| 0 <= i < 4 implies #[trigger] p[i] == m[i] by {
        assert forall|j: int| 0 <= j < 4 implies #[trigger] p[i][j] == m[i][j] by {
            lemma_mul_unit(m[0][j]);
            lemma_mul_unit(m[1][j]);
            lemma_mul_unit(m[2][j]);
            lemma_mul_unit(m[3][j]);
        }
        assert(p[i] =~= m[i]);
    }
    assert(p =~= m);
}

/// The identity moves no point, in either transform.
pub proof fn lemma_identity_point(p: Vec3)
    requires
        v3_in_range(p),
    ensures
        mat_apply(mat_identity(), p) == p,
        mat_apply_affine(mat_identity(), p) == p,
{
    lemma_mul_unit(p.x);
    lemma_mul_unit(p.y);
    lemma_mul_unit(p.z);
    lemma_div_unit(p.x);
    lemma_div_unit(p.y);
    lemma_div_unit(p.z);
}

/// A translation adds its offset to a point.
pub proof fn lemma_translate_point(tx: int, ty: int, tz: int, p: Vec3)
    requires
        v3_in_range(p),
        in_range(tx),
        in_range(ty),
        in_range(tz),
    ensures
        mat_apply(mat_translate(tx, ty, tz), p) == (Vec3 {
            x: fx_add(p.x, tx),
            y: fx_add(p.y, ty),
            z: fx_add(p.z, tz),
        }),
{
    lemma_mul_unit(p.x);
    lemma_mul_unit(p.y);
    lemma_mul_unit(p.z);
    lemma_div_unit(fx_add(p.x, tx));
    lemma_div_unit(fx_add(p.y, ty));
    lemma_div_unit(fx_add(p.z, tz));
}

/// A rotation about `z` takes the `x` axis to the direction of its angle.
pub proof fn lemma_rotate_z_turns_x_axis(a: Trig)
    requires
        in_range(a.cos),
        in_range(a.sin),
    ensures
        mat_apply(mat_rotate_z(a), Vec3 { x: 0x1_0000, y: 0, z: 0 }) == (Vec3 {
            x: a.cos,
            y: a.sin,
            z: 0,
        }),
{
    lemma_mul_unit(a.cos);
    lemma_mul_unit(a.sin);
    lemma_mul_unit(0);
    lemma_mul_zero(-a.sin);
    lemma_mul_zero(a.cos);
    lemma_mul_zero(0x1_0000);
    lemma_div_unit(a.cos);
    lemma_div_unit(a.sin);
    lemma_div_unit(0);
}

/// A rotation about `x` takes the `y` axis to the direction of its angle.
pub proof fn lemma_rotate_x_turns_y_axis(a: Trig)
    requires
        in_range(a.cos),
        in_range(a.sin),
    ensures
        mat_apply(mat_rotate_x(a), Vec3 { x: 0, y: 0x1_0000, z: 0 }) == (Vec3 {
            x: 0,
            y: a.cos,
            z: a.sin,
        }),
{
    lemma_mul_unit(a.cos);
    lemma_mul_unit(a.sin);
    lemma_mul_unit(0);
    lemma_mul_zero(-a.sin);
    lemma_mul_zero(a.cos);
    lemma_mul_zero(0x1_0000);
    lemma_div_unit(a.cos);
    lemma_div_unit(a.sin);
    lemma_div_unit(0);
}

/// A rotation about `y` takes the `z` axis to the direction of its angle.
pub proof fn lemma_rotate_y_turns_z_axis(a: Trig)
    requires
        in_range(a.cos),
        in_range(a.sin),
    ensures
        mat_apply(mat_rotate_y(a), Vec3 { x: 0, y: 0, z: 0x1_0000 }) == (Vec3 {
            x: a.sin,
            y: 0,
            z: a.cos,
        }),
{
    lemma_mul_unit(a.cos);
    lemma_mul_unit(a.sin);
    lemma_mul_unit(0);
    lemma_mul_zero(-a.sin);
    lemma_mul_zero(a.cos);
    lemma_mul_zero(0x1_0000);
    lemma_div_unit(a.cos);
    lemma_div_unit(a.sin);
    lemma_div_unit(0);
}

/// How far the cosine and sine of an angle are from a point on the unit
/// circle: the raw value of `cos * cos + sin * sin`, which is one for an
/// exact angle.
pub open spec fn unit_defect(a: Trig) -> int {
    fx_add(fx_mul(a.cos, a.cos), fx_mul(a.sin, a.sin))
}

/// A rotation about `x` followed by the rotation the other way round is
/// the identity but for `cos * cos + sin * sin` in place of one: nothing
/// is lost but what the cosine and the sine themselves lack.
pub proof fn lemma_rotate_x_round_trip(a: Trig)
    requires
        in_range(a.cos),
        in_range(a.sin),
    ensures
        mat_mul(mat_rotate_x(a), mat_rotate_x(Trig { cos: a.cos, sin: -a.sin })) == seq![
            seq![0x1_0000, 0, 0, 0],
            seq![0, unit_defect(a), 0, 0],
            seq![0, 0, unit_defect(a), 0],
            seq![0, 0, 0, 0x1_0000],
        ],
{
    let c = a.cos;
    let s = a.sin;
    let there = mat_rotate_x(a);
    let back = mat_rotate_x(Trig { cos: c, sin: -s });
    let product = mat_mul(there, back);
    let expected = seq![
        seq![0x1_0000, 0, 0, 0],
        seq![0, unit_defect(a), 0, 0],
        seq![0, 0, unit_defect(a), 0],
        seq![0, 0, 0, 0x1_0000],
    ];
    lemma_mul_unit(0x1_0000);
    lemma_mul_unit(0);
    lemma_mul_unit(c);
    lemma_mul_unit(s);
    lemma_mul_unit(-s);
    lemma_mul_zero(c);
    lemma_mul_zero(s);
    lemma_mul_zero(-s);
    lemma_mul_zero(0x1_0000);
    lemma_mul_neg(c, s);
    lemma_mul_neg(s, c);
    lemma_mul_neg(s, s);
    lemma_mul_neg(-s, s);
    lemma_mul_commutes(c, s);
    assert(fx_mul(-s, -s) == fx_mul(s, s));
    assert(product[0] =~= expected[0]);
    assert(product[1] =~= expected[1]);
    assert(product[2] =~= expected[2]);
    assert(product[3] =~= expected[3]);
    assert(product =~= expected);
}

/// On a matrix without perspective the two transforms agree.
pub proof fn lemma_affine_agrees(m: Mat4, p: Vec3)
    requires
        mat_wf(m),
        mat_is_affine(m),
        v3_in_range(p),
    ensures
        mat_apply(m, p) == mat_apply_affine(m, p),
{
    lemma_mul_unit(p.x);
    lemma_mul_unit(p.y);
    lemma_mul_unit(p.z);
    lemma_div_unit(mat_row(m, p, 0));
    lemma_div_unit(mat_row(m, p, 1));
    lemma_div_unit(mat_row(m, p, 2));
}

/// The raw values of one row.
pub open spec fn row_view(r: [Fixed; 4]) -> Seq<int> {
    Seq::new(4, |j: int| r[j]@)
}

/// A 4x4 matrix, row by row.
#[derive(Debug, Clone, Copy)]
pub struct Matrix4x4 {
    pub data: [[Fixed; 4]; 4],
}

impl View for Matrix4x4 {
    type V = Mat4;

    open spec fn view(&self) -> Mat4 {
        Seq::new(4, |i: int| row_view(self.data[i]))
    }
}

impl Matrix4x4 {
    /// The matrix with the given rows.
    fn from_rows(r0: [Fixed; 4], r1: [Fixed; 4], r2: [Fixed; 4], r3: [Fixed; 4]) -> (m: Matrix4x4)
        ensures
            m@ == seq![
                seq![r0[0]@, r0[1]@, r0[2]@, r0[3]@],
                seq![r1[0]@, r1[1]@, r1[2]@, r1[3]@],
                seq![r2[0]@, r2[1]@, r2[2]@, r2[3]@],
                seq![r3[0]@, r3[1]@, r3[2]@, r3[3]@],
            ],
            mat_wf(m@),
    {
        let m = Matrix4x4 { data: [r0, r1, r2, r3] };
        proof {
            let s = seq![
                seq![r0[0]@, r0[1]@, r0[2]@, r0[3]@],
                seq![r1[0]@, r1[1]@, r1[2]@, r1[3]@],
                seq![r2[0]@, r2[1]@, r2[2]@, r2[3]@],
                seq![r3[0]@, r3[1]@, r3[2]@, r3[3]@],
            ];
            assert(m@.len() == 4);
            assert forall|i: int| 0 <= i < 4 implies #[trigger] m@[i] == s[i] by {
                assert(m@[i] =~= s[i]);
            }
            assert(m@ =~= s);
        }
        m
    }

    /// The matrix that changes nothing.
    pub fn identity() -> (m: Matrix4x4)
        ensures
            m@ == mat_identity(),
    {
        let o = Fixed::one();
        let z = Fixed::zero();
        Matrix4x4::from_rows([o, z, z, z], [z, o, z, z], [z, z, o, z], [z, z, z, o])
    }

    /// The right-handed rotation by `angle` about `axis`, by the formula of
    /// Rodrigues. The axis is scaled to length one first; a zero axis stays zero.
    pub fn rotation_around_axis(axis: Point, angle: Angle) -> (m: Matrix4x4)
        ensures
            m@ == mat_rotation_around_axis(axis@, angle@),
    {
        let normalized_axis = axis.normalize();
        let x = normalized_axis.x;
        let y = normalized_axis.y;
        let z = normalized_axis.z;

        let cos_theta = angle.cos;
        let sin_theta = angle.sin;
        let one_minus_cos = Fixed::one().sub(cos_theta);
        let zero = Fixed::zero();

        Matrix4x4::from_rows(
            [
                cos_theta.add(x.mul(x).mul(one_minus_cos)),
                x.mul(y).mul(one_minus_cos).sub(z.mul(sin_theta)),
                x.mul(z).mul(one_minus_cos).add(y.mul(sin_theta)),
                zero,
            ],
            [
                y.mul(x).mul(one_minus_cos).add(z.mul(sin_theta)),
                cos_theta.add(y.mul(y).mul(one_minus_cos)),
                y.mul(z).mul(one_minus_cos).sub(x.mul(sin_theta)),
                zero,
            ],
            [
                z.mul(x).mul(one_minus_cos).sub(y.mul(sin_theta)),
                z.mul(y).mul(one_minus_cos).add(x.mul(sin_theta)),
                cos_theta.add(z.mul(z).mul(one_minus_cos)),
                zero,
            ],
            [zero, zero, zero, Fixed::one()],
        )
    }

    /// Row `i` times the column `(point, 1)`.
    fn row(&self, point: &Point, i: usize) -> (r: Fixed)
        requires
            i < 4,
        ensures
            r@ == mat_row(self@, point@, i as int),
    {
        self.data[i][0].mul(point.x).add(self.data[i][1].mul(point.y)).add(
            self.data[i][2].mul(point.z),
        ).add(self.data[i][3])
    }

    /// The general transform, for any matrix: divides by the perspective
    /// weight wherever that is not zero.
    pub fn multiply_point(&self, point: &Point) -> (r: Point)
        ensures
            r@ == mat_apply(self@, point@),
    {
        let x = self.row(point, 0);
        let y = self.row(point, 1);
        let z = self.row(point, 2);
        let w = self.row(point, 3);

        if !w.is_zero() {
            Point { x: x.div(w), y: y.div(w), z: z.div(w) }
        } else {
            Point { x, y, z }
        }
    }

    /// The affine transform, for matrices without perspective: the
    /// perspective weight is taken to be one and never computed.
    pub fn multiply_point_affine(&self, point: &Point) -> (r: Point)
        ensures
            r@ == mat_apply_affine(self@, point@),
    {
        Point { x: self.row(point, 0), y: self.row(point, 1), z: self.row(point, 2) }
    }

    /// Row `i` of `self` times column `j` of `other`.
    fn row_times_column(&self, other: &Matrix4x4, i: usize, j: usize) -> (r: Fixed)
        requires
            i < 4,
            j < 4,
        ensures
            r@ == mat_mul_entry(self@, other@, i as int, j as int),
    {
        self.data[i][0].mul(other.data[0][j]).add(self.data[i][1].mul(other.data[1][j])).add(
            self.data[i][2].mul(other.data[2][j]),
        ).add(self.data[i][3].mul(other.data[3][j]))
    }

    /// Row `i` of the product.
    fn product_row(&self, other: &Matrix4x4, i: usize) -> (r: [Fixed; 4])
        requires
            i < 4,
        ensures
            row_view(r) == mat_mul(self@, other@)[i as int],
    {
        let r = [
            self.row_times_column(other, i, 0),
            self.row_times_column(other, i, 1),
            self.row_times_column(other, i, 2),
            self.row_times_column(other, i, 3),
        ];
        assert(row_view(r) =~= mat_mul(self@, other@)[i as int]);
        r
    }

    /// The product `self * other`: as a transform, `other` first and then `self`.
    pub fn multiply(&self, other: &Matrix4x4) -> (r: Matrix4x4)
        ensures
            r@ == mat_mul(self@, other@),
    {
        let r0 = self.product_row(other, 0);
        let r1 = self.product_row(other, 1);
        let r2 = self.product_row(other, 2);
        let r3 = self.product_row(other, 3);
        let r = Matrix4x4 { data: [r0, r1, r2, r3] };
        proof {
            let p = mat_mul(self@, other@);
            assert(r@[0] == p[0]);
            assert(r@[1] == p[1]);
            assert(r@[2] == p[2]);
            assert(r@[3] == p[3]);
            assert(r@ =~= p);
        }
        r
    }

    /// The matrix that moves a point by `(tx, ty, tz)`.
    pub fn translate(tx: Fixed, ty: Fixed, tz: Fixed) -> (m: Matrix4x4)
        ensures
            m@ == mat_translate(tx@, ty@, tz@),
    {
        let o = Fixed::one();
        let z = Fixed::zero();
        Matrix4x4::from_rows([o, z, z, tx], [z, o, z, ty], [z, z, o, tz], [z, z, z, o])
    }

    /// The matrix that scales the three coordinates by `sx`, `sy` and `sz`.
    pub fn scale(sx: Fixed, sy: Fixed, sz: Fixed) -> (m: Matrix4x4)
        ensures
            m@ == mat_scale(sx@, sy@, sz@),
    {
        let o = Fixed::one();
        let z = Fixed::zero();
        Matrix4x4::from_rows([sx, z, z, z], [z, sy, z, z], [z, z, sz, z], [z, z, z, o])
    }

    /// The right-handed rotation about the `z` axis: it takes `x` towards `y`.
    pub fn rotate_z(angle: Angle) -> (m: Matrix4x4)
        ensures
            m@ == mat_rotate_z(angle@),
    {
        let o = Fixed::one();
        let z = Fixed::zero();
        let c = angle.cos;
        let s = angle.sin;
        Matrix4x4::from_rows([c, s.neg(), z, z], [s, c, z, z], [z, z, o, z], [z, z, z, o])
    }

    /// The right-handed rotation about the `x` axis: it takes `y` towards `z`.
    pub fn rotate_x(angle: Angle) -> (m: Matrix4x4)
        ensures
            m@ == mat_rotate_x(angle@),
    {
        let o = Fixed::one();
        let z = Fixed::zero();
        let c = angle.cos;
        let s = angle.sin;
        Matrix4x4::from_rows([o, z, z, z], [z, c, s.neg(), z], [z, s, c, z], [z, z, z, o])
    }

    /// The right-handed rotation about the `y` axis: it takes `z` towards `x`.
    pub fn rotate_y(angle: Angle) -> (m: Matrix4x4)
        ensures
            m@ == mat_rotate_y(angle@),
    {
        let o = Fixed::one();
        let z = Fixed::zero();
        let c = angle.cos;
        let s = angle.sin;
        Matrix4x4::from_rows([c, z, s, z], [z, o, z, z], [s.neg(), z, c, z], [z, z, z, o])
    }
}

} // verus!
