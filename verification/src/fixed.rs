//! Saturating 16.16 fixed-point numbers.
//!
//! A [`Fixed`] stands for `raw / 65536`. Its view is the raw value as an
//! `int`, held to the symmetric range `-RAW_MAX ..= RAW_MAX`, which is closed
//! under negation and under rounding to a whole number. Every operation
//! computes the exact result, rounds it to the nearest raw value (ties away
//! from zero) and saturates at the ends of the range.

use vstd::prelude::*;

verus! {

/// Raw value of the number one.
pub const RAW_ONE: i32 = 0x1_0000;

/// Largest raw value: the number 32767.
pub const RAW_MAX: i32 = 0x7fff_0000;

/// Whether `v` is the raw value of some number.
pub open spec fn in_range(v: int) -> bool {
    -0x7fff_0000 <= v <= 0x7fff_0000
}

/// The raw value nearest to `v`.
pub open spec fn clamp(v: int) -> int {
    if v > 0x7fff_0000 {
        0x7fff_0000
    } else if v < -0x7fff_0000 {
        -0x7fff_0000
    } else {
        v
    }
}

/// Absolute value of an integer.
pub open spec fn iabs(v: int) -> int {
    if v < 0 {
        -v
    } else {
        v
    }
}

/// `n / d` rounded to the nearest integer, ties away from zero (`d != 0`).
pub open spec fn round_div(n: int, d: int) -> int {
    let q = (2 * iabs(n) + iabs(d)) / (2 * iabs(d));
    if (n < 0) != (d < 0) {
        -q
    } else {
        q
    }
}

/// Whether `r` is the integer square root of `n`.
pub open spec fn is_isqrt(n: int, r: int) -> bool {
    0 <= r && r * r <= n < (r + 1) * (r + 1)
}

/// The integer square root of `n`: the `r >= 0` with `r * r <= n < (r + 1) * (r + 1)`.
pub open spec fn isqrt(n: int) -> int {
    choose|r: int| is_isqrt(n, r)
}

/// Sum of two raw values, saturated.
pub open spec fn fx_add(a: int, b: int) -> int {
    clamp(a + b)
}

/// Difference of two raw values, saturated.
pub open spec fn fx_sub(a: int, b: int) -> int {
    clamp(a - b)
}

/// The raw value of the opposite number.
pub open spec fn fx_neg(a: int) -> int {
    clamp(-a)
}

/// The raw value of the absolute value.
pub open spec fn fx_abs(a: int) -> int {
    clamp(iabs(a))
}

/// Product of two raw values, rounded to the nearest raw value and saturated.
pub open spec fn fx_mul(a: int, b: int) -> int {
    clamp(round_div(a * b, 0x1_0000))
}

/// Quotient of two raw values. Dividing by zero saturates towards the sign of
/// the dividend, and zero by zero is zero.
pub open spec fn fx_div(a: int, b: int) -> int {
    if b != 0 {
        clamp(round_div(a * 0x1_0000, b))
    } else if a > 0 {
        0x7fff_0000
    } else if a < 0 {
        -0x7fff_0000
    } else {
        0
    }
}

/// Square root of a raw value; zero for a negative one.
pub open spec fn fx_sqrt(a: int) -> int {
    if a <= 0 {
        0
    } else {
        isqrt(a * 0x1_0000)
    }
}

/// The smaller of two raw values.
pub open spec fn fx_min(a: int, b: int) -> int {
    if a <= b {
        a
    } else {
        b
    }
}

/// The larger of two raw values.
pub open spec fn fx_max(a: int, b: int) -> int {
    if a >= b {
        a
    } else {
        b
    }
}

/// Raw value of the whole number `n`.
pub open spec fn fx_from_int(n: int) -> int {
    clamp(n * 0x1_0000)
}

/// Raw value of the fraction `num / den` (`den != 0`).
pub open spec fn fx_from_ratio(num: int, den: int) -> int {
    clamp(round_div(num * 0x1_0000, den))
}

/// The whole number nearest to a raw value, ties away from zero.
pub open spec fn fx_round(a: int) -> int {
    round_div(a, 0x1_0000)
}

/// The integer square root is unique.
pub proof fn lemma_isqrt_unique(n: int, r: int)
    requires
        is_isqrt(n, r),
    ensures
        isqrt(n) == r,
{
    let s = isqrt(n);
    assert(is_isqrt(n, s));
    assert(s == r) by (nonlinear_arith)
        requires
            0 <= r,
            r * r <= n < (r + 1) * (r + 1),
            0 <= s,
            s * s <= n < (s + 1) * (s + 1),
    {
        if s < r {
            assert((s + 1) * (s + 1) <= r * r);
        }
        if r < s {
            assert((r + 1) * (r + 1) <= s * s);
        }
    }
}

/// Every natural number has an integer square root.
pub proof fn lemma_isqrt_exists(n: int)
    requires
        n >= 0,
    ensures
        is_isqrt(n, isqrt(n)),
    decreases n,
{
    if n == 0 {
        assert(is_isqrt(0, 0));
    } else {
        lemma_isqrt_exists(n - 1);
        let r = isqrt(n - 1);
        if (r + 1) * (r + 1) <= n {
            assert(is_isqrt(n, r + 1)) by (nonlinear_arith)
                requires
                    0 <= r,
                    (r + 1) * (r + 1) <= n,
                    n - 1 < (r + 1) * (r + 1),
            ;
        } else {
            assert(is_isqrt(n, r));
        }
    }
}

/// `n / d` rounded towards zero (`d > 0`).
pub open spec fn trunc_div(n: int, d: int) -> int {
    if n < 0 {
        -((-n) / d)
    } else {
        n / d
    }
}

/// A rounded quotient is off by half the divisor at most.
pub proof fn lemma_round_div_error(n: int, d: int)
    requires
        d > 0,
    ensures
        -d <= 2 * (round_div(n, d) * d - n) <= d,
{
    let an = iabs(n);
    let x = 2 * an + d;
    let k = x / (2 * d);
    vstd::arithmetic::div_mod::lemma_fundamental_div_mod(x, 2 * d);
    vstd::arithmetic::div_mod::lemma_mod_bound(x, 2 * d);
    let r = x % (2 * d);
    assert((2 * d) * k == 2 * (k * d)) by (nonlinear_arith);
    assert((-k) * d == -(k * d)) by (nonlinear_arith);
}

/// A quotient rounded towards zero, times the divisor, is no further from
/// zero than the dividend.
pub proof fn lemma_trunc_div_bound(n: int, d: int)
    requires
        d > 0,
    ensures
        iabs(trunc_div(n, d)) * d <= iabs(n),
        iabs(trunc_div(n, d)) == iabs(n) / d,
{
    let an = iabs(n);
    vstd::arithmetic::div_mod::lemma_fundamental_div_mod(an, d);
    vstd::arithmetic::div_mod::lemma_mod_bound(an, d);
    assert(d * (an / d) == (an / d) * d) by (nonlinear_arith);
    assert(an / d >= 0) by (nonlinear_arith)
        requires
            an >= 0,
            d > 0,
    ;
}

/// The smaller of two numbers that are not negative has the smaller square.
pub proof fn lemma_square_order(a: int, b: int)
    by (nonlinear_arith)
    requires
        0 <= a,
        0 <= b,
        a * a < b * b,
    ensures
        a < b,
{
}

/// Rounded division is odd in its dividend.
pub proof fn lemma_round_div_neg(n: int, d: int)
    requires
        d != 0,
    ensures
        round_div(-n, d) == -round_div(n, d),
{
    if n == 0 {
        let a = iabs(d);
        assert((2 * 0 + a) / (2 * a) == 0) by (nonlinear_arith)
            requires
                a > 0,
        ;
    }
}

/// Dividing a multiple of the divisor is exact.
pub proof fn lemma_round_div_exact(m: int, d: int)
    requires
        d > 0,
    ensures
        round_div(m * d, d) == m,
{
    let a = iabs(m);
    assert(iabs(m * d) == a * d) by (nonlinear_arith)
        requires
            d > 0,
            a == iabs(m),
    ;
    assert((2 * (a * d) + d) / (2 * d) == a) by (nonlinear_arith)
        requires
            d > 0,
            a >= 0,
    {
        assert(2 * (a * d) + d == a * (2 * d) + d);
        assert(0 <= d < 2 * d);
        vstd::arithmetic::div_mod::lemma_fundamental_div_mod_converse(
            2 * (a * d) + d,
            2 * d,
            a,
            d,
        );
    }
    assert((m * d < 0) == (m < 0)) by (nonlinear_arith)
        requires
            d > 0,
    ;
}

/// Clamping is odd, so the range is closed under negation.
pub proof fn lemma_clamp_neg(v: int)
    ensures
        clamp(-v) == -clamp(v),
        in_range(clamp(v)),
{
}

/// Products of raw values are odd in each factor.
pub proof fn lemma_mul_neg(a: int, b: int)
    ensures
        fx_mul(-a, b) == -fx_mul(a, b),
        fx_mul(a, -b) == -fx_mul(a, b),
{
    assert((-a) * b == -(a * b)) by (nonlinear_arith);
    assert(a * (-b) == -(a * b)) by (nonlinear_arith);
    lemma_round_div_neg(a * b, 0x1_0000);
}

/// The product of raw values does not depend on the order of its factors.
pub proof fn lemma_mul_commutes(a: int, b: int)
    ensures
        fx_mul(a, b) == fx_mul(b, a),
{
    assert(a * b == b * a) by (nonlinear_arith);
}

/// One is the unit and zero annihilates.
pub proof fn lemma_mul_unit(a: int)
    requires
        in_range(a),
    ensures
        fx_mul(a, 0x1_0000) == a,
        fx_mul(0x1_0000, a) == a,
        fx_mul(a, 0) == 0,
        fx_mul(0, a) == 0,
{
    lemma_round_div_exact(a, 0x1_0000);
    lemma_round_div_exact(0, 0x1_0000);
    assert(0x1_0000 * a == a * 0x1_0000);
    assert(a * 0 == 0 * 0x1_0000);
    assert(0 * a == 0 * 0x1_0000);
}

/// A product is bounded by the product of the bounds of its factors.
pub proof fn lemma_product_bound(a: int, b: int, m: int, n: int)
    by (nonlinear_arith)
    requires
        -m <= a <= m,
        -n <= b <= n,
    ensures
        -(m * n) <= a * b <= m * n,
{
}

/// Zero times anything is zero.
pub proof fn lemma_mul_zero(a: int)
    ensures
        fx_mul(a, 0) == 0,
        fx_mul(0, a) == 0,
{
    lemma_round_div_exact(0, 0x1_0000);
    assert(a * 0 == 0 * 0x1_0000);
    assert(0 * a == 0 * 0x1_0000);
}

/// Dividing by one changes nothing.
pub proof fn lemma_div_unit(a: int)
    requires
        in_range(a),
    ensures
        fx_div(a, 0x1_0000) == a,
{
    lemma_round_div_exact(a, 0x1_0000);
}

/// A 16.16 fixed-point number.
#[derive(Clone, Copy, Debug)]
pub struct Fixed {
    /// The number times 65536. A value outside `-RAW_MAX ..= RAW_MAX` is read
    /// as the nearest end of that range.
    pub raw: i32,
}

impl View for Fixed {
    type V = int;

    open spec fn view(&self) -> int {
        clamp(self.raw as int)
    }
}

impl DeepView for Fixed {
    type V = int;

    open spec fn deep_view(&self) -> int {
        self@
    }
}

/// The raw value nearest to a wide integer.
pub fn saturate(v: i128) -> (r: Fixed)
    ensures
        r@ == clamp(v as int),
        r.raw == clamp(v as int),
{
    if v > 0x7fff_0000 {
        Fixed { raw: 0x7fff_0000 }
    } else if v < -0x7fff_0000 {
        Fixed { raw: -0x7fff_0000 }
    } else {
        Fixed { raw: v as i32 }
    }
}

/// Rounded division of wide integers.
pub fn round_div_wide(n: i128, d: i128) -> (q: i128)
    requires
        d != 0,
        -0x100_0000_0000_0000_0000_0000_0000_0000 <= n <= 0x100_0000_0000_0000_0000_0000_0000_0000,
        -0x100_0000_0000_0000_0000_0000_0000_0000 <= d <= 0x100_0000_0000_0000_0000_0000_0000_0000,
    ensures
        q == round_div(n as int, d as int),
        iabs(q as int) <= iabs(n as int) + 1,
{
    let an: i128 = if n < 0 {
        -n
    } else {
        n
    };
    let ad: i128 = if d < 0 {
        -d
    } else {
        d
    };
    let q: i128 = (2 * an + ad) / (2 * ad);
    assert(q <= 2 * an + ad) by (nonlinear_arith)
        requires
            q == (2 * an + ad) / (2 * ad),
            an >= 0,
            ad >= 1,
    ;
    assert(q <= an + 1) by (nonlinear_arith)
        requires
            q == (2 * an + ad) / (2 * ad),
            an >= 0,
            ad >= 1,
    {
        assert((2 * an + ad) < (an + 1) * (2 * ad) + 1);
        vstd::arithmetic::div_mod::lemma_div_is_ordered(
            2 * an + ad,
            (an + 1) * (2 * ad),
            2 * ad,
        );
        vstd::arithmetic::div_mod::lemma_div_multiples_vanish(an + 1, 2 * ad);
    }
    if (n < 0) != (d < 0) {
        -q
    } else {
        q
    }
}

/// Integer square root by bisection.
pub fn isqrt_u64(n: u64) -> (r: u64)
    ensures
        r == isqrt(n as int),
        is_isqrt(n as int, r as int),
        r < 0x1_0000_0000,
{
    let mut lo: u64 = 0;
    let mut hi: u64 = 0x1_0000_0000;
    assert(0x1_0000_0000 * 0x1_0000_0000 > n) by (nonlinear_arith)
        requires
            n <= 0xffff_ffff_ffff_ffff,
    ;
    while hi - lo > 1
        invariant
            lo < hi <= 0x1_0000_0000,
            lo * lo <= n,
            n < hi * hi,
        decreases hi - lo,
    {
        let mid: u64 = lo + (hi - lo) / 2;
        assert(mid * mid <= 0xffff_ffff * 0xffff_ffff) by (nonlinear_arith)
            requires
                0 <= mid <= 0xffff_ffff,
        ;
        if mid * mid <= n {
            lo = mid;
        } else {
            hi = mid;
        }
    }
    proof {
        assert(hi == lo + 1);
        lemma_isqrt_unique(n as int, lo as int);
    }
    lo
}

/// Integer square root of a wide number, by bisection.
pub fn isqrt_u128(n: u128) -> (r: u64)
    requires
        n < 0x1_0000_0000_0000_0000_0000_0000,
    ensures
        r == isqrt(n as int),
        is_isqrt(n as int, r as int),
        r < 0x1_0000_0000_0000,
{
    let mut lo: u128 = 0;
    let mut hi: u128 = 0x1_0000_0000_0000;
    while hi - lo > 1
        invariant
            lo < hi <= 0x1_0000_0000_0000,
            lo * lo <= n,
            n < hi * hi,
        decreases hi - lo,
    {
        let mid: u128 = lo + (hi - lo) / 2;
        assert(mid * mid <= 0xffff_ffff_ffff * 0xffff_ffff_ffff) by (nonlinear_arith)
            requires
                0 <= mid <= 0xffff_ffff_ffff,
        ;
        if mid * mid <= n {
            lo = mid;
        } else {
            hi = mid;
        }
    }
    proof {
        assert(hi == lo + 1);
        lemma_isqrt_unique(n as int, lo as int);
    }
    lo as u64
}

/// Division of wide integers, rounded towards zero.
pub fn trunc_div_wide(n: i128, d: i128) -> (q: i128)
    requires
        d > 0,
        -0x100_0000_0000_0000_0000_0000_0000_0000 <= n <= 0x100_0000_0000_0000_0000_0000_0000_0000,
    ensures
        q == trunc_div(n as int, d as int),
        iabs(q as int) <= iabs(n as int),
{
    proof {
        lemma_trunc_div_bound(n as int, d as int);
        let a = iabs(n as int);
        assert(a / (d as int) <= a) by (nonlinear_arith)
            requires
                a >= 0,
                d >= 1,
        ;
    }
    if n < 0 {
        -((-n) / d)
    } else {
        n / d
    }
}

impl Fixed {
    /// The number zero.
    pub fn zero() -> (r: Fixed)
        ensures
            r@ == 0,
    {
        Fixed { raw: 0 }
    }

    /// The number one.
    pub fn one() -> (r: Fixed)
        ensures
            r@ == 0x1_0000,
    {
        Fixed { raw: 0x1_0000 }
    }

    /// The largest number, which also stands for an unbounded depth.
    pub fn max_value() -> (r: Fixed)
        ensures
            r@ == 0x7fff_0000,
    {
        Fixed { raw: 0x7fff_0000 }
    }

    /// The number with the given raw value, saturated.
    pub fn from_raw(raw: i32) -> (r: Fixed)
        ensures
            r@ == clamp(raw as int),
            r.raw == r@,
    {
        saturate(raw as i128)
    }

    /// The whole number `n`, saturated.
    pub fn from_int(n: i32) -> (r: Fixed)
        ensures
            r@ == fx_from_int(n as int),
    {
        saturate(n as i128 * 0x1_0000)
    }

    /// The whole number `n`, saturated.
    pub fn from_usize(n: usize) -> (r: Fixed)
        ensures
            r@ == fx_from_int(n as int),
    {
        if n > 32767 {
            Fixed { raw: 0x7fff_0000 }
        } else {
            saturate(n as i128 * 0x1_0000)
        }
    }

    /// The fraction `num / den`, rounded and saturated.
    pub fn from_ratio(num: i32, den: i32) -> (r: Fixed)
        requires
            den != 0,
        ensures
            r@ == fx_from_ratio(num as int, den as int),
    {
        saturate(round_div_wide(num as i128 * 0x1_0000, den as i128))
    }

    /// The raw value, inside `-RAW_MAX ..= RAW_MAX`.
    pub fn raw(self) -> (r: i32)
        ensures
            r == self@,
            in_range(r as int),
    {
        if self.raw > 0x7fff_0000 {
            0x7fff_0000
        } else if self.raw < -0x7fff_0000 {
            -0x7fff_0000
        } else {
            self.raw
        }
    }

    /// The nearest whole number, ties away from zero.
    pub fn round(self) -> (r: i32)
        ensures
            r == fx_round(self@),
            -32767 <= r <= 32767,
    {
        let a = self.raw();
        let q = round_div_wide(a as i128, 0x1_0000);
        proof {
            let m = iabs(a as int);
            assert(0 <= (2 * m + 0x1_0000) / 0x2_0000 <= 32767);
        }
        q as i32
    }

    /// Sum, saturated.
    pub fn add(self, other: Fixed) -> (r: Fixed)
        ensures
            r@ == fx_add(self@, other@),
            r.raw == r@,
    {
        saturate(self.raw() as i128 + other.raw() as i128)
    }

    /// Difference, saturated.
    pub fn sub(self, other: Fixed) -> (r: Fixed)
        ensures
            r@ == fx_sub(self@, other@),
            r.raw == r@,
    {
        saturate(self.raw() as i128 - other.raw() as i128)
    }

    /// The opposite number.
    pub fn neg(self) -> (r: Fixed)
        ensures
            r@ == fx_neg(self@),
            r@ == -self@,
    {
        saturate(-(self.raw() as i128))
    }

    /// The absolute value.
    pub fn abs(self) -> (r: Fixed)
        ensures
            r@ == fx_abs(self@),
            r@ == iabs(self@),
    {
        let v = self.raw();
        if v < 0 {
            saturate(-(v as i128))
        } else {
            saturate(v as i128)
        }
    }

    /// Product, rounded to the nearest raw value and saturated.
    pub fn mul(self, other: Fixed) -> (r: Fixed)
        ensures
            r@ == fx_mul(self@, other@),
            r.raw == r@,
    {
        let a: i128 = self.raw() as i128;
        let b: i128 = other.raw() as i128;
        assert(-0x4000_0000_0000_0000 <= a * b <= 0x4000_0000_0000_0000) by (nonlinear_arith)
            requires
                -0x8000_0000 <= a <= 0x8000_0000,
                -0x8000_0000 <= b <= 0x8000_0000,
        ;
        saturate(round_div_wide(a * b, 0x1_0000))
    }

    /// Quotient; see [`fx_div`] for a zero divisor.
    pub fn div(self, other: Fixed) -> (r: Fixed)
        ensures
            r@ == fx_div(self@, other@),
            r.raw == r@,
    {
        let a: i128 = self.raw() as i128;
        let b: i128 = other.raw() as i128;
        if b != 0 {
            saturate(round_div_wide(a * 0x1_0000, b))
        } else if a > 0 {
            Fixed { raw: 0x7fff_0000 }
        } else if a < 0 {
            Fixed { raw: -0x7fff_0000 }
        } else {
            Fixed { raw: 0 }
        }
    }

    /// Square root; zero for a negative number.
    pub fn sqrt(self) -> (r: Fixed)
        ensures
            r@ == fx_sqrt(self@),
    {
        let a = self.raw();
        if a <= 0 {
            Fixed { raw: 0 }
        } else {
            let n: u64 = a as u64 * 0x1_0000;
            let root = isqrt_u64(n);
            proof {
                assert(root * root <= n);
                assert(root <= 0x7fff_0000) by (nonlinear_arith)
                    requires
                        root * root <= n,
                        n <= 0x7fff_0000 * 0x1_0000,
                        0 <= root,
                {
                    if root > 0x7fff_0000 {
                        assert(root * root >= 0x7fff_0000 * 0x7fff_0000);
                    }
                }
            }
            Fixed { raw: root as i32 }
        }
    }

    /// The smaller of two numbers.
    pub fn min(self, other: Fixed) -> (r: Fixed)
        ensures
            r@ == fx_min(self@, other@),
    {
        if self.raw() <= other.raw() {
            self
        } else {
            other
        }
    }

    /// The larger of two numbers.
    pub fn max(self, other: Fixed) -> (r: Fixed)
        ensures
            r@ == fx_max(self@, other@),
    {
        if self.raw() >= other.raw() {
            self
        } else {
            other
        }
    }

    /// Whether this number is less than `other`.
    pub fn lt(self, other: Fixed) -> (r: bool)
        ensures
            r == (self@ < other@),
    {
        self.raw() < other.raw()
    }

    /// Whether this number is at most `other`.
    pub fn le(self, other: Fixed) -> (r: bool)
        ensures
            r == (self@ <= other@),
    {
        self.raw() <= other.raw()
    }

    /// Whether this number is zero.
    pub fn is_zero(self) -> (r: bool)
        ensures
            r == (self@ == 0),
    {
        self.raw() == 0
    }

    /// Whether two numbers have the same value.
    pub fn equals(self, other: Fixed) -> (r: bool)
        ensures
            r == (self@ == other@),
    {
        self.raw() == other.raw()
    }
}

} // verus!
