//! The text of a Wavefront OBJ file: lines, words and numbers.
//!
//! A file is a sequence of bytes. A line ends at a line feed, and words are
//! what stands between white space. A number is an optional sign, digits
//! with an optional point among them, and an optional exponent; whatever
//! is no number counts as zero, and an index that is no number names
//! nothing.

use crate::fixed::{clamp, round_div, round_div_wide, saturate, Fixed};
use vstd::prelude::*;

verus! {

/// Whether a byte is white space: a blank, a tab, a line feed, a vertical
/// tab, a form feed or a carriage return.
pub open spec fn is_space(b: u8) -> bool {
    b == 32 || (9 <= b <= 13)
}

/// Whether a byte is a digit from `0` to `9`.
pub open spec fn is_digit(b: u8) -> bool {
    48 <= b <= 57
}

/// The end of the line that begins at `i`: the place of the next line
/// feed, or the end of the text.
pub open spec fn line_end(s: Seq<u8>, i: int) -> int
    decreases s.len() - i,
{
    if i >= s.len() {
        s.len() as int
    } else if s[i] == 10 {
        i
    } else {
        line_end(s, i + 1)
    }
}

/// The first place at or after `i` and before `end` that holds no white
/// space, or `end`.
pub open spec fn skip_spaces(s: Seq<u8>, i: int, end: int) -> int
    decreases end - i,
{
    if i >= end {
        end
    } else if !is_space(s[i]) {
        i
    } else {
        skip_spaces(s, i + 1, end)
    }
}

/// The first place at or after `i` and before `end` that holds white
/// space, or `end`.
pub open spec fn word_end(s: Seq<u8>, i: int, end: int) -> int
    decreases end - i,
{
    if i >= end {
        end
    } else if is_space(s[i]) {
        i
    } else {
        word_end(s, i + 1, end)
    }
}

/// The first place at or after `i` and before `end` that holds the byte
/// `b`, or `end`.
pub open spec fn find_byte(s: Seq<u8>, i: int, end: int, b: u8) -> int
    decreases end - i,
{
    if i >= end {
        end
    } else if s[i] == b {
        i
    } else {
        find_byte(s, i + 1, end, b)
    }
}

/// The first place at or after `i` and before `end` that holds no digit,
/// or `end`.
pub open spec fn digits_end(s: Seq<u8>, i: int, end: int) -> int
    decreases end - i,
{
    if i >= end {
        end
    } else if !is_digit(s[i]) {
        i
    } else {
        digits_end(s, i + 1, end)
    }
}

/// The value of the digits from `a` to `e`, held at `cap` after each digit.
pub open spec fn decimal(s: Seq<u8>, a: int, e: int, cap: int) -> int
    decreases e - a,
{
    if e <= a {
        0
    } else {
        let v = decimal(s, a, e - 1, cap) * 10 + (s[e - 1] - 48);
        if v > cap {
            cap
        } else {
            v
        }
    }
}

/// Ten to the power `k`.
pub open spec fn power_of_ten(k: int) -> int
    decreases k,
{
    if k <= 0 {
        1
    } else {
        10 * power_of_ten(k - 1)
    }
}

/// The index that the word from `a` to `b` names: the value of its
/// digits, at most `usize::MAX`; zero where the word is empty or holds
/// anything but digits.
pub open spec fn index_at(s: Seq<u8>, a: int, b: int) -> int {
    if a < b && digits_end(s, a, b) == b {
        decimal(s, a, b, usize::MAX as int)
    } else {
        0
    }
}

/// Where the digits of a number begin: after its sign, if it has one.
pub open spec fn after_sign(s: Seq<u8>, a: int, b: int) -> int {
    if a < b && (s[a] == 45 || s[a] == 43) {
        a + 1
    } else {
        a
    }
}

/// The most digits after the point that count.
pub const FRACTION_DIGITS: usize = 9;

/// The largest whole part that is told from larger ones: ten to the
/// fourteenth.
pub const WHOLE_CAP: u64 = 100_000_000_000_000;

/// The largest exponent that is told from larger ones.
pub const EXPONENT_CAP: u64 = 99;

/// The raw value of `n` times ten to the power `shift`.
pub open spec fn scaled(n: int, shift: int) -> int {
    if shift >= 0 {
        clamp(n * 0x1_0000 * power_of_ten(shift))
    } else {
        clamp(round_div(n * 0x1_0000, power_of_ten(-shift)))
    }
}

/// Whether a byte begins an exponent: `e` or `E`.
pub open spec fn is_exponent_mark(b: u8) -> bool {
    b == 101 || b == 69
}

/// The digits of a number: whether there are any, their value `n` as a
/// whole number, how many of them stand behind the point, and where they end.
pub ghost struct Mantissa {
    pub has_digits: bool,
    pub n: int,
    pub k: int,
    pub end: int,
}

/// The digits that begin at `start`: digits, and after a point more
/// digits, of which the first nine count.
pub open spec fn mantissa_at(s: Seq<u8>, start: int, b: int) -> Mantissa {
    let whole_end = digits_end(s, start, b);
    let fraction_start = if whole_end < b && s[whole_end] == 46 {
        whole_end + 1
    } else {
        whole_end
    };
    let fraction_end = digits_end(s, fraction_start, b);
    let counted_end = if fraction_end - fraction_start > FRACTION_DIGITS {
        fraction_start + FRACTION_DIGITS
    } else {
        fraction_end
    };
    let k = counted_end - fraction_start;
    Mantissa {
        has_digits: whole_end > start || fraction_end > fraction_start,
        n: decimal(s, start, whole_end, WHOLE_CAP as int) * power_of_ten(k) + decimal(
            s,
            fraction_start,
            counted_end,
            999_999_999,
        ),
        k,
        end: fraction_end,
    }
}

/// The exponent that stands from `i` to the end of the word: zero where
/// the word ends at `i`, and none where something else stands there than
/// `e` or `E`, an optional sign and digits.
pub open spec fn exponent_at(s: Seq<u8>, i: int, b: int) -> Option<int> {
    if i >= b {
        Some(0)
    } else if is_exponent_mark(s[i]) {
        let start = after_sign(s, i + 1, b);
        let end = digits_end(s, start, b);
        if start < end && end == b {
            let magnitude = decimal(s, start, end, EXPONENT_CAP as int);
            if start > i + 1 && s[i + 1] == 45 {
                Some(-magnitude)
            } else {
                Some(magnitude)
            }
        } else {
            None
        }
    } else {
        None
    }
}

/// The raw value of the number that the word from `a` to `b` spells, zero
/// where it spells none.
///
/// A number is an optional sign, digits with an optional point among them,
/// and an optional exponent: `e` or `E`, an optional sign and digits. The
/// digits after the ninth behind the point do not count, a whole part
/// beyond [`WHOLE_CAP`] counts as that, and an exponent beyond
/// [`EXPONENT_CAP`] counts as that.
pub open spec fn number_at(s: Seq<u8>, a: int, b: int) -> int {
    let start = after_sign(s, a, b);
    let m = mantissa_at(s, start, b);
    match exponent_at(s, m.end, b) {
        Some(e) => if m.has_digits {
            let magnitude = scaled(m.n, e - m.k);
            if start > a && s[a] == 45 {
                -magnitude
            } else {
                magnitude
            }
        } else {
            0
        },
        None => 0,
    }
}

/// Powers of ten grow with the exponent.
pub proof fn lemma_power_of_ten_grows(j: int, k: int)
    requires
        0 <= j <= k,
    ensures
        1 <= power_of_ten(j) <= power_of_ten(k),
    decreases k,
{
    if j < k {
        lemma_power_of_ten_grows(j, k - 1);
    } else if j > 0 {
        lemma_power_of_ten_grows(j - 1, j - 1);
    }
}

/// Three powers of ten by their digits.
proof fn lemma_powers_of_ten()
    ensures
        power_of_ten(9) == 1_000_000_000,
        power_of_ten(10) == 10_000_000_000,
        power_of_ten(29) == 100_000_000_000_000_000_000_000_000_000,
        power_of_ten(30) == 1_000_000_000_000_000_000_000_000_000_000,
{
    reveal_with_fuel(power_of_ten, 11);
    assert(power_of_ten(10) == 10_000_000_000);
    assert(power_of_ten(20) == 10_000_000_000 * power_of_ten(10));
    assert(power_of_ten(30) == 10_000_000_000 * power_of_ten(20));
    assert(power_of_ten(30) == 10 * power_of_ten(29));
}

/// The end of the line that begins at `i`.
pub fn find_line_end(s: &[u8], i: usize) -> (e: usize)
    requires
        i <= s@.len(),
    ensures
        e == line_end(s@, i as int),
        i <= e <= s@.len(),
{
    let n = s.len();
    let mut j = i;
    while j < n && s[j] != 10
        invariant
            i <= j <= n,
            n == s@.len(),
            line_end(s@, i as int) == line_end(s@, j as int),
        decreases n - j,
    {
        j = j + 1;
    }
    j
}

fn space(b: u8) -> (r: bool)
    ensures
        r == is_space(b),
{
    b == 32 || (9 <= b && b <= 13)
}

fn digit(b: u8) -> (r: bool)
    ensures
        r == is_digit(b),
{
    48 <= b && b <= 57
}

/// The beginning of the next word at or after `i`, or `end`.
pub fn find_word(s: &[u8], i: usize, end: usize) -> (r: usize)
    requires
        i <= end <= s@.len(),
    ensures
        r == skip_spaces(s@, i as int, end as int),
        i <= r <= end,
{
    let mut j = i;
    while j < end && space(s[j])
        invariant
            i <= j <= end <= s@.len(),
            skip_spaces(s@, i as int, end as int) == skip_spaces(s@, j as int, end as int),
        decreases end - j,
    {
        j = j + 1;
    }
    j
}

/// The end of the word that begins at `i`.
pub fn find_word_end(s: &[u8], i: usize, end: usize) -> (r: usize)
    requires
        i <= end <= s@.len(),
    ensures
        r == word_end(s@, i as int, end as int),
        i <= r <= end,
{
    let mut j = i;
    while j < end && !space(s[j])
        invariant
            i <= j <= end <= s@.len(),
            word_end(s@, i as int, end as int) == word_end(s@, j as int, end as int),
        decreases end - j,
    {
        j = j + 1;
    }
    j
}

/// The place of the next byte `b` at or after `i`, or `end`.
pub fn find(s: &[u8], i: usize, end: usize, b: u8) -> (r: usize)
    requires
        i <= end <= s@.len(),
    ensures
        r == find_byte(s@, i as int, end as int, b),
        i <= r <= end,
{
    let mut j = i;
    while j < end && s[j] != b
        invariant
            i <= j <= end <= s@.len(),
            find_byte(s@, i as int, end as int, b) == find_byte(s@, j as int, end as int, b),
        decreases end - j,
    {
        j = j + 1;
    }
    j
}

/// The end of the digits that begin at `i`.
fn find_digits_end(s: &[u8], i: usize, end: usize) -> (r: usize)
    requires
        i <= end <= s@.len(),
    ensures
        r == digits_end(s@, i as int, end as int),
        i <= r <= end,
        forall|k: int| i <= k < r ==> is_digit(#[trigger] s@[k]),
{
    let mut j = i;
    while j < end && digit(s[j])
        invariant
            i <= j <= end <= s@.len(),
            digits_end(s@, i as int, end as int) == digits_end(s@, j as int, end as int),
            forall|k: int| i <= k < j ==> is_digit(#[trigger] s@[k]),
        decreases end - j,
    {
        j = j + 1;
    }
    j
}

/// The value of the digits from `a` to `e`, held at `cap`.
fn read_decimal(s: &[u8], a: usize, e: usize, cap: u64) -> (v: u64)
    requires
        a <= e <= s@.len(),
        cap <= 0xffff_ffff_ffff_ffff,
        forall|k: int| a <= k < e ==> is_digit(#[trigger] s@[k]),
    ensures
        v == decimal(s@, a as int, e as int, cap as int),
        v <= cap,
{
    let mut v: u64 = 0;
    let mut j = a;
    while j < e
        invariant
            a <= j <= e <= s@.len(),
            v == decimal(s@, a as int, j as int, cap as int),
            v <= cap,
            forall|k: int| a <= k < e ==> is_digit(#[trigger] s@[k]),
        decreases e - j,
    {
        let d: u128 = (s[j] - 48) as u128;
        let next: u128 = v as u128 * 10 + d;
        v = if next > cap as u128 {
            cap
        } else {
            next as u64
        };
        j = j + 1;
    }
    v
}

/// The index that the word from `a` to `b` names.
pub fn read_index(s: &[u8], a: usize, b: usize) -> (r: usize)
    requires
        a <= b <= s@.len(),
    ensures
        r == index_at(s@, a as int, b as int),
{
    if a >= b {
        return 0;
    }
    let e = find_digits_end(s, a, b);
    if e != b {
        return 0;
    }
    read_decimal(s, a, b, usize::MAX as u64) as usize
}

/// Ten to the power `k`.
fn ten_to(k: usize) -> (r: u128)
    requires
        k <= 29,
    ensures
        r == power_of_ten(k as int),
        1 <= r <= 100_000_000_000_000_000_000_000_000_000,
{
    let mut r: u128 = 1;
    let mut i: usize = 0;
    proof {
        lemma_powers_of_ten();
    }
    while i < k
        invariant
            0 <= i <= k <= 29,
            r == power_of_ten(i as int),
            power_of_ten(29) == 100_000_000_000_000_000_000_000_000_000,
        decreases k - i,
    {
        proof {
            lemma_power_of_ten_grows(i + 1, 29);
        }
        r = r * 10;
        i = i + 1;
    }
    proof {
        lemma_power_of_ten_grows(k as int, 29);
    }
    r
}

/// The raw value of `n` times ten to the power `up`.
fn scale_up(n: u128, up: u64) -> (r: Fixed)
    requires
        n <= 200_000_000_000_000_000_000_000,
        up <= 99,
    ensures
        r@ == scaled(n as int, up as int),
        r@ >= 0,
{
    proof {
        lemma_powers_of_ten();
    }
    let x: u128 = n * 0x1_0000;
    if up <= 10 {
        let p = ten_to(up as usize);
        proof {
            lemma_power_of_ten_grows(up as int, 10);
            assert(x * p <= 13_107_200_000_000_000_000_000_000_000 * 10_000_000_000)
                by (nonlinear_arith)
                requires
                    0 <= x <= 13_107_200_000_000_000_000_000_000_000,
                    0 <= p <= 10_000_000_000,
            ;
        }
        saturate((x * p) as i128)
    } else if n == 0 {
        proof {
            assert(0 * 0x1_0000 * power_of_ten(up as int) == 0) by (nonlinear_arith);
        }
        Fixed::zero()
    } else {
        proof {
            lemma_power_of_ten_grows(10, up as int);
            let p = power_of_ten(up as int);
            assert(n * 0x1_0000 * p >= 0x7fff_0000) by (nonlinear_arith)
                requires
                    n >= 1,
                    p >= 10_000_000_000,
            ;
        }
        Fixed::max_value()
    }
}

/// The raw value of `n` divided by ten to the power `down`.
fn scale_down(n: u128, down: u64) -> (r: Fixed)
    requires
        n <= 200_000_000_000_000_000_000_000,
        1 <= down <= 108,
    ensures
        r@ == scaled(n as int, -(down as int)),
        r@ >= 0,
{
    proof {
        lemma_powers_of_ten();
    }
    let x: u128 = n * 0x1_0000;
    if down <= 29 {
        let p = ten_to(down as usize);
        let q = round_div_wide(x as i128, p as i128);
        proof {
            assert(q >= 0) by (nonlinear_arith)
                requires
                    x >= 0,
                    p >= 1,
                    q == (2 * x + p) / (2 * p),
            ;
        }
        saturate(q)
    } else {
        proof {
            lemma_power_of_ten_grows(30, down as int);
            let p = power_of_ten(down as int);
            assert((2 * x + p) / (2 * p) == 0) by (nonlinear_arith)
                requires
                    0 <= x <= 13_107_200_000_000_000_000_000_000_000,
                    p >= 1_000_000_000_000_000_000_000_000_000_000,
            {
                assert(0 <= 2 * x + p < 2 * p);
                vstd::arithmetic::div_mod::lemma_basic_div(2 * x + p, 2 * p);
            }
        }
        Fixed::zero()
    }
}

/// The digits of a number that begin at `start`.
fn read_mantissa(s: &[u8], start: usize, b: usize) -> (r: (bool, u128, u64, usize))
    requires
        start <= b <= s@.len(),
    ensures
        r.0 == mantissa_at(s@, start as int, b as int).has_digits,
        r.1 == mantissa_at(s@, start as int, b as int).n,
        r.2 == mantissa_at(s@, start as int, b as int).k,
        r.3 == mantissa_at(s@, start as int, b as int).end,
        r.1 <= 200_000_000_000_000_000_000_000,
        r.2 <= 9,
        start <= r.3 <= b,
{
    let whole_end = find_digits_end(s, start, b);
    let fraction_start = if whole_end < b && s[whole_end] == 46 {
        whole_end + 1
    } else {
        whole_end
    };
    let fraction_end = find_digits_end(s, fraction_start, b);
    let counted_end = if fraction_end - fraction_start > FRACTION_DIGITS {
        fraction_start + FRACTION_DIGITS
    } else {
        fraction_end
    };
    let whole = read_decimal(s, start, whole_end, WHOLE_CAP);
    let fraction = read_decimal(s, fraction_start, counted_end, 999_999_999);
    let k = counted_end - fraction_start;
    let p = ten_to(k);
    proof {
        lemma_powers_of_ten();
        lemma_power_of_ten_grows(k as int, 9);
        assert(whole * p <= 100_000_000_000_000 * 1_000_000_000) by (nonlinear_arith)
            requires
                0 <= whole <= 100_000_000_000_000,
                0 <= p <= 1_000_000_000,
        ;
    }
    let n: u128 = whole as u128 * p + fraction as u128;
    (whole_end > start || fraction_end > fraction_start, n, k as u64, fraction_end)
}

/// The exponent that stands from `i` to the end of the word, by its sign
/// and its size.
fn read_exponent(s: &[u8], i: usize, b: usize) -> (r: Option<(bool, u64)>)
    requires
        i <= b <= s@.len(),
    ensures
        match r {
            Some((negative, size)) => size <= 99 && (negative ==> size >= 1) && exponent_at(
                s@,
                i as int,
                b as int,
            ) == Some(
                if negative {
                    -(size as int)
                } else {
                    size as int
                },
            ),
            None => exponent_at(s@, i as int, b as int).is_none(),
        },
{
    if i >= b {
        return Some((false, 0));
    }
    if !(s[i] == 101 || s[i] == 69) {
        return None;
    }
    let after_mark = i + 1;
    let start = if after_mark < b && (s[after_mark] == 45 || s[after_mark] == 43) {
        after_mark + 1
    } else {
        after_mark
    };
    let end = find_digits_end(s, start, b);
    if !(start < end && end == b) {
        return None;
    }
    let size = read_decimal(s, start, end, EXPONENT_CAP);
    Some((start > after_mark && s[after_mark] == 45 && size > 0, size))
}

/// The number that the word from `a` to `b` spells.
pub fn read_number(s: &[u8], a: usize, b: usize) -> (r: Fixed)
    requires
        a <= b <= s@.len(),
    ensures
        r@ == number_at(s@, a as int, b as int),
{
    let start = if a < b && (s[a] == 45 || s[a] == 43) {
        a + 1
    } else {
        a
    };
    let (has_digits, n, k, end) = read_mantissa(s, start, b);
    let magnitude = match read_exponent(s, end, b) {
        Some((negative, size)) => {
            if !has_digits {
                Fixed::zero()
            } else if negative {
                scale_down(n, size + k)
            } else if size >= k {
                scale_up(n, size - k)
            } else {
                scale_down(n, k - size)
            }
        },
        None => Fixed::zero(),
    };
    if start > a && s[a] == 45 {
        magnitude.neg()
    } else {
        magnitude
    }
}

} // verus!
