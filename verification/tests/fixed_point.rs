use rake::fixed::{isqrt_u64, round_div_wide, saturate, Fixed, RAW_MAX, RAW_ONE};

fn fx(x: f64) -> Fixed {
    Fixed::from_raw((x * 65536.0).round() as i32)
}

#[test]
fn constants_have_their_raw_values() {
    assert_eq!(Fixed::zero().raw(), 0);
    assert_eq!(Fixed::one().raw(), RAW_ONE);
    assert_eq!(Fixed::max_value().raw(), RAW_MAX);
    assert_eq!(RAW_ONE, 65536);
    assert_eq!(RAW_MAX, 32767 * 65536);
}

#[test]
fn raw_values_outside_the_range_are_read_as_its_ends() {
    assert_eq!(Fixed { raw: i32::MAX }.raw(), RAW_MAX);
    assert_eq!(Fixed { raw: i32::MIN }.raw(), -RAW_MAX);
    assert_eq!(Fixed::from_raw(i32::MIN).raw(), -RAW_MAX);
    assert_eq!(Fixed { raw: i32::MIN }.neg().raw(), RAW_MAX);
}

#[test]
fn whole_numbers_and_fractions() {
    assert_eq!(Fixed::from_int(3).raw(), 3 * 65536);
    assert_eq!(Fixed::from_int(-3).raw(), -3 * 65536);
    assert_eq!(Fixed::from_int(40000).raw(), RAW_MAX);
    assert_eq!(Fixed::from_int(-40000).raw(), -RAW_MAX);
    assert_eq!(Fixed::from_usize(100).raw(), 100 * 65536);
    assert_eq!(Fixed::from_usize(usize::MAX).raw(), RAW_MAX);
    assert_eq!(Fixed::from_ratio(1, 2).raw(), 32768);
    assert_eq!(Fixed::from_ratio(6, 10).raw(), 39322);
    assert_eq!(Fixed::from_ratio(-1, 3).raw(), -21845);
    assert_eq!(Fixed::from_ratio(1, -3).raw(), -21845);
}

#[test]
fn addition_and_subtraction_saturate() {
    assert_eq!(fx(1.5).add(fx(2.25)).raw(), fx(3.75).raw());
    assert_eq!(fx(1.5).sub(fx(2.25)).raw(), fx(-0.75).raw());
    assert_eq!(Fixed::from_int(30000).add(Fixed::from_int(30000)).raw(), RAW_MAX);
    assert_eq!(Fixed::from_int(-30000).sub(Fixed::from_int(30000)).raw(), -RAW_MAX);
}

#[test]
fn negation_and_absolute_value() {
    assert_eq!(fx(2.5).neg().raw(), fx(-2.5).raw());
    assert_eq!(fx(-2.5).abs().raw(), fx(2.5).raw());
    assert_eq!(fx(2.5).abs().raw(), fx(2.5).raw());
    assert_eq!(Fixed::max_value().neg().neg().raw(), RAW_MAX);
}

#[test]
fn one_times_one_is_one() {
    let one = Fixed::one();
    assert_eq!(one.mul(one).raw(), 65536);
}

#[test]
fn multiplication_rounds_to_nearest_and_saturates() {
    assert_eq!(fx(1.5).mul(fx(2.0)).raw(), fx(3.0).raw());
    // 3 * 3 raw units is 9 / 65536 of a raw unit: rounds to nothing
    assert_eq!(Fixed::from_raw(3).mul(Fixed::from_raw(3)).raw(), 0);
    // 256 * 128 raw units is exactly half a raw unit: rounds away from zero
    assert_eq!(Fixed::from_raw(256).mul(Fixed::from_raw(128)).raw(), 1);
    assert_eq!(Fixed::from_raw(-256).mul(Fixed::from_raw(128)).raw(), -1);
    assert_eq!(Fixed::from_int(200).mul(Fixed::from_int(200)).raw(), RAW_MAX);
    assert_eq!(Fixed::from_int(-200).mul(Fixed::from_int(200)).raw(), -RAW_MAX);
    assert_eq!(fx(7.25).mul(Fixed::zero()).raw(), 0);
    assert_eq!(fx(7.25).mul(Fixed::one()).raw(), fx(7.25).raw());
}

#[test]
fn division_rounds_to_nearest() {
    assert_eq!(Fixed::from_int(1).div(Fixed::from_int(3)).raw(), 21845);
    assert_eq!(Fixed::from_int(2).div(Fixed::from_int(3)).raw(), 43691);
    assert_eq!(Fixed::from_int(-2).div(Fixed::from_int(3)).raw(), -43691);
    assert_eq!(Fixed::from_int(2).div(Fixed::from_int(-3)).raw(), -43691);
    assert_eq!(fx(7.25).div(Fixed::one()).raw(), fx(7.25).raw());
}

#[test]
fn division_by_zero_saturates() {
    assert_eq!(Fixed::from_int(1).div(Fixed::zero()).raw(), RAW_MAX);
    assert_eq!(Fixed::from_int(-1).div(Fixed::zero()).raw(), -RAW_MAX);
    assert_eq!(Fixed::zero().div(Fixed::zero()).raw(), 0);
    assert_eq!(Fixed::from_int(1000).div(Fixed::from_raw(1)).raw(), RAW_MAX);
}

#[test]
fn sqrt_of_four_is_two() {
    assert_eq!(Fixed::from_int(4).sqrt().raw(), 2 * 65536);
    assert_eq!(Fixed::from_int(-4).sqrt().raw(), 0);
    assert_eq!(Fixed::zero().sqrt().raw(), 0);
}

#[test]
fn sqrt_rounds_down() {
    // sqrt(2) = 1.41421356.. = 92681.9 raw
    assert_eq!(Fixed::from_int(2).sqrt().raw(), 92681);
    // sqrt(32767) = 181.01657.. = 11863102.1 raw
    assert_eq!(Fixed::max_value().sqrt().raw(), 11863102);
}

#[test]
fn integer_square_root_is_exact() {
    assert_eq!(isqrt_u64(0), 0);
    assert_eq!(isqrt_u64(1), 1);
    assert_eq!(isqrt_u64(3), 1);
    assert_eq!(isqrt_u64(4), 2);
    assert_eq!(isqrt_u64(99), 9);
    assert_eq!(isqrt_u64(100), 10);
    assert_eq!(isqrt_u64(u64::MAX), 0xffff_ffff);
}

#[test]
fn rounding_to_whole_numbers() {
    assert_eq!(fx(2.4).round(), 2);
    assert_eq!(fx(2.5).round(), 3);
    assert_eq!(fx(-2.5).round(), -3);
    assert_eq!(fx(-2.4).round(), -2);
    assert_eq!(Fixed::max_value().round(), 32767);
}

#[test]
fn rounded_division_of_wide_integers() {
    assert_eq!(round_div_wide(7, 2), 4);
    assert_eq!(round_div_wide(-7, 2), -4);
    assert_eq!(round_div_wide(7, -2), -4);
    assert_eq!(round_div_wide(-7, -2), 4);
    assert_eq!(round_div_wide(6, 4), 2);
    assert_eq!(round_div_wide(5, 4), 1);
    assert_eq!(round_div_wide(0, 4), 0);
}

#[test]
fn saturation_of_wide_integers() {
    assert_eq!(saturate(12).raw(), 12);
    assert_eq!(saturate(1 << 40).raw(), RAW_MAX);
    assert_eq!(saturate(-(1 << 40)).raw(), -RAW_MAX);
}

#[test]
fn comparisons_go_by_value() {
    assert!(fx(1.0).lt(fx(1.5)));
    assert!(!fx(1.5).lt(fx(1.5)));
    assert!(fx(1.5).le(fx(1.5)));
    assert!(fx(-1.0).is_zero() == false);
    assert!(Fixed::zero().is_zero());
    assert!(Fixed { raw: i32::MIN }.equals(Fixed::from_raw(-RAW_MAX)));
    assert_eq!(fx(1.0).min(fx(2.0)).raw(), fx(1.0).raw());
    assert_eq!(fx(1.0).max(fx(2.0)).raw(), fx(2.0).raw());
}
