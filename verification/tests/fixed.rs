use softrender::fixed::{
    clamp_fixed, div_floor, fixed_abs, fixed_add, fixed_div, fixed_mul, fixed_ratio,
    fixed_sub, isqrt, isqrt_ceil, saturate_fixed, HALF, ONE,
};

#[test]
fn one_and_half() {
    assert_eq!(ONE, 65536);
    assert_eq!(HALF * 2, ONE);
}

#[test]
fn saturate_holds_to_the_range() {
    assert_eq!(saturate_fixed(5), 5);
    assert_eq!(saturate_fixed(1 << 40), i32::MAX);
    assert_eq!(saturate_fixed(-(1 << 40)), i32::MIN);
}

#[test]
fn clamp_holds_to_the_interval() {
    assert_eq!(clamp_fixed(5, 0, 10), 5);
    assert_eq!(clamp_fixed(-5, 0, 10), 0);
    assert_eq!(clamp_fixed(50, 0, 10), 10);
}

#[test]
fn div_floor_rounds_down() {
    assert_eq!(div_floor(7, 2), 3);
    assert_eq!(div_floor(-7, 2), -4);
    assert_eq!(div_floor(-8, 2), -4);
    assert_eq!(div_floor(0, 5), 0);
    assert_eq!(div_floor(-1, 65536), -1);
}

#[test]
fn div_floor_of_the_smallest_integer() {
    assert_eq!(div_floor(i128::MIN, 1), i128::MIN);
    assert_eq!(div_floor(i128::MIN, 2), i128::MIN / 2);
    assert_eq!(div_floor(i128::MIN, 3), -56713727820156410577229101238628035243);
    assert_eq!(div_floor(i128::MIN, i128::MAX), -2);
}

#[test]
fn mul_rounds_down_and_saturates() {
    assert_eq!(fixed_mul(98304, 163840), 245760);
    assert_eq!(fixed_mul(-98304, HALF), -49152);
    assert_eq!(fixed_mul(1, 1), 0);
    assert_eq!(fixed_mul(-1, 1), -1);
    assert_eq!(fixed_mul(i32::MAX, i32::MAX), i32::MAX);
    assert_eq!(fixed_mul(i32::MIN, i32::MAX), i32::MIN);
}

#[test]
fn div_rejects_zero() {
    assert_eq!(fixed_div(ONE, 0), None);
    assert_eq!(fixed_div(0, 0), None);
}

#[test]
fn div_rounds_down_and_saturates() {
    assert_eq!(fixed_div(ONE, 3 * ONE), Some(21845));
    assert_eq!(fixed_div(-ONE, 3 * ONE), Some(-21846));
    assert_eq!(fixed_div(ONE, -3 * ONE), Some(-21846));
    assert_eq!(fixed_div(-ONE, -3 * ONE), Some(21845));
    assert_eq!(fixed_div(i32::MAX, 1), Some(i32::MAX));
    assert_eq!(fixed_ratio(3 * ONE, 2 * ONE), 98304);
}

#[test]
fn add_sub_abs_saturate() {
    assert_eq!(fixed_add(i32::MAX, 1), i32::MAX);
    assert_eq!(fixed_add(3, 4), 7);
    assert_eq!(fixed_sub(i32::MIN, 1), i32::MIN);
    assert_eq!(fixed_sub(3, 4), -1);
    assert_eq!(fixed_abs(-7), 7);
    assert_eq!(fixed_abs(7), 7);
    assert_eq!(fixed_abs(i32::MIN), i32::MAX);
}

#[test]
fn isqrt_is_the_floor_of_the_root() {
    assert_eq!(isqrt(0), 0);
    assert_eq!(isqrt(1), 1);
    assert_eq!(isqrt(3), 1);
    assert_eq!(isqrt(4), 2);
    assert_eq!(isqrt(10), 3);
    assert_eq!(isqrt(11 << 32), 217358);
    assert_eq!(isqrt(u64::MAX), 4294967295);
}

#[test]
fn isqrt_ceil_is_the_ceiling_of_the_root() {
    assert_eq!(isqrt_ceil(0), 0);
    assert_eq!(isqrt_ceil(1), 1);
    assert_eq!(isqrt_ceil(2), 2);
    assert_eq!(isqrt_ceil(9), 3);
    assert_eq!(isqrt_ceil(10), 4);
    assert_eq!(isqrt_ceil(u64::MAX), 4294967296);
}
