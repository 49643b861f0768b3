//! Exercises the fixed-point arithmetic helpers on concrete values.

use space::fxp::{icbrt, isqrt, mul_div_trunc, mul_sat, sat_add, sat_narrow, sat_signed, FX};

#[test]
fn isqrt_small_values() {
    assert_eq!(isqrt(0), 0);
    assert_eq!(isqrt(1), 1);
    assert_eq!(isqrt(15), 3);
    assert_eq!(isqrt(16), 4);
    assert_eq!(isqrt(17), 4);
    assert_eq!(isqrt(1_000_000), 1000);
}

#[test]
fn isqrt_extreme_value() {
    assert_eq!(isqrt(u128::MAX), u64::MAX as u128);
}

#[test]
fn icbrt_small_values() {
    assert_eq!(icbrt(0), 0);
    assert_eq!(icbrt(1), 1);
    assert_eq!(icbrt(26), 2);
    assert_eq!(icbrt(27), 3);
    assert_eq!(icbrt(1_000_000_000), 1000);
}

#[test]
fn icbrt_extreme_value() {
    assert_eq!(icbrt(u128::MAX), 6_981_463_658_331);
}

#[test]
fn saturating_add_clamps() {
    assert_eq!(sat_add(1, 2), 3);
    assert_eq!(sat_add(i64::MAX, 1), i64::MAX);
    assert_eq!(sat_add(i64::MIN, -1), i64::MIN);
    assert_eq!(sat_add(-5, 5), 0);
}

#[test]
fn saturating_mul_clamps() {
    assert_eq!(mul_sat(6, 7), 42);
    assert_eq!(mul_sat(u128::MAX, 2), u128::MAX);
    assert_eq!(mul_sat(0, u128::MAX), 0);
}

#[test]
fn sat_narrow_clamps() {
    assert_eq!(sat_narrow(12), 12);
    assert_eq!(sat_narrow(i64::MAX as i128 + 1), i64::MAX);
    assert_eq!(sat_narrow(i64::MIN as i128 - 1), i64::MIN);
}

#[test]
fn sat_signed_clamps() {
    assert_eq!(sat_signed(false, 7), 7);
    assert_eq!(sat_signed(true, 7), -7);
    assert_eq!(sat_signed(true, 1 << 63), i64::MIN);
    assert_eq!(sat_signed(false, u128::MAX), i64::MAX);
}

#[test]
fn mul_div_truncates_toward_zero() {
    assert_eq!(mul_div_trunc(7, 1, 2), 3);
    assert_eq!(mul_div_trunc(-7, 1, 2), -3);
    assert_eq!(mul_div_trunc(-7, -1, 2), 3);
    assert_eq!(mul_div_trunc(FX, FX, FX), FX);
}
