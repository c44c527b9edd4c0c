use yield_sensitive_dlmm::errors::DlmmError;
use yield_sensitive_dlmm::math::{
    apply_bps_i, diff_abs, diff_bps_u64, diff_i_bps, ema_step_u16, ema_step_u64, mid_price,
    mul_div_1e18, round_to_tick,
};

#[test]
fn apply_bps_scales_up_and_down() {
    assert_eq!(apply_bps_i(1_000_000, 500), Ok(1_050_000));
    assert_eq!(apply_bps_i(1_000_000, -500), Ok(950_000));
    assert_eq!(apply_bps_i(1_000_000, 0), Ok(1_000_000));
    // a discount below -10000 clamps the multiplier at zero
    assert_eq!(apply_bps_i(1_000_000, -20_000), Ok(0));
}

#[test]
fn apply_bps_saturates_at_u64_max() {
    assert_eq!(apply_bps_i(u64::MAX, 10_000), Ok(u64::MAX));
}

#[test]
fn apply_bps_overflow_is_reported() {
    assert_eq!(apply_bps_i(u64::MAX, i64::MAX), Err(DlmmError::MathOverflow));
}

#[test]
fn ema_step_u16_moves_halfway() {
    assert_eq!(ema_step_u16(1000, 2000, 5000), Ok(1500));
    assert_eq!(ema_step_u16(2000, 1000, 5000), Ok(1500));
    assert_eq!(ema_step_u16(1000, 1000, 5000), Ok(1000));
    // a full-weight step lands on the new value
    assert_eq!(ema_step_u16(1000, 2000, 10_000), Ok(2000));
}

#[test]
fn ema_step_u64_moves_halfway() {
    assert_eq!(ema_step_u64(1_000_000, 2_000_000, 5000), Ok(1_500_000));
    assert_eq!(ema_step_u64(1_000_000, 1_000_400, 10_000), Ok(1_000_400));
}

#[test]
fn diff_bps_is_ordered_around_first_argument() {
    assert_eq!(diff_bps_u64(1_000_000, 1_020_000), Ok(200));
    assert_eq!(diff_bps_u64(1_000_000, 980_000), Ok(200));
    assert_eq!(diff_bps_u64(1_000_000, 1_000_000), Ok(0));
    // only the divisor is floored at one; the distance itself is exact
    assert_eq!(diff_bps_u64(0, 5), Ok(50_000));
    assert_eq!(diff_bps_u64(0, 0), Ok(0));
}

#[test]
fn diff_i_is_absolute() {
    assert_eq!(diff_i_bps(500, 520), Ok(20));
    assert_eq!(diff_i_bps(520, 500), Ok(20));
}

#[test]
fn mul_div_1e18_truncates() {
    assert_eq!(mul_div_1e18(100_000, 30_000_000_000_000_000_000u128), 3_000_000);
    assert_eq!(mul_div_1e18(1, 999_999_999_999_999_999u128), 0);
    assert_eq!(mul_div_1e18(0, u128::MAX), 0);
}

#[test]
fn tick_rounding_snaps_down() {
    assert_eq!(round_to_tick(975_049, 100), 975_000);
    assert_eq!(round_to_tick(975_000, 100), 975_000);
    assert_eq!(round_to_tick(123, 0), 123);
}

#[test]
fn mid_price_is_half_sum() {
    assert_eq!(mid_price(950_000, 1_000_000), 975_000);
    assert_eq!(mid_price(u64::MAX, u64::MAX), u64::MAX - 1);
    assert_eq!(diff_abs(7, 10), 3);
    assert_eq!(diff_abs(10, 7), 3);
}
