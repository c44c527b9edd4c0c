//! Fixed-point math kernel: checked integer arithmetic in basis points
//! (1/10000), 1e6-scaled prices and 1e18-scaled fee growth, EMA steps,
//! percentage deltas and monotone clamps.

use vstd::prelude::*;
use vstd::arithmetic::div_mod::*;
use vstd::arithmetic::mul::*;
use crate::errors::DlmmError;

verus! {

/// One basis point is 1/10000.
pub const BPS_SCALE: u64 = 10_000;

/// `a <= cap / g` implies `a * g <= cap` (all non-negative, `g > 0`).
pub proof fn lemma_mul_le_cap(a: int, g: int, cap: int)
    requires
        a >= 0,
        g > 0,
        cap >= 0,
        a <= cap / g,
    ensures
        a * g <= cap,
{
    lemma_fundamental_div_mod(cap, g);
    lemma_mul_inequality(a, cap / g, g);
    lemma_mul_is_commutative(cap / g, g);
}

/// `a > cap / g` implies `a * g > cap` (all non-negative, `g > 0`).
pub proof fn lemma_mul_gt_cap(a: int, g: int, cap: int)
    requires
        a >= 0,
        g > 0,
        cap >= 0,
        a > cap / g,
    ensures
        a * g > cap,
{
    lemma_fundamental_div_mod(cap, g);
    lemma_mul_inequality(cap / g + 1, a, g);
    lemma_mul_is_distributive_add_other_way(g, cap / g, 1);
    lemma_mul_is_commutative(cap / g, g);
}

/// Clamp of a mathematical integer into the `u64` domain.
pub open spec fn clamp_u64(x: int) -> int {
    if x > u64::MAX { u64::MAX as int } else if x < 0 { 0 } else { x }
}

/// The multiplier `max(10000 + bps, 0)` used by [`apply_bps_i`].
pub open spec fn bps_adj(bps: int) -> int {
    if 10000 + bps >= 0 { 10000 + bps } else { 0 }
}

/// The extended-domain product of [`apply_bps_i`] stays representable.
pub open spec fn apply_bps_fits(value: u64, bps: int) -> bool {
    (value as int) * bps_adj(bps) <= i128::MAX
}

/// `clamp(value * max(10000 + bps, 0) / 10000, 0, u64::MAX)`.
pub open spec fn apply_bps_spec(value: u64, bps: int) -> int {
    clamp_u64((value as int) * bps_adj(bps) / 10000)
}

/// Scale `value` by `bps` basis points around 1: the result is
/// `value * max(10000 + bps, 0) / 10000`, clamped into the `u64` domain.
/// Fails with `MathOverflow` exactly when the 128-bit intermediate
/// product would not fit.
pub fn apply_bps_i(value: u64, bps: i64) -> (r: Result<u64, DlmmError>)
    ensures
        r is Ok <==> apply_bps_fits(value, bps as int),
        r is Ok ==> r->Ok_0 == apply_bps_spec(value, bps as int),
        r is Err ==> r->Err_0 == DlmmError::MathOverflow,
{
    let adj_signed: i128 = 10_000i128 + (bps as i128);
    let adj: u128 = if adj_signed >= 0 { adj_signed as u128 } else { 0 };
    assert(adj == bps_adj(bps as int));
    assert((value as int) * (adj as int) <= u128::MAX as int) by (nonlinear_arith)
        requires
            value as int <= 0xffff_ffff_ffff_ffff,
            0 <= adj as int <= 0x8000_0000_0000_2710,
    ;
    let product: u128 = (value as u128) * adj;
    if product > i128::MAX as u128 {
        Err(DlmmError::MathOverflow)
    } else {
        let scaled: u128 = product / 10_000u128;
        if scaled > u64::MAX as u128 {
            Ok(u64::MAX)
        } else {
            Ok(scaled as u64)
        }
    }
}

/// An EMA step on a 16-bit state: `prev + alpha * (new - prev) / 10000`,
/// truncated toward zero and clamped into the `u16` domain.
pub open spec fn ema16_spec(prev: u16, newv: u16, alpha: u16) -> int {
    if newv >= prev {
        let out = prev + alpha * (newv - prev) / 10000;
        if out > u16::MAX { u16::MAX as int } else { out }
    } else {
        let red = alpha * (prev - newv) / 10000;
        if red > prev { 0 } else { prev - red }
    }
}

/// Advance a 16-bit EMA state toward `newv` with smoothing `alpha_bps`.
pub fn ema_step_u16(prev: u16, newv: u16, alpha_bps: u16) -> (r: Result<
    u16,
    DlmmError,
>)
    ensures
        r is Ok,
        r->Ok_0 == ema16_spec(prev, newv, alpha_bps),
{
    if newv >= prev {
        let d: u64 = newv as u64 - prev as u64;
        assert((alpha_bps as int) * (d as int) <= u64::MAX as int) by (nonlinear_arith)
            requires
                alpha_bps as int <= 0xffff,
                0 <= d as int <= 0xffff,
        ;
        let out: u64 = prev as u64 + (alpha_bps as u64) * d / 10_000;
        if out > u16::MAX as u64 {
            Ok(u16::MAX)
        } else {
            Ok(out as u16)
        }
    } else {
        let d: u64 = prev as u64 - newv as u64;
        assert((alpha_bps as int) * (d as int) <= u64::MAX as int) by (nonlinear_arith)
            requires
                alpha_bps as int <= 0xffff,
                0 <= d as int <= 0xffff,
        ;
        let red: u64 = (alpha_bps as u64) * d / 10_000;
        if red > prev as u64 {
            Ok(0)
        } else {
            Ok((prev as u64 - red) as u16)
        }
    }
}

/// An EMA step on a 64-bit state: `prev + alpha * (new - prev) / 10000`,
/// truncated toward zero and clamped into the `u64` domain.
pub open spec fn ema64_spec(prev: u64, newv: u64, alpha: u16) -> int {
    if newv >= prev {
        let out = prev + alpha * (newv - prev) / 10000;
        if out > u64::MAX { u64::MAX as int } else { out }
    } else {
        let red = alpha * (prev - newv) / 10000;
        if red > prev { 0 } else { prev - red }
    }
}

/// Advance a 64-bit EMA state toward `newv` with smoothing `alpha_bps`.
pub fn ema_step_u64(prev: u64, newv: u64, alpha_bps: u16) -> (r: Result<
    u64,
    DlmmError,
>)
    ensures
        r is Ok,
        r->Ok_0 == ema64_spec(prev, newv, alpha_bps),
{
    if newv >= prev {
        let d: u128 = newv as u128 - prev as u128;
        assert((alpha_bps as int) * (d as int) <= u128::MAX as int) by (nonlinear_arith)
            requires
                alpha_bps as int <= 0xffff,
                0 <= d as int <= 0xffff_ffff_ffff_ffff,
        ;
        let out: u128 = prev as u128 + (alpha_bps as u128) * d / 10_000;
        if out > u64::MAX as u128 {
            Ok(u64::MAX)
        } else {
            Ok(out as u64)
        }
    } else {
        let d: u128 = prev as u128 - newv as u128;
        assert((alpha_bps as int) * (d as int) <= u128::MAX as int) by (nonlinear_arith)
            requires
                alpha_bps as int <= 0xffff,
                0 <= d as int <= 0xffff_ffff_ffff_ffff,
        ;
        let red: u128 = (alpha_bps as u128) * d / 10_000;
        if red > prev as u128 {
            Ok(0)
        } else {
            Ok((prev as u128 - red) as u64)
        }
    }
}

/// `|b - a| * 10000 / max(a, 1)`, truncated to 64 bits.
pub open spec fn diff_bps_spec(a: u64, b: u64) -> u64 {
    let base = if a >= 1 { a as int } else { 1 };
    let d = if b >= a { b - a } else { a - b };
    (d * 10000 / base) as u64
}

/// Relative distance of `b` from `a` in basis points, ordered around `a`.
/// The 128-bit intermediate never overflows, so this always succeeds.
pub fn diff_bps_u64(a: u64, b: u64) -> (r: Result<u64, DlmmError>)
    ensures
        r is Ok,
        r->Ok_0 == diff_bps_spec(a, b),
{
    let base: u64 = if a >= 1 { a } else { 1 };
    let d: u64 = if b >= a { b - a } else { a - b };
    assert((d as int) * 10_000 <= u128::MAX as int) by (nonlinear_arith)
        requires
            0 <= d as int <= 0xffff_ffff_ffff_ffff,
    ;
    let num: u128 = (d as u128) * 10_000u128;
    let q: u128 = num / (base as u128);
    Ok(#[verifier::truncate] (q as u64))
}

/// `|b - a|` for signed 32-bit inputs whose difference is representable.
pub fn diff_i_bps(a: i32, b: i32) -> (r: Result<i32, DlmmError>)
    requires
        -(i32::MAX as int) <= b - a <= i32::MAX as int,
    ensures
        r is Ok,
        r->Ok_0 == (if b >= a { b - a } else { a - b }),
{
    let d: i64 = b as i64 - a as i64;
    let ad: i64 = if d < 0 { -d } else { d };
    Ok(ad as i32)
}

/// One hundred trillion: `10^18 / 10^4`, the per-unit fee growth
/// contributed by one basis point of fee on one unit of trade.
pub const FEE_GROWTH_UNIT: u128 = 100_000_000_000_000;

/// One quintillion, the fee-growth scale.
pub const POW10_18: u128 = 1_000_000_000_000_000_000;

/// `(a * growth) / 10^18` with a saturating 128-bit product, truncated to
/// 64 bits.
pub open spec fn mul_div_1e18_spec(a: u64, growth: u128) -> u64 {
    let sat = if (a as int) * (growth as int) > u128::MAX {
        u128::MAX as int
    } else {
        (a as int) * (growth as int)
    };
    (sat / (POW10_18 as int)) as u64
}

/// Scale a share count by a 1e18-scaled fee-growth delta, truncating.
pub fn mul_div_1e18(a: u64, growth: u128) -> (r: u64)
    ensures
        r == mul_div_1e18_spec(a, growth),
{
    let num: u128 = if growth != 0 && (a as u128) > u128::MAX / growth {
        proof {
            lemma_mul_gt_cap(a as int, growth as int, u128::MAX as int);
        }
        u128::MAX
    } else {
        proof {
            if growth != 0 {
                lemma_mul_le_cap(a as int, growth as int, u128::MAX as int);
            } else {
                lemma_mul_by_zero_is_zero(a as int);
            }
        }
        (a as u128) * (growth as u128)
    };
    let q: u128 = num / POW10_18;
    #[verifier::truncate] (q as u64)
}

/// Snap a price down to a multiple of `tick`; a zero tick leaves it alone.
pub fn round_to_tick(p: u64, tick: u64) -> (r: u64)
    ensures
        tick == 0 ==> r == p,
        tick > 0 ==> r == (p as int / tick as int) * (tick as int),
{
    if tick == 0 {
        p
    } else {
        proof {
            lemma_fundamental_div_mod(p as int, tick as int);
            lemma_div_is_ordered_by_denominator(p as int, 1, tick as int);
            lemma_mul_le_cap(p as int / tick as int, tick as int, p as int);
        }
        (p / tick) * tick
    }
}

/// The midpoint `a / 2 + b / 2` of a band's bounds.
pub open spec fn mid_price_spec(a: u64, b: u64) -> int {
    a as int / 2 + b as int / 2
}

/// Midpoint of a price interval; never overflows.
pub fn mid_price(a: u64, b: u64) -> (r: u64)
    ensures
        r == mid_price_spec(a, b),
{
    a / 2 + b / 2
}

/// `|a - b|`.
pub open spec fn diff_abs_spec(a: u64, b: u64) -> int {
    if a >= b { a - b } else { b - a }
}

/// Absolute distance of two prices.
pub fn diff_abs(a: u64, b: u64) -> (r: u64)
    ensures
        r == diff_abs_spec(a, b),
{
    if a >= b { a - b } else { b - a }
}

} // verus!
