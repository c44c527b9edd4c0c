//! Laws the engine obeys across operations, stated and proved over the
//! same spec functions the operation contracts use.

use vstd::prelude::*;
use vstd::arithmetic::div_mod::*;
use vstd::arithmetic::mul::*;
use crate::math::lemma_mul_le_cap;
use crate::types::{Band, Pool};
use crate::bands::{
    BandParams, clamp_weight, spec_band_lower, spec_band_upper, spec_commit_center,
    spec_commit_width, spec_raw_weight, raw_prefix, spec_total_raw, spec_norm_weight, norm_prefix,
    spec_final_weight, spec_mid,
};
use crate::update::{bounty_amount, spec_d_center, spec_d_width, spec_weights_only};
use crate::liquidity::spec_pro_rata;
use crate::depth::band_sweep;

verus! {

/// The bounty never exceeds its configured cap, and never exceeds the
/// boosted change scaled by the rate: `amount * 10^6 * 10^4` stays within
/// `(d_center + d_width) * (10000 + boost) * rate`.
pub proof fn lemma_bounty_bounds(
    d_center_bps: u32,
    d_width_bps: u32,
    needs_update: bool,
    boost_bps: u16,
    rate_microunits: u64,
    max_amount: u64,
)
    ensures
        bounty_amount(d_center_bps, d_width_bps, needs_update, boost_bps, rate_microunits, max_amount)
            <= max_amount,
        bounty_amount(d_center_bps, d_width_bps, needs_update, boost_bps, rate_microunits, max_amount)
            * 10_000_000_000 <= (d_center_bps + d_width_bps) * (10000 + boost_bps)
            * rate_microunits,
{
    let change0 = if d_center_bps + d_width_bps > u32::MAX {
        u32::MAX as int
    } else {
        d_center_bps + d_width_bps
    };
    let boosted = change0 * (10000 + boost_bps) / 10000;
    let change = if needs_update {
        boosted
    } else {
        change0 as int
    };
    let raw = change * rate_microunits / 1000000;
    let amt = if raw > max_amount {
        max_amount as int
    } else {
        raw
    };
    assert(change0 <= d_center_bps + d_width_bps);
    assert(change0 * (10000 + boost_bps) >= 0) by (nonlinear_arith)
        requires
            change0 >= 0,
            boost_bps as int >= 0,
    ;
    lemma_div_pos_is_pos(change0 * (10000 + boost_bps), 10000);
    assert(boosted * 10000 <= change0 * (10000 + boost_bps)) by {
        lemma_fundamental_div_mod(change0 * (10000 + boost_bps), 10000);
        lemma_mul_le_cap(boosted, 10000, change0 * (10000 + boost_bps));
    }
    assert(change0 * 10000 <= change0 * (10000 + boost_bps)) by (nonlinear_arith)
        requires
            change0 >= 0,
            boost_bps as int >= 0,
    ;
    assert(change * 10000 <= change0 * (10000 + boost_bps));
    assert(change * rate_microunits >= 0) by (nonlinear_arith)
        requires
            change >= 0,
            rate_microunits as int >= 0,
    ;
    lemma_div_pos_is_pos(change * rate_microunits, 1000000);
    assert(raw * 1000000 <= change * rate_microunits) by {
        lemma_fundamental_div_mod(change * rate_microunits, 1000000);
        lemma_mul_le_cap(raw, 1000000, change * rate_microunits);
    }
    assert(amt * 1000000 <= raw * 1000000) by (nonlinear_arith)
        requires
            amt <= raw,
    ;
    // amt * 10^10 = (amt * 10^6) * 10^4 <= (change * rate) * 10^4
    //             = (change * 10^4) * rate <= (change0 * (10^4 + boost)) * rate
    assert(amt * 10_000_000_000 == (amt * 1000000) * 10000) by (nonlinear_arith);
    assert((amt * 1000000) * 10000 <= (change * rate_microunits) * 10000) by (nonlinear_arith)
        requires
            amt * 1000000 <= change * rate_microunits,
    ;
    assert((change * rate_microunits) * 10000 == (change * 10000) * rate_microunits)
        by (nonlinear_arith);
    assert((change * 10000) * rate_microunits <= (change0 * (10000 + boost_bps)) * rate_microunits)
        by (nonlinear_arith)
        requires
            change * 10000 <= change0 * (10000 + boost_bps),
            rate_microunits as int >= 0,
    ;
    assert((change0 * (10000 + boost_bps)) * rate_microunits <= ((d_center_bps + d_width_bps) * (
    10000 + boost_bps)) * rate_microunits) by (nonlinear_arith)
        requires
            0 <= change0 <= d_center_bps + d_width_bps,
            boost_bps as int >= 0,
            rate_microunits as int >= 0,
    ;
    assert(((d_center_bps + d_width_bps) * (10000 + boost_bps)) * rate_microunits == (d_center_bps
        + d_width_bps) * (10000 + boost_bps) * rate_microunits) by (nonlinear_arith);
}

/// Withdrawing every share just deposited into a previously empty band
/// returns exactly the deposited amounts: the pro-rata payout of
/// `max(a, b)` shares against reserves `(a, b)` and total `max(a, b)` is
/// `(a, b)` itself.
pub proof fn lemma_empty_band_round_trip(amount_a: u64, amount_b: u64)
    requires
        amount_a > 0 || amount_b > 0,
    ensures
        ({
            let shares = if amount_a >= amount_b {
                amount_a
            } else {
                amount_b
            };
            &&& spec_pro_rata(amount_a, shares, shares) == amount_a
            &&& spec_pro_rata(amount_b, shares, shares) == amount_b
        }),
{
    let shares = if amount_a >= amount_b {
        amount_a
    } else {
        amount_b
    };
    assert(shares > 0);
    lemma_div_multiples_vanish(amount_a as int, shares as int);
    lemma_div_multiples_vanish(amount_b as int, shares as int);
    assert((amount_a as int) * (shares as int) == (shares as int) * (amount_a as int)) by {
        lemma_mul_is_commutative(amount_a as int, shares as int);
    }
    assert((amount_b as int) * (shares as int) == (shares as int) * (amount_b as int)) by {
        lemma_mul_is_commutative(amount_b as int, shares as int);
    }
}

/// With a single band the committed geometry spans `[c, c * (1 + w)]` and
/// the band carries the whole weight of 10000 bps.
pub proof fn lemma_single_band(bp: BandParams, old: Seq<Band>)
    requires
        bp.n_bands == 1,
    ensures
        spec_band_lower(bp, false, 0) == spec_commit_center(bp, false),
        spec_band_upper(bp, false, 0) == crate::math::apply_bps_spec(
            spec_commit_center(bp, false) as u64,
            spec_commit_width(bp, false),
        ),
        spec_final_weight(bp, old, false, 0) == 10000,
{
    let c = spec_commit_center(bp, false) as u64;
    let w = spec_commit_width(bp, false);
    // the middle band's lower bound is the center itself
    assert(spec_mid(1) == 0);
    assert((0 - spec_mid(1)) * w == 0) by (nonlinear_arith);
    assert(crate::math::bps_adj(0) == 10000);
    assert((c as int) * 10000 / 10000 == c as int) by {
        lemma_mul_is_commutative(c as int, 10000);
        lemma_div_multiples_vanish(c as int, 10000);
    }
    assert(spec_band_lower(bp, false, 0) == c);
    assert((0 - spec_mid(1) + 1) * w == w) by (nonlinear_arith);
    // the single raw weight normalizes to the full 10000
    let raw = spec_raw_weight(bp, 0);
    assert(raw_prefix(bp, 0) == 0);
    assert(raw_prefix(bp, 1) == raw);
    assert(100 <= raw <= 10000);
    assert(spec_total_raw(bp) == raw);
    assert(raw * 10000 == 10000 * raw) by {
        lemma_mul_is_commutative(raw, 10000);
    }
    assert(raw * 10000 / raw == 10000) by {
        lemma_div_multiples_vanish(10000, raw);
    }
    assert(spec_norm_weight(bp, old, false, 0) == 10000);
    assert(norm_prefix(bp, old, false, 0) == 0);
    assert(norm_prefix(bp, old, false, 1) == 10000);
}

/// Deltas strictly below half their hysteresis thresholds trigger a
/// weights-only recompute: the band intervals are left untouched.
pub proof fn lemma_small_deltas_weights_only(p: Pool, bp: BandParams)
    requires
        2 * spec_d_center(p, bp) < p.hyst_center_bps as int,
        2 * spec_d_width(p, bp) < p.hyst_width_bps as int,
    ensures
        spec_weights_only(p, bp),
{
    lemma_fundamental_div_mod(p.hyst_center_bps as int, 2);
    lemma_fundamental_div_mod(p.hyst_width_bps as int, 2);
}

/// A band swap never grows a fee accumulator downward: both accumulators
/// of every band are monotone through the sweep.
pub proof fn lemma_band_sweep_growth_monotone(
    bands: Seq<Band>,
    order: Seq<int>,
    side: crate::types::Side,
    qty: u64,
    limit: u64,
    fee_bps: u16,
    pool_id: crate::types::AccountId,
)
    ensures
        ({
            let out = band_sweep(bands, order, side, qty, limit, fee_bps, pool_id);
            &&& out.0.len() == bands.len()
            &&& forall|i: int|
                0 <= i < bands.len() ==> (#[trigger] out.0[i]).fee_growth_a_1e18
                    >= bands[i].fee_growth_a_1e18 && out.0[i].fee_growth_b_1e18
                    >= bands[i].fee_growth_b_1e18
        }),
    decreases order.len(),
{
    if order.len() > 0 && qty != 0 {
        let i = order[0];
        let rest = order.drop_first();
        if 0 <= i < bands.len() {
            let b = bands[i];
            let mid = crate::types::band_mid(b);
            let skip = !b.is_active || (side is Bid && mid > limit) || (side is Ask && mid < limit)
                || (if side is Bid {
                b.reserves_b
            } else {
                b.reserves_a
            }) == 0;
            if skip {
                lemma_band_sweep_growth_monotone(bands, rest, side, qty, limit, fee_bps, pool_id);
            } else {
                let cap = if side is Bid {
                    b.reserves_b
                } else {
                    b.reserves_a
                };
                let trade = if qty <= cap {
                    qty
                } else {
                    cap
                };
                let growth = (trade as int) * (fee_bps as int) * (
                crate::math::FEE_GROWTH_UNIT as int);
                assert(growth >= 0) by (nonlinear_arith)
                    requires
                        growth == (trade as int) * (fee_bps as int) * (
                        crate::math::FEE_GROWTH_UNIT as int),
                        trade as int >= 0,
                        fee_bps as int >= 0,
                        crate::math::FEE_GROWTH_UNIT as int >= 0,
                ;
                let nb = Band {
                    reserves_a: (if side is Bid {
                        if b.reserves_a + trade > u64::MAX {
                            u64::MAX as int
                        } else {
                            b.reserves_a + trade
                        }
                    } else {
                        b.reserves_a - trade
                    }) as u64,
                    reserves_b: (if side is Bid {
                        b.reserves_b - trade
                    } else {
                        if b.reserves_b + trade > u64::MAX {
                            u64::MAX as int
                        } else {
                            b.reserves_b + trade
                        }
                    }) as u64,
                    fee_growth_a_1e18: (if b.fee_growth_a_1e18 + growth > u128::MAX {
                        u128::MAX as int
                    } else {
                        b.fee_growth_a_1e18 + growth
                    }) as u128,
                    fee_growth_b_1e18: (if b.fee_growth_b_1e18 + growth > u128::MAX {
                        u128::MAX as int
                    } else {
                        b.fee_growth_b_1e18 + growth
                    }) as u128,
                    ..b
                };
                lemma_band_sweep_growth_monotone(
                    bands.update(i, nb),
                    rest,
                    side,
                    (qty - trade) as u64,
                    limit,
                    fee_bps,
                    pool_id,
                );
            }
        } else {
            lemma_band_sweep_growth_monotone(bands, rest, side, qty, limit, fee_bps, pool_id);
        }
    }
}

} // verus!
