//! The risk-governed update pipeline: authorization and gating, EMA and
//! TWAP filters, hysteresis, the circuit-breaker-governed band commit,
//! inactive-band handling, the incentive bounty, and the metrics ring.

use vstd::prelude::*;
use crate::errors::DlmmError;
use crate::math::{
    diff_bps_spec, diff_bps_u64, ema16_spec, ema64_spec, ema_step_u16, ema_step_u64,
};
use crate::types::{
    AccountId, Band, BandsDigestUpdatedV, MetricItem, MetricsRing, Pool, TokenAccountState,
    bands_monotone, is_admin_spec, is_admin, pool_wf, same_geometry, weights_sum, EVENT_VERSION,
    METRICS_CAP,
};
use crate::bands::{BandParams, compute_bands, spec_band_lower, spec_band_upper};
use crate::maintain::{
    assert_invariants, mark_inactive_by_floor, renormalize_active_weights, last_active_index,
};
use crate::digest::{digest_bands, bands_bytes, keccak256_of};

verus! {

/* ------------------------------- Bounty ---------------------------------- */

/// The bounty owed for a committed update: the total band move in bps,
/// boosted when the pool had gone stale, scaled by the per-microunit rate
/// and capped at `bounty_max`.
pub open spec fn bounty_amount(
    d_center_bps: u32,
    d_width_bps: u32,
    needs_update: bool,
    boost_bps: u16,
    rate_microunits: u64,
    max_amount: u64,
) -> int {
    let change0 = if d_center_bps + d_width_bps > u32::MAX {
        u32::MAX as int
    } else {
        d_center_bps + d_width_bps
    };
    let change = if needs_update {
        change0 * (10000 + boost_bps) / 10000
    } else {
        change0
    };
    let raw = change * rate_microunits / 1000000;
    if raw > max_amount {
        max_amount as int
    } else {
        raw
    }
}


/// The account states after the bounty settles: `None` when the chosen
/// destination would overflow (the operation fails), otherwise the final
/// `(treasury_a, treasury_b, dst_a, dst_b)`.
pub open spec fn spec_bounty_outcome(
    p: Pool,
    needs_update: bool,
    ta: TokenAccountState,
    tb: TokenAccountState,
    da: TokenAccountState,
    db: TokenAccountState,
    d_center_bps: u32,
    d_width_bps: u32,
) -> Option<(TokenAccountState, TokenAccountState, TokenAccountState, TokenAccountState)> {
    let amt = bounty_amount(
        d_center_bps,
        d_width_bps,
        needs_update,
        p.bounty_boost_bps,
        p.bounty_rate_microunits,
        p.bounty_max,
    );
    if p.is_paused || p.g_pending is Some || amt == 0 {
        Some((ta, tb, da, db))
    } else if ta.amount >= amt && da.mint == ta.mint {
        if da.amount + amt <= u64::MAX {
            Some(
                (
                    TokenAccountState { amount: (ta.amount - amt) as u64, ..ta },
                    tb,
                    TokenAccountState { amount: (da.amount + amt) as u64, ..da },
                    db,
                ),
            )
        } else {
            None
        }
    } else if tb.amount >= amt && db.mint == tb.mint {
        if db.amount + amt <= u64::MAX {
            Some(
                (
                    ta,
                    TokenAccountState { amount: (tb.amount - amt) as u64, ..tb },
                    da,
                    TokenAccountState { amount: (db.amount + amt) as u64, ..db },
                ),
            )
        } else {
            None
        }
    } else {
        Some((ta, tb, da, db))
    }
}

/// Pay the update bounty, best effort: skipped while paused or while a
/// proposal is pending, and skipped silently when neither treasury can
/// cover it into a matching destination. Returns the amount paid. A
/// destination balance that would overflow fails the operation instead.
pub fn pay_bounty_if_any(
    pool: &Pool,
    needs_update: bool,
    treasury_a: &mut TokenAccountState,
    treasury_b: &mut TokenAccountState,
    dst_a: &mut TokenAccountState,
    dst_b: &mut TokenAccountState,
    d_center_bps: u32,
    d_width_bps: u32,
) -> (r: Result<u64, DlmmError>)
    ensures
        r is Err ==> r->Err_0 == DlmmError::MathOverflow && *final(treasury_a) == *old(treasury_a)
            && *final(treasury_b) == *old(treasury_b) && *final(dst_a) == *old(dst_a)
            && *final(dst_b) == *old(dst_b),
        (match spec_bounty_outcome(
            *pool,
            needs_update,
            *old(treasury_a),
            *old(treasury_b),
            *old(dst_a),
            *old(dst_b),
            d_center_bps,
            d_width_bps,
        ) {
            Option::None => r is Err,
            Option::Some(t) => r is Ok && *final(treasury_a) == t.0 && *final(treasury_b) == t.1
                && *final(dst_a) == t.2 && *final(dst_b) == t.3,
        }),
        r is Ok ==> r->Ok_0 as int == 0 || r->Ok_0 as int == bounty_amount(
            d_center_bps,
            d_width_bps,
            needs_update,
            pool.bounty_boost_bps,
            pool.bounty_rate_microunits,
            pool.bounty_max,
        ),
        r is Ok ==> r->Ok_0 <= pool.bounty_max,
        r is Ok ==> (r->Ok_0 == 0 <==> *final(treasury_a) == *old(treasury_a) && *final(treasury_b)
            == *old(treasury_b)),
{
    if pool.is_paused || pool.g_pending.is_some() {
        return Ok(0);
    }
    let change0: u32 = if d_width_bps > u32::MAX - d_center_bps {
        u32::MAX
    } else {
        d_center_bps + d_width_bps
    };
    let change: u128 = if needs_update {
        assert((change0 as int) * (10000 + pool.bounty_boost_bps as int) <= 0x2_0000_0000_0000)
            by (nonlinear_arith)
            requires
                0 <= change0 as int <= 0xffff_ffff,
                0 <= pool.bounty_boost_bps as int <= 0xffff,
        ;
        let prod: u128 = (change0 as u128) * (10000u128 + pool.bounty_boost_bps as u128);
        proof {
            vstd::arithmetic::div_mod::lemma_div_is_ordered_by_denominator(prod as int, 1, 10000);
        }
        prod / 10000u128
    } else {
        change0 as u128
    };
    assert((change as int) * (pool.bounty_rate_microunits as int) <= u128::MAX as int)
        by (nonlinear_arith)
        requires
            0 <= change as int <= 0x2_0000_0000_0000,
            0 <= pool.bounty_rate_microunits as int <= 0xffff_ffff_ffff_ffff,
    ;
    let raw: u128 = change * (pool.bounty_rate_microunits as u128) / 1000000u128;
    let amount: u64 = if raw > pool.bounty_max as u128 {
        pool.bounty_max
    } else {
        raw as u64
    };
    if amount == 0 {
        return Ok(0);
    }
    if treasury_a.amount >= amount && dst_a.mint == treasury_a.mint {
        if dst_a.amount > u64::MAX - amount {
            return Err(DlmmError::MathOverflow);
        }
        treasury_a.amount = treasury_a.amount - amount;
        dst_a.amount = dst_a.amount + amount;
        Ok(amount)
    } else if treasury_b.amount >= amount && dst_b.mint == treasury_b.mint {
        if dst_b.amount > u64::MAX - amount {
            return Err(DlmmError::MathOverflow);
        }
        treasury_b.amount = treasury_b.amount - amount;
        dst_b.amount = dst_b.amount + amount;
        Ok(amount)
    } else {
        Ok(0)
    }
}

/* ------------------------------- Metrics --------------------------------- */

/// Append one digest sample to the ring.
pub fn push_metric(
    m: &mut MetricsRing,
    slot: u64,
    center: u64,
    width: u16,
    total_w: u32,
    hash: [u8; 32],
) -> (item: MetricItem)
    ensures
        item == (MetricItem {
            slot: slot,
            center_price_1e6: center,
            width_bps: width,
            total_weight_bps: total_w,
            hash: hash,
        }),
        *final(m) == (MetricsRing {
            head: final(m).head,
            count: final(m).count,
            items: final(m).items,
            ..*old(m)
        }),
        final(m).head == ((old(m).head as int + 1) % 0x10000) as u16,
        final(m).count as int == (if old(m).count as int + 1 > old(m).capacity as int {
            old(m).capacity as int
        } else {
            old(m).count as int + 1
        }),
        final(m).items@.len() == (if old(m).items@.len() < METRICS_CAP as int {
            METRICS_CAP as int
        } else {
            old(m).items@.len() as int
        }),
        final(m).items@[(old(m).head as int) % (METRICS_CAP as int)] == item,
{
    while m.items.len() < METRICS_CAP
        invariant
            *m == (MetricsRing { items: m.items, ..*old(m) }),
            m.items@.len() >= old(m).items@.len(),
            m.items@.len() <= METRICS_CAP as int || m.items@.len() == old(m).items@.len(),
        decreases METRICS_CAP - m.items.len(),
    {
        m.items.push(
            MetricItem {
                slot: 0,
                center_price_1e6: 0,
                width_bps: 0,
                total_weight_bps: 0,
                hash: [0u8; 32],
            },
        );
    }
    let idx: usize = (m.head as usize) % METRICS_CAP;
    let item = MetricItem {
        slot,
        center_price_1e6: center,
        width_bps: width,
        total_weight_bps: total_w,
        hash,
    };
    m.items[idx] = item;
    let new_head: u16 = if m.head == u16::MAX {
        0
    } else {
        m.head + 1
    };
    m.head = new_head;
    let count1: u16 = if m.count == u16::MAX {
        u16::MAX
    } else {
        m.count + 1
    };
    m.count = if count1 > m.capacity {
        m.capacity
    } else {
        count1
    };
    item
}

/* --------------------------- The update itself --------------------------- */

/// The error one of the authorization and gating steps reports, in order,
/// or `None` when all gates pass.
pub open spec fn spec_update_gate_error(
    p: Pool,
    caller: AccountId,
    oracle_account: Option<AccountId>,
    oracle_signed: bool,
    metrics: Option<MetricsRing>,
    pool_id: AccountId,
    cu_price: u64,
    now_slot: u64,
) -> Option<DlmmError> {
    if p.is_paused || p.pause_bands {
        Some(DlmmError::Paused)
    } else if !(caller == p.updater || is_admin_spec(p.admins@, caller)) {
        Some(DlmmError::Unauthorized)
    } else if p.oracle_signer is Some && oracle_account is None {
        Some(DlmmError::MissingOracleSigner)
    } else if p.oracle_signer is Some && !(oracle_signed && oracle_account == p.oracle_signer) {
        Some(DlmmError::Unauthorized)
    } else if metrics matches Some(m) && m.pool != pool_id {
        Some(DlmmError::Unauthorized)
    } else if p.min_cu_price > 0 && cu_price < p.min_cu_price {
        Some(DlmmError::CuPriceTooLow)
    } else if p.last_update_slot + p.min_update_interval_slots > now_slot {
        Some(DlmmError::CooldownNotElapsed)
    } else {
        None
    }
}

/// The filter state after this update's EMA steps.
pub open spec fn spec_update_bp(p: Pool, y_a: u16, y_b: u16, spot: u64) -> BandParams {
    BandParams {
        n_bands: p.n_bands,
        base_width_bps: p.base_width_bps,
        min_width_bps: p.min_width_bps,
        max_width_bps: p.max_width_bps,
        width_slope_per_kbps: p.width_slope_per_kbps,
        bias_per_kbps: p.bias_per_kbps,
        decay_per_band_bps: p.decay_per_band_bps,
        ema_y_a_bps: ema16_spec(p.ema_y_a_bps, y_a, p.alpha_y_bps) as u16,
        ema_y_b_bps: ema16_spec(p.ema_y_b_bps, y_b, p.alpha_y_bps) as u16,
        ema_spot_1e6: ema64_spec(p.ema_spot_1e6, spot, p.alpha_spot_bps) as u64,
        max_center_move_bps: p.max_center_move_bps,
        max_width_change_bps: p.max_width_change_bps,
        max_weight_shift_bps: p.max_weight_shift_bps,
        last_width_bps: p.last_width_bps,
        last_center_price_1e6: p.last_center_price_1e6,
    }
}

/// The candidate center's distance from the previous center, in bps.
pub open spec fn spec_d_center(p: Pool, bp: BandParams) -> int {
    diff_bps_spec(
        p.last_center_price_1e6,
        crate::bands::spec_preview_center(bp) as u64,
    ) as int
}

/// The candidate width's distance from the previous width, in bps.
pub open spec fn spec_d_width(p: Pool, bp: BandParams) -> int {
    let w = crate::bands::spec_preview_width(bp);
    if w >= p.last_width_bps as int {
        w - p.last_width_bps
    } else {
        p.last_width_bps - w
    }
}

/// The TWAP of the center after this update's step.
pub open spec fn spec_new_twap(p: Pool) -> int {
    let anchor = if p.last_center_price_1e6 >= 1 {
        p.last_center_price_1e6
    } else {
        1u64
    };
    ema64_spec(p.twap_center_1e6, anchor, p.alpha_twap_bps)
}

/// Whether the update recomputes only weights: both deltas sit at or
/// below half their hysteresis thresholds.
pub open spec fn spec_weights_only(p: Pool, bp: BandParams) -> bool {
    spec_d_center(p, bp) <= p.hyst_center_bps as int / 2 && spec_d_width(p, bp)
        <= p.hyst_width_bps as int / 2
}

/// The hysteresis counters after this update's deltas.
pub open spec fn spec_new_hyst(p: Pool, bp: BandParams) -> (int, int) {
    let c = if spec_d_center(p, bp) >= p.hyst_center_bps as int {
        if p.hyst_ctr_center as int + 1 > 255 {
            255
        } else {
            p.hyst_ctr_center as int + 1
        }
    } else {
        0
    };
    let w = if spec_d_width(p, bp) >= p.hyst_width_bps as int {
        if p.hyst_ctr_width as int + 1 > 255 {
            255
        } else {
            p.hyst_ctr_width as int + 1
        }
    } else {
        0
    };
    (c, w)
}

/// The volatility EMA after this update.
pub open spec fn spec_new_vol(p: Pool, bp: BandParams) -> int {
    let d = spec_d_center(p, bp);
    let capped = if d > 65535 {
        65535
    } else {
        d
    };
    ema16_spec(p.vol_ema_bps, capped as u16, p.alpha_vol_bps)
}

/// The dynamic fee after this update: base plus slope times volatility,
/// capped at the maximum.
pub open spec fn spec_new_fee(p: Pool, bp: BandParams) -> int {
    let raw = p.fee_base_bps + p.fee_k_per_bps * spec_new_vol(p, bp);
    if raw > p.fee_max_bps {
        p.fee_max_bps as int
    } else {
        raw
    }
}


/// The error the update reports, in decision order, or `None` when it
/// commits: a gate error; then a candidate too far from the TWAP; unmet
/// hysteresis; a degenerate interval (unless weights-only); a vault mint
/// mismatch; every band below its inactivity floor (the rescaled weights
/// cannot reach 10000); and finally a bounty destination that would
/// overflow.
pub open spec fn spec_update_error(
    p: Pool,
    caller: AccountId,
    oracle_account: Option<AccountId>,
    oracle_signed: bool,
    metrics: Option<MetricsRing>,
    pool_id: AccountId,
    cu_price: u64,
    now_slot: u64,
    y_a: u16,
    y_b: u16,
    spot: u64,
    mint_a: AccountId,
    mint_b: AccountId,
    vault_a: TokenAccountState,
    vault_b: TokenAccountState,
    treasury_a: TokenAccountState,
    treasury_b: TokenAccountState,
    dst_a: TokenAccountState,
    dst_b: TokenAccountState,
) -> Option<DlmmError> {
    match spec_update_gate_error(
        p,
        caller,
        oracle_account,
        oracle_signed,
        metrics,
        pool_id,
        cu_price,
        now_slot,
    ) {
        Some(e) => Some(e),
        None => {
            let bp = spec_update_bp(p, y_a, y_b, spot);
            let dev = diff_bps_spec(
                spec_new_twap(p) as u64,
                crate::bands::spec_preview_center(bp) as u64,
            );
            let hyst = spec_new_hyst(p, bp);
            if dev as int > p.max_twap_dev_bps as int {
                Some(DlmmError::DeviationTooHigh)
            } else if !(hyst.0 >= p.hyst_required_n as int || hyst.1
                >= p.hyst_required_n as int) {
                Some(DlmmError::HysteresisNotMet)
            } else if !spec_weights_only(p, bp) && (exists|i: int|
                0 <= i < p.n_bands as int && spec_band_lower(bp, true, i) >= spec_band_upper(
                    bp,
                    true,
                    i,
                )) {
                Some(DlmmError::InvalidBandRange)
            } else if !(vault_a.mint == mint_a && vault_b.mint == mint_b) {
                Some(DlmmError::VaultMintMismatch)
            } else if last_active_index(
                crate::gov::marked_bands(p.bands@, p.inactive_floor_a, p.inactive_floor_b),
                p.bands@.len() as int,
            ) < 0 {
                Some(DlmmError::WeightSumInvalid)
            } else if spec_bounty_outcome(
                p,
                now_slot - p.last_update_slot > p.stale_slots_for_boost,
                treasury_a,
                treasury_b,
                dst_a,
                dst_b,
                ((spec_d_center(p, bp) as u64) as u32),
                ((spec_d_width(p, bp) as u64) as u32),
            ) is None {
                Some(DlmmError::MathOverflow)
            } else {
                None
            }
        },
    }
}

/// Ingest raw `(y_a, y_b, spot)` under the configured gates, advance the
/// filters, commit the bands under circuit breakers, refresh activity and
/// weights, pay the bounty, and report the committed geometry. On any
/// failure nothing changes.
#[verifier::rlimit(100)]
pub fn post_yields_and_update(
    pool: &mut Pool,
    metrics: &mut Option<MetricsRing>,
    pool_id: AccountId,
    caller: AccountId,
    oracle_account: Option<AccountId>,
    oracle_signed: bool,
    y_a_bps_raw: u16,
    y_b_bps_raw: u16,
    spot_price_1e6_raw: u64,
    cu_price_micro_lamports: u64,
    now_slot: u64,
    mint_a: AccountId,
    mint_b: AccountId,
    vault_a: &TokenAccountState,
    vault_b: &TokenAccountState,
    treasury_a: &mut TokenAccountState,
    treasury_b: &mut TokenAccountState,
    caller_ata_a: &mut TokenAccountState,
    caller_ata_b: &mut TokenAccountState,
) -> (r: Result<BandsDigestUpdatedV, DlmmError>)
    requires
        pool_wf(*old(pool)),
        old(pool).last_update_slot as int + old(pool).min_update_interval_slots as int
            <= u64::MAX as int,
    ensures
        r is Err ==> *final(pool) == *old(pool) && *final(metrics) == *old(metrics)
            && *final(treasury_a) == *old(treasury_a) && *final(treasury_b) == *old(treasury_b)
            && *final(caller_ata_a) == *old(caller_ata_a) && *final(caller_ata_b) == *old(caller_ata_b),
        (match spec_update_error(
            *old(pool),
            caller,
            oracle_account,
            oracle_signed,
            *old(metrics),
            pool_id,
            cu_price_micro_lamports,
            now_slot,
            y_a_bps_raw,
            y_b_bps_raw,
            spot_price_1e6_raw,
            mint_a,
            mint_b,
            *vault_a,
            *vault_b,
            *old(treasury_a),
            *old(treasury_b),
            *old(caller_ata_a),
            *old(caller_ata_b),
        ) {
            Some(e) => r == Err::<BandsDigestUpdatedV, DlmmError>(e),
            None => r is Ok,
        }),
        r is Ok ==> ({
            let bp = spec_update_bp(*old(pool), y_a_bps_raw, y_b_bps_raw, spot_price_1e6_raw);
            let hyst = spec_new_hyst(*old(pool), bp);
            let p1 = *final(pool);
            &&& spec_update_gate_error(
                *old(pool),
                caller,
                oracle_account,
                oracle_signed,
                *old(metrics),
                pool_id,
                cu_price_micro_lamports,
                now_slot,
            ) is None
            &&& p1 == (Pool {
                y_a_bps: p1.y_a_bps,
                y_b_bps: p1.y_b_bps,
                spot_price_1e6: p1.spot_price_1e6,
                ema_y_a_bps: p1.ema_y_a_bps,
                ema_y_b_bps: p1.ema_y_b_bps,
                ema_spot_1e6: p1.ema_spot_1e6,
                twap_center_1e6: p1.twap_center_1e6,
                hyst_ctr_center: p1.hyst_ctr_center,
                hyst_ctr_width: p1.hyst_ctr_width,
                vol_ema_bps: p1.vol_ema_bps,
                fee_current_bps: p1.fee_current_bps,
                needs_update: p1.needs_update,
                last_update_slot: p1.last_update_slot,
                post_only_until_slot: p1.post_only_until_slot,
                last_width_bps: p1.last_width_bps,
                last_center_price_1e6: p1.last_center_price_1e6,
                total_weight_bps: p1.total_weight_bps,
                bands: p1.bands,
                ..*old(pool)
            })
            &&& p1.y_a_bps == y_a_bps_raw
            &&& p1.y_b_bps == y_b_bps_raw
            &&& p1.spot_price_1e6 == spot_price_1e6_raw
            &&& p1.ema_y_a_bps == bp.ema_y_a_bps
            &&& p1.ema_y_b_bps == bp.ema_y_b_bps
            &&& p1.ema_spot_1e6 == bp.ema_spot_1e6
            &&& p1.twap_center_1e6 as int == spec_new_twap(*old(pool))
            &&& p1.hyst_ctr_center as int == hyst.0
            &&& p1.hyst_ctr_width as int == hyst.1
            &&& p1.vol_ema_bps as int == spec_new_vol(*old(pool), bp)
            &&& p1.fee_current_bps as int == spec_new_fee(*old(pool), bp)
            &&& p1.needs_update == (now_slot - old(pool).last_update_slot > old(
                pool,
            ).stale_slots_for_boost)
            &&& p1.last_update_slot == now_slot
            &&& p1.post_only_until_slot == now_slot
            &&& p1.bands@.len() == old(pool).n_bands as int
            &&& p1.n_bands == old(pool).n_bands
            &&& weights_sum(p1.bands@) == 10000
            &&& bands_monotone(p1.bands@)
            &&& old(pool).min_width_bps <= p1.last_width_bps <= old(pool).max_width_bps
            &&& pool_wf(p1)
            &&& (spec_weights_only(*old(pool), bp) ==> same_geometry(p1.bands@, old(pool).bands@))
            &&& forall|i: int|
                0 <= i < old(pool).bands@.len() && i < p1.bands@.len() ==> (#[trigger] p1.bands@[i]).fee_growth_a_1e18
                    >= old(pool).bands@[i].fee_growth_a_1e18 && p1.bands@[i].fee_growth_b_1e18
                    >= old(pool).bands@[i].fee_growth_b_1e18 && p1.bands@[i].reserves_a == old(
                    pool,
                ).bands@[i].reserves_a && p1.bands@[i].reserves_b == old(pool).bands@[i].reserves_b
                    && p1.bands@[i].total_shares == old(pool).bands@[i].total_shares
            &&& r->Ok_0 == (BandsDigestUpdatedV {
                event_version: EVENT_VERSION,
                pool: pool_id,
                width_bps: p1.last_width_bps,
                center_price_1e6: p1.last_center_price_1e6,
                total_weight_bps: p1.total_weight_bps,
                hash: r->Ok_0.hash,
                slot: now_slot,
                fee_current_bps: p1.fee_current_bps,
                vol_ema_bps: p1.vol_ema_bps,
            })
            &&& r->Ok_0.hash@ == keccak256_of(bands_bytes(p1.bands@))
            &&& p1.total_weight_bps == weights_sum(p1.bands@)
            &&& vault_a.mint == mint_a && vault_b.mint == mint_b
            &&& ({
                let needs = now_slot - old(pool).last_update_slot > old(
                    pool,
                ).stale_slots_for_boost;
                let dc32 = (spec_d_center(*old(pool), bp) as u64) as u32;
                let dw32 = (spec_d_width(*old(pool), bp) as u64) as u32;
                spec_bounty_outcome(
                    *old(pool),
                    needs,
                    *old(treasury_a),
                    *old(treasury_b),
                    *old(caller_ata_a),
                    *old(caller_ata_b),
                    dc32,
                    dw32,
                ) == Some(
                    (*final(treasury_a), *final(treasury_b), *final(caller_ata_a), *final(caller_ata_b)),
                )
            })
            &&& ((*old(metrics)) is None ==> (*final(metrics)) is None)
            &&& ((*old(metrics)) matches Some(m0) ==> ((*final(metrics)) matches Some(m1) && m1.pool
                == m0.pool && m1.capacity == m0.capacity && m1.head as int == (m0.head as int + 1)
                % 0x10000 && m1.items@[(m0.head as int) % (METRICS_CAP as int)] == (MetricItem {
                slot: now_slot,
                center_price_1e6: p1.last_center_price_1e6,
                width_bps: p1.last_width_bps,
                total_weight_bps: p1.total_weight_bps,
                hash: r->Ok_0.hash,
            })))
        }),
{
    // authorization and gating, fail-closed and side-effect free
    if pool.is_paused || pool.pause_bands {
        return Err(DlmmError::Paused);
    }
    if !(caller == pool.updater || is_admin(&pool.admins, &caller)) {
        return Err(DlmmError::Unauthorized);
    }
    if let Some(oracle_pk) = pool.oracle_signer {
        match oracle_account {
            None => {
                return Err(DlmmError::MissingOracleSigner);
            },
            Some(k) => {
                if !(oracle_signed && k == oracle_pk) {
                    return Err(DlmmError::Unauthorized);
                }
            },
        }
    }
    if let Some(m) = metrics {
        if !(m.pool == pool_id) {
            return Err(DlmmError::Unauthorized);
        }
    }
    if pool.min_cu_price > 0 && cu_price_micro_lamports < pool.min_cu_price {
        return Err(DlmmError::CuPriceTooLow);
    }
    if pool.last_update_slot + (pool.min_update_interval_slots as u64) > now_slot {
        return Err(DlmmError::CooldownNotElapsed);
    }

    // filter advance, computed without touching the pool
    let stale: u64 = now_slot - pool.last_update_slot;
    let needs_update = stale > pool.stale_slots_for_boost;
    let new_ema_y_a = match ema_step_u16(pool.ema_y_a_bps, y_a_bps_raw, pool.alpha_y_bps) {
        Ok(v) => v,
        Err(e) => {
            return Err(e);
        },
    };
    let new_ema_y_b = match ema_step_u16(pool.ema_y_b_bps, y_b_bps_raw, pool.alpha_y_bps) {
        Ok(v) => v,
        Err(e) => {
            return Err(e);
        },
    };
    let new_ema_spot = match ema_step_u64(pool.ema_spot_1e6, spot_price_1e6_raw, pool.alpha_spot_bps) {
        Ok(v) => v,
        Err(e) => {
            return Err(e);
        },
    };
    let prev_center = pool.last_center_price_1e6;
    let mut bp = pool.band_params();
    bp.ema_y_a_bps = new_ema_y_a;
    bp.ema_y_b_bps = new_ema_y_b;
    bp.ema_spot_1e6 = new_ema_spot;
    assert(bp == spec_update_bp(*pool, y_a_bps_raw, y_b_bps_raw, spot_price_1e6_raw));

    let (cand_center, cand_width) = match crate::bands::preview_center_width(&bp) {
        Ok(cw) => cw,
        Err(e) => {
            return Err(e);
        },
    };
    let d_center_bps: u64 = match diff_bps_u64(prev_center, cand_center) {
        Ok(v) => v,
        Err(e) => {
            return Err(e);
        },
    };
    let d_width_bps: u64 = if cand_width >= pool.last_width_bps {
        (cand_width - pool.last_width_bps) as u64
    } else {
        (pool.last_width_bps - cand_width) as u64
    };

    // TWAP deviation guard
    let anchor: u64 = if prev_center >= 1 {
        prev_center
    } else {
        1
    };
    let new_twap = match ema_step_u64(pool.twap_center_1e6, anchor, pool.alpha_twap_bps) {
        Ok(v) => v,
        Err(e) => {
            return Err(e);
        },
    };
    let dev_vs_twap = match diff_bps_u64(new_twap, cand_center) {
        Ok(v) => v,
        Err(e) => {
            return Err(e);
        },
    };
    if dev_vs_twap > pool.max_twap_dev_bps as u64 {
        return Err(DlmmError::DeviationTooHigh);
    }

    // hysteresis
    let new_ctr_center: u8 = if d_center_bps >= pool.hyst_center_bps as u64 {
        if pool.hyst_ctr_center == u8::MAX {
            u8::MAX
        } else {
            pool.hyst_ctr_center + 1
        }
    } else {
        0
    };
    let new_ctr_width: u8 = if d_width_bps >= pool.hyst_width_bps as u64 {
        if pool.hyst_ctr_width == u8::MAX {
            u8::MAX
        } else {
            pool.hyst_ctr_width + 1
        }
    } else {
        0
    };
    if !(new_ctr_center >= pool.hyst_required_n || new_ctr_width >= pool.hyst_required_n) {
        return Err(DlmmError::HysteresisNotMet);
    }

    // volatility EMA and dynamic fee
    let vol_in: u16 = if d_center_bps > 65535 {
        65535
    } else {
        d_center_bps as u16
    };
    let new_vol = match ema_step_u16(pool.vol_ema_bps, vol_in, pool.alpha_vol_bps) {
        Ok(v) => v,
        Err(e) => {
            return Err(e);
        },
    };
    assert((pool.fee_k_per_bps as int) * (new_vol as int) <= 0xfffe_0001) by (nonlinear_arith)
        requires
            0 <= pool.fee_k_per_bps as int <= 0xffff,
            0 <= new_vol as int <= 0xffff,
    ;
    let dyn_fee0: u32 = (pool.fee_base_bps as u32) + (pool.fee_k_per_bps as u32) * (new_vol
        as u32);
    let new_fee: u16 = if dyn_fee0 > pool.fee_max_bps as u32 {
        pool.fee_max_bps
    } else {
        dyn_fee0 as u16
    };

    // weights-only when both deltas sit at or below half their thresholds
    let weights_only = d_center_bps <= pool.hyst_center_bps as u64 / 2 && d_width_bps
        <= pool.hyst_width_bps as u64 / 2;

    // commit the bands under circuit breakers, on a candidate
    let (nb, center, width, _total0) = match compute_bands(&bp, &pool.bands, true, weights_only) {
        Ok(out) => out,
        Err(e) => {
            return Err(e);
        },
    };

    // swap the candidate in, refresh activity and weights, and verify the
    // invariants; restore everything on failure
    let saved_lw = pool.last_width_bps;
    let saved_lc = pool.last_center_price_1e6;
    let saved_tw = pool.total_weight_bps;
    let mut saved_bands = nb;
    core::mem::swap(&mut pool.bands, &mut saved_bands);
    let ghost nbv = pool.bands@;
    pool.last_width_bps = width;
    pool.last_center_price_1e6 = center;
    mark_inactive_by_floor(pool);
    let ghost marked_cand = pool.bands@;
    match renormalize_active_weights(pool) {
        Ok(()) => (),
        Err(e) => {
            core::mem::swap(&mut pool.bands, &mut saved_bands);
            pool.last_width_bps = saved_lw;
            pool.last_center_price_1e6 = saved_lc;
            pool.total_weight_bps = saved_tw;
            return Err(e);
        },
    }
    proof {
        let p0 = *old(pool);
        let cand = pool.bands@;
        let fa = p0.inactive_floor_a;
        let fb = p0.inactive_floor_b;
        // the renormalized candidate keeps the computed geometry
        assert forall|i: int|
            0 <= i < cand.len() implies (#[trigger] cand[i]).lower_price_1e6
                == nbv[i].lower_price_1e6 && cand[i].upper_price_1e6
                == nbv[i].upper_price_1e6 by {
            assert(marked_cand[i].lower_price_1e6 == nbv[i].lower_price_1e6);
            assert(marked_cand[i].upper_price_1e6 == nbv[i].upper_price_1e6);
        }
        assert(bands_monotone(cand)) by {
            assert forall|i: int|
                0 <= i < cand.len() implies (#[trigger] cand[i]).lower_price_1e6
                    < cand[i].upper_price_1e6 by {
                assert(nbv[i].lower_price_1e6 < nbv[i].upper_price_1e6);
            }
            assert forall|i: int|
                0 < i < cand.len() implies (#[trigger] cand[i]).lower_price_1e6 >= cand[i
                    - 1].upper_price_1e6 by {
                assert(nbv[i].lower_price_1e6 >= nbv[i - 1].upper_price_1e6);
            }
        }
        // the activity flags mirror the prior reserves, so the last active
        // index agrees with the one computed on the prior band vector
        let marked_prior = crate::gov::marked_bands(p0.bands@, fa, fb);
        assert forall|i: int|
            0 <= i < marked_cand.len() implies (#[trigger] marked_cand[i]).is_active
                == marked_prior[i].is_active by {
            assert(crate::bands::band_built(bp, p0.bands@, true, weights_only, i, nbv[i]));
            assert(nbv[i].reserves_a == p0.bands@[i].reserves_a);
            assert(nbv[i].reserves_b == p0.bands@[i].reserves_b);
        }
        crate::maintain::lemma_last_active_same_flags(
            marked_cand,
            marked_prior,
            marked_cand.len() as int,
        );
    }
    match assert_invariants(&mint_a, &mint_b, vault_a, vault_b, pool) {
        Ok(()) => (),
        Err(e) => {
            proof {
                let p0 = *old(pool);
                let marked_prior = crate::gov::marked_bands(
                    p0.bands@,
                    p0.inactive_floor_a,
                    p0.inactive_floor_b,
                );
                // the structural checks all hold of the candidate, so only
                // the mint match or the weight sum can have failed
                if e != DlmmError::VaultMintMismatch {
                    assert(e == DlmmError::WeightSumInvalid);
                    assert(weights_sum(pool.bands@) != 10000);
                    assert(last_active_index(marked_cand, marked_cand.len() as int) < 0);
                    assert(last_active_index(marked_prior, p0.bands@.len() as int) < 0);
                }
            }
            core::mem::swap(&mut pool.bands, &mut saved_bands);
            pool.last_width_bps = saved_lw;
            pool.last_center_price_1e6 = saved_lc;
            pool.total_weight_bps = saved_tw;
            assert(*pool == *old(pool));
            return Err(e);
        },
    }

    // bounty, before anything else is committed
    let d_center_u32: u32 = #[verifier::truncate] (d_center_bps as u32);
    let d_width_u32: u32 = #[verifier::truncate] (d_width_bps as u32);
    proof {
        // the sum reached 10000, so some band stayed active
        let p0 = *old(pool);
        let marked_prior = crate::gov::marked_bands(
            p0.bands@,
            p0.inactive_floor_a,
            p0.inactive_floor_b,
        );
        assert(last_active_index(marked_cand, marked_cand.len() as int) >= 0);
        assert(last_active_index(marked_prior, p0.bands@.len() as int) >= 0);
        // the bounty reads only fields the commit has not touched
        assert(spec_bounty_outcome(
            *pool,
            needs_update,
            *treasury_a,
            *treasury_b,
            *caller_ata_a,
            *caller_ata_b,
            d_center_u32,
            d_width_u32,
        ) == spec_bounty_outcome(
            p0,
            needs_update,
            *treasury_a,
            *treasury_b,
            *caller_ata_a,
            *caller_ata_b,
            d_center_u32,
            d_width_u32,
        ));
    }
    match pay_bounty_if_any(
        pool,
        needs_update,
        treasury_a,
        treasury_b,
        caller_ata_a,
        caller_ata_b,
        d_center_u32,
        d_width_u32,
    ) {
        Ok(_) => (),
        Err(e) => {
            core::mem::swap(&mut pool.bands, &mut saved_bands);
            pool.last_width_bps = saved_lw;
            pool.last_center_price_1e6 = saved_lc;
            pool.total_weight_bps = saved_tw;
            return Err(e);
        },
    }

    // commit the filter state and flags
    pool.y_a_bps = y_a_bps_raw;
    pool.y_b_bps = y_b_bps_raw;
    pool.spot_price_1e6 = spot_price_1e6_raw;
    pool.ema_y_a_bps = new_ema_y_a;
    pool.ema_y_b_bps = new_ema_y_b;
    pool.ema_spot_1e6 = new_ema_spot;
    pool.twap_center_1e6 = new_twap;
    pool.hyst_ctr_center = new_ctr_center;
    pool.hyst_ctr_width = new_ctr_width;
    pool.vol_ema_bps = new_vol;
    pool.fee_current_bps = new_fee;
    pool.needs_update = needs_update;
    pool.last_update_slot = now_slot;
    pool.post_only_until_slot = now_slot;

    // digest and metrics
    let hash = digest_bands(&pool.bands);
    let event = BandsDigestUpdatedV {
        event_version: EVENT_VERSION,
        pool: pool_id,
        width_bps: pool.last_width_bps,
        center_price_1e6: pool.last_center_price_1e6,
        total_weight_bps: pool.total_weight_bps,
        hash,
        slot: now_slot,
        fee_current_bps: pool.fee_current_bps,
        vol_ema_bps: pool.vol_ema_bps,
    };
    if let Some(m) = metrics {
        push_metric(
            m,
            now_slot,
            pool.last_center_price_1e6,
            pool.last_width_bps,
            pool.total_weight_bps,
            hash,
        );
    }
    Ok(event)
}

} // verus!
