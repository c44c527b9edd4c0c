//! Governance and lifecycle: pool initialization and migration, timelocked
//! parameter proposals under admin quorum, role and pause management, mint
//! rotation, emergency drain and band compaction.

use vstd::prelude::*;
use crate::errors::DlmmError;
use crate::types::{
    AccountId, Band, GovProposal, InitParamsV3, PauseFlags, Pool, SettableParamsV3,
    TokenAccountState, EmergencyDrainV, ParamsProposedV, ParamsExecutedV, PoolInitializedV,
    PoolMigratedV, bands_monotone, is_admin_spec, is_admin, route_mode_u8, stp_mode_u8,
    weights_sum,
};
use crate::maintain::{
    mark_inactive_by_floor, compact_active_bands, renormalize_active_weights, spec_active_flag,
    active_filter, last_active_index, spec_renorm_final,
};

verus! {

/// The value of an optional override, or the kept default.
pub open spec fn opt_or<T>(o: Option<T>, d: T) -> T {
    match o {
        Option::Some(v) => v,
        Option::None => d,
    }
}

/// Risk-scoped authority: the risk admin or any multisig admin.
pub open spec fn risk_authorized(p: Pool, caller: AccountId) -> bool {
    caller == p.risk_admin || is_admin_spec(p.admins@, caller)
}

/// Ops-scoped authority: the ops admin or any multisig admin.
pub open spec fn ops_authorized(p: Pool, caller: AccountId) -> bool {
    caller == p.ops_admin || is_admin_spec(p.admins@, caller)
}

/// Whether `caller` may act under the risk scope.
pub fn check_risk_authorized(pool: &Pool, caller: &AccountId) -> (r: bool)
    ensures
        r == risk_authorized(*pool, *caller),
{
    *caller == pool.risk_admin || is_admin(&pool.admins, caller)
}

/// Whether `caller` may act under the ops scope.
pub fn check_ops_authorized(pool: &Pool, caller: &AccountId) -> (r: bool)
    ensures
        r == ops_authorized(*pool, *caller),
{
    *caller == pool.ops_admin || is_admin(&pool.admins, caller)
}

/// The pool a settable-parameter record turns `p` into: every `Some`
/// field replaces its counterpart, everything else is kept.
pub open spec fn spec_apply_settable(p: Pool, s: SettableParamsV3) -> Pool {
    Pool {
        n_bands: opt_or(s.n_bands, p.n_bands),
        base_width_bps: opt_or(s.base_width_bps, p.base_width_bps),
        min_width_bps: opt_or(s.min_width_bps, p.min_width_bps),
        max_width_bps: opt_or(s.max_width_bps, p.max_width_bps),
        width_slope_per_kbps: opt_or(s.width_slope_per_kbps, p.width_slope_per_kbps),
        bias_per_kbps: opt_or(s.bias_per_kbps, p.bias_per_kbps),
        decay_per_band_bps: opt_or(s.decay_per_band_bps, p.decay_per_band_bps),
        alpha_y_bps: opt_or(s.alpha_y_bps, p.alpha_y_bps),
        alpha_spot_bps: opt_or(s.alpha_spot_bps, p.alpha_spot_bps),
        alpha_twap_bps: opt_or(s.alpha_twap_bps, p.alpha_twap_bps),
        alpha_vol_bps: opt_or(s.alpha_vol_bps, p.alpha_vol_bps),
        max_twap_dev_bps: opt_or(s.max_twap_dev_bps, p.max_twap_dev_bps),
        fee_base_bps: opt_or(s.fee_base_bps, p.fee_base_bps),
        fee_k_per_bps: opt_or(s.fee_k_per_bps, p.fee_k_per_bps),
        fee_max_bps: opt_or(s.fee_max_bps, p.fee_max_bps),
        hyst_center_bps: opt_or(s.hyst_center_bps, p.hyst_center_bps),
        hyst_width_bps: opt_or(s.hyst_width_bps, p.hyst_width_bps),
        hyst_required_n: opt_or(s.hyst_required_n, p.hyst_required_n),
        deposit_ratio_min_bps: opt_or(s.deposit_ratio_min_bps, p.deposit_ratio_min_bps),
        deposit_ratio_max_bps: opt_or(s.deposit_ratio_max_bps, p.deposit_ratio_max_bps),
        inactive_floor_a: opt_or(s.inactive_floor_a, p.inactive_floor_a),
        inactive_floor_b: opt_or(s.inactive_floor_b, p.inactive_floor_b),
        bounty_rate_microunits: opt_or(s.bounty_rate_microunits, p.bounty_rate_microunits),
        bounty_max: opt_or(s.bounty_max, p.bounty_max),
        stale_slots_for_boost: opt_or(s.stale_slots_for_boost, p.stale_slots_for_boost),
        bounty_boost_bps: opt_or(s.bounty_boost_bps, p.bounty_boost_bps),
        min_cu_price: opt_or(s.min_cu_price, p.min_cu_price),
        max_center_move_bps: opt_or(s.max_center_move_bps, p.max_center_move_bps),
        max_width_change_bps: opt_or(s.max_width_change_bps, p.max_width_change_bps),
        max_weight_shift_bps: opt_or(s.max_weight_shift_bps, p.max_weight_shift_bps),
        min_update_interval_slots: opt_or(
            s.min_update_interval_slots,
            p.min_update_interval_slots,
        ),
        maker_rebate_max_bps: opt_or(s.maker_rebate_max_bps, p.maker_rebate_max_bps),
        taker_min_bps: opt_or(s.taker_min_bps, p.taker_min_bps),
        stp_mode: match s.stp_mode {
            Option::Some(m) => stp_mode_u8(m),
            Option::None => p.stp_mode,
        },
        route_mode: match s.route_mode {
            Option::Some(m) => route_mode_u8(m),
            Option::None => p.route_mode,
        },
        ..p
    }
}

/// Apply the `Some` fields of a parameter record to the pool. Rejects a
/// band count outside `[1, 64]` before touching anything.
#[verifier::rlimit(100)]
pub fn apply_settable_params(pool: &mut Pool, s: &SettableParamsV3) -> (r: Result<(), DlmmError>)
    ensures
        r is Ok <==> (match s.n_bands {
            Option::Some(v) => 1 <= v <= 64,
            Option::None => true,
        }),
        r is Err ==> r->Err_0 == DlmmError::InvalidNBands && *final(pool) == *old(pool),
        r is Ok ==> *final(pool) == spec_apply_settable(*old(pool), *s),
{
    let n_bands = match s.n_bands {
        Some(v) => {
            if !(1 <= v && v as usize <= 64) {
                return Err(DlmmError::InvalidNBands);
            }
            v
        },
        None => pool.n_bands,
    };
    let base_width_bps = match s.base_width_bps {
        Some(v) => v,
        None => pool.base_width_bps,
    };
    let min_width_bps = match s.min_width_bps {
        Some(v) => v,
        None => pool.min_width_bps,
    };
    let max_width_bps = match s.max_width_bps {
        Some(v) => v,
        None => pool.max_width_bps,
    };
    let width_slope_per_kbps = match s.width_slope_per_kbps {
        Some(v) => v,
        None => pool.width_slope_per_kbps,
    };
    let bias_per_kbps = match s.bias_per_kbps {
        Some(v) => v,
        None => pool.bias_per_kbps,
    };
    let decay_per_band_bps = match s.decay_per_band_bps {
        Some(v) => v,
        None => pool.decay_per_band_bps,
    };
    let alpha_y_bps = match s.alpha_y_bps {
        Some(v) => v,
        None => pool.alpha_y_bps,
    };
    let alpha_spot_bps = match s.alpha_spot_bps {
        Some(v) => v,
        None => pool.alpha_spot_bps,
    };
    let alpha_twap_bps = match s.alpha_twap_bps {
        Some(v) => v,
        None => pool.alpha_twap_bps,
    };
    let alpha_vol_bps = match s.alpha_vol_bps {
        Some(v) => v,
        None => pool.alpha_vol_bps,
    };
    let max_twap_dev_bps = match s.max_twap_dev_bps {
        Some(v) => v,
        None => pool.max_twap_dev_bps,
    };
    let fee_base_bps = match s.fee_base_bps {
        Some(v) => v,
        None => pool.fee_base_bps,
    };
    let fee_k_per_bps = match s.fee_k_per_bps {
        Some(v) => v,
        None => pool.fee_k_per_bps,
    };
    let fee_max_bps = match s.fee_max_bps {
        Some(v) => v,
        None => pool.fee_max_bps,
    };
    let hyst_center_bps = match s.hyst_center_bps {
        Some(v) => v,
        None => pool.hyst_center_bps,
    };
    let hyst_width_bps = match s.hyst_width_bps {
        Some(v) => v,
        None => pool.hyst_width_bps,
    };
    let hyst_required_n = match s.hyst_required_n {
        Some(v) => v,
        None => pool.hyst_required_n,
    };
    let deposit_ratio_min_bps = match s.deposit_ratio_min_bps {
        Some(v) => v,
        None => pool.deposit_ratio_min_bps,
    };
    let deposit_ratio_max_bps = match s.deposit_ratio_max_bps {
        Some(v) => v,
        None => pool.deposit_ratio_max_bps,
    };
    let inactive_floor_a = match s.inactive_floor_a {
        Some(v) => v,
        None => pool.inactive_floor_a,
    };
    let inactive_floor_b = match s.inactive_floor_b {
        Some(v) => v,
        None => pool.inactive_floor_b,
    };
    let bounty_rate_microunits = match s.bounty_rate_microunits {
        Some(v) => v,
        None => pool.bounty_rate_microunits,
    };
    let bounty_max = match s.bounty_max {
        Some(v) => v,
        None => pool.bounty_max,
    };
    let stale_slots_for_boost = match s.stale_slots_for_boost {
        Some(v) => v,
        None => pool.stale_slots_for_boost,
    };
    let bounty_boost_bps = match s.bounty_boost_bps {
        Some(v) => v,
        None => pool.bounty_boost_bps,
    };
    let min_cu_price = match s.min_cu_price {
        Some(v) => v,
        None => pool.min_cu_price,
    };
    let max_center_move_bps = match s.max_center_move_bps {
        Some(v) => v,
        None => pool.max_center_move_bps,
    };
    let max_width_change_bps = match s.max_width_change_bps {
        Some(v) => v,
        None => pool.max_width_change_bps,
    };
    let max_weight_shift_bps = match s.max_weight_shift_bps {
        Some(v) => v,
        None => pool.max_weight_shift_bps,
    };
    let min_update_interval_slots = match s.min_update_interval_slots {
        Some(v) => v,
        None => pool.min_update_interval_slots,
    };
    let maker_rebate_max_bps = match s.maker_rebate_max_bps {
        Some(v) => v,
        None => pool.maker_rebate_max_bps,
    };
    let taker_min_bps = match s.taker_min_bps {
        Some(v) => v,
        None => pool.taker_min_bps,
    };
    let stp_mode = match s.stp_mode {
        Some(v) => v.to_u8(),
        None => pool.stp_mode,
    };
    let route_mode = match s.route_mode {
        Some(v) => v.to_u8(),
        None => pool.route_mode,
    };
    let mut bands: Vec<Band> = Vec::new();
    core::mem::swap(&mut bands, &mut pool.bands);
    *pool = Pool {
        n_bands,
        base_width_bps,
        min_width_bps,
        max_width_bps,
        width_slope_per_kbps,
        bias_per_kbps,
        decay_per_band_bps,
        alpha_y_bps,
        alpha_spot_bps,
        alpha_twap_bps,
        alpha_vol_bps,
        max_twap_dev_bps,
        fee_base_bps,
        fee_k_per_bps,
        fee_max_bps,
        hyst_center_bps,
        hyst_width_bps,
        hyst_required_n,
        deposit_ratio_min_bps,
        deposit_ratio_max_bps,
        inactive_floor_a,
        inactive_floor_b,
        bounty_rate_microunits,
        bounty_max,
        stale_slots_for_boost,
        bounty_boost_bps,
        min_cu_price,
        max_center_move_bps,
        max_width_change_bps,
        max_weight_shift_bps,
        min_update_interval_slots,
        maker_rebate_max_bps,
        taker_min_bps,
        stp_mode,
        route_mode,
        bands,
        version: pool.version,
        bump: pool.bump,
        admin_threshold: pool.admin_threshold,
        admins: pool.admins,
        risk_admin: pool.risk_admin,
        ops_admin: pool.ops_admin,
        fee_admin: pool.fee_admin,
        mint_a: pool.mint_a,
        mint_b: pool.mint_b,
        vault_a: pool.vault_a,
        vault_b: pool.vault_b,
        treasury_a: pool.treasury_a,
        treasury_b: pool.treasury_b,
        updater: pool.updater,
        oracle_signer: pool.oracle_signer,
        y_a_bps: pool.y_a_bps,
        y_b_bps: pool.y_b_bps,
        spot_price_1e6: pool.spot_price_1e6,
        ema_y_a_bps: pool.ema_y_a_bps,
        ema_y_b_bps: pool.ema_y_b_bps,
        ema_spot_1e6: pool.ema_spot_1e6,
        twap_center_1e6: pool.twap_center_1e6,
        vol_ema_bps: pool.vol_ema_bps,
        fee_current_bps: pool.fee_current_bps,
        last_update_slot: pool.last_update_slot,
        hyst_ctr_center: pool.hyst_ctr_center,
        hyst_ctr_width: pool.hyst_ctr_width,
        needs_update: pool.needs_update,
        last_width_bps: pool.last_width_bps,
        last_center_price_1e6: pool.last_center_price_1e6,
        total_weight_bps: pool.total_weight_bps,
        is_paused: pool.is_paused,
        pause_bands: pool.pause_bands,
        pause_deposits: pool.pause_deposits,
        pause_withdraws: pool.pause_withdraws,
        pause_orderbook: pool.pause_orderbook,
        post_only_until_slot: pool.post_only_until_slot,
        g_pending: pool.g_pending,
        proposed_mint_a: pool.proposed_mint_a,
        proposed_mint_b: pool.proposed_mint_b,
        best_bid_1e6: pool.best_bid_1e6,
        best_ask_1e6: pool.best_ask_1e6,
        book_depth_bps: pool.book_depth_bps,
    };
    Ok(())
}

/// Replace the scoped role identities, under admin quorum.
pub fn set_roles(
    pool: &mut Pool,
    signers: &Vec<AccountId>,
    risk_admin: AccountId,
    ops_admin: AccountId,
    fee_admin: AccountId,
) -> (r: Result<(), DlmmError>)
    ensures
        r is Ok <==> crate::types::quorum_count(old(pool).admins@, signers@) >= old(
            pool,
        ).admin_threshold as int,
        r is Err ==> r->Err_0 == DlmmError::BadMultisig && *final(pool) == *old(pool),
        r is Ok ==> *final(pool) == (Pool {
            risk_admin: risk_admin,
            ops_admin: ops_admin,
            fee_admin: fee_admin,
            ..*old(pool)
        }),
{
    if !crate::types::is_quorum(&pool.admins, pool.admin_threshold, signers) {
        return Err(DlmmError::BadMultisig);
    }
    pool.risk_admin = risk_admin;
    pool.ops_admin = ops_admin;
    pool.fee_admin = fee_admin;
    Ok(())
}

/// Set the pause switches named by `flags`, under the risk scope.
pub fn set_pause(pool: &mut Pool, caller: &AccountId, flags: &PauseFlags) -> (r: Result<
    (),
    DlmmError,
>)
    ensures
        r is Ok <==> risk_authorized(*old(pool), *caller),
        r is Err ==> r->Err_0 == DlmmError::Unauthorized && *final(pool) == *old(pool),
        r is Ok ==> *final(pool) == (Pool {
            is_paused: opt_or(flags.is_paused, old(pool).is_paused),
            pause_bands: opt_or(flags.pause_bands, old(pool).pause_bands),
            pause_deposits: opt_or(flags.pause_deposits, old(pool).pause_deposits),
            pause_withdraws: opt_or(flags.pause_withdraws, old(pool).pause_withdraws),
            pause_orderbook: opt_or(flags.pause_orderbook, old(pool).pause_orderbook),
            ..*old(pool)
        }),
{
    if !check_risk_authorized(pool, caller) {
        return Err(DlmmError::Unauthorized);
    }
    if let Some(v) = flags.is_paused {
        pool.is_paused = v;
    }
    if let Some(v) = flags.pause_bands {
        pool.pause_bands = v;
    }
    if let Some(v) = flags.pause_deposits {
        pool.pause_deposits = v;
    }
    if let Some(v) = flags.pause_withdraws {
        pool.pause_withdraws = v;
    }
    if let Some(v) = flags.pause_orderbook {
        pool.pause_orderbook = v;
    }
    Ok(())
}

/// Replace the updater and optional oracle identity, under the ops scope.
pub fn set_updater(
    pool: &mut Pool,
    caller: &AccountId,
    updater: AccountId,
    oracle: Option<AccountId>,
) -> (r: Result<(), DlmmError>)
    ensures
        r is Ok <==> ops_authorized(*old(pool), *caller),
        r is Err ==> r->Err_0 == DlmmError::Unauthorized && *final(pool) == *old(pool),
        r is Ok ==> *final(pool) == (Pool {
            updater: updater,
            oracle_signer: oracle,
            ..*old(pool)
        }),
{
    if !check_ops_authorized(pool, caller) {
        return Err(DlmmError::Unauthorized);
    }
    pool.updater = updater;
    pool.oracle_signer = oracle;
    Ok(())
}

/// Move `amount` from the chosen vault to its treasury, only while the
/// pool is paused and under the risk scope. A transfer the balances
/// cannot honour fails the operation and changes nothing.
pub fn emergency_drain(
    pool: &Pool,
    pool_id: AccountId,
    caller: &AccountId,
    from_a: bool,
    amount: u64,
    vault_a: &mut TokenAccountState,
    vault_b: &mut TokenAccountState,
    treasury_a: &mut TokenAccountState,
    treasury_b: &mut TokenAccountState,
) -> (r: Result<EmergencyDrainV, DlmmError>)
    ensures
        r is Err ==> *final(vault_a) == *old(vault_a) && *final(vault_b) == *old(vault_b)
            && *final(treasury_a) == *old(treasury_a) && *final(treasury_b) == *old(treasury_b),
        !risk_authorized(*pool, *caller) ==> r == Err::<EmergencyDrainV, DlmmError>(
            DlmmError::Unauthorized,
        ),
        risk_authorized(*pool, *caller) && !pool.is_paused ==> r == Err::<
            EmergencyDrainV,
            DlmmError,
        >(DlmmError::NotPaused),
        r is Ok ==> risk_authorized(*pool, *caller) && pool.is_paused,
        r is Ok && from_a ==> *final(vault_a) == (TokenAccountState {
            amount: (old(vault_a).amount - amount) as u64,
            ..*old(vault_a)
        }) && *final(treasury_a) == (TokenAccountState {
            amount: (old(treasury_a).amount + amount) as u64,
            ..*old(treasury_a)
        }) && *final(vault_b) == *old(vault_b) && *final(treasury_b) == *old(treasury_b),
        r is Ok && !from_a ==> *final(vault_b) == (TokenAccountState {
            amount: (old(vault_b).amount - amount) as u64,
            ..*old(vault_b)
        }) && *final(treasury_b) == (TokenAccountState {
            amount: (old(treasury_b).amount + amount) as u64,
            ..*old(treasury_b)
        }) && *final(vault_a) == *old(vault_a) && *final(treasury_a) == *old(treasury_a),
        risk_authorized(*pool, *caller) && pool.is_paused ==> ((r is Ok) <==> (if from_a {
            amount <= old(vault_a).amount && old(treasury_a).amount + amount <= u64::MAX
        } else {
            amount <= old(vault_b).amount && old(treasury_b).amount + amount <= u64::MAX
        })),
        r is Ok ==> r->Ok_0 == (EmergencyDrainV {
            event_version: crate::types::EVENT_VERSION,
            pool: pool_id,
            amount: amount,
        }),
{
    if !check_risk_authorized(pool, caller) {
        return Err(DlmmError::Unauthorized);
    }
    if !pool.is_paused {
        return Err(DlmmError::NotPaused);
    }
    if from_a {
        if vault_a.amount < amount {
            return Err(DlmmError::InvalidAmount);
        }
        if treasury_a.amount > u64::MAX - amount {
            return Err(DlmmError::MathOverflow);
        }
        vault_a.amount = vault_a.amount - amount;
        treasury_a.amount = treasury_a.amount + amount;
    } else {
        if vault_b.amount < amount {
            return Err(DlmmError::InvalidAmount);
        }
        if treasury_b.amount > u64::MAX - amount {
            return Err(DlmmError::MathOverflow);
        }
        vault_b.amount = vault_b.amount - amount;
        treasury_b.amount = treasury_b.amount + amount;
    }
    Ok(EmergencyDrainV { event_version: crate::types::EVENT_VERSION, pool: pool_id, amount })
}

/// Queue a mint rotation, under the risk scope; both fields are optional.
pub fn propose_mint_rotation(
    pool: &mut Pool,
    caller: &AccountId,
    new_mint_a: Option<AccountId>,
    new_mint_b: Option<AccountId>,
) -> (r: Result<(), DlmmError>)
    ensures
        r is Ok <==> risk_authorized(*old(pool), *caller),
        r is Err ==> r->Err_0 == DlmmError::Unauthorized && *final(pool) == *old(pool),
        r is Ok ==> *final(pool) == (Pool {
            proposed_mint_a: new_mint_a,
            proposed_mint_b: new_mint_b,
            ..*old(pool)
        }),
{
    if !check_risk_authorized(pool, caller) {
        return Err(DlmmError::Unauthorized);
    }
    pool.proposed_mint_a = new_mint_a;
    pool.proposed_mint_b = new_mint_b;
    Ok(())
}

/// Adopt any queued mint rotation and clear the queue, under the risk
/// scope.
pub fn accept_mint_rotation(pool: &mut Pool, caller: &AccountId) -> (r: Result<(), DlmmError>)
    ensures
        r is Ok <==> risk_authorized(*old(pool), *caller),
        r is Err ==> r->Err_0 == DlmmError::Unauthorized && *final(pool) == *old(pool),
        r is Ok ==> *final(pool) == (Pool {
            mint_a: opt_or(old(pool).proposed_mint_a, old(pool).mint_a),
            mint_b: opt_or(old(pool).proposed_mint_b, old(pool).mint_b),
            proposed_mint_a: Option::None,
            proposed_mint_b: Option::None,
            ..*old(pool)
        }),
{
    if !check_risk_authorized(pool, caller) {
        return Err(DlmmError::Unauthorized);
    }
    if let Some(m) = pool.proposed_mint_a {
        pool.mint_a = m;
    }
    if let Some(m) = pool.proposed_mint_b {
        pool.mint_b = m;
    }
    pool.proposed_mint_a = None;
    pool.proposed_mint_b = None;
    Ok(())
}

/// The band vector with every activity flag refreshed from the floors.
pub open spec fn marked_bands(s: Seq<Band>, floor_a: u64, floor_b: u64) -> Seq<Band> {
    Seq::new(s.len(), |i: int| Band { is_active: spec_active_flag(s[i], floor_a, floor_b), ..s[i] })
}

/// Refresh activity flags, drop inactive bands, and rescale the remaining
/// weights to 10000, under the risk scope.
pub fn recenter_compact(pool: &mut Pool, caller: &AccountId) -> (r: Result<(), DlmmError>)
    requires
        1 <= old(pool).bands@.len() <= 64,
        bands_monotone(old(pool).bands@),
    ensures
        r is Ok <==> risk_authorized(*old(pool), *caller),
        r is Err ==> r->Err_0 == DlmmError::Unauthorized && *final(pool) == *old(pool),
        r is Ok ==> ({
            let m = marked_bands(
                old(pool).bands@,
                old(pool).inactive_floor_a,
                old(pool).inactive_floor_b,
            );
            let c = if last_active_index(m, m.len() as int) >= 0 {
                active_filter(m)
            } else {
                m
            };
            &&& *final(pool) == (Pool {
                bands: final(pool).bands,
                n_bands: final(pool).n_bands,
                total_weight_bps: final(pool).total_weight_bps,
                ..*old(pool)
            })
            &&& final(pool).bands@.len() == c.len()
            &&& final(pool).n_bands as int == c.len()
            &&& forall|i: int|
                0 <= i < c.len() ==> #[trigger] final(pool).bands@[i] == (Band {
                    weight_bps: spec_renorm_final(c, i) as u16,
                    ..c[i]
                })
            &&& bands_monotone(final(pool).bands@)
            &&& last_active_index(c, c.len() as int) >= 0 ==> weights_sum(final(pool).bands@)
                == 10000
            &&& final(pool).total_weight_bps == weights_sum(final(pool).bands@)
        }),
{
    if !check_risk_authorized(pool, caller) {
        return Err(DlmmError::Unauthorized);
    }
    let ghost s0 = pool.bands@;
    mark_inactive_by_floor(pool);
    proof {
        assert(pool.bands@ =~= marked_bands(s0, pool.inactive_floor_a, pool.inactive_floor_b));
        assert forall|i: int| 0 <= i < pool.bands@.len() implies (#[trigger] pool.bands@[i]).lower_price_1e6
            < pool.bands@[i].upper_price_1e6 by {
            assert(s0[i].lower_price_1e6 < s0[i].upper_price_1e6);
        }
        assert forall|i: int| 0 < i < pool.bands@.len() implies (#[trigger] pool.bands@[i]).lower_price_1e6
            >= pool.bands@[i - 1].upper_price_1e6 by {
            assert(s0[i].lower_price_1e6 >= s0[i - 1].upper_price_1e6);
        }
    }
    compact_active_bands(pool);
    match renormalize_active_weights(pool) {
        Ok(()) => Ok(()),
        Err(e) => Err(e),
    }
}

/* ------------------------------ Lifecycle -------------------------------- */

/// The pool `initialize_pool` constructs before its first band layout:
/// every configured field from the parameters (thresholds and alphas
/// clamped into their domains), empty bands, cleared counters and flags.
pub open spec fn init_pool_base(
    bump: u8,
    p: InitParamsV3,
    mint_a: AccountId,
    mint_b: AccountId,
    vault_a_id: AccountId,
    vault_b_id: AccountId,
    treasury_a_id: AccountId,
    treasury_b_id: AccountId,
    bands: Vec<Band>,
) -> Pool {
    Pool {
        version: 3,
        bump: bump,
        admin_threshold: clamp_u8(p.admin_threshold, 1, 8),
        admins: p.admins,
        risk_admin: p.risk_admin,
        ops_admin: p.ops_admin,
        fee_admin: p.fee_admin,
        mint_a: mint_a,
        mint_b: mint_b,
        vault_a: vault_a_id,
        vault_b: vault_b_id,
        treasury_a: treasury_a_id,
        treasury_b: treasury_b_id,
        updater: p.updater,
        oracle_signer: p.oracle_signer,
        base_width_bps: p.base_width_bps,
        min_width_bps: p.min_width_bps,
        max_width_bps: p.max_width_bps,
        width_slope_per_kbps: p.width_slope_per_kbps,
        bias_per_kbps: p.bias_per_kbps,
        decay_per_band_bps: p.decay_per_band_bps,
        n_bands: p.n_bands,
        y_a_bps: p.initial_y_a_bps,
        y_b_bps: p.initial_y_b_bps,
        spot_price_1e6: p.initial_spot_price_1e6,
        ema_y_a_bps: p.initial_y_a_bps,
        ema_y_b_bps: p.initial_y_b_bps,
        ema_spot_1e6: p.initial_spot_price_1e6,
        alpha_y_bps: clamp_u16(p.alpha_y_bps, 1, 10000),
        alpha_spot_bps: clamp_u16(p.alpha_spot_bps, 1, 10000),
        alpha_twap_bps: clamp_u16(p.alpha_twap_bps, 1, 10000),
        alpha_vol_bps: clamp_u16(p.alpha_vol_bps, 1, 10000),
        twap_center_1e6: p.initial_spot_price_1e6,
        max_twap_dev_bps: p.max_twap_dev_bps,
        vol_ema_bps: 0,
        fee_base_bps: p.fee_base_bps,
        fee_k_per_bps: p.fee_k_per_bps,
        fee_max_bps: p.fee_max_bps,
        fee_current_bps: p.fee_base_bps,
        maker_rebate_max_bps: p.maker_rebate_max_bps,
        taker_min_bps: p.taker_min_bps,
        max_center_move_bps: p.max_center_move_bps,
        max_width_change_bps: p.max_width_change_bps,
        max_weight_shift_bps: p.max_weight_shift_bps,
        min_update_interval_slots: p.min_update_interval_slots,
        last_update_slot: 0,
        hyst_center_bps: p.hyst_center_bps,
        hyst_width_bps: p.hyst_width_bps,
        hyst_required_n: if p.hyst_required_n >= 1 {
            p.hyst_required_n
        } else {
            1
        },
        hyst_ctr_center: 0,
        hyst_ctr_width: 0,
        deposit_ratio_min_bps: p.deposit_ratio_min_bps,
        deposit_ratio_max_bps: p.deposit_ratio_max_bps,
        inactive_floor_a: p.inactive_floor_a,
        inactive_floor_b: p.inactive_floor_b,
        bounty_rate_microunits: p.bounty_rate_microunits,
        bounty_max: p.bounty_max,
        stale_slots_for_boost: p.stale_slots_for_boost,
        bounty_boost_bps: p.bounty_boost_bps,
        needs_update: false,
        min_cu_price: p.min_cu_price,
        last_width_bps: 0,
        last_center_price_1e6: 0,
        total_weight_bps: 0,
        is_paused: false,
        pause_bands: false,
        pause_deposits: false,
        pause_withdraws: false,
        pause_orderbook: false,
        post_only_until_slot: 0,
        g_pending: Option::None,
        proposed_mint_a: Option::None,
        proposed_mint_b: Option::None,
        stp_mode: stp_mode_u8(p.stp_mode),
        route_mode: route_mode_u8(p.route_mode),
        best_bid_1e6: 0,
        best_ask_1e6: 0xffff_ffff_ffff_ffff,
        book_depth_bps: 0,
        bands: bands,
    }
}

/// The band-computation inputs a fresh pool starts from: the configured
/// widths and slopes, the initial yields and spot as the filter state,
/// and no previous center or width.
pub open spec fn init_band_params(p: InitParamsV3) -> crate::bands::BandParams {
    crate::bands::BandParams {
        n_bands: p.n_bands,
        base_width_bps: p.base_width_bps,
        min_width_bps: p.min_width_bps,
        max_width_bps: p.max_width_bps,
        width_slope_per_kbps: p.width_slope_per_kbps,
        bias_per_kbps: p.bias_per_kbps,
        decay_per_band_bps: p.decay_per_band_bps,
        ema_y_a_bps: p.initial_y_a_bps,
        ema_y_b_bps: p.initial_y_b_bps,
        ema_spot_1e6: p.initial_spot_price_1e6,
        max_center_move_bps: p.max_center_move_bps,
        max_width_change_bps: p.max_width_change_bps,
        max_weight_shift_bps: p.max_weight_shift_bps,
        last_width_bps: 0,
        last_center_price_1e6: 0,
    }
}

/// Clamp a byte into `[lo, hi]`.
pub open spec fn clamp_u8(x: u8, lo: u8, hi: u8) -> u8 {
    if x < lo {
        lo
    } else if x > hi {
        hi
    } else {
        x
    }
}

/// Clamp a 16-bit value into `[lo, hi]`.
pub open spec fn clamp_u16(x: u16, lo: u16, hi: u16) -> u16 {
    if x < lo {
        lo
    } else if x > hi {
        hi
    } else {
        x
    }
}

/// Create a pool: validate the multisig and band count, store every
/// configured parameter (thresholds and alphas clamped into their
/// domains), lay out the initial bands without circuit breakers, and run
/// the invariant check before handing the pool back.
pub fn initialize_pool(
    pool_id: AccountId,
    bump: u8,
    p: &InitParamsV3,
    mint_a: AccountId,
    mint_b: AccountId,
    vault_a: &TokenAccountState,
    vault_b: &TokenAccountState,
    vault_a_id: AccountId,
    vault_b_id: AccountId,
    treasury_a_id: AccountId,
    treasury_b_id: AccountId,
) -> (r: Result<(Pool, PoolInitializedV), DlmmError>)
    requires
        p.min_width_bps <= p.max_width_bps,
    ensures
        r is Ok ==> ({
            let base = init_pool_base(
                bump,
                *p,
                mint_a,
                mint_b,
                vault_a_id,
                vault_b_id,
                treasury_a_id,
                treasury_b_id,
                r->Ok_0.0.bands,
            );
            let bp = crate::bands::params_of(base);
            let pool = r->Ok_0.0;
            &&& pool == (Pool {
                last_width_bps: pool.last_width_bps,
                last_center_price_1e6: pool.last_center_price_1e6,
                total_weight_bps: pool.total_weight_bps,
                ..base
            })
            &&& pool.bands@.len() == p.n_bands as int
            &&& pool.last_width_bps == crate::bands::spec_commit_width(bp, false)
            &&& pool.last_center_price_1e6 == crate::bands::spec_commit_center(bp, false)
            &&& p.min_width_bps <= pool.last_width_bps <= p.max_width_bps
            &&& forall|i: int|
                0 <= i < p.n_bands as int ==> crate::bands::band_built(
                    bp,
                    Seq::empty(),
                    false,
                    false,
                    i,
                    #[trigger] pool.bands@[i],
                )
            &&& weights_sum(pool.bands@) == 10000
            &&& bands_monotone(pool.bands@)
            &&& pool.total_weight_bps == 10000
            &&& crate::types::pool_wf(pool)
            &&& r->Ok_0.1 == (PoolInitializedV {
                event_version: crate::types::EVENT_VERSION,
                pool: pool_id,
                n_bands: p.n_bands,
                center_price_1e6: pool.last_center_price_1e6,
                width_bps: pool.last_width_bps,
            })
        }),
        r is Ok <==> (crate::types::nonzero_admin_count(p.admins@) >= clamp_u8(
            p.admin_threshold,
            1,
            8,
        ) as int && 1 <= p.n_bands <= 64 && vault_a.mint == mint_a && vault_b.mint == mint_b && (
        forall|i: int|
            0 <= i < p.n_bands as int ==> #[trigger] crate::bands::spec_band_lower(
                init_band_params(*p),
                false,
                i,
            ) < crate::bands::spec_band_upper(init_band_params(*p), false, i))),
        crate::types::nonzero_admin_count(p.admins@) < clamp_u8(p.admin_threshold, 1, 8) as int
            <==> r == Err::<(Pool, PoolInitializedV), DlmmError>(DlmmError::BadMultisig),
        r is Err && r->Err_0 == DlmmError::InvalidNBands <==> crate::types::nonzero_admin_count(
            p.admins@,
        ) >= clamp_u8(p.admin_threshold, 1, 8) as int && !(1 <= p.n_bands <= 64),
        r is Err && r->Err_0 == DlmmError::VaultMintMismatch ==> !(vault_a.mint == mint_a
            && vault_b.mint == mint_b),
        r is Err ==> (r->Err_0 == DlmmError::BadMultisig || r->Err_0 == DlmmError::InvalidNBands
            || r->Err_0 == DlmmError::InvalidBandRange || r->Err_0 == DlmmError::VaultMintMismatch),
{
    let threshold: u8 = if p.admin_threshold < 1 {
        1
    } else if p.admin_threshold > 8 {
        8
    } else {
        p.admin_threshold
    };
    if crate::types::count_nonzero_admins(&p.admins) < threshold as usize {
        return Err(DlmmError::BadMultisig);
    }
    if !(1 <= p.n_bands && p.n_bands as usize <= 64) {
        return Err(DlmmError::InvalidNBands);
    }
    let clamp_alpha = |a: u16| -> (r: u16)
        ensures
            r == clamp_u16(a, 1, 10000),
        {
            if a < 1 {
                1
            } else if a > 10000 {
                10000
            } else {
                a
            }
        };
    let mut pool = Pool {
        version: 3,
        bump: bump,
        admin_threshold: threshold,
        admins: p.admins,
        risk_admin: p.risk_admin,
        ops_admin: p.ops_admin,
        fee_admin: p.fee_admin,
        mint_a: mint_a,
        mint_b: mint_b,
        vault_a: vault_a_id,
        vault_b: vault_b_id,
        treasury_a: treasury_a_id,
        treasury_b: treasury_b_id,
        updater: p.updater,
        oracle_signer: p.oracle_signer,
        base_width_bps: p.base_width_bps,
        min_width_bps: p.min_width_bps,
        max_width_bps: p.max_width_bps,
        width_slope_per_kbps: p.width_slope_per_kbps,
        bias_per_kbps: p.bias_per_kbps,
        decay_per_band_bps: p.decay_per_band_bps,
        n_bands: p.n_bands,
        y_a_bps: p.initial_y_a_bps,
        y_b_bps: p.initial_y_b_bps,
        spot_price_1e6: p.initial_spot_price_1e6,
        ema_y_a_bps: p.initial_y_a_bps,
        ema_y_b_bps: p.initial_y_b_bps,
        ema_spot_1e6: p.initial_spot_price_1e6,
        alpha_y_bps: clamp_alpha(p.alpha_y_bps),
        alpha_spot_bps: clamp_alpha(p.alpha_spot_bps),
        alpha_twap_bps: clamp_alpha(p.alpha_twap_bps),
        alpha_vol_bps: clamp_alpha(p.alpha_vol_bps),
        twap_center_1e6: p.initial_spot_price_1e6,
        max_twap_dev_bps: p.max_twap_dev_bps,
        vol_ema_bps: 0,
        fee_base_bps: p.fee_base_bps,
        fee_k_per_bps: p.fee_k_per_bps,
        fee_max_bps: p.fee_max_bps,
        fee_current_bps: p.fee_base_bps,
        maker_rebate_max_bps: p.maker_rebate_max_bps,
        taker_min_bps: p.taker_min_bps,
        max_center_move_bps: p.max_center_move_bps,
        max_width_change_bps: p.max_width_change_bps,
        max_weight_shift_bps: p.max_weight_shift_bps,
        min_update_interval_slots: p.min_update_interval_slots,
        last_update_slot: 0,
        hyst_center_bps: p.hyst_center_bps,
        hyst_width_bps: p.hyst_width_bps,
        hyst_required_n: if p.hyst_required_n >= 1 {
            p.hyst_required_n
        } else {
            1
        },
        hyst_ctr_center: 0,
        hyst_ctr_width: 0,
        deposit_ratio_min_bps: p.deposit_ratio_min_bps,
        deposit_ratio_max_bps: p.deposit_ratio_max_bps,
        inactive_floor_a: p.inactive_floor_a,
        inactive_floor_b: p.inactive_floor_b,
        bounty_rate_microunits: p.bounty_rate_microunits,
        bounty_max: p.bounty_max,
        stale_slots_for_boost: p.stale_slots_for_boost,
        bounty_boost_bps: p.bounty_boost_bps,
        needs_update: false,
        min_cu_price: p.min_cu_price,
        last_width_bps: 0,
        last_center_price_1e6: 0,
        total_weight_bps: 0,
        is_paused: false,
        pause_bands: false,
        pause_deposits: false,
        pause_withdraws: false,
        pause_orderbook: false,
        post_only_until_slot: 0,
        g_pending: None,
        proposed_mint_a: None,
        proposed_mint_b: None,
        stp_mode: p.stp_mode.to_u8(),
        route_mode: p.route_mode.to_u8(),
        best_bid_1e6: 0,
        best_ask_1e6: u64::MAX,
        book_depth_bps: 0,
        bands: Vec::new(),
    };
    proof {
        assert(crate::bands::params_of(pool) == init_band_params(*p));
    }
    match crate::bands::recompute_bands(&mut pool, false, false) {
        Ok(()) => (),
        Err(e) => {
            return Err(e);
        },
    }
    match crate::maintain::assert_invariants(&mint_a, &mint_b, vault_a, vault_b, &pool) {
        Ok(()) => (),
        Err(e) => {
            return Err(e);
        },
    }
    let n_bands = pool.n_bands;
    let center = pool.last_center_price_1e6;
    let width = pool.last_width_bps;
    Ok((
        pool,
        PoolInitializedV {
            event_version: crate::types::EVENT_VERSION,
            pool: pool_id,
            n_bands,
            center_price_1e6: center,
            width_bps: width,
        },
    ))
}

/// Bring an existing pool up to the current version: only permitted for a
/// multisig admin and only while the stored version is older. Defaults
/// the TWAP filter parameters that older versions lacked and refreshes
/// the derived band state.
pub fn migrate_pool_versions(
    pool: &mut Pool,
    pool_id: AccountId,
    caller: &AccountId,
    now_slot: u64,
) -> (r: Result<PoolMigratedV, DlmmError>)
    requires
        1 <= old(pool).n_bands as int <= 64,
        old(pool).min_width_bps <= old(pool).max_width_bps,
    ensures
        r is Err ==> *final(pool) == *old(pool),
        !is_admin_spec(old(pool).admins@, *caller) ==> r == Err::<PoolMigratedV, DlmmError>(
            DlmmError::Unauthorized,
        ),
        is_admin_spec(old(pool).admins@, *caller) && old(pool).version >= 3 ==> r == Err::<
            PoolMigratedV,
            DlmmError,
        >(DlmmError::AlreadyMigrated),
        r is Ok <==> (is_admin_spec(old(pool).admins@, *caller) && old(pool).version < 3 && (
        forall|i: int|
            0 <= i < old(pool).n_bands as int ==> #[trigger] crate::bands::spec_band_lower(
                crate::bands::params_of(*old(pool)),
                false,
                i,
            ) < crate::bands::spec_band_upper(crate::bands::params_of(*old(pool)), false, i))),
        r is Ok ==> ({
            let bp = crate::bands::params_of(*old(pool));
            &&& *final(pool) == (Pool {
                version: 3,
                alpha_twap_bps: if old(pool).alpha_twap_bps == 0 {
                    500
                } else {
                    old(pool).alpha_twap_bps
                },
                max_twap_dev_bps: if old(pool).max_twap_dev_bps == 0 {
                    500
                } else {
                    old(pool).max_twap_dev_bps
                },
                bands: final(pool).bands,
                last_width_bps: final(pool).last_width_bps,
                last_center_price_1e6: final(pool).last_center_price_1e6,
                total_weight_bps: final(pool).total_weight_bps,
                ..*old(pool)
            })
            &&& final(pool).last_width_bps == crate::bands::spec_commit_width(bp, false)
            &&& final(pool).last_center_price_1e6 == crate::bands::spec_commit_center(bp, false)
            &&& final(pool).bands@.len() == old(pool).n_bands as int
            &&& weights_sum(final(pool).bands@) == 10000
            &&& bands_monotone(final(pool).bands@)
            &&& r->Ok_0 == (PoolMigratedV {
                event_version: crate::types::EVENT_VERSION,
                pool: pool_id,
                from: old(pool).version,
                to: 3,
                migrated_at_slot: now_slot,
            })
        }),
{
    if !is_admin(&pool.admins, caller) {
        return Err(DlmmError::Unauthorized);
    }
    if pool.version >= 3 {
        return Err(DlmmError::AlreadyMigrated);
    }
    let from_version = pool.version;
    match crate::bands::recompute_bands(pool, false, false) {
        Ok(()) => (),
        Err(e) => {
            return Err(e);
        },
    }
    pool.version = 3;
    if pool.alpha_twap_bps == 0 {
        pool.alpha_twap_bps = 500;
    }
    if pool.max_twap_dev_bps == 0 {
        pool.max_twap_dev_bps = 500;
    }
    Ok(PoolMigratedV {
        event_version: crate::types::EVENT_VERSION,
        pool: pool_id,
        from: from_version,
        to: 3,
        migrated_at_slot: now_slot,
    })
}

/// Saturating addition on slot numbers.
pub open spec fn sat_add64(a: int, b: int) -> int {
    if a + b > u64::MAX {
        u64::MAX as int
    } else {
        a + b
    }
}

/// Queue a timelocked parameter proposal, under admin quorum and only
/// when none is pending.
pub fn propose_params(
    pool: &mut Pool,
    pool_id: AccountId,
    signers: &Vec<AccountId>,
    new: &SettableParamsV3,
    queue_delay_slots: u64,
    execute_deadline_slots: u64,
    now_slot: u64,
) -> (r: Result<ParamsProposedV, DlmmError>)
    ensures
        r is Err ==> *final(pool) == *old(pool),
        crate::types::quorum_count(old(pool).admins@, signers@) < old(pool).admin_threshold as int
            ==> r == Err::<ParamsProposedV, DlmmError>(DlmmError::BadMultisig),
        crate::types::quorum_count(old(pool).admins@, signers@) >= old(pool).admin_threshold as int
            && old(pool).g_pending is Some ==> r == Err::<ParamsProposedV, DlmmError>(
            DlmmError::ProposalExists,
        ),
        r is Ok <==> crate::types::quorum_count(old(pool).admins@, signers@) >= old(
            pool,
        ).admin_threshold as int && old(pool).g_pending is None,
        r is Ok ==> *final(pool) == (Pool {
            g_pending: Some(
                GovProposal {
                    new: *new,
                    queued_at: now_slot,
                    earliest_exec: sat_add64(now_slot as int, queue_delay_slots as int) as u64,
                    deadline: sat_add64(
                        sat_add64(now_slot as int, queue_delay_slots as int),
                        execute_deadline_slots as int,
                    ) as u64,
                    executed: false,
                },
            ),
            ..*old(pool)
        }) && r->Ok_0 == (ParamsProposedV {
            event_version: crate::types::EVENT_VERSION,
            pool: pool_id,
            queued_at: now_slot,
        }),
{
    if !crate::types::is_quorum(&pool.admins, pool.admin_threshold, signers) {
        return Err(DlmmError::BadMultisig);
    }
    if pool.g_pending.is_some() {
        return Err(DlmmError::ProposalExists);
    }
    let earliest: u64 = if queue_delay_slots > u64::MAX - now_slot {
        u64::MAX
    } else {
        now_slot + queue_delay_slots
    };
    let deadline: u64 = if execute_deadline_slots > u64::MAX - earliest {
        u64::MAX
    } else {
        earliest + execute_deadline_slots
    };
    pool.g_pending = Some(
        GovProposal {
            new: *new,
            queued_at: now_slot,
            earliest_exec: earliest,
            deadline,
            executed: false,
        },
    );
    Ok(ParamsProposedV {
        event_version: crate::types::EVENT_VERSION,
        pool: pool_id,
        queued_at: now_slot,
    })
}

/// The error `execute_params` reports, in decision order, or `None` when
/// the proposal executes: missing quorum, no pending proposal, an already
/// executed one, a closed window, an out-of-range band count, and finally
/// a merged geometry with a degenerate interval.
pub open spec fn spec_execute_error(p: Pool, signers: Seq<AccountId>, now_slot: u64) -> Option<
    DlmmError,
> {
    if crate::types::quorum_count(p.admins@, signers) < p.admin_threshold as int {
        Some(DlmmError::BadMultisig)
    } else {
        match p.g_pending {
            Option::None => Some(DlmmError::NoPendingParams),
            Option::Some(gp) => {
                if gp.executed {
                    Some(DlmmError::ProposalExecuted)
                } else if !(gp.earliest_exec <= now_slot <= gp.deadline) {
                    Some(DlmmError::WindowClosed)
                } else if gp.new.n_bands matches Some(v) && !(1 <= v <= 64) {
                    Some(DlmmError::InvalidNBands)
                } else {
                    let bp = crate::bands::params_of(spec_apply_settable(p, gp.new));
                    if exists|i: int|
                        0 <= i < bp.n_bands as int && #[trigger] crate::bands::spec_band_lower(
                            bp,
                            false,
                            i,
                        ) >= crate::bands::spec_band_upper(bp, false, i) {
                        Some(DlmmError::InvalidBandRange)
                    } else {
                        Option::None
                    }
                }
            },
        }
    }
}

/// Execute the pending proposal inside its window, under admin quorum:
/// apply its `Some` fields, mark it executed, and refresh the bands
/// without circuit breakers. Fails without any state change if the new
/// geometry would be degenerate.
#[verifier::rlimit(100)]
pub fn execute_params(
    pool: &mut Pool,
    pool_id: AccountId,
    signers: &Vec<AccountId>,
    now_slot: u64,
) -> (r: Result<ParamsExecutedV, DlmmError>)
    requires
        1 <= old(pool).n_bands as int <= 64,
        old(pool).g_pending matches Some(gp) ==> opt_or(gp.new.min_width_bps, old(pool).min_width_bps)
            <= opt_or(gp.new.max_width_bps, old(pool).max_width_bps),
    ensures
        r is Err ==> *final(pool) == *old(pool),
        (match spec_execute_error(*old(pool), signers@, now_slot) {
            Some(e) => r == Err::<ParamsExecutedV, DlmmError>(e),
            None => r is Ok,
        }),
        r is Ok ==> ({
            let gp = old(pool).g_pending->0;
            let merged = spec_apply_settable(*old(pool), gp.new);
            let bp = crate::bands::params_of(merged);
            &&& crate::types::quorum_count(old(pool).admins@, signers@) >= old(
                pool,
            ).admin_threshold as int
            &&& old(pool).g_pending is Some
            &&& !gp.executed
            &&& gp.earliest_exec <= now_slot <= gp.deadline
            &&& *final(pool) == (Pool {
                g_pending: Some(GovProposal { executed: true, ..gp }),
                bands: final(pool).bands,
                last_width_bps: final(pool).last_width_bps,
                last_center_price_1e6: final(pool).last_center_price_1e6,
                total_weight_bps: final(pool).total_weight_bps,
                ..merged
            })
            &&& final(pool).last_width_bps == crate::bands::spec_commit_width(bp, false)
            &&& final(pool).last_center_price_1e6 == crate::bands::spec_commit_center(bp, false)
            &&& final(pool).bands@.len() == opt_or(gp.new.n_bands, old(pool).n_bands) as int
            &&& weights_sum(final(pool).bands@) == 10000
            &&& bands_monotone(final(pool).bands@)
            &&& r->Ok_0 == (ParamsExecutedV {
                event_version: crate::types::EVENT_VERSION,
                pool: pool_id,
                executed_at: now_slot,
            })
        }),
{
    if !crate::types::is_quorum(&pool.admins, pool.admin_threshold, signers) {
        return Err(DlmmError::BadMultisig);
    }
    let gp: GovProposal = match &pool.g_pending {
        Some(g) => *g,
        None => {
            return Err(DlmmError::NoPendingParams);
        },
    };
    if gp.executed {
        return Err(DlmmError::ProposalExecuted);
    }
    if !(now_slot >= gp.earliest_exec && now_slot <= gp.deadline) {
        return Err(DlmmError::WindowClosed);
    }
    if let Some(v) = gp.new.n_bands {
        if !(1 <= v && v as usize <= 64) {
            return Err(DlmmError::InvalidNBands);
        }
    }

    // lay out the prospective bands before touching the pool, so a
    // degenerate geometry leaves everything unchanged
    let merged_bp = crate::bands::BandParams {
        n_bands: match gp.new.n_bands {
            Some(v) => v,
            None => pool.n_bands,
        },
        base_width_bps: match gp.new.base_width_bps {
            Some(v) => v,
            None => pool.base_width_bps,
        },
        min_width_bps: match gp.new.min_width_bps {
            Some(v) => v,
            None => pool.min_width_bps,
        },
        max_width_bps: match gp.new.max_width_bps {
            Some(v) => v,
            None => pool.max_width_bps,
        },
        width_slope_per_kbps: match gp.new.width_slope_per_kbps {
            Some(v) => v,
            None => pool.width_slope_per_kbps,
        },
        bias_per_kbps: match gp.new.bias_per_kbps {
            Some(v) => v,
            None => pool.bias_per_kbps,
        },
        decay_per_band_bps: match gp.new.decay_per_band_bps {
            Some(v) => v,
            None => pool.decay_per_band_bps,
        },
        ema_y_a_bps: pool.ema_y_a_bps,
        ema_y_b_bps: pool.ema_y_b_bps,
        ema_spot_1e6: pool.ema_spot_1e6,
        max_center_move_bps: match gp.new.max_center_move_bps {
            Some(v) => v,
            None => pool.max_center_move_bps,
        },
        max_width_change_bps: match gp.new.max_width_change_bps {
            Some(v) => v,
            None => pool.max_width_change_bps,
        },
        max_weight_shift_bps: match gp.new.max_weight_shift_bps {
            Some(v) => v,
            None => pool.max_weight_shift_bps,
        },
        last_width_bps: pool.last_width_bps,
        last_center_price_1e6: pool.last_center_price_1e6,
    };
    proof {
        assert(merged_bp == crate::bands::params_of(spec_apply_settable(*pool, gp.new)));
    }
    let (nb, center, width, total) = match crate::bands::compute_bands(
        &merged_bp,
        &pool.bands,
        false,
        false,
    ) {
        Ok(out) => out,
        Err(e) => {
            return Err(e);
        },
    };
    match apply_settable_params(pool, &gp.new) {
        Ok(()) => (),
        Err(e) => {
            return Err(e);
        },
    }
    pool.bands = nb;
    pool.last_width_bps = width;
    pool.last_center_price_1e6 = center;
    pool.total_weight_bps = total;
    pool.g_pending = Some(GovProposal { executed: true, ..gp });
    Ok(ParamsExecutedV {
        event_version: crate::types::EVENT_VERSION,
        pool: pool_id,
        executed_at: now_slot,
    })
}

/// The domain-separated seed tuple the host derives the pool's custody
/// authority from: a version tag, the word "pool", both mint identities
/// (each as its high half then its low half, little-endian) and the bump
/// byte.
pub fn pool_signer_seeds(pool: &Pool) -> (r: Vec<Vec<u8>>)
    ensures
        r@.len() == 5,
        r@[0]@ == seq![118u8, 51u8],
        r@[1]@ == seq![112u8, 111u8, 111u8, 108u8],
        r@[2]@ == vstd::bytes::spec_u128_to_le_bytes(pool.mint_a.hi)
            + vstd::bytes::spec_u128_to_le_bytes(pool.mint_a.lo),
        r@[3]@ == vstd::bytes::spec_u128_to_le_bytes(pool.mint_b.hi)
            + vstd::bytes::spec_u128_to_le_bytes(pool.mint_b.lo),
        r@[4]@ == seq![pool.bump],
{
    let mut tag: Vec<u8> = Vec::new();
    tag.push(118);
    tag.push(51);
    let mut word: Vec<u8> = Vec::new();
    word.push(112);
    word.push(111);
    word.push(111);
    word.push(108);
    let mut mint_a = vstd::bytes::u128_to_le_bytes(pool.mint_a.hi);
    let mut mint_a_lo = vstd::bytes::u128_to_le_bytes(pool.mint_a.lo);
    mint_a.append(&mut mint_a_lo);
    let mut mint_b = vstd::bytes::u128_to_le_bytes(pool.mint_b.hi);
    let mut mint_b_lo = vstd::bytes::u128_to_le_bytes(pool.mint_b.lo);
    mint_b.append(&mut mint_b_lo);
    let mut bump: Vec<u8> = Vec::new();
    bump.push(pool.bump);
    proof {
        assert(tag@ =~= seq![118u8, 51u8]);
        assert(word@ =~= seq![112u8, 111u8, 111u8, 108u8]);
        assert(bump@ =~= seq![pool.bump]);
    }
    let mut r: Vec<Vec<u8>> = Vec::new();
    r.push(tag);
    r.push(word);
    r.push(mint_a);
    r.push(mint_b);
    r.push(bump);
    r
}

} // verus!
