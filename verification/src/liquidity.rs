//! Liquidity and positions: deposits into a chosen band, pro-rata
//! withdrawals, fee collection against per-band growth checkpoints, and
//! position delegation.

use vstd::prelude::*;
use vstd::arithmetic::div_mod::*;
use vstd::arithmetic::mul::*;
use crate::errors::DlmmError;
use crate::math::{mul_div_1e18, mul_div_1e18_spec};
use crate::types::{
    AccountId, Band, Pool, Position, TokenAccountState, LiquidityAddedV, LiquidityRemovedV,
    FeesCollectedV, reserves_a_sum, reserves_b_sum, pool_wf, EVENT_VERSION,
};
use crate::maintain::lemma_weights_sum_update;

verus! {

/// Shares minted for a deposit: the larger of the two amounts.
pub fn quote_shares_to_mint(b: &Band, add_a: u64, add_b: u64) -> (r: u64)
    ensures
        r == (if add_a >= add_b { add_a } else { add_b }),
{
    if add_a >= add_b {
        add_a
    } else {
        add_b
    }
}

/// The deposit ratio guard, skipped when either amount is zero: the
/// A-per-B value at the last center, in bps, must sit inside the
/// configured window.
pub open spec fn ratio_guard_spec(p: Pool, a: u64, b: u64) -> bool {
    if a == 0 || b == 0 {
        true
    } else {
        let price = if p.last_center_price_1e6 >= 1 {
            p.last_center_price_1e6 as int
        } else {
            1
        };
        let r = (((a as int) * price / (b as int)) as u64) as int;
        let r_bps = r / 100;
        p.deposit_ratio_min_bps <= r_bps <= p.deposit_ratio_max_bps
    }
}

/// Whether a deposit of `(a, b)` passes the ratio guard.
pub fn passes_ratio_guard(pool: &Pool, a: u64, b: u64) -> (r: Result<bool, DlmmError>)
    ensures
        r is Ok,
        r->Ok_0 == ratio_guard_spec(*pool, a, b),
{
    if a == 0 || b == 0 {
        return Ok(true);
    }
    let price: u64 = if pool.last_center_price_1e6 >= 1 {
        pool.last_center_price_1e6
    } else {
        1
    };
    assert((a as int) * (price as int) <= u128::MAX as int) by (nonlinear_arith)
        requires
            0 <= a as int <= 0xffff_ffff_ffff_ffff,
            0 <= price as int <= 0xffff_ffff_ffff_ffff,
    ;
    let num: u128 = (a as u128) * (price as u128);
    let q: u128 = num / (b as u128);
    let r: u64 = #[verifier::truncate] (q as u64);
    let r_bps: u64 = r / 100;
    Ok(r_bps >= pool.deposit_ratio_min_bps as u64 && r_bps <= pool.deposit_ratio_max_bps as u64)
}

/// Saturating addition into the `u64` domain.
pub open spec fn sat_add_u64(a: int, b: int) -> int {
    if a + b > u64::MAX {
        u64::MAX as int
    } else {
        a + b
    }
}

/// Replacing one band shifts the reserve sums by the differences.
pub proof fn lemma_reserves_sum_update(s: Seq<Band>, i: int, b: Band)
    requires
        0 <= i < s.len(),
    ensures
        reserves_a_sum(s.update(i, b)) == reserves_a_sum(s) - s[i].reserves_a + b.reserves_a,
        reserves_b_sum(s.update(i, b)) == reserves_b_sum(s) - s[i].reserves_b + b.reserves_b,
    decreases s.len(),
{
    let s2 = s.update(i, b);
    if i == s.len() - 1 {
        assert(s2.drop_last() =~= s.drop_last());
        assert(s2.last() == b);
    } else {
        assert(s2.drop_last() =~= s.drop_last().update(i, b));
        assert(s2.last() == s.last());
        lemma_reserves_sum_update(s.drop_last(), i, b);
    }
}

/// Reserve sums are non-negative and dominate each single band.
pub proof fn lemma_reserves_le_sum(s: Seq<Band>, i: int)
    requires
        0 <= i < s.len(),
    ensures
        reserves_a_sum(s) >= s[i].reserves_a,
        reserves_b_sum(s) >= s[i].reserves_b,
        reserves_a_sum(s) >= 0,
        reserves_b_sum(s) >= 0,
    decreases s.len(),
{
    if i == s.len() - 1 {
        lemma_reserves_sum_nonneg(s.drop_last());
    } else {
        lemma_reserves_le_sum(s.drop_last(), i);
    }
}

/// Reserve sums are non-negative.
pub proof fn lemma_reserves_sum_nonneg(s: Seq<Band>)
    ensures
        reserves_a_sum(s) >= 0,
        reserves_b_sum(s) >= 0,
    decreases s.len(),
{
    if s.len() > 0 {
        lemma_reserves_sum_nonneg(s.drop_last());
    }
}

/// The error `add_liquidity` reports, in gate order, or `None` when the
/// deposit goes through.
pub open spec fn spec_add_error(
    p: Pool,
    band_idx: u8,
    amount_a: u64,
    amount_b: u64,
    mint_a: AccountId,
    mint_b: AccountId,
    vault_a: TokenAccountState,
    vault_b: TokenAccountState,
    user_ata_a: TokenAccountState,
    user_ata_b: TokenAccountState,
) -> Option<DlmmError> {
    if p.is_paused || p.pause_deposits {
        Some(DlmmError::Paused)
    } else if band_idx as int >= p.n_bands as int {
        Some(DlmmError::InvalidBandIndex)
    } else if !(amount_a > 0 || amount_b > 0) {
        Some(DlmmError::ZeroAmount)
    } else if !ratio_guard_spec(p, amount_a, amount_b) {
        Some(DlmmError::DepositRatioOutOfBounds)
    } else if !p.bands@[band_idx as int].is_active {
        Some(DlmmError::BandInactive)
    } else if amount_a > 0 && user_ata_a.amount < amount_a {
        Some(DlmmError::InvalidAmount)
    } else if amount_a > 0 && vault_a.amount + amount_a > u64::MAX {
        Some(DlmmError::MathOverflow)
    } else if amount_b > 0 && user_ata_b.amount < amount_b {
        Some(DlmmError::InvalidAmount)
    } else if amount_b > 0 && vault_b.amount + amount_b > u64::MAX {
        Some(DlmmError::MathOverflow)
    } else if !(vault_a.mint == mint_a && vault_b.mint == mint_b) {
        Some(DlmmError::VaultMintMismatch)
    } else {
        None
    }
}

/// Deposit `(amount_a, amount_b)` into the band at `band_idx`: transfer
/// the amounts into the vaults, credit `max(amount_a, amount_b)` shares
/// to the band and the receipt, checkpoint the receipt at the band's
/// current fee growth, and lock it for `min_unlock_after_slots` slots.
/// The band's reserve gain never exceeds the vault gain.
#[verifier::rlimit(100)]
pub fn add_liquidity(
    pool: &mut Pool,
    position: &mut Position,
    pool_id: AccountId,
    user: AccountId,
    band_idx: u8,
    amount_a: u64,
    amount_b: u64,
    receipt_nonce: u64,
    min_unlock_after_slots: u64,
    now_slot: u64,
    mint_a: AccountId,
    mint_b: AccountId,
    vault_a: &mut TokenAccountState,
    vault_b: &mut TokenAccountState,
    user_ata_a: &mut TokenAccountState,
    user_ata_b: &mut TokenAccountState,
) -> (r: Result<LiquidityAddedV, DlmmError>)
    requires
        pool_wf(*old(pool)),
    ensures
        r is Err ==> *final(pool) == *old(pool) && *final(position) == *old(position)
            && *final(vault_a) == *old(vault_a) && *final(vault_b) == *old(vault_b)
            && *final(user_ata_a) == *old(user_ata_a) && *final(user_ata_b) == *old(user_ata_b),
        (match spec_add_error(
            *old(pool),
            band_idx,
            amount_a,
            amount_b,
            mint_a,
            mint_b,
            *old(vault_a),
            *old(vault_b),
            *old(user_ata_a),
            *old(user_ata_b),
        ) {
            Some(e) => r == Err::<LiquidityAddedV, DlmmError>(e),
            None => r is Ok,
        }),
        r is Ok ==> ({
            let shares = if amount_a >= amount_b { amount_a } else { amount_b };
            let ob = old(pool).bands@[band_idx as int];
            &&& *final(pool) == (Pool { bands: final(pool).bands, ..*old(pool) })
            &&& final(pool).bands@ == old(pool).bands@.update(
                band_idx as int,
                Band {
                    total_shares: sat_add_u64(ob.total_shares as int, shares as int) as u64,
                    reserves_a: sat_add_u64(ob.reserves_a as int, amount_a as int) as u64,
                    reserves_b: sat_add_u64(ob.reserves_b as int, amount_b as int) as u64,
                    util_a: sat_add_u64(ob.util_a as int, amount_a as int) as u64,
                    util_b: sat_add_u64(ob.util_b as int, amount_b as int) as u64,
                    ..ob
                },
            )
            &&& *final(position) == (Position {
                bump: old(position).bump,
                pool: pool_id,
                owner: user,
                band_idx: band_idx,
                shares: sat_add_u64(old(position).shares as int, shares as int) as u64,
                last_fee_growth_a_1e18: ob.fee_growth_a_1e18,
                last_fee_growth_b_1e18: ob.fee_growth_b_1e18,
                receipt_nonce: receipt_nonce,
                min_unlock_slot: sat_add_u64(now_slot as int, min_unlock_after_slots as int) as u64,
                approved: Option::None,
            })
            &&& *final(vault_a) == (TokenAccountState {
                amount: (old(vault_a).amount + amount_a) as u64,
                ..*old(vault_a)
            })
            &&& *final(vault_b) == (TokenAccountState {
                amount: (old(vault_b).amount + amount_b) as u64,
                ..*old(vault_b)
            })
            &&& *final(user_ata_a) == (TokenAccountState {
                amount: (old(user_ata_a).amount - amount_a) as u64,
                ..*old(user_ata_a)
            })
            &&& *final(user_ata_b) == (TokenAccountState {
                amount: (old(user_ata_b).amount - amount_b) as u64,
                ..*old(user_ata_b)
            })
            &&& r->Ok_0 == (LiquidityAddedV {
                event_version: EVENT_VERSION,
                pool: pool_id,
                owner: user,
                band_idx: band_idx,
                shares: shares,
            })
            &&& pool_wf(*final(pool))
        }),
        r is Ok && reserves_a_sum(old(pool).bands@) <= old(vault_a).amount ==> reserves_a_sum(
            final(pool).bands@,
        ) <= final(vault_a).amount,
        r is Ok && reserves_b_sum(old(pool).bands@) <= old(vault_b).amount ==> reserves_b_sum(
            final(pool).bands@,
        ) <= final(vault_b).amount,
{
    if pool.is_paused || pool.pause_deposits {
        return Err(DlmmError::Paused);
    }
    if !((band_idx as usize) < pool.n_bands as usize) {
        return Err(DlmmError::InvalidBandIndex);
    }
    if !(amount_a > 0 || amount_b > 0) {
        return Err(DlmmError::ZeroAmount);
    }
    let guard = match passes_ratio_guard(pool, amount_a, amount_b) {
        Ok(g) => g,
        Err(e) => {
            return Err(e);
        },
    };
    if !guard {
        return Err(DlmmError::DepositRatioOutOfBounds);
    }
    let idx = band_idx as usize;
    if !pool.bands[idx].is_active {
        return Err(DlmmError::BandInactive);
    }
    // transfer feasibility, before anything moves
    if amount_a > 0 {
        if user_ata_a.amount < amount_a {
            return Err(DlmmError::InvalidAmount);
        }
        if vault_a.amount > u64::MAX - amount_a {
            return Err(DlmmError::MathOverflow);
        }
    }
    if amount_b > 0 {
        if user_ata_b.amount < amount_b {
            return Err(DlmmError::InvalidAmount);
        }
        if vault_b.amount > u64::MAX - amount_b {
            return Err(DlmmError::MathOverflow);
        }
    }
    if !(vault_a.mint == mint_a && vault_b.mint == mint_b) {
        return Err(DlmmError::VaultMintMismatch);
    }

    let shares = quote_shares_to_mint(&pool.bands[idx], amount_a, amount_b);
    user_ata_a.amount = user_ata_a.amount - amount_a;
    vault_a.amount = vault_a.amount + amount_a;
    user_ata_b.amount = user_ata_b.amount - amount_b;
    vault_b.amount = vault_b.amount + amount_b;

    let ghost s0 = pool.bands@;
    let ob = pool.bands[idx];
    let nb = Band {
        total_shares: if shares > u64::MAX - ob.total_shares {
            u64::MAX
        } else {
            ob.total_shares + shares
        },
        reserves_a: if amount_a > u64::MAX - ob.reserves_a {
            u64::MAX
        } else {
            ob.reserves_a + amount_a
        },
        reserves_b: if amount_b > u64::MAX - ob.reserves_b {
            u64::MAX
        } else {
            ob.reserves_b + amount_b
        },
        util_a: if amount_a > u64::MAX - ob.util_a {
            u64::MAX
        } else {
            ob.util_a + amount_a
        },
        util_b: if amount_b > u64::MAX - ob.util_b {
            u64::MAX
        } else {
            ob.util_b + amount_b
        },
        ..ob
    };
    pool.bands[idx] = nb;
    proof {
        assert(pool.bands@ =~= s0.update(idx as int, nb));
        lemma_reserves_sum_update(s0, idx as int, nb);
        lemma_reserves_le_sum(s0, idx as int);
        lemma_weights_sum_update(s0, idx as int, nb);
    }

    position.bump = position.bump;
    position.pool = pool_id;
    position.owner = user;
    position.band_idx = band_idx;
    position.shares = if shares > u64::MAX - position.shares {
        u64::MAX
    } else {
        position.shares + shares
    };
    position.last_fee_growth_a_1e18 = nb.fee_growth_a_1e18;
    position.last_fee_growth_b_1e18 = nb.fee_growth_b_1e18;
    position.receipt_nonce = receipt_nonce;
    position.min_unlock_slot = if min_unlock_after_slots > u64::MAX - now_slot {
        u64::MAX
    } else {
        now_slot + min_unlock_after_slots
    };
    position.approved = None;

    Ok(LiquidityAddedV {
        event_version: EVENT_VERSION,
        pool: pool_id,
        owner: user,
        band_idx,
        shares,
    })
}

/// The error `remove_liquidity` reports, in gate order, or `None`.
pub open spec fn spec_remove_error(
    p: Pool,
    pos: Position,
    user: AccountId,
    shares_to_burn: u64,
    now_slot: u64,
) -> Option<DlmmError> {
    if p.is_paused || p.pause_withdraws {
        Some(DlmmError::Paused)
    } else if now_slot < pos.min_unlock_slot {
        Some(DlmmError::PositionLocked)
    } else if !(pos.owner == user || pos.approved == Some(user)) {
        Some(DlmmError::Unauthorized)
    } else if !(shares_to_burn > 0 && shares_to_burn <= pos.shares) {
        Some(DlmmError::InvalidAmount)
    } else if pos.band_idx as int >= p.bands@.len() {
        Some(DlmmError::InvalidBandIndex)
    } else if p.bands@[pos.band_idx as int].total_shares == 0 {
        Some(DlmmError::ZeroShares)
    } else {
        None
    }
}

/// The pro-rata payout of a withdrawal, truncated.
pub open spec fn spec_pro_rata(reserves: u64, burn: u64, total: u64) -> int {
    (reserves as int) * (burn as int) / (total as int)
}

/// Burn `shares_to_burn` from the receipt and pay out the pro-rata share
/// of the band's reserves, truncating in the pool's favor. The payout of
/// each asset never exceeds that band's reserves.
#[verifier::rlimit(100)]
pub fn remove_liquidity(
    pool: &mut Pool,
    position: &mut Position,
    pool_id: AccountId,
    user: AccountId,
    shares_to_burn: u64,
    close_position: bool,
    now_slot: u64,
    vault_a: &mut TokenAccountState,
    vault_b: &mut TokenAccountState,
    user_ata_a: &mut TokenAccountState,
    user_ata_b: &mut TokenAccountState,
) -> (r: Result<LiquidityRemovedV, DlmmError>)
    requires
        pool_wf(*old(pool)),
        (old(position).band_idx as int) < old(pool).bands@.len()
            ==> old(position).shares <= old(pool).bands@[old(position).band_idx as int].total_shares,
        reserves_a_sum(old(pool).bands@) <= old(vault_a).amount,
        reserves_b_sum(old(pool).bands@) <= old(vault_b).amount,
        old(user_ata_a).amount as int + old(vault_a).amount as int <= u64::MAX,
        old(user_ata_b).amount as int + old(vault_b).amount as int <= u64::MAX,
    ensures
        r is Err ==> *final(pool) == *old(pool) && *final(position) == *old(position)
            && *final(vault_a) == *old(vault_a) && *final(vault_b) == *old(vault_b)
            && *final(user_ata_a) == *old(user_ata_a) && *final(user_ata_b) == *old(user_ata_b),
        (match spec_remove_error(*old(pool), *old(position), user, shares_to_burn, now_slot) {
            Some(e) => r == Err::<LiquidityRemovedV, DlmmError>(e),
            None => r is Ok,
        }),
        r is Ok ==> ({
            let idx = old(position).band_idx as int;
            let ob = old(pool).bands@[idx];
            let out_a = spec_pro_rata(ob.reserves_a, shares_to_burn, ob.total_shares);
            let out_b = spec_pro_rata(ob.reserves_b, shares_to_burn, ob.total_shares);
            &&& out_a <= ob.reserves_a
            &&& out_b <= ob.reserves_b
            &&& *final(pool) == (Pool { bands: final(pool).bands, ..*old(pool) })
            &&& final(pool).bands@ == old(pool).bands@.update(
                idx,
                Band {
                    total_shares: (ob.total_shares - shares_to_burn) as u64,
                    reserves_a: (ob.reserves_a - out_a) as u64,
                    reserves_b: (ob.reserves_b - out_b) as u64,
                    ..ob
                },
            )
            &&& *final(position) == (Position {
                shares: (old(position).shares - shares_to_burn) as u64,
                ..*old(position)
            })
            &&& *final(vault_a) == (TokenAccountState {
                amount: (old(vault_a).amount - out_a) as u64,
                ..*old(vault_a)
            })
            &&& *final(vault_b) == (TokenAccountState {
                amount: (old(vault_b).amount - out_b) as u64,
                ..*old(vault_b)
            })
            &&& *final(user_ata_a) == (TokenAccountState {
                amount: (old(user_ata_a).amount + out_a) as u64,
                ..*old(user_ata_a)
            })
            &&& *final(user_ata_b) == (TokenAccountState {
                amount: (old(user_ata_b).amount + out_b) as u64,
                ..*old(user_ata_b)
            })
            &&& r->Ok_0 == (LiquidityRemovedV {
                event_version: EVENT_VERSION,
                pool: pool_id,
                owner: old(position).owner,
                band_idx: old(position).band_idx,
                shares_burned: shares_to_burn,
                out_a: out_a as u64,
                out_b: out_b as u64,
            })
            &&& pool_wf(*final(pool))
            &&& reserves_a_sum(final(pool).bands@) <= final(vault_a).amount
            &&& reserves_b_sum(final(pool).bands@) <= final(vault_b).amount
        }),
{
    if pool.is_paused || pool.pause_withdraws {
        return Err(DlmmError::Paused);
    }
    if now_slot < position.min_unlock_slot {
        return Err(DlmmError::PositionLocked);
    }
    let approved_ok = match position.approved {
        Some(a) => a == user,
        None => false,
    };
    if !(position.owner == user || approved_ok) {
        return Err(DlmmError::Unauthorized);
    }
    if !(shares_to_burn > 0 && shares_to_burn <= position.shares) {
        return Err(DlmmError::InvalidAmount);
    }
    let idx = position.band_idx as usize;
    if !(idx < pool.bands.len()) {
        return Err(DlmmError::InvalidBandIndex);
    }
    let ob = pool.bands[idx];
    if ob.total_shares == 0 {
        return Err(DlmmError::ZeroShares);
    }

    assert((ob.reserves_a as int) * (shares_to_burn as int) <= u128::MAX as int)
        by (nonlinear_arith)
        requires
            0 <= ob.reserves_a as int <= 0xffff_ffff_ffff_ffff,
            0 <= shares_to_burn as int <= 0xffff_ffff_ffff_ffff,
    ;
    assert((ob.reserves_b as int) * (shares_to_burn as int) <= u128::MAX as int)
        by (nonlinear_arith)
        requires
            0 <= ob.reserves_b as int <= 0xffff_ffff_ffff_ffff,
            0 <= shares_to_burn as int <= 0xffff_ffff_ffff_ffff,
    ;
    let num_a: u128 = (ob.reserves_a as u128) * (shares_to_burn as u128);
    let num_b: u128 = (ob.reserves_b as u128) * (shares_to_burn as u128);
    proof {
        lemma_pro_rata_le(ob.reserves_a, shares_to_burn, ob.total_shares);
        lemma_pro_rata_le(ob.reserves_b, shares_to_burn, ob.total_shares);
    }
    let out_a: u64 = (num_a / (ob.total_shares as u128)) as u64;
    let out_b: u64 = (num_b / (ob.total_shares as u128)) as u64;

    let ghost s0 = pool.bands@;
    let nb = Band {
        total_shares: ob.total_shares - shares_to_burn,
        reserves_a: ob.reserves_a - out_a,
        reserves_b: ob.reserves_b - out_b,
        ..ob
    };
    pool.bands[idx] = nb;
    proof {
        assert(pool.bands@ =~= s0.update(idx as int, nb));
        lemma_reserves_sum_update(s0, idx as int, nb);
        lemma_reserves_le_sum(s0, idx as int);
        lemma_weights_sum_update(s0, idx as int, nb);
    }
    position.shares = position.shares - shares_to_burn;

    vault_a.amount = vault_a.amount - out_a;
    user_ata_a.amount = user_ata_a.amount + out_a;
    vault_b.amount = vault_b.amount - out_b;
    user_ata_b.amount = user_ata_b.amount + out_b;

    Ok(LiquidityRemovedV {
        event_version: EVENT_VERSION,
        pool: pool_id,
        owner: position.owner,
        band_idx: position.band_idx,
        shares_burned: shares_to_burn,
        out_a,
        out_b,
    })
}

/// A truncated pro-rata share never exceeds the reserves it draws on.
proof fn lemma_pro_rata_le(reserves: u64, burn: u64, total: u64)
    requires
        total > 0,
        burn <= total,
    ensures
        0 <= spec_pro_rata(reserves, burn, total) <= reserves,
{
    let num = (reserves as int) * (burn as int);
    assert((reserves as int) * (burn as int) >= 0) by (nonlinear_arith)
        requires
            reserves as int >= 0,
            burn as int >= 0,
    ;
    lemma_div_pos_is_pos(num, total as int);
    assert((reserves as int) * (burn as int) <= (reserves as int) * (total as int))
        by (nonlinear_arith)
        requires
            0 <= burn as int <= total as int,
            reserves as int >= 0,
    ;
    lemma_div_is_ordered(num, (reserves as int) * (total as int), total as int);
    lemma_div_multiples_vanish(reserves as int, total as int);
    assert((reserves as int) * (total as int) == (total as int) * (reserves as int)) by {
        lemma_mul_is_commutative(reserves as int, total as int);
    }
}

/// The error `collect_fees` reports, in gate order, or `None`.
pub open spec fn spec_collect_error(
    p: Pool,
    pos: Position,
    treasury_a: TokenAccountState,
    treasury_b: TokenAccountState,
    user_ata_a: TokenAccountState,
    user_ata_b: TokenAccountState,
) -> Option<DlmmError> {
    if pos.band_idx as int >= p.bands@.len() {
        Some(DlmmError::InvalidBandIndex)
    } else {
        let b = p.bands@[pos.band_idx as int];
        let owed_a = spec_owed(pos.shares, b.fee_growth_a_1e18, pos.last_fee_growth_a_1e18);
        let owed_b = spec_owed(pos.shares, b.fee_growth_b_1e18, pos.last_fee_growth_b_1e18);
        if !(pos.shares > 0 && b.total_shares > 0) {
            Some(DlmmError::ZeroShares)
        } else if owed_a > 0 && treasury_a.amount < owed_a {
            Some(DlmmError::InvalidAmount)
        } else if owed_a > 0 && user_ata_a.amount + owed_a > u64::MAX {
            Some(DlmmError::MathOverflow)
        } else if owed_b > 0 && treasury_b.amount < owed_b {
            Some(DlmmError::InvalidAmount)
        } else if owed_b > 0 && user_ata_b.amount + owed_b > u64::MAX {
            Some(DlmmError::MathOverflow)
        } else {
            None
        }
    }
}

/// Fees owed to a position: its shares scaled by the growth since its
/// checkpoint, truncated at the 1e18 scale.
pub open spec fn spec_owed(shares: u64, growth: u128, checkpoint: u128) -> int {
    let delta = if growth >= checkpoint {
        growth - checkpoint
    } else {
        0
    };
    mul_div_1e18_spec(shares, delta as u128) as int
}

/// Pay a position the fees its band accrued since its checkpoint, from
/// the treasuries, and advance the checkpoint to the band's current
/// growth.
pub fn collect_fees(
    pool: &Pool,
    position: &mut Position,
    pool_id: AccountId,
    treasury_a: &mut TokenAccountState,
    treasury_b: &mut TokenAccountState,
    user_ata_a: &mut TokenAccountState,
    user_ata_b: &mut TokenAccountState,
) -> (r: Result<FeesCollectedV, DlmmError>)
    ensures
        r is Err ==> *final(position) == *old(position) && *final(treasury_a) == *old(treasury_a)
            && *final(treasury_b) == *old(treasury_b) && *final(user_ata_a) == *old(user_ata_a)
            && *final(user_ata_b) == *old(user_ata_b),
        (match spec_collect_error(
            *pool,
            *old(position),
            *old(treasury_a),
            *old(treasury_b),
            *old(user_ata_a),
            *old(user_ata_b),
        ) {
            Some(e) => r == Err::<FeesCollectedV, DlmmError>(e),
            None => r is Ok,
        }),
        r is Ok ==> ({
            let b = pool.bands@[old(position).band_idx as int];
            let owed_a = spec_owed(
                old(position).shares,
                b.fee_growth_a_1e18,
                old(position).last_fee_growth_a_1e18,
            );
            let owed_b = spec_owed(
                old(position).shares,
                b.fee_growth_b_1e18,
                old(position).last_fee_growth_b_1e18,
            );
            &&& *final(position) == (Position {
                last_fee_growth_a_1e18: b.fee_growth_a_1e18,
                last_fee_growth_b_1e18: b.fee_growth_b_1e18,
                ..*old(position)
            })
            &&& *final(treasury_a) == (TokenAccountState {
                amount: (old(treasury_a).amount - owed_a) as u64,
                ..*old(treasury_a)
            })
            &&& *final(treasury_b) == (TokenAccountState {
                amount: (old(treasury_b).amount - owed_b) as u64,
                ..*old(treasury_b)
            })
            &&& *final(user_ata_a) == (TokenAccountState {
                amount: (old(user_ata_a).amount + owed_a) as u64,
                ..*old(user_ata_a)
            })
            &&& *final(user_ata_b) == (TokenAccountState {
                amount: (old(user_ata_b).amount + owed_b) as u64,
                ..*old(user_ata_b)
            })
            &&& r->Ok_0 == (FeesCollectedV {
                event_version: EVENT_VERSION,
                pool: pool_id,
                owner: old(position).owner,
                band_idx: old(position).band_idx,
                out_a: owed_a as u64,
                out_b: owed_b as u64,
            })
        }),
{
    let idx = position.band_idx as usize;
    if !(idx < pool.bands.len()) {
        return Err(DlmmError::InvalidBandIndex);
    }
    let b = pool.bands[idx];
    if !(position.shares > 0 && b.total_shares > 0) {
        return Err(DlmmError::ZeroShares);
    }
    let delta_a: u128 = if b.fee_growth_a_1e18 >= position.last_fee_growth_a_1e18 {
        b.fee_growth_a_1e18 - position.last_fee_growth_a_1e18
    } else {
        0
    };
    let delta_b: u128 = if b.fee_growth_b_1e18 >= position.last_fee_growth_b_1e18 {
        b.fee_growth_b_1e18 - position.last_fee_growth_b_1e18
    } else {
        0
    };
    let owed_a = mul_div_1e18(position.shares, delta_a);
    let owed_b = mul_div_1e18(position.shares, delta_b);
    if owed_a > 0 {
        if treasury_a.amount < owed_a {
            return Err(DlmmError::InvalidAmount);
        }
        if user_ata_a.amount > u64::MAX - owed_a {
            return Err(DlmmError::MathOverflow);
        }
    }
    if owed_b > 0 {
        if treasury_b.amount < owed_b {
            return Err(DlmmError::InvalidAmount);
        }
        if user_ata_b.amount > u64::MAX - owed_b {
            return Err(DlmmError::MathOverflow);
        }
    }
    position.last_fee_growth_a_1e18 = b.fee_growth_a_1e18;
    position.last_fee_growth_b_1e18 = b.fee_growth_b_1e18;
    treasury_a.amount = treasury_a.amount - owed_a;
    user_ata_a.amount = user_ata_a.amount + owed_a;
    treasury_b.amount = treasury_b.amount - owed_b;
    user_ata_b.amount = user_ata_b.amount + owed_b;
    Ok(FeesCollectedV {
        event_version: EVENT_VERSION,
        pool: pool_id,
        owner: position.owner,
        band_idx: position.band_idx,
        out_a: owed_a,
        out_b: owed_b,
    })
}

/// Set or clear the approved delegate; only the owner may do so.
pub fn approve_position(position: &mut Position, user: AccountId, spender: Option<AccountId>) -> (r:
    Result<(), DlmmError>)
    ensures
        r is Ok <==> old(position).owner == user,
        r is Err ==> r->Err_0 == DlmmError::Unauthorized && *final(position) == *old(position),
        r is Ok ==> *final(position) == (Position { approved: spender, ..*old(position) }),
{
    if !(position.owner == user) {
        return Err(DlmmError::Unauthorized);
    }
    position.approved = spender;
    Ok(())
}

/// Hand the receipt to a new owner; the owner or the approved delegate
/// may do so, and the delegation is cleared.
pub fn transfer_position(position: &mut Position, user: AccountId, new_owner: AccountId) -> (r:
    Result<(), DlmmError>)
    ensures
        r is Ok <==> (old(position).owner == user || old(position).approved == Some(user)),
        r is Err ==> r->Err_0 == DlmmError::Unauthorized && *final(position) == *old(position),
        r is Ok ==> *final(position) == (Position {
            owner: new_owner,
            approved: Option::None,
            ..*old(position)
        }),
{
    let approved_ok = match position.approved {
        Some(a) => a == user,
        None => false,
    };
    if !(position.owner == user || approved_ok) {
        return Err(DlmmError::Unauthorized);
    }
    position.owner = new_owner;
    position.approved = None;
    Ok(())
}

} // verus!
