use yield_sensitive_dlmm::errors::DlmmError;
use yield_sensitive_dlmm::gov::{initialize_pool, recenter_compact, set_pause};
use yield_sensitive_dlmm::liquidity::{
    add_liquidity, approve_position, collect_fees, passes_ratio_guard, remove_liquidity,
    transfer_position,
};
use yield_sensitive_dlmm::depth::take_from_bands;
use yield_sensitive_dlmm::types::{
    AccountId, InitParamsV3, PauseFlags, Pool, Position, RouteMode, StpMode, TokenAccountState,
};

fn id(n: u128) -> AccountId {
    AccountId { hi: 0, lo: n }
}

fn admins_with(first: AccountId) -> [AccountId; 8] {
    let mut a = [AccountId { hi: 0, lo: 0 }; 8];
    a[0] = first;
    a
}

fn base_params() -> InitParamsV3 {
    InitParamsV3 {
        admins: admins_with(id(1)),
        admin_threshold: 1,
        risk_admin: id(2),
        ops_admin: id(3),
        fee_admin: id(4),
        updater: id(5),
        oracle_signer: None,
        n_bands: 4,
        base_width_bps: 500,
        min_width_bps: 100,
        max_width_bps: 1000,
        width_slope_per_kbps: 0,
        bias_per_kbps: 0,
        decay_per_band_bps: 0,
        alpha_y_bps: 10_000,
        alpha_spot_bps: 10_000,
        alpha_twap_bps: 10_000,
        alpha_vol_bps: 10_000,
        max_twap_dev_bps: 10_000,
        fee_base_bps: 30,
        fee_k_per_bps: 0,
        fee_max_bps: 100,
        initial_y_a_bps: 0,
        initial_y_b_bps: 0,
        initial_spot_price_1e6: 1_000_000,
        hyst_center_bps: 0,
        hyst_width_bps: 0,
        hyst_required_n: 1,
        deposit_ratio_min_bps: 0,
        deposit_ratio_max_bps: u16::MAX,
        inactive_floor_a: 0,
        inactive_floor_b: 0,
        bounty_rate_microunits: 0,
        bounty_max: 0,
        stale_slots_for_boost: u64::MAX,
        bounty_boost_bps: 0,
        min_cu_price: 0,
        max_center_move_bps: 10_000,
        max_width_change_bps: 10_000,
        max_weight_shift_bps: 10_000,
        min_update_interval_slots: 0,
        maker_rebate_max_bps: 0,
        taker_min_bps: 0,
        stp_mode: StpMode::NoPrevention,
        route_mode: RouteMode::BookFirst,
    }
}

fn make_pool(p: &InitParamsV3) -> Pool {
    let mint_a = id(100);
    let mint_b = id(101);
    let (pool, _ev) = initialize_pool(
        id(10),
        255,
        p,
        mint_a,
        mint_b,
        &TokenAccountState { mint: mint_a, amount: 0 },
        &TokenAccountState { mint: mint_b, amount: 0 },
        id(102),
        id(103),
        id(104),
        id(105),
    )
    .unwrap();
    pool
}

fn empty_position() -> Position {
    Position {
        bump: 0,
        pool: id(0),
        owner: id(0),
        band_idx: 0,
        shares: 0,
        last_fee_growth_a_1e18: 0,
        last_fee_growth_b_1e18: 0,
        receipt_nonce: 0,
        min_unlock_slot: 0,
        approved: None,
    }
}

struct Accounts {
    vault_a: TokenAccountState,
    vault_b: TokenAccountState,
    user_a: TokenAccountState,
    user_b: TokenAccountState,
}

fn accounts() -> Accounts {
    Accounts {
        vault_a: TokenAccountState { mint: id(100), amount: 0 },
        vault_b: TokenAccountState { mint: id(101), amount: 0 },
        user_a: TokenAccountState { mint: id(100), amount: 1_000_000 },
        user_b: TokenAccountState { mint: id(101), amount: 1_000_000 },
    }
}

fn deposit(
    pool: &mut Pool,
    pos: &mut Position,
    acc: &mut Accounts,
    band_idx: u8,
    amount_a: u64,
    amount_b: u64,
    now: u64,
) -> Result<yield_sensitive_dlmm::types::LiquidityAddedV, DlmmError> {
    add_liquidity(
        pool,
        pos,
        id(10),
        id(7),
        band_idx,
        amount_a,
        amount_b,
        1,
        0,
        now,
        id(100),
        id(101),
        &mut acc.vault_a,
        &mut acc.vault_b,
        &mut acc.user_a,
        &mut acc.user_b,
    )
}

#[test]
fn add_then_remove_round_trips_in_an_empty_band() {
    let mut pool = make_pool(&base_params());
    let mut pos = empty_position();
    let mut acc = accounts();
    let ev = deposit(&mut pool, &mut pos, &mut acc, 0, 1000, 0, 10).unwrap();
    assert_eq!(ev.shares, 1000);
    assert_eq!(pos.shares, 1000);
    assert_eq!(pool.bands[0].total_shares, 1000);
    assert_eq!(pool.bands[0].reserves_a, 1000);
    assert_eq!(acc.vault_a.amount, 1000);
    assert_eq!(acc.user_a.amount, 999_000);

    let out = remove_liquidity(
        &mut pool,
        &mut pos,
        id(10),
        id(7),
        1000,
        true,
        10,
        &mut acc.vault_a,
        &mut acc.vault_b,
        &mut acc.user_a,
        &mut acc.user_b,
    )
    .unwrap();
    assert_eq!(out.out_a, 1000);
    assert_eq!(out.out_b, 0);
    assert_eq!(pos.shares, 0);
    assert_eq!(pool.bands[0].total_shares, 0);
    assert_eq!(pool.bands[0].reserves_a, 0);
    assert_eq!(acc.vault_a.amount, 0);
    assert_eq!(acc.user_a.amount, 1_000_000);
}

#[test]
fn band_share_total_tracks_position_shares() {
    let mut pool = make_pool(&base_params());
    let mut pos = empty_position();
    let mut acc = accounts();
    deposit(&mut pool, &mut pos, &mut acc, 1, 400, 250, 10).unwrap();
    assert_eq!(pos.shares, 400);
    assert_eq!(pool.bands[1].total_shares, 400);
    deposit(&mut pool, &mut pos, &mut acc, 1, 0, 100, 10).unwrap();
    assert_eq!(pos.shares, 500);
    assert_eq!(pool.bands[1].total_shares, 500);
    // per-band reserves stay covered by the vault balances
    assert!(pool.bands[1].reserves_a <= acc.vault_a.amount);
    assert!(pool.bands[1].reserves_b <= acc.vault_b.amount);
}

#[test]
fn ratio_guard_skips_one_sided_deposits() {
    let mut p = base_params();
    p.deposit_ratio_min_bps = 1;
    p.deposit_ratio_max_bps = 2;
    let pool = make_pool(&p);
    // either amount zero: skipped
    assert_eq!(passes_ratio_guard(&pool, 1000, 0), Ok(true));
    assert_eq!(passes_ratio_guard(&pool, 0, 1000), Ok(true));
    // both positive and far outside the window: rejected
    assert_eq!(passes_ratio_guard(&pool, 1000, 3), Ok(false));
    let mut pool2 = make_pool(&p);
    let mut pos = empty_position();
    let mut acc = accounts();
    assert_eq!(
        deposit(&mut pool2, &mut pos, &mut acc, 0, 1000, 3, 10).err(),
        Some(DlmmError::DepositRatioOutOfBounds),
    );
}

#[test]
fn add_rejects_bad_inputs() {
    let mut pool = make_pool(&base_params());
    let mut pos = empty_position();
    let mut acc = accounts();
    assert_eq!(
        deposit(&mut pool, &mut pos, &mut acc, 9, 10, 0, 1).err(),
        Some(DlmmError::InvalidBandIndex),
    );
    assert_eq!(
        deposit(&mut pool, &mut pos, &mut acc, 0, 0, 0, 1).err(),
        Some(DlmmError::ZeroAmount),
    );
    // pausing deposits under the risk scope blocks the operation
    let flags = PauseFlags {
        is_paused: None,
        pause_bands: None,
        pause_deposits: Some(true),
        pause_withdraws: None,
        pause_orderbook: None,
    };
    assert!(set_pause(&mut pool, &id(2), &flags).is_ok());
    assert_eq!(
        deposit(&mut pool, &mut pos, &mut acc, 0, 10, 0, 1).err(),
        Some(DlmmError::Paused),
    );
}

#[test]
fn compaction_of_an_all_inactive_pool_zeroes_weights() {
    let mut p = base_params();
    p.inactive_floor_a = 1;
    p.inactive_floor_b = 1;
    let mut pool = make_pool(&p);
    assert!(recenter_compact(&mut pool, &id(2)).is_ok());
    // with no active band the rescale has nothing to carry the residual
    assert_eq!(pool.total_weight_bps, 0);
    let mut pos = empty_position();
    let mut acc = accounts();
    assert_eq!(
        deposit(&mut pool, &mut pos, &mut acc, 0, 10, 0, 1).err(),
        Some(DlmmError::BandInactive),
    );
}

#[test]
fn removal_honours_lock_owner_and_share_bounds() {
    let mut pool = make_pool(&base_params());
    let mut pos = empty_position();
    let mut acc = accounts();
    add_liquidity(
        &mut pool,
        &mut pos,
        id(10),
        id(7),
        0,
        500,
        0,
        1,
        100,
        10,
        id(100),
        id(101),
        &mut acc.vault_a,
        &mut acc.vault_b,
        &mut acc.user_a,
        &mut acc.user_b,
    )
    .unwrap();
    assert_eq!(pos.min_unlock_slot, 110);
    let mut run = |user: AccountId, shares: u64, now: u64| {
        remove_liquidity(
            &mut pool,
            &mut pos,
            id(10),
            user,
            shares,
            false,
            now,
            &mut acc.vault_a,
            &mut acc.vault_b,
            &mut acc.user_a,
            &mut acc.user_b,
        )
    };
    assert_eq!(run(id(7), 100, 50).err(), Some(DlmmError::PositionLocked));
    assert_eq!(run(id(8), 100, 120).err(), Some(DlmmError::Unauthorized));
    assert_eq!(run(id(7), 0, 120).err(), Some(DlmmError::InvalidAmount));
    assert_eq!(run(id(7), 501, 120).err(), Some(DlmmError::InvalidAmount));
    assert!(run(id(7), 100, 120).is_ok());
}

#[test]
fn band_swap_accrues_symmetric_fee_growth() {
    let mut pool = make_pool(&base_params());
    let mut pos = empty_position();
    let mut acc = accounts();
    deposit(&mut pool, &mut pos, &mut acc, 1, 0, 100_000, 10).unwrap();
    assert_eq!(pool.fee_current_bps, 30);
    let (remaining, fills) =
        take_from_bands(&mut pool, id(10), yield_sensitive_dlmm::types::Side::Bid, 10_000, u64::MAX)
            .unwrap();
    assert_eq!(remaining, 0);
    assert_eq!(fills.len(), 1);
    assert_eq!(fills[0].qty, 10_000);
    assert_eq!(fills[0].band_idx, 1);
    assert_eq!(fills[0].fee_bps, 30);
    // 10_000 * 30 * 10^18 / 10^4 = 3 * 10^19 on both accumulators
    assert_eq!(pool.bands[1].fee_growth_a_1e18, 30_000_000_000_000_000_000u128);
    assert_eq!(pool.bands[1].fee_growth_b_1e18, 30_000_000_000_000_000_000u128);
    assert_eq!(pool.bands[1].reserves_b, 90_000);
    assert_eq!(pool.bands[1].reserves_a, 10_000);
}

#[test]
fn fees_collect_against_the_growth_checkpoint() {
    let mut pool = make_pool(&base_params());
    let mut pos = empty_position();
    let mut acc = accounts();
    deposit(&mut pool, &mut pos, &mut acc, 1, 0, 100_000, 10).unwrap();
    take_from_bands(&mut pool, id(10), yield_sensitive_dlmm::types::Side::Bid, 10_000, u64::MAX)
        .unwrap();
    let mut treasury_a = TokenAccountState { mint: id(100), amount: 10_000_000 };
    let mut treasury_b = TokenAccountState { mint: id(101), amount: 10_000_000 };
    let ev = collect_fees(
        &pool,
        &mut pos,
        id(10),
        &mut treasury_a,
        &mut treasury_b,
        &mut acc.user_a,
        &mut acc.user_b,
    )
    .unwrap();
    // 100_000 shares * 3*10^19 growth / 10^18 = 3_000_000 of each asset
    assert_eq!(ev.out_a, 3_000_000);
    assert_eq!(ev.out_b, 3_000_000);
    assert_eq!(treasury_a.amount, 7_000_000);
    assert_eq!(pos.last_fee_growth_a_1e18, pool.bands[1].fee_growth_a_1e18);
    // a second collection finds nothing new
    let ev2 = collect_fees(
        &pool,
        &mut pos,
        id(10),
        &mut treasury_a,
        &mut treasury_b,
        &mut acc.user_a,
        &mut acc.user_b,
    )
    .unwrap();
    assert_eq!(ev2.out_a, 0);
    assert_eq!(ev2.out_b, 0);
}

#[test]
fn collect_rejects_an_empty_position() {
    let pool = make_pool(&base_params());
    let mut pos = empty_position();
    let mut acc = accounts();
    let mut treasury_a = TokenAccountState { mint: id(100), amount: 0 };
    let mut treasury_b = TokenAccountState { mint: id(101), amount: 0 };
    assert_eq!(
        collect_fees(
            &pool,
            &mut pos,
            id(10),
            &mut treasury_a,
            &mut treasury_b,
            &mut acc.user_a,
            &mut acc.user_b,
        )
        .err(),
        Some(DlmmError::ZeroShares),
    );
}

#[test]
fn approval_and_transfer_follow_ownership() {
    let mut pos = empty_position();
    pos.owner = id(7);
    assert_eq!(approve_position(&mut pos, id(8), Some(id(9))).err(), Some(DlmmError::Unauthorized));
    assert!(approve_position(&mut pos, id(7), Some(id(9))).is_ok());
    assert_eq!(pos.approved, Some(id(9)));
    // the delegate may hand the receipt over, and the delegation clears
    assert!(transfer_position(&mut pos, id(9), id(11)).is_ok());
    assert_eq!(pos.owner, id(11));
    assert_eq!(pos.approved, None);
    assert_eq!(transfer_position(&mut pos, id(7), id(12)).err(), Some(DlmmError::Unauthorized));
}
