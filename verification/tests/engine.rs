use yield_sensitive_dlmm::errors::DlmmError;
use yield_sensitive_dlmm::gov::{
    execute_params, initialize_pool, migrate_pool_versions, propose_params,
};
use yield_sensitive_dlmm::digest::digest_bands;
use yield_sensitive_dlmm::maintain::renormalize_active_weights;
use yield_sensitive_dlmm::types::{
    AccountId, InitParamsV3, MetricsRing, Pool, RouteMode, SettableParamsV3, StpMode,
    TokenAccountState,
};
use yield_sensitive_dlmm::update::post_yields_and_update;

fn id(n: u128) -> AccountId {
    AccountId { hi: 0, lo: n }
}

fn admins_with(first: AccountId) -> [AccountId; 8] {
    let mut a = [AccountId { hi: 0, lo: 0 }; 8];
    a[0] = first;
    a
}

fn base_params() -> InitParamsV3 {
    InitParamsV3 {
        admins: admins_with(id(1)),
        admin_threshold: 1,
        risk_admin: id(2),
        ops_admin: id(3),
        fee_admin: id(4),
        updater: id(5),
        oracle_signer: None,
        n_bands: 4,
        base_width_bps: 500,
        min_width_bps: 100,
        max_width_bps: 1000,
        width_slope_per_kbps: 0,
        bias_per_kbps: 0,
        decay_per_band_bps: 0,
        alpha_y_bps: 10_000,
        alpha_spot_bps: 10_000,
        alpha_twap_bps: 10_000,
        alpha_vol_bps: 10_000,
        max_twap_dev_bps: 10_000,
        fee_base_bps: 30,
        fee_k_per_bps: 0,
        fee_max_bps: 100,
        initial_y_a_bps: 0,
        initial_y_b_bps: 0,
        initial_spot_price_1e6: 1_000_000,
        hyst_center_bps: 0,
        hyst_width_bps: 0,
        hyst_required_n: 1,
        deposit_ratio_min_bps: 0,
        deposit_ratio_max_bps: u16::MAX,
        inactive_floor_a: 0,
        inactive_floor_b: 0,
        bounty_rate_microunits: 0,
        bounty_max: 0,
        stale_slots_for_boost: u64::MAX,
        bounty_boost_bps: 0,
        min_cu_price: 0,
        max_center_move_bps: 10_000,
        max_width_change_bps: 10_000,
        max_weight_shift_bps: 10_000,
        min_update_interval_slots: 0,
        maker_rebate_max_bps: 0,
        taker_min_bps: 0,
        stp_mode: StpMode::NoPrevention,
        route_mode: RouteMode::BookFirst,
    }
}

fn make_pool(p: &InitParamsV3) -> Pool {
    let mint_a = id(100);
    let mint_b = id(101);
    let (pool, _ev) = initialize_pool(
        id(10),
        255,
        p,
        mint_a,
        mint_b,
        &TokenAccountState { mint: mint_a, amount: 0 },
        &TokenAccountState { mint: mint_b, amount: 0 },
        id(102),
        id(103),
        id(104),
        id(105),
    )
    .unwrap();
    pool
}

fn run_update(
    pool: &mut Pool,
    y_a: u16,
    y_b: u16,
    spot: u64,
    now: u64,
) -> Result<yield_sensitive_dlmm::types::BandsDigestUpdatedV, DlmmError> {
    let mut metrics: Option<MetricsRing> = None;
    let mut treasury_a = TokenAccountState { mint: id(100), amount: 0 };
    let mut treasury_b = TokenAccountState { mint: id(101), amount: 0 };
    let mut ata_a = TokenAccountState { mint: id(100), amount: 0 };
    let mut ata_b = TokenAccountState { mint: id(101), amount: 0 };
    post_yields_and_update(
        pool,
        &mut metrics,
        id(10),
        id(5),
        None,
        false,
        y_a,
        y_b,
        spot,
        0,
        now,
        id(100),
        id(101),
        &TokenAccountState { mint: id(100), amount: 0 },
        &TokenAccountState { mint: id(101), amount: 0 },
        &mut treasury_a,
        &mut treasury_b,
        &mut ata_a,
        &mut ata_b,
    )
}

#[test]
fn init_lays_out_symmetric_bands() {
    let pool = make_pool(&base_params());
    assert_eq!(pool.version, 3);
    assert_eq!(pool.last_width_bps, 500);
    assert_eq!(pool.last_center_price_1e6, 1_000_000);
    assert_eq!(pool.bands.len(), 4);
    let expect = [
        (950_000u64, 1_000_000u64),
        (1_000_000, 1_050_000),
        (1_050_000, 1_100_000),
        (1_100_000, 1_150_000),
    ];
    for (i, (lo, up)) in expect.iter().enumerate() {
        assert_eq!(pool.bands[i].lower_price_1e6, *lo);
        assert_eq!(pool.bands[i].upper_price_1e6, *up);
        assert_eq!(pool.bands[i].weight_bps, 2500);
        assert!(pool.bands[i].is_active);
    }
    assert_eq!(pool.total_weight_bps, 10_000);
}

#[test]
fn init_digest_matches_keccak_of_band_bytes() {
    let pool = make_pool(&base_params());
    let mut bytes: Vec<u8> = Vec::new();
    for b in &pool.bands {
        bytes.extend_from_slice(&b.lower_price_1e6.to_le_bytes());
        bytes.extend_from_slice(&b.upper_price_1e6.to_le_bytes());
        bytes.extend_from_slice(&b.weight_bps.to_le_bytes());
    }
    assert_eq!(bytes.len(), 72);
    let expected = solana_program::keccak::hash(&bytes).to_bytes();
    assert_eq!(digest_bands(&pool.bands), expected);
}

#[test]
fn digest_of_no_bands_is_the_keccak_empty_vector() {
    // the well-known Keccak-256 digest of the empty byte string
    let expected: [u8; 32] = [
        0xc5, 0xd2, 0x46, 0x01, 0x86, 0xf7, 0x23, 0x3c, 0x92, 0x7e, 0x7d, 0xb2, 0xdc, 0xc7, 0x03,
        0xc0, 0xe5, 0x00, 0xb6, 0x53, 0xca, 0x82, 0x27, 0x3b, 0x7b, 0xfa, 0xd8, 0x04, 0x5d, 0x85,
        0xa4, 0x70,
    ];
    assert_eq!(digest_bands(&Vec::new()), expected);
}

#[test]
fn init_rejects_bad_band_count_and_multisig() {
    let mut p = base_params();
    p.n_bands = 0;
    let mint_a = id(100);
    let mint_b = id(101);
    let r = initialize_pool(
        id(10),
        255,
        &p,
        mint_a,
        mint_b,
        &TokenAccountState { mint: mint_a, amount: 0 },
        &TokenAccountState { mint: mint_b, amount: 0 },
        id(102),
        id(103),
        id(104),
        id(105),
    );
    assert_eq!(r.err(), Some(DlmmError::InvalidNBands));

    let mut p2 = base_params();
    p2.admins = admins_with(AccountId { hi: 0, lo: 0 });
    let r2 = initialize_pool(
        id(10),
        255,
        &p2,
        mint_a,
        mint_b,
        &TokenAccountState { mint: mint_a, amount: 0 },
        &TokenAccountState { mint: mint_b, amount: 0 },
        id(102),
        id(103),
        id(104),
        id(105),
    );
    assert_eq!(r2.err(), Some(DlmmError::BadMultisig));
}

#[test]
fn init_rejects_vault_mint_mismatch() {
    let p = base_params();
    let mint_a = id(100);
    let mint_b = id(101);
    let r = initialize_pool(
        id(10),
        255,
        &p,
        mint_a,
        mint_b,
        &TokenAccountState { mint: id(999), amount: 0 },
        &TokenAccountState { mint: mint_b, amount: 0 },
        id(102),
        id(103),
        id(104),
        id(105),
    );
    assert_eq!(r.err(), Some(DlmmError::VaultMintMismatch));
}

#[test]
fn update_gates_reject_in_order() {
    let mut pool = make_pool(&base_params());
    pool.pause_bands = true;
    assert_eq!(run_update(&mut pool, 0, 0, 1_000_000, 1).err(), Some(DlmmError::Paused));
    pool.pause_bands = false;

    // wrong caller
    let mut metrics: Option<MetricsRing> = None;
    let mut t_a = TokenAccountState { mint: id(100), amount: 0 };
    let mut t_b = TokenAccountState { mint: id(101), amount: 0 };
    let mut a_a = TokenAccountState { mint: id(100), amount: 0 };
    let mut a_b = TokenAccountState { mint: id(101), amount: 0 };
    let r = post_yields_and_update(
        &mut pool,
        &mut metrics,
        id(10),
        id(77),
        None,
        false,
        0,
        0,
        1_000_000,
        0,
        1,
        id(100),
        id(101),
        &TokenAccountState { mint: id(100), amount: 0 },
        &TokenAccountState { mint: id(101), amount: 0 },
        &mut t_a,
        &mut t_b,
        &mut a_a,
        &mut a_b,
    );
    assert_eq!(r.err(), Some(DlmmError::Unauthorized));

    // priority fee floor
    pool.min_cu_price = 5;
    assert_eq!(run_update(&mut pool, 0, 0, 1_000_000, 1).err(), Some(DlmmError::CuPriceTooLow));
    pool.min_cu_price = 0;

    // cooldown
    pool.min_update_interval_slots = 100;
    pool.last_update_slot = 0;
    assert_eq!(
        run_update(&mut pool, 0, 0, 1_000_000, 5).err(),
        Some(DlmmError::CooldownNotElapsed),
    );
    pool.min_update_interval_slots = 0;
}

#[test]
fn update_requires_oracle_cosigner_when_configured() {
    let mut p = base_params();
    p.oracle_signer = Some(id(9));
    let mut pool = make_pool(&p);
    assert_eq!(
        run_update(&mut pool, 0, 0, 1_000_000, 1).err(),
        Some(DlmmError::MissingOracleSigner),
    );
}

#[test]
fn update_hysteresis_gate() {
    // two qualifying candidates demanded: the first update fails
    let mut p = base_params();
    p.hyst_center_bps = 50;
    p.hyst_width_bps = 50;
    p.hyst_required_n = 2;
    let mut pool = make_pool(&p);
    assert_eq!(
        run_update(&mut pool, 0, 0, 1_000_400, 1).err(),
        Some(DlmmError::HysteresisNotMet),
    );
    // the rejected update rolls everything back
    assert_eq!(pool.ema_spot_1e6, 1_000_000);
    assert_eq!(pool.hyst_ctr_center, 0);

    // a threshold the 4 bps move reaches, needed once: the update commits
    let mut p2 = base_params();
    p2.hyst_center_bps = 4;
    p2.hyst_required_n = 1;
    let mut pool2 = make_pool(&p2);
    assert!(run_update(&mut pool2, 0, 0, 1_000_400, 1).is_ok());
    assert_eq!(pool2.hyst_ctr_center, 1);
    assert_eq!(pool2.spot_price_1e6, 1_000_400);
}

#[test]
fn update_twap_deviation_gate() {
    let mut p = base_params();
    p.max_twap_dev_bps = 100;
    let mut pool = make_pool(&p);
    assert_eq!(
        run_update(&mut pool, 0, 0, 1_020_000, 1).err(),
        Some(DlmmError::DeviationTooHigh),
    );
    // 50 bps of deviation passes
    let mut pool2 = make_pool(&p);
    assert!(run_update(&mut pool2, 0, 0, 1_005_000, 1).is_ok());
    assert_eq!(pool2.last_center_price_1e6, 1_005_000);
}

#[test]
fn update_circuit_breaker_clamps_center() {
    let mut p = base_params();
    p.max_center_move_bps = 100;
    let mut pool = make_pool(&p);
    assert!(run_update(&mut pool, 0, 0, 1_050_000, 1).is_ok());
    assert_eq!(pool.last_center_price_1e6, 1_010_000);
}

#[test]
fn update_with_tiny_deltas_keeps_geometry() {
    let mut pool = make_pool(&base_params());
    let before: Vec<(u64, u64)> = pool
        .bands
        .iter()
        .map(|b| (b.lower_price_1e6, b.upper_price_1e6))
        .collect();
    assert!(run_update(&mut pool, 0, 0, 1_000_000, 1).is_ok());
    let after: Vec<(u64, u64)> = pool
        .bands
        .iter()
        .map(|b| (b.lower_price_1e6, b.upper_price_1e6))
        .collect();
    assert_eq!(before, after);
    assert_eq!(pool.post_only_until_slot, 1);
    assert_eq!(pool.last_update_slot, 1);
}

#[test]
fn identical_updates_produce_identical_geometry() {
    let mut pool = make_pool(&base_params());
    assert!(run_update(&mut pool, 0, 0, 1_000_000, 1).is_ok());
    let first: Vec<(u64, u64, u16)> = pool
        .bands
        .iter()
        .map(|b| (b.lower_price_1e6, b.upper_price_1e6, b.weight_bps))
        .collect();
    assert!(run_update(&mut pool, 0, 0, 1_000_000, 2).is_ok());
    let second: Vec<(u64, u64, u16)> = pool
        .bands
        .iter()
        .map(|b| (b.lower_price_1e6, b.upper_price_1e6, b.weight_bps))
        .collect();
    assert_eq!(first, second);
}

#[test]
fn update_degenerate_center_is_rejected() {
    let mut pool = make_pool(&base_params());
    assert_eq!(
        run_update(&mut pool, 0, 0, 0, 1).err(),
        Some(DlmmError::InvalidBandRange),
    );
    // nothing changed
    assert_eq!(pool.ema_spot_1e6, 1_000_000);
    assert_eq!(pool.last_center_price_1e6, 1_000_000);
}

#[test]
fn update_with_all_bands_inactive_fails_weight_sum() {
    let mut p = base_params();
    p.inactive_floor_a = 1;
    p.inactive_floor_b = 1;
    let mut pool = make_pool(&p);
    // no reserves anywhere, so every band drops below the floor
    assert_eq!(
        run_update(&mut pool, 0, 0, 1_000_000, 1).err(),
        Some(DlmmError::WeightSumInvalid),
    );
    assert_eq!(pool.total_weight_bps, 10_000);
}

#[test]
fn weight_normalization_residual_lands_on_last_band() {
    let mut p = base_params();
    p.n_bands = 3;
    let mut pool = make_pool(&p);
    for b in pool.bands.iter_mut() {
        b.weight_bps = 101;
    }
    assert!(renormalize_active_weights(&mut pool).is_ok());
    let w: Vec<u16> = pool.bands.iter().map(|b| b.weight_bps).collect();
    assert_eq!(w, vec![3333, 3333, 3334]);
    assert_eq!(pool.total_weight_bps, 10_000);
}

#[test]
fn migrating_a_current_pool_fails() {
    let mut pool = make_pool(&base_params());
    assert_eq!(
        migrate_pool_versions(&mut pool, id(10), &id(1), 7).err(),
        Some(DlmmError::AlreadyMigrated),
    );
}

#[test]
fn migration_is_admin_gated_and_idempotent() {
    let mut pool = make_pool(&base_params());
    pool.version = 2;
    pool.alpha_twap_bps = 0;
    pool.max_twap_dev_bps = 0;
    assert_eq!(
        migrate_pool_versions(&mut pool, id(10), &id(99), 7).err(),
        Some(DlmmError::Unauthorized),
    );
    let ev = migrate_pool_versions(&mut pool, id(10), &id(1), 7).unwrap();
    assert_eq!(pool.version, 3);
    assert_eq!(pool.alpha_twap_bps, 500);
    assert_eq!(pool.max_twap_dev_bps, 500);
    assert_eq!(ev.from, 2);
    assert_eq!(ev.to, 3);
    assert_eq!(
        migrate_pool_versions(&mut pool, id(10), &id(1), 8).err(),
        Some(DlmmError::AlreadyMigrated),
    );
}

#[test]
fn governance_proposal_lifecycle() {
    let mut pool = make_pool(&base_params());
    let signers = vec![id(1)];
    assert_eq!(
        execute_params(&mut pool, id(10), &signers, 0).err(),
        Some(DlmmError::NoPendingParams),
    );
    let mut new = SettableParamsV3::default();
    new.base_width_bps = Some(600);
    assert_eq!(
        propose_params(&mut pool, id(10), &Vec::new(), &new, 10, 10, 0).err(),
        Some(DlmmError::BadMultisig),
    );
    assert!(propose_params(&mut pool, id(10), &signers, &new, 10, 10, 0).is_ok());
    assert_eq!(
        propose_params(&mut pool, id(10), &signers, &new, 10, 10, 1).err(),
        Some(DlmmError::ProposalExists),
    );
    assert_eq!(
        execute_params(&mut pool, id(10), &signers, 5).err(),
        Some(DlmmError::WindowClosed),
    );
    assert!(execute_params(&mut pool, id(10), &signers, 15).is_ok());
    assert_eq!(pool.base_width_bps, 600);
    assert_eq!(pool.last_width_bps, 600);
    assert_eq!(pool.total_weight_bps, 10_000);
    assert_eq!(
        execute_params(&mut pool, id(10), &signers, 16).err(),
        Some(DlmmError::ProposalExecuted),
    );
}
