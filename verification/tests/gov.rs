use yield_sensitive_dlmm::errors::DlmmError;
use yield_sensitive_dlmm::gov::{
    accept_mint_rotation, initialize_pool, pool_signer_seeds, propose_mint_rotation, set_roles,
};
use yield_sensitive_dlmm::types::{
    AccountId, InitParamsV3, MetricsRing, Pool, RouteMode, Side, StpMode, TifParam,
    TokenAccountState,
};
use yield_sensitive_dlmm::update::{pay_bounty_if_any, post_yields_and_update, push_metric};

fn id(n: u128) -> AccountId {
    AccountId { hi: 0, lo: n }
}

fn admins_with(first: AccountId) -> [AccountId; 8] {
    let mut a = [AccountId { hi: 0, lo: 0 }; 8];
    a[0] = first;
    a
}

fn base_params() -> InitParamsV3 {
    InitParamsV3 {
        admins: admins_with(id(1)),
        admin_threshold: 1,
        risk_admin: id(2),
        ops_admin: id(3),
        fee_admin: id(4),
        updater: id(5),
        oracle_signer: None,
        n_bands: 4,
        base_width_bps: 500,
        min_width_bps: 100,
        max_width_bps: 1000,
        width_slope_per_kbps: 0,
        bias_per_kbps: 0,
        decay_per_band_bps: 0,
        alpha_y_bps: 10_000,
        alpha_spot_bps: 10_000,
        alpha_twap_bps: 10_000,
        alpha_vol_bps: 10_000,
        max_twap_dev_bps: 10_000,
        fee_base_bps: 30,
        fee_k_per_bps: 0,
        fee_max_bps: 100,
        initial_y_a_bps: 0,
        initial_y_b_bps: 0,
        initial_spot_price_1e6: 1_000_000,
        hyst_center_bps: 0,
        hyst_width_bps: 0,
        hyst_required_n: 1,
        deposit_ratio_min_bps: 0,
        deposit_ratio_max_bps: u16::MAX,
        inactive_floor_a: 0,
        inactive_floor_b: 0,
        bounty_rate_microunits: 0,
        bounty_max: 0,
        stale_slots_for_boost: u64::MAX,
        bounty_boost_bps: 0,
        min_cu_price: 0,
        max_center_move_bps: 10_000,
        max_width_change_bps: 10_000,
        max_weight_shift_bps: 10_000,
        min_update_interval_slots: 0,
        maker_rebate_max_bps: 0,
        taker_min_bps: 0,
        stp_mode: StpMode::NoPrevention,
        route_mode: RouteMode::BookFirst,
    }
}

fn make_pool(p: &InitParamsV3) -> Pool {
    let mint_a = id(100);
    let mint_b = id(101);
    let (pool, _ev) = initialize_pool(
        id(10),
        255,
        p,
        mint_a,
        mint_b,
        &TokenAccountState { mint: mint_a, amount: 0 },
        &TokenAccountState { mint: mint_b, amount: 0 },
        id(102),
        id(103),
        id(104),
        id(105),
    )
    .unwrap();
    pool
}

#[test]
fn set_roles_needs_quorum() {
    let mut pool = make_pool(&base_params());
    assert_eq!(
        set_roles(&mut pool, &Vec::new(), id(20), id(21), id(22)).err(),
        Some(DlmmError::BadMultisig),
    );
    assert!(set_roles(&mut pool, &vec![id(1)], id(20), id(21), id(22)).is_ok());
    assert_eq!(pool.risk_admin, id(20));
    assert_eq!(pool.ops_admin, id(21));
    assert_eq!(pool.fee_admin, id(22));
}

#[test]
fn mint_rotation_is_a_two_step_risk_operation() {
    let mut pool = make_pool(&base_params());
    assert_eq!(
        propose_mint_rotation(&mut pool, &id(99), Some(id(200)), None).err(),
        Some(DlmmError::Unauthorized),
    );
    assert!(propose_mint_rotation(&mut pool, &id(2), Some(id(200)), None).is_ok());
    assert_eq!(pool.proposed_mint_a, Some(id(200)));
    assert_eq!(pool.mint_a, id(100));
    assert!(accept_mint_rotation(&mut pool, &id(2)).is_ok());
    assert_eq!(pool.mint_a, id(200));
    assert_eq!(pool.mint_b, id(101));
    assert_eq!(pool.proposed_mint_a, None);
    assert_eq!(pool.proposed_mint_b, None);
}

#[test]
fn bounty_pays_from_the_first_sufficient_treasury() {
    let mut pool = make_pool(&base_params());
    pool.bounty_rate_microunits = 1_000_000;
    pool.bounty_max = 500;
    let mut treasury_a = TokenAccountState { mint: id(100), amount: 100 };
    let mut treasury_b = TokenAccountState { mint: id(101), amount: 10_000 };
    let mut dst_a = TokenAccountState { mint: id(100), amount: 0 };
    let mut dst_b = TokenAccountState { mint: id(101), amount: 0 };
    // change of 300 bps at one unit per bps: treasury A is short, B pays
    let paid = pay_bounty_if_any(
        &pool, false, &mut treasury_a, &mut treasury_b, &mut dst_a, &mut dst_b, 200, 100,
    )
    .unwrap();
    assert_eq!(paid, 300);
    assert_eq!(treasury_a.amount, 100);
    assert_eq!(treasury_b.amount, 9_700);
    assert_eq!(dst_b.amount, 300);
    // the cap binds
    let paid2 = pay_bounty_if_any(
        &pool, false, &mut treasury_a, &mut treasury_b, &mut dst_a, &mut dst_b, 400, 400,
    )
    .unwrap();
    assert_eq!(paid2, 500);
    // the staleness boost scales the change before the cap
    pool.bounty_max = 10_000;
    pool.bounty_boost_bps = 5_000;
    let paid3 = pay_bounty_if_any(
        &pool, true, &mut treasury_a, &mut treasury_b, &mut dst_a, &mut dst_b, 200, 0,
    )
    .unwrap();
    assert_eq!(paid3, 300);
    // paused pools and pools with a pending proposal skip silently
    pool.is_paused = true;
    let paid4 = pay_bounty_if_any(
        &pool, false, &mut treasury_a, &mut treasury_b, &mut dst_a, &mut dst_b, 200, 100,
    )
    .unwrap();
    assert_eq!(paid4, 0);
}

#[test]
fn metrics_ring_wraps_and_saturates_its_count() {
    let mut m = MetricsRing {
        bump: 0,
        pool: id(10),
        capacity: 2,
        head: 0,
        count: 0,
        items: Vec::new(),
    };
    let item = push_metric(&mut m, 7, 1_000_000, 500, 10_000, [9u8; 32]);
    assert_eq!(item.slot, 7);
    assert_eq!(m.items.len(), 128);
    assert_eq!(m.items[0].slot, 7);
    assert_eq!(m.items[0].hash, [9u8; 32]);
    assert_eq!(m.head, 1);
    assert_eq!(m.count, 1);
    push_metric(&mut m, 8, 1_000_000, 500, 10_000, [1u8; 32]);
    push_metric(&mut m, 9, 1_000_000, 500, 10_000, [2u8; 32]);
    assert_eq!(m.head, 3);
    // the count saturates at the declared capacity
    assert_eq!(m.count, 2);
    assert_eq!(m.items[2].slot, 9);
}

#[test]
fn update_feeds_the_metrics_ring() {
    let mut pool = make_pool(&base_params());
    let mut metrics = Some(MetricsRing {
        bump: 0,
        pool: id(10),
        capacity: 128,
        head: 0,
        count: 0,
        items: Vec::new(),
    });
    let mut treasury_a = TokenAccountState { mint: id(100), amount: 0 };
    let mut treasury_b = TokenAccountState { mint: id(101), amount: 0 };
    let mut ata_a = TokenAccountState { mint: id(100), amount: 0 };
    let mut ata_b = TokenAccountState { mint: id(101), amount: 0 };
    let ev = post_yields_and_update(
        &mut pool,
        &mut metrics,
        id(10),
        id(5),
        None,
        false,
        0,
        0,
        1_000_000,
        0,
        3,
        id(100),
        id(101),
        &TokenAccountState { mint: id(100), amount: 0 },
        &TokenAccountState { mint: id(101), amount: 0 },
        &mut treasury_a,
        &mut treasury_b,
        &mut ata_a,
        &mut ata_b,
    )
    .unwrap();
    let m = metrics.unwrap();
    assert_eq!(m.count, 1);
    assert_eq!(m.items[0].slot, 3);
    assert_eq!(m.items[0].hash, ev.hash);
    assert_eq!(ev.slot, 3);
    assert_eq!(ev.total_weight_bps, 10_000);
}

#[test]
fn metrics_bound_to_another_pool_are_rejected() {
    let mut pool = make_pool(&base_params());
    let mut metrics = Some(MetricsRing {
        bump: 0,
        pool: id(999),
        capacity: 128,
        head: 0,
        count: 0,
        items: Vec::new(),
    });
    let mut treasury_a = TokenAccountState { mint: id(100), amount: 0 };
    let mut treasury_b = TokenAccountState { mint: id(101), amount: 0 };
    let mut ata_a = TokenAccountState { mint: id(100), amount: 0 };
    let mut ata_b = TokenAccountState { mint: id(101), amount: 0 };
    let r = post_yields_and_update(
        &mut pool,
        &mut metrics,
        id(10),
        id(5),
        None,
        false,
        0,
        0,
        1_000_000,
        0,
        3,
        id(100),
        id(101),
        &TokenAccountState { mint: id(100), amount: 0 },
        &TokenAccountState { mint: id(101), amount: 0 },
        &mut treasury_a,
        &mut treasury_b,
        &mut ata_a,
        &mut ata_b,
    );
    assert_eq!(r.err(), Some(DlmmError::Unauthorized));
}

#[test]
fn small_type_decoders_round_their_domains() {
    assert_eq!(Side::Bid.opposite(), Side::Ask);
    assert_eq!(Side::Ask.opposite(), Side::Bid);
    assert_eq!(RouteMode::from_u8(0), RouteMode::BookFirst);
    assert_eq!(RouteMode::from_u8(7), RouteMode::DlmmFirst);
    assert_eq!(StpMode::from_u8(0), StpMode::NoPrevention);
    assert_eq!(StpMode::from_u8(1), StpMode::DecrementAndCancel);
    assert_eq!(StpMode::from_u8(2), StpMode::CancelNewest);
    assert_eq!(StpMode::from_u8(3), StpMode::CancelOldest);
    assert_eq!(StpMode::from_u8(200), StpMode::NoPrevention);
    let ioc = TifParam { kind: 0, gtt_expiry_slot: 44 };
    let gtc = TifParam { kind: 1, gtt_expiry_slot: 44 };
    let gtt = TifParam { kind: 2, gtt_expiry_slot: 44 };
    assert!(ioc.is_ioc());
    assert!(!gtc.is_ioc());
    assert_eq!(ioc.as_expiry(9), 9);
    assert_eq!(gtc.as_expiry(9), u64::MAX);
    assert_eq!(gtt.as_expiry(9), 44);
}

#[test]
fn yield_slope_shrinks_the_width_within_bounds() {
    let mut p = base_params();
    p.width_slope_per_kbps = 100;
    p.initial_y_a_bps = 2_000;
    let pool = make_pool(&p);
    // max yield of 2000 bps is 2 kbps: 500 - 2 * 100 = 300
    assert_eq!(pool.last_width_bps, 300);

    let mut p2 = base_params();
    p2.width_slope_per_kbps = 300;
    p2.initial_y_b_bps = 2_000;
    let pool2 = make_pool(&p2);
    // 500 - 600 falls below the floor and clamps to the minimum
    assert_eq!(pool2.last_width_bps, 100);
}

#[test]
fn yield_difference_tilts_center_and_weights() {
    let mut p = base_params();
    p.bias_per_kbps = 100;
    p.initial_y_a_bps = 2_000;
    let pool = make_pool(&p);
    // tilt of 100 * 2 = 200 bps lifts the center to 1.02
    assert_eq!(pool.last_center_price_1e6, 1_020_000);
    // bands above the middle get the capped bonus before normalization:
    // raws {2500, 2500, 2600, 2600} scale to {2450, 2450, 2549, 2551}
    let w: Vec<u16> = pool.bands.iter().map(|b| b.weight_bps).collect();
    assert_eq!(w, vec![2450, 2450, 2549, 2551]);
    assert_eq!(pool.total_weight_bps, 10_000);
}

#[test]
fn the_largest_band_count_initializes_cleanly() {
    let mut p = base_params();
    p.n_bands = 64;
    // a narrow width so that 31 bands fit below the center
    p.base_width_bps = 100;
    let pool = make_pool(&p);
    assert_eq!(pool.bands.len(), 64);
    let sum: u32 = pool.bands.iter().map(|b| b.weight_bps as u32).sum();
    assert_eq!(sum, 10_000);
    for i in 1..64 {
        assert!(pool.bands[i - 1].upper_price_1e6 <= pool.bands[i].lower_price_1e6);
        assert!(pool.bands[i].lower_price_1e6 < pool.bands[i].upper_price_1e6);
    }

    let mut p2 = base_params();
    p2.n_bands = 65;
    let mint_a = id(100);
    let mint_b = id(101);
    let r = initialize_pool(
        id(10),
        255,
        &p2,
        mint_a,
        mint_b,
        &TokenAccountState { mint: mint_a, amount: 0 },
        &TokenAccountState { mint: mint_b, amount: 0 },
        id(102),
        id(103),
        id(104),
        id(105),
    );
    assert_eq!(r.err(), Some(DlmmError::InvalidNBands));
}

#[test]
fn single_band_pool_spans_center_to_center_plus_width() {
    let mut p = base_params();
    p.n_bands = 1;
    let pool = make_pool(&p);
    assert_eq!(pool.bands.len(), 1);
    assert_eq!(pool.bands[0].lower_price_1e6, 1_000_000);
    assert_eq!(pool.bands[0].upper_price_1e6, 1_050_000);
    assert_eq!(pool.bands[0].weight_bps, 10_000);
}

#[test]
fn signer_seeds_are_domain_separated() {
    let pool = make_pool(&base_params());
    let seeds = pool_signer_seeds(&pool);
    assert_eq!(seeds.len(), 5);
    assert_eq!(seeds[0], b"v3".to_vec());
    assert_eq!(seeds[1], b"pool".to_vec());
    let mut mint_a = pool.mint_a.hi.to_le_bytes().to_vec();
    mint_a.extend_from_slice(&pool.mint_a.lo.to_le_bytes());
    assert_eq!(seeds[2], mint_a);
    assert_eq!(seeds[4], vec![pool.bump]);
}
