use yield_sensitive_dlmm::errors::DlmmError;
use yield_sensitive_dlmm::book::init_orderbook;
use yield_sensitive_dlmm::depth::view_depth;
use yield_sensitive_dlmm::gov::{initialize_pool, set_updater, emergency_drain, set_pause};
use yield_sensitive_dlmm::orders::{cancel_order, crank_match, place_order, prune_expired};
use yield_sensitive_dlmm::types::{
    AccountId, InitParamsV3, OrderBook, PauseFlags, Pool, RouteMode, Side, StpMode, TifParam,
    TokenAccountState,
};

fn id(n: u128) -> AccountId {
    AccountId { hi: 0, lo: n }
}

fn admins_with(first: AccountId) -> [AccountId; 8] {
    let mut a = [AccountId { hi: 0, lo: 0 }; 8];
    a[0] = first;
    a
}

fn base_params() -> InitParamsV3 {
    InitParamsV3 {
        admins: admins_with(id(1)),
        admin_threshold: 1,
        risk_admin: id(2),
        ops_admin: id(3),
        fee_admin: id(4),
        updater: id(5),
        oracle_signer: None,
        n_bands: 4,
        base_width_bps: 500,
        min_width_bps: 100,
        max_width_bps: 1000,
        width_slope_per_kbps: 0,
        bias_per_kbps: 0,
        decay_per_band_bps: 0,
        alpha_y_bps: 10_000,
        alpha_spot_bps: 10_000,
        alpha_twap_bps: 10_000,
        alpha_vol_bps: 10_000,
        max_twap_dev_bps: 10_000,
        fee_base_bps: 30,
        fee_k_per_bps: 0,
        fee_max_bps: 100,
        initial_y_a_bps: 0,
        initial_y_b_bps: 0,
        initial_spot_price_1e6: 1_000_000,
        hyst_center_bps: 0,
        hyst_width_bps: 0,
        hyst_required_n: 1,
        deposit_ratio_min_bps: 0,
        deposit_ratio_max_bps: u16::MAX,
        inactive_floor_a: 0,
        inactive_floor_b: 0,
        bounty_rate_microunits: 0,
        bounty_max: 0,
        stale_slots_for_boost: u64::MAX,
        bounty_boost_bps: 0,
        min_cu_price: 0,
        max_center_move_bps: 10_000,
        max_width_change_bps: 10_000,
        max_weight_shift_bps: 10_000,
        min_update_interval_slots: 0,
        maker_rebate_max_bps: 0,
        taker_min_bps: 0,
        stp_mode: StpMode::NoPrevention,
        route_mode: RouteMode::BookFirst,
    }
}

fn make_pool(p: &InitParamsV3) -> Pool {
    let mint_a = id(100);
    let mint_b = id(101);
    let (pool, _ev) = initialize_pool(
        id(10),
        255,
        p,
        mint_a,
        mint_b,
        &TokenAccountState { mint: mint_a, amount: 0 },
        &TokenAccountState { mint: mint_b, amount: 0 },
        id(102),
        id(103),
        id(104),
        id(105),
    )
    .unwrap();
    pool
}

fn make_book(pool: &Pool) -> OrderBook {
    init_orderbook(pool, id(10), 254, 100, 0).unwrap()
}

fn gtc() -> TifParam {
    TifParam { kind: 1, gtt_expiry_slot: 0 }
}

fn ioc() -> TifParam {
    TifParam { kind: 0, gtt_expiry_slot: 0 }
}

#[test]
fn orderbook_init_builds_parallel_levels() {
    let pool = make_pool(&base_params());
    let ob = make_book(&pool);
    assert_eq!(ob.bids.len(), 4);
    assert_eq!(ob.asks.len(), 4);
    assert_eq!(ob.event_q.len(), 256);
    assert_eq!(ob.next_order_id, 1);
    assert_eq!(ob.max_levels, 4);
    assert_eq!(ob.max_queue_per_level, 64);
    assert_eq!(ob.tick_1e6, 100);
    assert_eq!(init_orderbook(&pool, id(10), 254, 0, 0).err(), Some(DlmmError::ParamOutOfRange));
}

#[test]
fn resting_in_the_update_slot_demands_post_only() {
    let mut pool = make_pool(&base_params());
    let mut ob = make_book(&pool);
    pool.post_only_until_slot = 5;
    let r = place_order(
        &mut pool,
        &mut ob,
        id(10),
        id(7),
        Side::Ask,
        50,
        Some(975_000),
        gtc(),
        false,
        false,
        1,
        5,
    );
    assert_eq!(r.err(), Some(DlmmError::Paused));
    // a post-only resting in the same slot is accepted
    let r2 = place_order(
        &mut pool,
        &mut ob,
        id(10),
        id(7),
        Side::Ask,
        50,
        Some(975_000),
        gtc(),
        true,
        false,
        1,
        5,
    )
    .unwrap();
    assert_eq!(r2.0, 1);
    let rec = r2.3.unwrap();
    assert_eq!(rec.order_id, 1);
    assert_eq!(rec.qty, 50);
    assert_eq!(rec.price_1e6, 975_000);
    assert_eq!(rec.band_idx, 0);
    assert_eq!(ob.asks[0].total_qty, 50);
    // the next slot accepts a non-post-only order again
    let r3 = place_order(
        &mut pool,
        &mut ob,
        id(10),
        id(8),
        Side::Bid,
        30,
        Some(1_200_000),
        ioc(),
        false,
        false,
        2,
        6,
    )
    .unwrap();
    assert_eq!(r3.0, 0);
    assert!(r3.3.is_none());
    assert_eq!(r3.1.len(), 1);
    assert_eq!(r3.1[0].qty, 30);
    assert_eq!(r3.1[0].price_1e6, 975_000);
    assert_eq!(r3.1[0].taker_fee_bps, 30);
    assert_eq!(ob.asks[0].total_qty, 20);
}

#[test]
fn zero_quantity_orders_are_rejected() {
    let mut pool = make_pool(&base_params());
    let mut ob = make_book(&pool);
    let r = place_order(
        &mut pool,
        &mut ob,
        id(10),
        id(7),
        Side::Bid,
        0,
        None,
        gtc(),
        false,
        false,
        1,
        1,
    );
    assert_eq!(r.err(), Some(DlmmError::ZeroAmount));
}

#[test]
fn cancel_releases_the_remembered_quantity() {
    let mut pool = make_pool(&base_params());
    let mut ob = make_book(&pool);
    let placed = place_order(
        &mut pool,
        &mut ob,
        id(10),
        id(7),
        Side::Ask,
        50,
        Some(975_000),
        gtc(),
        true,
        false,
        1,
        1,
    )
    .unwrap();
    assert_eq!(placed.0, 1);
    assert_eq!(
        cancel_order(&mut pool, &mut ob, id(10), id(7), Side::Ask, 999).err(),
        Some(DlmmError::NotFound),
    );
    // the owner must match
    assert_eq!(
        cancel_order(&mut pool, &mut ob, id(10), id(8), Side::Ask, 1).err(),
        Some(DlmmError::NotFound),
    );
    let ev = cancel_order(&mut pool, &mut ob, id(10), id(7), Side::Ask, 1).unwrap();
    assert_eq!(ev.order_id, 1);
    assert_eq!(ob.asks[0].total_qty, 0);
    assert_eq!(pool.best_ask_1e6, u64::MAX);
}

#[test]
fn crank_crosses_overlapping_best_levels_unit_by_unit() {
    let mut pool = make_pool(&base_params());
    let mut ob = make_book(&pool);
    // a bid on the highest band and an ask on the lowest band overlap
    place_order(
        &mut pool, &mut ob, id(10), id(7), Side::Bid, 5, Some(1_125_000), gtc(), true, false, 1, 1,
    )
    .unwrap();
    place_order(
        &mut pool, &mut ob, id(10), id(8), Side::Ask, 3, Some(975_000), gtc(), true, false, 2, 1,
    )
    .unwrap();
    assert_eq!(ob.best_bid_band, 3);
    assert_eq!(ob.best_ask_band, 0);
    assert!(crank_match(&mut pool, &mut ob, 2).is_ok());
    assert_eq!(ob.bids[3].total_qty, 3);
    assert_eq!(ob.asks[0].total_qty, 1);
    // the remaining unit crosses, then the ask side is empty
    assert!(crank_match(&mut pool, &mut ob, 10).is_ok());
    assert_eq!(ob.bids[3].total_qty, 2);
    assert_eq!(ob.asks[0].total_qty, 0);
    assert_eq!(pool.best_ask_1e6, u64::MAX);
    assert_eq!(pool.best_bid_1e6, 1_125_000);
}

#[test]
fn prune_retires_cursors_of_empty_levels() {
    let mut pool = make_pool(&base_params());
    let mut ob = make_book(&pool);
    place_order(
        &mut pool, &mut ob, id(10), id(7), Side::Ask, 50, Some(975_000), gtc(), true, false, 1, 1,
    )
    .unwrap();
    cancel_order(&mut pool, &mut ob, id(10), id(7), Side::Ask, 1).unwrap();
    assert_eq!(ob.asks[0].head, 0);
    assert_eq!(ob.asks[0].tail, 1);
    assert!(prune_expired(&mut pool, &mut ob, 10, 2).is_ok());
    assert_eq!(ob.asks[0].head, 1);
}

#[test]
fn depth_snapshot_walks_bands_by_proximity() {
    let mut pool = make_pool(&base_params());
    let mut ob = make_book(&pool);
    place_order(
        &mut pool, &mut ob, id(10), id(7), Side::Bid, 5, Some(1_125_000), gtc(), true, false, 1, 1,
    )
    .unwrap();
    place_order(
        &mut pool, &mut ob, id(10), id(8), Side::Ask, 7, Some(975_000), gtc(), true, false, 2, 1,
    )
    .unwrap();
    let snap = view_depth(&pool, &ob, id(10), 10).unwrap();
    assert_eq!(snap.items.len(), 2);
    // band 0 sits nearer the center than band 3
    assert_eq!(snap.items[0].band_idx, 0);
    assert_eq!(snap.items[0].ask_qty, 7);
    assert_eq!(snap.items[0].bid_qty, 0);
    assert_eq!(snap.items[1].band_idx, 3);
    assert_eq!(snap.items[1].bid_qty, 5);
    // a tighter row budget truncates the snapshot
    let snap1 = view_depth(&pool, &ob, id(10), 1).unwrap();
    assert_eq!(snap1.items.len(), 1);
    assert_eq!(snap1.items[0].band_idx, 0);
}

#[test]
fn band_first_routing_sweeps_reserves_before_resting() {
    let mut p = base_params();
    p.route_mode = RouteMode::DlmmFirst;
    let mut pool = make_pool(&p);
    let mut ob = make_book(&pool);
    // seed band 1 with quote-side reserves directly
    pool.bands[1].reserves_b = 40_000;
    let r = place_order(
        &mut pool,
        &mut ob,
        id(10),
        id(7),
        Side::Bid,
        10_000,
        Some(1_200_000),
        ioc(),
        false,
        false,
        1,
        1,
    )
    .unwrap();
    assert_eq!(r.0, 0);
    assert_eq!(r.2.len(), 1);
    assert_eq!(r.2[0].qty, 10_000);
    assert_eq!(pool.bands[1].reserves_b, 30_000);
    assert_eq!(pool.bands[1].reserves_a, 10_000);
}

#[test]
fn ops_and_risk_scopes_gate_their_operations() {
    let mut pool = make_pool(&base_params());
    assert_eq!(
        set_updater(&mut pool, &id(99), id(50), None).err(),
        Some(DlmmError::Unauthorized),
    );
    assert!(set_updater(&mut pool, &id(3), id(50), Some(id(51))).is_ok());
    assert_eq!(pool.updater, id(50));
    assert_eq!(pool.oracle_signer, Some(id(51)));

    let mut vault_a = TokenAccountState { mint: id(100), amount: 100 };
    let mut vault_b = TokenAccountState { mint: id(101), amount: 0 };
    let mut treasury_a = TokenAccountState { mint: id(100), amount: 0 };
    let mut treasury_b = TokenAccountState { mint: id(101), amount: 0 };
    assert_eq!(
        emergency_drain(
            &pool, id(10), &id(2), true, 50, &mut vault_a, &mut vault_b, &mut treasury_a,
            &mut treasury_b,
        )
        .err(),
        Some(DlmmError::NotPaused),
    );
    let flags = PauseFlags {
        is_paused: Some(true),
        pause_bands: None,
        pause_deposits: None,
        pause_withdraws: None,
        pause_orderbook: None,
    };
    assert!(set_pause(&mut pool, &id(2), &flags).is_ok());
    let ev = emergency_drain(
        &pool, id(10), &id(2), true, 50, &mut vault_a, &mut vault_b, &mut treasury_a,
        &mut treasury_b,
    )
    .unwrap();
    assert_eq!(ev.amount, 50);
    assert_eq!(vault_a.amount, 50);
    assert_eq!(treasury_a.amount, 50);
}

#[test]
fn a_failed_rest_rolls_back_the_whole_placement() {
    let mut pool = make_pool(&base_params());
    let mut ob = make_book(&pool);
    // a resting ask to sweep against
    place_order(
        &mut pool, &mut ob, id(10), id(7), Side::Ask, 10, Some(975_000), gtc(), true, false, 1, 1,
    )
    .unwrap();
    // fill the bid queue of band 3 to its capacity
    for k in 0..64u64 {
        place_order(
            &mut pool,
            &mut ob,
            id(10),
            id(9),
            Side::Bid,
            1,
            Some(1_125_000),
            gtc(),
            true,
            false,
            100 + k,
            1,
        )
        .unwrap();
    }
    assert_eq!(ob.bids[3].total_qty, 64);
    // a taker bid that sweeps the ask and then cannot rest its remainder
    let r = place_order(
        &mut pool,
        &mut ob,
        id(10),
        id(8),
        Side::Bid,
        50,
        Some(1_125_000),
        gtc(),
        false,
        false,
        2,
        2,
    );
    assert_eq!(r.err(), Some(DlmmError::ParamOutOfRange));
    // the sweep against the ask side was undone with it
    assert_eq!(ob.asks[0].total_qty, 10);
    assert_eq!(ob.bids[3].total_qty, 64);
    assert_eq!(ob.next_order_id, 66);
}
