//! The order operations: placement with routing and the post-update
//! post-only window, cancellation, the crank-driven crossing loop and
//! expiry pruning.

use vstd::prelude::*;
use crate::errors::DlmmError;
use crate::math::{mid_price, round_to_tick, FEE_GROWTH_UNIT};
use crate::types::{
    AccountId, Band, BookEvent, OrderBook, OrderCanceledV3, OrderFilledV3, OrderPlacedV3, Pool,
    PriceLevel, RouteMode, Side, SwapFilledV, TifParam, band_mid, EVENT_VERSION,
    OUT_REASON_CANCEL,
};
use crate::book::{
    book_wf, spec_push_event, spec_find_place, spec_highest_nonempty, spec_lowest_nonempty,
    spec_target_band, push_event, map_price_to_band, refresh_top_of_book, rest_in_book,
    remove_order_linear, cross_once,
};
use crate::depth::{band_sweep, proximity_order_spec, take_from_bands};

verus! {

/// The taker fee of a book fill: the dynamic fee floored by the
/// configured taker minimum.
pub open spec fn spec_taker_bps(p: Pool) -> int {
    if p.fee_current_bps >= p.taker_min_bps {
        p.fee_current_bps as int
    } else {
        p.taker_min_bps as int
    }
}

/// The maker rebate of a book fill: capped by the taker fee.
pub open spec fn spec_rebate_bps(p: Pool) -> int {
    if p.maker_rebate_max_bps as int <= spec_taker_bps(p) {
        p.maker_rebate_max_bps as int
    } else {
        spec_taker_bps(p)
    }
}

/// A sweep of the book from level `i` upward: walk while the band
/// midpoint stays at or below the limit, consume resting quantity, and
/// record a fill per touched level. Stops at the first level beyond the
/// limit or once nothing is left to fill.
pub open spec fn book_sweep_asc(
    levels: Seq<PriceLevel>,
    bands: Seq<Band>,
    limit: u64,
    qty: u64,
    i: int,
    p: Pool,
    pool_id: AccountId,
    taker: AccountId,
    fill_side: Side,
) -> (Seq<PriceLevel>, u64, Seq<OrderFilledV3>)
    decreases levels.len() - i,
{
    if i < 0 || i >= levels.len() || i >= bands.len() {
        (levels, qty, Seq::empty())
    } else if band_mid(bands[i]) > limit {
        (levels, qty, Seq::empty())
    } else if qty == 0 {
        (levels, qty, Seq::empty())
    } else if levels[i].total_qty == 0 {
        book_sweep_asc(levels, bands, limit, qty, i + 1, p, pool_id, taker, fill_side)
    } else {
        let take = if qty <= levels[i].total_qty {
            qty
        } else {
            levels[i].total_qty
        };
        let l1 = PriceLevel { total_qty: (levels[i].total_qty - take) as u64, ..levels[i] };
        let ev = OrderFilledV3 {
            event_version: EVENT_VERSION,
            pool: pool_id,
            taker: taker,
            side: fill_side,
            qty: take,
            price_1e6: band_mid(bands[i]) as u64,
            taker_fee_bps: spec_taker_bps(p) as u16,
            maker_rebate_bps: spec_rebate_bps(p) as u16,
        };
        let out = book_sweep_asc(
            levels.update(i, l1),
            bands,
            limit,
            (qty - take) as u64,
            i + 1,
            p,
            pool_id,
            taker,
            fill_side,
        );
        (out.0, out.1, seq![ev] + out.2)
    }
}

/// A sweep of the book from level `i` downward: walk while the band
/// midpoint stays at or above the limit.
pub open spec fn book_sweep_desc(
    levels: Seq<PriceLevel>,
    bands: Seq<Band>,
    limit: u64,
    qty: u64,
    i: int,
    p: Pool,
    pool_id: AccountId,
    taker: AccountId,
    fill_side: Side,
) -> (Seq<PriceLevel>, u64, Seq<OrderFilledV3>)
    decreases i + 1,
{
    if i < 0 || i >= levels.len() || i >= bands.len() {
        (levels, qty, Seq::empty())
    } else if band_mid(bands[i]) < limit {
        (levels, qty, Seq::empty())
    } else if qty == 0 {
        (levels, qty, Seq::empty())
    } else if levels[i].total_qty == 0 {
        book_sweep_desc(levels, bands, limit, qty, i - 1, p, pool_id, taker, fill_side)
    } else {
        let take = if qty <= levels[i].total_qty {
            qty
        } else {
            levels[i].total_qty
        };
        let l1 = PriceLevel { total_qty: (levels[i].total_qty - take) as u64, ..levels[i] };
        let ev = OrderFilledV3 {
            event_version: EVENT_VERSION,
            pool: pool_id,
            taker: taker,
            side: fill_side,
            qty: take,
            price_1e6: band_mid(bands[i]) as u64,
            taker_fee_bps: spec_taker_bps(p) as u16,
            maker_rebate_bps: spec_rebate_bps(p) as u16,
        };
        let out = book_sweep_desc(
            levels.update(i, l1),
            bands,
            limit,
            (qty - take) as u64,
            i - 1,
            p,
            pool_id,
            taker,
            fill_side,
        );
        (out.0, out.1, seq![ev] + out.2)
    }
}

/// The book side a taker hits and the outcome of sweeping it: hitting the
/// asks walks upward from the lowest band, hitting the bids walks
/// downward from the highest.
pub open spec fn spec_book_match(
    ob: OrderBook,
    p: Pool,
    hit_side: Side,
    limit: u64,
    qty: u64,
    pool_id: AccountId,
    taker: AccountId,
) -> (Seq<PriceLevel>, u64, Seq<OrderFilledV3>) {
    if hit_side is Ask {
        book_sweep_asc(ob.asks@, p.bands@, limit, qty, 0, p, pool_id, taker, Side::Bid)
    } else {
        book_sweep_desc(
            ob.bids@,
            p.bands@,
            limit,
            qty,
            ob.bids@.len() - 1,
            p,
            pool_id,
            taker,
            Side::Ask,
        )
    }
}

/// Sweep the hit side of the book from the best level toward the limit:
/// consume resting quantity level by level, each fill priced at its
/// band's midpoint with the dynamic taker fee and capped maker rebate.
/// Returns the unmatched remainder and the fills.
#[verifier::rlimit(100)]
pub fn match_against_book(
    ob: &mut OrderBook,
    pool: &Pool,
    pool_id: AccountId,
    hit_side: Side,
    limit_price_1e6: u64,
    qty: u64,
    taker: AccountId,
) -> (r: (u64, Vec<OrderFilledV3>))
    requires
        old(ob).bids@.len() <= pool.bands@.len(),
        old(ob).asks@.len() <= pool.bands@.len(),
    ensures
        ({
            let out = spec_book_match(*old(ob), *pool, hit_side, limit_price_1e6, qty, pool_id, taker);
            &&& (hit_side is Ask ==> final(ob).asks@ == out.0 && final(ob).bids == old(ob).bids)
            &&& (hit_side is Bid ==> final(ob).bids@ == out.0 && final(ob).asks == old(ob).asks)
            &&& *final(ob) == (OrderBook { bids: final(ob).bids, asks: final(ob).asks, ..*old(ob) })
            &&& r.0 == out.1
            &&& r.1@ == out.2
            &&& r.0 <= qty
        }),
{
    let mut remaining: u64 = qty;
    let mut fills: Vec<OrderFilledV3> = Vec::new();
    let ghost goal = spec_book_match(*old(ob), *pool, hit_side, limit_price_1e6, qty, pool_id, taker);
    match hit_side {
        Side::Ask => {
            let n = ob.asks.len();
            let mut i: usize = 0;
            proof {
                assert(fills@ + goal.2 =~= goal.2);
            }
            while i < n
                invariant
                    i <= n,
                    n == ob.asks@.len(),
                    ob.asks@.len() <= pool.bands@.len(),
                    *ob == (OrderBook { asks: ob.asks, ..*old(ob) }),
                    remaining <= qty,
                    goal == spec_book_match(
                        *old(ob),
                        *pool,
                        hit_side,
                        limit_price_1e6,
                        qty,
                        pool_id,
                        taker,
                    ),
                    hit_side is Ask,
                    goal == ({
                        let cont = book_sweep_asc(
                            ob.asks@,
                            pool.bands@,
                            limit_price_1e6,
                            remaining,
                            i as int,
                            *pool,
                            pool_id,
                            taker,
                            Side::Bid,
                        );
                        (cont.0, cont.1, fills@ + cont.2)
                    }),
                decreases n - i,
            {
                let b = pool.bands[i];
                let mid = mid_price(b.lower_price_1e6, b.upper_price_1e6);
                if mid > limit_price_1e6 {
                    proof {
                        assert(fills@ + Seq::<OrderFilledV3>::empty() =~= fills@);
                    }
                    return (remaining, fills);
                }
                if remaining == 0 {
                    proof {
                        assert(fills@ + Seq::<OrderFilledV3>::empty() =~= fills@);
                    }
                    return (remaining, fills);
                }
                let lq = ob.asks[i].total_qty;
                if lq > 0 {
                    let take = if remaining <= lq {
                        remaining
                    } else {
                        lq
                    };
                    let l0 = ob.asks[i];
                    let ghost pre = ob.asks@;
                    ob.asks[i] = PriceLevel { total_qty: l0.total_qty - take, ..l0 };
                    proof {
                        assert(ob.asks@ =~= pre.update(i as int, ob.asks@[i as int]));
                    }
                    let taker_bps = if pool.fee_current_bps >= pool.taker_min_bps {
                        pool.fee_current_bps
                    } else {
                        pool.taker_min_bps
                    };
                    let rebate = if pool.maker_rebate_max_bps <= taker_bps {
                        pool.maker_rebate_max_bps
                    } else {
                        taker_bps
                    };
                    fills.push(
                        OrderFilledV3 {
                            event_version: EVENT_VERSION,
                            pool: pool_id,
                            taker,
                            side: Side::Bid,
                            qty: take,
                            price_1e6: mid,
                            taker_fee_bps: taker_bps,
                            maker_rebate_bps: rebate,
                        },
                    );
                    remaining = remaining - take;
                }
                i += 1;
            }
            proof {
                assert(fills@ + Seq::<OrderFilledV3>::empty() =~= fills@);
            }
            (remaining, fills)
        },
        Side::Bid => {
            let n = ob.bids.len();
            let mut done: bool = n == 0;
            let mut i: usize = if n == 0 {
                0
            } else {
                n - 1
            };
            proof {
                assert(fills@ + goal.2 =~= goal.2);
            }
            while !done
                invariant
                    n == ob.bids@.len(),
                    ob.bids@.len() <= pool.bands@.len(),
                    !done ==> i < n,
                    *ob == (OrderBook { bids: ob.bids, ..*old(ob) }),
                    remaining <= qty,
                    goal == spec_book_match(
                        *old(ob),
                        *pool,
                        hit_side,
                        limit_price_1e6,
                        qty,
                        pool_id,
                        taker,
                    ),
                    hit_side is Bid,
                    goal == ({
                        let cont = book_sweep_desc(
                            ob.bids@,
                            pool.bands@,
                            limit_price_1e6,
                            remaining,
                            if done {
                                -1
                            } else {
                                i as int
                            },
                            *pool,
                            pool_id,
                            taker,
                            Side::Ask,
                        );
                        (cont.0, cont.1, fills@ + cont.2)
                    }),
                decreases (if done {
                    0int
                } else {
                    i + 1
                }),
            {
                let b = pool.bands[i];
                let mid = mid_price(b.lower_price_1e6, b.upper_price_1e6);
                if mid < limit_price_1e6 {
                    proof {
                        assert(fills@ + Seq::<OrderFilledV3>::empty() =~= fills@);
                    }
                    return (remaining, fills);
                }
                if remaining == 0 {
                    proof {
                        assert(fills@ + Seq::<OrderFilledV3>::empty() =~= fills@);
                    }
                    return (remaining, fills);
                }
                let lq = ob.bids[i].total_qty;
                if lq > 0 {
                    let take = if remaining <= lq {
                        remaining
                    } else {
                        lq
                    };
                    let l0 = ob.bids[i];
                    let ghost pre = ob.bids@;
                    ob.bids[i] = PriceLevel { total_qty: l0.total_qty - take, ..l0 };
                    proof {
                        assert(ob.bids@ =~= pre.update(i as int, ob.bids@[i as int]));
                    }
                    let taker_bps = if pool.fee_current_bps >= pool.taker_min_bps {
                        pool.fee_current_bps
                    } else {
                        pool.taker_min_bps
                    };
                    let rebate = if pool.maker_rebate_max_bps <= taker_bps {
                        pool.maker_rebate_max_bps
                    } else {
                        taker_bps
                    };
                    fills.push(
                        OrderFilledV3 {
                            event_version: EVENT_VERSION,
                            pool: pool_id,
                            taker,
                            side: Side::Ask,
                            qty: take,
                            price_1e6: mid,
                            taker_fee_bps: taker_bps,
                            maker_rebate_bps: rebate,
                        },
                    );
                    remaining = remaining - take;
                }
                if i == 0 {
                    done = true;
                } else {
                    i = i - 1;
                }
            }
            proof {
                assert(fills@ + Seq::<OrderFilledV3>::empty() =~= fills@);
            }
            (remaining, fills)
        },
    }
}


/// An ascending sweep only lowers level quantities: lengths and FIFO
/// cursors survive.
pub proof fn lemma_sweep_asc_shape(
    levels: Seq<PriceLevel>,
    bands: Seq<Band>,
    limit: u64,
    qty: u64,
    i: int,
    p: Pool,
    pool_id: AccountId,
    taker: AccountId,
    fill_side: Side,
)
    ensures
        ({
            let out = book_sweep_asc(levels, bands, limit, qty, i, p, pool_id, taker, fill_side);
            &&& out.0.len() == levels.len()
            &&& forall|j: int|
                0 <= j < levels.len() ==> (#[trigger] out.0[j]).head == levels[j].head
                    && out.0[j].tail == levels[j].tail
        }),
    decreases levels.len() - i,
{
    if 0 <= i < levels.len() && i < bands.len() && band_mid(bands[i]) <= limit && qty != 0 {
        if levels[i].total_qty == 0 {
            lemma_sweep_asc_shape(levels, bands, limit, qty, i + 1, p, pool_id, taker, fill_side);
        } else {
            let take = if qty <= levels[i].total_qty {
                qty
            } else {
                levels[i].total_qty
            };
            let l1 = PriceLevel { total_qty: (levels[i].total_qty - take) as u64, ..levels[i] };
            lemma_sweep_asc_shape(
                levels.update(i, l1),
                bands,
                limit,
                (qty - take) as u64,
                i + 1,
                p,
                pool_id,
                taker,
                fill_side,
            );
        }
    }
}

/// A descending sweep only lowers level quantities: lengths and FIFO
/// cursors survive.
pub proof fn lemma_sweep_desc_shape(
    levels: Seq<PriceLevel>,
    bands: Seq<Band>,
    limit: u64,
    qty: u64,
    i: int,
    p: Pool,
    pool_id: AccountId,
    taker: AccountId,
    fill_side: Side,
)
    ensures
        ({
            let out = book_sweep_desc(levels, bands, limit, qty, i, p, pool_id, taker, fill_side);
            &&& out.0.len() == levels.len()
            &&& forall|j: int|
                0 <= j < levels.len() ==> (#[trigger] out.0[j]).head == levels[j].head
                    && out.0[j].tail == levels[j].tail
        }),
    decreases i + 1,
{
    if 0 <= i < levels.len() && i < bands.len() && band_mid(bands[i]) >= limit && qty != 0 {
        if levels[i].total_qty == 0 {
            lemma_sweep_desc_shape(levels, bands, limit, qty, i - 1, p, pool_id, taker, fill_side);
        } else {
            let take = if qty <= levels[i].total_qty {
                qty
            } else {
                levels[i].total_qty
            };
            let l1 = PriceLevel { total_qty: (levels[i].total_qty - take) as u64, ..levels[i] };
            lemma_sweep_desc_shape(
                levels.update(i, l1),
                bands,
                limit,
                (qty - take) as u64,
                i - 1,
                p,
                pool_id,
                taker,
                fill_side,
            );
        }
    }
}

/// A band sweep keeps the number of bands.
pub proof fn lemma_band_sweep_len(
    bands: Seq<Band>,
    order: Seq<int>,
    side: Side,
    qty: u64,
    limit: u64,
    fee_bps: u16,
    pool_id: AccountId,
)
    ensures
        band_sweep(bands, order, side, qty, limit, fee_bps, pool_id).0.len() == bands.len(),
    decreases order.len(),
{
    if order.len() > 0 && qty != 0 {
        let i = order[0];
        let rest = order.drop_first();
        if 0 <= i < bands.len() {
            let b = bands[i];
            let mid = band_mid(b);
            let skip = !b.is_active || (side is Bid && mid > limit) || (side is Ask && mid < limit)
                || (if side is Bid {
                b.reserves_b
            } else {
                b.reserves_a
            }) == 0;
            if skip {
                lemma_band_sweep_len(bands, rest, side, qty, limit, fee_bps, pool_id);
            } else {
                let cap = if side is Bid {
                    b.reserves_b
                } else {
                    b.reserves_a
                };
                let trade = if qty <= cap {
                    qty
                } else {
                    cap
                };
                let growth = (trade as int) * (fee_bps as int) * (FEE_GROWTH_UNIT as int);
                let nb = Band {
                    reserves_a: (if side is Bid {
                        if b.reserves_a + trade > u64::MAX {
                            u64::MAX as int
                        } else {
                            b.reserves_a + trade
                        }
                    } else {
                        b.reserves_a - trade
                    }) as u64,
                    reserves_b: (if side is Bid {
                        b.reserves_b - trade
                    } else {
                        if b.reserves_b + trade > u64::MAX {
                            u64::MAX as int
                        } else {
                            b.reserves_b + trade
                        }
                    }) as u64,
                    fee_growth_a_1e18: (if b.fee_growth_a_1e18 + growth > u128::MAX {
                        u128::MAX as int
                    } else {
                        b.fee_growth_a_1e18 + growth
                    }) as u128,
                    fee_growth_b_1e18: (if b.fee_growth_b_1e18 + growth > u128::MAX {
                        u128::MAX as int
                    } else {
                        b.fee_growth_b_1e18 + growth
                    }) as u128,
                    ..b
                };
                lemma_band_sweep_len(
                    bands.update(i, nb),
                    rest,
                    side,
                    (qty - trade) as u64,
                    limit,
                    fee_bps,
                    pool_id,
                );
            }
        } else {
            lemma_band_sweep_len(bands, rest, side, qty, limit, fee_bps, pool_id);
        }
    }
}

/// Copy a level vector, for restoring the book when a later step fails.
fn copy_levels(v: &Vec<PriceLevel>) -> (r: Vec<PriceLevel>)
    ensures
        r@ == v@,
{
    let mut r: Vec<PriceLevel> = Vec::new();
    let mut i: usize = 0;
    while i < v.len()
        invariant
            i <= v@.len(),
            r@ == v@.take(i as int),
        decreases v@.len() - i,
    {
        proof {
            assert(v@.take(i + 1).drop_last() =~= v@.take(i as int));
            assert(v@.take(i + 1).last() == v@[i as int]);
            assert(r@.push(v@[i as int]) =~= v@.take(i + 1));
        }
        r.push(v[i]);
        i += 1;
    }
    proof {
        assert(v@.take(v@.len() as int) =~= v@);
    }
    r
}

/// Copy a band vector, for restoring the pool when a later step fails.
fn copy_bands(v: &Vec<Band>) -> (r: Vec<Band>)
    ensures
        r@ == v@,
{
    let mut r: Vec<Band> = Vec::new();
    let mut i: usize = 0;
    while i < v.len()
        invariant
            i <= v@.len(),
            r@ == v@.take(i as int),
        decreases v@.len() - i,
    {
        proof {
            assert(v@.take(i + 1).drop_last() =~= v@.take(i as int));
            assert(v@.take(i + 1).last() == v@[i as int]);
            assert(r@.push(v@[i as int]) =~= v@.take(i + 1));
        }
        r.push(v[i]);
        i += 1;
    }
    proof {
        assert(v@.take(v@.len() as int) =~= v@);
    }
    r
}

/// The rounded order price: an explicit limit snaps down to the tick, an
/// absent one takes the last center.
pub open spec fn spec_order_price(p: Pool, ob: OrderBook, limit: Option<u64>) -> int {
    match limit {
        Some(x) => if ob.tick_1e6 == 0 {
            x as int
        } else {
            (x as int / ob.tick_1e6 as int) * (ob.tick_1e6 as int)
        },
        None => p.last_center_price_1e6 as int,
    }
}

/// Whether the remainder of an order rests in the book.
pub open spec fn spec_rest_needed(remaining: u64, post_only: bool, tif: TifParam) -> bool {
    remaining > 0 && (post_only || tif.kind != 0)
}

/// Place an order. In the slot of a bands update only post-only orders
/// are accepted. A non-post-only order first takes liquidity along the
/// configured route (the opposite book side, or the bands by proximity),
/// then any remainder rests at the band nearest the order price unless
/// the order is immediate-or-cancel. Fails without any state change when
/// the target level's queue is full.
#[verifier::rlimit(100)]
pub fn place_order(
    pool: &mut Pool,
    ob: &mut OrderBook,
    pool_id: AccountId,
    user: AccountId,
    side: Side,
    qty: u64,
    limit_price_opt_1e6: Option<u64>,
    tif: TifParam,
    post_only: bool,
    reduce_only: bool,
    client_id: u64,
    now_slot: u64,
) -> (r: Result<(u64, Vec<OrderFilledV3>, Vec<SwapFilledV>, Option<OrderPlacedV3>), DlmmError>)
    requires
        crate::types::pool_wf(*old(pool)),
        book_wf(*old(ob), old(pool).n_bands as int),
    ensures
        r is Err ==> *final(pool) == *old(pool) && *final(ob) == *old(ob),
        old(pool).pause_orderbook || old(pool).is_paused ==> r == Err::<
            (u64, Vec<OrderFilledV3>, Vec<SwapFilledV>, Option<OrderPlacedV3>),
            DlmmError,
        >(DlmmError::Paused),
        !(old(pool).pause_orderbook || old(pool).is_paused) && qty == 0 ==> r == Err::<
            (u64, Vec<OrderFilledV3>, Vec<SwapFilledV>, Option<OrderPlacedV3>),
            DlmmError,
        >(DlmmError::ZeroAmount),
        !(old(pool).pause_orderbook || old(pool).is_paused) && qty > 0 && now_slot <= old(
            pool,
        ).post_only_until_slot && !post_only ==> r == Err::<
            (u64, Vec<OrderFilledV3>, Vec<SwapFilledV>, Option<OrderPlacedV3>),
            DlmmError,
        >(DlmmError::Paused),
        ({
            let p0 = *old(pool);
            let ob0 = *old(ob);
            let price = spec_order_price(p0, ob0, limit_price_opt_1e6) as u64;
            let target = spec_target_band(p0.bands@, price, p0.n_bands as int);
            let book_first = p0.route_mode == 0;
            let remaining = if post_only {
                qty
            } else if book_first {
                spec_book_match(ob0, p0, (if side is Bid {
                    Side::Ask
                } else {
                    Side::Bid
                }), price, qty, pool_id, user).1
            } else {
                band_sweep(
                    p0.bands@,
                    proximity_order_spec(p0.bands@, p0.last_center_price_1e6),
                    side,
                    qty,
                    price,
                    p0.fee_current_bps,
                    pool_id,
                ).1
            };
            let own = if side is Bid {
                ob0.bids@
            } else {
                ob0.asks@
            };
            !(p0.pause_orderbook || p0.is_paused) && qty > 0 && (now_slot
                <= p0.post_only_until_slot ==> post_only) && spec_rest_needed(
                remaining,
                post_only,
                tif,
            ) && !(own[target].tail - own[target].head < ob0.max_queue_per_level) ==> r == Err::<
                (u64, Vec<OrderFilledV3>, Vec<SwapFilledV>, Option<OrderPlacedV3>),
                DlmmError,
            >(DlmmError::ParamOutOfRange)
        }),
        r is Ok <==> ({
            let p0 = *old(pool);
            let ob0 = *old(ob);
            let price = spec_order_price(p0, ob0, limit_price_opt_1e6) as u64;
            let target = spec_target_band(p0.bands@, price, p0.n_bands as int);
            let book_first = p0.route_mode == 0;
            let remaining = if post_only {
                qty
            } else if book_first {
                spec_book_match(ob0, p0, (if side is Bid {
                    Side::Ask
                } else {
                    Side::Bid
                }), price, qty, pool_id, user).1
            } else {
                band_sweep(
                    p0.bands@,
                    proximity_order_spec(p0.bands@, p0.last_center_price_1e6),
                    side,
                    qty,
                    price,
                    p0.fee_current_bps,
                    pool_id,
                ).1
            };
            let own = if side is Bid {
                ob0.bids@
            } else {
                ob0.asks@
            };
            &&& !(p0.pause_orderbook || p0.is_paused)
            &&& qty > 0
            &&& (now_slot <= p0.post_only_until_slot ==> post_only)
            &&& (spec_rest_needed(remaining, post_only, tif) ==> own[target].tail
                - own[target].head < ob0.max_queue_per_level)
        }),
        r is Ok ==> ({
            let p0 = *old(pool);
            let ob0 = *old(ob);
            let n = p0.n_bands as int;
            let price = spec_order_price(p0, ob0, limit_price_opt_1e6) as u64;
            let target = spec_target_band(p0.bands@, price, n);
            let book_first = p0.route_mode == 0;
            let swept = if post_only {
                ((if side is Bid {
                    ob0.asks@
                } else {
                    ob0.bids@
                }), qty, Seq::<OrderFilledV3>::empty())
            } else {
                spec_book_match(ob0, p0, (if side is Bid {
                    Side::Ask
                } else {
                    Side::Bid
                }), price, qty, pool_id, user)
            };
            let band_swept = if post_only {
                (p0.bands@, qty, Seq::<SwapFilledV>::empty())
            } else {
                band_sweep(
                    p0.bands@,
                    proximity_order_spec(p0.bands@, p0.last_center_price_1e6),
                    side,
                    qty,
                    price,
                    p0.fee_current_bps,
                    pool_id,
                )
            };
            let remaining = if book_first {
                swept.1
            } else {
                band_swept.1
            };
            let rested = spec_rest_needed(remaining, post_only, tif);
            let own = if side is Bid {
                ob0.bids@
            } else {
                ob0.asks@
            };
            let l0 = own[target];
            let l1 = PriceLevel {
                total_qty: (if l0.total_qty as int + remaining as int > u64::MAX {
                    u64::MAX as int
                } else {
                    l0.total_qty as int + remaining as int
                }) as u64,
                tail: (if l0.tail as int + 1 > u32::MAX {
                    u32::MAX as int
                } else {
                    l0.tail as int + 1
                }) as u32,
                ..l0
            };
            &&& r->Ok_0.0 == (if rested {
                ob0.next_order_id
            } else {
                0
            })
            &&& (rested ==> r->Ok_0.3 == Some(
                OrderPlacedV3 {
                    event_version: EVENT_VERSION,
                    pool: pool_id,
                    order_id: ob0.next_order_id,
                    owner: user,
                    side: side,
                    price_1e6: price,
                    qty: remaining,
                    band_idx: target as i16,
                },
            ))
            &&& (!rested ==> r->Ok_0.3 is None)
            &&& (book_first ==> r->Ok_0.1@ == swept.2 && r->Ok_0.2@.len() == 0
                && final(pool).bands@ == p0.bands@)
            &&& (!book_first ==> r->Ok_0.2@ == band_swept.2 && r->Ok_0.1@.len() == 0
                && final(pool).bands@ == band_swept.0)
            &&& (book_first ==> (side is Bid ==> final(ob).asks@ == swept.0) && (side is Ask
                ==> final(ob).bids@ == swept.0))
            &&& (rested && side is Bid ==> final(ob).bids@ == ob0.bids@.update(target, l1))
            &&& (rested && side is Ask ==> final(ob).asks@ == ob0.asks@.update(target, l1))
            &&& (!rested && side is Bid ==> final(ob).bids@ == ob0.bids@)
            &&& (!rested && side is Ask ==> final(ob).asks@ == ob0.asks@)
            &&& (!book_first ==> (side is Bid ==> final(ob).asks@ == ob0.asks@) && (side is Ask
                ==> final(ob).bids@ == ob0.bids@))
            &&& (rested ==> (final(ob).event_q@, final(ob).event_q_head) == spec_push_event(
                ob0.event_q@,
                ob0.event_q_head,
                BookEvent::Place {
                    order_id: ob0.next_order_id,
                    side: side,
                    band_idx: target as i16,
                    owner: user,
                    qty: remaining,
                    client_id: client_id,
                    tif_expiry: tif.as_expiry_spec(now_slot),
                    reduce_only: reduce_only,
                },
            ))
            &&& (rested ==> final(ob).next_order_id as int == (if ob0.next_order_id == u64::MAX {
                u64::MAX as int
            } else {
                ob0.next_order_id + 1
            }))
            &&& (!rested ==> final(ob).next_order_id == ob0.next_order_id
                && final(ob).event_q@ == ob0.event_q@)
            &&& *final(pool) == (Pool {
                bands: final(pool).bands,
                best_bid_1e6: final(pool).best_bid_1e6,
                best_ask_1e6: final(pool).best_ask_1e6,
                ..p0
            })
            &&& final(pool).best_bid_1e6 as int == (if spec_highest_nonempty(
                final(ob).bids@,
                final(ob).bids@.len() as int,
            ) >= 0 {
                band_mid(
                    final(pool).bands@[spec_highest_nonempty(
                        final(ob).bids@,
                        final(ob).bids@.len() as int,
                    )],
                )
            } else {
                0
            })
            &&& final(pool).best_ask_1e6 as int == (if spec_lowest_nonempty(final(ob).asks@, 0)
                < final(ob).asks@.len() as int {
                band_mid(final(pool).bands@[spec_lowest_nonempty(final(ob).asks@, 0)])
            } else {
                u64::MAX as int
            })
        }),
{
    if pool.pause_orderbook || pool.is_paused {
        return Err(DlmmError::Paused);
    }
    if qty == 0 {
        return Err(DlmmError::ZeroAmount);
    }
    if now_slot <= pool.post_only_until_slot {
        if !post_only {
            return Err(DlmmError::Paused);
        }
    }
    let price: u64 = match limit_price_opt_1e6 {
        Some(x) => round_to_tick(x, ob.tick_1e6),
        None => pool.last_center_price_1e6,
    };
    let target_band = match map_price_to_band(pool, price) {
        Ok(t) => t,
        Err(e) => {
            return Err(e);
        },
    };
    let book_first = pool.route_mode == 0;
    let mut remaining: u64 = qty;
    let mut fills: Vec<OrderFilledV3> = Vec::new();
    let mut swap_fills: Vec<SwapFilledV> = Vec::new();
    let mut order_id: u64 = 0;
    let mut placed: Option<OrderPlacedV3> = None;

    if book_first {
        let hit_side = side.opposite();
        // work on a copy of the hit side so a failed rest can hand the
        // original back untouched
        let mut backup = match hit_side {
            Side::Bid => copy_levels(&ob.bids),
            Side::Ask => copy_levels(&ob.asks),
        };
        match hit_side {
            Side::Bid => core::mem::swap(&mut backup, &mut ob.bids),
            Side::Ask => core::mem::swap(&mut backup, &mut ob.asks),
        }
        if !post_only {
            proof {
                lemma_sweep_asc_shape(
                    ob.asks@,
                    pool.bands@,
                    price,
                    remaining,
                    0,
                    *pool,
                    pool_id,
                    user,
                    Side::Bid,
                );
                lemma_sweep_desc_shape(
                    ob.bids@,
                    pool.bands@,
                    price,
                    remaining,
                    ob.bids@.len() - 1,
                    *pool,
                    pool_id,
                    user,
                    Side::Ask,
                );
            }
            let out = match_against_book(ob, pool, pool_id, hit_side, price, remaining, user);
            remaining = out.0;
            fills = out.1;
        }
        if remaining > 0 && (post_only || !tif.is_ioc()) {
            match rest_in_book(
                ob,
                side,
                target_band,
                remaining,
                tif,
                reduce_only,
                client_id,
                user,
                now_slot,
            ) {
                Ok(id) => {
                    order_id = id;
                    placed = Some(
                        OrderPlacedV3 {
                            event_version: EVENT_VERSION,
                            pool: pool_id,
                            order_id: id,
                            owner: user,
                            side,
                            price_1e6: price,
                            qty: remaining,
                            band_idx: target_band as i16,
                        },
                    );
                },
                Err(e) => {
                    match hit_side {
                        Side::Bid => core::mem::swap(&mut backup, &mut ob.bids),
                        Side::Ask => core::mem::swap(&mut backup, &mut ob.asks),
                    }
                    return Err(e);
                },
            }
        }
    } else {
        // work on a copy of the bands so a failed rest can hand the
        // original pool back untouched
        let mut backup = copy_bands(&pool.bands);
        core::mem::swap(&mut backup, &mut pool.bands);
        if !post_only {
            proof {
                lemma_band_sweep_len(
                    pool.bands@,
                    proximity_order_spec(pool.bands@, pool.last_center_price_1e6),
                    side,
                    remaining,
                    price,
                    pool.fee_current_bps,
                    pool_id,
                );
            }
            let out = match take_from_bands(pool, pool_id, side, remaining, price) {
                Ok(o) => o,
                Err(e) => {
                    core::mem::swap(&mut backup, &mut pool.bands);
                    return Err(e);
                },
            };
            remaining = out.0;
            swap_fills = out.1;
        }
        if remaining > 0 && (post_only || !tif.is_ioc()) {
            match rest_in_book(
                ob,
                side,
                target_band,
                remaining,
                tif,
                reduce_only,
                client_id,
                user,
                now_slot,
            ) {
                Ok(id) => {
                    order_id = id;
                    placed = Some(
                        OrderPlacedV3 {
                            event_version: EVENT_VERSION,
                            pool: pool_id,
                            order_id: id,
                            owner: user,
                            side,
                            price_1e6: price,
                            qty: remaining,
                            band_idx: target_band as i16,
                        },
                    );
                },
                Err(e) => {
                    core::mem::swap(&mut backup, &mut pool.bands);
                    return Err(e);
                },
            }
        }
    }
    refresh_top_of_book(ob, pool);
    Ok((order_id, fills, swap_fills, placed))
}

/// Cancel a resting order: find its `Place` record in the event ring,
/// release its quantity from its level, record an `Out` event and refresh
/// the top of book.
pub fn cancel_order(
    pool: &mut Pool,
    ob: &mut OrderBook,
    pool_id: AccountId,
    user: AccountId,
    side: Side,
    order_id: u64,
) -> (r: Result<OrderCanceledV3, DlmmError>)
    requires
        book_wf(*old(ob), old(pool).n_bands as int),
        old(pool).bands@.len() == old(pool).n_bands as int,
        old(pool).n_bands as int <= 64,
    ensures
        r is Err ==> *final(pool) == *old(pool) && *final(ob) == *old(ob),
        old(pool).pause_orderbook || old(pool).is_paused ==> r == Err::<
            OrderCanceledV3,
            DlmmError,
        >(DlmmError::Paused),
        ({
            let n_levels = if side is Bid {
                old(ob).bids@.len() as int
            } else {
                old(ob).asks@.len() as int
            };
            let f = spec_find_place(
                old(ob).event_q@,
                side,
                order_id,
                Some(user),
                n_levels,
                old(ob).event_q@.len() as int,
            );
            &&& (!(old(pool).pause_orderbook || old(pool).is_paused) && f < 0 ==> r == Err::<
                OrderCanceledV3,
                DlmmError,
            >(DlmmError::NotFound))
            &&& (r is Ok <==> !(old(pool).pause_orderbook || old(pool).is_paused) && f >= 0)
            &&& (r is Ok ==> r->Ok_0 == (OrderCanceledV3 {
                event_version: EVENT_VERSION,
                pool: pool_id,
                order_id: order_id,
                owner: user,
                side: side,
            }))
            &&& (r is Ok ==> ({
                let levels = if side is Bid {
                    old(ob).bids@
                } else {
                    old(ob).asks@
                };
                let bi = (match old(ob).event_q@[f] {
                    BookEvent::Place { band_idx, .. } => band_idx as int,
                    _ => 0int,
                });
                let q = (match old(ob).event_q@[f] {
                    BookEvent::Place { qty, .. } => qty as int,
                    _ => 0int,
                });
                let l0 = levels[bi];
                let l1 = PriceLevel {
                    total_qty: (if l0.total_qty >= q {
                        l0.total_qty - q
                    } else {
                        0
                    }) as u64,
                    ..l0
                };
                let pushed = spec_push_event(
                    old(ob).event_q@,
                    old(ob).event_q_head,
                    BookEvent::Out { order_id: order_id, reason: OUT_REASON_CANCEL },
                );
                &&& (side is Bid ==> final(ob).bids@ == old(ob).bids@.update(bi, l1)
                    && final(ob).asks@ == old(ob).asks@)
                &&& (side is Ask ==> final(ob).asks@ == old(ob).asks@.update(bi, l1)
                    && final(ob).bids@ == old(ob).bids@)
                &&& final(ob).event_q@ == pushed.0
                &&& final(ob).event_q_head == pushed.1
                &&& *final(ob) == (OrderBook {
                    bids: final(ob).bids,
                    asks: final(ob).asks,
                    event_q: final(ob).event_q,
                    event_q_head: final(ob).event_q_head,
                    best_bid_band: final(ob).best_bid_band,
                    best_ask_band: final(ob).best_ask_band,
                    ..*old(ob)
                })
                &&& final(ob).best_bid_band as int == spec_highest_nonempty(
                    final(ob).bids@,
                    final(ob).bids@.len() as int,
                )
                &&& final(pool).best_bid_1e6 as int == (if spec_highest_nonempty(
                    final(ob).bids@,
                    final(ob).bids@.len() as int,
                ) >= 0 {
                    band_mid(
                        final(pool).bands@[spec_highest_nonempty(
                            final(ob).bids@,
                            final(ob).bids@.len() as int,
                        )],
                    )
                } else {
                    0
                })
                &&& final(pool).best_ask_1e6 as int == (if spec_lowest_nonempty(final(ob).asks@, 0)
                    < final(ob).asks@.len() as int {
                    band_mid(final(pool).bands@[spec_lowest_nonempty(final(ob).asks@, 0)])
                } else {
                    u64::MAX as int
                })
            }))
        }),
        r is Ok ==> *final(pool) == (Pool {
            best_bid_1e6: final(pool).best_bid_1e6,
            best_ask_1e6: final(pool).best_ask_1e6,
            ..*old(pool)
        }),
{
    if pool.pause_orderbook || pool.is_paused {
        return Err(DlmmError::Paused);
    }
    let removed = match remove_order_linear(ob, side, order_id, Some(user)) {
        Ok(b) => b,
        Err(e) => {
            return Err(e);
        },
    };
    if !removed {
        return Err(DlmmError::NotFound);
    }
    proof {
        assert(ob.bids@.len() == old(ob).bids@.len());
        assert(ob.asks@.len() == old(ob).asks@.len());
    }
    refresh_top_of_book(ob, pool);
    Ok(OrderCanceledV3 { event_version: EVENT_VERSION, pool: pool_id, order_id, owner: user, side })
}

/// The book after up to `iters` unit crossings between the overlapping
/// best bid and best ask levels: `(bids, asks, event ring, ring head)`.
pub open spec fn spec_crank(
    bids: Seq<PriceLevel>,
    asks: Seq<PriceLevel>,
    bands: Seq<Band>,
    q: Seq<BookEvent>,
    head: u16,
    iters: int,
) -> (Seq<PriceLevel>, Seq<PriceLevel>, Seq<BookEvent>, u16)
    decreases iters,
{
    if iters <= 0 {
        (bids, asks, q, head)
    } else {
        let bi = spec_highest_nonempty(bids, bids.len() as int);
        let ai = spec_lowest_nonempty(asks, 0);
        if bi < 0 || ai >= asks.len() || bi < ai || ai >= bands.len() {
            (bids, asks, q, head)
        } else {
            let px = band_mid(bands[ai]);
            let b0 = bids[bi];
            let a0 = asks[ai];
            let pushed1 = spec_push_event(
                q,
                head,
                BookEvent::Fill { order_id: 0u64, qty: 1u64, price_1e6: px as u64, side: Side::Bid },
            );
            let pushed2 = spec_push_event(
                pushed1.0,
                pushed1.1,
                BookEvent::Fill { order_id: 0u64, qty: 1u64, price_1e6: px as u64, side: Side::Ask },
            );
            spec_crank(
                bids.update(bi, PriceLevel { total_qty: (b0.total_qty - 1) as u64, ..b0 }),
                asks.update(ai, PriceLevel { total_qty: (a0.total_qty - 1) as u64, ..a0 }),
                bands,
                pushed2.0,
                pushed2.1,
                iters - 1,
            )
        }
    }
}

/// Cross the overlapping best bid and ask one unit at a time, up to
/// `max_iterations`, while the cached best-band indices overlap; then
/// refresh the top of book.
#[verifier::rlimit(100)]
pub fn crank_match(pool: &mut Pool, ob: &mut OrderBook, max_iterations: u16) -> (r: Result<
    (),
    DlmmError,
>)
    requires
        book_wf(*old(ob), old(pool).n_bands as int),
        old(pool).bands@.len() == old(pool).n_bands as int,
        old(pool).n_bands as int <= 64,
    ensures
        r is Err ==> *final(pool) == *old(pool) && *final(ob) == *old(ob) && r->Err_0
            == DlmmError::Paused,
        r is Ok <==> !(old(pool).pause_orderbook || old(pool).is_paused),
        r is Ok ==> ({
            let fields_ok = old(ob).best_bid_band >= 0 && old(ob).best_ask_band >= 0 && old(
                ob,
            ).best_bid_band >= old(ob).best_ask_band;
            let crossed = if fields_ok {
                spec_crank(
                    old(ob).bids@,
                    old(ob).asks@,
                    old(pool).bands@,
                    old(ob).event_q@,
                    old(ob).event_q_head,
                    max_iterations as int,
                )
            } else {
                (old(ob).bids@, old(ob).asks@, old(ob).event_q@, old(ob).event_q_head)
            };
            &&& final(ob).bids@ == crossed.0
            &&& final(ob).asks@ == crossed.1
            &&& final(ob).event_q@ == crossed.2
            &&& final(ob).event_q_head == crossed.3
            &&& *final(pool) == (Pool {
                best_bid_1e6: final(pool).best_bid_1e6,
                best_ask_1e6: final(pool).best_ask_1e6,
                ..*old(pool)
            })
        }),
{
    if pool.pause_orderbook || pool.is_paused {
        return Err(DlmmError::Paused);
    }
    let fields_ok = ob.best_bid_band >= 0 && ob.best_ask_band >= 0 && ob.best_bid_band
        >= ob.best_ask_band;
    if fields_ok {
        let ghost goal = spec_crank(
            ob.bids@,
            ob.asks@,
            pool.bands@,
            ob.event_q@,
            ob.event_q_head,
            max_iterations as int,
        );
        let mut iters: u16 = 0;
        let mut done: bool = false;
        while !done && iters < max_iterations
            invariant
                iters <= max_iterations,
                *ob == (OrderBook {
                    bids: ob.bids,
                    asks: ob.asks,
                    event_q: ob.event_q,
                    event_q_head: ob.event_q_head,
                    ..*old(ob)
                }),
                ob.bids@.len() == old(ob).bids@.len(),
                ob.asks@.len() == old(ob).asks@.len(),
                ob.event_q@.len() == old(ob).event_q@.len(),
                old(ob).event_q@.len() > 0,
                ob.bids@.len() <= pool.bands@.len(),
                ob.asks@.len() <= pool.bands@.len(),
                *pool == *old(pool),
                goal == spec_crank(
                    old(ob).bids@,
                    old(ob).asks@,
                    old(pool).bands@,
                    old(ob).event_q@,
                    old(ob).event_q_head,
                    max_iterations as int,
                ),
                goal == (if done {
                    (ob.bids@, ob.asks@, ob.event_q@, ob.event_q_head)
                } else {
                    spec_crank(
                        ob.bids@,
                        ob.asks@,
                        pool.bands@,
                        ob.event_q@,
                        ob.event_q_head,
                        max_iterations - iters,
                    )
                }),
            decreases max_iterations - iters, (if done {
                0int
            } else {
                1int
            }),
        {
            let took = match cross_once(ob, pool) {
                Ok(t) => t,
                Err(e) => {
                    return Err(e);
                },
            };
            if !took {
                done = true;
            } else {
                iters = iters + 1;
            }
        }
        proof {
            if !done {
                assert(goal == (ob.bids@, ob.asks@, ob.event_q@, ob.event_q_head));
            }
        }
    }
    refresh_top_of_book(ob, pool);
    Ok(())
}

/// One side's levels after pruning with the given budget, and the budget
/// that remains: each empty level's FIFO head advances over its retired
/// cursors, at most `budget` in total.
pub open spec fn spec_prune_side(levels: Seq<PriceLevel>, budget: int, i: int) -> (
    Seq<PriceLevel>,
    int,
)
    decreases levels.len() - i,
{
    if i < 0 || i >= levels.len() {
        (levels, budget)
    } else {
        let l = levels[i];
        let room = if l.tail >= l.head {
            l.tail as int - l.head as int
        } else {
            0
        };
        let step = if l.total_qty == 0 {
            if budget <= room {
                budget
            } else {
                room
            }
        } else {
            0
        };
        let l1 = PriceLevel { head: (l.head + step) as u32, ..l };
        spec_prune_side(levels.update(i, l1), budget - step, i + 1)
    }
}

/// Advance the FIFO heads of empty levels over their retired cursors,
/// bids first, up to `max_to_prune` steps in all; then refresh the top of
/// book.
#[verifier::rlimit(100)]
pub fn prune_expired(pool: &mut Pool, ob: &mut OrderBook, max_to_prune: u16, now_slot: u64) -> (r:
    Result<(), DlmmError>)
    requires
        book_wf(*old(ob), old(pool).n_bands as int),
        old(pool).bands@.len() == old(pool).n_bands as int,
        old(pool).n_bands as int <= 64,
    ensures
        r is Err ==> *final(pool) == *old(pool) && *final(ob) == *old(ob) && r->Err_0
            == DlmmError::Paused,
        r is Ok <==> !(old(pool).pause_orderbook || old(pool).is_paused),
        r is Ok ==> ({
            let pb = spec_prune_side(old(ob).bids@, max_to_prune as int, 0);
            let pa = spec_prune_side(old(ob).asks@, pb.1, 0);
            &&& final(ob).bids@ == pb.0
            &&& final(ob).asks@ == pa.0
            &&& *final(ob) == (OrderBook {
                bids: final(ob).bids,
                asks: final(ob).asks,
                best_bid_band: final(ob).best_bid_band,
                best_ask_band: final(ob).best_ask_band,
                ..*old(ob)
            })
            &&& *final(pool) == (Pool {
                best_bid_1e6: final(pool).best_bid_1e6,
                best_ask_1e6: final(pool).best_ask_1e6,
                ..*old(pool)
            })
        }),
{
    if pool.pause_orderbook || pool.is_paused {
        return Err(DlmmError::Paused);
    }
    let mut budget: u16 = max_to_prune;
    let ghost goal_b = spec_prune_side(old(ob).bids@, max_to_prune as int, 0);
    let n = ob.bids.len();
    let mut i: usize = 0;
    while i < n
        invariant
            i <= n,
            n == ob.bids@.len(),
            *ob == (OrderBook { bids: ob.bids, ..*old(ob) }),
            budget <= max_to_prune,
            forall|j: int|
                (i as int) <= j < n ==> #[trigger] ob.bids@[j] == old(ob).bids@[j],
            goal_b == spec_prune_side(old(ob).bids@, max_to_prune as int, 0),
            goal_b == spec_prune_side(ob.bids@, budget as int, i as int),
        decreases n - i,
    {
        let ghost pre = ob.bids@;
        let l = ob.bids[i];
        let step: u32 = if l.total_qty == 0 {
            let room: u32 = if l.tail >= l.head {
                l.tail - l.head
            } else {
                0
            };
            if (budget as u32) <= room {
                budget as u32
            } else {
                room
            }
        } else {
            0
        };
        ob.bids[i] = PriceLevel { head: l.head + step, ..l };
        budget = budget - (step as u16);
        proof {
            assert(ob.bids@ =~= pre.update(i as int, ob.bids@[i as int]));
        }
        i += 1;
    }
    proof {
        assert(spec_prune_side(ob.bids@, budget as int, n as int) == (ob.bids@, budget as int));
        assert(goal_b.0 =~= ob.bids@);
    }
    let ghost goal_a = spec_prune_side(old(ob).asks@, budget as int, 0);
    let m = ob.asks.len();
    let mut k: usize = 0;
    while k < m
        invariant
            k <= m,
            m == ob.asks@.len(),
            *ob == (OrderBook { bids: ob.bids, asks: ob.asks, ..*old(ob) }),
            ob.bids@ == goal_b.0,
            budget <= max_to_prune,
            forall|j: int|
                (k as int) <= j < m ==> #[trigger] ob.asks@[j] == old(ob).asks@[j],
            goal_a == spec_prune_side(ob.asks@, budget as int, k as int),
            goal_a.0 == spec_prune_side(old(ob).asks@, goal_b.1, 0).0,
        decreases m - k,
    {
        let ghost pre = ob.asks@;
        let l = ob.asks[k];
        let step: u32 = if l.total_qty == 0 {
            let room: u32 = if l.tail >= l.head {
                l.tail - l.head
            } else {
                0
            };
            if (budget as u32) <= room {
                budget as u32
            } else {
                room
            }
        } else {
            0
        };
        ob.asks[k] = PriceLevel { head: l.head + step, ..l };
        budget = budget - (step as u16);
        proof {
            assert(ob.asks@ =~= pre.update(k as int, ob.asks@[k as int]));
        }
        k += 1;
    }
    proof {
        assert(spec_prune_side(ob.asks@, budget as int, m as int) == (ob.asks@, budget as int));
        assert(goal_a.0 =~= ob.asks@);
    }
    refresh_top_of_book(ob, pool);
    Ok(())
}

} // verus!
