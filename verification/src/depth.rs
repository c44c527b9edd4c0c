//! Proximity routing: the order in which bands are visited around the
//! center, the band-swap taker path with its symmetric fee accrual, and
//! the depth snapshot.

use vstd::prelude::*;
use crate::errors::DlmmError;
use crate::math::{mid_price, mid_price_spec, diff_abs, diff_abs_spec, FEE_GROWTH_UNIT};
use crate::types::{
    AccountId, Band, DepthItem, DepthSnapshotV, OrderBook, Pool, PriceLevel, Side, SwapFilledV,
    band_mid, EVENT_VERSION,
};

verus! {

/// Distance of band `i`'s midpoint from the center.
pub open spec fn prox_key(bands: Seq<Band>, center: u64, i: int) -> int {
    diff_abs_spec(center, band_mid(bands[i]) as u64)
}

/// Index of the unused band with the smallest `(distance, index)` at or
/// after `i`, or the band count when every band from `i` on is used.
pub open spec fn pick_min_from(bands: Seq<Band>, center: u64, used: Seq<bool>, i: int) -> int
    decreases bands.len() - i,
{
    if i < 0 || i >= bands.len() {
        bands.len() as int
    } else {
        let rest = pick_min_from(bands, center, used, i + 1);
        if used[i] {
            rest
        } else if rest == bands.len() || prox_key(bands, center, i) <= prox_key(
            bands,
            center,
            rest,
        ) {
            i
        } else {
            rest
        }
    }
}

/// The pick is either the band count or an unused index at or after `i`.
pub proof fn lemma_pick_min_bounds(bands: Seq<Band>, center: u64, used: Seq<bool>, i: int)
    requires
        0 <= i,
    ensures
        pick_min_from(bands, center, used, i) <= bands.len(),
        pick_min_from(bands, center, used, i) < bands.len() ==> i <= pick_min_from(
            bands,
            center,
            used,
            i,
        ) && !used[pick_min_from(bands, center, used, i)],
    decreases bands.len() - i,
{
    if i < bands.len() {
        lemma_pick_min_bounds(bands, center, used, i + 1);
    }
}

/// The proximity order built by repeatedly taking the nearest unused
/// band, ties resolved toward the lower index.
pub open spec fn order_rec(bands: Seq<Band>, center: u64, used: Seq<bool>, k: int) -> Seq<int>
    decreases k,
{
    if k <= 0 {
        Seq::empty()
    } else {
        let m = pick_min_from(bands, center, used, 0);
        if m >= bands.len() {
            Seq::empty()
        } else {
            seq![m] + order_rec(bands, center, used.update(m, true), k - 1)
        }
    }
}

/// The order in which the taker path visits bands: nearest midpoint
/// first, earlier index on ties.
pub open spec fn proximity_order_spec(bands: Seq<Band>, center: u64) -> Seq<int> {
    order_rec(bands, center, Seq::new(bands.len(), |i: int| false), bands.len() as int)
}

/// Sort the band indices by distance of their midpoint from `center`,
/// stable on ties.
pub fn proximity_order(bands: &Vec<Band>, center: u64) -> (r: Vec<usize>)
    ensures
        order_map(r@) == proximity_order_spec(bands@, center),
        r@.len() == proximity_order_spec(bands@, center).len(),
        forall|k: int| 0 <= k < r@.len() ==> ((#[trigger] r@[k]) as int) < bands@.len(),
{
    let n = bands.len();
    let ghost full = proximity_order_spec(bands@, center);
    let mut used: Vec<bool> = Vec::new();
    let mut t: usize = 0;
    while t < n
        invariant
            t <= n,
            used@.len() == t,
            forall|j: int| 0 <= j < t ==> !(#[trigger] used@[j]),
        decreases n - t,
    {
        used.push(false);
        t += 1;
    }
    proof {
        assert(used@ =~= Seq::new(bands@.len(), |i: int| false));
    }
    let mut order: Vec<usize> = Vec::new();
    let mut k: usize = 0;
    while k < n
        invariant
            k <= n,
            n == bands@.len(),
            used@.len() == n,
            order@.len() == k,
            full == proximity_order_spec(bands@, center),
            forall|j: int| 0 <= j < k ==> ((#[trigger] order@[j]) as int) < n,
            full == order_map(order@) + order_rec(bands@, center, used@, (n - k) as int),
        decreases n - k,
    {
        // the unused band nearest to the center
        let mut m: usize = n;
        let mut i: usize = n;
        proof {
            lemma_pick_min_bounds(bands@, center, used@, n as int);
        }
        while i > 0
            invariant
                i <= n,
                n == bands@.len(),
                used@.len() == n,
                m as int == pick_min_from(bands@, center, used@, i as int),
                m as int <= n,
            decreases i,
        {
            i = i - 1;
            proof {
                lemma_pick_min_bounds(bands@, center, used@, i as int);
                lemma_pick_min_bounds(bands@, center, used@, i + 1);
            }
            let unused = !used[i];
            if unused {
                if m == n {
                    m = i;
                } else {
                    let b = bands[i];
                    let cm = bands[m];
                    let di = diff_abs(center, mid_price(b.lower_price_1e6, b.upper_price_1e6));
                    let dm = diff_abs(center, mid_price(cm.lower_price_1e6, cm.upper_price_1e6));
                    if di <= dm {
                        m = i;
                    }
                }
            }
        }
        if m == n {
            proof {
                assert(order_rec(bands@, center, used@, (n - k) as int) =~= Seq::<int>::empty());
                assert(full =~= order_map(order@));
            }
            return order;
        }
        proof {
            lemma_pick_min_bounds(bands@, center, used@, 0);
        }
        let ghost used_before = used@;
        let ghost order_before = order@;
        used[m] = true;
        order.push(m);
        proof {
            assert(used@ =~= used_before.update(m as int, true));
            assert(order_map(order@) =~= order_map(order_before) + seq![m as int]);
            assert(order_map(order_before) + (seq![m as int] + order_rec(
                bands@,
                center,
                used@,
                (n - k - 1) as int,
            )) =~= order_map(order@) + order_rec(bands@, center, used@, (n - k - 1) as int));
        }
        k += 1;
    }
    proof {
        assert(order_rec(bands@, center, used@, 0) =~= Seq::<int>::empty());
        assert(full =~= order_map(order@));
    }
    order
}

/// A `usize` sequence as a mathematical integer sequence.
pub open spec fn order_map(s: Seq<usize>) -> Seq<int> {
    s.map(|k: int, x: usize| x as int)
}

/// One step of the band-swap sweep, applied along `order`: skip inactive
/// bands, bands whose midpoint violates the limit, and dry bands; trade
/// `min(qty, cap)` against the facing reserve, swap the reserves, and
/// accrue `trade * fee` into both fee-growth accumulators at 1e18 scale.
/// Returns `(bands, remaining_qty, fills)`.
pub open spec fn band_sweep(
    bands: Seq<Band>,
    order: Seq<int>,
    side: Side,
    qty: u64,
    limit: u64,
    fee_bps: u16,
    pool_id: AccountId,
) -> (Seq<Band>, u64, Seq<SwapFilledV>)
    decreases order.len(),
{
    if order.len() == 0 || qty == 0 {
        (bands, qty, Seq::empty())
    } else {
        let i = order[0];
        let rest = order.drop_first();
        if !(0 <= i < bands.len()) {
            band_sweep(bands, rest, side, qty, limit, fee_bps, pool_id)
        } else {
            let b = bands[i];
            let mid = band_mid(b);
            let skip = !b.is_active || (side is Bid && mid > limit) || (side is Ask && mid < limit)
                || (if side is Bid {
                b.reserves_b
            } else {
                b.reserves_a
            }) == 0;
            if skip {
                band_sweep(bands, rest, side, qty, limit, fee_bps, pool_id)
            } else {
                let cap = if side is Bid {
                    b.reserves_b
                } else {
                    b.reserves_a
                };
                let trade = if qty <= cap {
                    qty
                } else {
                    cap
                };
                let growth = (trade as int) * (fee_bps as int) * (FEE_GROWTH_UNIT as int);
                let nb = Band {
                    reserves_a: (if side is Bid {
                        if b.reserves_a + trade > u64::MAX {
                            u64::MAX as int
                        } else {
                            b.reserves_a + trade
                        }
                    } else {
                        b.reserves_a - trade
                    }) as u64,
                    reserves_b: (if side is Bid {
                        b.reserves_b - trade
                    } else {
                        if b.reserves_b + trade > u64::MAX {
                            u64::MAX as int
                        } else {
                            b.reserves_b + trade
                        }
                    }) as u64,
                    fee_growth_a_1e18: (if b.fee_growth_a_1e18 + growth > u128::MAX {
                        u128::MAX as int
                    } else {
                        b.fee_growth_a_1e18 + growth
                    }) as u128,
                    fee_growth_b_1e18: (if b.fee_growth_b_1e18 + growth > u128::MAX {
                        u128::MAX as int
                    } else {
                        b.fee_growth_b_1e18 + growth
                    }) as u128,
                    ..b
                };
                let ev = SwapFilledV {
                    event_version: EVENT_VERSION,
                    pool: pool_id,
                    side: side,
                    qty: trade,
                    price_1e6: mid as u64,
                    band_idx: i as u16,
                    fee_bps: fee_bps,
                };
                let out = band_sweep(
                    bands.update(i, nb),
                    rest,
                    side,
                    (qty - trade) as u64,
                    limit,
                    fee_bps,
                    pool_id,
                );
                (out.0, out.1, seq![ev] + out.2)
            }
        }
    }
}

/// The band-swap taker path: visit active bands nearest the last center
/// first, trade against the facing reserves inside the limit, swap
/// reserves and accrue the symmetric fee growth. Returns the unfilled
/// remainder and the per-band fills.
#[verifier::rlimit(100)]
pub fn take_from_bands(
    pool: &mut Pool,
    pool_id: AccountId,
    side: Side,
    qty: u64,
    limit_price_1e6: u64,
) -> (r: Result<(u64, Vec<SwapFilledV>), DlmmError>)
    requires
        old(pool).bands@.len() <= 0xffff,
    ensures
        r is Ok,
        *final(pool) == (Pool { bands: final(pool).bands, ..*old(pool) }),
        ({
            let out = band_sweep(
                old(pool).bands@,
                proximity_order_spec(old(pool).bands@, old(pool).last_center_price_1e6),
                side,
                qty,
                limit_price_1e6,
                old(pool).fee_current_bps,
                pool_id,
            );
            &&& final(pool).bands@ == out.0
            &&& r->Ok_0.0 == out.1
            &&& r->Ok_0.1@ == out.2
            &&& r->Ok_0.0 <= qty
        }),
{
    let order = proximity_order(&pool.bands, pool.last_center_price_1e6);
    let fee_bps = pool.fee_current_bps;
    let ghost order_full = order_map(order@);
    let ghost bands0 = pool.bands@;
    let mut remaining: u64 = qty;
    let mut fills: Vec<SwapFilledV> = Vec::new();
    let ghost goal = band_sweep(
        bands0,
        order_full,
        side,
        qty,
        limit_price_1e6,
        fee_bps,
        pool_id,
    );
    proof {
        assert(order_full.skip(0) =~= order_full);
        assert(fills@ =~= Seq::<SwapFilledV>::empty());
        assert(fills@ + goal.2 =~= goal.2);
        assert(goal == (goal.0, goal.1, fills@ + goal.2));
    }
    let mut t: usize = 0;
    while t < order.len()
        invariant
            t <= order@.len(),
            *pool == (Pool { bands: pool.bands, ..*old(pool) }),
            fee_bps == old(pool).fee_current_bps,
            order_full == order_map(order@),
            bands0 == old(pool).bands@,
            goal == band_sweep(
                bands0,
                proximity_order_spec(bands0, old(pool).last_center_price_1e6),
                side,
                qty,
                limit_price_1e6,
                fee_bps,
                pool_id,
            ),
            order_full == proximity_order_spec(bands0, old(pool).last_center_price_1e6),
            forall|j: int| 0 <= j < order@.len() ==> ((#[trigger] order@[j]) as int) < pool.bands@.len(),
            pool.bands@.len() == bands0.len(),
            pool.bands@.len() <= 0xffff,
            remaining <= qty,
            goal == ({
                let cont = band_sweep(
                    pool.bands@,
                    order_full.skip(t as int),
                    side,
                    remaining,
                    limit_price_1e6,
                    fee_bps,
                    pool_id,
                );
                (cont.0, cont.1, fills@ + cont.2)
            }),
        decreases order@.len() - t,
    {
        proof {
            assert(order_full.skip(t as int).drop_first() =~= order_full.skip(t + 1));
            assert(order_full.skip(t as int)[0] == order@[t as int] as int);
        }
        if remaining == 0 {
            proof {
                lemma_band_sweep_zero(
                    pool.bands@,
                    order_full.skip(t as int),
                    side,
                    limit_price_1e6,
                    fee_bps,
                    pool_id,
                );
                assert(fills@ + Seq::<SwapFilledV>::empty() =~= fills@);
            }
            return Ok((remaining, fills));
        }
        let i = order[t];
        let b = pool.bands[i];
        let mid = mid_price(b.lower_price_1e6, b.upper_price_1e6);
        let in_limit = match side {
            Side::Bid => mid <= limit_price_1e6,
            Side::Ask => mid >= limit_price_1e6,
        };
        let cap = match side {
            Side::Bid => b.reserves_b,
            Side::Ask => b.reserves_a,
        };
        if b.is_active && in_limit && cap > 0 {
            let trade = if remaining <= cap {
                remaining
            } else {
                cap
            };
            assert((trade as int) * (fee_bps as int) * (FEE_GROWTH_UNIT as int) <= u128::MAX as int)
                by (nonlinear_arith)
                requires
                    0 <= trade as int <= 0xffff_ffff_ffff_ffff,
                    0 <= fee_bps as int <= 0xffff,
                    FEE_GROWTH_UNIT as int == 100_000_000_000_000,
            ;
            let growth: u128 = (trade as u128) * (fee_bps as u128) * FEE_GROWTH_UNIT;
            let nb = Band {
                reserves_a: match side {
                    Side::Bid => if trade > u64::MAX - b.reserves_a {
                        u64::MAX
                    } else {
                        b.reserves_a + trade
                    },
                    Side::Ask => b.reserves_a - trade,
                },
                reserves_b: match side {
                    Side::Bid => b.reserves_b - trade,
                    Side::Ask => if trade > u64::MAX - b.reserves_b {
                        u64::MAX
                    } else {
                        b.reserves_b + trade
                    },
                },
                fee_growth_a_1e18: if growth > u128::MAX - b.fee_growth_a_1e18 {
                    u128::MAX
                } else {
                    b.fee_growth_a_1e18 + growth
                },
                fee_growth_b_1e18: if growth > u128::MAX - b.fee_growth_b_1e18 {
                    u128::MAX
                } else {
                    b.fee_growth_b_1e18 + growth
                },
                ..b
            };
            let ghost pre = pool.bands@;
            pool.bands[i] = nb;
            proof {
                assert(pool.bands@ =~= pre.update(i as int, nb));
            }
            fills.push(
                SwapFilledV {
                    event_version: EVENT_VERSION,
                    pool: pool_id,
                    side,
                    qty: trade,
                    price_1e6: mid,
                    band_idx: i as u16,
                    fee_bps,
                },
            );
            remaining = remaining - trade;
        }
        t += 1;
    }
    proof {
        assert(order_full.skip(order_full.len() as int) =~= Seq::<int>::empty());
        assert(fills@ + Seq::<SwapFilledV>::empty() =~= fills@);
    }
    Ok((remaining, fills))
}

/// A sweep with nothing left to fill changes nothing.
proof fn lemma_band_sweep_zero(
    bands: Seq<Band>,
    order: Seq<int>,
    side: Side,
    limit: u64,
    fee_bps: u16,
    pool_id: AccountId,
)
    ensures
        band_sweep(bands, order, side, 0, limit, fee_bps, pool_id) == (
            bands,
            0u64,
            Seq::<SwapFilledV>::empty(),
        ),
    decreases order.len(),
{
}

/// The rows of a depth snapshot: bands visited nearest-first, rows for
/// bands with any resting quantity, at most `remaining` rows.
pub open spec fn depth_rows(
    bands: Seq<Band>,
    bids: Seq<PriceLevel>,
    asks: Seq<PriceLevel>,
    order: Seq<int>,
    remaining: int,
) -> Seq<DepthItem>
    decreases order.len(),
{
    if order.len() == 0 || remaining <= 0 {
        Seq::empty()
    } else {
        let i = order[0];
        let rest = order.drop_first();
        if !(0 <= i < bands.len()) {
            depth_rows(bands, bids, asks, rest, remaining)
        } else {
            let bid_qty = if i < bids.len() {
                bids[i].total_qty as int
            } else {
                0
            };
            let ask_qty = if i < asks.len() {
                asks[i].total_qty as int
            } else {
                0
            };
            if bid_qty == 0 && ask_qty == 0 {
                depth_rows(bands, bids, asks, rest, remaining)
            } else {
                seq![
                    DepthItem {
                        price_1e6: band_mid(bands[i]) as u64,
                        bid_qty: bid_qty as u64,
                        ask_qty: ask_qty as u64,
                        band_idx: i as u16,
                    },
                ] + depth_rows(bands, bids, asks, rest, remaining - 1)
            }
        }
    }
}

/// A view of the book's resting depth: up to `levels` rows, nearest band
/// first, one row per band with any resting quantity.
pub fn view_depth(pool: &Pool, ob: &OrderBook, pool_id: AccountId, levels: u8) -> (r: Result<
    DepthSnapshotV,
    DlmmError,
>)
    requires
        pool.bands@.len() <= 0xffff,
    ensures
        r is Ok,
        r->Ok_0.event_version == EVENT_VERSION,
        r->Ok_0.pool == pool_id,
        r->Ok_0.items@ == depth_rows(
            pool.bands@,
            ob.bids@,
            ob.asks@,
            proximity_order_spec(pool.bands@, pool.last_center_price_1e6),
            levels as int,
        ),
{
    let order = proximity_order(&pool.bands, pool.last_center_price_1e6);
    let ghost order_full = order_map(order@);
    let ghost goal = depth_rows(pool.bands@, ob.bids@, ob.asks@, order_full, levels as int);
    let mut out: Vec<DepthItem> = Vec::new();
    let mut collected: usize = 0;
    proof {
        assert(order_full.skip(0) =~= order_full);
        assert(out@ =~= Seq::<DepthItem>::empty());
        assert(out@ + goal =~= goal);
    }
    let mut t: usize = 0;
    while t < order.len()
        invariant
            t <= order@.len(),
            order_full == order_map(order@),
            goal == depth_rows(
                pool.bands@,
                ob.bids@,
                ob.asks@,
                proximity_order_spec(pool.bands@, pool.last_center_price_1e6),
                levels as int,
            ),
            order_full == proximity_order_spec(pool.bands@, pool.last_center_price_1e6),
            forall|j: int| 0 <= j < order@.len() ==> ((#[trigger] order@[j]) as int) < pool.bands@.len(),
            pool.bands@.len() <= 0xffff,
            collected <= levels as int,
            goal == out@ + depth_rows(
                pool.bands@,
                ob.bids@,
                ob.asks@,
                order_full.skip(t as int),
                levels as int - collected,
            ),
        decreases order@.len() - t,
    {
        proof {
            assert(order_full.skip(t as int).drop_first() =~= order_full.skip(t + 1));
            assert(order_full.skip(t as int)[0] == order@[t as int] as int);
        }
        if collected >= levels as usize {
            proof {
                assert(depth_rows(
                    pool.bands@,
                    ob.bids@,
                    ob.asks@,
                    order_full.skip(t as int),
                    levels as int - collected,
                ) =~= Seq::<DepthItem>::empty());
                assert(goal =~= out@);
            }
            return Ok(DepthSnapshotV { event_version: EVENT_VERSION, pool: pool_id, items: out });
        }
        let i = order[t];
        let bid_qty: u64 = if i < ob.bids.len() {
            ob.bids[i].total_qty
        } else {
            0
        };
        let ask_qty: u64 = if i < ob.asks.len() {
            ob.asks[i].total_qty
        } else {
            0
        };
        if !(bid_qty == 0 && ask_qty == 0) {
            let b = pool.bands[i];
            let mid = mid_price(b.lower_price_1e6, b.upper_price_1e6);
            out.push(DepthItem { price_1e6: mid, bid_qty, ask_qty, band_idx: i as u16 });
            collected += 1;
        }
        t += 1;
    }
    proof {
        assert(order_full.skip(order_full.len() as int) =~= Seq::<int>::empty());
        assert(goal =~= out@);
    }
    Ok(DepthSnapshotV { event_version: EVENT_VERSION, pool: pool_id, items: out })
}

} // verus!
