//! The matching core: per-band price levels with FIFO cursors, the book
//! event ring, order resting and cancellation, book sweeps, and the
//! crank-driven crossing loop.

use vstd::prelude::*;
use crate::errors::DlmmError;
use crate::math::{mid_price, diff_abs, diff_abs_spec};
use crate::types::{
    AccountId, Band, BookEvent, OrderBook, Pool, PriceLevel, Side,
    TifParam, band_mid, EVENT_Q_CAP, EVENT_VERSION, OUT_REASON_CANCEL,
    DEFAULT_MAX_QUEUE_PER_LEVEL,
};

verus! {

/// The order book invariant: parallel level vectors of the band count, a
/// full-capacity event ring, and sane FIFO cursors on every level.
pub open spec fn book_wf(ob: OrderBook, n_bands: int) -> bool {
    &&& ob.bids@.len() == n_bands
    &&& ob.asks@.len() == n_bands
    &&& ob.event_q@.len() == EVENT_Q_CAP as int
    &&& forall|i: int| 0 <= i < n_bands ==> (#[trigger] ob.bids@[i]).head <= ob.bids@[i].tail
    &&& forall|i: int| 0 <= i < n_bands ==> (#[trigger] ob.asks@[i]).head <= ob.asks@[i].tail
}

/// The ring and head after one event lands.
pub open spec fn spec_push_event(q: Seq<BookEvent>, head: u16, ev: BookEvent) -> (
    Seq<BookEvent>,
    u16,
) {
    (q.update((head as int) % q.len() as int, ev), ((head as int + 1) % 0x10000) as u16)
}

/// Write one event into the ring slot under the head and advance the
/// head with wraparound.
pub fn push_event(ob: &mut OrderBook, ev: BookEvent)
    requires
        old(ob).event_q@.len() > 0,
    ensures
        *final(ob) == (OrderBook {
            event_q: final(ob).event_q,
            event_q_head: final(ob).event_q_head,
            ..*old(ob)
        }),
        (final(ob).event_q@, final(ob).event_q_head) == spec_push_event(
            old(ob).event_q@,
            old(ob).event_q_head,
            ev,
        ),
{
    let idx: usize = (ob.event_q_head as usize) % ob.event_q.len();
    ob.event_q[idx] = ev;
    ob.event_q_head = if ob.event_q_head == u16::MAX {
        0
    } else {
        ob.event_q_head + 1
    };
}

/// Create the order book for a pool: one empty level per band on each
/// side, an empty event ring at full capacity, and the configured tick.
pub fn init_orderbook(pool: &Pool, pool_id: AccountId, bump: u8, tick_1e6: u64, max_levels: u16) -> (r:
    Result<OrderBook, DlmmError>)
    ensures
        pool.pause_orderbook ==> r == Err::<OrderBook, DlmmError>(DlmmError::Paused),
        !pool.pause_orderbook && tick_1e6 == 0 ==> r == Err::<OrderBook, DlmmError>(
            DlmmError::ParamOutOfRange,
        ),
        r is Ok <==> !pool.pause_orderbook && tick_1e6 > 0,
        r is Ok ==> ({
            let ob = r->Ok_0;
            &&& book_wf(ob, pool.n_bands as int)
            &&& ob.bump == bump
            &&& ob.pool == pool_id
            &&& ob.tick_1e6 == tick_1e6
            &&& ob.best_bid_band == -1
            &&& ob.best_ask_band == -1
            &&& ob.next_order_id == 1
            &&& ob.event_q_head == 0
            &&& ob.max_levels == (if max_levels >= pool.n_bands as u16 {
                max_levels
            } else {
                pool.n_bands as u16
            })
            &&& ob.max_queue_per_level == DEFAULT_MAX_QUEUE_PER_LEVEL
            &&& forall|i: int|
                0 <= i < pool.n_bands as int ==> #[trigger] ob.bids@[i] == (PriceLevel {
                    band_idx: i as i16,
                    total_qty: 0u64,
                    head: 0u32,
                    tail: 0u32,
                })
            &&& forall|i: int|
                0 <= i < pool.n_bands as int ==> #[trigger] ob.asks@[i] == (PriceLevel {
                    band_idx: i as i16,
                    total_qty: 0u64,
                    head: 0u32,
                    tail: 0u32,
                })
            &&& forall|i: int|
                0 <= i < EVENT_Q_CAP as int ==> #[trigger] ob.event_q@[i] == (BookEvent::Out {
                    order_id: 0u64,
                    reason: 0u8,
                })
        }),
{
    if pool.pause_orderbook {
        return Err(DlmmError::Paused);
    }
    if tick_1e6 == 0 {
        return Err(DlmmError::ParamOutOfRange);
    }
    let n = pool.n_bands as usize;
    let mut bids: Vec<PriceLevel> = Vec::new();
    let mut asks: Vec<PriceLevel> = Vec::new();
    let mut i: usize = 0;
    while i < n
        invariant
            i <= n,
            n <= 255,
            bids@.len() == i,
            asks@.len() == i,
            forall|j: int|
                0 <= j < i ==> #[trigger] bids@[j] == (PriceLevel {
                    band_idx: j as i16,
                    total_qty: 0u64,
                    head: 0u32,
                    tail: 0u32,
                }),
            forall|j: int|
                0 <= j < i ==> #[trigger] asks@[j] == (PriceLevel {
                    band_idx: j as i16,
                    total_qty: 0u64,
                    head: 0u32,
                    tail: 0u32,
                }),
        decreases n - i,
    {
        bids.push(PriceLevel { band_idx: i as i16, total_qty: 0, head: 0, tail: 0 });
        asks.push(PriceLevel { band_idx: i as i16, total_qty: 0, head: 0, tail: 0 });
        i += 1;
    }
    let mut event_q: Vec<BookEvent> = Vec::new();
    let mut k: usize = 0;
    while k < EVENT_Q_CAP
        invariant
            k <= EVENT_Q_CAP,
            event_q@.len() == k,
            forall|j: int|
                0 <= j < k ==> #[trigger] event_q@[j] == (BookEvent::Out {
                    order_id: 0u64,
                    reason: 0u8,
                }),
        decreases EVENT_Q_CAP - k,
    {
        event_q.push(BookEvent::Out { order_id: 0, reason: 0 });
        k += 1;
    }
    Ok(OrderBook {
        bump,
        pool: pool_id,
        tick_1e6,
        best_bid_band: -1,
        best_ask_band: -1,
        next_order_id: 1,
        bids,
        asks,
        event_q_head: 0,
        event_q,
        max_levels: if max_levels >= pool.n_bands as u16 {
            max_levels
        } else {
            pool.n_bands as u16
        },
        max_queue_per_level: DEFAULT_MAX_QUEUE_PER_LEVEL,
    })
}

/// Index of the band among the first `k` whose midpoint lies nearest to
/// `price`, the earliest on ties.
pub open spec fn spec_target_band(bands: Seq<Band>, price: u64, k: int) -> int
    decreases k,
{
    if k <= 1 {
        0
    } else {
        let b = spec_target_band(bands, price, k - 1);
        if diff_abs_spec(price, band_mid(bands[k - 1]) as u64) < diff_abs_spec(
            price,
            band_mid(bands[b]) as u64,
        ) {
            k - 1
        } else {
            b
        }
    }
}

/// Band whose midpoint lies nearest to `price`; the first such band on a
/// tie.
pub fn map_price_to_band(pool: &Pool, price: u64) -> (r: Result<u16, DlmmError>)
    requires
        1 <= pool.n_bands as int,
        pool.bands@.len() == pool.n_bands as int,
    ensures
        r is Ok,
        0 <= (r->Ok_0 as int) < pool.n_bands as int,
        r->Ok_0 as int == spec_target_band(pool.bands@, price, pool.n_bands as int),
        forall|j: int|
            0 <= j < pool.n_bands as int ==> diff_abs_spec(
                price,
                band_mid(#[trigger] pool.bands@[j]) as u64,
            ) >= diff_abs_spec(price, band_mid(pool.bands@[r->Ok_0 as int]) as u64),
{
    let n = pool.n_bands as usize;
    let mut best_i: usize = 0;
    let mut best_d: u64 = u64::MAX;
    let mut i: usize = 0;
    while i < n
        invariant
            i <= n,
            n == pool.n_bands as int,
            pool.bands@.len() == n,
            i > 0 ==> best_i < i && best_d == diff_abs_spec(
                price,
                band_mid(pool.bands@[best_i as int]) as u64,
            ),
            i > 0 ==> best_i as int == spec_target_band(pool.bands@, price, i as int),
            i == 0 ==> best_i == 0 && best_d == u64::MAX,
            forall|j: int|
                0 <= j < i ==> diff_abs_spec(price, band_mid(#[trigger] pool.bands@[j]) as u64)
                    >= best_d,
        decreases n - i,
    {
        let b = pool.bands[i];
        let mid = mid_price(b.lower_price_1e6, b.upper_price_1e6);
        let d = diff_abs(price, mid);
        if d < best_d {
            best_d = d;
            best_i = i;
        }
        i += 1;
    }
    Ok(best_i as u16)
}

/// Index of the highest level with resting quantity, or -1.
pub open spec fn spec_highest_nonempty(levels: Seq<PriceLevel>, k: int) -> int
    decreases k,
{
    if k <= 0 {
        -1
    } else if levels[k - 1].total_qty > 0 {
        k - 1
    } else {
        spec_highest_nonempty(levels, k - 1)
    }
}

/// Index of the lowest level with resting quantity at or above `i`, or
/// the length.
pub open spec fn spec_lowest_nonempty(levels: Seq<PriceLevel>, i: int) -> int
    decreases levels.len() - i,
{
    if i < 0 || i >= levels.len() {
        levels.len() as int
    } else if levels[i].total_qty > 0 {
        i
    } else {
        spec_lowest_nonempty(levels, i + 1)
    }
}

/// Find the highest non-empty level, scanning down.
fn highest_nonempty(levels: &Vec<PriceLevel>) -> (r: Option<usize>)
    ensures
        (match r {
            Some(i) => i as int == spec_highest_nonempty(levels@, levels@.len() as int) && i
                < levels@.len() && levels@[i as int].total_qty > 0,
            None => spec_highest_nonempty(levels@, levels@.len() as int) == -1,
        }),
{
    let mut k: usize = levels.len();
    while k > 0
        invariant
            k <= levels@.len(),
            spec_highest_nonempty(levels@, levels@.len() as int) == spec_highest_nonempty(
                levels@,
                k as int,
            ),
        decreases k,
    {
        if levels[k - 1].total_qty > 0 {
            return Some(k - 1);
        }
        k = k - 1;
    }
    None
}

/// Find the lowest non-empty level, scanning up.
fn lowest_nonempty(levels: &Vec<PriceLevel>) -> (r: Option<usize>)
    ensures
        (match r {
            Some(i) => i as int == spec_lowest_nonempty(levels@, 0) && i < levels@.len()
                && levels@[i as int].total_qty > 0,
            None => spec_lowest_nonempty(levels@, 0) == levels@.len() as int,
        }),
{
    let mut k: usize = 0;
    while k < levels.len()
        invariant
            k <= levels@.len(),
            spec_lowest_nonempty(levels@, 0) == spec_lowest_nonempty(levels@, k as int),
        decreases levels@.len() - k,
    {
        if levels[k].total_qty > 0 {
            return Some(k);
        }
        k = k + 1;
    }
    None
}

/// Refresh the top-of-book cache: the best bid is the highest bid level
/// with quantity (its band midpoint), the best ask the lowest ask level
/// with quantity, with `0` and `u64::MAX` sentinels when a side is empty.
pub fn refresh_top_of_book(ob: &mut OrderBook, pool: &mut Pool)
    requires
        old(ob).bids@.len() <= old(pool).bands@.len(),
        old(ob).asks@.len() <= old(pool).bands@.len(),
        old(ob).bids@.len() <= 0x7fff,
        old(ob).asks@.len() <= 0x7fff,
    ensures
        *final(ob) == (OrderBook {
            best_bid_band: final(ob).best_bid_band,
            best_ask_band: final(ob).best_ask_band,
            ..*old(ob)
        }),
        *final(pool) == (Pool {
            best_bid_1e6: final(pool).best_bid_1e6,
            best_ask_1e6: final(pool).best_ask_1e6,
            ..*old(pool)
        }),
        final(ob).best_bid_band as int == spec_highest_nonempty(
            old(ob).bids@,
            old(ob).bids@.len() as int,
        ),
        final(ob).best_ask_band as int == (if spec_lowest_nonempty(old(ob).asks@, 0) == old(
            ob,
        ).asks@.len() as int {
            -1
        } else {
            spec_lowest_nonempty(old(ob).asks@, 0)
        }),
        final(pool).best_bid_1e6 as int == (if spec_highest_nonempty(
            old(ob).bids@,
            old(ob).bids@.len() as int,
        ) >= 0 {
            band_mid(
                old(pool).bands@[spec_highest_nonempty(old(ob).bids@, old(ob).bids@.len() as int)],
            )
        } else {
            0
        }),
        final(pool).best_ask_1e6 as int == (if spec_lowest_nonempty(old(ob).asks@, 0) < old(
            ob,
        ).asks@.len() as int {
            band_mid(old(pool).bands@[spec_lowest_nonempty(old(ob).asks@, 0)])
        } else {
            u64::MAX as int
        }),
{
    match highest_nonempty(&ob.bids) {
        Some(i) => {
            let b = pool.bands[i];
            pool.best_bid_1e6 = mid_price(b.lower_price_1e6, b.upper_price_1e6);
            ob.best_bid_band = i as i16;
        },
        None => {
            pool.best_bid_1e6 = 0;
            ob.best_bid_band = -1;
        },
    }
    match lowest_nonempty(&ob.asks) {
        Some(i) => {
            let b = pool.bands[i];
            pool.best_ask_1e6 = mid_price(b.lower_price_1e6, b.upper_price_1e6);
            ob.best_ask_band = i as i16;
        },
        None => {
            pool.best_ask_1e6 = u64::MAX;
            ob.best_ask_band = -1;
        },
    }
}

/// Rest an order on its side's level at `band_idx`: enforce the per-level
/// queue bound, assign the next order id, bump the level's quantity and
/// FIFO tail, and record a `Place` event carrying the TIF expiry.
pub fn rest_in_book(
    ob: &mut OrderBook,
    side: Side,
    band_idx: u16,
    qty: u64,
    tif: TifParam,
    reduce_only: bool,
    client_id: u64,
    owner: AccountId,
    now_slot: u64,
) -> (r: Result<u64, DlmmError>)
    requires
        old(ob).event_q@.len() > 0,
        forall|i: int|
            0 <= i < old(ob).bids@.len() ==> (#[trigger] old(ob).bids@[i]).head <= old(
                ob,
            ).bids@[i].tail,
        forall|i: int|
            0 <= i < old(ob).asks@.len() ==> (#[trigger] old(ob).asks@[i]).head <= old(
                ob,
            ).asks@[i].tail,
    ensures
        r is Err ==> *final(ob) == *old(ob),
        final(ob).bids@.len() == old(ob).bids@.len(),
        final(ob).asks@.len() == old(ob).asks@.len(),
        final(ob).event_q@.len() == old(ob).event_q@.len(),
        ({
            let levels = if side is Bid {
                old(ob).bids@
            } else {
                old(ob).asks@
            };
            if band_idx as int >= levels.len() {
                r == Err::<u64, DlmmError>(DlmmError::InvalidBandIndex)
            } else if levels[band_idx as int].tail - levels[band_idx as int].head >= old(
                ob,
            ).max_queue_per_level as int {
                r == Err::<u64, DlmmError>(DlmmError::ParamOutOfRange)
            } else {
                let l0 = levels[band_idx as int];
                let l1 = PriceLevel {
                    total_qty: (if l0.total_qty as int + qty as int > u64::MAX {
                        u64::MAX as int
                    } else {
                        l0.total_qty as int + qty as int
                    }) as u64,
                    tail: (if l0.tail as int + 1 > u32::MAX {
                        u32::MAX as int
                    } else {
                        l0.tail as int + 1
                    }) as u32,
                    ..l0
                };
                let ev = BookEvent::Place {
                    order_id: old(ob).next_order_id,
                    side: side,
                    band_idx: band_idx as i16,
                    owner: owner,
                    qty: qty,
                    client_id: client_id,
                    tif_expiry: tif.as_expiry_spec(now_slot),
                    reduce_only: reduce_only,
                };
                let pushed = spec_push_event(old(ob).event_q@, old(ob).event_q_head, ev);
                &&& r == Ok::<u64, DlmmError>(old(ob).next_order_id)
                &&& *final(ob) == (OrderBook {
                    bids: final(ob).bids,
                    asks: final(ob).asks,
                    next_order_id: (if old(ob).next_order_id as int + 1 > u64::MAX {
                        u64::MAX as int
                    } else {
                        old(ob).next_order_id as int + 1
                    }) as u64,
                    event_q: final(ob).event_q,
                    event_q_head: pushed.1,
                    ..*old(ob)
                })
                &&& final(ob).event_q@ == pushed.0
                &&& (side is Bid ==> final(ob).bids@ == old(ob).bids@.update(band_idx as int, l1)
                    && final(ob).asks@ == old(ob).asks@)
                &&& (side is Ask ==> final(ob).asks@ == old(ob).asks@.update(band_idx as int, l1)
                    && final(ob).bids@ == old(ob).bids@)
            }
        }),
{
    let idx = band_idx as usize;
    let in_range = match side {
        Side::Bid => idx < ob.bids.len(),
        Side::Ask => idx < ob.asks.len(),
    };
    if !in_range {
        return Err(DlmmError::InvalidBandIndex);
    }
    let l0 = match side {
        Side::Bid => ob.bids[idx],
        Side::Ask => ob.asks[idx],
    };
    let q_len: u32 = l0.tail - l0.head;
    if !(q_len < ob.max_queue_per_level as u32) {
        return Err(DlmmError::ParamOutOfRange);
    }
    let id = ob.next_order_id;
    ob.next_order_id = if ob.next_order_id == u64::MAX {
        u64::MAX
    } else {
        ob.next_order_id + 1
    };
    let expiry = tif.as_expiry(now_slot);
    let l1 = PriceLevel {
        total_qty: if qty > u64::MAX - l0.total_qty {
            u64::MAX
        } else {
            l0.total_qty + qty
        },
        tail: if l0.tail == u32::MAX {
            u32::MAX
        } else {
            l0.tail + 1
        },
        ..l0
    };
    match side {
        Side::Bid => {
            ob.bids[idx] = l1;
            proof {
                assert(ob.bids@ =~= old(ob).bids@.update(idx as int, l1));
            }
        },
        Side::Ask => {
            ob.asks[idx] = l1;
            proof {
                assert(ob.asks@ =~= old(ob).asks@.update(idx as int, l1));
            }
        },
    }
    push_event(
        ob,
        BookEvent::Place {
            order_id: id,
            side,
            band_idx: band_idx as i16,
            owner,
            qty,
            client_id,
            tif_expiry: expiry,
            reduce_only,
        },
    );
    Ok(id)
}

/// Whether a ring entry is the `Place` record a cancellation is looking
/// for: matching id, side and (if demanded) owner, on a level that
/// exists.
pub open spec fn spec_cancel_match(
    ev: BookEvent,
    side: Side,
    order_id: u64,
    owner_opt: Option<AccountId>,
    n_levels: int,
) -> bool {
    match ev {
        BookEvent::Place { order_id: oid, side: s, band_idx, owner, .. } => {
            &&& oid == order_id
            &&& s == side
            &&& (owner_opt matches Some(o) ==> o == owner)
            &&& 0 <= (band_idx as int) < n_levels
        },
        _ => false,
    }
}

/// The highest ring index below `k` holding the matching `Place` record,
/// or -1.
pub open spec fn spec_find_place(
    q: Seq<BookEvent>,
    side: Side,
    order_id: u64,
    owner_opt: Option<AccountId>,
    n_levels: int,
    k: int,
) -> int
    decreases k,
{
    if k <= 0 {
        -1
    } else if spec_cancel_match(q[k - 1], side, order_id, owner_opt, n_levels) {
        k - 1
    } else {
        spec_find_place(q, side, order_id, owner_opt, n_levels, k - 1)
    }
}

/// Scan the event ring, newest slot first, for the `Place` record of the
/// given order; deduct its remembered quantity from its level (floored at
/// zero) and record an `Out` event. Returns whether a record was found.
pub fn remove_order_linear(
    ob: &mut OrderBook,
    side: Side,
    order_id: u64,
    owner_opt: Option<AccountId>,
) -> (r: Result<bool, DlmmError>)
    requires
        old(ob).event_q@.len() > 0,
    ensures
        r is Ok,
        final(ob).bids@.len() == old(ob).bids@.len(),
        final(ob).asks@.len() == old(ob).asks@.len(),
        final(ob).event_q@.len() == old(ob).event_q@.len(),
        ({
            let n_levels = if side is Bid {
                old(ob).bids@.len() as int
            } else {
                old(ob).asks@.len() as int
            };
            let f = spec_find_place(
                old(ob).event_q@,
                side,
                order_id,
                owner_opt,
                n_levels,
                old(ob).event_q@.len() as int,
            );
            if f < 0 {
                r == Ok::<bool, DlmmError>(false) && *final(ob) == *old(ob)
            } else {
                let levels = if side is Bid {
                    old(ob).bids@
                } else {
                    old(ob).asks@
                };
                let (bi, q) = (match old(ob).event_q@[f] {
                    BookEvent::Place { band_idx, qty, .. } => (band_idx as int, qty as int),
                    _ => (0int, 0int),
                });
                let l0 = levels[bi];
                let l1 = PriceLevel {
                    total_qty: (if l0.total_qty >= q {
                        l0.total_qty - q
                    } else {
                        0
                    }) as u64,
                    ..l0
                };
                let pushed = spec_push_event(
                    old(ob).event_q@,
                    old(ob).event_q_head,
                    BookEvent::Out { order_id: order_id, reason: OUT_REASON_CANCEL },
                );
                &&& r == Ok::<bool, DlmmError>(true)
                &&& *final(ob) == (OrderBook {
                    bids: final(ob).bids,
                    asks: final(ob).asks,
                    event_q: final(ob).event_q,
                    event_q_head: pushed.1,
                    ..*old(ob)
                })
                &&& final(ob).event_q@ == pushed.0
                &&& (side is Bid ==> final(ob).bids@ == old(ob).bids@.update(bi, l1)
                    && final(ob).asks@ == old(ob).asks@)
                &&& (side is Ask ==> final(ob).asks@ == old(ob).asks@.update(bi, l1)
                    && final(ob).bids@ == old(ob).bids@)
            }
        }),
{
    let n_levels = match side {
        Side::Bid => ob.bids.len(),
        Side::Ask => ob.asks.len(),
    };
    let mut k: usize = ob.event_q.len();
    while k > 0
        invariant
            k <= ob.event_q@.len(),
            *ob == *old(ob),
            n_levels == (if side is Bid {
                ob.bids@.len() as int
            } else {
                ob.asks@.len() as int
            }),
            ob.event_q@.len() > 0,
            spec_find_place(
                ob.event_q@,
                side,
                order_id,
                owner_opt,
                n_levels as int,
                ob.event_q@.len() as int,
            ) == spec_find_place(
                ob.event_q@,
                side,
                order_id,
                owner_opt,
                n_levels as int,
                k as int,
            ),
        decreases k,
    {
        let ghost pre = *ob;
        let matched: bool = match &ob.event_q[k - 1] {
            BookEvent::Place { order_id: oid, side: s, band_idx, owner, qty, .. } => {
                let owner_ok = match owner_opt {
                    Some(o) => o == *owner,
                    None => true,
                };
                *oid == order_id && *s == side && owner_ok && *band_idx >= 0 && (*band_idx
                    as usize) < n_levels
            },
            _ => false,
        };
        if matched {
            let (bi, q) = match &ob.event_q[k - 1] {
                BookEvent::Place { band_idx, qty, .. } => (*band_idx as usize, *qty),
                _ => (0usize, 0u64),
            };
            match side {
                Side::Bid => {
                    let l0 = ob.bids[bi];
                    let l1 = PriceLevel {
                        total_qty: if l0.total_qty >= q {
                            l0.total_qty - q
                        } else {
                            0
                        },
                        ..l0
                    };
                    ob.bids[bi] = l1;
                    proof {
                        assert(ob.bids@ =~= pre.bids@.update(bi as int, l1));
                    }
                },
                Side::Ask => {
                    let l0 = ob.asks[bi];
                    let l1 = PriceLevel {
                        total_qty: if l0.total_qty >= q {
                            l0.total_qty - q
                        } else {
                            0
                        },
                        ..l0
                    };
                    ob.asks[bi] = l1;
                    proof {
                        assert(ob.asks@ =~= pre.asks@.update(bi as int, l1));
                    }
                },
            }
            push_event(ob, BookEvent::Out { order_id, reason: OUT_REASON_CANCEL });
            return Ok(true);
        }
        k = k - 1;
    }
    Ok(false)
}

/// Advance a level's FIFO head over entries while the level is empty, up
/// to `left` steps; reports how many cursors were retired.
pub fn prune_level(level: &mut PriceLevel, _now_slot: u64, left: u16) -> (pruned: u16)
    ensures
        *final(level) == (PriceLevel { head: final(level).head, ..*old(level) }),
        old(level).total_qty > 0 || old(level).head >= old(level).tail || left == 0
            ==> *final(level) == *old(level) && pruned == 0,
        final(level).head >= old(level).head,
        final(level).head <= old(level).tail || final(level).head == old(level).head,
        pruned as int == final(level).head as int - old(level).head as int,
{
    if left == 0 || level.total_qty > 0 || level.head >= level.tail {
        return 0;
    }
    let mut pruned: u16 = 0;
    let mut remaining: u16 = left;
    while remaining > 0 && level.head < level.tail && level.total_qty == 0
        invariant
            *level == (PriceLevel { head: level.head, ..*old(level) }),
            level.head >= old(level).head,
            level.head <= old(level).tail || level.head == old(level).head,
            pruned as int == level.head as int - old(level).head as int,
            remaining as int + pruned as int == left as int,
        decreases remaining,
    {
        level.head = level.head + 1;
        pruned = pruned + 1;
        remaining = remaining - 1;
    }
    pruned
}

/// Cross one unit between the best bid and best ask levels when they
/// overlap, at the ask band's midpoint, recording a paired `Fill`.
pub fn cross_once(ob: &mut OrderBook, pool: &Pool) -> (r: Result<bool, DlmmError>)
    requires
        old(ob).event_q@.len() > 0,
        old(ob).bids@.len() <= pool.bands@.len(),
        old(ob).asks@.len() <= pool.bands@.len(),
    ensures
        r is Ok,
        final(ob).bids@.len() == old(ob).bids@.len(),
        final(ob).asks@.len() == old(ob).asks@.len(),
        final(ob).event_q@.len() == old(ob).event_q@.len(),
        ({
            let bi = spec_highest_nonempty(old(ob).bids@, old(ob).bids@.len() as int);
            let ai = spec_lowest_nonempty(old(ob).asks@, 0);
            if bi < 0 || ai >= old(ob).asks@.len() as int || bi < ai {
                r == Ok::<bool, DlmmError>(false) && *final(ob) == *old(ob)
            } else {
                let px = band_mid(pool.bands@[ai]);
                let b0 = old(ob).bids@[bi];
                let a0 = old(ob).asks@[ai];
                let ev1 = BookEvent::Fill {
                    order_id: 0u64,
                    qty: 1u64,
                    price_1e6: px as u64,
                    side: Side::Bid,
                };
                let ev2 = BookEvent::Fill {
                    order_id: 0u64,
                    qty: 1u64,
                    price_1e6: px as u64,
                    side: Side::Ask,
                };
                let pushed1 = spec_push_event(old(ob).event_q@, old(ob).event_q_head, ev1);
                let pushed2 = spec_push_event(pushed1.0, pushed1.1, ev2);
                &&& r == Ok::<bool, DlmmError>(true)
                &&& *final(ob) == (OrderBook {
                    bids: final(ob).bids,
                    asks: final(ob).asks,
                    event_q: final(ob).event_q,
                    event_q_head: pushed2.1,
                    ..*old(ob)
                })
                &&& final(ob).event_q@ == pushed2.0
                &&& final(ob).bids@ == old(ob).bids@.update(
                    bi,
                    PriceLevel { total_qty: (b0.total_qty - 1) as u64, ..b0 },
                )
                &&& final(ob).asks@ == old(ob).asks@.update(
                    ai,
                    PriceLevel { total_qty: (a0.total_qty - 1) as u64, ..a0 },
                )
            }
        }),
{
    let bid_i = highest_nonempty(&ob.bids);
    let ask_i = lowest_nonempty(&ob.asks);
    let (bi, ai): (usize, usize) = match (bid_i, ask_i) {
        (Some(b), Some(a)) => {
            if b >= a {
                (b, a)
            } else {
                return Ok(false);
            }
        },
        _ => {
            return Ok(false);
        },
    };
    let band = pool.bands[ai];
    let px = mid_price(band.lower_price_1e6, band.upper_price_1e6);
    let ghost pre = *ob;
    let b0 = ob.bids[bi];
    let a0 = ob.asks[ai];
    ob.bids[bi] = PriceLevel { total_qty: b0.total_qty - 1, ..b0 };
    ob.asks[ai] = PriceLevel { total_qty: a0.total_qty - 1, ..a0 };
    proof {
        assert(ob.bids@ =~= pre.bids@.update(bi as int, ob.bids@[bi as int]));
        assert(ob.asks@ =~= pre.asks@.update(ai as int, ob.asks@[ai as int]));
    }
    push_event(ob, BookEvent::Fill { order_id: 0, qty: 1, price_1e6: px, side: Side::Bid });
    push_event(ob, BookEvent::Fill { order_id: 0, qty: 1, price_1e6: px, side: Side::Ask });
    Ok(true)
}

} // verus!
