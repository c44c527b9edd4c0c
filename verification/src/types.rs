//! The typed records of the state machine: pool, bands, positions, order
//! book, metrics, parameters, events, and the well-formedness predicates
//! that every operation preserves.

use vstd::prelude::*;
use crate::math::{mid_price_spec};

verus! {

/// Fixed capacity of the multisig admin array.
pub const MAX_ADMINS: usize = 8;

/// Upper bound on the number of bands a pool may carry.
pub const MAX_BANDS: usize = 64;

/// Fixed capacity of the metrics ring.
pub const METRICS_CAP: usize = 128;

/// Fixed capacity of the book event ring.
pub const EVENT_Q_CAP: usize = 256;

/// Per-level queue bound installed by `init_orderbook`.
pub const DEFAULT_MAX_QUEUE_PER_LEVEL: u16 = 64;

/// Version stamp carried by every event record.
pub const EVENT_VERSION: u8 = 3;

/// Reason code of an `Out` book event produced by a cancellation.
pub const OUT_REASON_CANCEL: u8 = 1;

/// A 32-byte account identity, held as two plain 128-bit halves. The host
/// authenticates identities; the state machine only compares them.
#[derive(Clone, Copy, Debug, PartialEq, Eq, Structural)]
pub struct AccountId {
    pub hi: u128,
    pub lo: u128,
}

impl AccountId {
    /// The all-zero identity, treated as an empty admin slot.
    pub open spec fn is_zero_spec(self) -> bool {
        self.hi == 0 && self.lo == 0
    }

    /// The all-zero identity value.
    pub fn zero() -> (r: AccountId)
        ensures
            r.is_zero_spec(),
    {
        AccountId { hi: 0, lo: 0 }
    }

    /// Whether this is the all-zero identity.
    pub fn is_zero(&self) -> (r: bool)
        ensures
            r == self.is_zero_spec(),
    {
        self.hi == 0 && self.lo == 0
    }
}

/// A token account the pool owns or pays into, reduced to what the state
/// machine reads of it: its mint and its balance.
#[derive(Clone, Copy, Debug, PartialEq, Eq, Structural)]
pub struct TokenAccountState {
    pub mint: AccountId,
    pub amount: u64,
}

/// Side of an order: a bid buys asset B, an ask sells it.
#[derive(Clone, Copy, Debug, PartialEq, Eq, Structural)]
pub enum Side {
    Bid,
    Ask,
}

impl Side {
    /// The side this order hits.
    pub fn opposite(self) -> (r: Side)
        ensures
            self is Bid ==> r is Ask,
            self is Ask ==> r is Bid,
    {
        match self {
            Side::Bid => Side::Ask,
            Side::Ask => Side::Bid,
        }
    }
}

/// Routing policy of `place_order`.
#[derive(Clone, Copy, Debug, PartialEq, Eq, Structural)]
pub enum RouteMode {
    BookFirst,
    DlmmFirst,
}

/// The byte a routing mode is stored as.
pub open spec fn route_mode_u8(m: RouteMode) -> u8 {
    match m {
        RouteMode::BookFirst => 0,
        RouteMode::DlmmFirst => 1,
    }
}

impl RouteMode {
    /// The byte this mode is stored as.
    pub fn to_u8(self) -> (r: u8)
        ensures
            r == route_mode_u8(self),
    {
        match self {
            RouteMode::BookFirst => 0,
            RouteMode::DlmmFirst => 1,
        }
    }

    /// Decode the stored byte: zero is book-first, anything else band-first.
    pub fn from_u8(v: u8) -> (r: RouteMode)
        ensures
            v == 0 ==> r is BookFirst,
            v != 0 ==> r is DlmmFirst,
    {
        if v == 0 {
            RouteMode::BookFirst
        } else {
            RouteMode::DlmmFirst
        }
    }
}

/// Self-trade prevention mode; resolutions other than `NoPrevention` are
/// accepted but currently resolve as `NoPrevention` does.
#[derive(Clone, Copy, Debug, PartialEq, Eq, Structural)]
pub enum StpMode {
    NoPrevention,
    DecrementAndCancel,
    CancelNewest,
    CancelOldest,
}

/// The byte a self-trade-prevention mode is stored as.
pub open spec fn stp_mode_u8(m: StpMode) -> u8 {
    match m {
        StpMode::NoPrevention => 0,
        StpMode::DecrementAndCancel => 1,
        StpMode::CancelNewest => 2,
        StpMode::CancelOldest => 3,
    }
}

impl StpMode {
    /// The byte this mode is stored as.
    pub fn to_u8(self) -> (r: u8)
        ensures
            r == stp_mode_u8(self),
    {
        match self {
            StpMode::NoPrevention => 0,
            StpMode::DecrementAndCancel => 1,
            StpMode::CancelNewest => 2,
            StpMode::CancelOldest => 3,
        }
    }

    /// Decode the stored byte; unknown values behave as `NoPrevention`.
    pub fn from_u8(v: u8) -> (r: StpMode)
        ensures
            v == 1 ==> r is DecrementAndCancel,
            v == 2 ==> r is CancelNewest,
            v == 3 ==> r is CancelOldest,
            !(1 <= v <= 3) ==> r is NoPrevention,
    {
        match v {
            1 => StpMode::DecrementAndCancel,
            2 => StpMode::CancelNewest,
            3 => StpMode::CancelOldest,
            _ => StpMode::NoPrevention,
        }
    }
}

/// Time-in-force: kind 0 is IOC, kind 1 is GTC, anything else expires at
/// `gtt_expiry_slot`.
#[derive(Clone, Copy, Debug, PartialEq, Eq, Structural)]
pub struct TifParam {
    pub kind: u8,
    pub gtt_expiry_slot: u64,
}

impl TifParam {
    /// The expiry slot this time-in-force denotes, given the current slot.
    pub open spec fn as_expiry_spec(self, now: u64) -> u64 {
        if self.kind == 0 {
            now
        } else if self.kind == 1 {
            u64::MAX
        } else {
            self.gtt_expiry_slot
        }
    }

    /// Immediate-or-cancel?
    pub fn is_ioc(&self) -> (r: bool)
        ensures
            r == (self.kind == 0),
    {
        self.kind == 0
    }

    /// The expiry slot this time-in-force denotes, given the current slot.
    pub fn as_expiry(&self, now: u64) -> (r: u64)
        ensures
            r == self.as_expiry_spec(now),
    {
        match self.kind {
            0 => now,
            1 => u64::MAX,
            _ => self.gtt_expiry_slot,
        }
    }
}

/// Pause switches; `None` fields leave the corresponding flag alone.
#[derive(Clone, Copy, Debug, PartialEq, Eq)]
pub struct PauseFlags {
    pub is_paused: Option<bool>,
    pub pause_bands: Option<bool>,
    pub pause_deposits: Option<bool>,
    pub pause_withdraws: Option<bool>,
    pub pause_orderbook: Option<bool>,
}

/// A contiguous price interval with its owned liquidity state.
#[derive(Clone, Copy, Debug, PartialEq, Eq, Structural)]
pub struct Band {
    pub lower_price_1e6: u64,
    pub upper_price_1e6: u64,
    pub weight_bps: u16,
    pub fee_growth_a_1e18: u128,
    pub fee_growth_b_1e18: u128,
    pub reserves_a: u64,
    pub reserves_b: u64,
    pub total_shares: u64,
    pub util_a: u64,
    pub util_b: u64,
    pub is_active: bool,
}

/// A liquidity receipt: one pool, one owner, one band index.
#[derive(Clone, Copy, Debug, PartialEq, Eq)]
pub struct Position {
    pub bump: u8,
    pub pool: AccountId,
    pub owner: AccountId,
    pub band_idx: u8,
    pub shares: u64,
    pub last_fee_growth_a_1e18: u128,
    pub last_fee_growth_b_1e18: u128,
    pub receipt_nonce: u64,
    pub min_unlock_slot: u64,
    pub approved: Option<AccountId>,
}

/// Requested parameter changes; `None` fields are left alone.
#[derive(Clone, Copy, Debug, PartialEq, Eq, Default)]
pub struct SettableParamsV3 {
    pub n_bands: Option<u8>,
    pub base_width_bps: Option<u16>,
    pub min_width_bps: Option<u16>,
    pub max_width_bps: Option<u16>,
    pub width_slope_per_kbps: Option<u16>,
    pub bias_per_kbps: Option<u16>,
    pub decay_per_band_bps: Option<u16>,
    pub alpha_y_bps: Option<u16>,
    pub alpha_spot_bps: Option<u16>,
    pub alpha_twap_bps: Option<u16>,
    pub alpha_vol_bps: Option<u16>,
    pub max_twap_dev_bps: Option<u16>,
    pub fee_base_bps: Option<u16>,
    pub fee_k_per_bps: Option<u16>,
    pub fee_max_bps: Option<u16>,
    pub hyst_center_bps: Option<u16>,
    pub hyst_width_bps: Option<u16>,
    pub hyst_required_n: Option<u8>,
    pub deposit_ratio_min_bps: Option<u16>,
    pub deposit_ratio_max_bps: Option<u16>,
    pub inactive_floor_a: Option<u64>,
    pub inactive_floor_b: Option<u64>,
    pub bounty_rate_microunits: Option<u64>,
    pub bounty_max: Option<u64>,
    pub stale_slots_for_boost: Option<u64>,
    pub bounty_boost_bps: Option<u16>,
    pub min_cu_price: Option<u64>,
    pub max_center_move_bps: Option<u16>,
    pub max_width_change_bps: Option<u16>,
    pub max_weight_shift_bps: Option<u16>,
    pub min_update_interval_slots: Option<u32>,
    pub maker_rebate_max_bps: Option<u16>,
    pub taker_min_bps: Option<u16>,
    pub stp_mode: Option<StpMode>,
    pub route_mode: Option<RouteMode>,
}

/// A queued, timelocked parameter proposal.
#[derive(Clone, Copy, Debug, PartialEq, Eq)]
pub struct GovProposal {
    pub new: SettableParamsV3,
    pub queued_at: u64,
    pub earliest_exec: u64,
    pub deadline: u64,
    pub executed: bool,
}

/// One digest sample in the metrics ring.
#[derive(Clone, Copy, Debug, PartialEq, Eq)]
pub struct MetricItem {
    pub slot: u64,
    pub center_price_1e6: u64,
    pub width_bps: u16,
    pub total_weight_bps: u32,
    pub hash: [u8; 32],
}

/// A fixed-capacity ring of digest samples bound to one pool.
#[derive(Clone, Debug, PartialEq, Eq)]
pub struct MetricsRing {
    pub bump: u8,
    pub pool: AccountId,
    pub capacity: u16,
    pub head: u16,
    pub count: u16,
    pub items: Vec<MetricItem>,
}

/// One price level of the book: the band it sits on, its resting quantity,
/// and the FIFO cursors of its queue.
#[derive(Clone, Copy, Debug, PartialEq, Eq, Structural)]
pub struct PriceLevel {
    pub band_idx: i16,
    pub total_qty: u64,
    pub head: u32,
    pub tail: u32,
}

/// An entry of the book event ring.
#[derive(Clone, Copy, Debug, PartialEq, Eq)]
pub enum BookEvent {
    Fill { order_id: u64, qty: u64, price_1e6: u64, side: Side },
    Out { order_id: u64, reason: u8 },
    Place {
        order_id: u64,
        side: Side,
        band_idx: i16,
        owner: AccountId,
        qty: u64,
        client_id: u64,
        tif_expiry: u64,
        reduce_only: bool,
    },
}

impl Default for BookEvent {
    /// The empty ring slot: an `Out` record with no order and no reason.
    fn default() -> (r: Self)
        ensures
            r == (BookEvent::Out { order_id: 0u64, reason: 0u8 }),
    {
        BookEvent::Out { order_id: 0, reason: 0 }
    }
}

/// The per-pool order book: parallel bid/ask levels indexed by band, a
/// monotone order id, and a fixed-capacity event ring.
#[derive(Clone, Debug, PartialEq, Eq)]
pub struct OrderBook {
    pub bump: u8,
    pub pool: AccountId,
    pub tick_1e6: u64,
    pub best_bid_band: i16,
    pub best_ask_band: i16,
    pub next_order_id: u64,
    pub bids: Vec<PriceLevel>,
    pub asks: Vec<PriceLevel>,
    pub event_q_head: u16,
    pub event_q: Vec<BookEvent>,
    pub max_levels: u16,
    pub max_queue_per_level: u16,
}

/// Initialization parameters of a pool.
#[derive(Clone, Copy, Debug)]
pub struct InitParamsV3 {
    pub admins: [AccountId; 8],
    pub admin_threshold: u8,
    pub risk_admin: AccountId,
    pub ops_admin: AccountId,
    pub fee_admin: AccountId,
    pub updater: AccountId,
    pub oracle_signer: Option<AccountId>,
    pub n_bands: u8,
    pub base_width_bps: u16,
    pub min_width_bps: u16,
    pub max_width_bps: u16,
    pub width_slope_per_kbps: u16,
    pub bias_per_kbps: u16,
    pub decay_per_band_bps: u16,
    pub alpha_y_bps: u16,
    pub alpha_spot_bps: u16,
    pub alpha_twap_bps: u16,
    pub alpha_vol_bps: u16,
    pub max_twap_dev_bps: u16,
    pub fee_base_bps: u16,
    pub fee_k_per_bps: u16,
    pub fee_max_bps: u16,
    pub initial_y_a_bps: u16,
    pub initial_y_b_bps: u16,
    pub initial_spot_price_1e6: u64,
    pub hyst_center_bps: u16,
    pub hyst_width_bps: u16,
    pub hyst_required_n: u8,
    pub deposit_ratio_min_bps: u16,
    pub deposit_ratio_max_bps: u16,
    pub inactive_floor_a: u64,
    pub inactive_floor_b: u64,
    pub bounty_rate_microunits: u64,
    pub bounty_max: u64,
    pub stale_slots_for_boost: u64,
    pub bounty_boost_bps: u16,
    pub min_cu_price: u64,
    pub max_center_move_bps: u16,
    pub max_width_change_bps: u16,
    pub max_weight_shift_bps: u16,
    pub min_update_interval_slots: u32,
    pub maker_rebate_max_bps: u16,
    pub taker_min_bps: u16,
    pub stp_mode: StpMode,
    pub route_mode: RouteMode,
}

/// The root aggregate: one pool per asset pair.
#[derive(Clone, Debug)]
pub struct Pool {
    pub version: u8,
    pub bump: u8,
    pub admin_threshold: u8,
    pub admins: [AccountId; 8],
    pub risk_admin: AccountId,
    pub ops_admin: AccountId,
    pub fee_admin: AccountId,
    pub mint_a: AccountId,
    pub mint_b: AccountId,
    pub vault_a: AccountId,
    pub vault_b: AccountId,
    pub treasury_a: AccountId,
    pub treasury_b: AccountId,
    pub updater: AccountId,
    pub oracle_signer: Option<AccountId>,
    pub base_width_bps: u16,
    pub min_width_bps: u16,
    pub max_width_bps: u16,
    pub width_slope_per_kbps: u16,
    pub bias_per_kbps: u16,
    pub decay_per_band_bps: u16,
    pub n_bands: u8,
    pub y_a_bps: u16,
    pub y_b_bps: u16,
    pub spot_price_1e6: u64,
    pub ema_y_a_bps: u16,
    pub ema_y_b_bps: u16,
    pub ema_spot_1e6: u64,
    pub alpha_y_bps: u16,
    pub alpha_spot_bps: u16,
    pub alpha_twap_bps: u16,
    pub alpha_vol_bps: u16,
    pub twap_center_1e6: u64,
    pub max_twap_dev_bps: u16,
    pub vol_ema_bps: u16,
    pub fee_base_bps: u16,
    pub fee_k_per_bps: u16,
    pub fee_max_bps: u16,
    pub fee_current_bps: u16,
    pub maker_rebate_max_bps: u16,
    pub taker_min_bps: u16,
    pub max_center_move_bps: u16,
    pub max_width_change_bps: u16,
    pub max_weight_shift_bps: u16,
    pub min_update_interval_slots: u32,
    pub last_update_slot: u64,
    pub hyst_center_bps: u16,
    pub hyst_width_bps: u16,
    pub hyst_required_n: u8,
    pub hyst_ctr_center: u8,
    pub hyst_ctr_width: u8,
    pub deposit_ratio_min_bps: u16,
    pub deposit_ratio_max_bps: u16,
    pub inactive_floor_a: u64,
    pub inactive_floor_b: u64,
    pub bounty_rate_microunits: u64,
    pub bounty_max: u64,
    pub stale_slots_for_boost: u64,
    pub bounty_boost_bps: u16,
    pub needs_update: bool,
    pub min_cu_price: u64,
    pub last_width_bps: u16,
    pub last_center_price_1e6: u64,
    pub total_weight_bps: u32,
    pub is_paused: bool,
    pub pause_bands: bool,
    pub pause_deposits: bool,
    pub pause_withdraws: bool,
    pub pause_orderbook: bool,
    pub post_only_until_slot: u64,
    pub g_pending: Option<GovProposal>,
    pub proposed_mint_a: Option<AccountId>,
    pub proposed_mint_b: Option<AccountId>,
    pub stp_mode: u8,
    pub route_mode: u8,
    pub best_bid_1e6: u64,
    pub best_ask_1e6: u64,
    pub book_depth_bps: u16,
    pub bands: Vec<Band>,
}

/* ------------------------------- Events --------------------------------- */

/// Emitted once when a pool is created.
#[derive(Clone, Copy, Debug, PartialEq, Eq)]
pub struct PoolInitializedV {
    pub event_version: u8,
    pub pool: AccountId,
    pub n_bands: u8,
    pub center_price_1e6: u64,
    pub width_bps: u16,
}

/// Emitted when a pool is brought up to the current version.
#[derive(Clone, Copy, Debug, PartialEq, Eq)]
pub struct PoolMigratedV {
    pub event_version: u8,
    pub pool: AccountId,
    pub from: u8,
    pub to: u8,
    pub migrated_at_slot: u64,
}

/// Emitted after a successful update with the committed band geometry.
#[derive(Clone, Copy, Debug, PartialEq, Eq)]
pub struct BandsDigestUpdatedV {
    pub event_version: u8,
    pub pool: AccountId,
    pub width_bps: u16,
    pub center_price_1e6: u64,
    pub total_weight_bps: u32,
    pub hash: [u8; 32],
    pub slot: u64,
    pub fee_current_bps: u16,
    pub vol_ema_bps: u16,
}

/// Digest of a previewed geometry that was not committed.
#[derive(Clone, Copy, Debug, PartialEq, Eq)]
pub struct SimulatedBandsDigestV {
    pub event_version: u8,
    pub pool: AccountId,
    pub width_bps: u16,
    pub center_price_1e6: u64,
    pub hash: [u8; 32],
}

/// Emitted when liquidity enters a band.
#[derive(Clone, Copy, Debug, PartialEq, Eq)]
pub struct LiquidityAddedV {
    pub event_version: u8,
    pub pool: AccountId,
    pub owner: AccountId,
    pub band_idx: u8,
    pub shares: u64,
}

/// Emitted when liquidity leaves a band.
#[derive(Clone, Copy, Debug, PartialEq, Eq)]
pub struct LiquidityRemovedV {
    pub event_version: u8,
    pub pool: AccountId,
    pub owner: AccountId,
    pub band_idx: u8,
    pub shares_burned: u64,
    pub out_a: u64,
    pub out_b: u64,
}

/// Emitted when a position collects its accrued fees.
#[derive(Clone, Copy, Debug, PartialEq, Eq)]
pub struct FeesCollectedV {
    pub event_version: u8,
    pub pool: AccountId,
    pub owner: AccountId,
    pub band_idx: u8,
    pub out_a: u64,
    pub out_b: u64,
}

/// Emitted when an order rests in the book.
#[derive(Clone, Copy, Debug, PartialEq, Eq)]
pub struct OrderPlacedV3 {
    pub event_version: u8,
    pub pool: AccountId,
    pub order_id: u64,
    pub owner: AccountId,
    pub side: Side,
    pub price_1e6: u64,
    pub qty: u64,
    pub band_idx: i16,
}

/// Emitted for each level a taker consumes from the book.
#[derive(Clone, Copy, Debug, PartialEq, Eq)]
pub struct OrderFilledV3 {
    pub event_version: u8,
    pub pool: AccountId,
    pub taker: AccountId,
    pub side: Side,
    pub qty: u64,
    pub price_1e6: u64,
    pub taker_fee_bps: u16,
    pub maker_rebate_bps: u16,
}

/// Emitted when a resting order is cancelled.
#[derive(Clone, Copy, Debug, PartialEq, Eq)]
pub struct OrderCanceledV3 {
    pub event_version: u8,
    pub pool: AccountId,
    pub order_id: u64,
    pub owner: AccountId,
    pub side: Side,
}

/// Emitted for each band a band-swap touches.
#[derive(Clone, Copy, Debug, PartialEq, Eq)]
pub struct SwapFilledV {
    pub event_version: u8,
    pub pool: AccountId,
    pub side: Side,
    pub qty: u64,
    pub price_1e6: u64,
    pub band_idx: u16,
    pub fee_bps: u16,
}

/// One row of a depth snapshot.
#[derive(Clone, Copy, Debug, PartialEq, Eq)]
pub struct DepthItem {
    pub price_1e6: u64,
    pub bid_qty: u64,
    pub ask_qty: u64,
    pub band_idx: u16,
}

/// A view of the book's resting depth around the center.
#[derive(Clone, Debug, PartialEq, Eq)]
pub struct DepthSnapshotV {
    pub event_version: u8,
    pub pool: AccountId,
    pub items: Vec<DepthItem>,
}

/// Emitted when a parameter proposal is queued.
#[derive(Clone, Copy, Debug, PartialEq, Eq)]
pub struct ParamsProposedV {
    pub event_version: u8,
    pub pool: AccountId,
    pub queued_at: u64,
}

/// Emitted when a queued proposal is executed.
#[derive(Clone, Copy, Debug, PartialEq, Eq)]
pub struct ParamsExecutedV {
    pub event_version: u8,
    pub pool: AccountId,
    pub executed_at: u64,
}

/// Emitted when a vault is drained to its treasury under pause.
#[derive(Clone, Copy, Debug, PartialEq, Eq)]
pub struct EmergencyDrainV {
    pub event_version: u8,
    pub pool: AccountId,
    pub amount: u64,
}

/* --------------------------- Well-formedness ----------------------------- */

/// Sum of the band weights, in basis points.
pub open spec fn weights_sum(bands: Seq<Band>) -> int
    decreases bands.len(),
{
    if bands.len() == 0 {
        0
    } else {
        weights_sum(bands.drop_last()) + bands.last().weight_bps
    }
}

/// Sum of the A-side reserves over the bands.
pub open spec fn reserves_a_sum(bands: Seq<Band>) -> int
    decreases bands.len(),
{
    if bands.len() == 0 {
        0
    } else {
        reserves_a_sum(bands.drop_last()) + bands.last().reserves_a
    }
}

/// Sum of the B-side reserves over the bands.
pub open spec fn reserves_b_sum(bands: Seq<Band>) -> int
    decreases bands.len(),
{
    if bands.len() == 0 {
        0
    } else {
        reserves_b_sum(bands.drop_last()) + bands.last().reserves_b
    }
}

/// Every interval is proper and adjacent intervals do not overlap.
pub open spec fn bands_monotone(bands: Seq<Band>) -> bool {
    &&& forall|i: int|
        0 <= i < bands.len() ==> (#[trigger] bands[i]).lower_price_1e6
            < bands[i].upper_price_1e6
    &&& forall|i: int|
        0 < i < bands.len() ==> (#[trigger] bands[i]).lower_price_1e6
            >= bands[i - 1].upper_price_1e6
}

/// Two band vectors agree on their price intervals.
pub open spec fn same_geometry(b1: Seq<Band>, b2: Seq<Band>) -> bool {
    &&& b1.len() == b2.len()
    &&& forall|i: int|
        0 <= i < b1.len() ==> (#[trigger] b1[i]).lower_price_1e6 == b2[i].lower_price_1e6
            && b1[i].upper_price_1e6 == b2[i].upper_price_1e6
}

/// `b2` carries the same liquidity state as `b1`: reserves, shares, fee
/// growth, utilization tallies and activity flag.
pub open spec fn same_band_state(b1: Band, b2: Band) -> bool {
    &&& b1.reserves_a == b2.reserves_a
    &&& b1.reserves_b == b2.reserves_b
    &&& b1.total_shares == b2.total_shares
    &&& b1.fee_growth_a_1e18 == b2.fee_growth_a_1e18
    &&& b1.fee_growth_b_1e18 == b2.fee_growth_b_1e18
    &&& b1.util_a == b2.util_a
    &&& b1.util_b == b2.util_b
    &&& b1.is_active == b2.is_active
}

/// Midpoint of a band's interval.
pub open spec fn band_mid(b: Band) -> int {
    mid_price_spec(b.lower_price_1e6, b.upper_price_1e6)
}

/// The band vector invariant: the declared count matches, the intervals
/// are monotone, the weights sum to exactly 10000 bps and the recorded
/// width sits inside its configured bounds.
pub open spec fn bands_wf(p: Pool) -> bool {
    &&& 1 <= p.n_bands as int <= MAX_BANDS as int
    &&& p.bands@.len() == p.n_bands as int
    &&& bands_monotone(p.bands@)
    &&& weights_sum(p.bands@) == 10000
    &&& p.min_width_bps <= p.last_width_bps <= p.max_width_bps
}

/// The authorization invariant: a positive threshold covered by the
/// non-zero admin slots.
pub open spec fn admins_wf(p: Pool) -> bool {
    &&& p.admin_threshold >= 1
    &&& nonzero_admin_count(p.admins@) >= p.admin_threshold as int
}

/// What every operation preserves of a pool.
pub open spec fn pool_wf(p: Pool) -> bool {
    &&& bands_wf(p)
    &&& admins_wf(p)
}

/* --------------------------- Authorization ------------------------------ */

/// `who` occupies one of the admin slots.
pub open spec fn is_admin_spec(admins: Seq<AccountId>, who: AccountId) -> bool {
    exists|i: int| 0 <= i < admins.len() && admins[i] == who
}

/// Number of non-zero admin slots.
pub open spec fn nonzero_admin_count(admins: Seq<AccountId>) -> int
    decreases admins.len(),
{
    if admins.len() == 0 {
        0
    } else {
        nonzero_admin_count(admins.drop_last()) + if admins.last().is_zero_spec() {
            0int
        } else {
            1int
        }
    }
}

/// Number of presented signers that occupy an admin slot; a signer listed
/// twice counts twice.
pub open spec fn quorum_count(admins: Seq<AccountId>, signers: Seq<AccountId>) -> int
    decreases signers.len(),
{
    if signers.len() == 0 {
        0
    } else {
        quorum_count(admins, signers.drop_last()) + if is_admin_spec(
            admins,
            signers.last(),
        ) {
            1int
        } else {
            0int
        }
    }
}

/// Whether `who` occupies one of the admin slots.
pub fn is_admin(admins: &[AccountId; 8], who: &AccountId) -> (r: bool)
    ensures
        r == is_admin_spec(admins@, *who),
{
    let mut i: usize = 0;
    while i < 8
        invariant
            i <= 8,
            admins@.len() == 8,
            forall|j: int| 0 <= j < i ==> admins@[j] != *who,
        decreases 8 - i,
    {
        if admins[i].hi == who.hi && admins[i].lo == who.lo {
            assert(admins@[i as int] == *who);
            return true;
        }
        i += 1;
    }
    false
}

/// Number of non-zero admin slots.
pub fn count_nonzero_admins(admins: &[AccountId; 8]) -> (r: usize)
    ensures
        r as int == nonzero_admin_count(admins@),
{
    let mut i: usize = 0;
    let mut n: usize = 0;
    while i < 8
        invariant
            i <= 8,
            n <= i,
            admins@.len() == 8,
            n as int == nonzero_admin_count(admins@.take(i as int)),
        decreases 8 - i,
    {
        proof {
            assert(admins@.take(i + 1).drop_last() =~= admins@.take(i as int));
            assert(admins@.take(i + 1).last() == admins@[i as int]);
        }
        if !admins[i].is_zero() {
            n += 1;
        }
        i += 1;
    }
    proof {
        assert(admins@.take(8) =~= admins@);
    }
    n
}

/// Whether the presented signer identities reach the quorum threshold.
pub fn is_quorum(admins: &[AccountId; 8], threshold: u8, signers: &Vec<AccountId>) -> (r: bool)
    ensures
        r == (quorum_count(admins@, signers@) >= threshold as int),
{
    let mut i: usize = 0;
    let mut found: usize = 0;
    while i < signers.len()
        invariant
            i <= signers@.len(),
            found <= i,
            admins@.len() == 8,
            found as int == quorum_count(admins@, signers@.take(i as int)),
        decreases signers@.len() - i,
    {
        proof {
            assert(signers@.take(i + 1).drop_last() =~= signers@.take(i as int));
            assert(signers@.take(i + 1).last() == signers@[i as int]);
        }
        if is_admin(admins, &signers[i]) {
            found += 1;
        }
        i += 1;
    }
    proof {
        assert(signers@.take(signers@.len() as int) =~= signers@);
    }
    found >= threshold as usize
}

} // verus!
