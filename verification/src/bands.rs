//! The band engine: computes center and width from the filtered yields and
//! spot, lays bands out symmetrically, assigns decayed and yield-tilted
//! weights, normalizes them to exactly 10000 bps, and enforces per-update
//! circuit breakers.

use vstd::prelude::*;
use vstd::arithmetic::div_mod::*;
use vstd::arithmetic::mul::*;
use crate::errors::DlmmError;
use crate::math::{apply_bps_i, apply_bps_spec, apply_bps_fits, bps_adj, lemma_mul_le_cap};
use crate::types::{Band, Pool, bands_monotone, same_band_state, weights_sum};

verus! {

/// The slice of pool state that the band computation reads. Operations
/// that must stay side-effect free on failure compute over a copy of
/// these fields and commit only on success.
#[derive(Clone, Copy, Debug)]
pub struct BandParams {
    pub n_bands: u8,
    pub base_width_bps: u16,
    pub min_width_bps: u16,
    pub max_width_bps: u16,
    pub width_slope_per_kbps: u16,
    pub bias_per_kbps: u16,
    pub decay_per_band_bps: u16,
    pub ema_y_a_bps: u16,
    pub ema_y_b_bps: u16,
    pub ema_spot_1e6: u64,
    pub max_center_move_bps: u16,
    pub max_width_change_bps: u16,
    pub max_weight_shift_bps: u16,
    pub last_width_bps: u16,
    pub last_center_price_1e6: u64,
}

/// The band-relevant fields of a pool.
pub open spec fn params_of(p: Pool) -> BandParams {
    BandParams {
        n_bands: p.n_bands,
        base_width_bps: p.base_width_bps,
        min_width_bps: p.min_width_bps,
        max_width_bps: p.max_width_bps,
        width_slope_per_kbps: p.width_slope_per_kbps,
        bias_per_kbps: p.bias_per_kbps,
        decay_per_band_bps: p.decay_per_band_bps,
        ema_y_a_bps: p.ema_y_a_bps,
        ema_y_b_bps: p.ema_y_b_bps,
        ema_spot_1e6: p.ema_spot_1e6,
        max_center_move_bps: p.max_center_move_bps,
        max_width_change_bps: p.max_width_change_bps,
        max_weight_shift_bps: p.max_weight_shift_bps,
        last_width_bps: p.last_width_bps,
        last_center_price_1e6: p.last_center_price_1e6,
    }
}

impl Pool {
    /// Extract the band-relevant fields.
    pub fn band_params(&self) -> (r: BandParams)
        ensures
            r == params_of(*self),
    {
        BandParams {
            n_bands: self.n_bands,
            base_width_bps: self.base_width_bps,
            min_width_bps: self.min_width_bps,
            max_width_bps: self.max_width_bps,
            width_slope_per_kbps: self.width_slope_per_kbps,
            bias_per_kbps: self.bias_per_kbps,
            decay_per_band_bps: self.decay_per_band_bps,
            ema_y_a_bps: self.ema_y_a_bps,
            ema_y_b_bps: self.ema_y_b_bps,
            ema_spot_1e6: self.ema_spot_1e6,
            max_center_move_bps: self.max_center_move_bps,
            max_width_change_bps: self.max_width_change_bps,
            max_weight_shift_bps: self.max_weight_shift_bps,
            last_width_bps: self.last_width_bps,
            last_center_price_1e6: self.last_center_price_1e6,
        }
    }
}

/* ------------------------------ Preview ---------------------------------- */

/// Candidate width: the base width shrunk by the yield slope, clamped into
/// the configured bounds.
pub open spec fn spec_preview_width(bp: BandParams) -> int {
    let max_y = if bp.ema_y_a_bps >= bp.ema_y_b_bps {
        bp.ema_y_a_bps as int
    } else {
        bp.ema_y_b_bps as int
    };
    let shrink = (bp.width_slope_per_kbps as int) * (max_y / 1000);
    let w = bp.base_width_bps - shrink;
    if w < bp.min_width_bps {
        bp.min_width_bps as int
    } else if w > bp.max_width_bps {
        bp.max_width_bps as int
    } else {
        w
    }
}

/// Signed yield tilt in basis points: the bias per thousand bps of yield
/// difference, carrying the sign of that difference.
pub open spec fn spec_tilt(bp: BandParams) -> int {
    let diff = bp.ema_y_a_bps - bp.ema_y_b_bps;
    let mag_kbps = (if diff >= 0 { diff } else { -diff }) / 1000;
    let t = (bp.bias_per_kbps as int) * mag_kbps;
    if diff >= 0 { t } else { -t }
}

/// Candidate center: the spot EMA tilted by the yield difference.
pub open spec fn spec_preview_center(bp: BandParams) -> int {
    apply_bps_spec(bp.ema_spot_1e6, spec_tilt(bp))
}

/// A bps adjustment of at most ten million in magnitude always fits the
/// extended domain of [`apply_bps_i`].
proof fn lemma_apply_bps_small_fits(value: u64, bps: int)
    requires
        -10_000_000 <= bps <= 10_000_000,
    ensures
        apply_bps_fits(value, bps),
{
    assert((value as int) * bps_adj(bps) <= i128::MAX) by (nonlinear_arith)
        requires
            0 <= value as int <= 0xffff_ffff_ffff_ffff,
            0 <= bps_adj(bps) <= 10_010_000,
    ;
}

/// Compute the candidate `(center, width)` from the filter state without
/// committing anything. Never fails: the tilt is small enough that the
/// center scaling always fits.
pub fn preview_center_width(bp: &BandParams) -> (r: Result<(u64, u16), DlmmError>)
    requires
        bp.min_width_bps <= bp.max_width_bps,
    ensures
        r is Ok,
        r->Ok_0.0 == spec_preview_center(*bp),
        r->Ok_0.1 == spec_preview_width(*bp),
        bp.min_width_bps <= r->Ok_0.1 <= bp.max_width_bps,
{
    let max_y: u32 = if bp.ema_y_a_bps >= bp.ema_y_b_bps {
        bp.ema_y_a_bps as u32
    } else {
        bp.ema_y_b_bps as u32
    };
    let shrink_units: u32 = max_y / 1000;
    proof {
        lemma_fundamental_div_mod(max_y as int, 1000);
    }
    assert(shrink_units <= 65);
    assert((bp.width_slope_per_kbps as int) * (shrink_units as int) <= 0xffff_ffff)
        by (nonlinear_arith)
        requires
            0 <= bp.width_slope_per_kbps as int <= 0xffff,
            0 <= shrink_units as int <= 65,
    ;
    let shrink: u32 = (bp.width_slope_per_kbps as u32) * shrink_units;
    let base: u32 = bp.base_width_bps as u32;
    let width: u16 = if shrink >= base {
        bp.min_width_bps
    } else {
        let d: u32 = base - shrink;
        if d < bp.min_width_bps as u32 {
            bp.min_width_bps
        } else if d > bp.max_width_bps as u32 {
            bp.max_width_bps
        } else {
            d as u16
        }
    };

    let a_leads: bool = bp.ema_y_a_bps >= bp.ema_y_b_bps;
    let dmag: u32 = if a_leads {
        (bp.ema_y_a_bps - bp.ema_y_b_bps) as u32
    } else {
        (bp.ema_y_b_bps - bp.ema_y_a_bps) as u32
    };
    let mag: u32 = dmag / 1000;
    proof {
        lemma_fundamental_div_mod(dmag as int, 1000);
    }
    assert(mag <= 65);
    assert((bp.bias_per_kbps as int) * (mag as int) <= 0xffff_ffff) by (nonlinear_arith)
        requires
            0 <= bp.bias_per_kbps as int <= 0xffff,
            0 <= mag as int <= 65,
    ;
    assert((bp.bias_per_kbps as int) * (mag as int) <= 4_260_000) by (nonlinear_arith)
        requires
            0 <= bp.bias_per_kbps as int <= 0xffff,
            0 <= mag as int <= 65,
    ;
    let tilt_mag: u32 = (bp.bias_per_kbps as u32) * mag;
    let signed_tilt: i64 = if a_leads {
        tilt_mag as i64
    } else {
        -(tilt_mag as i64)
    };
    assert(-10_000_000 <= signed_tilt as int <= 10_000_000);
    proof {
        lemma_apply_bps_small_fits(bp.ema_spot_1e6, signed_tilt as int);
    }
    let center: u64 = apply_bps_i(bp.ema_spot_1e6, signed_tilt)?;
    Ok((center, width))
}

/* ---------------------------- Circuit breakers --------------------------- */

/// Center after the per-update circuit breaker: clamped into the corridor
/// `[prev * (1 - move), prev * (1 + move)]` around the previous center,
/// when a previous center exists.
pub open spec fn spec_cb_center(bp: BandParams, c: int) -> int {
    if bp.last_center_price_1e6 > 0 {
        let lo = apply_bps_spec(bp.last_center_price_1e6, -(bp.max_center_move_bps as int));
        let hi = apply_bps_spec(bp.last_center_price_1e6, bp.max_center_move_bps as int);
        if c < lo {
            lo
        } else if c > hi {
            hi
        } else {
            c
        }
    } else {
        c
    }
}

/// Width after the per-update circuit breaker: snapped to the boundary of
/// the allowed change when the jump is too large.
pub open spec fn spec_cb_width(bp: BandParams, w: int) -> int {
    if bp.last_width_bps > 0 {
        let prev = bp.last_width_bps as int;
        let delta = if w >= prev { w - prev } else { prev - w };
        if delta > bp.max_width_change_bps {
            if w > prev { prev + bp.max_width_change_bps } else { prev - bp.max_width_change_bps }
        } else {
            w
        }
    } else {
        w
    }
}

/// The width the computation commits.
pub open spec fn spec_commit_width(bp: BandParams, enforce_cb: bool) -> int {
    if enforce_cb { spec_cb_width(bp, spec_preview_width(bp)) } else { spec_preview_width(bp) }
}

/// The center the computation commits.
pub open spec fn spec_commit_center(bp: BandParams, enforce_cb: bool) -> int {
    if enforce_cb { spec_cb_center(bp, spec_preview_center(bp)) } else { spec_preview_center(bp) }
}

/* ------------------------------ Geometry --------------------------------- */

/// Index of the middle band.
pub open spec fn spec_mid(n: int) -> int {
    (n - 1) / 2
}

/// Lower bound of band `i`: the center scaled by `(i - mid) * width` bps.
pub open spec fn spec_band_lower(bp: BandParams, enforce_cb: bool, i: int) -> int {
    let w = spec_commit_width(bp, enforce_cb);
    let c = spec_commit_center(bp, enforce_cb);
    apply_bps_spec(c as u64, (i - spec_mid(bp.n_bands as int)) * w)
}

/// Upper bound of band `i`: the center scaled by `(i - mid + 1) * width`.
pub open spec fn spec_band_upper(bp: BandParams, enforce_cb: bool, i: int) -> int {
    let w = spec_commit_width(bp, enforce_cb);
    let c = spec_commit_center(bp, enforce_cb);
    apply_bps_spec(c as u64, (i - spec_mid(bp.n_bands as int) + 1) * w)
}

/* ------------------------------- Weights --------------------------------- */

/// Clamp into `[100, 10000]`, the raw weight domain.
pub open spec fn clamp_raw(x: int) -> int {
    if x < 100 { 100 } else if x > 10000 { 10000 } else { x }
}

/// Clamp into `[1, 10000]`, the normalized weight domain.
pub open spec fn clamp_weight(x: int) -> int {
    if x < 1 { 1 } else if x > 10000 { 10000 } else { x }
}

/// Raw weight of band `i`: an equal share of 10000 decayed by the distance
/// from the middle band, plus a capped tilt bonus on the side that the
/// yield difference favors.
pub open spec fn spec_raw_weight(bp: BandParams, i: int) -> int {
    let n = bp.n_bands as int;
    let idx = i - spec_mid(n);
    let absidx = if idx >= 0 { idx } else { -idx };
    let base = clamp_raw(10000int / n - (bp.decay_per_band_bps as int) * absidx);
    let diff = bp.ema_y_a_bps - bp.ema_y_b_bps;
    let bonus_each = if bp.bias_per_kbps as int <= 200 { bp.bias_per_kbps as int } else { 200 };
    let bonus = if (diff >= 0 && idx > 0) || (diff < 0 && idx < 0) { bonus_each } else { 0 };
    clamp_raw(base + bonus)
}

/// Sum of the first `k` raw weights.
pub open spec fn raw_prefix(bp: BandParams, k: int) -> int
    decreases k,
{
    if k <= 0 { 0 } else { raw_prefix(bp, k - 1) + spec_raw_weight(bp, k - 1) }
}

/// The normalization denominator: the raw weight total, floored at one.
pub open spec fn spec_total_raw(bp: BandParams) -> int {
    let t = raw_prefix(bp, bp.n_bands as int);
    if t >= 1 { t } else { 1 }
}

/// Normalized weight of band `i` before the rounding closure: the raw
/// weight scaled to a share of 10000, clamped around the previous weight
/// when circuit breakers are on, and clamped into `[1, 10000]`.
pub open spec fn spec_norm_weight(bp: BandParams, old: Seq<Band>, enforce_cb: bool, i: int) -> int {
    let w_prop = spec_raw_weight(bp, i) * 10000 / spec_total_raw(bp);
    let w1 = if enforce_cb && i < old.len() {
        let prev = old[i].weight_bps as int;
        let lo = prev - bp.max_weight_shift_bps;
        let hi = prev + bp.max_weight_shift_bps;
        if w_prop < lo {
            lo
        } else if w_prop > hi {
            hi
        } else {
            w_prop
        }
    } else {
        w_prop
    };
    clamp_weight(w1)
}

/// Sum of the first `k` normalized weights.
pub open spec fn norm_prefix(bp: BandParams, old: Seq<Band>, enforce_cb: bool, k: int) -> int
    decreases k,
{
    if k <= 0 {
        0
    } else {
        norm_prefix(bp, old, enforce_cb, k - 1) + spec_norm_weight(bp, old, enforce_cb, k - 1)
    }
}

/// Weight of band `i` after the rounding closure: the last band absorbs
/// the residual that integer division left, clamped into `[1, 10000]`.
pub open spec fn spec_final_weight(bp: BandParams, old: Seq<Band>, enforce_cb: bool, i: int) -> int {
    let n = bp.n_bands as int;
    let s = norm_prefix(bp, old, enforce_cb, n);
    if i == n - 1 && s != 10000 {
        clamp_weight(spec_norm_weight(bp, old, enforce_cb, i) + 10000 - s)
    } else {
        spec_norm_weight(bp, old, enforce_cb, i)
    }
}

/// Raw weights stay inside `[100, 10000]`.
proof fn lemma_raw_weight_bounds(bp: BandParams, i: int)
    ensures
        100 <= spec_raw_weight(bp, i) <= 10000,
{
}

/// Prefix sums of raw weights grow between 100 and 10000 per element.
proof fn lemma_raw_prefix_bounds(bp: BandParams, k: int)
    requires
        k >= 0,
    ensures
        100 * k <= raw_prefix(bp, k) <= 10000 * k,
    decreases k,
{
    if k > 0 {
        lemma_raw_prefix_bounds(bp, k - 1);
        lemma_raw_weight_bounds(bp, k - 1);
    }
}

/// Raw prefix sums are monotone in their length.
proof fn lemma_raw_prefix_mono(bp: BandParams, k1: int, k2: int)
    requires
        0 <= k1 <= k2,
    ensures
        raw_prefix(bp, k1) <= raw_prefix(bp, k2),
    decreases k2,
{
    if k2 > k1 {
        lemma_raw_prefix_mono(bp, k1, k2 - 1);
        lemma_raw_weight_bounds(bp, k2 - 1);
    }
}

/// Without circuit breakers no clamp fires: the normalized weight is the
/// plain scaled share, and it lies in `[1, 10000]`.
proof fn lemma_norm_weight_nocb(bp: BandParams, old: Seq<Band>, i: int)
    requires
        1 <= bp.n_bands as int <= 64,
        0 <= i < bp.n_bands as int,
    ensures
        spec_norm_weight(bp, old, false, i) == spec_raw_weight(bp, i) * 10000 / spec_total_raw(bp),
        1 <= spec_norm_weight(bp, old, false, i) <= 10000,
{
    let n = bp.n_bands as int;
    let s = spec_total_raw(bp);
    let raw = spec_raw_weight(bp, i);
    lemma_raw_prefix_bounds(bp, n);
    lemma_raw_weight_bounds(bp, i);
    assert(100 <= s <= 640000);
    // raw * 10000 >= s, so the quotient is at least 1
    assert(raw * 10000 >= 1000000) by (nonlinear_arith)
        requires
            raw >= 100,
    ;
    assert(s <= raw * 10000);
    lemma_div_is_ordered(s, raw * 10000, s);
    lemma_div_by_self(s);
    assert(raw * 10000 / s >= 1);
    // raw <= total, so the quotient is at most 10000
    lemma_raw_prefix_mono(bp, i + 1, n);
    lemma_raw_prefix_bounds(bp, i);
    assert(raw <= raw_prefix(bp, i + 1));
    assert(raw <= s);
    assert(raw * 10000 <= s * 10000) by (nonlinear_arith)
        requires
            raw <= s,
    ;
    lemma_div_is_ordered(raw * 10000, s * 10000, s);
    lemma_div_multiples_vanish(10000, s);
    assert(s * 10000 == 10000 * s) by {
        lemma_mul_is_commutative(s, 10000);
    }
    assert(raw * 10000 / s <= 10000);
}

/// Without circuit breakers the normalized prefix sums satisfy
/// `sum * total <= prefix_raw * 10000`.
proof fn lemma_norm_prefix_bound_nocb(bp: BandParams, old: Seq<Band>, k: int)
    requires
        1 <= bp.n_bands as int <= 64,
        0 <= k <= bp.n_bands as int,
    ensures
        norm_prefix(bp, old, false, k) * spec_total_raw(bp) <= raw_prefix(bp, k) * 10000,
        norm_prefix(bp, old, false, k) >= k,
    decreases k,
{
    let s = spec_total_raw(bp);
    lemma_raw_prefix_bounds(bp, bp.n_bands as int);
    assert(100 <= s <= 640000);
    if k == 0 {
        assert(0 * s == 0) by (nonlinear_arith);
    } else {
        lemma_norm_prefix_bound_nocb(bp, old, k - 1);
        lemma_norm_weight_nocb(bp, old, k - 1);
        lemma_raw_weight_bounds(bp, k - 1);
        let w = spec_norm_weight(bp, old, false, k - 1);
        let raw = spec_raw_weight(bp, k - 1);
        assert(w == raw * 10000 / s);
        assert(raw * 10000 >= 0) by (nonlinear_arith)
            requires
                raw >= 100,
        ;
        assert(w * s <= raw * 10000) by {
            lemma_fundamental_div_mod(raw * 10000, s);
            lemma_mul_le_cap(w, s, raw * 10000);
        }
        assert((norm_prefix(bp, old, false, k - 1) + w) * s == norm_prefix(bp, old, false, k - 1) * s
            + w * s) by {
            lemma_mul_is_distributive_add_other_way(s, norm_prefix(bp, old, false, k - 1), w);
        }
        assert((raw_prefix(bp, k - 1) + raw) * 10000 == raw_prefix(bp, k - 1) * 10000 + raw
            * 10000) by {
            lemma_mul_is_distributive_add_other_way(10000, raw_prefix(bp, k - 1), raw);
        }
    }
}

/// Without circuit breakers the normalized weights sum to at most 10000.
proof fn lemma_norm_sum_le_nocb(bp: BandParams, old: Seq<Band>)
    requires
        1 <= bp.n_bands as int <= 64,
    ensures
        bp.n_bands as int <= norm_prefix(bp, old, false, bp.n_bands as int) <= 10000,
{
    let n = bp.n_bands as int;
    let s = spec_total_raw(bp);
    lemma_norm_prefix_bound_nocb(bp, old, n);
    lemma_raw_prefix_bounds(bp, n);
    assert(raw_prefix(bp, n) == s);
    let sum = norm_prefix(bp, old, false, n);
    assert(sum * s <= s * 10000) by {
        lemma_mul_is_commutative(s, 10000);
    }
    assert(sum <= 10000) by (nonlinear_arith)
        requires
            sum * s <= s * 10000,
            s >= 1,
    ;
}

/// Normalized weights lie in `[1, 10000]` and prefix sums are monotone.
proof fn lemma_norm_prefix_facts(bp: BandParams, old: Seq<Band>, enforce_cb: bool, k: int)
    requires
        k >= 0,
    ensures
        norm_prefix(bp, old, enforce_cb, k) >= k,
        k >= 1 ==> spec_norm_weight(bp, old, enforce_cb, k - 1) <= norm_prefix(
            bp,
            old,
            enforce_cb,
            k,
        ),
    decreases k,
{
    if k > 0 {
        lemma_norm_prefix_facts(bp, old, enforce_cb, k - 1);
    }
}

/* ------------------------------ Computation ------------------------------ */

/// One band of the computed vector matches its specification apart from
/// its weight: its interval and its carried liquidity state.
pub open spec fn band_built(
    bp: BandParams,
    old: Seq<Band>,
    enforce_cb: bool,
    weights_only: bool,
    i: int,
    b: Band,
) -> bool {
    &&& if weights_only {
        b.lower_price_1e6 == old[i].lower_price_1e6 && b.upper_price_1e6 == old[i].upper_price_1e6
    } else {
        b.lower_price_1e6 == spec_band_lower(bp, enforce_cb, i) && b.upper_price_1e6
            == spec_band_upper(bp, enforce_cb, i)
    }
    &&& if i < old.len() {
        same_band_state(old[i], b)
    } else {
        b.reserves_a == 0 && b.reserves_b == 0 && b.total_shares == 0 && b.fee_growth_a_1e18 == 0
            && b.fee_growth_b_1e18 == 0 && b.util_a == 0 && b.util_b == 0 && b.is_active
    }
}

/// Compute the full band vector for the given parameters without touching
/// any pool: geometry (unless `weights_only`), carried state, and weights
/// normalized to 10000 with the rounding residual on the last band. The
/// returned tuple is `(bands, center, width, total_weight)`.
#[verifier::rlimit(100)]
pub fn compute_bands(
    bp: &BandParams,
    old_bands: &Vec<Band>,
    enforce_cb: bool,
    weights_only: bool,
) -> (r: Result<(Vec<Band>, u64, u16, u32), DlmmError>)
    requires
        1 <= bp.n_bands as int <= 64,
        bp.min_width_bps <= bp.max_width_bps,
        enforce_cb ==> bp.min_width_bps <= bp.last_width_bps <= bp.max_width_bps,
        weights_only ==> old_bands@.len() == bp.n_bands as int,
        weights_only ==> bands_monotone(old_bands@),
    ensures
        r is Ok <==> (weights_only || forall|i: int|
            0 <= i < bp.n_bands as int ==> spec_band_lower(*bp, enforce_cb, i) < spec_band_upper(
                *bp,
                enforce_cb,
                i,
            )),
        r is Err ==> r->Err_0 == DlmmError::InvalidBandRange,
        r is Ok ==> ({
            let (bands, center, width, total) = r->Ok_0;
            &&& bands@.len() == bp.n_bands as int
            &&& center == spec_commit_center(*bp, enforce_cb)
            &&& width == spec_commit_width(*bp, enforce_cb)
            &&& bp.min_width_bps <= width <= bp.max_width_bps
            &&& forall|i: int|
                0 <= i < bp.n_bands as int ==> band_built(
                    *bp,
                    old_bands@,
                    enforce_cb,
                    weights_only,
                    i,
                    #[trigger] bands@[i],
                )
            &&& forall|i: int|
                0 <= i < bp.n_bands as int ==> (#[trigger] bands@[i]).weight_bps
                    == spec_final_weight(*bp, old_bands@, enforce_cb, i)
            &&& forall|i: int|
                0 <= i < bp.n_bands as int ==> 1 <= (#[trigger] bands@[i]).weight_bps <= 10000
            &&& total == weights_sum(bands@)
            &&& !enforce_cb ==> weights_sum(bands@) == 10000
            &&& bands_monotone(bands@)
        }),
{
    let n: usize = bp.n_bands as usize;
    let ghost gold = old_bands@;

    // candidate center and width, with circuit breakers on request
    let (cand_center, cand_width) = match preview_center_width(bp) {
        Ok(cw) => cw,
        Err(e) => { return Err(e) },
    };
    let mut center: u64 = cand_center;
    let mut width: u16 = cand_width;
    if enforce_cb {
        if bp.last_center_price_1e6 > 0 {
            let prev = bp.last_center_price_1e6;
            proof {
                lemma_apply_bps_small_fits(prev, -(bp.max_center_move_bps as int));
                lemma_apply_bps_small_fits(prev, bp.max_center_move_bps as int);
            }
            let lo = match apply_bps_i(prev, -(bp.max_center_move_bps as i64)) {
                Ok(v) => v,
                Err(e) => { return Err(e) },
            };
            let hi = match apply_bps_i(prev, bp.max_center_move_bps as i64) {
                Ok(v) => v,
                Err(e) => { return Err(e) },
            };
            center = if center < lo {
                lo
            } else if center > hi {
                hi
            } else {
                center
            };
        }
        if bp.last_width_bps > 0 {
            let prev = bp.last_width_bps;
            let delta: u16 = if width >= prev { width - prev } else { prev - width };
            if delta > bp.max_width_change_bps {
                width = if width > prev {
                    prev + bp.max_width_change_bps
                } else {
                    prev - bp.max_width_change_bps
                };
            }
        }
    }
    assert(center == spec_commit_center(*bp, enforce_cb));
    assert(width == spec_commit_width(*bp, enforce_cb));
    assert(bp.min_width_bps <= width <= bp.max_width_bps);

    // geometry, carried state and raw weights
    let mid: usize = (n - 1) / 2;
    let mut nb: Vec<Band> = Vec::new();
    let mut i: usize = 0;
    while i < n
        invariant
            i <= n,
            n == bp.n_bands as int,
            1 <= n <= 64,
            mid == spec_mid(n as int),
            gold == old_bands@,
            center == spec_commit_center(*bp, enforce_cb),
            width == spec_commit_width(*bp, enforce_cb),
            weights_only ==> gold.len() == n,
            nb@.len() == i,
            forall|j: int|
                0 <= j < i ==> band_built(*bp, gold, enforce_cb, weights_only, j, #[trigger] nb@[j]),
            forall|j: int|
                0 <= j < i ==> (#[trigger] nb@[j]).weight_bps == spec_raw_weight(*bp, j),
            !weights_only ==> forall|j: int|
                0 <= j < i ==> spec_band_lower(*bp, enforce_cb, j) < spec_band_upper(
                    *bp,
                    enforce_cb,
                    j,
                ),
        decreases n - i,
    {
        let idx: i64 = i as i64 - mid as i64;
        let absidx: i64 = if idx >= 0 { idx } else { -idx };

        // geometry
        let (lower, upper): (u64, u64) = if weights_only {
            (old_bands[i].lower_price_1e6, old_bands[i].upper_price_1e6)
        } else {
            assert(idx * (width as i64) <= 64 * 65535 && idx * (width as i64) >= -64 * 65535)
                by (nonlinear_arith)
                requires
                    -64 <= idx <= 64,
                    0 <= width as int <= 65535,
            ;
            let delta_bps: i64 = idx * (width as i64);
            proof {
                lemma_apply_bps_small_fits(center, delta_bps as int);
                lemma_apply_bps_small_fits(center, delta_bps as int + width as int);
            }
            let lo = match apply_bps_i(center, delta_bps) {
                Ok(v) => v,
                Err(e) => { return Err(e) },
            };
            let up = match apply_bps_i(center, delta_bps + width as i64) {
                Ok(v) => v,
                Err(e) => { return Err(e) },
            };
            assert(lo == spec_band_lower(*bp, enforce_cb, i as int));
            assert((idx as int + 1) * (width as int) == idx as int * (width as int) + width as int)
                by (nonlinear_arith);
            assert(up == spec_band_upper(*bp, enforce_cb, i as int));
            if lo >= up {
                return Err(DlmmError::InvalidBandRange);
            }
            (lo, up)
        };

        // raw weight
        assert((bp.decay_per_band_bps as int) * absidx <= 65535 * 64) by (nonlinear_arith)
            requires
                0 <= bp.decay_per_band_bps as int <= 65535,
                0 <= absidx <= 64,
        ;
        let base0: i64 = 10000 / (n as i64) - (bp.decay_per_band_bps as i64) * absidx;
        let base: i64 = if base0 < 100 {
            100
        } else if base0 > 10000 {
            10000
        } else {
            base0
        };
        let a_leads: bool = bp.ema_y_a_bps >= bp.ema_y_b_bps;
        let bonus_each: i64 = if bp.bias_per_kbps <= 200 { bp.bias_per_kbps as i64 } else { 200 };
        let bonus: i64 = if (a_leads && idx > 0) || (!a_leads && idx < 0) { bonus_each } else { 0 };
        let raw0: i64 = base + bonus;
        let raw: u16 = if raw0 < 100 {
            100
        } else if raw0 > 10000 {
            10000
        } else {
            raw0 as u16
        };
        assert(raw == spec_raw_weight(*bp, i as int));

        // carried state
        let band = if i < old_bands.len() {
            let o = old_bands[i];
            Band {
                lower_price_1e6: lower,
                upper_price_1e6: upper,
                weight_bps: raw,
                fee_growth_a_1e18: o.fee_growth_a_1e18,
                fee_growth_b_1e18: o.fee_growth_b_1e18,
                reserves_a: o.reserves_a,
                reserves_b: o.reserves_b,
                total_shares: o.total_shares,
                util_a: o.util_a,
                util_b: o.util_b,
                is_active: o.is_active,
            }
        } else {
            Band {
                lower_price_1e6: lower,
                upper_price_1e6: upper,
                weight_bps: raw,
                fee_growth_a_1e18: 0,
                fee_growth_b_1e18: 0,
                reserves_a: 0,
                reserves_b: 0,
                total_shares: 0,
                util_a: 0,
                util_b: 0,
                is_active: true,
            }
        };
        assert(band_built(*bp, gold, enforce_cb, weights_only, i as int, band));
        nb.push(band);
        i += 1;
    }

    // raw weight total
    let mut total_raw: u64 = 0;
    let mut j: usize = 0;
    while j < n
        invariant
            j <= n,
            n == bp.n_bands as int,
            1 <= n <= 64,
            nb@.len() == n,
            forall|k: int|
                0 <= k < n ==> (#[trigger] nb@[k]).weight_bps == spec_raw_weight(*bp, k),
            total_raw == raw_prefix(*bp, j as int),
            total_raw <= 10000 * j,
        decreases n - j,
    {
        proof {
            lemma_raw_weight_bounds(*bp, j as int);
        }
        total_raw = total_raw + nb[j].weight_bps as u64;
        j += 1;
    }
    let s_exec: u64 = if total_raw >= 1 { total_raw } else { 1 };
    proof {
        lemma_raw_prefix_bounds(*bp, n as int);
    }
    assert(s_exec == spec_total_raw(*bp));

    // normalization
    let ghost pre_norm = nb@;
    let mut wsum: u32 = 0;
    let mut k: usize = 0;
    while k < n
        invariant
            k <= n,
            n == bp.n_bands as int,
            1 <= n <= 64,
            gold == old_bands@,
            nb@.len() == n,
            s_exec == spec_total_raw(*bp),
            100 <= s_exec <= 640000,
            forall|t: int|
                k <= t < n ==> (#[trigger] nb@[t]).weight_bps == spec_raw_weight(*bp, t),
            forall|t: int|
                0 <= t < k ==> (#[trigger] nb@[t]).weight_bps == spec_norm_weight(
                    *bp,
                    gold,
                    enforce_cb,
                    t,
                ),
            forall|t: int|
                0 <= t < n ==> band_built(
                    *bp,
                    gold,
                    enforce_cb,
                    weights_only,
                    t,
                    #[trigger] nb@[t],
                ),
            wsum == norm_prefix(*bp, gold, enforce_cb, k as int),
            wsum <= 10000 * k,
            weights_sum(nb@.take(k as int)) == wsum,
        decreases n - k,
    {
        let raw_k: u64 = nb[k].weight_bps as u64;
        let w_prop: u64 = raw_k * 10000 / s_exec;
        let w1: i64 = if enforce_cb && k < old_bands.len() {
            let prev: i64 = old_bands[k].weight_bps as i64;
            let lo: i64 = prev - bp.max_weight_shift_bps as i64;
            let hi: i64 = prev + bp.max_weight_shift_bps as i64;
            let wp: i64 = w_prop as i64;
            if wp < lo {
                lo
            } else if wp > hi {
                hi
            } else {
                wp
            }
        } else {
            w_prop as i64
        };
        let w2: u16 = if w1 < 1 {
            1
        } else if w1 > 10000 {
            10000
        } else {
            w1 as u16
        };
        assert(w2 == spec_norm_weight(*bp, gold, enforce_cb, k as int));
        let ghost before = nb@;
        nb[k].weight_bps = w2;
        proof {
            assert(nb@ =~= before.update(k as int, nb@[k as int]));
            assert(forall|t: int|
                0 <= t < n && t != k ==> #[trigger] nb@[t] == before[t]);
            assert(nb@.take(k + 1).drop_last() =~= nb@.take(k as int));
            assert(nb@.take(k as int) =~= before.take(k as int));
        }
        wsum = wsum + w2 as u32;
        k += 1;
    }
    proof {
        assert(nb@.take(n as int) =~= nb@);
    }

    // rounding closure on the last band
    let ghost norm_sum = norm_prefix(*bp, gold, enforce_cb, n as int);
    let mut total: u32 = wsum;
    if wsum != 10000 {
        proof {
            lemma_norm_prefix_facts(*bp, gold, enforce_cb, n as int);
        }
        let last: u16 = nb[n - 1].weight_bps;
        let nv0: i64 = last as i64 + 10000 - wsum as i64;
        let nv: u16 = if nv0 < 1 {
            1
        } else if nv0 > 10000 {
            10000
        } else {
            nv0 as u16
        };
        let ghost before = nb@;
        nb[n - 1].weight_bps = nv;
        proof {
            assert(nb@ =~= before.update(n - 1, nb@[n - 1]));
            assert(nb@.drop_last() =~= before.drop_last());
            assert(weights_sum(nb@) == weights_sum(before) - last + nv);
        }
        total = wsum - last as u32 + nv as u32;
    }
    proof {
        if !enforce_cb {
            lemma_norm_sum_le_nocb(*bp, gold);
            lemma_norm_prefix_facts(*bp, gold, false, n as int);
            if norm_sum != 10000 {
                assert(weights_sum(nb@) == 10000);
            }
        }
        if !weights_only {
            assert forall|i2: int| 0 < i2 < nb@.len() implies (#[trigger] nb@[i2]).lower_price_1e6
                >= nb@[i2 - 1].upper_price_1e6 by {
                assert(band_built(*bp, gold, enforce_cb, weights_only, i2, nb@[i2]));
                assert(band_built(*bp, gold, enforce_cb, weights_only, i2 - 1, nb@[i2 - 1]));
                assert((i2 - 1 - spec_mid(n as int) + 1) == i2 - spec_mid(n as int));
                assert(spec_band_upper(*bp, enforce_cb, i2 - 1) == spec_band_lower(
                    *bp,
                    enforce_cb,
                    i2,
                ));
            }
        } else {
            assert forall|i2: int| 0 < i2 < nb@.len() implies (#[trigger] nb@[i2]).lower_price_1e6
                >= nb@[i2 - 1].upper_price_1e6 by {
                assert(band_built(*bp, gold, enforce_cb, weights_only, i2, nb@[i2]));
                assert(band_built(*bp, gold, enforce_cb, weights_only, i2 - 1, nb@[i2 - 1]));
                assert(gold[i2].lower_price_1e6 >= gold[i2 - 1].upper_price_1e6);
            }
            assert forall|i2: int| 0 <= i2 < nb@.len() implies (#[trigger] nb@[i2]).lower_price_1e6
                < nb@[i2].upper_price_1e6 by {
                assert(band_built(*bp, gold, enforce_cb, weights_only, i2, nb@[i2]));
                assert(gold[i2].lower_price_1e6 < gold[i2].upper_price_1e6);
            }
        }
    }
    Ok((nb, center, width, total))
}

/// Recompute the pool's band vector and commit it, or leave the pool
/// untouched on failure. Circuit breakers bound the move against the
/// previous geometry when `enforce_cb`; `weights_only` recomputes weights
/// without touching the intervals.
pub fn recompute_bands(pool: &mut Pool, enforce_cb: bool, weights_only: bool) -> (r: Result<
    (),
    DlmmError,
>)
    requires
        1 <= old(pool).n_bands as int <= 64,
        old(pool).min_width_bps <= old(pool).max_width_bps,
        enforce_cb ==> old(pool).min_width_bps <= old(pool).last_width_bps <= old(
            pool,
        ).max_width_bps,
        weights_only ==> old(pool).bands@.len() == old(pool).n_bands as int,
        weights_only ==> bands_monotone(old(pool).bands@),
    ensures
        r is Err ==> *final(pool) == *old(pool) && r->Err_0 == DlmmError::InvalidBandRange,
        r is Ok <==> (weights_only || forall|i: int|
            0 <= i < old(pool).n_bands as int ==> spec_band_lower(
                params_of(*old(pool)),
                enforce_cb,
                i,
            ) < spec_band_upper(params_of(*old(pool)), enforce_cb, i)),
        r is Ok ==> ({
            let bp = params_of(*old(pool));
            &&& *final(pool) == (Pool {
                bands: final(pool).bands,
                last_width_bps: final(pool).last_width_bps,
                last_center_price_1e6: final(pool).last_center_price_1e6,
                total_weight_bps: final(pool).total_weight_bps,
                ..*old(pool)
            })
            &&& final(pool).bands@.len() == old(pool).n_bands as int
            &&& final(pool).last_center_price_1e6 == spec_commit_center(bp, enforce_cb)
            &&& final(pool).last_width_bps == spec_commit_width(bp, enforce_cb)
            &&& old(pool).min_width_bps <= final(pool).last_width_bps <= old(pool).max_width_bps
            &&& forall|i: int|
                0 <= i < old(pool).n_bands as int ==> band_built(
                    bp,
                    old(pool).bands@,
                    enforce_cb,
                    weights_only,
                    i,
                    #[trigger] final(pool).bands@[i],
                )
            &&& forall|i: int|
                0 <= i < old(pool).n_bands as int ==> (#[trigger] final(pool).bands@[i]).weight_bps
                    == spec_final_weight(bp, old(pool).bands@, enforce_cb, i)
            &&& forall|i: int|
                0 <= i < old(pool).n_bands as int ==> 1 <= (#[trigger] final(pool).bands@[i]).weight_bps
                    <= 10000
            &&& final(pool).total_weight_bps == weights_sum(final(pool).bands@)
            &&& !enforce_cb ==> weights_sum(final(pool).bands@) == 10000
            &&& bands_monotone(final(pool).bands@)
        }),
{
    let bp = pool.band_params();
    match compute_bands(&bp, &pool.bands, enforce_cb, weights_only) {
        Ok((nb, center, width, total)) => {
            pool.bands = nb;
            pool.last_width_bps = width;
            pool.last_center_price_1e6 = center;
            pool.total_weight_bps = total;
            Ok(())
        },
        Err(e) => Err(e),
    }
}

} // verus!
