//! Inactive-band handling and the pool invariant check: flagging bands
//! below the reserve floors, renormalizing active weights to 10000,
//! compacting the band vector, and the safety net that every mutating
//! operation runs before it commits.

use vstd::prelude::*;
use vstd::arithmetic::div_mod::*;
use vstd::arithmetic::mul::*;
use crate::errors::DlmmError;
use crate::math::lemma_mul_le_cap;
use crate::types::{
    AccountId, Band, Pool, TokenAccountState, bands_monotone, weights_sum,
};
use crate::bands::clamp_weight;

verus! {

/// Whether a band clears the inactivity floors: it is active unless both
/// reserves sit below their floor.
pub open spec fn spec_active_flag(b: Band, floor_a: u64, floor_b: u64) -> bool {
    !(b.reserves_a < floor_a && b.reserves_b < floor_b)
}

/// Recompute every band's activity flag from the pool's reserve floors.
pub fn mark_inactive_by_floor(pool: &mut Pool)
    ensures
        *final(pool) == (Pool { bands: final(pool).bands, ..*old(pool) }),
        final(pool).bands@.len() == old(pool).bands@.len(),
        forall|i: int|
            0 <= i < old(pool).bands@.len() ==> #[trigger] final(pool).bands@[i] == (Band {
                is_active: spec_active_flag(
                    old(pool).bands@[i],
                    old(pool).inactive_floor_a,
                    old(pool).inactive_floor_b,
                ),
                ..old(pool).bands@[i]
            }),
{
    let floor_a = pool.inactive_floor_a;
    let floor_b = pool.inactive_floor_b;
    let n = pool.bands.len();
    let mut i: usize = 0;
    while i < n
        invariant
            i <= n,
            n == pool.bands@.len(),
            floor_a == pool.inactive_floor_a,
            floor_b == pool.inactive_floor_b,
            *pool == (Pool { bands: pool.bands, ..*old(pool) }),
            forall|j: int|
                0 <= j < i ==> #[trigger] pool.bands@[j] == (Band {
                    is_active: spec_active_flag(old(pool).bands@[j], floor_a, floor_b),
                    ..old(pool).bands@[j]
                }),
            forall|j: int| i <= j < n ==> #[trigger] pool.bands@[j] == old(pool).bands@[j],
        decreases n - i,
    {
        let active = !(pool.bands[i].reserves_a < floor_a && pool.bands[i].reserves_b < floor_b);
        pool.bands[i].is_active = active;
        i += 1;
    }
}

/* ----------------------- Active-weight renormalization ------------------- */

/// Sum of the weights of the active bands among the first `k`.
pub open spec fn aw_prefix(s: Seq<Band>, k: int) -> int
    decreases k,
{
    if k <= 0 {
        0
    } else {
        aw_prefix(s, k - 1) + if s[k - 1].is_active {
            s[k - 1].weight_bps as int
        } else {
            0
        }
    }
}

/// The renormalization denominator: the active weight total, floored at 1.
pub open spec fn spec_active_total(s: Seq<Band>) -> int {
    let t = aw_prefix(s, s.len() as int);
    if t >= 1 {
        t
    } else {
        1
    }
}

/// Renormalized weight of band `i` before the rounding closure: an active
/// band's share of 10000, an inactive band zero.
pub open spec fn spec_renorm_weight(s: Seq<Band>, i: int) -> int {
    if s[i].is_active {
        (s[i].weight_bps as int) * 10000 / spec_active_total(s)
    } else {
        0
    }
}

/// Sum of the first `k` renormalized weights.
pub open spec fn renorm_prefix(s: Seq<Band>, k: int) -> int
    decreases k,
{
    if k <= 0 {
        0
    } else {
        renorm_prefix(s, k - 1) + spec_renorm_weight(s, k - 1)
    }
}

/// Index of the last active band among the first `k`, or -1.
pub open spec fn last_active_index(s: Seq<Band>, k: int) -> int
    decreases k,
{
    if k <= 0 {
        -1
    } else if s[k - 1].is_active {
        k - 1
    } else {
        last_active_index(s, k - 1)
    }
}

/// Renormalized weight of band `i` after the rounding closure: the last
/// active band absorbs the residual.
pub open spec fn spec_renorm_final(s: Seq<Band>, i: int) -> int {
    let sum = renorm_prefix(s, s.len() as int);
    let la = last_active_index(s, s.len() as int);
    if i == la && sum != 10000 {
        clamp_weight(spec_renorm_weight(s, i) + 10000 - sum)
    } else {
        spec_renorm_weight(s, i)
    }
}

/// Active-weight prefix sums are non-negative and monotone.
proof fn lemma_aw_prefix_mono(s: Seq<Band>, k1: int, k2: int)
    requires
        0 <= k1 <= k2,
    ensures
        0 <= aw_prefix(s, k1) <= aw_prefix(s, k2),
    decreases k1 + k2,
{
    if k1 > 0 && k1 == k2 {
        lemma_aw_prefix_mono(s, k1 - 1, k1 - 1);
    } else if k2 > k1 {
        lemma_aw_prefix_mono(s, k1, k2 - 1);
    }
}

/// Renormalized weights lie in `[0, 10000]`, and an active band's weight
/// times the denominator stays below its share.
proof fn lemma_renorm_weight_bounds(s: Seq<Band>, i: int)
    requires
        0 <= i < s.len(),
    ensures
        0 <= spec_renorm_weight(s, i) <= 10000,
        spec_renorm_weight(s, i) * spec_active_total(s) <= (if s[i].is_active {
            (s[i].weight_bps as int) * 10000
        } else {
            0
        }),
    decreases s.len(),
{
    let t = spec_active_total(s);
    assert(t >= 1);
    if s[i].is_active {
        let w = s[i].weight_bps as int;
        lemma_aw_prefix_mono(s, i, i + 1);
        lemma_aw_prefix_mono(s, i + 1, s.len() as int);
        assert(w <= aw_prefix(s, i + 1));
        assert(w <= t);
        lemma_div_pos_is_pos(w * 10000, t);
        assert(w * 10000 >= 0) by (nonlinear_arith)
            requires
                w >= 0,
        ;
        assert(w * 10000 <= t * 10000) by (nonlinear_arith)
            requires
                0 <= w <= t,
        ;
        lemma_div_is_ordered(w * 10000, t * 10000, t);
        lemma_div_multiples_vanish(10000, t);
        assert(t * 10000 == 10000 * t) by {
            lemma_mul_is_commutative(t, 10000);
        }
        assert(spec_renorm_weight(s, i) * t <= w * 10000) by {
            lemma_fundamental_div_mod(w * 10000, t);
            lemma_mul_le_cap(spec_renorm_weight(s, i), t, w * 10000);
        }
    } else {
        assert(0 * t == 0) by (nonlinear_arith);
    }
}

/// Renormalized prefix sums are non-negative, bounded by the scaled active
/// prefix, and dominate each single weight.
proof fn lemma_renorm_prefix_bound(s: Seq<Band>, k: int)
    requires
        0 <= k <= s.len(),
    ensures
        0 <= renorm_prefix(s, k),
        renorm_prefix(s, k) * spec_active_total(s) <= aw_prefix(s, k) * 10000,
        k >= 1 ==> spec_renorm_weight(s, k - 1) <= renorm_prefix(s, k),
    decreases k,
{
    let t = spec_active_total(s);
    if k == 0 {
        assert(0 * t == 0) by (nonlinear_arith);
    } else {
        lemma_renorm_prefix_bound(s, k - 1);
        lemma_renorm_weight_bounds(s, k - 1);
        let w = spec_renorm_weight(s, k - 1);
        assert((renorm_prefix(s, k - 1) + w) * t == renorm_prefix(s, k - 1) * t + w * t) by {
            lemma_mul_is_distributive_add_other_way(t, renorm_prefix(s, k - 1), w);
        }
        assert((aw_prefix(s, k - 1) + (if s[k - 1].is_active {
            s[k - 1].weight_bps as int
        } else {
            0
        })) * 10000 == aw_prefix(s, k - 1) * 10000 + (if s[k - 1].is_active {
            s[k - 1].weight_bps as int
        } else {
            0
        }) * 10000) by {
            lemma_mul_is_distributive_add_other_way(
                10000,
                aw_prefix(s, k - 1),
                (if s[k - 1].is_active {
                    s[k - 1].weight_bps as int
                } else {
                    0
                }),
            );
        }
    }
}

/// The renormalized weights sum to at most 10000.
proof fn lemma_renorm_sum_le(s: Seq<Band>)
    ensures
        0 <= renorm_prefix(s, s.len() as int) <= 10000,
{
    let n = s.len() as int;
    let t = spec_active_total(s);
    lemma_renorm_prefix_bound(s, n);
    lemma_aw_prefix_mono(s, n, n);
    assert(aw_prefix(s, n) <= t);
    assert(aw_prefix(s, n) * 10000 <= t * 10000) by (nonlinear_arith)
        requires
            0 <= aw_prefix(s, n) <= t,
    ;
    assert(t * 10000 == 10000 * t) by {
        lemma_mul_is_commutative(t, 10000);
    }
    let sum = renorm_prefix(s, n);
    assert(sum <= 10000) by (nonlinear_arith)
        requires
            sum * t <= 10000 * t,
            t >= 1,
    ;
}

/// The renormalized weight of any single band is bounded by the sum.
proof fn lemma_renorm_single_le_sum(s: Seq<Band>, i: int, k: int)
    requires
        0 <= i < k <= s.len(),
    ensures
        spec_renorm_weight(s, i) <= renorm_prefix(s, k),
    decreases k,
{
    lemma_renorm_prefix_bound(s, i + 1);
    if k > i + 1 {
        lemma_renorm_single_le_sum(s, i, k - 1);
        lemma_renorm_weight_bounds(s, k - 1);
    }
}

/// Replacing one band's weight shifts the weight sum by the difference.
pub proof fn lemma_weights_sum_update(s: Seq<Band>, i: int, b: Band)
    requires
        0 <= i < s.len(),
    ensures
        weights_sum(s.update(i, b)) == weights_sum(s) - s[i].weight_bps + b.weight_bps,
    decreases s.len(),
{
    let s2 = s.update(i, b);
    if i == s.len() - 1 {
        assert(s2.drop_last() =~= s.drop_last());
        assert(s2.last() == b);
    } else {
        assert(s2.drop_last() =~= s.drop_last().update(i, b));
        assert(s2.last() == s.last());
        lemma_weights_sum_update(s.drop_last(), i, b);
    }
}

/// The last active index is in range, active, and latest.
proof fn lemma_last_active_props(s: Seq<Band>, k: int)
    requires
        0 <= k <= s.len(),
    ensures
        -1 <= last_active_index(s, k) < k,
        last_active_index(s, k) >= 0 ==> s[last_active_index(s, k)].is_active,
        forall|j: int| last_active_index(s, k) < j < k ==> !(#[trigger] s[j]).is_active,
    decreases k,
{
    if k > 0 {
        lemma_last_active_props(s, k - 1);
    }
}

/// Proportionally rescale the active bands' weights so they sum to exactly
/// 10000, zero the inactive bands, and record the new total. The rounding
/// residual goes to the last active band. With no active band at all,
/// every weight becomes zero.
#[verifier::rlimit(100)]
pub fn renormalize_active_weights(pool: &mut Pool) -> (r: Result<(), DlmmError>)
    requires
        old(pool).bands@.len() <= 64,
    ensures
        r is Ok,
        *final(pool) == (Pool {
            bands: final(pool).bands,
            total_weight_bps: final(pool).total_weight_bps,
            ..*old(pool)
        }),
        final(pool).bands@.len() == old(pool).bands@.len(),
        forall|i: int|
            0 <= i < old(pool).bands@.len() ==> #[trigger] final(pool).bands@[i] == (Band {
                weight_bps: spec_renorm_final(old(pool).bands@, i) as u16,
                ..old(pool).bands@[i]
            }),
        final(pool).total_weight_bps == weights_sum(final(pool).bands@),
        last_active_index(old(pool).bands@, old(pool).bands@.len() as int) >= 0
            ==> weights_sum(final(pool).bands@) == 10000,
        last_active_index(old(pool).bands@, old(pool).bands@.len() as int) < 0 ==> weights_sum(
            final(pool).bands@,
        ) == 0,
{
    let ghost s0 = pool.bands@;
    let n = pool.bands.len();

    // active weight total
    let mut sum_active: u64 = 0;
    let mut i: usize = 0;
    while i < n
        invariant
            i <= n,
            n == pool.bands@.len(),
            n <= 64,
            pool.bands@ == s0,
            sum_active == aw_prefix(s0, i as int),
            sum_active <= 65535 * i,
        decreases n - i,
    {
        if pool.bands[i].is_active {
            sum_active = sum_active + pool.bands[i].weight_bps as u64;
        }
        i += 1;
    }
    let t_exec: u64 = if sum_active >= 1 { sum_active } else { 1 };
    assert(t_exec == spec_active_total(s0));

    // rescale, tracking the last active band
    let mut wsum: u32 = 0;
    let mut last_active: usize = n;
    let mut k: usize = 0;
    while k < n
        invariant
            k <= n,
            n == pool.bands@.len(),
            n <= 64,
            n == s0.len(),
            t_exec == spec_active_total(s0),
            1 <= t_exec,
            *pool == (Pool { bands: pool.bands, ..*old(pool) }),
            forall|j: int|
                0 <= j < k ==> #[trigger] pool.bands@[j] == (Band {
                    weight_bps: spec_renorm_weight(s0, j) as u16,
                    ..s0[j]
                }),
            forall|j: int| k <= j < n ==> #[trigger] pool.bands@[j] == s0[j],
            forall|j: int| 0 <= j < k ==> 0 <= #[trigger] spec_renorm_weight(s0, j) <= 10000,
            wsum == renorm_prefix(s0, k as int),
            wsum <= 10000 * k,
            weights_sum(pool.bands@.take(k as int)) == wsum,
            last_active_index(s0, k as int) < 0 ==> wsum == 0,
            last_active as int == (if last_active_index(s0, k as int) >= 0 {
                last_active_index(s0, k as int)
            } else {
                n as int
            }),
        decreases n - k,
    {
        proof {
            lemma_renorm_weight_bounds(s0, k as int);
        }
        let ghost before = pool.bands@;
        if pool.bands[k].is_active {
            let w: u64 = pool.bands[k].weight_bps as u64;
            assert(w * 10000 <= 65535 * 10000) by (nonlinear_arith)
                requires
                    0 <= w <= 65535,
            ;
            let scaled: u64 = w * 10000 / t_exec;
            pool.bands[k].weight_bps = scaled as u16;
            last_active = k;
        } else {
            pool.bands[k].weight_bps = 0;
        }
        proof {
            assert(pool.bands@ =~= before.update(k as int, pool.bands@[k as int]));
            assert(pool.bands@.take(k + 1).drop_last() =~= pool.bands@.take(k as int));
            assert(pool.bands@.take(k as int) =~= before.take(k as int));
            assert(pool.bands@.take(k + 1).last() == pool.bands@[k as int]);
        }
        wsum = wsum + pool.bands[k].weight_bps as u32;
        k += 1;
    }
    proof {
        assert(pool.bands@.take(n as int) =~= pool.bands@);
        lemma_renorm_sum_le(s0);
        lemma_last_active_props(s0, n as int);
    }

    // rounding closure on the last active band
    let mut total: u32 = wsum;
    if last_active < n && wsum != 10000 {
        proof {
            lemma_renorm_single_le_sum(s0, last_active as int, n as int);
        }
        let lw: u16 = pool.bands[last_active].weight_bps;
        let nv0: i64 = lw as i64 + 10000 - wsum as i64;
        let nv: u16 = if nv0 < 1 {
            1
        } else if nv0 > 10000 {
            10000
        } else {
            nv0 as u16
        };
        let ghost before = pool.bands@;
        pool.bands[last_active].weight_bps = nv;
        proof {
            assert(pool.bands@ =~= before.update(last_active as int, pool.bands@[last_active as int]));
            lemma_weights_sum_update(before, last_active as int, pool.bands@[last_active as int]);
        }
        total = wsum - lw as u32 + nv as u32;
    }
    pool.total_weight_bps = total;
    Ok(())
}

/* ------------------------------ Compaction ------------------------------- */

/// The subsequence of active bands, in order.
pub open spec fn active_filter(s: Seq<Band>) -> Seq<Band>
    decreases s.len(),
{
    if s.len() == 0 {
        Seq::empty()
    } else {
        active_filter(s.drop_last()) + if s.last().is_active {
            seq![s.last()]
        } else {
            Seq::empty()
        }
    }
}

/// In a monotone band vector, every earlier band ends at or before a later
/// band begins.
proof fn lemma_monotone_chain(s: Seq<Band>, j: int, i: int)
    requires
        bands_monotone(s),
        0 <= j < i < s.len(),
    ensures
        s[j].upper_price_1e6 <= s[i].lower_price_1e6,
    decreases i - j,
{
    if j < i - 1 {
        lemma_monotone_chain(s, j, i - 1);
    }
}

/// Drop the inactive bands and shrink `n_bands` to match; if every band is
/// inactive, keep the original vector and only refresh the count.
pub fn compact_active_bands(pool: &mut Pool)
    requires
        1 <= old(pool).bands@.len() <= 64,
        bands_monotone(old(pool).bands@),
    ensures
        *final(pool) == (Pool {
            bands: final(pool).bands,
            n_bands: final(pool).n_bands,
            ..*old(pool)
        }),
        last_active_index(old(pool).bands@, old(pool).bands@.len() as int) >= 0
            ==> final(pool).bands@ == active_filter(old(pool).bands@),
        last_active_index(old(pool).bands@, old(pool).bands@.len() as int) < 0
            ==> final(pool).bands@ == old(pool).bands@,
        final(pool).n_bands as int == final(pool).bands@.len(),
        1 <= final(pool).bands@.len() <= old(pool).bands@.len(),
        bands_monotone(final(pool).bands@),
{
    let n = pool.bands.len();
    let mut out: Vec<Band> = Vec::new();
    let ghost mut last_src: int = -1;
    let mut i: usize = 0;
    while i < n
        invariant
            i <= n,
            n == pool.bands@.len(),
            1 <= n <= 64,
            *pool == *old(pool),
            bands_monotone(pool.bands@),
            out@ == active_filter(pool.bands@.take(i as int)),
            out@.len() <= i,
            out@.len() > 0 ==> 0 <= last_src < i && out@.last() == pool.bands@[last_src]
                && pool.bands@[last_src].is_active,
            bands_monotone(out@),
            (last_active_index(pool.bands@, i as int) >= 0) <==> out@.len() > 0,
        decreases n - i,
    {
        proof {
            assert(pool.bands@.take(i + 1).drop_last() =~= pool.bands@.take(i as int));
            assert(pool.bands@.take(i + 1).last() == pool.bands@[i as int]);
        }
        if pool.bands[i].is_active {
            let ghost before = out@;
            proof {
                if out@.len() > 0 {
                    lemma_monotone_chain(pool.bands@, last_src, i as int);
                }
            }
            out.push(pool.bands[i]);
            proof {
                assert(out@ =~= before + seq![pool.bands@[i as int]]);
                last_src = i as int;
            }
        }
        i += 1;
    }
    proof {
        assert(pool.bands@.take(n as int) =~= pool.bands@);
    }
    if out.len() == 0 {
        pool.n_bands = n as u8;
    } else {
        pool.n_bands = out.len() as u8;
        pool.bands = out;
    }
}


/// The last active index depends on the activity flags alone.
pub proof fn lemma_last_active_same_flags(s1: Seq<Band>, s2: Seq<Band>, k: int)
    requires
        s1.len() == s2.len(),
        forall|i: int| 0 <= i < s1.len() ==> (#[trigger] s1[i]).is_active == s2[i].is_active,
        k <= s1.len(),
    ensures
        last_active_index(s1, k) == last_active_index(s2, k),
    decreases k,
{
    if k > 0 {
        lemma_last_active_same_flags(s1, s2, k - 1);
    }
}

/* ---------------------------- Invariant check ---------------------------- */

/// The conditions the safety net accepts: vault mints match the declared
/// mints, the band count matches, the intervals are monotone, the weights
/// sum to exactly 10000, and the recorded width is inside its bounds.
pub open spec fn spec_invariants_hold(
    mint_a: AccountId,
    mint_b: AccountId,
    vault_a: TokenAccountState,
    vault_b: TokenAccountState,
    p: Pool,
) -> bool {
    &&& vault_a.mint == mint_a
    &&& vault_b.mint == mint_b
    &&& p.bands@.len() == p.n_bands as int
    &&& bands_monotone(p.bands@)
    &&& weights_sum(p.bands@) == 10000
    &&& p.min_width_bps <= p.last_width_bps <= p.max_width_bps
}

/// The safety net run before an operation commits: checks the §3
/// invariants and names the first one that fails.
pub fn assert_invariants(
    mint_a: &AccountId,
    mint_b: &AccountId,
    vault_a: &TokenAccountState,
    vault_b: &TokenAccountState,
    pool: &Pool,
) -> (r: Result<(), DlmmError>)
    ensures
        r is Ok <==> spec_invariants_hold(*mint_a, *mint_b, *vault_a, *vault_b, *pool),
        r is Err ==> (r->Err_0 == DlmmError::VaultMintMismatch || r->Err_0
            == DlmmError::InvariantViolated || r->Err_0 == DlmmError::NonMonotonicBands || r->Err_0
            == DlmmError::InvalidBandRange || r->Err_0 == DlmmError::WeightSumInvalid || r->Err_0
            == DlmmError::ParamOutOfRange),
        r is Err && r->Err_0 == DlmmError::VaultMintMismatch <==> !(vault_a.mint == *mint_a
            && vault_b.mint == *mint_b),
        r is Err && r->Err_0 == DlmmError::InvariantViolated ==> pool.bands@.len()
            != pool.n_bands as int,
        r is Err && r->Err_0 == DlmmError::NonMonotonicBands ==> !bands_monotone(pool.bands@),
        r is Err && r->Err_0 == DlmmError::InvalidBandRange ==> exists|i: int|
            0 <= i < pool.bands@.len() && (#[trigger] pool.bands@[i]).lower_price_1e6
                >= pool.bands@[i].upper_price_1e6,
        r is Err && r->Err_0 == DlmmError::WeightSumInvalid ==> weights_sum(pool.bands@) != 10000,
        r is Err && r->Err_0 == DlmmError::ParamOutOfRange ==> !(pool.min_width_bps
            <= pool.last_width_bps <= pool.max_width_bps),
{
    if !(vault_a.mint == *mint_a && vault_b.mint == *mint_b) {
        return Err(DlmmError::VaultMintMismatch);
    }
    let n = pool.bands.len();
    if n != pool.n_bands as usize {
        return Err(DlmmError::InvariantViolated);
    }
    let mut last: u64 = 0;
    let mut sum: u32 = 0;
    let mut i: usize = 0;
    while i < n
        invariant
            i <= n,
            n == pool.bands@.len(),
            n <= 255,
            vault_a.mint == *mint_a && vault_b.mint == *mint_b,
            n == pool.n_bands as int,
            forall|j: int|
                0 < j < i ==> (#[trigger] pool.bands@[j]).lower_price_1e6 >= pool.bands@[j
                    - 1].upper_price_1e6,
            forall|j: int|
                0 <= j < i ==> (#[trigger] pool.bands@[j]).lower_price_1e6 < pool.bands@[
                    j].upper_price_1e6,
            i > 0 ==> last == pool.bands@[i - 1].upper_price_1e6,
            sum == weights_sum(pool.bands@.take(i as int)),
            sum <= 65535 * i,
        decreases n - i,
    {
        proof {
            assert(pool.bands@.take(i + 1).drop_last() =~= pool.bands@.take(i as int));
            assert(pool.bands@.take(i + 1).last() == pool.bands@[i as int]);
        }
        let b = pool.bands[i];
        if i > 0 {
            if !(last <= b.lower_price_1e6) {
                return Err(DlmmError::NonMonotonicBands);
            }
        }
        if !(b.lower_price_1e6 < b.upper_price_1e6) {
            return Err(DlmmError::InvalidBandRange);
        }
        last = b.upper_price_1e6;
        sum = sum + b.weight_bps as u32;
        i += 1;
    }
    proof {
        assert(pool.bands@.take(n as int) =~= pool.bands@);
    }
    if sum != 10000 {
        return Err(DlmmError::WeightSumInvalid);
    }
    if !(pool.last_width_bps >= pool.min_width_bps && pool.last_width_bps <= pool.max_width_bps) {
        return Err(DlmmError::ParamOutOfRange);
    }
    Ok(())
}

} // verus!
