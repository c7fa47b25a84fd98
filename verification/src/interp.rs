//! Distance-weighted brightness prediction.
//!
//! The predicted brightness for a query `(lux, luma)` is a weighted average
//! of the learned samples, each sample weighted by the reciprocal of its
//! Euclidean distance from the query (an absent luminance counts as 0 for
//! the distance only).  Reciprocals are carried in fixed point, scaled by
//! `RECIP_SCALE` and normalised by the smallest distance, so the nearest
//! sample always carries weight `RECIP_SCALE` and no weight overflows.
//! A sample at distance zero would carry infinite weight: a single exact
//! match decides the prediction by itself, and two simultaneous exact
//! matches are a degenerate query answered by 0.

use vstd::prelude::*;
use vstd::arithmetic::div_mod::{
    lemma_div_is_ordered, lemma_div_multiples_vanish, lemma_div_pos_is_pos,
};
use vstd::arithmetic::mul::{
    lemma_mul_inequality, lemma_mul_is_distributive_add, lemma_mul_upper_bound,
};
use crate::data::Entry;
use crate::math::{isqrt, lemma_mul_div_le, lemma_sqrt_floor_zero, sqrt_floor};

verus! {

/// Fixed-point scale of the reciprocal-distance weights.
pub const RECIP_SCALE: u128 = 0x1_0000_0000;

/// The luminance value used for the distance computation: an absent
/// reading substitutes as 0 here (and only here).
pub open spec fn luma_val(l: Option<u8>) -> int {
    match l {
        Option::Some(v) => v as int,
        Option::None => 0,
    }
}

/// Squared Euclidean distance between the query and a sample.
pub open spec fn dist_sq(lux: u64, luma: Option<u8>, e: Entry) -> int {
    let dx = lux - e.lux;
    let dy = luma_val(luma) - luma_val(e.luma);
    dx * dx + dy * dy
}

/// Euclidean distance, rounded down to an integer.
pub open spec fn dist(lux: u64, luma: Option<u8>, e: Entry) -> int {
    sqrt_floor(dist_sq(lux, luma, e) as nat) as int
}

/// How many samples lie at distance zero from the query.
pub open spec fn zero_count(s: Seq<Entry>, lux: u64, luma: Option<u8>) -> int
    decreases s.len(),
{
    if s.len() == 0 {
        0
    } else {
        zero_count(s.drop_last(), lux, luma)
            + if dist_sq(lux, luma, s.last()) == 0 { 1int } else { 0int }
    }
}

/// The brightness of the first sample at distance zero from the query.
pub open spec fn zero_brightness(s: Seq<Entry>, lux: u64, luma: Option<u8>) -> u64
    decreases s.len(),
{
    if s.len() == 0 {
        0
    } else if zero_count(s.drop_last(), lux, luma) >= 1 {
        zero_brightness(s.drop_last(), lux, luma)
    } else if dist_sq(lux, luma, s.last()) == 0 {
        s.last().brightness
    } else {
        0
    }
}

/// The smallest distance from the query to any sample.
pub open spec fn min_dist(s: Seq<Entry>, lux: u64, luma: Option<u8>) -> int
    decreases s.len(),
{
    if s.len() == 0 {
        0
    } else if s.len() == 1 {
        dist(lux, luma, s.last())
    } else {
        let m = min_dist(s.drop_last(), lux, luma);
        let d = dist(lux, luma, s.last());
        if d < m {
            d
        } else {
            m
        }
    }
}

/// The fixed-point reciprocal-distance weight of a sample at distance `d`,
/// normalised by the smallest distance `dm`.
pub open spec fn weight(dm: int, d: int) -> int {
    if 0 < d {
        dm * (RECIP_SCALE as int) / d
    } else {
        0
    }
}

/// Sum of all weights.
pub open spec fn den_sum(s: Seq<Entry>, lux: u64, luma: Option<u8>, dm: int) -> int
    decreases s.len(),
{
    if s.len() == 0 {
        0
    } else {
        den_sum(s.drop_last(), lux, luma, dm) + weight(dm, dist(lux, luma, s.last()))
    }
}

/// Sum of all brightnesses, each scaled by its sample's weight.
pub open spec fn num_sum(s: Seq<Entry>, lux: u64, luma: Option<u8>, dm: int) -> int
    decreases s.len(),
{
    if s.len() == 0 {
        0
    } else {
        num_sum(s.drop_last(), lux, luma, dm)
            + s.last().brightness * weight(dm, dist(lux, luma, s.last()))
    }
}

/// The predicted brightness for a query over a store of samples: nothing
/// without data, the lone sample's own brightness, an exact match's
/// brightness, the degenerate 0 for two simultaneous exact matches, and the
/// truncated weighted average otherwise.  A weighted sum too large for the
/// machine also falls back to the degenerate 0.
pub open spec fn predict_view(s: Seq<Entry>, lux: u64, luma: Option<u8>) -> int {
    if s.len() == 0 {
        0
    } else if s.len() == 1 {
        s[0].brightness as int
    } else if zero_count(s, lux, luma) >= 2 {
        0
    } else if zero_count(s, lux, luma) == 1 {
        zero_brightness(s, lux, luma) as int
    } else {
        let dm = min_dist(s, lux, luma);
        let num = num_sum(s, lux, luma, dm);
        let den = den_sum(s, lux, luma, dm);
        if num > u128::MAX {
            0
        } else {
            num / den
        }
    }
}

pub proof fn lemma_dist_sq_nonneg(lux: u64, luma: Option<u8>, e: Entry)
    ensures
        dist_sq(lux, luma, e) >= 0,
{
    let dx = lux - e.lux;
    let dy = luma_val(luma) - luma_val(e.luma);
    assert(dx * dx >= 0 && dy * dy >= 0) by (nonlinear_arith);
}

/// A sample is at distance zero exactly when it matches the query.
pub proof fn lemma_dist_zero(lux: u64, luma: Option<u8>, e: Entry)
    ensures
        dist(lux, luma, e) == 0 <==> dist_sq(lux, luma, e) == 0,
{
    lemma_dist_sq_nonneg(lux, luma, e);
    lemma_sqrt_floor_zero(dist_sq(lux, luma, e) as nat);
}

/// A store with no sample at distance zero has none at any index.
pub proof fn lemma_no_zero_entries(s: Seq<Entry>, lux: u64, luma: Option<u8>, i: int)
    requires
        zero_count(s, lux, luma) == 0,
        0 <= i < s.len(),
    ensures
        dist_sq(lux, luma, s[i]) != 0,
    decreases s.len(),
{
    lemma_zero_count_bounds(s.drop_last(), lux, luma);
    if i < s.len() - 1 {
        lemma_no_zero_entries(s.drop_last(), lux, luma, i);
    }
}

pub proof fn lemma_zero_count_bounds(s: Seq<Entry>, lux: u64, luma: Option<u8>)
    ensures
        0 <= zero_count(s, lux, luma) <= s.len(),
    decreases s.len(),
{
    if s.len() > 0 {
        lemma_zero_count_bounds(s.drop_last(), lux, luma);
    }
}

/// The minimum distance is a lower bound on every sample's distance.
pub proof fn lemma_min_dist_le(s: Seq<Entry>, lux: u64, luma: Option<u8>, i: int)
    requires
        0 <= i < s.len(),
    ensures
        min_dist(s, lux, luma) <= dist(lux, luma, s[i]),
    decreases s.len(),
{
    if s.len() > 1 && i < s.len() - 1 {
        lemma_min_dist_le(s.drop_last(), lux, luma, i);
    }
}

/// Weights are never negative.
pub proof fn lemma_weight_nonneg(dm: int, d: int)
    requires
        0 <= dm,
    ensures
        weight(dm, d) >= 0,
{
    if 0 < d {
        lemma_mul_upper_bound(0, dm, 0, RECIP_SCALE as int);
        lemma_div_pos_is_pos(dm * (RECIP_SCALE as int), d);
    }
}

/// Partial numerator sums can only grow as more samples are taken in.
pub proof fn lemma_num_sum_prefix(s: Seq<Entry>, lux: u64, luma: Option<u8>, dm: int, j: int)
    requires
        0 <= j <= s.len(),
        0 <= dm,
    ensures
        num_sum(s.subrange(0, j), lux, luma, dm) <= num_sum(s, lux, luma, dm),
    decreases s.len(),
{
    if j == s.len() {
        assert(s.subrange(0, j) =~= s);
    } else {
        lemma_num_sum_prefix(s.drop_last(), lux, luma, dm, j);
        assert(s.drop_last().subrange(0, j) =~= s.subrange(0, j));
        let w = weight(dm, dist(lux, luma, s.last()));
        lemma_weight_nonneg(dm, dist(lux, luma, s.last()));
        lemma_mul_upper_bound(0, s.last().brightness as int, 0, w);
    }
}

/// The content-luminance coordinate used for distances.
pub fn luma_value(l: Option<u8>) -> (r: u8)
    ensures
        r as int == luma_val(l),
{
    match l {
        Option::Some(v) => v,
        Option::None => 0,
    }
}

/// The distance from the query to one sample.
fn entry_dist(lux: u64, luma: Option<u8>, e: &Entry) -> (d: u64)
    ensures
        d as int == dist(lux, luma, *e),
{
    let dx: u64 = if lux >= e.lux {
        lux - e.lux
    } else {
        e.lux - lux
    };
    let ly: u8 = luma_value(luma);
    let le: u8 = luma_value(e.luma);
    let dy: u8 = if ly >= le {
        ly - le
    } else {
        le - ly
    };
    proof {
        let sdx = lux - e.lux;
        let sdy = luma_val(luma) - luma_val(e.luma);
        assert((dx as int) * (dx as int) == sdx * sdx && (dy as int) * (dy as int) == sdy * sdy)
            by (nonlinear_arith)
            requires
                dx as int == sdx || dx as int == -sdx,
                dy as int == sdy || dy as int == -sdy,
        ;
        lemma_mul_upper_bound(
            dx as int,
            0xFFFF_FFFF_FFFF_FFFF,
            dx as int,
            0xFFFF_FFFF_FFFF_FFFF,
        );
        lemma_mul_upper_bound(dy as int, 0xFF, dy as int, 0xFF);
    }
    let sq: u128 = (dx as u128) * (dx as u128) + (dy as u128) * (dy as u128);
    isqrt(sq)
}

/// Predicts a brightness for the query `(lux, luma)` from the learned
/// samples by inverse-distance weighting, exactly as `predict_view` states.
pub fn predict_brightness(entries: &Vec<Entry>, lux: u64, luma: Option<u8>) -> (out: u64)
    ensures
        out == predict_view(entries@, lux, luma),
{
    let n = entries.len();
    if n == 0 {
        return 0;
    }
    if n == 1 {
        return entries[0].brightness;
    }

    let mut dists: Vec<u64> = Vec::new();
    let mut i: usize = 0;
    while i < n
        invariant
            i <= n,
            n == entries.len(),
            dists@.len() == i,
            forall|j: int| 0 <= j < i ==> #[trigger] dists@[j] == dist(lux, luma, entries@[j]),
        decreases n - i,
    {
        let d = entry_dist(lux, luma, &entries[i]);
        dists.push(d);
        i += 1;
    }

    let mut zeros: usize = 0;
    let mut zero_idx: usize = 0;
    let mut i: usize = 0;
    while i < n
        invariant
            i <= n,
            n == entries.len(),
            dists@.len() == n,
            forall|j: int| 0 <= j < n ==> #[trigger] dists@[j] == dist(lux, luma, entries@[j]),
            zeros == zero_count(entries@.subrange(0, i as int), lux, luma),
            zeros >= 1 ==> zero_idx < i
                && dists@[zero_idx as int] == 0
                && zero_brightness(entries@.subrange(0, i as int), lux, luma)
                    == entries@[zero_idx as int].brightness,
        decreases n - i,
    {
        proof {
            let pre = entries@.subrange(0, i as int);
            let cur = entries@.subrange(0, i as int + 1);
            assert(cur.drop_last() =~= pre);
            assert(cur.last() == entries@[i as int]);
            lemma_dist_zero(lux, luma, entries@[i as int]);
            lemma_zero_count_bounds(pre, lux, luma);
        }
        if dists[i] == 0 {
            if zeros == 0 {
                zero_idx = i;
            }
            zeros += 1;
        }
        i += 1;
    }
    proof {
        assert(entries@.subrange(0, n as int) =~= entries@);
    }
    if zeros >= 2 {
        return 0;
    }
    if zeros == 1 {
        return entries[zero_idx].brightness;
    }

    let mut dm: u64 = dists[0];
    let mut mi: usize = 0;
    let mut i: usize = 1;
    proof {
        assert(entries@.subrange(0, 1) =~= seq![entries@[0]]);
        assert(entries@.subrange(0, 1).last() == entries@[0]);
    }
    while i < n
        invariant
            1 <= i <= n,
            n == entries.len(),
            dists@.len() == n,
            forall|j: int| 0 <= j < n ==> #[trigger] dists@[j] == dist(lux, luma, entries@[j]),
            dm as int == min_dist(entries@.subrange(0, i as int), lux, luma),
            mi < i,
            dists@[mi as int] == dm,
        decreases n - i,
    {
        proof {
            let pre = entries@.subrange(0, i as int);
            let cur = entries@.subrange(0, i as int + 1);
            assert(cur.drop_last() =~= pre);
            assert(cur.last() == entries@[i as int]);
        }
        if dists[i] < dm {
            dm = dists[i];
            mi = i;
        }
        i += 1;
    }

    let mut den: u128 = 0;
    let mut num: u128 = 0;
    let mut i: usize = 0;
    while i < n
        invariant
            i <= n,
            n == entries.len(),
            dists@.len() == n,
            zero_count(entries@, lux, luma) == 0,
            forall|j: int| 0 <= j < n ==> #[trigger] dists@[j] == dist(lux, luma, entries@[j]),
            dm as int == min_dist(entries@, lux, luma),
            mi < n,
            dists@[mi as int] == dm,
            den == den_sum(entries@.subrange(0, i as int), lux, luma, dm as int),
            num == num_sum(entries@.subrange(0, i as int), lux, luma, dm as int),
            den <= i as int * (RECIP_SCALE as int),
            num <= 0xFFFF_FFFF_FFFF_FFFF * (den as int),
            i > mi ==> den >= RECIP_SCALE,
        decreases n - i,
    {
        proof {
            let pre = entries@.subrange(0, i as int);
            let cur = entries@.subrange(0, i as int + 1);
            assert(cur.drop_last() =~= pre);
            assert(cur.last() == entries@[i as int]);
            lemma_no_zero_entries(entries@, lux, luma, i as int);
            lemma_dist_zero(lux, luma, entries@[i as int]);
            lemma_min_dist_le(entries@, lux, luma, i as int);
            lemma_mul_inequality(dm as int, 0xFFFF_FFFF_FFFF_FFFF, RECIP_SCALE as int);
            lemma_mul_div_le(dm as int, RECIP_SCALE as int, dists@[i as int] as int);
            lemma_div_pos_is_pos(dm as int * (RECIP_SCALE as int), dists@[i as int] as int);
        }
        let d = dists[i];
        let w: u128 = (dm as u128) * RECIP_SCALE / (d as u128);
        proof {
            if i == mi {
                lemma_div_multiples_vanish(RECIP_SCALE as int, dm as int);
            }
        }
        let b = entries[i].brightness;
        proof {
            lemma_mul_upper_bound(b as int, 0xFFFF_FFFF_FFFF_FFFF, w as int, RECIP_SCALE as int);
            lemma_mul_inequality(b as int, 0xFFFF_FFFF_FFFF_FFFF, w as int);
            lemma_mul_is_distributive_add(0xFFFF_FFFF_FFFF_FFFF, den as int, w as int);
        }
        let t: u128 = (b as u128) * w;
        if num > u128::MAX - t {
            proof {
                lemma_num_sum_prefix(entries@, lux, luma, dm as int, i as int + 1);
            }
            return 0;
        }
        num = num + t;
        den = den + w;
        i += 1;
    }
    proof {
        assert(entries@.subrange(0, n as int) =~= entries@);
        lemma_div_is_ordered(
            num as int,
            0xFFFF_FFFF_FFFF_FFFF * (den as int),
            den as int,
        );
        lemma_div_multiples_vanish(0xFFFF_FFFF_FFFF_FFFF, den as int);
    }
    (num / den) as u64
}

} // verus!
