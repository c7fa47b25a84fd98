//! Learned samples and the sample store.

use vstd::prelude::*;

verus! {

/// One learned data point: the smoothed ambient-light estimate, the optional
/// on-screen content luminance (0..=100 when present), and the brightness the
/// user settled on under those conditions.
#[derive(Clone, Copy, PartialEq, Eq, Structural, Debug, Hash)]
pub struct Entry {
    pub lux: u64,
    pub luma: Option<u8>,
    pub brightness: u64,
}

impl Entry {
    pub fn new(lux: u64, luma: Option<u8>, brightness: u64) -> (e: Entry)
        ensures
            e == (Entry { lux, luma, brightness }),
    {
        Entry { lux, luma, brightness }
    }
}

/// Luminance order: an absent reading sorts below every present one, and
/// present readings compare by value.
pub open spec fn luma_lt(a: Option<u8>, b: Option<u8>) -> bool {
    match (a, b) {
        (Option::None, Option::None) => false,
        (Option::None, Option::Some(_)) => true,
        (Option::Some(_), Option::None) => false,
        (Option::Some(x), Option::Some(y)) => x < y,
    }
}

/// Whether an already-learned entry stays valid knowledge once `pending` is
/// committed.  An entry survives exactly when it does not contradict the
/// monotonicity model: preferred brightness must not decrease as ambient
/// light or content luminance increases.
pub open spec fn keeps(e: Entry, pending: Entry) -> bool {
    let env_darker = e.lux < pending.lux;
    let env_same = e.lux == pending.lux;
    let env_brighter = e.lux > pending.lux;
    let screen_darker = luma_lt(e.luma, pending.luma);
    let screen_same = e.luma == pending.luma;
    let screen_brighter = luma_lt(pending.luma, e.luma);
    ||| env_darker && screen_darker
    ||| env_darker && screen_same && e.brightness <= pending.brightness
    ||| env_darker && screen_brighter && e.brightness <= pending.brightness
    ||| env_same && screen_darker && e.brightness >= pending.brightness
    ||| env_same && screen_brighter && e.brightness <= pending.brightness
    ||| env_brighter && screen_darker && e.brightness >= pending.brightness
    ||| env_brighter && screen_same && e.brightness >= pending.brightness
    ||| env_brighter && screen_brighter
}

/// The subsequence of `s` that the pruning rule retains against `pending`,
/// in its original order.
pub open spec fn pruned(s: Seq<Entry>, pending: Entry) -> Seq<Entry>
    decreases s.len(),
{
    if s.len() == 0 {
        s
    } else {
        let rest = pruned(s.drop_last(), pending);
        if keeps(s.last(), pending) {
            rest.push(s.last())
        } else {
            rest
        }
    }
}

/// Pruning correctness, in general: the pruned store holds exactly the
/// entries of the original store that the retain table keeps against
/// `pending` — nothing else is removed, and nothing contradicted survives.
pub proof fn lemma_pruned_characterization(s: Seq<Entry>, pending: Entry)
    ensures
        forall|i: int|
            0 <= i < pruned(s, pending).len() ==> keeps(#[trigger] pruned(s, pending)[i], pending)
                && s.contains(pruned(s, pending)[i]),
        forall|i: int|
            0 <= i < s.len() && keeps(#[trigger] s[i], pending) ==> pruned(s, pending).contains(
                s[i],
            ),
    decreases s.len(),
{
    if s.len() > 0 {
        lemma_pruned_characterization(s.drop_last(), pending);
        let r = pruned(s, pending);
        let rp = pruned(s.drop_last(), pending);
        assert forall|i: int| 0 <= i < r.len() implies keeps(r[i], pending) && s.contains(
            r[i],
        ) by {
            if i < rp.len() {
                assert(r[i] == rp[i]);
                assert(s.drop_last().contains(rp[i]));
                let j = choose|j: int|
                    0 <= j < s.drop_last().len() && s.drop_last()[j] == rp[i];
                assert(s[j] == rp[i]);
            } else {
                assert(r[i] == s.last());
                assert(s[s.len() - 1] == s.last());
            }
        }
        assert forall|i: int| 0 <= i < s.len() && keeps(s[i], pending) implies r.contains(
            s[i],
        ) by {
            if i < s.len() - 1 {
                assert(s.drop_last()[i] == s[i]);
                assert(rp.contains(s[i]));
                let j = choose|j: int| 0 <= j < rp.len() && rp[j] == s[i];
                assert(r[j] == s[i]);
            } else {
                assert(s[i] == s.last());
                assert(r[r.len() - 1] == s.last());
            }
        }
    }
}

/// Exact-match test on the luminance order used by the pruning rule.
pub fn luma_less(a: Option<u8>, b: Option<u8>) -> (r: bool)
    ensures
        r == luma_lt(a, b),
{
    match (a, b) {
        (Option::None, Option::Some(_)) => true,
        (Option::Some(x), Option::Some(y)) => x < y,
        _ => false,
    }
}

/// Executable form of the pruning predicate `keeps`.
pub fn entry_survives(e: &Entry, pending: &Entry) -> (r: bool)
    ensures
        r == keeps(*e, *pending),
{
    let env_darker = e.lux < pending.lux;
    let env_same = e.lux == pending.lux;
    let env_brighter = e.lux > pending.lux;
    let screen_darker = luma_less(e.luma, pending.luma);
    let screen_brighter = luma_less(pending.luma, e.luma);
    let screen_same = !screen_darker && !screen_brighter;
    let dimmer_ok = e.brightness <= pending.brightness;
    let brighter_ok = e.brightness >= pending.brightness;
    (env_darker && screen_darker)
        || (env_darker && screen_same && dimmer_ok)
        || (env_darker && screen_brighter && dimmer_ok)
        || (env_same && screen_darker && brighter_ok)
        || (env_same && screen_brighter && dimmer_ok)
        || (env_brighter && screen_darker && brighter_ok)
        || (env_brighter && screen_same && brighter_ok)
        || (env_brighter && screen_brighter)
}

/// The ordered store of learned samples.
pub struct Data {
    pub entries: Vec<Entry>,
}

impl Data {
    /// The store an unconfigured or freshly-reset controller starts from.
    pub fn empty() -> (d: Data)
        ensures
            d.entries@ == Seq::<Entry>::empty(),
    {
        Data { entries: Vec::new() }
    }

    /// Drops every entry that the pruning rule says is contradicted by
    /// `pending`, keeping the survivors in their original order.
    pub fn prune(&mut self, pending: &Entry)
        ensures
            final(self).entries@ == pruned(old(self).entries@, *pending),
    {
        let mut kept: Vec<Entry> = Vec::new();
        let n = self.entries.len();
        let mut i: usize = 0;
        while i < n
            invariant
                i <= n,
                n == self.entries.len(),
                kept@ == pruned(self.entries@.subrange(0, i as int), *pending),
            decreases n - i,
        {
            let e = self.entries[i];
            proof {
                let pre = self.entries@.subrange(0, i as int);
                let cur = self.entries@.subrange(0, i as int + 1);
                assert(cur.drop_last() =~= pre);
                assert(cur.last() == e);
            }
            if entry_survives(&e, pending) {
                kept.push(e);
            }
            i += 1;
        }
        proof {
            assert(self.entries@.subrange(0, n as int) =~= self.entries@);
        }
        self.entries = kept;
    }
}

} // verus!
