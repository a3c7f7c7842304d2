//! Provider pools: choosing an upstream by load, by order or by speed.
//!
//! A pool picks the provider with the lowest ratio of active connections to weight, and among
//! equals at random in proportion to weight, so that weights count from the first request on.
use std::collections::HashSet;
use std::sync::Arc;
use vstd::prelude::*;
use crate::auth::KeySet;
use crate::target::{
    ConcurrencyGuard, ConcurrencyLimiter, ConnectionTable, FallbackConfig, Labels,
    LoadBalanceStrategy, RateLimiter, RoutingAction, RoutingRule, Target,
};
use crate::text;

verus! {

broadcast use vstd::std_specs::hash::group_hash_axioms;

// ---------------------------------------------------------------------------
// Least ratios
// ---------------------------------------------------------------------------

/// Whether the ratio of `a` is at most that of `b`; a score is a numerator and a denominator.
pub open spec fn ratio_le(a: (u64, u64), b: (u64, u64)) -> bool {
    a.0 * b.1 <= b.0 * a.1
}

/// Whether the entry `i` has a score, and no score has a lower ratio.
pub open spec fn is_least(scores: Seq<Option<(u64, u64)>>, i: int) -> bool {
    &&& 0 <= i < scores.len()
    &&& scores[i] is Some
    &&& forall|j: int|
        0 <= j < scores.len() && (#[trigger] scores[j]) is Some ==> ratio_le(
            scores[i]->0,
            scores[j]->0,
        )
}

/// Whether `found` lists exactly the positions below `n` that satisfy `wanted`, in order.
pub open spec fn lists_exactly(found: Seq<usize>, n: int, wanted: spec_fn(int) -> bool) -> bool {
    &&& forall|k: int| 0 <= k < found.len() ==> 0 <= (#[trigger] found[k]) < n && wanted(found[k] as int)
    &&& forall|k: int, l: int| 0 <= k < l < found.len() ==> (#[trigger] found[k]) < (#[trigger] found[l])
    &&& forall|i: int| 0 <= i < n && #[trigger] wanted(i) ==> found.contains(i as usize)
}

proof fn lemma_ratio_trans(a: (u64, u64), b: (u64, u64), c: (u64, u64))
    requires
        b.1 > 0,
        ratio_le(a, b),
        ratio_le(b, c),
    ensures
        ratio_le(a, c),
{
    let (a0, a1, b0, b1, c0, c1) = (a.0 as int, a.1 as int, b.0 as int, b.1 as int, c.0 as int, c.1 as int);
    assert(a0 * c1 <= c0 * a1) by (nonlinear_arith)
        requires
            b1 > 0,
            a1 >= 0,
            c1 >= 0,
            a0 * b1 <= b0 * a1,
            b0 * c1 <= c0 * b1,
    {
        assert((a0 * b1) * c1 <= (b0 * a1) * c1);
        assert((b0 * c1) * a1 <= (c0 * b1) * a1);
        assert((a0 * c1) * b1 <= (c0 * a1) * b1);
    }
}

/// The product, which always fits in 128 bits.
fn product(a: u64, b: u64) -> (p: u128)
    ensures
        p == a * b,
{
    assert(a * b <= u64::MAX * u64::MAX) by (nonlinear_arith)
        requires
            0 <= a <= u64::MAX,
            0 <= b <= u64::MAX,
    ;
    a as u128 * b as u128
}

/// Wherever there is a score, there is a lowest one.
pub proof fn law_some_ratio_is_least(scores: Seq<Option<(u64, u64)>>, at: int)
    requires
        forall|i: int| 0 <= i < scores.len() && (#[trigger] scores[i]) is Some ==> (scores[i]->0).1 > 0,
        0 <= at < scores.len(),
        scores[at] is Some,
    ensures
        exists|i: int| is_least(scores, i),
    decreases scores.len(),
{
    let last = scores.len() - 1;
    let front = scores.drop_last();
    if exists|j: int| 0 <= j < front.len() && (#[trigger] front[j]) is Some {
        let j = choose|j: int| 0 <= j < front.len() && (#[trigger] front[j]) is Some;
        assert forall|i: int| 0 <= i < front.len() && (#[trigger] front[i]) is Some implies (
        front[i]->0).1 > 0 by {
            assert(scores[i] is Some);
        }
        law_some_ratio_is_least(front, j);
        let b = choose|b: int| is_least(front, b);
        assert(scores[b] is Some);
        if scores[last] is Some && !ratio_le(scores[b]->0, scores[last]->0) {
            assert forall|l: int| 0 <= l < scores.len() && (#[trigger] scores[l]) is Some implies ratio_le(
                scores[last]->0,
                scores[l]->0,
            ) by {
                if l < last {
                    assert(front[l] is Some);
                    lemma_ratio_trans(scores[last]->0, scores[b]->0, scores[l]->0);
                }
            }
            assert(is_least(scores, last));
        } else {
            assert forall|l: int| 0 <= l < scores.len() && (#[trigger] scores[l]) is Some implies ratio_le(
                scores[b]->0,
                scores[l]->0,
            ) by {
                if l < last {
                    assert(front[l] is Some);
                }
            }
            assert(is_least(scores, b));
        }
    } else {
        assert forall|l: int| 0 <= l < scores.len() && (#[trigger] scores[l]) is Some implies l == last by {
            if l < last {
                assert(front[l] is Some);
            }
        }
        assert(is_least(scores, last));
    }
}

/// The positions of the lowest ratio, in order.
pub fn least_ratio(scores: &Vec<Option<(u64, u64)>>) -> (found: Vec<usize>)
    requires
        forall|i: int|
            0 <= i < scores@.len() && (#[trigger] scores@[i]) is Some ==> (scores@[i]->0).1 > 0,
    ensures
        lists_exactly(found@, scores@.len() as int, |i: int| is_least(scores@, i)),
{
    let mut found: Vec<usize> = Vec::new();
    let mut i: usize = 0;
    while i < scores.len()
        invariant
            i <= scores.len(),
            forall|j: int|
                0 <= j < scores@.len() && (#[trigger] scores@[j]) is Some ==> (scores@[j]->0).1 > 0,
            lists_exactly(found@, i as int, |j: int| is_least(scores@.take(i as int), j)),
            found@.len() == 0 ==> forall|j: int| 0 <= j < i ==> (#[trigger] scores@[j]) is None,
        decreases scores.len() - i,
    {
        let ghost before = scores@.take(i as int);
        let ghost after = scores@.take(i + 1);
        let ghost old_found = found@;
        let ghost old_wanted = |j: int| is_least(before, j);
        let ghost wanted = |j: int| is_least(after, j);
        assert forall|j: int| 0 <= j < i implies #[trigger] after[j] == before[j] by {}
        match scores[i] {
            Some(score) => {
                if found.len() == 0 {
                    found.push(i);
                    proof {
                        assert(after[i as int] == Some(score));
                        assert(is_least(after, i as int));
                        assert forall|j: int| 0 <= j < i + 1 && #[trigger] wanted(j) implies found@.contains(
                            j as usize,
                        ) by {
                            if j < i {
                                assert(scores@[j] is None);
                            }
                            assert(found@[0] == i);
                        }
                    }
                } else {
                    let first: usize = found[0];
                    assert(wanted_at(old_found, old_wanted, 0));
                    let best = scores[first].unwrap();
                    let left: u128 = product(score.0, best.1);
                    let right: u128 = product(best.0, score.1);
                    if left < right {
                        found = Vec::new();
                        found.push(i);
                        proof {
                            assert(!ratio_le(best, score));
                            assert(is_least(after, i as int)) by {
                                assert forall|j: int| 0 <= j < after.len() && (
                                #[trigger] after[j]) is Some implies ratio_le(score, after[j]->0) by {
                                    if j < i {
                                        assert(before[j] is Some);
                                        lemma_ratio_trans(score, best, before[j]->0);
                                    }
                                }
                            }
                            assert forall|j: int| 0 <= j < i + 1 && #[trigger] wanted(j) implies found@.contains(
                                j as usize,
                            ) by {
                                if j < i {
                                    assert(ratio_le(after[j]->0, score));
                                    assert(before[j] is Some);
                                    lemma_ratio_trans(best, before[j]->0, score);
                                }
                                assert(found@[0] == i);
                            }
                        }
                    } else if left == right {
                        found.push(i);
                        proof {
                            assert(ratio_le(best, score) && ratio_le(score, best));
                            lemma_keep(scores@, i as int, old_found, first as int);
                            assert(is_least(after, i as int)) by {
                                assert forall|j: int| 0 <= j < after.len() && (
                                #[trigger] after[j]) is Some implies ratio_le(score, after[j]->0) by {
                                    if j < i {
                                        assert(before[j] is Some);
                                        lemma_ratio_trans(score, best, before[j]->0);
                                    }
                                }
                            }
                            assert forall|k: int| 0 <= k < found@.len() implies 0 <= (
                            #[trigger] found@[k]) < i + 1 && wanted(found@[k] as int) by {
                                if k < old_found.len() {
                                    assert(found@[k] == old_found[k]);
                                }
                            }
                            assert forall|j: int| 0 <= j < i + 1 && #[trigger] wanted(j) implies found@.contains(
                                j as usize,
                            ) by {
                                if j < i {
                                    assert(old_wanted(j)) by {
                                        assert forall|l: int| 0 <= l < before.len() && (
                                        #[trigger] before[l]) is Some implies ratio_le(
                                            before[j]->0,
                                            before[l]->0,
                                        ) by {
                                            assert(after[l] is Some);
                                        }
                                    }
                                    let k = choose|k: int|
                                        0 <= k < old_found.len() && old_found[k] == j as usize;
                                    assert(found@[k] == j as usize);
                                } else {
                                    assert(found@[old_found.len() as int] == i);
                                }
                            }
                        }
                    } else {
                        proof {
                            assert(ratio_le(best, score));
                            assert(!ratio_le(score, best));
                            lemma_keep(scores@, i as int, old_found, first as int);
                            assert forall|j: int| 0 <= j < i + 1 && #[trigger] wanted(j) implies found@.contains(
                                j as usize,
                            ) by {
                                if j < i {
                                    assert(old_wanted(j)) by {
                                        assert forall|l: int| 0 <= l < before.len() && (
                                        #[trigger] before[l]) is Some implies ratio_le(
                                            before[j]->0,
                                            before[l]->0,
                                        ) by {
                                            assert(after[l] is Some);
                                        }
                                    }
                                } else {
                                    assert(after[first as int] is Some);
                                }
                            }
                        }
                    }
                }
            },
            None => {
                proof {
                    assert forall|k: int| 0 <= k < found@.len() implies wanted(
                        (#[trigger] found@[k]) as int,
                    ) by {
                        assert(old_wanted(found@[k] as int));
                        assert forall|l: int| 0 <= l < after.len() && (
                        #[trigger] after[l]) is Some implies ratio_le(
                            after[found@[k] as int]->0,
                            after[l]->0,
                        ) by {
                            assert(before[l] is Some);
                        }
                    }
                    assert forall|j: int| 0 <= j < i + 1 && #[trigger] wanted(j) implies found@.contains(
                        j as usize,
                    ) by {
                        assert(after[i as int] is None);
                        assert(old_wanted(j)) by {
                            assert forall|l: int| 0 <= l < before.len() && (
                            #[trigger] before[l]) is Some implies ratio_le(
                                before[j]->0,
                                before[l]->0,
                            ) by {
                                assert(after[l] is Some);
                            }
                        }
                    }
                }
            },
        }
        i = i + 1;
    }
    assert(scores@.take(scores@.len() as int) == scores@);
    found
}

/// Entry `k` of a list is wanted.
spec fn wanted_at(found: Seq<usize>, wanted: spec_fn(int) -> bool, k: int) -> bool {
    wanted(found[k] as int)
}

/// A list of least ratios stays one when a score that is not lower follows.
proof fn lemma_keep(scores: Seq<Option<(u64, u64)>>, i: int, found: Seq<usize>, first: int)
    requires
        0 <= i < scores.len(),
        forall|j: int| 0 <= j < scores.len() && (#[trigger] scores[j]) is Some ==> (scores[j]->0).1 > 0,
        lists_exactly(found, i, |j: int| is_least(scores.take(i), j)),
        found.len() > 0,
        first == found[0],
        scores[i] is Some,
        ratio_le(scores[first]->0, scores[i]->0),
    ensures
        forall|k: int| 0 <= k < found.len() ==> is_least(scores.take(i + 1), (#[trigger] found[k]) as int),
{
    let before = scores.take(i);
    let after = scores.take(i + 1);
    let old_wanted = |j: int| is_least(before, j);
    assert forall|k: int| 0 <= k < found.len() implies is_least(after, (#[trigger] found[k]) as int) by {
        let f = found[k] as int;
        assert(old_wanted(f));
        assert(old_wanted(found[0] as int));
        assert(before[first] is Some);
        assert(ratio_le(before[f]->0, before[first]->0));
        lemma_ratio_trans(scores[f]->0, scores[first]->0, scores[i]->0);
        assert forall|l: int| 0 <= l < after.len() && (#[trigger] after[l]) is Some implies ratio_le(
            after[f]->0,
            after[l]->0,
        ) by {
            if l < i {
                assert(before[l] is Some);
            }
        }
    }
}

// ---------------------------------------------------------------------------
// Choice by weight
// ---------------------------------------------------------------------------

/// The sum of the first `n` weights.
pub open spec fn weight_before(weights: Seq<u32>, n: int) -> nat
    decreases n,
{
    if n <= 0 {
        0
    } else {
        weight_before(weights, n - 1) + weights[n - 1] as nat
    }
}

/// Whether a number drawn below the sum of all weights falls to entry `k`.
pub open spec fn falls_to(weights: Seq<u32>, drawn: nat, k: int) -> bool {
    &&& 0 <= k < weights.len()
    &&& weight_before(weights, k) <= drawn < weight_before(weights, k + 1)
}

proof fn lemma_weight_grows(weights: Seq<u32>, i: int, j: int)
    requires
        0 <= i <= j <= weights.len(),
    ensures
        weight_before(weights, i) <= weight_before(weights, j),
        weight_before(weights, j) <= j * u32::MAX,
    decreases j,
{
    if j > 0 {
        if i < j {
            lemma_weight_grows(weights, i, j - 1);
        } else {
            lemma_weight_grows(weights, 0, j - 1);
        }
        assert(j * u32::MAX == (j - 1) * u32::MAX + u32::MAX) by (nonlinear_arith);
    }
}

/// Every number below the sum of all weights falls to exactly one entry, and as many numbers fall
/// to an entry as its weight says.
pub proof fn law_draws_follow_weights(weights: Seq<u32>, drawn: nat)
    requires
        drawn < weight_before(weights, weights.len() as int),
    ensures
        exists|k: int| falls_to(weights, drawn, k),
        forall|k: int, l: int| falls_to(weights, drawn, k) && falls_to(weights, drawn, l) ==> k == l,
        forall|k: int|
            0 <= k < weights.len() ==> #[trigger] weight_before(weights, k + 1) - weight_before(
                weights,
                k,
            ) == weights[k],
{
    lemma_falls_somewhere(weights, drawn, weights.len() as int);
    assert forall|k: int, l: int| falls_to(weights, drawn, k) && falls_to(weights, drawn, l) implies k
        == l by {
        if k < l {
            lemma_weight_grows(weights, k + 1, l);
        } else if l < k {
            lemma_weight_grows(weights, l + 1, k);
        }
    }
}

proof fn lemma_falls_somewhere(weights: Seq<u32>, drawn: nat, n: int)
    requires
        0 <= n <= weights.len(),
        drawn < weight_before(weights, n),
    ensures
        exists|k: int| falls_to(weights, drawn, k),
    decreases n,
{
    if drawn >= weight_before(weights, n - 1) {
        assert(falls_to(weights, drawn, n - 1));
    } else {
        lemma_falls_somewhere(weights, drawn, n - 1);
    }
}

/// The sum of all weights.
pub fn total_weight(weights: &Vec<u32>) -> (total: u128)
    ensures
        total == weight_before(weights@, weights@.len() as int),
{
    let mut total: u128 = 0;
    let mut i: usize = 0;
    while i < weights.len()
        invariant
            i <= weights.len(),
            total == weight_before(weights@, i as int),
        decreases weights.len() - i,
    {
        proof {
            lemma_weight_grows(weights@, 0, i as int);
            assert(i * u32::MAX <= u64::MAX * u32::MAX) by (nonlinear_arith)
                requires
                    0 <= i <= u64::MAX,
            ;
        }
        total = total + weights[i] as u128;
        i = i + 1;
    }
    total
}

/// The entry to which a drawn number falls.
pub fn weighted_index(weights: &Vec<u32>, drawn: u128) -> (index: usize)
    requires
        drawn < weight_before(weights@, weights@.len() as int),
    ensures
        falls_to(weights@, drawn as nat, index as int),
{
    let mut cumulative: u128 = 0;
    let mut i: usize = 0;
    while i < weights.len()
        invariant
            i <= weights.len(),
            cumulative == weight_before(weights@, i as int),
            cumulative <= drawn,
            drawn < weight_before(weights@, weights@.len() as int),
        decreases weights.len() - i,
    {
        proof {
            lemma_weight_grows(weights@, 0, i as int);
            assert(i * u32::MAX <= u64::MAX * u32::MAX) by (nonlinear_arith)
                requires
                    0 <= i <= u64::MAX,
            ;
        }
        cumulative = cumulative + weights[i] as u128;
        if drawn < cumulative {
            return i;
        }
        i = i + 1;
    }
    proof {
        assert(false);
    }
    0
}

/// Calls `Rng::random_range` of `rand` on the thread's generator: some number below `bound`.
#[verifier::external_body]
fn draw_below(bound: u128) -> (drawn: u128)
    requires
        bound > 0,
    ensures
        drawn < bound,
{
    rand::Rng::random_range(&mut rand::rng(), 0..bound)
}

// ---------------------------------------------------------------------------
// Time to first byte
// ---------------------------------------------------------------------------

/// A measurement counts for this many times its own length.
pub const DECAY_MULTIPLIER: u64 = 5;

/// What a measurement of `ttfb` microseconds, taken at `recorded_at` milliseconds, still counts
/// for at `now` milliseconds: it falls evenly to zero over five times its own length.
pub open spec fn decayed(ttfb: u64, recorded_at: u64, now: u64) -> u64 {
    let window = (ttfb / 1000) * DECAY_MULTIPLIER;
    let elapsed = if now > recorded_at {
        now - recorded_at
    } else {
        0
    };
    if elapsed >= window {
        0
    } else {
        ((ttfb * (window - elapsed)) / window) as u64
    }
}

/// A decayed measurement is no longer than the measurement.
proof fn lemma_decay_quotient(ttfb: int, left: int, window: int)
    requires
        0 <= ttfb,
        0 <= left <= window,
        0 < window,
    ensures
        0 <= (ttfb * left) / window <= ttfb,
{
    assert(0 <= ttfb * left <= ttfb * window) by (nonlinear_arith)
        requires
            0 <= ttfb,
            0 <= left <= window,
    ;
    vstd::arithmetic::div_mod::lemma_div_is_ordered(ttfb * left, ttfb * window, window);
    vstd::arithmetic::div_mod::lemma_div_multiples_vanish(ttfb, window);
    assert(ttfb * window == window * ttfb) by (nonlinear_arith);
    vstd::arithmetic::div_mod::lemma_div_is_ordered(0, ttfb * left, window);
}

/// A measurement never counts for more than it was, counts for less and less as time passes, and
/// for nothing once five times its length have passed.
pub proof fn law_decay(ttfb: u64, recorded_at: u64, earlier: u64, later: u64)
    requires
        earlier <= later,
    ensures
        decayed(ttfb, recorded_at, earlier) <= ttfb,
        decayed(ttfb, recorded_at, later) <= decayed(ttfb, recorded_at, earlier),
        later - recorded_at >= (ttfb / 1000) * DECAY_MULTIPLIER ==> decayed(
            ttfb,
            recorded_at,
            later,
        ) == 0,
        ttfb >= 1000 && earlier <= recorded_at ==> decayed(ttfb, recorded_at, earlier) == ttfb,
{
    let window = (ttfb / 1000) * DECAY_MULTIPLIER;
    let gone_earlier = if earlier > recorded_at {
        earlier - recorded_at
    } else {
        0
    };
    let gone_later = if later > recorded_at {
        later - recorded_at
    } else {
        0
    };
    if gone_earlier < window {
        lemma_decay_quotient(ttfb as int, window - gone_earlier, window);
        if gone_later < window {
            lemma_decay_quotient(ttfb as int, window - gone_later, window);
            assert(ttfb * (window - gone_later) <= ttfb * (window - gone_earlier))
                by (nonlinear_arith)
                requires
                    gone_earlier <= gone_later,
                    0 <= ttfb,
            ;
            vstd::arithmetic::div_mod::lemma_div_is_ordered(
                ttfb * (window - gone_later),
                ttfb * (window - gone_earlier),
                window,
            );
        }
        if gone_earlier == 0 {
            vstd::arithmetic::div_mod::lemma_div_multiples_vanish(ttfb as int, window);
            assert(ttfb * window == window * ttfb) by (nonlinear_arith);
        }
    }
}

/// The last time to first byte that was measured for each provider.
pub struct TtfbTracker {
    slots: Vec<(u64, u64)>,
}

impl View for TtfbTracker {
    /// For each provider the measurement in microseconds and when it was taken, in milliseconds.
    type V = Seq<(u64, u64)>;

    closed spec fn view(&self) -> Seq<(u64, u64)> {
        self.slots@
    }
}

impl TtfbTracker {
    /// What the measurement of a provider counts for; nothing where there is none.
    pub open spec fn counts_for(self, provider: int, now: u64) -> u64 {
        if 0 <= provider < self@.len() {
            decayed(self@[provider].0, self@[provider].1, now)
        } else {
            0
        }
    }

    /// A tracker for `count` providers, without measurements.
    pub fn new(count: usize) -> (tracker: TtfbTracker)
        ensures
            tracker@.len() == count,
            forall|i: int| 0 <= i < count ==> #[trigger] tracker@[i] == (0u64, 0u64),
    {
        let mut slots: Vec<(u64, u64)> = Vec::new();
        while slots.len() < count
            invariant
                slots@.len() <= count,
                forall|i: int| 0 <= i < slots@.len() ==> #[trigger] slots@[i] == (0u64, 0u64),
            decreases count - slots@.len(),
        {
            slots.push((0, 0));
        }
        TtfbTracker { slots }
    }

    /// Takes note of a measurement of `ttfb` microseconds, taken at `now` milliseconds.
    pub fn record(&mut self, provider_index: usize, ttfb: u64, now: u64)
        ensures
            provider_index < old(self)@.len() ==> final(self)@ == old(self)@.update(
                provider_index as int,
                (ttfb, now),
            ),
            provider_index >= old(self)@.len() ==> final(self)@ == old(self)@,
    {
        if provider_index < self.slots.len() {
            self.slots.set(provider_index, (ttfb, now));
        }
    }

    /// What the measurement of a provider counts for at `now` milliseconds, in microseconds.
    pub fn get(&self, provider_index: usize, now: u64) -> (ttfb: u64)
        ensures
            ttfb == self.counts_for(provider_index as int, now),
    {
        if provider_index >= self.slots.len() {
            return 0;
        }
        let (ttfb, recorded_at) = self.slots[provider_index];
        let elapsed: u64 = now.saturating_sub(recorded_at);
        let window: u64 = (ttfb / 1000) * DECAY_MULTIPLIER;
        if elapsed >= window {
            return 0;
        }
        proof {
            lemma_decay_quotient(ttfb as int, window - elapsed, window as int);
        }
        (product(ttfb, window - elapsed) / window as u128) as u64
    }
}

// ---------------------------------------------------------------------------
// Providers
// ---------------------------------------------------------------------------

/// One upstream of a pool.
pub struct Provider {
    pub target: Target,
    /// The share of requests that the provider is meant to get, relative to the others.
    pub weight: u32,
    /// What counts and limits the active connections.
    pub limiter: ConcurrencyLimiter,
}

impl Provider {
    /// The number of active connections.
    pub open spec fn active(self, table: ConnectionTable) -> usize {
        table@[self.limiter.slot()]
    }

    /// Whether two providers are the same upstream: the same URL, key and model.
    pub open spec fn same_upstream(self, other: Provider) -> bool {
        &&& self.target.url.text() == other.target.url.text()
        &&& text::optional(self.target.onwards_key) == text::optional(other.target.onwards_key)
        &&& text::optional(self.target.onwards_model) == text::optional(other.target.onwards_model)
    }

    /// A provider without a concurrency limit.
    pub fn new(table: &mut ConnectionTable, target: Target, weight: u32) -> (provider: Provider)
        ensures
            provider.target == target,
            provider.weight == weight,
            provider.limiter.limit_set() is None,
            provider.limiter.slot() == old(table)@.len(),
            final(table)@ == old(table)@.push(0),
    {
        Provider { target, weight, limiter: ConcurrencyLimiter::new(table) }
    }

    /// A provider with a concurrency limit.
    pub fn with_concurrency_limit(
        table: &mut ConnectionTable,
        target: Target,
        weight: u32,
        limit: usize,
    ) -> (provider: Provider)
        ensures
            provider.target == target,
            provider.weight == weight,
            provider.limiter.limit_set() == Some(limit),
            provider.limiter.slot() == old(table)@.len(),
            final(table)@ == old(table)@.push(0),
    {
        Provider { target, weight, limiter: ConcurrencyLimiter::with_limit(table, limit) }
    }

    /// The number of active connections.
    pub fn active_connections(&self, table: &ConnectionTable) -> (count: usize)
        requires
            self.limiter.counted_in(*table),
        ensures
            count == self.active(*table),
    {
        self.limiter.active(table)
    }

    fn is_same_upstream(&self, other: &Provider) -> (same: bool)
        ensures
            same == self.same_upstream(*other),
    {
        self.target.url.same(&other.target.url) && same_optional(
            &self.target.onwards_key,
            &other.target.onwards_key,
        ) && same_optional(&self.target.onwards_model, &other.target.onwards_model)
    }
}

fn same_optional(a: &Option<String>, b: &Option<String>) -> (same: bool)
    ensures
        same == (text::optional(*a) == text::optional(*b)),
{
    match (a, b) {
        (Some(x), Some(y)) => text::same_text(x.as_str(), y.as_str()),
        (None, None) => true,
        _ => false,
    }
}

// ---------------------------------------------------------------------------
// Pools
// ---------------------------------------------------------------------------

/// The providers of one model, and the settings that they share.
pub struct ProviderPool {
    providers: Vec<Provider>,
    keys: Option<KeySet>,
    pool_limiter: Option<Arc<dyn RateLimiter>>,
    pool_concurrency_limiter: Option<ConcurrencyLimiter>,
    fallback: Option<FallbackConfig>,
    strategy: LoadBalanceStrategy,
    trusted: bool,
    routing_rules: Vec<RoutingRule>,
    ttfb_tracker: TtfbTracker,
}

impl ProviderPool {
    /// The providers, in the order of definition.
    pub closed spec fn all(self) -> Seq<Provider> {
        self.providers@
    }

    /// The keys of those who may use the pool; everyone may where there are none.
    pub closed spec fn key_set(self) -> Option<KeySet> {
        self.keys
    }

    /// The rate limit of the pool.
    pub closed spec fn rate_limit(self) -> Option<Arc<dyn RateLimiter>> {
        self.pool_limiter
    }

    /// The concurrency limit of the pool.
    pub closed spec fn concurrency_limit(self) -> Option<ConcurrencyLimiter> {
        self.pool_concurrency_limiter
    }

    /// When requests are tried again.
    pub closed spec fn retry_rules(self) -> Option<FallbackConfig> {
        self.fallback
    }

    /// How providers are chosen.
    pub closed spec fn chosen_by(self) -> LoadBalanceStrategy {
        self.strategy
    }

    /// Whether the providers are trusted.
    pub closed spec fn trusts(self) -> bool {
        self.trusted
    }

    /// The routing rules, in the order in which they are tried.
    pub closed spec fn rules(self) -> Seq<RoutingRule> {
        self.routing_rules@
    }

    /// The measurements of the providers.
    pub closed spec fn measurements(self) -> TtfbTracker {
        self.ttfb_tracker
    }

    /// Whether the table has the slot of every limiter of the pool.
    pub open spec fn counted_in(self, table: ConnectionTable) -> bool {
        &&& forall|i: int|
            0 <= i < self.all().len() ==> (#[trigger] self.all()[i]).limiter.counted_in(table)
        &&& self.concurrency_limit() matches Some(l) ==> l.counted_in(table)
    }

    /// Whether a provider may be chosen: it is not excluded and not at its concurrency limit.
    pub open spec fn available(self, table: ConnectionTable, exclude: Set<usize>, i: int) -> bool {
        &&& 0 <= i < self.all().len()
        &&& !exclude.contains(i as usize)
        &&& !self.all()[i].limiter.full(table)
    }

    /// The load of each provider that may be chosen, as a ratio of connections to weight. A
    /// provider without weight has none.
    pub open spec fn loads(self, table: ConnectionTable, exclude: Set<usize>) -> Seq<
        Option<(u64, u64)>,
    > {
        Seq::new(
            self.all().len(),
            |i: int|
                if self.available(table, exclude, i) && self.all()[i].weight > 0 {
                    Some((self.all()[i].active(table) as u64, self.all()[i].weight as u64))
                } else {
                    None
                },
        )
    }

    /// The last response time of each provider that may be chosen, as a ratio.
    pub open spec fn speeds(self, table: ConnectionTable, exclude: Set<usize>, now: u64) -> Seq<
        Option<(u64, u64)>,
    > {
        Seq::new(
            self.all().len(),
            |i: int|
                if self.available(table, exclude, i) {
                    Some((self.measurements().counts_for(i, now), 1u64))
                } else {
                    None
                },
        )
    }

    /// Whether the strategy allows a provider: the first that is available, one of the least
    /// loaded, or one of the fastest.
    pub open spec fn preferred(
        self,
        table: ConnectionTable,
        exclude: Set<usize>,
        now: u64,
        i: int,
    ) -> bool {
        match self.chosen_by() {
            LoadBalanceStrategy::Priority => self.available(table, exclude, i) && forall|j: int|
                0 <= j < i ==> !self.available(table, exclude, j),
            LoadBalanceStrategy::WeightedRandom => is_least(self.loads(table, exclude), i),
            LoadBalanceStrategy::FastestTtfb => is_least(self.speeds(table, exclude, now), i),
        }
    }

    /// The weights of some providers.
    pub open spec fn weights_of(self, chosen: Seq<usize>) -> Seq<u32> {
        Seq::new(chosen.len(), |k: int| self.all()[chosen[k] as int].weight)
    }

    /// Whether a choice can be made: where several providers are preferred, one has a weight.
    pub open spec fn can_draw(self, table: ConnectionTable, exclude: Set<usize>, now: u64) -> bool {
        forall|i: int, j: int|
            i != j && #[trigger] self.preferred(table, exclude, now, i) && #[trigger] self.preferred(
                table,
                exclude,
                now,
                j,
            ) ==> exists|k: int|
                #[trigger] self.preferred(table, exclude, now, k) && self.all()[k].weight > 0
    }

    /// A pool without settings.
    pub fn new(providers: Vec<Provider>) -> (pool: ProviderPool)
        ensures
            pool.all() == providers@,
            pool.key_set() is None,
            pool.rate_limit() is None,
            pool.concurrency_limit() is None,
            pool.retry_rules() is None,
            pool.chosen_by() == LoadBalanceStrategy::WeightedRandom,
            !pool.trusts(),
            pool.rules() == Seq::<RoutingRule>::empty(),
            pool.measurements()@.len() == providers@.len(),
            forall|i: int|
                0 <= i < providers@.len() ==> #[trigger] pool.measurements()@[i] == (0u64, 0u64),
    {
        let ttfb_tracker = TtfbTracker::new(providers.len());
        ProviderPool {
            providers,
            keys: None,
            pool_limiter: None,
            pool_concurrency_limiter: None,
            fallback: None,
            strategy: LoadBalanceStrategy::default(),
            trusted: false,
            routing_rules: Vec::new(),
            ttfb_tracker,
        }
    }

    /// A pool with settings.
    pub fn with_config(
        providers: Vec<Provider>,
        keys: Option<KeySet>,
        pool_limiter: Option<Arc<dyn RateLimiter>>,
        pool_concurrency_limiter: Option<ConcurrencyLimiter>,
        fallback: Option<FallbackConfig>,
        strategy: LoadBalanceStrategy,
        trusted: bool,
        routing_rules: Vec<RoutingRule>,
    ) -> (pool: ProviderPool)
        ensures
            pool.all() == providers@,
            pool.key_set() == keys,
            pool.rate_limit() == pool_limiter,
            pool.concurrency_limit() == pool_concurrency_limiter,
            pool.retry_rules() == fallback,
            pool.chosen_by() == strategy,
            pool.trusts() == trusted,
            pool.rules() == routing_rules@,
            pool.measurements()@.len() == providers@.len(),
            forall|i: int|
                0 <= i < providers@.len() ==> #[trigger] pool.measurements()@[i] == (0u64, 0u64),
    {
        let ttfb_tracker = TtfbTracker::new(providers.len());
        ProviderPool {
            providers,
            keys,
            pool_limiter,
            pool_concurrency_limiter,
            fallback,
            strategy,
            trusted,
            routing_rules,
            ttfb_tracker,
        }
    }

    /// A pool of one provider.
    pub fn single(table: &mut ConnectionTable, target: Target, weight: u32) -> (pool: ProviderPool)
        ensures
            pool.all().len() == 1,
            pool.all()[0].target == target,
            pool.all()[0].weight == weight,
            pool.all()[0].limiter.limit_set() is None,
            pool.all()[0].limiter.slot() == old(table)@.len(),
            final(table)@ == old(table)@.push(0),
            pool.key_set() is None,
            pool.rate_limit() is None,
            pool.concurrency_limit() is None,
            pool.retry_rules() is None,
            pool.chosen_by() == LoadBalanceStrategy::WeightedRandom,
            !pool.trusts(),
            pool.rules() == Seq::<RoutingRule>::empty(),
            pool.measurements()@ == seq![(0u64, 0u64)],
    {
        let mut providers: Vec<Provider> = Vec::new();
        providers.push(Provider::new(table, target, weight));
        ProviderPool::new(providers)
    }
}

impl ProviderPool {
    /// Whether the connections of the pool are counted in a table.
    pub fn is_counted(&self, table: &ConnectionTable) -> (counted: bool)
        ensures
            counted == self.counted_in(*table),
    {
        let mut i: usize = 0;
        while i < self.providers.len()
            invariant
                i <= self.providers.len(),
                forall|j: int|
                    0 <= j < i ==> (#[trigger] self.all()[j]).limiter.counted_in(*table),
            decreases self.providers.len() - i,
        {
            if !self.providers[i].limiter.is_counted(table) {
                assert(!self.all()[i as int].limiter.counted_in(*table));
                return false;
            }
            i = i + 1;
        }
        match &self.pool_concurrency_limiter {
            Some(limiter) => limiter.is_counted(table),
            None => true,
        }
    }

    /// The providers that the strategy allows, in the order of definition.
    pub fn preferred_providers(
        &self,
        table: &ConnectionTable,
        exclude: &HashSet<usize>,
        now: u64,
    ) -> (found: Vec<usize>)
        requires
            self.counted_in(*table),
        ensures
            lists_exactly(
                found@,
                self.all().len() as int,
                |i: int| self.preferred(*table, exclude@, now, i),
            ),
    {
        match self.strategy {
            LoadBalanceStrategy::Priority => self.priority_candidates(table, exclude, now),
            LoadBalanceStrategy::WeightedRandom => self.least_connections_candidates(table, exclude, now),
            LoadBalanceStrategy::FastestTtfb => self.fastest_ttfb_candidates(table, exclude, now),
        }
    }

    fn is_available(&self, table: &ConnectionTable, exclude: &HashSet<usize>, i: usize) -> (yes: bool)
        requires
            self.counted_in(*table),
            i < self.all().len(),
        ensures
            yes == self.available(*table, exclude@, i as int),
    {
        !exclude.contains(&i) && !self.providers[i].limiter.at_capacity(table)
    }

    /// The first provider that is available.
    fn priority_candidates(
        &self,
        table: &ConnectionTable,
        exclude: &HashSet<usize>,
        now: u64,
    ) -> (found: Vec<usize>)
        requires
            self.counted_in(*table),
            self.chosen_by() == LoadBalanceStrategy::Priority,
        ensures
            lists_exactly(
                found@,
                self.all().len() as int,
                |i: int| self.preferred(*table, exclude@, now, i),
            ),
    {
        let mut found: Vec<usize> = Vec::new();
        let ghost wanted = |i: int| self.preferred(*table, exclude@, now, i);
        let mut i: usize = 0;
        while i < self.providers.len()
            invariant
                self.counted_in(*table),
                self.chosen_by() == LoadBalanceStrategy::Priority,
                i <= self.providers.len(),
                self.providers@ == self.all(),
                found@.len() == 0,
                forall|j: int| 0 <= j < i ==> !self.available(*table, exclude@, j),
                wanted == |i: int| self.preferred(*table, exclude@, now, i),
            decreases self.providers.len() - i,
        {
            if self.is_available(table, exclude, i) {
                found.push(i);
                proof {
                    assert(wanted(i as int));
                    assert forall|j: int| 0 <= j < self.all().len() && #[trigger] wanted(j) implies found@.contains(
                        j as usize,
                    ) by {
                        assert(self.preferred(*table, exclude@, now, j));
                        if j > i {
                            assert(!self.available(*table, exclude@, i as int));
                        }
                        assert(j == i);
                        assert(found@[0] == i);
                    }
                }
                return found;
            }
            i = i + 1;
        }
        found
    }

    /// The providers with the lowest ratio of active connections to weight.
    fn least_connections_candidates(
        &self,
        table: &ConnectionTable,
        exclude: &HashSet<usize>,
        now: u64,
    ) -> (found: Vec<usize>)
        requires
            self.counted_in(*table),
            self.chosen_by() == LoadBalanceStrategy::WeightedRandom,
        ensures
            lists_exactly(
                found@,
                self.all().len() as int,
                |i: int| self.preferred(*table, exclude@, now, i),
            ),
    {
        let mut scores: Vec<Option<(u64, u64)>> = Vec::new();
        let ghost loads = self.loads(*table, exclude@);
        let mut i: usize = 0;
        while i < self.providers.len()
            invariant
                self.counted_in(*table),
                i <= self.providers.len(),
                self.providers@ == self.all(),
                loads == self.loads(*table, exclude@),
                scores@ == loads.take(i as int),
            decreases self.providers.len() - i,
        {
            let weight: u32 = self.providers[i].weight;
            if self.is_available(table, exclude, i) && weight > 0 {
                let active: usize = self.providers[i].limiter.active(table);
                scores.push(Some((active as u64, weight as u64)));
            } else {
                scores.push(None);
            }
            i = i + 1;
        }
        assert(loads.take(loads.len() as int) == loads);
        let found = least_ratio(&scores);
        proof {
            assert((|i: int| is_least(scores@, i)) =~= (|i: int|
                self.preferred(*table, exclude@, now, i)));
        }
        found
    }

    /// The providers that were last seen to answer fastest.
    fn fastest_ttfb_candidates(
        &self,
        table: &ConnectionTable,
        exclude: &HashSet<usize>,
        now: u64,
    ) -> (found: Vec<usize>)
        requires
            self.counted_in(*table),
            self.chosen_by() == LoadBalanceStrategy::FastestTtfb,
        ensures
            lists_exactly(
                found@,
                self.all().len() as int,
                |i: int| self.preferred(*table, exclude@, now, i),
            ),
    {
        let mut scores: Vec<Option<(u64, u64)>> = Vec::new();
        let ghost speeds = self.speeds(*table, exclude@, now);
        let mut i: usize = 0;
        while i < self.providers.len()
            invariant
                self.counted_in(*table),
                i <= self.providers.len(),
                self.providers@ == self.all(),
                speeds == self.speeds(*table, exclude@, now),
                scores@ == speeds.take(i as int),
            decreases self.providers.len() - i,
        {
            if self.is_available(table, exclude, i) {
                scores.push(Some((self.ttfb_tracker.get(i, now), 1)));
            } else {
                scores.push(None);
            }
            i = i + 1;
        }
        assert(speeds.take(speeds.len() as int) == speeds);
        let found = least_ratio(&scores);
        proof {
            assert((|i: int| is_least(scores@, i)) =~= (|i: int|
                self.preferred(*table, exclude@, now, i)));
        }
        found
    }
}

/// A weight among others makes their sum positive.
proof fn lemma_weight_positive(weights: Seq<u32>, k: int)
    requires
        0 <= k < weights.len(),
        weights[k] > 0,
    ensures
        weight_before(weights, weights.len() as int) > 0,
{
    lemma_weight_grows(weights, k + 1, weights.len() as int);
}

/// A positive sum has a positive weight in it.
proof fn lemma_some_weight(weights: Seq<u32>, n: int) -> (k: int)
    requires
        0 <= n <= weights.len(),
        weight_before(weights, n) > 0,
    ensures
        0 <= k < n,
        weights[k] > 0,
    decreases n,
{
    if weights[n - 1] > 0 {
        n - 1
    } else {
        lemma_some_weight(weights, n - 1)
    }
}

impl ProviderPool {
    /// The weights of some providers.
    fn weights(&self, chosen: &Vec<usize>) -> (weights: Vec<u32>)
        requires
            forall|k: int| 0 <= k < chosen@.len() ==> (#[trigger] chosen@[k]) < self.all().len(),
        ensures
            weights@ == self.weights_of(chosen@),
    {
        let mut weights: Vec<u32> = Vec::new();
        let mut i: usize = 0;
        while i < chosen.len()
            invariant
                i <= chosen.len(),
                self.providers@ == self.all(),
                forall|k: int| 0 <= k < chosen@.len() ==> (#[trigger] chosen@[k]) < self.all().len(),
                weights@ == self.weights_of(chosen@).take(i as int),
            decreases chosen.len() - i,
        {
            weights.push(self.providers[chosen[i]].weight);
            i = i + 1;
        }
        assert(self.weights_of(chosen@).take(chosen@.len() as int) == self.weights_of(chosen@));
        weights
    }

    /// The provider, of those given, to which a drawn number falls.
    pub fn choose_among(&self, chosen: &Vec<usize>, drawn: u128) -> (index: usize)
        requires
            forall|k: int| 0 <= k < chosen@.len() ==> (#[trigger] chosen@[k]) < self.all().len(),
            drawn < weight_before(self.weights_of(chosen@), chosen@.len() as int),
        ensures
            exists|k: int|
                #[trigger] falls_to(self.weights_of(chosen@), drawn as nat, k) && index == chosen@[k],
    {
        let weights = self.weights(chosen);
        let k: usize = weighted_index(&weights, drawn);
        chosen[k]
    }

    /// Whether a choice can be made: where several providers are preferred, one has a weight.
    pub fn draw_is_possible(
        &self,
        table: &ConnectionTable,
        exclude: &HashSet<usize>,
        now: u64,
    ) -> (possible: bool)
        requires
            self.counted_in(*table),
        ensures
            possible == self.can_draw(*table, exclude@, now),
    {
        let found = self.preferred_providers(table, exclude, now);
        let ghost wanted = |i: int| self.preferred(*table, exclude@, now, i);
        let count: usize = self.providers.len();
        assert(self.all().len() == count);
        if found.len() <= 1 {
            proof {
                assert forall|i: int, j: int| i != j && #[trigger] self.preferred(
                    *table,
                    exclude@,
                    now,
                    i,
                ) && #[trigger] self.preferred(*table, exclude@, now, j) implies false by {
                    assert(wanted(i) && wanted(j));
                    assert(found@.contains(i as usize) && found@.contains(j as usize));
                }
            }
            return true;
        }
        let weights = self.weights(&found);
        let total: u128 = total_weight(&weights);
        proof {
            if total > 0 {
                let k = lemma_some_weight(weights@, weights@.len() as int);
                assert(wanted(found@[k] as int));
                assert(self.preferred(*table, exclude@, now, found@[k] as int));
            } else if self.can_draw(*table, exclude@, now) {
                assert(wanted(found@[0] as int) && wanted(found@[1] as int));
                assert(found@[0] < found@[1]);
                assert(self.preferred(*table, exclude@, now, found@[0] as int));
                assert(self.preferred(*table, exclude@, now, found@[1] as int));
                let p = choose|p: int| #[trigger]
                    self.preferred(*table, exclude@, now, p) && self.all()[p].weight > 0;
                assert(wanted(p));
                let k = choose|k: int| 0 <= k < found@.len() && found@[k] == p as usize;
                lemma_weight_positive(weights@, k);
            }
        }
        total > 0
    }

    /// Chooses a provider that is not excluded and makes a connection to it active.
    pub fn select_excluding(
        &self,
        table: &mut ConnectionTable,
        exclude: &HashSet<usize>,
        now: u64,
    ) -> (selected: Option<(usize, &Target, ConcurrencyGuard)>)
        requires
            self.counted_in(*old(table)),
            self.can_draw(*old(table), exclude@, now),
        ensures
            match selected {
                Some((i, target, guard)) => {
                    &&& self.preferred(*old(table), exclude@, now, i as int)
                    &&& self.all()[i as int].weight > 0 || forall|j: int|
                        self.preferred(*old(table), exclude@, now, j) ==> j == i
                    &&& *target == self.all()[i as int].target
                    &&& guard.slot() == self.all()[i as int].limiter.slot()
                    &&& final(table)@ == old(table)@.update(
                        guard.slot(),
                        (old(table)@[guard.slot()] + 1) as usize,
                    )
                },
                None => {
                    &&& forall|i: int| !self.preferred(*old(table), exclude@, now, i)
                    &&& final(table)@ == old(table)@
                },
            },
    {
        let ghost before = *table;
        let found = self.preferred_providers(table, exclude, now);
        let ghost wanted = |i: int| self.preferred(before, exclude@, now, i);
        let count: usize = self.providers.len();
        assert(self.all().len() == count);
        if found.len() == 0 {
            proof {
                assert forall|i: int| !self.preferred(before, exclude@, now, i) by {
                    if self.preferred(before, exclude@, now, i) {
                        assert(wanted(i));
                        assert(found@.contains(i as usize));
                    }
                }
            }
            return None;
        }
        let selected: usize = if found.len() == 1 {
            proof {
                assert(wanted(found@[0] as int));
                assert forall|j: int| self.preferred(before, exclude@, now, j) implies j == found@[0] by {
                    assert(wanted(j));
                    assert(found@.contains(j as usize));
                }
            }
            found[0]
        } else {
            let weights = self.weights(&found);
            let total: u128 = total_weight(&weights);
            proof {
                assert(wanted(found@[0] as int) && wanted(found@[1] as int));
                assert(found@[0] < found@[1]);
                assert(self.preferred(before, exclude@, now, found@[0] as int));
                assert(self.preferred(before, exclude@, now, found@[1] as int));
                let p = choose|p: int| #[trigger]
                    self.preferred(before, exclude@, now, p) && self.all()[p].weight > 0;
                assert(wanted(p));
                let k = choose|k: int| 0 <= k < found@.len() && found@[k] == p as usize;
                lemma_weight_positive(weights@, k);
            }
            let drawn: u128 = draw_below(total);
            let selected: usize = self.choose_among(&found, drawn);
            proof {
                let k = choose|k: int| #[trigger]
                    falls_to(self.weights_of(found@), drawn as nat, k) && selected == found@[k];
                assert(wanted(found@[k] as int));
            }
            selected
        };
        assert(self.preferred(before, exclude@, now, selected as int));
        assert(self.available(before, exclude@, selected as int));
        let provider = &self.providers[selected];
        match provider.limiter.try_acquire(table) {
            Some(guard) => Some((selected, &provider.target, guard)),
            None => None,
        }
    }

    /// Chooses a provider and makes a connection to it active.
    pub fn select(&self, table: &mut ConnectionTable, now: u64) -> (selected: Option<
        (usize, &Target, ConcurrencyGuard),
    >)
        requires
            self.counted_in(*old(table)),
            self.can_draw(*old(table), Set::empty(), now),
        ensures
            match selected {
                Some((i, target, guard)) => {
                    &&& self.preferred(*old(table), Set::empty(), now, i as int)
                    &&& self.all()[i as int].weight > 0 || forall|j: int|
                        self.preferred(*old(table), Set::empty(), now, j) ==> j == i
                    &&& *target == self.all()[i as int].target
                    &&& guard.slot() == self.all()[i as int].limiter.slot()
                    &&& final(table)@ == old(table)@.update(
                        guard.slot(),
                        (old(table)@[guard.slot()] + 1) as usize,
                    )
                },
                None => {
                    &&& forall|i: int| !self.preferred(*old(table), Set::empty(), now, i)
                    &&& final(table)@ == old(table)@
                },
            },
    {
        let nothing: HashSet<usize> = HashSet::new();
        self.select_excluding(table, &nothing, now)
    }
}

/// The action of the first rule whose labels are all among `labels`.
pub open spec fn first_action(
    rules: Seq<RoutingRule>,
    labels: Map<Seq<char>, Seq<char>>,
) -> Option<RoutingAction>
    decreases rules.len(),
{
    if rules.len() == 0 {
        None
    } else if rules[0].match_labels@.submap_of(labels) {
        Some(rules[0].action)
    } else {
        first_action(rules.drop_first(), labels)
    }
}

// ---------------------------------------------------------------------------
// Selection for repeated attempts
// ---------------------------------------------------------------------------

/// Chooses one provider after another for the attempts of one request. Each choice looks at the
/// load anew.
pub struct SelectIter<'a> {
    pool: &'a ProviderPool,
    excluded: HashSet<usize>,
    max_attempts: usize,
    attempts: usize,
    with_replacement: bool,
}

impl<'a> SelectIter<'a> {
    /// The pool that providers are chosen from.
    pub closed spec fn source(self) -> ProviderPool {
        *self.pool
    }

    /// The providers that are not chosen again.
    pub closed spec fn tried(self) -> Set<usize> {
        self.excluded@
    }

    /// The number of attempts so far.
    pub closed spec fn count(self) -> usize {
        self.attempts
    }

    /// The most attempts.
    pub closed spec fn limit(self) -> usize {
        self.max_attempts
    }

    /// Whether a provider may be chosen again.
    pub closed spec fn replaces(self) -> bool {
        self.with_replacement
    }

    /// Whether a provider that was chosen is not chosen again: always in order of priority, and
    /// otherwise unless providers are replaced.
    pub open spec fn moves_on(self) -> bool {
        self.source().chosen_by() == LoadBalanceStrategy::Priority || !self.replaces()
    }

    /// Whether the next choice can be made.
    pub open spec fn can_draw(self, table: ConnectionTable, now: u64) -> bool {
        self.count() < self.limit() ==> self.source().can_draw(table, self.tried(), now)
    }

    /// Whether the next choice can be made.
    pub fn draw_is_possible(&self, table: &ConnectionTable, now: u64) -> (possible: bool)
        requires
            self.source().counted_in(*table),
        ensures
            possible == self.can_draw(*table, now),
    {
        self.attempts >= self.max_attempts || self.pool.draw_is_possible(table, &self.excluded, now)
    }

    /// The pool that providers are chosen from.
    pub fn pool(&self) -> (pool: &'a ProviderPool)
        ensures
            *pool == self.source(),
    {
        self.pool
    }

    /// The number of attempts so far.
    pub fn attempts(&self) -> (count: usize)
        ensures
            count == self.count(),
    {
        self.attempts
    }

    /// Chooses a provider for the next attempt and makes a connection to it active.
    pub fn next(&mut self, table: &mut ConnectionTable, now: u64) -> (selected: Option<
        (usize, &'a Target, ConcurrencyGuard),
    >)
        requires
            old(self).source().counted_in(*old(table)),
            old(self).can_draw(*old(table), now),
        ensures
            final(self).source() == old(self).source(),
            final(self).limit() == old(self).limit(),
            final(self).replaces() == old(self).replaces(),
            old(self).count() >= old(self).limit() ==> selected is None && final(self).count()
                == old(self).count() && final(self).tried() == old(self).tried() && final(table)@
                == old(table)@,
            old(self).count() < old(self).limit() ==> final(self).count() == old(self).count() + 1,
            old(self).count() < old(self).limit() ==> match selected {
                Some((i, target, guard)) => {
                    let pool = old(self).source();
                    &&& pool.preferred(*old(table), old(self).tried(), now, i as int)
                    &&& pool.all()[i as int].weight > 0 || forall|j: int|
                        pool.preferred(*old(table), old(self).tried(), now, j) ==> j == i
                    &&& *target == pool.all()[i as int].target
                    &&& guard.slot() == pool.all()[i as int].limiter.slot()
                    &&& final(table)@ == old(table)@.update(
                        guard.slot(),
                        (old(table)@[guard.slot()] + 1) as usize,
                    )
                    &&& final(self).tried() == if old(self).moves_on() {
                        old(self).tried().insert(i)
                    } else {
                        old(self).tried()
                    }
                },
                None => {
                    &&& forall|i: int|
                        !old(self).source().preferred(*old(table), old(self).tried(), now, i)
                    &&& final(self).tried() == old(self).tried()
                    &&& final(table)@ == old(table)@
                },
            },
    {
        if self.attempts >= self.max_attempts {
            return None;
        }
        self.attempts = self.attempts + 1;
        match self.pool.select_excluding(table, &self.excluded, now) {
            Some((i, target, guard)) => {
                let moves_on = match self.pool.strategy {
                    LoadBalanceStrategy::Priority => true,
                    LoadBalanceStrategy::WeightedRandom => !self.with_replacement,
                    LoadBalanceStrategy::FastestTtfb => !self.with_replacement,
                };
                if moves_on {
                    self.excluded.insert(i);
                }
                Some((i, target, guard))
            },
            None => None,
        }
    }
}

impl ProviderPool {
    /// The most attempts for one request.
    pub open spec fn attempts_allowed(self) -> nat {
        match self.retry_rules() {
            Some(f) => match f.max_attempts {
                Some(n) => n as nat,
                None => self.all().len(),
            },
            None => self.all().len(),
        }
    }

    /// Starts choosing providers for the attempts of one request.
    pub fn select_iter(&self) -> (iter: SelectIter<'_>)
        ensures
            iter.source() == *self,
            iter.tried() == Set::<usize>::empty(),
            iter.count() == 0,
            iter.limit() == self.attempts_allowed(),
            iter.replaces() == (self.retry_rules() matches Some(f) && f.with_replacement),
    {
        let with_replacement = match &self.fallback {
            Some(f) => f.with_replacement,
            None => false,
        };
        SelectIter {
            pool: self,
            excluded: HashSet::new(),
            max_attempts: self.fallback_max_attempts(),
            attempts: 0,
            with_replacement,
        }
    }

    /// The most attempts for one request.
    pub fn fallback_max_attempts(&self) -> (attempts: usize)
        ensures
            attempts == self.attempts_allowed(),
    {
        match &self.fallback {
            Some(f) => match f.max_attempts {
                Some(n) => n,
                None => self.providers.len(),
            },
            None => self.providers.len(),
        }
    }

    /// The action of the first routing rule whose labels are all among `key_labels`.
    pub fn evaluate_routing_rules(&self, key_labels: &Labels) -> (action: Option<&RoutingAction>)
        ensures
            match action {
                Some(a) => first_action(self.rules(), key_labels@) == Some(*a),
                None => first_action(self.rules(), key_labels@) is None,
            },
    {
        let mut i: usize = 0;
        assert(self.rules().skip(0) == self.rules());
        while i < self.routing_rules.len()
            invariant
                i <= self.routing_rules.len(),
                self.routing_rules@ == self.rules(),
                first_action(self.rules(), key_labels@) == first_action(
                    self.rules().skip(i as int),
                    key_labels@,
                ),
            decreases self.routing_rules.len() - i,
        {
            if self.routing_rules[i].match_labels.all_in(key_labels) {
                return Some(&self.routing_rules[i].action);
            }
            assert(self.rules().skip(i as int).drop_first() == self.rules().skip(i + 1));
            i = i + 1;
        }
        None
    }

    /// Whether provider `j` is the first of this pool that is the same upstream as `provider`.
    pub open spec fn first_same(self, provider: Provider, j: int) -> bool {
        &&& 0 <= j < self.all().len()
        &&& self.all()[j].same_upstream(provider)
        &&& forall|k: int| 0 <= k < j ==> !self.all()[k].same_upstream(provider)
    }

    /// The position of the first provider that is the same upstream as `provider`.
    fn find_same(&self, provider: &Provider) -> (at: Option<usize>)
        ensures
            match at {
                Some(j) => self.first_same(*provider, j as int),
                None => forall|j: int| 0 <= j < self.all().len() ==> !self.all()[j].same_upstream(*provider),
            },
    {
        let mut j: usize = 0;
        while j < self.providers.len()
            invariant
                j <= self.providers.len(),
                self.providers@ == self.all(),
                forall|k: int| 0 <= k < j ==> !self.all()[k].same_upstream(*provider),
            decreases self.providers.len() - j,
        {
            if self.providers[j].is_same_upstream(provider) {
                return Some(j);
            }
            j = j + 1;
        }
        None
    }

    /// Whether a provider is another but for where its connections are counted: with the first
    /// provider of `old_pool` that is the same upstream, if there is one.
    pub open spec fn adopted(new: Provider, before: Provider, old_pool: ProviderPool) -> bool {
        &&& new.target == before.target
        &&& new.weight == before.weight
        &&& new.limiter.limit_set() == before.limiter.limit_set()
        &&& forall|j: int|
            old_pool.first_same(before, j) ==> new.limiter.slot() == old_pool.all()[j].limiter.slot()
        &&& (forall|j: int|
            0 <= j < old_pool.all().len() ==> !old_pool.all()[j].same_upstream(before))
            ==> new.limiter == before.limiter
    }

    /// Goes on counting the connections that were made through another pool: each provider with
    /// the provider of `old_pool` that is the same upstream, and the pool with the pool.
    pub fn adopt_provider_state(&mut self, old_pool: &ProviderPool)
        ensures
            final(self).all().len() == old(self).all().len(),
            forall|i: int|
                0 <= i < old(self).all().len() ==> ProviderPool::adopted(
                    #[trigger] final(self).all()[i],
                    old(self).all()[i],
                    *old_pool,
                ),
            match (old(self).concurrency_limit(), old_pool.concurrency_limit()) {
                (Some(mine), Some(theirs)) => final(self).concurrency_limit() matches Some(l)
                    && l.slot() == theirs.slot() && l.limit_set() == mine.limit_set(),
                _ => final(self).concurrency_limit() == old(self).concurrency_limit(),
            },
            final(self).key_set() == old(self).key_set(),
            final(self).rate_limit() == old(self).rate_limit(),
            final(self).retry_rules() == old(self).retry_rules(),
            final(self).chosen_by() == old(self).chosen_by(),
            final(self).trusts() == old(self).trusts(),
            final(self).rules() == old(self).rules(),
            final(self).measurements() == old(self).measurements(),
    {
        let mut i: usize = 0;
        while i < self.providers.len()
            invariant
                i <= self.providers@.len(),
                self.providers@.len() == old(self).providers@.len(),
                forall|j: int|
                    0 <= j < i ==> ProviderPool::adopted(
                        #[trigger] self.providers@[j],
                        old(self).providers@[j],
                        *old_pool,
                    ),
                forall|j: int|
                    i <= j < self.providers@.len() ==> #[trigger] self.providers@[j]
                        == old(self).providers@[j],
                self.keys == old(self).keys,
                self.pool_limiter == old(self).pool_limiter,
                self.pool_concurrency_limiter == old(self).pool_concurrency_limiter,
                self.fallback == old(self).fallback,
                self.strategy == old(self).strategy,
                self.trusted == old(self).trusted,
                self.routing_rules == old(self).routing_rules,
                self.ttfb_tracker == old(self).ttfb_tracker,
            decreases self.providers@.len() - i,
        {
            match old_pool.find_same(&self.providers[i]) {
                Some(j) => {
                    let mut limiter = self.providers[i].limiter;
                    limiter.adopt_active_counter(&old_pool.providers[j].limiter);
                    self.providers[i].limiter = limiter;
                    proof {
                        let before = old(self).providers@[i as int];
                        assert forall|k: int| old_pool.first_same(before, k) implies k == j by {
                            if k < j {
                                assert(!old_pool.all()[k].same_upstream(before));
                            } else if j < k {
                                assert(!old_pool.all()[j as int].same_upstream(before));
                            }
                        }
                    }
                },
                None => {},
            }
            i = i + 1;
        }
        if let Some(theirs) = &old_pool.pool_concurrency_limiter {
            if let Some(mine) = self.pool_concurrency_limiter {
                let mut limiter = mine;
                limiter.adopt_active_counter(theirs);
                self.pool_concurrency_limiter = Some(limiter);
            }
        }
    }

    /// The providers, in the order of definition.
    pub fn providers(&self) -> (providers: &[Provider])
        ensures
            providers@ == self.all(),
    {
        self.providers.as_slice()
    }

    /// The number of providers.
    pub fn len(&self) -> (len: usize)
        ensures
            len == self.all().len(),
    {
        self.providers.len()
    }

    /// Whether there are no providers.
    pub fn is_empty(&self) -> (empty: bool)
        ensures
            empty == (self.all().len() == 0),
    {
        self.providers.len() == 0
    }

    /// The target of the first provider.
    pub fn first_target(&self) -> (target: Option<&Target>)
        ensures
            match target {
                Some(t) => self.all().len() > 0 && *t == self.all()[0].target,
                None => self.all().len() == 0,
            },
    {
        if self.providers.len() == 0 {
            None
        } else {
            Some(&self.providers[0].target)
        }
    }

    /// The keys of those who may use the pool; everyone may where there are none.
    pub fn keys(&self) -> (keys: Option<&KeySet>)
        ensures
            match keys {
                Some(k) => self.key_set() == Some(*k),
                None => self.key_set() is None,
            },
    {
        self.keys.as_ref()
    }

    /// The rate limit of the pool.
    pub fn pool_limiter(&self) -> (limiter: Option<&Arc<dyn RateLimiter>>)
        ensures
            match limiter {
                Some(l) => self.rate_limit() == Some(*l),
                None => self.rate_limit() is None,
            },
    {
        self.pool_limiter.as_ref()
    }

    /// The concurrency limit of the pool.
    pub fn pool_concurrency_limiter(&self) -> (limiter: Option<&ConcurrencyLimiter>)
        ensures
            match limiter {
                Some(l) => self.concurrency_limit() == Some(*l),
                None => self.concurrency_limit() is None,
            },
    {
        self.pool_concurrency_limiter.as_ref()
    }

    /// When requests are tried again.
    pub fn fallback(&self) -> (fallback: Option<&FallbackConfig>)
        ensures
            match fallback {
                Some(f) => self.retry_rules() == Some(*f),
                None => self.retry_rules() is None,
            },
    {
        self.fallback.as_ref()
    }

    /// Whether a failed request is tried again.
    pub open spec fn retries(self) -> bool {
        self.retry_rules() matches Some(f) && f.enabled
    }

    /// Whether a request is tried again after an upstream response with a status.
    pub open spec fn retries_on(self, status: u16) -> bool {
        self.retry_rules() matches Some(f) && f.retries_on(status)
    }

    /// Whether a request is tried again when the rate limit of a provider is reached.
    pub open spec fn retries_on_rate_limit(self) -> bool {
        self.retry_rules() matches Some(f) && f.enabled && f.on_rate_limit
    }

    /// Whether a failed request is tried again.
    pub fn fallback_enabled(&self) -> (enabled: bool)
        ensures
            enabled == self.retries(),
    {
        match &self.fallback {
            Some(f) => f.enabled,
            None => false,
        }
    }

    /// Whether a request is tried again after an upstream response with a status.
    pub fn should_fallback_on_status(&self, status_code: u16) -> (retry: bool)
        ensures
            retry == self.retries_on(status_code),
    {
        match &self.fallback {
            Some(f) => f.should_fallback_on_status(status_code),
            None => false,
        }
    }

    /// Whether a request is tried again when the rate limit of a provider is reached.
    pub fn should_fallback_on_rate_limit(&self) -> (retry: bool)
        ensures
            retry == self.retries_on_rate_limit(),
    {
        match &self.fallback {
            Some(f) => f.enabled && f.on_rate_limit,
            None => false,
        }
    }

    /// How providers are chosen.
    pub fn strategy(&self) -> (strategy: LoadBalanceStrategy)
        ensures
            strategy == self.chosen_by(),
    {
        self.strategy
    }

    /// Whether the providers are trusted.
    pub fn is_trusted(&self) -> (trusted: bool)
        ensures
            trusted == self.trusts(),
    {
        self.trusted
    }

    /// The measurements of the providers.
    pub fn ttfb_tracker(&self) -> (tracker: &TtfbTracker)
        ensures
            *tracker == self.measurements(),
    {
        &self.ttfb_tracker
    }

    /// Takes note of a time to first byte of `ttfb` microseconds, measured at `now` milliseconds.
    pub fn record_ttfb(&mut self, provider_index: usize, ttfb: u64, now: u64)
        ensures
            final(self).all() == old(self).all(),
            final(self).key_set() == old(self).key_set(),
            final(self).rate_limit() == old(self).rate_limit(),
            final(self).concurrency_limit() == old(self).concurrency_limit(),
            final(self).retry_rules() == old(self).retry_rules(),
            final(self).chosen_by() == old(self).chosen_by(),
            final(self).trusts() == old(self).trusts(),
            final(self).rules() == old(self).rules(),
            final(self).measurements()@ == if provider_index < old(self).measurements()@.len() {
                old(self).measurements()@.update(provider_index as int, (ttfb, now))
            } else {
                old(self).measurements()@
            },
    {
        self.ttfb_tracker.record(provider_index, ttfb, now);
    }

    /// The routing rules, in the order in which they are tried.
    pub fn routing_rules(&self) -> (rules: &[RoutingRule])
        ensures
            rules@ == self.rules(),
    {
        self.routing_rules.as_slice()
    }
}

// ---------------------------------------------------------------------------
// Laws
// ---------------------------------------------------------------------------

/// The first rule that matches decides, whatever rules follow it; without a rule that matches
/// there is no action.
pub proof fn law_first_rule_decides(
    rules: Seq<RoutingRule>,
    labels: Map<Seq<char>, Seq<char>>,
    i: int,
)
    requires
        0 <= i <= rules.len(),
        forall|j: int| 0 <= j < i ==> !(#[trigger] rules[j]).match_labels@.submap_of(labels),
    ensures
        i == rules.len() ==> first_action(rules, labels) is None,
        i < rules.len() && rules[i].match_labels@.submap_of(labels) ==> first_action(rules, labels)
            == Some(rules[i].action),
    decreases rules.len(),
{
    if i > 0 {
        let rest = rules.drop_first();
        assert forall|j: int| 0 <= j < i - 1 implies !(#[trigger] rest[j]).match_labels@.submap_of(
            labels,
        ) by {
            assert(rest[j] == rules[j + 1]);
        }
        assert(!rules[0].match_labels@.submap_of(labels));
        law_first_rule_decides(rest, labels, i - 1);
    }
}

/// A provider that is excluded is never chosen, so one that was tried is not tried again where
/// selection moves on.
pub proof fn law_excluded_is_never_chosen(
    pool: ProviderPool,
    table: ConnectionTable,
    exclude: Set<usize>,
    now: u64,
    i: usize,
)
    requires
        exclude.contains(i),
    ensures
        !pool.preferred(table, exclude, now, i as int),
{
}

/// A pool that has adopted the state of another counts the connections of the same upstream where
/// the other counted them, and its slots are in the table if they were before.
pub proof fn law_adopted_pool_counts_on(
    table: ConnectionTable,
    before: ProviderPool,
    after: ProviderPool,
    old_pool: ProviderPool,
    i: int,
    j: int,
)
    requires
        before.counted_in(table),
        old_pool.counted_in(table),
        0 <= i < before.all().len(),
        ProviderPool::adopted(after.all()[i], before.all()[i], old_pool),
    ensures
        old_pool.first_same(before.all()[i], j) ==> after.all()[i].active(table)
            == old_pool.all()[j].active(table),
        after.all()[i].limiter.counted_in(table),
{
    let mine = before.all()[i];
    if exists|k: int| 0 <= k < old_pool.all().len() && old_pool.all()[k].same_upstream(mine) {
        let k = choose|k: int| 0 <= k < old_pool.all().len() && old_pool.all()[k].same_upstream(mine);
        let f = lemma_first_same(old_pool, mine, k);
        assert(old_pool.all()[f].limiter.counted_in(table));
    }
}

proof fn lemma_first_same(pool: ProviderPool, provider: Provider, k: int) -> (j: int)
    requires
        0 <= k < pool.all().len(),
        pool.all()[k].same_upstream(provider),
    ensures
        pool.first_same(provider, j),
    decreases k,
{
    if exists|l: int| 0 <= l < k && pool.all()[l].same_upstream(provider) {
        let l = choose|l: int| 0 <= l < k && pool.all()[l].same_upstream(provider);
        lemma_first_same(pool, provider, l)
    } else {
        k
    }
}

/// A provider is found whenever one is available; where loads are compared, one with a weight.
pub proof fn law_selection_finds_available(
    pool: ProviderPool,
    table: ConnectionTable,
    exclude: Set<usize>,
    now: u64,
    at: int,
)
    requires
        pool.available(table, exclude, at),
        pool.chosen_by() == LoadBalanceStrategy::WeightedRandom ==> pool.all()[at].weight > 0,
    ensures
        exists|i: int| pool.preferred(table, exclude, now, i),
    decreases at,
{
    match pool.chosen_by() {
        LoadBalanceStrategy::Priority => {
            if exists|j: int| 0 <= j < at && pool.available(table, exclude, j) {
                let j = choose|j: int| 0 <= j < at && pool.available(table, exclude, j);
                law_selection_finds_available(pool, table, exclude, now, j);
            } else {
                assert(pool.preferred(table, exclude, now, at));
            }
        },
        LoadBalanceStrategy::WeightedRandom => {
            let loads = pool.loads(table, exclude);
            assert(loads[at] is Some);
            law_some_ratio_is_least(loads, at);
            let i = choose|i: int| is_least(loads, i);
            assert(pool.preferred(table, exclude, now, i));
        },
        LoadBalanceStrategy::FastestTtfb => {
            let speeds = pool.speeds(table, exclude, now);
            assert(speeds[at] is Some);
            law_some_ratio_is_least(speeds, at);
            let i = choose|i: int| is_least(speeds, i);
            assert(pool.preferred(table, exclude, now, i));
        },
    }
}

/// Only providers that are available are chosen: none that is excluded and none at its limit.
pub proof fn law_preferred_is_available(
    pool: ProviderPool,
    table: ConnectionTable,
    exclude: Set<usize>,
    now: u64,
    i: int,
)
    requires
        pool.preferred(table, exclude, now, i),
    ensures
        pool.available(table, exclude, i),
{
}

/// Under the default strategy no available provider carries less load for its weight than the one
/// that is chosen.
pub proof fn law_least_loaded_is_chosen(
    pool: ProviderPool,
    table: ConnectionTable,
    exclude: Set<usize>,
    now: u64,
    i: int,
    other: int,
)
    requires
        pool.chosen_by() == LoadBalanceStrategy::WeightedRandom,
        pool.counted_in(table),
        pool.preferred(table, exclude, now, i),
        pool.available(table, exclude, other),
        pool.all()[other].weight > 0,
    ensures
        pool.all()[i].active(table) * pool.all()[other].weight <= pool.all()[other].active(table)
            * pool.all()[i].weight,
{
    let loads = pool.loads(table, exclude);
    assert(loads[other] is Some);
    assert(loads[i] is Some);
    assert(ratio_le(loads[i]->0, loads[other]->0));
}

/// Where every provider has a weight, a choice can always be made.
pub proof fn law_weights_make_choices_possible(
    pool: ProviderPool,
    table: ConnectionTable,
    exclude: Set<usize>,
    now: u64,
)
    requires
        forall|i: int| 0 <= i < pool.all().len() ==> (#[trigger] pool.all()[i]).weight > 0,
    ensures
        pool.can_draw(table, exclude, now),
{
    assert forall|i: int, j: int| i != j && #[trigger] pool.preferred(table, exclude, now, i)
        && #[trigger] pool.preferred(table, exclude, now, j) implies exists|k: int| #[trigger]
        pool.preferred(table, exclude, now, k) && pool.all()[k].weight > 0 by {
        assert(pool.all()[i].weight > 0);
    }
}

/// What a measurement counts for falls in proportion to the time that has passed, from all of it to
/// nothing over five times its length: what is left of it is to it, but for less than one microsecond,
/// as the time that is left is to the whole time.
pub proof fn law_decay_is_linear(ttfb: u64, recorded_at: u64, now: u64)
    ensures
        ({
            let window = 5 * (ttfb / 1000);
            let elapsed = if now > recorded_at {
                now - recorded_at
            } else {
                0
            };
            let left = decayed(ttfb, recorded_at, now);
            &&& elapsed < window ==> left * window <= ttfb * (window - elapsed) < left * window
                + window
            &&& elapsed >= window ==> left == 0
        }),
{
    let window = (ttfb / 1000) * DECAY_MULTIPLIER;
    assert(window == 5 * (ttfb / 1000));
    let elapsed = if now > recorded_at {
        now - recorded_at
    } else {
        0
    };
    if elapsed < window {
        lemma_decay_quotient(ttfb as int, window - elapsed, window);
        let whole = ttfb * (window - elapsed);
        let left = whole / window;
        vstd::arithmetic::div_mod::lemma_fundamental_div_mod(whole, window);
        vstd::arithmetic::div_mod::lemma_mod_bound(whole, window);
        assert(window * left == left * window) by (nonlinear_arith);
        assert(decayed(ttfb, recorded_at, now) == left);
    }
}

/// A provider that was not measured counts for nothing, and so does one beyond those that are.
pub proof fn law_unmeasured_counts_for_nothing(tracker: TtfbTracker, provider: int, now: u64)
    ensures
        !(0 <= provider < tracker@.len()) ==> tracker.counts_for(provider, now) == 0,
        0 <= provider < tracker@.len() ==> tracker.counts_for(provider, now) == decayed(
            tracker@[provider].0,
            tracker@[provider].1,
            now,
        ),
        forall|at: u64| #[trigger] decayed(0, at, now) == 0,
{
}

/// A provider can be chosen exactly when it is one of the pool's, is not excluded, and has fewer
/// active connections than it may have.
pub proof fn law_available_has_a_place_left(
    pool: ProviderPool,
    table: ConnectionTable,
    exclude: Set<usize>,
    i: int,
)
    ensures
        pool.available(table, exclude, i) <==> {
            &&& 0 <= i < pool.all().len()
            &&& !exclude.contains(i as usize)
            &&& match pool.all()[i].limiter.limit_set() {
                Some(limit) => table@[pool.all()[i].limiter.slot()] < limit,
                None => table@[pool.all()[i].limiter.slot()] < usize::MAX,
            }
        },
{
}

/// By the strategy of the shortest time to the first byte, no provider that can be chosen counts for
/// less than the one that is, and every one that counts for as little may be; one without a
/// measurement comes before all that have one left.
pub proof fn law_fastest_is_chosen(
    pool: ProviderPool,
    table: ConnectionTable,
    exclude: Set<usize>,
    now: u64,
    i: int,
)
    requires
        pool.chosen_by() == LoadBalanceStrategy::FastestTtfb,
    ensures
        pool.preferred(table, exclude, now, i) <==> {
            &&& pool.available(table, exclude, i)
            &&& forall|other: int| #[trigger]
                pool.available(table, exclude, other) ==> pool.measurements().counts_for(i, now)
                    <= pool.measurements().counts_for(other, now)
        },
{
    let speeds = pool.speeds(table, exclude, now);
    if pool.preferred(table, exclude, now, i) {
        assert forall|other: int| #[trigger]
            pool.available(table, exclude, other) implies pool.measurements().counts_for(i, now)
            <= pool.measurements().counts_for(other, now) by {
            assert(speeds[other] == Some((pool.measurements().counts_for(other, now), 1u64)));
            assert(speeds[i] == Some((pool.measurements().counts_for(i, now), 1u64)));
            assert(ratio_le(speeds[i]->0, speeds[other]->0));
        }
    }
    if pool.available(table, exclude, i) && forall|other: int| #[trigger]
        pool.available(table, exclude, other) ==> pool.measurements().counts_for(i, now)
            <= pool.measurements().counts_for(other, now) {
        assert forall|j: int| 0 <= j < speeds.len() && (#[trigger] speeds[j]) is Some implies ratio_le(
            speeds[i]->0,
            speeds[j]->0,
        ) by {
            assert(pool.available(table, exclude, j));
        }
    }
}

/// In order of priority the first provider that can be chosen is.
pub proof fn law_first_available_is_chosen(
    pool: ProviderPool,
    table: ConnectionTable,
    exclude: Set<usize>,
    now: u64,
    i: int,
)
    requires
        pool.chosen_by() == LoadBalanceStrategy::Priority,
    ensures
        pool.preferred(table, exclude, now, i) <==> {
            &&& pool.available(table, exclude, i)
            &&& forall|other: int| #[trigger] pool.available(table, exclude, other) ==> i <= other
        },
{
}

/// Under the default strategy a provider may be chosen exactly when it can be, has a weight, and no
/// other one with a weight carries less load for its weight.
pub proof fn law_every_least_loaded_may_be_chosen(
    pool: ProviderPool,
    table: ConnectionTable,
    exclude: Set<usize>,
    now: u64,
    i: int,
)
    requires
        pool.chosen_by() == LoadBalanceStrategy::WeightedRandom,
        pool.counted_in(table),
    ensures
        pool.preferred(table, exclude, now, i) <==> {
            &&& pool.available(table, exclude, i)
            &&& pool.all()[i].weight > 0
            &&& forall|other: int|
                #[trigger] pool.available(table, exclude, other) && pool.all()[other].weight > 0
                    ==> table@[pool.all()[i].limiter.slot()] * pool.all()[other].weight
                    <= table@[pool.all()[other].limiter.slot()] * pool.all()[i].weight
        },
{
    let loads = pool.loads(table, exclude);
    if pool.preferred(table, exclude, now, i) {
        assert(loads[i] is Some);
        assert forall|other: int|
            #[trigger] pool.available(table, exclude, other) && pool.all()[other].weight
                > 0 implies table@[pool.all()[i].limiter.slot()] * pool.all()[other].weight
            <= table@[pool.all()[other].limiter.slot()] * pool.all()[i].weight by {
            law_least_loaded_is_chosen(pool, table, exclude, now, i, other);
        }
    }
    if pool.available(table, exclude, i) && pool.all()[i].weight > 0 && forall|other: int|
        #[trigger] pool.available(table, exclude, other) && pool.all()[other].weight > 0
            ==> table@[pool.all()[i].limiter.slot()] * pool.all()[other].weight
            <= table@[pool.all()[other].limiter.slot()] * pool.all()[i].weight {
        assert forall|j: int| 0 <= j < loads.len() && (#[trigger] loads[j]) is Some implies ratio_le(
            loads[i]->0,
            loads[j]->0,
        ) by {
            assert(pool.available(table, exclude, j));
        }
    }
}

/// A pool has as many attempts for a request as its rules allow, and as many as it has providers where
/// they say nothing.
pub proof fn law_attempts_allowed(pool: ProviderPool)
    ensures
        pool.retry_rules() is None ==> pool.attempts_allowed() == pool.all().len(),
        pool.retry_rules() matches Some(rules) ==> {
            &&& rules.max_attempts is None ==> pool.attempts_allowed() == pool.all().len()
            &&& rules.max_attempts matches Some(n) ==> pool.attempts_allowed() == n
        },
{
}

/// A pool without rules, or whose rules are not enabled, tries no other provider for any reason. With
/// rules that are enabled, it does after a response exactly when its status is one of those set, and
/// after a refusal of a provider's rate limit exactly when that is set.
pub proof fn law_rules_decide_on_retries(pool: ProviderPool, status: u16)
    ensures
        pool.retry_rules() is None ==> !pool.retries() && !pool.retries_on(status)
            && !pool.retries_on_rate_limit(),
        pool.retry_rules() matches Some(rules) ==> {
            &&& pool.retries() <==> rules.enabled
            &&& pool.retries_on(status) <==> rules.enabled && exists|i: int|
                0 <= i < rules.on_status@.len() && #[trigger] rules.on_status@[i] == status
            &&& pool.retries_on_rate_limit() <==> rules.enabled && rules.on_rate_limit
        },
{
}

/// A provider that was chosen is not chosen again for the same request, unless repeats are allowed;
/// in order of priority it is not in any case.
pub proof fn law_when_providers_repeat(iter: SelectIter<'_>)
    ensures
        iter.source().chosen_by() == LoadBalanceStrategy::Priority ==> iter.moves_on(),
        !iter.replaces() ==> iter.moves_on(),
        iter.replaces() && iter.source().chosen_by() != LoadBalanceStrategy::Priority
            ==> !iter.moves_on(),
{
}

/// Two providers stand for the same upstream exactly when they agree in URL, key and model name;
/// their weights, limits and other settings do not matter.
pub proof fn law_same_upstream(a: Provider, b: Provider)
    ensures
        a.same_upstream(a),
        a.same_upstream(b) == b.same_upstream(a),
        a.target.url.text() != b.target.url.text() ==> !a.same_upstream(b),
        text::optional(a.target.onwards_key) != text::optional(b.target.onwards_key)
            ==> !a.same_upstream(b),
        text::optional(a.target.onwards_model) != text::optional(b.target.onwards_model)
            ==> !a.same_upstream(b),
        a.target.url == b.target.url && a.target.onwards_key == b.target.onwards_key
            && a.target.onwards_model == b.target.onwards_model ==> a.same_upstream(b),
{
}

/// A single candidate can always be chosen; among several, one of them has to have a weight.
pub proof fn law_when_a_draw_is_possible(
    pool: ProviderPool,
    table: ConnectionTable,
    exclude: Set<usize>,
    now: u64,
    i: int,
)
    requires
        pool.preferred(table, exclude, now, i),
    ensures
        pool.all()[i].weight > 0 ==> pool.can_draw(table, exclude, now),
        (forall|j: int| #[trigger] pool.preferred(table, exclude, now, j) ==> j == i)
            ==> pool.can_draw(table, exclude, now),
{
}

/// Of providers that are drawn by weight, each falls to as many numbers as its weight says: the first
/// to those below its weight, the next to those that follow.
pub proof fn law_ranges_of_draws(weights: Seq<u32>, k: int)
    requires
        0 <= k < weights.len(),
    ensures
        weight_before(weights, 0) == 0,
        weight_before(weights, k + 1) == weight_before(weights, k) + weights[k],
        forall|drawn: nat| #[trigger]
            falls_to(weights, drawn, k) <==> weight_before(weights, k) <= drawn < weight_before(
                weights,
                k,
            ) + weights[k],
{
}

} // verus!
