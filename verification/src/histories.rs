//! What holds of a pool over any number of selections and releases.
use vstd::prelude::*;
use crate::load_balancer;
use crate::load_balancer::ProviderPool;
use crate::target::{ConnectionTable, LoadBalanceStrategy};

verus! {

// ---------------------------------------------------------------------------
// Connections
// ---------------------------------------------------------------------------

/// What happens to the connections of a pool.
pub enum PoolEvent {
    /// A provider was chosen, others being excluded: a guard was given out for it.
    Chosen { provider: int, exclude: Set<usize> },
    /// A guard of a provider was given back.
    Released { provider: int },
    /// Something that does not concern the providers of the pool.
    Elsewhere,
}

/// Whether each provider of a pool counts its connections by itself.
pub open spec fn count_apart(pool: ProviderPool) -> bool {
    forall|i: int, j: int|
        0 <= i < j < pool.all().len() ==> (#[trigger] pool.all()[i]).limiter.slot() != (
        #[trigger] pool.all()[j]).limiter.slot()
}

/// The guards of a provider that were given out and not given back.
pub open spec fn live_guards(events: Seq<PoolEvent>, provider: int) -> int
    decreases events.len(),
{
    if events.len() == 0 {
        0
    } else {
        live_guards(events.drop_last(), provider) + match events.last() {
            PoolEvent::Chosen { provider: p, .. } => if p == provider {
                1int
            } else {
                0
            },
            PoolEvent::Released { provider: p } => if p == provider {
                -1
            } else {
                0
            },
            PoolEvent::Elsewhere => 0,
        }
    }
}

/// Whether an event takes the connections from one state to the next: only a provider that is
/// available is chosen, and the slot of the provider counts one more or one fewer.
pub open spec fn follows(
    pool: ProviderPool,
    before: ConnectionTable,
    event: PoolEvent,
    after: ConnectionTable,
) -> bool {
    match event {
        PoolEvent::Chosen { provider, exclude } => {
            let slot = pool.all()[provider].limiter.slot();
            &&& pool.available(before, exclude, provider)
            &&& after@ == before@.update(slot, (before@[slot] + 1) as usize)
        },
        PoolEvent::Released { provider } => {
            let slot = pool.all()[provider].limiter.slot();
            &&& 0 <= provider < pool.all().len()
            &&& before@[slot] > 0
            &&& after@ == before@.update(slot, (before@[slot] - 1) as usize)
        },
        PoolEvent::Elsewhere => {
            &&& before@.len() <= after@.len()
            &&& forall|i: int|
                0 <= i < pool.all().len() ==> (#[trigger] pool.all()[i]).active(after)
                    == pool.all()[i].active(before)
        },
    }
}

/// Whether events take the connections of a pool through some states, from one in which no provider
/// has a connection. Only a guard that is out is given back.
pub open spec fn is_history(
    pool: ProviderPool,
    tables: Seq<ConnectionTable>,
    events: Seq<PoolEvent>,
) -> bool {
    &&& tables.len() == events.len() + 1
    &&& count_apart(pool)
    &&& pool.counted_in(tables[0])
    &&& forall|i: int| 0 <= i < pool.all().len() ==> (#[trigger] pool.all()[i]).active(tables[0]) == 0
    &&& forall|k: int|
        #![trigger events[k]]
        0 <= k < events.len() ==> follows(pool, tables[k], events[k], tables[k + 1])
    &&& forall|k: int|
        #![trigger events[k]]
        0 <= k < events.len() ==> (events[k] matches PoolEvent::Released { provider }
            ==> live_guards(events.take(k), provider) > 0)
}

/// A choice as `select` and `next` make it is an event of a history.
pub proof fn law_selection_is_an_event(
    pool: ProviderPool,
    before: ConnectionTable,
    after: ConnectionTable,
    exclude: Set<usize>,
    now: u64,
    i: int,
)
    requires
        pool.preferred(before, exclude, now, i),
        after@ == before@.update(
            pool.all()[i].limiter.slot(),
            (before@[pool.all()[i].limiter.slot()] + 1) as usize,
        ),
    ensures
        follows(pool, before, PoolEvent::Chosen { provider: i, exclude }, after),
{
    load_balancer::law_preferred_is_available(pool, before, exclude, now, i);
}

/// At every point of a history, each provider counts as many connections as there are guards of it
/// that were given out and not given back, and no more than its limit allows.
pub proof fn law_counts_are_live_guards(
    pool: ProviderPool,
    tables: Seq<ConnectionTable>,
    events: Seq<PoolEvent>,
    k: int,
    i: int,
)
    requires
        is_history(pool, tables, events),
        0 <= k <= events.len(),
        0 <= i < pool.all().len(),
    ensures
        pool.all()[i].active(tables[k]) == live_guards(events.take(k), i),
        0 <= live_guards(events.take(k), i) <= pool.all()[i].limiter.ceiling(),
        pool.counted_in(tables[k]),
    decreases k,
{
    if k == 0 {
        assert(events.take(0).len() == 0);
    } else {
        let before = tables[k - 1];
        let event = events[k - 1];
        law_counts_are_live_guards(pool, tables, events, k - 1, i);
        assert(events.take(k).drop_last() =~= events.take(k - 1));
        assert(events.take(k).last() == event);
        assert(follows(pool, before, event, tables[k]));
        assert(pool.all()[i].limiter.counted_in(before));
        match event {
            PoolEvent::Chosen { provider, .. } => {
                assert(pool.all()[provider].limiter.counted_in(before));
                if provider < i {
                    assert(pool.all()[provider].limiter.slot() != pool.all()[i].limiter.slot());
                } else if i < provider {
                    assert(pool.all()[i].limiter.slot() != pool.all()[provider].limiter.slot());
                }
            },
            PoolEvent::Released { provider } => {
                assert(pool.all()[provider].limiter.counted_in(before));
                if provider < i {
                    assert(pool.all()[provider].limiter.slot() != pool.all()[i].limiter.slot());
                } else if i < provider {
                    assert(pool.all()[i].limiter.slot() != pool.all()[provider].limiter.slot());
                }
            },
            PoolEvent::Elsewhere => {},
        }
    }
}

/// A provider at its limit is not chosen, at any point of a history.
pub proof fn law_full_provider_waits(
    pool: ProviderPool,
    tables: Seq<ConnectionTable>,
    events: Seq<PoolEvent>,
    k: int,
)
    requires
        is_history(pool, tables, events),
        0 <= k < events.len(),
    ensures
        events[k] matches PoolEvent::Chosen { provider, .. } ==> live_guards(
            events.take(k),
            provider,
        ) < pool.all()[provider].limiter.ceiling(),
{
    assert(follows(pool, tables[k], events[k], tables[k + 1]));
    if let PoolEvent::Chosen { provider, .. } = events[k] {
        law_counts_are_live_guards(pool, tables, events, k, provider);
    }
}

// ---------------------------------------------------------------------------
// Choosing one provider after another
// ---------------------------------------------------------------------------

/// The providers that were chosen before choice number `k`.
pub open spec fn tried_before(chosen: Seq<usize>, k: int) -> Set<usize> {
    chosen.take(k).to_set()
}

/// Whether providers were chosen one after another, each from those that were not chosen before.
/// Connections and response times may change between choices.
pub open spec fn is_iteration(
    pool: ProviderPool,
    tables: Seq<ConnectionTable>,
    nows: Seq<u64>,
    chosen: Seq<usize>,
) -> bool {
    forall|k: int|
        #![trigger chosen[k]]
        0 <= k < chosen.len() ==> pool.preferred(
            tables[k],
            tried_before(chosen, k),
            nows[k],
            chosen[k] as int,
        )
}

/// Whether a provider has not reached its limit and, where the load is spread by weights, has one.
pub open spec fn has_room(pool: ProviderPool, table: ConnectionTable, i: int) -> bool {
    &&& !pool.all()[i].limiter.full(table)
    &&& pool.chosen_by() == LoadBalanceStrategy::WeightedRandom ==> pool.all()[i].weight > 0
}

/// The numbers below `m`.
spec fn below(m: nat) -> Set<usize> {
    Set::new(|x: usize| x < m)
}

proof fn lemma_below(m: nat)
    requires
        m <= usize::MAX,
    ensures
        below(m).finite(),
        below(m).len() == m,
    decreases m,
{
    if m == 0 {
        assert(below(0) =~= Set::empty());
    } else {
        let last = (m - 1) as usize;
        lemma_below((m - 1) as nat);
        assert(below(m) =~= below((m - 1) as nat).insert(last));
    }
}

/// What was tried grows by what is chosen, as it does from one choice of `SelectIter` to the next.
pub proof fn law_tried_grows(chosen: Seq<usize>, k: int)
    requires
        0 <= k < chosen.len(),
    ensures
        tried_before(chosen, 0) == Set::<usize>::empty(),
        tried_before(chosen, k + 1) == tried_before(chosen, k).insert(chosen[k]),
{
    let before = chosen.take(k);
    let after = chosen.take(k + 1);
    assert(chosen.take(0).to_set() =~= Set::<usize>::empty());
    assert(after =~= before.push(chosen[k]));
    assert forall|x: usize| after.to_set().contains(x) <==> before.to_set().insert(
        chosen[k],
    ).contains(x) by {
        if before.contains(x) {
            let j = choose|j: int| 0 <= j < before.len() && before[j] == x;
            assert(after[j] == x);
        }
        if x == chosen[k] {
            assert(after[k] == x);
        }
        if after.contains(x) && x != chosen[k] {
            let j = choose|j: int| 0 <= j < after.len() && after[j] == x;
            assert(before[j] == x);
        }
    }
    assert(after.to_set() =~= before.to_set().insert(chosen[k]));
}

/// No provider is chosen twice, so there are no more choices than providers.
pub proof fn law_choices_are_distinct(
    pool: ProviderPool,
    tables: Seq<ConnectionTable>,
    nows: Seq<u64>,
    chosen: Seq<usize>,
)
    requires
        is_iteration(pool, tables, nows, chosen),
        pool.all().len() <= usize::MAX,
    ensures
        chosen.no_duplicates(),
        forall|k: int| 0 <= k < chosen.len() ==> #[trigger] chosen[k] < pool.all().len(),
        chosen.len() <= pool.all().len(),
{
    let m = pool.all().len();
    assert forall|k: int| 0 <= k < chosen.len() implies #[trigger] chosen[k] < m && !tried_before(
        chosen,
        k,
    ).contains(chosen[k]) by {
        load_balancer::law_preferred_is_available(
            pool,
            tables[k],
            tried_before(chosen, k),
            nows[k],
            chosen[k] as int,
        );
    }
    assert forall|a: int, b: int| 0 <= a < b < chosen.len() implies chosen[a] != chosen[b] by {
        assert(chosen.take(b)[a] == chosen[a]);
        assert(tried_before(chosen, b).contains(chosen[a]));
    }
    assert(chosen.no_duplicates());
    chosen.unique_seq_to_set();
    lemma_below(m);
    assert(chosen.to_set().subset_of(below(m)));
    vstd::set_lib::lemma_len_subset(chosen.to_set(), below(m));
}

/// An iteration that is over, because the attempts are used up or because no provider can be chosen,
/// has chosen as many providers as there are, or as many as attempts are allowed if that is fewer,
/// provided that every provider has room at the end.
pub proof fn law_iteration_is_complete(
    pool: ProviderPool,
    tables: Seq<ConnectionTable>,
    nows: Seq<u64>,
    chosen: Seq<usize>,
    limit: nat,
    table: ConnectionTable,
    now: u64,
)
    requires
        is_iteration(pool, tables, nows, chosen),
        pool.all().len() <= usize::MAX,
        chosen.len() <= limit,
        chosen.len() == limit || forall|i: int|
            !pool.preferred(table, tried_before(chosen, chosen.len() as int), now, i),
        forall|i: int| 0 <= i < pool.all().len() ==> #[trigger] has_room(pool, table, i),
    ensures
        chosen.len() == if limit < pool.all().len() {
            limit
        } else {
            pool.all().len()
        },
{
    let m = pool.all().len();
    let tried = tried_before(chosen, chosen.len() as int);
    law_choices_are_distinct(pool, tables, nows, chosen);
    assert(chosen.take(chosen.len() as int) =~= chosen);
    if chosen.len() < limit && chosen.len() < m {
        chosen.unique_seq_to_set();
        lemma_below(m);
        if below(m).subset_of(tried) {
            vstd::set_lib::lemma_len_subset(below(m), tried);
            assert(false);
        }
        let x = choose|x: usize| below(m).contains(x) && !tried.contains(x);
        assert(below(m).contains(x) && !tried.contains(x));
        assert(has_room(pool, table, x as int));
        assert(pool.available(table, tried, x as int));
        load_balancer::law_selection_finds_available(pool, table, tried, now, x as int);
    }
}

/// In order of priority the providers are chosen one after another from the first, as long as each
/// has not reached its limit when its turn comes.
pub proof fn law_priority_is_an_order(
    pool: ProviderPool,
    tables: Seq<ConnectionTable>,
    nows: Seq<u64>,
    chosen: Seq<usize>,
    k: int,
)
    requires
        is_iteration(pool, tables, nows, chosen),
        pool.all().len() <= usize::MAX,
        pool.chosen_by() == LoadBalanceStrategy::Priority,
        forall|j: int|
            0 <= j < chosen.len() && j < pool.all().len() ==> !(#[trigger] pool.all()[j]).limiter.full(
                tables[j],
            ),
        0 <= k < chosen.len(),
    ensures
        chosen[k] == k,
    decreases k,
{
    assert forall|j: int| 0 <= j < k implies chosen[j] == j by {
        law_priority_is_an_order(pool, tables, nows, chosen, j);
    }
    let tried = tried_before(chosen, k);
    let i = chosen[k] as int;
    assert(pool.preferred(tables[k], tried, nows[k], i));
    assert(pool.available(tables[k], tried, i));
    if i < k {
        assert(chosen.take(k)[i] == i as usize);
        assert(tried.contains(i as usize));
        assert(false);
    }
    if i > k {
        assert(!pool.all()[k].limiter.full(tables[k]));
        if tried.contains(k as usize) {
            let j = choose|j: int| 0 <= j < chosen.take(k).len() && chosen.take(k)[j] == k as usize;
            assert(chosen[j] == j);
            assert(false);
        }
        assert(pool.available(tables[k], tried, k));
        assert(false);
    }
}

} // verus!
