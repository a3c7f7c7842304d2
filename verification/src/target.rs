//! Upstream targets and the settings of the pools that they stand in.
use std::sync::Arc;
use vstd::prelude::*;
use crate::text;

verus! {

// ---------------------------------------------------------------------------
// URLs
// ---------------------------------------------------------------------------

/// The serialisation and the path of the URL that a text spells, if it spells one.
pub uninterp spec fn parsed_url(source: Seq<char>) -> Option<(Seq<char>, Seq<char>)>;

/// The serialisation of the URL that `reference` denotes relative to the URL that `base` spells.
pub uninterp spec fn joined_url(base: Seq<char>, reference: Seq<char>) -> Option<Seq<char>>;

/// Calls `Url::parse`, `Url::as_str` and `Url::path`.
#[verifier::external_body]
fn parse_url(source: &str) -> (parts: Option<(String, String)>)
    ensures
        match parts {
            Some(p) => parsed_url(source@) == Some((p.0@, p.1@)),
            None => parsed_url(source@) is None,
        },
{
    url::Url::parse(source).ok().map(|u| (u.as_str().to_string(), u.path().to_string()))
}

/// Calls `Url::join` on what `Url::parse` makes of `base`.
#[verifier::external_body]
fn join_url(base: &str, reference: &str) -> (joined: Option<String>)
    ensures
        match joined {
            Some(u) => joined_url(base@, reference@) == Some(u@),
            None => joined_url(base@, reference@) is None,
        },
{
    url::Url::parse(base).ok().and_then(|u| u.join(reference).ok()).map(|u| u.as_str().to_string())
}

/// The URL of a target.
#[derive(Debug)]
pub struct TargetUrl {
    source: String,
    serialized: String,
    path: String,
}

impl TargetUrl {
    #[verifier::type_invariant]
    spec fn was_read(self) -> bool {
        parsed_url(self.source@) == Some((self.serialized@, self.path@))
    }

    /// The text that the URL was read from.
    pub closed spec fn source_text(self) -> Seq<char> {
        self.source@
    }

    /// The URL in its normal form.
    pub closed spec fn text(self) -> Seq<char> {
        self.serialized@
    }

    /// The path of the URL.
    pub closed spec fn path_text(self) -> Seq<char> {
        self.path@
    }

    /// Reads a URL.
    pub fn parse(source: &str) -> (url: Option<TargetUrl>)
        ensures
            match url {
                Some(u) => parsed_url(source@) == Some((u.text(), u.path_text())) && u.source_text()
                    == source@,
                None => parsed_url(source@) is None,
            },
    {
        match parse_url(source) {
            Some((serialized, path)) => Some(
                TargetUrl { source: source.to_owned(), serialized, path },
            ),
            None => None,
        }
    }

    /// The URL in its normal form.
    pub fn as_str(&self) -> (text: &str)
        ensures
            text@ == self.text(),
    {
        self.serialized.as_str()
    }

    /// The path of the URL.
    pub fn path(&self) -> (path: &str)
        ensures
            path@ == self.path_text(),
    {
        self.path.as_str()
    }

    /// The URL that `reference` denotes relative to this one.
    pub fn join(&self, reference: &str) -> (joined: Option<String>)
        ensures
            match joined {
                Some(u) => joined_url(self.source_text(), reference@) == Some(u@),
                None => joined_url(self.source_text(), reference@) is None,
            },
    {
        join_url(self.source.as_str(), reference)
    }

    /// Whether two URLs have the same normal form.
    pub fn same(&self, other: &TargetUrl) -> (same: bool)
        ensures
            same == (self.text() == other.text()),
    {
        text::same_text(self.serialized.as_str(), other.serialized.as_str())
    }
}

// ---------------------------------------------------------------------------
// Rate limits
// ---------------------------------------------------------------------------

/// A request came too soon after others.
#[derive(Debug, Clone, Copy, PartialEq, Eq, Structural)]
pub struct RateLimitExceeded;

/// Decides whether one more request may pass now. Each check may count as a request.
pub trait RateLimiter: Send + Sync {
    fn check(&self) -> Result<(), RateLimitExceeded>;
}

/// Whether `answer` can be what a rate limit answers when it is asked.
pub open spec fn can_answer<L: RateLimiter + ?Sized>(
    limiter: &L,
    answer: Result<(), RateLimitExceeded>,
) -> bool {
    call_ensures(L::check, (limiter,), answer)
}

/// Whether `answer` can be what comes of asking a rate limit, where there is one; nothing is asked
/// and nothing answered where there is none.
pub open spec fn asked(
    limiter: Option<Arc<dyn RateLimiter>>,
    answer: Option<Result<(), RateLimitExceeded>>,
) -> bool {
    match limiter {
        Some(l) => answer matches Some(a) && can_answer(&*l, a),
        None => answer is None,
    }
}

fn ask_one<L: RateLimiter + ?Sized>(limiter: &L) -> (answer: Result<(), RateLimitExceeded>)
    ensures
        can_answer(limiter, answer),
{
    limiter.check()
}

/// Asks a rate limit, where there is one.
pub fn ask(limiter: Option<&Arc<dyn RateLimiter>>) -> (answer: Option<
    Result<(), RateLimitExceeded>,
>)
    ensures
        match limiter {
            Some(l) => answer matches Some(a) && can_answer(&**l, a),
            None => answer is None,
        },
{
    match limiter {
        Some(l) => Some(ask_one(&**l)),
        None => None,
    }
}

// ---------------------------------------------------------------------------
// Concurrency limits
// ---------------------------------------------------------------------------

/// The number of active connections of every limiter. Limiters that count together share a slot.
pub struct ConnectionTable {
    counts: Vec<usize>,
}

impl View for ConnectionTable {
    type V = Seq<usize>;

    closed spec fn view(&self) -> Seq<usize> {
        self.counts@
    }
}

/// One active connection. It stays counted until it is released.
#[derive(Debug)]
pub struct ConcurrencyGuard {
    slot: usize,
}

impl ConcurrencyGuard {
    /// The slot in which the connection is counted.
    pub closed spec fn slot(self) -> int {
        self.slot as int
    }
}

/// Counts active connections in a slot of the connection table and keeps them within a limit.
#[derive(Debug, Clone, Copy)]
pub struct ConcurrencyLimiter {
    slot: usize,
    limit: Option<usize>,
}

impl ConnectionTable {
    /// A table without slots.
    pub fn new() -> (table: ConnectionTable)
        ensures
            table@ == Seq::<usize>::empty(),
    {
        ConnectionTable { counts: Vec::new() }
    }

    /// Ends a connection: its slot counts one fewer.
    pub fn release(&mut self, guard: ConcurrencyGuard)
        requires
            0 <= guard.slot() < old(self)@.len(),
            old(self)@[guard.slot()] > 0,
        ensures
            final(self)@ == old(self)@.update(
                guard.slot(),
                (old(self)@[guard.slot()] - 1) as usize,
            ),
    {
        let count: usize = self.counts[guard.slot];
        self.counts.set(guard.slot, count - 1);
    }

    /// Whether a connection is one that this table counts.
    pub fn counts(&self, guard: &ConcurrencyGuard) -> (counted: bool)
        ensures
            counted == (0 <= guard.slot() < self@.len() && self@[guard.slot()] > 0),
    {
        guard.slot < self.counts.len() && self.counts[guard.slot] > 0
    }

    fn open_slot(&mut self) -> (slot: usize)
        ensures
            slot == old(self)@.len(),
            final(self)@ == old(self)@.push(0),
    {
        let slot: usize = self.counts.len();
        self.counts.push(0);
        slot
    }
}

impl ConcurrencyLimiter {
    /// The slot in which connections are counted.
    pub closed spec fn slot(self) -> int {
        self.slot as int
    }

    /// The limit that was set, if any.
    pub closed spec fn limit_set(self) -> Option<usize> {
        self.limit
    }

    /// The most connections that may be active at once.
    pub open spec fn ceiling(self) -> usize {
        match self.limit_set() {
            Some(n) => n,
            None => usize::MAX,
        }
    }

    /// Whether the table has this limiter's slot.
    pub open spec fn counted_in(self, table: ConnectionTable) -> bool {
        0 <= self.slot() < table@.len()
    }

    /// Whether no further connection may become active.
    pub open spec fn full(self, table: ConnectionTable) -> bool {
        table@[self.slot()] >= self.ceiling()
    }

    /// The counts with one more connection, unless the limit is reached.
    pub open spec fn taken(self, counts: Seq<usize>) -> Option<Seq<usize>> {
        if counts[self.slot()] >= self.ceiling() {
            None
        } else {
            Some(counts.update(self.slot(), (counts[self.slot()] + 1) as usize))
        }
    }

    /// A limiter without a limit, with a slot of its own.
    pub fn new(table: &mut ConnectionTable) -> (limiter: ConcurrencyLimiter)
        ensures
            limiter.limit_set() is None,
            limiter.slot() == old(table)@.len(),
            final(table)@ == old(table)@.push(0),
    {
        ConcurrencyLimiter { slot: table.open_slot(), limit: None }
    }

    /// A limiter with a limit, with a slot of its own.
    pub fn with_limit(table: &mut ConnectionTable, limit: usize) -> (limiter: ConcurrencyLimiter)
        ensures
            limiter.limit_set() == Some(limit),
            limiter.slot() == old(table)@.len(),
            final(table)@ == old(table)@.push(0),
    {
        ConcurrencyLimiter { slot: table.open_slot(), limit: Some(limit) }
    }

    /// Whether the table has this limiter's slot.
    pub fn is_counted(&self, table: &ConnectionTable) -> (counted: bool)
        ensures
            counted == self.counted_in(*table),
    {
        self.slot < table.counts.len()
    }

    /// The number of active connections.
    pub fn active(&self, table: &ConnectionTable) -> (count: usize)
        requires
            self.counted_in(*table),
        ensures
            count == table@[self.slot()],
    {
        table.counts[self.slot]
    }

    /// The limit that was set, if any.
    pub fn limit(&self) -> (limit: Option<usize>)
        ensures
            limit == self.limit_set(),
    {
        self.limit
    }

    /// Whether no further connection may become active.
    pub fn at_capacity(&self, table: &ConnectionTable) -> (full: bool)
        requires
            self.counted_in(*table),
        ensures
            full == self.full(*table),
    {
        let ceiling: usize = match self.limit {
            Some(n) => n,
            None => usize::MAX,
        };
        table.counts[self.slot] >= ceiling
    }

    /// Makes one more connection active, unless the limit is reached.
    pub fn try_acquire(&self, table: &mut ConnectionTable) -> (guard: Option<ConcurrencyGuard>)
        requires
            self.counted_in(*old(table)),
        ensures
            match guard {
                Some(g) => !self.full(*old(table)) && g.slot() == self.slot() && final(table)@
                    == old(table)@.update(
                    self.slot(),
                    (old(table)@[self.slot()] + 1) as usize,
                ),
                None => self.full(*old(table)) && final(table)@ == old(table)@,
            },
    {
        if self.at_capacity(table) {
            None
        } else {
            let count: usize = table.counts[self.slot];
            table.counts.set(self.slot, count + 1);
            Some(ConcurrencyGuard { slot: self.slot })
        }
    }

    /// Counts in the slot of `other` from now on; the limit stays.
    pub fn adopt_active_counter(&mut self, other: &ConcurrencyLimiter)
        ensures
            final(self).slot() == other.slot(),
            final(self).limit_set() == old(self).limit_set(),
    {
        self.slot = other.slot;
    }
}

/// Releasing a connection that was just made active leaves the table as it was.
pub proof fn law_release_undoes_acquire(before: Seq<usize>, slot: int)
    requires
        0 <= slot < before.len(),
        before[slot] < usize::MAX,
    ensures
        ({
            let during = before.update(slot, (before[slot] + 1) as usize);
            during.update(slot, (during[slot] - 1) as usize) == before
        }),
{
    let during = before.update(slot, (before[slot] + 1) as usize);
    assert(during.update(slot, (during[slot] - 1) as usize) =~= before);
}

// ---------------------------------------------------------------------------
// Labels and routing rules
// ---------------------------------------------------------------------------

/// Labels, each key with one value.
#[derive(Debug)]
pub struct Labels {
    pairs: Vec<(String, String)>,
}

/// Whether a pair with the key stands at position `i`.
spec fn label_at(pairs: Seq<(String, String)>, key: Seq<char>, i: int) -> bool {
    0 <= i < pairs.len() && pairs[i].0@ == key
}

spec fn label_map(pairs: Seq<(String, String)>) -> Map<Seq<char>, Seq<char>> {
    Map::new(
        |key: Seq<char>| exists|i: int| label_at(pairs, key, i),
        |key: Seq<char>| pairs[choose|i: int| label_at(pairs, key, i)].1@,
    )
}

spec fn labels_distinct(pairs: Seq<(String, String)>) -> bool {
    forall|i: int, j: int|
        0 <= i < j < pairs.len() ==> (#[trigger] pairs[i]).0@ != (#[trigger] pairs[j]).0@
}

proof fn lemma_label_at(pairs: Seq<(String, String)>, i: int)
    requires
        labels_distinct(pairs),
        0 <= i < pairs.len(),
    ensures
        label_map(pairs).dom().contains(pairs[i].0@),
        label_map(pairs)[pairs[i].0@] == pairs[i].1@,
{
    let key = pairs[i].0@;
    assert(label_at(pairs, key, i));
    let j = choose|j: int| label_at(pairs, key, j);
    assert(label_at(pairs, key, j));
    if i < j {
        assert(pairs[i].0@ != pairs[j].0@);
    } else if j < i {
        assert(pairs[j].0@ != pairs[i].0@);
    }
}

impl View for Labels {
    type V = Map<Seq<char>, Seq<char>>;

    closed spec fn view(&self) -> Map<Seq<char>, Seq<char>> {
        label_map(self.pairs@)
    }
}

impl Labels {
    #[verifier::type_invariant]
    spec fn each_key_once(self) -> bool {
        labels_distinct(self.pairs@)
    }

    /// No labels.
    pub fn new() -> (labels: Labels)
        ensures
            labels@ == Map::<Seq<char>, Seq<char>>::empty(),
    {
        let labels = Labels { pairs: Vec::new() };
        assert(labels@ =~= Map::<Seq<char>, Seq<char>>::empty());
        labels
    }

    /// The position of a key.
    fn position(&self, key: &str) -> (at: Option<usize>)
        ensures
            match at {
                Some(i) => label_at(self.pairs@, key@, i as int),
                None => forall|i: int| !label_at(self.pairs@, key@, i),
            },
    {
        let mut i: usize = 0;
        while i < self.pairs.len()
            invariant
                i <= self.pairs.len(),
                forall|j: int| 0 <= j < i ==> !label_at(self.pairs@, key@, j),
            decreases self.pairs.len() - i,
        {
            if text::same_text(self.pairs[i].0.as_str(), key) {
                return Some(i);
            }
            i = i + 1;
        }
        None
    }

    /// The value of a key.
    pub fn get(&self, key: &str) -> (value: Option<&str>)
        ensures
            match value {
                Some(v) => self@.dom().contains(key@) && self@[key@] == v@,
                None => !self@.dom().contains(key@),
            },
    {
        proof {
            use_type_invariant(self);
        }
        match self.position(key) {
            Some(i) => {
                proof {
                    lemma_label_at(self.pairs@, i as int);
                }
                Some(self.pairs[i].1.as_str())
            },
            None => None,
        }
    }

    /// Gives a key its value.
    pub fn insert(&mut self, key: &str, value: &str)
        ensures
            final(self)@ == old(self)@.insert(key@, value@),
    {
        proof {
            use_type_invariant(&*self);
        }
        let at = self.position(key);
        let ghost before = self.pairs@;
        let mut pairs: Vec<(String, String)> = Vec::new();
        std::mem::swap(&mut pairs, &mut self.pairs);
        match at {
            Some(i) => {
                pairs.set(i, (key.to_owned(), value.to_owned()));
            },
            None => {
                pairs.push((key.to_owned(), value.to_owned()));
            },
        }
        proof {
            let after = pairs@;
            let k = match at {
                Some(i) => i as int,
                None => before.len() as int,
            };
            assert(after.len() >= before.len());
            assert forall|i: int, j: int| 0 <= i < j < after.len() implies (#[trigger] after[i]).0@
                != (#[trigger] after[j]).0@ by {
                if at is None {
                    assert(!label_at(before, key@, i));
                }
            }
            let want = label_map(before).insert(key@, value@);
            assert forall|name: Seq<char>| label_map(after).dom().contains(name)
                <==> want.dom().contains(name) by {
                if label_map(after).dom().contains(name) && name != key@ {
                    let i = choose|i: int| label_at(after, name, i);
                    assert(label_at(before, name, i));
                }
                if label_map(before).dom().contains(name) {
                    let i = choose|i: int| label_at(before, name, i);
                    assert(label_at(after, name, i));
                }
                if name == key@ {
                    assert(label_at(after, name, k));
                }
            }
            assert forall|name: Seq<char>| label_map(after).dom().contains(name) implies label_map(
                after,
            )[name] == want[name] by {
                if name == key@ {
                    lemma_label_at(after, k);
                } else {
                    let i = choose|i: int| label_at(after, name, i);
                    lemma_label_at(after, i);
                    lemma_label_at(before, i);
                }
            }
            assert(label_map(after) =~= want);
        }
        self.pairs = pairs;
    }

    /// Whether `other` gives every key of these labels the same value.
    pub fn all_in(&self, other: &Labels) -> (yes: bool)
        ensures
            yes == self@.submap_of(other@),
    {
        proof {
            use_type_invariant(self);
        }
        let mut i: usize = 0;
        while i < self.pairs.len()
            invariant
                i <= self.pairs.len(),
                labels_distinct(self.pairs@),
                forall|j: int|
                    0 <= j < i ==> other@.dom().contains((#[trigger] self.pairs@[j]).0@)
                        && other@[self.pairs@[j].0@] == self.pairs@[j].1@,
            decreases self.pairs.len() - i,
        {
            proof {
                lemma_label_at(self.pairs@, i as int);
            }
            match other.get(self.pairs[i].0.as_str()) {
                Some(v) => {
                    if !text::same_text(v, self.pairs[i].1.as_str()) {
                        return false;
                    }
                },
                None => {
                    return false;
                },
            }
            i = i + 1;
        }
        proof {
            assert forall|key: Seq<char>| self@.dom().contains(key) implies #[trigger]
                other@.dom().contains(key) && self@[key] == other@[key] by {
                let j = choose|j: int| label_at(self.pairs@, key, j);
                lemma_label_at(self.pairs@, j);
            }
        }
        true
    }
}

/// What a routing rule does with a request.
#[derive(Debug)]
pub enum RoutingAction {
    /// Refuses the request.
    Deny,
    /// Sends the request to the pool of another model.
    Redirect { target: String },
}

/// An action for the requests whose key carries certain labels.
#[derive(Debug)]
pub struct RoutingRule {
    pub match_labels: Labels,
    pub action: RoutingAction,
}

// ---------------------------------------------------------------------------
// Pool settings
// ---------------------------------------------------------------------------

/// How a pool chooses among its providers.
#[derive(Debug, Clone, Copy, PartialEq, Eq, Structural)]
pub enum LoadBalanceStrategy {
    /// The least loaded for its weight, at random by weight among equals.
    WeightedRandom,
    /// The first that is available, in the order of definition.
    Priority,
    /// The one that was last seen to answer fastest, at random by weight among equals.
    FastestTtfb,
}

impl Default for LoadBalanceStrategy {
    fn default() -> (strategy: LoadBalanceStrategy)
        ensures
            strategy == LoadBalanceStrategy::WeightedRandom,
    {
        LoadBalanceStrategy::WeightedRandom
    }
}

/// When and how often a request is tried again with another provider.
#[derive(Debug)]
pub struct FallbackConfig {
    pub enabled: bool,
    /// The statuses of an upstream response on which the next provider is tried.
    pub on_status: Vec<u16>,
    /// Whether the next provider is tried when a provider's own rate limit is reached.
    pub on_rate_limit: bool,
    /// Whether a provider may be tried more than once.
    pub with_replacement: bool,
    /// The most attempts for one request; as many as there are providers where it is not set.
    pub max_attempts: Option<usize>,
    /// The most milliseconds that one request may wait between attempts, in all.
    pub max_total_backoff_ms: Option<u64>,
}

impl Default for FallbackConfig {
    fn default() -> (config: FallbackConfig)
        ensures
            !config.enabled,
            config.on_status@ == Seq::<u16>::empty(),
            !config.on_rate_limit,
            !config.with_replacement,
            config.max_attempts is None,
            config.max_total_backoff_ms is None,
    {
        FallbackConfig {
            enabled: false,
            on_status: Vec::new(),
            on_rate_limit: false,
            with_replacement: false,
            max_attempts: None,
            max_total_backoff_ms: None,
        }
    }
}

impl FallbackConfig {
    /// Whether an upstream response with a status is a reason to try the next provider.
    pub open spec fn retries_on(self, status: u16) -> bool {
        self.enabled && self.on_status@.contains(status)
    }

    /// Whether an upstream response with a status is a reason to try the next provider.
    pub fn should_fallback_on_status(&self, status_code: u16) -> (retry: bool)
        ensures
            retry == self.retries_on(status_code),
    {
        if !self.enabled {
            return false;
        }
        let mut i: usize = 0;
        while i < self.on_status.len()
            invariant
                self.enabled,
                i <= self.on_status.len(),
                forall|j: int| 0 <= j < i ==> self.on_status@[j] != status_code,
            decreases self.on_status.len() - i,
        {
            if self.on_status[i] == status_code {
                assert(self.on_status@[i as int] == status_code);
                return true;
            }
            i = i + 1;
        }
        false
    }
}

/// An upstream to which requests can be sent.
pub struct Target {
    pub url: TargetUrl,
    /// The key that the upstream is sent.
    pub onwards_key: Option<String>,
    /// The model name that the upstream knows.
    pub onwards_model: Option<String>,
    pub limiter: Option<Arc<dyn RateLimiter>>,
    /// The header in which the key is sent; `Authorization` where it is not set.
    pub upstream_auth_header_name: Option<String>,
    /// What stands before the key; `Bearer ` where it is not set.
    pub upstream_auth_header_prefix: Option<String>,
    /// Headers to put on every response.
    pub response_headers: Option<Vec<(String, String)>>,
    pub sanitize_response: bool,
    pub request_timeout_secs: Option<u64>,
    pub trusted: Option<bool>,
    pub propagate_trace_context: Option<bool>,
}

impl Target {
    /// A target with nothing set but its URL.
    pub fn new(url: TargetUrl) -> (target: Target)
        ensures
            target.url == url,
            target.onwards_key is None,
            target.onwards_model is None,
            target.limiter is None,
            target.upstream_auth_header_name is None,
            target.upstream_auth_header_prefix is None,
            target.response_headers is None,
            !target.sanitize_response,
            target.request_timeout_secs is None,
            target.trusted is None,
            target.propagate_trace_context is None,
    {
        Target {
            url,
            onwards_key: None,
            onwards_model: None,
            limiter: None,
            upstream_auth_header_name: None,
            upstream_auth_header_prefix: None,
            response_headers: None,
            sanitize_response: false,
            request_timeout_secs: None,
            trusted: None,
            propagate_trace_context: None,
        }
    }
}

/// A place is free exactly while fewer connections are active than the limit, if there is one, allows;
/// taking it adds one to the count of that limit and to no other.
pub proof fn law_a_place_is_taken_below_the_limit(limiter: ConcurrencyLimiter, counts: Seq<usize>, i: int)
    requires
        0 <= limiter.slot() < counts.len(),
        0 <= i < counts.len(),
    ensures
        limiter.taken(counts) is Some <==> match limiter.limit_set() {
            Some(limit) => counts[limiter.slot()] < limit,
            None => counts[limiter.slot()] < usize::MAX,
        },
        limiter.taken(counts) matches Some(after) ==> {
            &&& after.len() == counts.len()
            &&& after[limiter.slot()] == counts[limiter.slot()] + 1
            &&& i != limiter.slot() ==> after[i] == counts[i]
        },
{
}

/// Rules that are enabled try another provider after exactly the statuses that are set.
pub proof fn law_statuses_to_retry(rules: FallbackConfig, status: u16)
    ensures
        rules.retries_on(status) ==> rules.enabled,
        rules.enabled ==> (rules.retries_on(status) <==> exists|i: int|
            0 <= i < rules.on_status@.len() && #[trigger] rules.on_status@[i] == status),
{
}

} // verus!
