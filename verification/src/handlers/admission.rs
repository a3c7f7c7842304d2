//! Whether a request is let in, and to which pool.
use axum::http::{HeaderMap, HeaderValue};
use std::sync::Arc;
use vstd::prelude::*;
use crate::auth;
use crate::errors::{ErrorView, OnwardsErrorResponse};
use crate::handlers::forwarding;
use crate::headers;
use crate::json;
use crate::json::{Json, JsonTree};
use crate::load_balancer;
use crate::load_balancer::ProviderPool;
use crate::names::NameMap;
use crate::target;
use crate::target::{
    ConcurrencyGuard, ConcurrencyLimiter, ConnectionTable, Labels, RateLimitExceeded, RateLimiter,
    RoutingAction,
};
use crate::text;

verus! {

// ---------------------------------------------------------------------------
// What a request says
// ---------------------------------------------------------------------------

/// The model that a document names.
pub open spec fn named_model(tree: JsonTree) -> Option<Seq<char>> {
    match tree.member("model"@) {
        Some(JsonTree::Text(model)) => Some(model),
        _ => None,
    }
}

/// The model that a request body names.
pub open spec fn body_model(body: Seq<u8>) -> Option<Seq<char>> {
    match json::parsed_json(body) {
        Some(tree) => named_model(tree),
        None => None,
    }
}

/// The model that a request asks for, where its body names `named`. The `model-override` header
/// decides where it is there, even if it is no text; what the body names counts otherwise.
pub open spec fn asked_model(h: HeaderMap<HeaderValue>, named: Option<Seq<char>>) -> Option<
    Seq<char>,
> {
    if headers::entries(h).dom().contains("model-override"@) {
        headers::header_text(h, "model-override"@)
    } else {
        named
    }
}

/// The model that a request asks for.
pub open spec fn requested_model(h: HeaderMap<HeaderValue>, body: Seq<u8>) -> Option<Seq<char>> {
    asked_model(h, body_model(body))
}

/// The model that a document names.
pub fn model_of(value: &Json) -> (model: Option<String>)
    ensures
        text::optional(model) == named_model(value@),
{
    match value.member("model") {
        Some(Json::Text(model)) => Some(model.clone()),
        _ => None,
    }
}

/// The model that a request body names. The body has to be a JSON document from end to end for
/// that: a document with a number that is out of range, or one that nests too deeply, names none.
pub fn extract_body_model(body: &[u8]) -> (model: Option<String>)
    ensures
        text::optional(model) == body_model(body@),
{
    match Json::parse(body) {
        Some(value) => model_of(&value),
        None => None,
    }
}

/// The model that a request asks for, where its body was found to name `named`.
pub fn apply_override(h: &HeaderMap<HeaderValue>, named: Option<String>) -> (model: Option<String>)
    ensures
        text::optional(model) == asked_model(*h, text::optional(named)),
{
    proof {
        headers::lemma_known_names();
    }
    if headers::has_header(h, "model-override") {
        headers::get_text(h, "model-override")
    } else {
        named
    }
}

/// The model that a request asks for.
pub fn extract_model_from_request(h: &HeaderMap<HeaderValue>, body: &[u8]) -> (model: Option<String>)
    ensures
        text::optional(model) == requested_model(*h, body@),
{
    proof {
        headers::lemma_known_names();
    }
    if headers::has_header(h, "model-override") {
        headers::get_text(h, "model-override")
    } else {
        extract_body_model(body)
    }
}

/// The bearer token that a request carries.
pub open spec fn bearer(h: HeaderMap<HeaderValue>) -> Option<Seq<char>> {
    match headers::header_text(h, "authorization"@) {
        Some(value) => text::after_prefix(value, "Bearer "@),
        None => None,
    }
}

/// The bearer token that a request carries.
pub fn bearer_token(h: &HeaderMap<HeaderValue>) -> (token: Option<String>)
    ensures
        text::optional(token) == bearer(*h),
{
    proof {
        headers::lemma_known_names();
    }
    match headers::get_text(h, "authorization") {
        Some(value) => {
            let chars = text::chars_of(value.as_str());
            let prefix = text::chars_of("Bearer ");
            match text::strip_prefix(chars.as_slice(), prefix.as_slice()) {
                Some(rest) => Some(text::string_of(rest)),
                None => None,
            }
        },
        None => None,
    }
}

// ---------------------------------------------------------------------------
// What the gateway serves
// ---------------------------------------------------------------------------

/// The pools by model, and what is known of each key.
pub struct Targets {
    pub targets: NameMap<Arc<ProviderPool>>,
    pub key_labels: NameMap<Labels>,
    pub key_rate_limiters: NameMap<Arc<dyn RateLimiter>>,
    pub key_concurrency_limiters: NameMap<ConcurrencyLimiter>,
    /// Whether responses are looked into and brought into the standard form.
    pub strict_mode: bool,
}

/// Whether a token gives access to a pool; if not, what is said.
pub open spec fn refused(pool: ProviderPool, token: Option<Seq<char>>) -> Option<ErrorView> {
    match pool.key_set() {
        Some(keys) => match token {
            Some(t) => if keys@.contains(t) {
                None
            } else {
                Some(ErrorView::forbidden())
            },
            None => Some(ErrorView::unauthorized()),
        },
        None => None,
    }
}

impl Targets {
    /// The labels of a key.
    pub open spec fn labels_of(self, token: Seq<char>) -> Map<Seq<char>, Seq<char>> {
        if self.key_labels@.dom().contains(token) {
            self.key_labels@[token]@
        } else {
            Map::empty()
        }
    }

    /// The pool that serves a request that was let into a pool: another one if a routing rule of
    /// the pool says so. The rules of that other pool are not looked at.
    pub open spec fn routed(self, pool: ProviderPool, token: Option<Seq<char>>) -> Result<
        ProviderPool,
        ErrorView,
    > {
        match token {
            Some(t) => match load_balancer::first_action(pool.rules(), self.labels_of(t)) {
                Some(RoutingAction::Deny) => Err(ErrorView::forbidden()),
                Some(RoutingAction::Redirect { target }) => if self.targets@.dom().contains(target@)
                    && self.targets@[target@].all().len() > 0 {
                    Ok(*self.targets@[target@])
                } else {
                    Err(ErrorView::bad_gateway())
                },
                None => Ok(pool),
            },
            None => Ok(pool),
        }
    }

    /// The pool that a request for a model leads to, with or without providers, or what is said.
    pub open spec fn found(self, model: Seq<char>, token: Option<Seq<char>>) -> Result<
        ProviderPool,
        ErrorView,
    > {
        if !self.targets@.dom().contains(model) {
            Err(ErrorView::model_not_found(model))
        } else {
            let pool = *self.targets@[model];
            match refused(pool, token) {
                Some(error) => Err(error),
                None => self.routed(pool, token),
            }
        }
    }

    /// The pool that serves a request for a model, or what is said.
    pub open spec fn resolved(self, model: Seq<char>, token: Option<Seq<char>>) -> Result<
        ProviderPool,
        ErrorView,
    > {
        match self.found(model, token) {
            Ok(chosen) => if chosen.all().len() == 0 {
                Err(ErrorView::service_unavailable())
            } else {
                Ok(chosen)
            },
            Err(error) => Err(error),
        }
    }

    /// The pool that a request for a model leads to, with or without providers.
    pub fn find_pool(&self, model: &str, token: Option<&str>) -> (pool: Result<
        &Arc<ProviderPool>,
        OnwardsErrorResponse,
    >)
        ensures
            match pool {
                Ok(p) => self.found(model@, text::optional_str(token)) == Ok::<
                    ProviderPool,
                    ErrorView,
                >(**p),
                Err(e) => self.found(model@, text::optional_str(token)) == Err::<
                    ProviderPool,
                    ErrorView,
                >(e@),
            },
    {
        let pool = match self.targets.get(model) {
            Some(pool) => pool,
            None => {
                return Err(OnwardsErrorResponse::model_not_found(model));
            },
        };
        if let Some(error) = refuse(pool, token) {
            return Err(error);
        }
        let mut chosen = pool;
        if let Some(t) = token {
            let none = Labels::new();
            let labels = match self.key_labels.get(t) {
                Some(labels) => labels,
                None => &none,
            };
            match pool.evaluate_routing_rules(labels) {
                Some(RoutingAction::Deny) => {
                    return Err(OnwardsErrorResponse::forbidden());
                },
                Some(RoutingAction::Redirect { target }) => {
                    match self.targets.get(target.as_str()) {
                        Some(other) => {
                            if other.is_empty() {
                                return Err(OnwardsErrorResponse::bad_gateway());
                            }
                            chosen = other;
                        },
                        None => {
                            return Err(OnwardsErrorResponse::bad_gateway());
                        },
                    }
                },
                None => {},
            }
        }
        Ok(chosen)
    }
}

/// The models, of those given, whose pools a token gives access to.
pub open spec fn open_to(
    pools: Map<Seq<char>, Arc<ProviderPool>>,
    names: Seq<Seq<char>>,
    token: Option<Seq<char>>,
) -> Seq<Seq<char>>
    decreases names.len(),
{
    if names.len() == 0 {
        Seq::<Seq<char>>::empty()
    } else {
        let rest = open_to(pools, names.drop_last(), token);
        if is_open_to(pools, names.last(), token) {
            rest.push(names.last())
        } else {
            rest
        }
    }
}

/// Whether a token gives access to the pool of a model.
pub open spec fn is_open_to(
    pools: Map<Seq<char>, Arc<ProviderPool>>,
    name: Seq<char>,
    token: Option<Seq<char>>,
) -> bool {
    refused(*pools[name], token) is None
}

impl Targets {
    /// The models whose pools a token gives access to.
    pub fn accessible_models(&self, token: Option<&str>) -> (names: Vec<String>)
        ensures
            text::texts(names@) == open_to(
                self.targets@,
                self.targets.order(),
                text::optional_str(token),
            ),
    {
        let ghost order = self.targets.order();
        let ghost t = text::optional_str(token);
        let mut names: Vec<String> = Vec::new();
        let count: usize = self.targets.len();
        let mut i: usize = 0;
        assert(text::texts(names@) =~= open_to(self.targets@, order.take(0), t));
        while i < count
            invariant
                i <= count == order.len(),
                order == self.targets.order(),
                t == text::optional_str(token),
                text::texts(names@) == open_to(self.targets@, order.take(i as int), t),
            decreases count - i,
        {
            let ghost before = names@;
            let (name, pool) = self.targets.at(i);
            proof {
                assert(order.take(i + 1).drop_last() == order.take(i as int));
                assert(order.take(i + 1).last() == name@);
            }
            if refuse(pool, token).is_none() {
                names.push(name.to_owned());
                assert(text::texts(names@) =~= text::texts(before).push(name@));
            }
            i = i + 1;
        }
        assert(order.take(order.len() as int) == order);
        names
    }
}

/// A model is listed for a token exactly when its pool does not refuse the token.
pub proof fn law_listed_iff_not_refused(
    pools: Map<Seq<char>, Arc<ProviderPool>>,
    names: Seq<Seq<char>>,
    token: Option<Seq<char>>,
    name: Seq<char>,
)
    ensures
        open_to(pools, names, token).contains(name) <==> names.contains(name) && is_open_to(
            pools,
            name,
            token,
        ),
    decreases names.len(),
{
    if names.len() > 0 {
        let front = names.drop_last();
        let rest = open_to(pools, front, token);
        law_listed_iff_not_refused(pools, front, token, name);
        assert(names == front.push(names.last()));
        if front.contains(name) {
            let i = choose|i: int| 0 <= i < front.len() && front[i] == name;
            assert(names[i] == name);
        }
        if names.contains(name) && name != names.last() {
            let i = choose|i: int| 0 <= i < names.len() && names[i] == name;
            assert(front[i] == name);
        }
        assert(names[names.len() - 1] == names.last());
        if rest.contains(name) {
            let i = choose|i: int| 0 <= i < rest.len() && rest[i] == name;
            assert(rest.push(names.last())[i] == name);
        }
        if is_open_to(pools, names.last(), token) {
            let all = rest.push(names.last());
            assert(all[rest.len() as int] == names.last());
            if all.contains(name) && name != names.last() {
                let i = choose|i: int| 0 <= i < all.len() && all[i] == name;
                assert(rest[i] == name);
            }
        }
    }
}

/// Whether a token gives access to a pool; if not, what is said.
pub fn refuse(pool: &ProviderPool, token: Option<&str>) -> (error: Option<OnwardsErrorResponse>)
    ensures
        match error {
            Some(e) => refused(*pool, text::optional_str(token)) == Some(e@),
            None => refused(*pool, text::optional_str(token)) is None,
        },
{
    match pool.keys() {
        Some(keys) => match token {
            Some(t) => if auth::validate_bearer_token(keys, t, None) {
                None
            } else {
                Some(OnwardsErrorResponse::forbidden())
            },
            None => Some(OnwardsErrorResponse::unauthorized()),
        },
        None => None,
    }
}

// ---------------------------------------------------------------------------
// Limits
// ---------------------------------------------------------------------------

/// What is said when rate limits, where there are any, have been asked: the pool's first, then
/// the key's.
pub open spec fn rate_limit_error(
    pool_check: Option<Result<(), RateLimitExceeded>>,
    key_check: Option<Result<(), RateLimitExceeded>>,
) -> Option<ErrorView> {
    if pool_check matches Some(Err(_)) || key_check matches Some(Err(_)) {
        Some(ErrorView::rate_limited())
    } else {
        None
    }
}

/// What is said when rate limits have been asked.
pub fn judge_rate_limits(
    pool_check: Option<Result<(), RateLimitExceeded>>,
    key_check: Option<Result<(), RateLimitExceeded>>,
) -> (error: Option<OnwardsErrorResponse>)
    ensures
        match error {
            Some(e) => rate_limit_error(pool_check, key_check) == Some(e@),
            None => rate_limit_error(pool_check, key_check) is None,
        },
{
    match pool_check {
        Some(Err(_)) => Some(OnwardsErrorResponse::rate_limited()),
        _ => match key_check {
            Some(Err(_)) => Some(OnwardsErrorResponse::rate_limited()),
            _ => None,
        },
    }
}

impl Targets {
    /// Whether `answer` can be what comes of asking the rate limit of a key, where there is one.
    pub open spec fn key_asked(
        self,
        token: Option<Seq<char>>,
        answer: Option<Result<(), RateLimitExceeded>>,
    ) -> bool {
        if token matches Some(t) && self.key_rate_limiters@.dom().contains(t) {
            answer matches Some(a) && target::can_answer(&*self.key_rate_limiters@[token->0], a)
        } else {
            answer is None
        }
    }

    /// Whether these can be the answers of the rate limits of a pool and a key, where there are
    /// any. The key's is asked only if the pool's lets the request pass.
    pub open spec fn can_be_checked(
        self,
        pool: ProviderPool,
        token: Option<Seq<char>>,
        pool_check: Option<Result<(), RateLimitExceeded>>,
        key_check: Option<Result<(), RateLimitExceeded>>,
    ) -> bool {
        &&& target::asked(pool.rate_limit(), pool_check)
        &&& if pool_check matches Some(Err(_)) {
            key_check is None
        } else {
            self.key_asked(token, key_check)
        }
    }

    /// Asks the rate limit of a pool, and then, if that lets the request pass, that of the key.
    /// Where there is neither, the request passes.
    pub fn check_rate_limits(&self, pool: &ProviderPool, token: Option<&str>) -> (error: Option<
        OnwardsErrorResponse,
    >)
        ensures
            exists|
                pool_check: Option<Result<(), RateLimitExceeded>>,
                key_check: Option<Result<(), RateLimitExceeded>>,
            |
                {
                    &&& #[trigger] self.can_be_checked(
                        *pool,
                        text::optional_str(token),
                        pool_check,
                        key_check,
                    )
                    &&& match error {
                        Some(e) => rate_limit_error(pool_check, key_check) == Some(e@),
                        None => rate_limit_error(pool_check, key_check) is None,
                    }
                },
    {
        let ghost t = text::optional_str(token);
        let pool_check = target::ask(pool.pool_limiter());
        if let Some(Err(_)) = pool_check {
            assert(self.can_be_checked(*pool, t, pool_check, None));
            return judge_rate_limits(pool_check, None);
        }
        let key_limiter = match token {
            Some(t) => self.key_rate_limiters.get(t),
            None => None,
        };
        let key_check = target::ask(key_limiter);
        assert(self.can_be_checked(*pool, t, pool_check, key_check));
        judge_rate_limits(pool_check, key_check)
    }

    /// The concurrency limit of a key.
    pub open spec fn key_limit(self, token: Option<Seq<char>>) -> Option<ConcurrencyLimiter> {
        match token {
            Some(t) => if self.key_concurrency_limiters@.dom().contains(t) {
                Some(self.key_concurrency_limiters@[t])
            } else {
                None
            },
            None => None,
        }
    }

    /// The concurrency limit of a key.
    pub fn key_limiter(&self, token: Option<&str>) -> (limiter: Option<ConcurrencyLimiter>)
        ensures
            limiter == self.key_limit(text::optional_str(token)),
    {
        match token {
            Some(t) => match self.key_concurrency_limiters.get(t) {
                Some(limiter) => Some(*limiter),
                None => None,
            },
            None => None,
        }
    }
}

/// The places that a request takes in its pool and under its key while it is served.
pub struct Slots {
    pub pool: Option<ConcurrencyGuard>,
    pub key: Option<ConcurrencyGuard>,
}

/// The counts with one more connection where there is a limiter, unless its limit is reached.
pub open spec fn taken(limiter: Option<ConcurrencyLimiter>, counts: Seq<usize>) -> Option<Seq<usize>> {
    match limiter {
        Some(l) => l.taken(counts),
        None => Some(counts),
    }
}

/// The counts once a request has its places in the pool and under its key.
pub open spec fn both_taken(
    pool: Option<ConcurrencyLimiter>,
    key: Option<ConcurrencyLimiter>,
    counts: Seq<usize>,
) -> Option<Seq<usize>> {
    match taken(pool, counts) {
        Some(after) => taken(key, after),
        None => None,
    }
}

/// Whether a guard is of a limiter, where there is one.
pub open spec fn guards(guard: Option<ConcurrencyGuard>, limiter: Option<ConcurrencyLimiter>) -> bool {
    match limiter {
        Some(l) => guard matches Some(g) && g.slot() == l.slot(),
        None => guard is None,
    }
}

fn take_slot(limiter: Option<ConcurrencyLimiter>, table: &mut ConnectionTable) -> (guard: Result<
    Option<ConcurrencyGuard>,
    (),
>)
    requires
        limiter matches Some(l) ==> l.counted_in(*old(table)),
    ensures
        match guard {
            Ok(g) => taken(limiter, old(table)@) == Some(final(table)@) && guards(g, limiter),
            Err(_) => taken(limiter, old(table)@) is None && final(table)@ == old(table)@,
        },
{
    match limiter {
        Some(l) => match l.try_acquire(table) {
            Some(guard) => Ok(Some(guard)),
            None => Err(()),
        },
        None => Ok(None),
    }
}

/// Takes a place in the pool and then one under the key. If either is full, neither is taken.
pub fn acquire_slots(
    pool: &ProviderPool,
    key_limiter: Option<ConcurrencyLimiter>,
    table: &mut ConnectionTable,
) -> (slots: Result<Slots, OnwardsErrorResponse>)
    requires
        pool.counted_in(*old(table)),
        key_limiter matches Some(l) ==> l.counted_in(*old(table)),
    ensures
        match slots {
            Ok(s) => both_taken(pool.concurrency_limit(), key_limiter, old(table)@) == Some(
                final(table)@,
            ) && guards(s.pool, pool.concurrency_limit()) && guards(s.key, key_limiter),
            Err(e) => both_taken(pool.concurrency_limit(), key_limiter, old(table)@) is None
                && final(table)@ == old(table)@ && e@ == ErrorView::concurrency_limited(),
        },
{
    let pool_limiter = match pool.pool_concurrency_limiter() {
        Some(limiter) => Some(*limiter),
        None => None,
    };
    let pool_guard = match take_slot(pool_limiter, table) {
        Ok(guard) => guard,
        Err(_) => {
            return Err(OnwardsErrorResponse::concurrency_limited());
        },
    };
    match take_slot(key_limiter, table) {
        Ok(key_guard) => Ok(Slots { pool: pool_guard, key: key_guard }),
        Err(_) => {
            if let Some(guard) = pool_guard {
                table.release(guard);
            }
            proof {
                assert(table@ =~= old(table)@);
            }
            Err(OnwardsErrorResponse::concurrency_limited())
        },
    }
}

/// The counts once a place is given up.
pub open spec fn given_up(guard: Option<ConcurrencyGuard>, counts: Seq<usize>) -> Seq<usize> {
    match guard {
        Some(g) => counts.update(g.slot(), (counts[g.slot()] - 1) as usize),
        None => counts,
    }
}

/// Whether a place can be given up: it is counted.
pub open spec fn is_counted(guard: Option<ConcurrencyGuard>, counts: Seq<usize>) -> bool {
    guard matches Some(g) ==> 0 <= g.slot() < counts.len() && counts[g.slot()] > 0
}

/// Gives up the places that a request took.
pub fn release_slots(slots: Slots, table: &mut ConnectionTable)
    requires
        is_counted(slots.key, old(table)@),
        is_counted(slots.pool, given_up(slots.key, old(table)@)),
    ensures
        final(table)@ == given_up(slots.pool, given_up(slots.key, old(table)@)),
{
    if let Some(guard) = slots.key {
        table.release(guard);
    }
    if let Some(guard) = slots.pool {
        table.release(guard);
    }
}

/// Giving up the places that a request took leaves the counts as they were before.
pub proof fn law_slots_are_given_back(
    pool: Option<ConcurrencyLimiter>,
    key: Option<ConcurrencyLimiter>,
    slots: Slots,
    counts: Seq<usize>,
)
    requires
        pool matches Some(l) ==> 0 <= l.slot() < counts.len(),
        key matches Some(l) ==> 0 <= l.slot() < counts.len(),
        both_taken(pool, key, counts) is Some,
        guards(slots.pool, pool),
        guards(slots.key, key),
    ensures
        ({
            let during = both_taken(pool, key, counts)->0;
            &&& is_counted(slots.key, during)
            &&& is_counted(slots.pool, given_up(slots.key, during))
            &&& given_up(slots.pool, given_up(slots.key, during)) == counts
        }),
{
    let middle = taken(pool, counts)->0;
    let during = both_taken(pool, key, counts)->0;
    assert(given_up(slots.key, during) =~= middle);
    assert(given_up(slots.pool, middle) =~= counts);
}

// ---------------------------------------------------------------------------
// Laws
// ---------------------------------------------------------------------------

/// A request for a model that is not served is told so, whoever asks; a request without a token,
/// or with a token that is no key, is refused by a pool that has keys, whatever its rules.
pub proof fn law_refusals(targets: Targets, model: Seq<char>, token: Option<Seq<char>>)
    ensures
        !targets.targets@.dom().contains(model) ==> targets.resolved(model, token) == Err::<
            ProviderPool,
            ErrorView,
        >(ErrorView::model_not_found(model)),
        targets.targets@.dom().contains(model) && targets.targets@[model].key_set() is Some && (
        token matches Some(t) ==> !((targets.targets@[model].key_set()->0)@.contains(t)))
            ==> targets.resolved(model, token) == Err::<ProviderPool, ErrorView>(
            if token is Some {
                ErrorView::forbidden()
            } else {
                ErrorView::unauthorized()
            },
        ),
{
}

/// A request that is let in is served by a pool with providers.
pub proof fn law_served_by_providers(targets: Targets, model: Seq<char>, token: Option<Seq<char>>)
    ensures
        targets.resolved(model, token) matches Ok(pool) ==> pool.all().len() > 0,
{
}

// ---------------------------------------------------------------------------
// Admission
// ---------------------------------------------------------------------------

impl Targets {
    /// Whether the connections of every pool and every key are counted in a table.
    pub open spec fn counted_in(self, table: ConnectionTable) -> bool {
        &&& forall|n: Seq<char>| #[trigger]
            self.targets@.dom().contains(n) ==> self.targets@[n].counted_in(table)
        &&& forall|t: Seq<char>| #[trigger]
            self.key_concurrency_limiters@.dom().contains(t)
                ==> self.key_concurrency_limiters@[t].counted_in(table)
    }

    /// Whether the connections of every pool and every key are counted in a table.
    pub fn is_counted(&self, table: &ConnectionTable) -> (counted: bool)
        ensures
            counted == self.counted_in(*table),
    {
        let names = self.targets.names();
        let mut i: usize = 0;
        while i < names.len()
            invariant
                i <= names.len(),
                forall|n: Seq<char>|
                    self.targets@.dom().contains(n) <==> exists|j: int|
                        0 <= j < names.len() && (#[trigger] names@[j])@ == n,
                forall|j: int|
                    0 <= j < i ==> self.targets@[(#[trigger] names@[j])@].counted_in(*table),
            decreases names.len() - i,
        {
            assert(self.targets@.dom().contains(names@[i as int]@));
            if let Some(pool) = self.targets.get(names[i].as_str()) {
                if !pool.is_counted(table) {
                    return false;
                }
            }
            i = i + 1;
        }
        assert forall|n: Seq<char>| #[trigger]
            self.targets@.dom().contains(n) implies self.targets@[n].counted_in(*table) by {
            let j = choose|j: int| 0 <= j < names.len() && (#[trigger] names@[j])@ == n;
            assert(self.targets@[names@[j]@].counted_in(*table));
        }
        let keys = self.key_concurrency_limiters.names();
        let mut k: usize = 0;
        while k < keys.len()
            invariant
                k <= keys.len(),
                forall|n: Seq<char>|
                    self.key_concurrency_limiters@.dom().contains(n) <==> exists|j: int|
                        0 <= j < keys.len() && (#[trigger] keys@[j])@ == n,
                forall|j: int|
                    0 <= j < k ==> self.key_concurrency_limiters@[(#[trigger] keys@[j])@].counted_in(
                        *table,
                    ),
            decreases keys.len() - k,
        {
            assert(self.key_concurrency_limiters@.dom().contains(keys@[k as int]@));
            if let Some(limiter) = self.key_concurrency_limiters.get(keys[k].as_str()) {
                if !limiter.is_counted(table) {
                    return false;
                }
            }
            k = k + 1;
        }
        assert forall|n: Seq<char>| #[trigger]
            self.key_concurrency_limiters@.dom().contains(
                n,
            ) implies self.key_concurrency_limiters@[n].counted_in(*table) by {
            let j = choose|j: int| 0 <= j < keys.len() && (#[trigger] keys@[j])@ == n;
            assert(self.key_concurrency_limiters@[keys@[j]@].counted_in(*table));
        }
        true
    }

    /// The model that a request asks for and the pool that serves it, before any limit is looked
    /// at; or what the client is told.
    pub open spec fn destination(self, h: HeaderMap<HeaderValue>, body: Seq<u8>) -> Result<
        (Seq<char>, ProviderPool),
        ErrorView,
    > {
        match requested_model(h, body) {
            Some(model) => match self.resolved(model, bearer(h)) {
                Ok(pool) => Ok((model, pool)),
                Err(error) => Err(error),
            },
            None => Err(forwarding::no_model_error()),
        }
    }

    /// Whether a rate limit is asked for a request to a pool.
    pub open spec fn is_rate_limited(self, pool: ProviderPool, token: Option<Seq<char>>) -> bool {
        pool.rate_limit() is Some || (token matches Some(t)
            && self.key_rate_limiters@.dom().contains(t))
    }

    /// The model that a request asks for and the pool that it leads to, with or without providers;
    /// or what the client is told.
    pub open spec fn located(self, model: Option<Seq<char>>, token: Option<Seq<char>>) -> Result<
        (Seq<char>, ProviderPool),
        ErrorView,
    > {
        match model {
            Some(m) => match self.found(m, token) {
                Ok(pool) => Ok((m, pool)),
                Err(error) => Err(error),
            },
            None => Err(forwarding::no_model_error()),
        }
    }

    /// Finds the pool that a request leads to, given the model that it asks for. Whether the pool
    /// has providers is not looked at yet.
    pub fn locate(&self, h: &HeaderMap<HeaderValue>, model: Option<String>) -> (found: Result<
        Located<'_>,
        OnwardsErrorResponse,
    >)
        ensures
            match (found, self.located(text::optional(model), bearer(*h))) {
                (Ok(f), Ok((m, pool))) => {
                    &&& f.model@ == m
                    &&& text::optional(f.token) == bearer(*h)
                    &&& **f.pool == pool
                },
                (Err(e), Err(error)) => e@ == error,
                _ => false,
            },
    {
        let model = match model {
            Some(model) => model,
            None => {
                return Err(forwarding::no_model());
            },
        };
        let token = bearer_token(h);
        let token_text = match &token {
            Some(token) => Some(token.as_str()),
            None => None,
        };
        match self.find_pool(model.as_str(), token_text) {
            Ok(pool) => Ok(Located { model, token, pool }),
            Err(error) => Err(error),
        }
    }

    /// Whether asking the rate limits for a request to a pool, and then taking a place in the pool
    /// and one under the key, can have led to `entry`, with counts that were `before` and are
    /// `after`. A request that is not let in takes no place.
    pub open spec fn can_enter(
        self,
        pool: ProviderPool,
        token: Option<Seq<char>>,
        before: Seq<usize>,
        after: Seq<usize>,
        entry: Result<Slots, ErrorView>,
    ) -> bool {
        exists|
            pool_check: Option<Result<(), RateLimitExceeded>>,
            key_check: Option<Result<(), RateLimitExceeded>>,
        |
            {
                &&& #[trigger] self.can_be_checked(pool, token, pool_check, key_check)
                &&& match rate_limit_error(pool_check, key_check) {
                    Some(error) => entry == Err::<Slots, ErrorView>(error) && after == before,
                    None => match both_taken(
                        pool.concurrency_limit(),
                        self.key_limit(token),
                        before,
                    ) {
                        Some(during) => {
                            &&& entry matches Ok(slots)
                            &&& guards(slots.pool, pool.concurrency_limit())
                            &&& guards(slots.key, self.key_limit(token))
                            &&& after == during
                        },
                        None => entry == Err::<Slots, ErrorView>(ErrorView::concurrency_limited())
                            && after == before,
                    },
                }
            }
    }

    /// Lets a request into the pool that it leads to. `reasoning` is what came of validating its
    /// reasoning settings: whether it has any, or what the client is told. That comes first; then
    /// the pool has to have providers; then the rate limits are asked, and a place is taken in the
    /// pool and under the key.
    pub fn enter<'a>(
        &self,
        found: Located<'a>,
        reasoning: Result<bool, OnwardsErrorResponse>,
        table: &mut ConnectionTable,
    ) -> (admitted: Result<Admitted<'a>, OnwardsErrorResponse>)
        requires
            self.counted_in(*old(table)),
            found.pool.counted_in(*old(table)),
        ensures
            match (entry_error(**found.pool, reasoning), admitted) {
                (Some(error), Err(e)) => e@ == error && final(table)@ == old(table)@,
                (Some(_), Ok(_)) => false,
                (None, Ok(a)) => {
                    &&& a.model == found.model
                    &&& a.token == found.token
                    &&& a.pool == found.pool
                    &&& reasoning == Ok::<bool, OnwardsErrorResponse>(a.reasoning)
                    &&& self.can_enter(
                        **found.pool,
                        text::optional(found.token),
                        old(table)@,
                        final(table)@,
                        Ok(a.slots),
                    )
                },
                (None, Err(e)) => self.can_enter(
                    **found.pool,
                    text::optional(found.token),
                    old(table)@,
                    final(table)@,
                    Err(e@),
                ),
            },
    {
        let reasoning = match reasoning {
            Ok(reasoning) => reasoning,
            Err(error) => {
                return Err(error);
            },
        };
        let Located { model, token, pool } = found;
        if pool.is_empty() {
            return Err(OnwardsErrorResponse::service_unavailable());
        }
        let token_text = match &token {
            Some(token) => Some(token.as_str()),
            None => None,
        };
        if let Some(error) = self.check_rate_limits(pool, token_text) {
            return Err(error);
        }
        match acquire_slots(pool, self.key_limiter(token_text), table) {
            Ok(slots) => Ok(Admitted { model, token, pool, slots, reasoning }),
            Err(error) => Err(error),
        }
    }

    /// Lets in a request without reasoning settings: finds the pool that serves it, asks the rate
    /// limits, and takes a place in the pool and under the key.
    pub fn let_in(
        &self,
        h: &HeaderMap<HeaderValue>,
        body: &[u8],
        table: &mut ConnectionTable,
    ) -> (admitted: Result<Admitted<'_>, OnwardsErrorResponse>)
        requires
            self.counted_in(*old(table)),
        ensures
            match (admitted, self.destination(*h, body@)) {
                (Err(e), Err(error)) => e@ == error && final(table)@ == old(table)@,
                (Ok(_), Err(_)) => false,
                (Ok(a), Ok((model, pool))) => {
                    &&& a.model@ == model
                    &&& text::optional(a.token) == bearer(*h)
                    &&& **a.pool == pool
                    &&& !a.reasoning
                    &&& self.can_enter(
                        pool,
                        bearer(*h),
                        old(table)@,
                        final(table)@,
                        Ok(a.slots),
                    )
                },
                (Err(e), Ok((_, pool))) => self.can_enter(
                    pool,
                    bearer(*h),
                    old(table)@,
                    final(table)@,
                    Err(e@),
                ),
            },
    {
        let found = match self.locate(h, extract_model_from_request(h, body)) {
            Ok(found) => found,
            Err(error) => {
                return Err(error);
            },
        };
        proof {
            self.lemma_found_is_counted(found.model@, bearer(*h), *table);
        }
        self.enter(found, Ok(false), table)
    }

    /// A pool that a request leads to is one of those that are counted.
    pub proof fn lemma_found_is_counted(
        self,
        model: Seq<char>,
        token: Option<Seq<char>>,
        table: ConnectionTable,
    )
        requires
            self.counted_in(table),
        ensures
            self.found(model, token) matches Ok(pool) ==> pool.counted_in(table),
    {
    }
}

/// What keeps a request out of a pool before any limit is asked: an error in its reasoning settings
/// before a want of providers.
pub open spec fn entry_error(
    pool: ProviderPool,
    reasoning: Result<bool, OnwardsErrorResponse>,
) -> Option<ErrorView> {
    match reasoning {
        Err(error) => Some(error@),
        Ok(_) => if pool.all().len() == 0 {
            Some(ErrorView::service_unavailable())
        } else {
            None
        },
    }
}

/// A request that the limits keep out is told that it comes too often, and then some rate limit is
/// set for it, or that too many are under way, and then a place that it needs is not free.
pub proof fn law_kept_out_by_a_limit(
    targets: Targets,
    pool: ProviderPool,
    token: Option<Seq<char>>,
    before: Seq<usize>,
    after: Seq<usize>,
    error: ErrorView,
)
    requires
        targets.can_enter(pool, token, before, after, Err(error)),
    ensures
        after == before,
        (error == ErrorView::rate_limited() && targets.is_rate_limited(pool, token)) || (error
            == ErrorView::concurrency_limited() && both_taken(
            pool.concurrency_limit(),
            targets.key_limit(token),
            before,
        ) is None),
{
}

/// A request for which no rate limit is set is let in exactly when its places are free.
pub proof fn law_let_in_without_rate_limit(
    targets: Targets,
    pool: ProviderPool,
    token: Option<Seq<char>>,
    before: Seq<usize>,
    after: Seq<usize>,
    entry: Result<Slots, ErrorView>,
)
    requires
        !targets.is_rate_limited(pool, token),
        targets.can_enter(pool, token, before, after, entry),
    ensures
        entry is Ok <==> both_taken(
            pool.concurrency_limit(),
            targets.key_limit(token),
            before,
        ) is Some,
{
}

/// A request and the pool that it leads to.
pub struct Located<'a> {
    pub model: String,
    pub token: Option<String>,
    pub pool: &'a Arc<ProviderPool>,
}

/// A request that was let in.
pub struct Admitted<'a> {
    pub model: String,
    pub token: Option<String>,
    pub pool: &'a Arc<ProviderPool>,
    pub slots: Slots,
    /// Whether it has reasoning settings.
    pub reasoning: bool,
}

// ---------------------------------------------------------------------------
// Who is let in where
// ---------------------------------------------------------------------------

/// The model that a request asks for: what the `model-override` header says, where it is there, and
/// otherwise the text under `model` in the body.
pub proof fn law_model_of_a_request(
    h: HeaderMap<HeaderValue>,
    body: Seq<u8>,
    named: Option<Seq<char>>,
    tree: JsonTree,
    model: Seq<char>,
)
    ensures
        headers::entries(h).dom().contains("model-override"@) ==> requested_model(h, body)
            == headers::header_text(h, "model-override"@) && asked_model(h, named)
            == headers::header_text(h, "model-override"@),
        !headers::entries(h).dom().contains("model-override"@) ==> {
            &&& asked_model(h, named) == named
            &&& json::parsed_json(body) is None ==> requested_model(h, body) is None
            &&& json::parsed_json(body) == Some(tree) ==> (requested_model(h, body) == Some(model)
                <==> tree.member("model"@) == Some(JsonTree::Text(model)))
        },
{
}

/// A request carries a token exactly when its `authorization` header is `Bearer ` and the token.
pub proof fn law_bearer_token(h: HeaderMap<HeaderValue>, token: Seq<char>)
    ensures
        bearer(h) == Some(token) <==> headers::header_text(h, "authorization"@) == Some(
            "Bearer "@ + token,
        ),
{
    text::law_prefix_and_suffix("Bearer "@ + token, "Bearer "@, token);
    if let Some(value) = headers::header_text(h, "authorization"@) {
        if text::begins_with(value, "Bearer "@) {
            assert(value =~= "Bearer "@ + value.skip("Bearer "@.len() as int));
        }
    }
}

/// A pool without keys is open to everyone; one with keys is open to exactly those who hold one of
/// them. Who holds another token is forbidden to enter, who holds none is asked for one.
pub proof fn law_keys_open_a_pool(pool: ProviderPool, token: Seq<char>)
    ensures
        pool.key_set() is None ==> refused(pool, Some(token)) is None && refused(pool, None) is None,
        pool.key_set() matches Some(keys) ==> {
            &&& refused(pool, Some(token)) is None <==> keys@.contains(token)
            &&& !keys@.contains(token) ==> (refused(pool, Some(token)) matches Some(error)
                && error.status == 403)
            &&& refused(pool, None) matches Some(error)
            &&& error.status == 401
        },
{
}

/// The first rule of a pool that fits the labels of a token decides where its request goes: nowhere, or
/// to the pool of another model, if that has providers. Without a token, or where no rule fits, the pool
/// serves the request itself.
pub proof fn law_routing(targets: Targets, pool: ProviderPool, token: Seq<char>, i: int)
    requires
        0 <= i <= pool.rules().len(),
        forall|j: int|
            0 <= j < i ==> !(#[trigger] pool.rules()[j]).match_labels@.submap_of(
                targets.labels_of(token),
            ),
    ensures
        targets.routed(pool, None) == Ok::<ProviderPool, ErrorView>(pool),
        i == pool.rules().len() ==> targets.routed(pool, Some(token)) == Ok::<
            ProviderPool,
            ErrorView,
        >(pool),
        i < pool.rules().len() && pool.rules()[i].match_labels@.submap_of(targets.labels_of(token))
            ==> match pool.rules()[i].action {
            RoutingAction::Deny => targets.routed(pool, Some(token)) matches Err(error)
                && error.status == 403,
            RoutingAction::Redirect { target } => {
                let other = targets.targets@[target@];
                if targets.targets@.dom().contains(target@) && other.all().len() > 0 {
                    targets.routed(pool, Some(token)) == Ok::<ProviderPool, ErrorView>(*other)
                } else {
                    targets.routed(pool, Some(token)) matches Err(error) && error.status == 502
                }
            },
        },
{
    load_balancer::law_first_rule_decides(pool.rules(), targets.labels_of(token), i);
}

/// A token has the labels that are set for it, and none where none are.
pub proof fn law_labels_of_a_token(targets: Targets, token: Seq<char>)
    ensures
        targets.key_labels@.dom().contains(token) ==> targets.labels_of(token)
            == targets.key_labels@[token]@,
        !targets.key_labels@.dom().contains(token) ==> targets.labels_of(token).dom()
            =~= Set::<Seq<char>>::empty(),
{
}

/// A request is served by the pool that routing leads to from the pool of the model, if the token opens
/// that; whether it has providers is looked at last.
pub proof fn law_way_to_a_pool(targets: Targets, model: Seq<char>, token: Option<Seq<char>>)
    requires
        targets.targets@.dom().contains(model),
        refused(*targets.targets@[model], token) is None,
    ensures
        targets.found(model, token) == targets.routed(*targets.targets@[model], token),
        match targets.routed(*targets.targets@[model], token) {
            Ok(pool) => if pool.all().len() > 0 {
                targets.resolved(model, token) == Ok::<ProviderPool, ErrorView>(pool)
            } else {
                targets.resolved(model, token) matches Err(error) && error.status == 503
            },
            Err(error) => targets.resolved(model, token) == Err::<ProviderPool, ErrorView>(error),
        },
{
}

/// Where a request goes is decided by the model that it asks for and its token alone; a request that
/// asks for none is a bad request.
pub proof fn law_destination_of_a_request(targets: Targets, h: HeaderMap<HeaderValue>, body: Seq<u8>)
    ensures
        requested_model(h, body) is None ==> (targets.destination(h, body) matches Err(error)
            && error.status == 400) && (targets.located(None, bearer(h)) matches Err(error)
            && error.status == 400),
        requested_model(h, body) matches Some(model) ==> {
            &&& match targets.resolved(model, bearer(h)) {
                Ok(pool) => targets.destination(h, body) == Ok::<
                    (Seq<char>, ProviderPool),
                    ErrorView,
                >((model, pool)),
                Err(error) => targets.destination(h, body) == Err::<
                    (Seq<char>, ProviderPool),
                    ErrorView,
                >(error),
            }
            &&& match targets.found(model, bearer(h)) {
                Ok(pool) => targets.located(Some(model), bearer(h)) == Ok::<
                    (Seq<char>, ProviderPool),
                    ErrorView,
                >((model, pool)),
                Err(error) => targets.located(Some(model), bearer(h)) == Err::<
                    (Seq<char>, ProviderPool),
                    ErrorView,
                >(error),
            }
        },
{
}

/// The models that a token can use are listed in the order in which they are given, each as often as it
/// is given.
pub proof fn law_models_are_listed_in_order(
    pools: Map<Seq<char>, Arc<ProviderPool>>,
    names: Seq<Seq<char>>,
    name: Seq<char>,
    token: Option<Seq<char>>,
)
    ensures
        open_to(pools, Seq::empty(), token).len() == 0,
        refused(*pools[name], token) is None ==> open_to(pools, names.push(name), token) == open_to(
            pools,
            names,
            token,
        ).push(name),
        refused(*pools[name], token) is Some ==> open_to(pools, names.push(name), token) == open_to(
            pools,
            names,
            token,
        ),
{
    assert(names.push(name).drop_last() =~= names);
}

/// A refusal of either rate limit keeps a request out; without one the rate limits do not.
pub proof fn law_either_rate_limit_refuses(
    pool_check: Option<Result<(), RateLimitExceeded>>,
    key_check: Option<Result<(), RateLimitExceeded>>,
    refusal: RateLimitExceeded,
)
    ensures
        rate_limit_error(Some(Err(refusal)), key_check) matches Some(error) && error.status == 429,
        rate_limit_error(pool_check, Some(Err(refusal))) matches Some(error) && error.status == 429,
        (pool_check matches Some(answer) ==> answer is Ok) && (key_check matches Some(answer)
            ==> answer is Ok) ==> rate_limit_error(pool_check, key_check) is None,
{
}

/// A request is kept out where the rate limit of the pool can only refuse, and where that of its token
/// can only refuse; where all limits that are asked can only let it pass, it is not told that it comes
/// too often.
pub proof fn law_rate_limits_are_asked(
    targets: Targets,
    pool: ProviderPool,
    token: Seq<char>,
    before: Seq<usize>,
    after: Seq<usize>,
    entry: Result<Slots, ErrorView>,
)
    requires
        targets.can_enter(pool, Some(token), before, after, entry),
    ensures
        pool.rate_limit() matches Some(limit) ==> ((forall|answer: Result<(), RateLimitExceeded>| #[trigger]
            target::can_answer(&*limit, answer) ==> answer is Err) ==> entry == Err::<
            Slots,
            ErrorView,
        >(ErrorView::rate_limited())),
        targets.key_rate_limiters@.dom().contains(token) && (forall|
            answer: Result<(), RateLimitExceeded>,
        | #[trigger]
            target::can_answer(&*targets.key_rate_limiters@[token], answer) ==> answer is Err)
            ==> entry == Err::<Slots, ErrorView>(ErrorView::rate_limited()),
        (pool.rate_limit() matches Some(limit) ==> forall|answer: Result<(), RateLimitExceeded>| #[trigger]
            target::can_answer(&*limit, answer) ==> answer is Ok) && (
        targets.key_rate_limiters@.dom().contains(token) ==> forall|
            answer: Result<(), RateLimitExceeded>,
        | #[trigger]
            target::can_answer(&*targets.key_rate_limiters@[token], answer) ==> answer is Ok)
            ==> entry != Err::<Slots, ErrorView>(ErrorView::rate_limited()),
{
    crate::errors::law_statuses(Seq::empty(), Seq::empty(), None, 0, 0);
}

/// The key that counts for a request is that of its token.
pub proof fn law_limit_of_a_key(targets: Targets, token: Seq<char>)
    ensures
        targets.key_limit(None) is None,
        targets.key_concurrency_limiters@.dom().contains(token) ==> targets.key_limit(Some(token))
            == Some(targets.key_concurrency_limiters@[token]),
        !targets.key_concurrency_limiters@.dom().contains(token) ==> targets.key_limit(Some(token))
            is None,
{
}

/// A request takes a place in the pool and one under its key, where there are limits: both have to be
/// below theirs, each count goes up by one, and no other count changes.
pub proof fn law_places_of_a_request(
    pool: ConcurrencyLimiter,
    key: ConcurrencyLimiter,
    counts: Seq<usize>,
    i: int,
)
    requires
        0 <= pool.slot() < counts.len(),
        0 <= key.slot() < counts.len(),
        pool.slot() != key.slot(),
        0 <= i < counts.len(),
    ensures
        both_taken(None, None, counts) == Some(counts),
        both_taken(Some(pool), None, counts) == pool.taken(counts),
        both_taken(None, Some(key), counts) == key.taken(counts),
        both_taken(Some(pool), Some(key), counts) is Some <==> pool.taken(counts) is Some
            && key.taken(counts) is Some,
        both_taken(Some(pool), Some(key), counts) matches Some(after) ==> {
            &&& after.len() == counts.len()
            &&& after[pool.slot()] == counts[pool.slot()] + 1
            &&& after[key.slot()] == counts[key.slot()] + 1
            &&& i != pool.slot() && i != key.slot() ==> after[i] == counts[i]
        },
{
    target::law_a_place_is_taken_below_the_limit(pool, counts, i);
    target::law_a_place_is_taken_below_the_limit(key, counts, i);
}

/// A request that is let in holds a place for each limit that there is.
pub proof fn law_places_are_held(
    guard: Option<ConcurrencyGuard>,
    limiter: ConcurrencyLimiter,
    counts: Seq<usize>,
)
    ensures
        guards(guard, Some(limiter)) ==> (guard matches Some(g) && g.slot() == limiter.slot()),
        guards(guard, None) <==> guard is None,
        given_up(None, counts) == counts,
        guard matches Some(g) ==> (0 <= g.slot() < counts.len() && counts[g.slot()] > 0 ==> given_up(
            guard,
            counts,
        )[g.slot()] == counts[g.slot()] - 1),
{
}

/// What is wrong with the reasoning settings of a request is told before anything else; then that the
/// pool has no providers.
pub proof fn law_reasoning_comes_first(pool: ProviderPool, error: OnwardsErrorResponse, settings: bool)
    ensures
        entry_error(pool, Err(error)) == Some(error@),
        pool.all().len() == 0 ==> (entry_error(pool, Ok(settings)) matches Some(told) && told.status
            == 503),
        pool.all().len() > 0 ==> entry_error(pool, Ok(settings)) is None,
{
}

} // verus!
