//! What the operations do, as their callers see it: laws over the calls themselves.
use axum::http::{HeaderMap, HeaderValue};
use std::collections::HashSet;
use vstd::prelude::*;
use vstd::utf8::encode_utf8;
use crate::auth;
use crate::auth::{HashAlgorithm, KeySet};
use crate::cache::CacheStats;
use crate::cache_usage;
use crate::errors::OnwardsErrorResponse;
use crate::handlers::admission;
use crate::handlers::admission::{Admitted, Located, Targets};
use crate::handlers::embedded;
use crate::handlers::embedded::Scan2xx;
use crate::handlers::exchange;
use crate::handlers::exchange::{Action, AttemptEvent, Delivery, Exchange, Stage};
use crate::handlers::forwarding;
use crate::handlers::relay;
use crate::handlers::relay::{Pause, Relay, Rewritten, UpstreamOutcome, Verdict};
use crate::headers;
use crate::json;
use crate::json::{Json, JsonTree};
use crate::load_balancer::{Provider, ProviderPool, SelectIter, TtfbTracker};
use crate::target::{
    ConcurrencyGuard, ConcurrencyLimiter, ConnectionTable, LoadBalanceStrategy, RateLimitExceeded, Target,
};
use crate::model_switcher;
use crate::model_switcher::callbacks::{ModelSwitcherCallbacks, SleepLevel, SwitchError};
use crate::model_switcher::policy::{BatchingPolicy, PolicyContext, PolicyDecision, SwitchPolicy};
use crate::model_switcher::switcher;
use crate::model_switcher::switcher::{
    InFlightGuard, ModelSwitcher, Notice, OutcomeView, PhaseView, Readiness, StateView, SwitchRun,
    SwitchStart, Waited,
};
use crate::model_switcher::vllm;
use crate::model_switcher::vllm::{VllmCallbacks, VllmHttpClient, WakeRun, WakeView};
use crate::models::ListModelResponse;
use crate::script_tools;
use crate::span::Span;
use crate::sse;
use crate::sse::SseBuffer;
use crate::switch_proxy::config::PolicyConfig;
use crate::switch_proxy::middleware;
use crate::switch_proxy::middleware::Route;
use crate::switch_proxy::mock_vllm;
use crate::switch_proxy::mock_vllm::MockState;
use crate::switch_proxy::policy::FifoPolicy;
use crate::text;

verus! {

// ---------------------------------------------------------------------------
// Requests and responses
// ---------------------------------------------------------------------------

/// Giving a request another model touches nothing but its model.
pub proof fn law_set_model(value: Json, model: &str, changed: Option<Json>, key: Seq<char>)
    requires
        call_ensures(forwarding::set_model, (value, model), changed),
    ensures
        changed is Some <==> value@.member("model"@) is Some,
        changed matches Some(renamed) ==> {
            &&& renamed@.member("model"@) == Some(JsonTree::Text(model@))
            &&& key != "model"@ ==> renamed@.member(key) == value@.member(key)
        },
{
    forwarding::law_renaming_keeps_the_rest(value@, model@, key);
}

/// The body that a target gets names the target's own model, where it has one and the client's body is a
/// document that names a model, and has every other member of that.
pub proof fn law_prepare_body(
    body: &Vec<u8>,
    target: &Target,
    prepared: Result<Vec<u8>, OnwardsErrorResponse>,
    tree: JsonTree,
)
    requires
        call_ensures(forwarding::prepare_body, (body, target), prepared),
    ensures
        target.onwards_model is None || body@.len() == 0 ==> (prepared matches Ok(bytes) && bytes@
            == body@),
        body@.len() > 0 && json::parsed_json(body@) == Some(tree) && tree.member("model"@) is Some
            ==> (target.onwards_model matches Some(model) ==> exists|renamed: JsonTree|
            {
                &&& #[trigger] forwarding::differs_in_model(renamed, tree, model@)
                &&& match json::json_text(renamed) {
                    Some(s) => prepared matches Ok(bytes) && bytes@ == encode_utf8(s),
                    None => prepared matches Err(error) && error.status == 500,
                }
            }),
        target.onwards_model is Some && body@.len() > 0 && json::parsed_json(body@) is None ==> (
        prepared matches Err(error) && error.status == 400),
{
    forwarding::law_body_for_a_target(body@, *target);
    if body@.len() > 0 && json::parsed_json(body@) == Some(tree) && tree.member("model"@) is Some {
        if let Some(model) = target.onwards_model {
            let renamed = choose|renamed: JsonTree|
                {
                    &&& #[trigger] forwarding::differs_in_model(renamed, tree, model@)
                    &&& match json::json_text(renamed) {
                        Some(s) => forwarding::attempt_body(body@, *target) == Ok::<
                            Seq<u8>,
                            crate::errors::ErrorView,
                        >(encode_utf8(s)),
                        None => forwarding::attempt_body(body@, *target) == Err::<
                            Seq<u8>,
                            crate::errors::ErrorView,
                        >(crate::errors::ErrorView::internal()),
                    }
                };
            assert(forwarding::differs_in_model(renamed, tree, model@));
        }
    }
}

/// Making a request ready to be sent on keeps every member but the markers and the options of a stream;
/// a stream is asked for its usage, and whether anything changed is told.
pub proof fn law_sanitize_request(value: Json, result: (Json, bool), key: Seq<char>)
    requires
        call_ensures(cache_usage::sanitize_request, (value,), result),
    ensures
        result.1 <==> result.0@ != value@,
        !cache_usage::has_marker(result.0@),
        key != "cache_control"@ && key != "stream_options"@ ==> match value@.member(key) {
            Some(member) => result.0@.member(key) == Some(cache_usage::stripped(member)),
            None => result.0@.member(key) is None,
        },
        value@.member("stream"@) == Some(JsonTree::Bool(true)) ==> (result.0@.member(
            "stream_options"@,
        ) matches Some(options) && options.member("include_usage"@) == Some(JsonTree::Bool(true))),
        value@.member("stream"@) != Some(JsonTree::Bool(true)) ==> result.0@ == cache_usage::stripped(
            value@,
        ),
{
    cache_usage::law_sanitized_has_no_marker(value@);
    if key != "cache_control"@ && key != "stream_options"@ {
        cache_usage::law_sanitizing_keeps_the_rest(value@, key);
    }
    if value@.member("stream"@) == Some(JsonTree::Bool(true)) {
        cache_usage::law_stream_options_are_kept(value@, key);
    } else {
        cache_usage::law_only_streams_get_options(value@);
    }
}

/// A body is replaced exactly when it is a document that is not ready to be sent on, by the text of that
/// document made ready.
pub proof fn law_strip_cache_control(body: &[u8], rewritten: Option<Vec<u8>>, tree: JsonTree)
    requires
        call_ensures(cache_usage::strip_cache_control, (body,), rewritten),
    ensures
        json::parsed_json(body@) is None ==> rewritten is None,
        json::parsed_json(body@) == Some(tree) && cache_usage::sanitized(tree) == tree ==> rewritten
            is None,
        json::parsed_json(body@) == Some(tree) && cache_usage::sanitized(tree) != tree ==> match json::json_text(
            cache_usage::sanitized(tree),
        ) {
            Some(s) => rewritten matches Some(bytes) && bytes@ == encode_utf8(s),
            None => rewritten is None,
        },
{
}

/// The cache counts are put into a usage report and nothing else of the response is touched.
pub proof fn law_inject_usage(value: Json, stats: &CacheStats, response: Option<Json>, key: Seq<char>)
    requires
        call_ensures(cache_usage::inject_usage, (value, stats), response),
    ensures
        response is Some <==> (value@.member("usage"@) matches Some(usage) && usage is Object),
        response matches Some(out) ==> {
            &&& key != "usage"@ ==> out@.member(key) == value@.member(key)
            &&& out@.member("usage"@) matches Some(usage)
            &&& usage.member("cache_read_input_tokens"@) == Some(JsonTree::Unsigned(stats.read))
        },
{
    cache_usage::law_counts_go_where_usage_is(value@, *stats);
    if response is Some {
        cache_usage::law_counts_in_full(value@, *stats, key);
    }
}

/// The headers of a body that was read to its end tell the length of what is passed on.
pub proof fn law_inject_into_body(body: Vec<u8>, stats: &CacheStats, out: Vec<u8>)
    ensures
        forall|h: &mut HeaderMap<HeaderValue>| #[trigger]
            call_ensures(cache_usage::inject_into_body, (h, body, stats), out) ==> {
                &&& headers::entries(*final(h)).dom().contains("content-length"@)
                &&& headers::entries(*final(h))["content-length"@] == seq![
                    encode_utf8(text::numeral(out@.len())),
                ]
                &&& !headers::entries(*final(h)).dom().contains("transfer-encoding"@)
                &&& json::parsed_json(body@) is None ==> out@ == body@
            },
{
    headers::law_length_is_told(Map::empty(), 0, Seq::empty());
    reveal_strlit("content-length");
    reveal_strlit("transfer-encoding");
    assert("content-length"@.len() != "transfer-encoding"@.len());
}

/// An error under `error.code` of a document is found for every HTTP error status.
pub proof fn law_embedded_error_status(body: &Json, status: Option<u16>, error: JsonTree, n: u64)
    requires
        call_ensures(embedded::embedded_error_status, (body,), status),
        body@.member("error"@) == Some(error),
        error.member("code"@) == Some(JsonTree::Unsigned(n)) || error.member("code"@) == Some(
            JsonTree::Text(text::numeral(n as nat)),
        ),
    ensures
        400 <= n < 600 ==> status == Some(n as u16),
        n < 400 || n >= 600 ==> status is None,
{
    embedded::law_error_code_is_the_status(body@, error, n, Seq::empty());
}

/// A successful response whose body is a document that tells an error is not passed for a success.
pub proof fn law_scan_body(body: &[u8], scan: Scan2xx, tree: JsonTree, error: JsonTree, n: u64)
    requires
        call_ensures(embedded::scan_body, (body,), scan),
        body@.len() > 0,
        text::occurs_in(encode_utf8("\"error\""@), body@),
        json::parsed_json(body@) == Some(tree),
        tree.member("error"@) == Some(error),
        error.member("code"@) == Some(JsonTree::Unsigned(n)),
    ensures
        400 <= n < 600 ==> scan == Scan2xx::Embedded(n as u16),
        n < 400 || n >= 600 ==> scan == Scan2xx::Clean,
{
    embedded::law_error_code_is_the_status(tree, error, n, Seq::empty());
    embedded::law_body_with_an_error(body@, tree);
}

// ---------------------------------------------------------------------------
// Choosing providers
// ---------------------------------------------------------------------------

/// A measurement that was taken counts for all of it at once, and for less in proportion to the time that
/// passes, until nothing is left after five times its length.
pub proof fn law_measurement(tracker: &TtfbTracker, i: usize, now: u64, counts: u64)
    requires
        call_ensures(TtfbTracker::get, (tracker, i, now), counts),
    ensures
        i >= tracker@.len() ==> counts == 0,
        i < tracker@.len() ==> {
            let (ttfb, at) = tracker@[i as int];
            let window = 5 * (ttfb / 1000);
            let elapsed = if now > at {
                now - at
            } else {
                0
            };
            &&& elapsed < window ==> counts * window <= ttfb * (window - elapsed) < counts * window
                + window
            &&& elapsed >= window ==> counts == 0
        },
{
    if i < tracker@.len() {
        crate::load_balancer::law_decay_is_linear(tracker@[i as int].0, tracker@[i as int].1, now);
    }
}

/// A measurement takes the place of the one before for its provider, and no other is touched.
pub proof fn law_record(i: usize, ttfb: u64, now: u64, other: int)
    ensures
        forall|tracker: &mut TtfbTracker| #[trigger]
            call_ensures(TtfbTracker::record, (tracker, i, ttfb, now), ()) ==> {
                &&& final(tracker)@.len() == tracker@.len()
                &&& i < tracker@.len() ==> final(tracker)@[i as int] == (ttfb, now)
                &&& 0 <= other < tracker@.len() && other != i ==> final(tracker)@[other]
                    == tracker@[other]
            },
{
}

/// A connection is made active exactly where the limit, if there is one, leaves room for it, and then one
/// more is counted there and nowhere else.
pub proof fn law_try_acquire(limiter: &ConcurrencyLimiter, guard: Option<ConcurrencyGuard>, i: int)
    ensures
        forall|table: &mut ConnectionTable|
            (#[trigger] call_ensures(ConcurrencyLimiter::try_acquire, (limiter, table), guard))
                && limiter.counted_in(*table) && 0 <= i < table@.len() ==> {
                let count = table@[limiter.slot()];
                &&& guard is Some <==> match limiter.limit_set() {
                    Some(limit) => count < limit,
                    None => count < usize::MAX,
                }
                &&& final(table)@.len() == table@.len()
                &&& guard matches Some(g) ==> g.slot() == limiter.slot()
                    && final(table)@[limiter.slot()] == count + 1
                &&& guard is None || i != limiter.slot() ==> final(table)@[i] == table@[i]
            },
{
}

/// A connection that is given up is counted no more, and no other count changes.
pub proof fn law_release(guard: ConcurrencyGuard, i: int)
    ensures
        forall|table: &mut ConnectionTable|
            (#[trigger] call_ensures(ConnectionTable::release, (table, guard), ())) && 0 <= guard.slot()
                < table@.len() && table@[guard.slot()] > 0 && 0 <= i < table@.len() ==> {
                &&& final(table)@.len() == table@.len()
                &&& final(table)@[guard.slot()] == table@[guard.slot()] - 1
                &&& i != guard.slot() ==> final(table)@[i] == table@[i]
            },
{
}

/// A new limit has a count of its own, which begins at nothing; the counts of others stay.
pub proof fn law_new_limits(limit: usize, limiter: ConcurrencyLimiter, i: int)
    ensures
        forall|table: &mut ConnectionTable| #[trigger]
            call_ensures(ConcurrencyLimiter::with_limit, (table, limit), limiter) ==> {
                &&& limiter.limit_set() == Some(limit)
                &&& final(table)@.len() == table@.len() + 1
                &&& limiter.slot() == table@.len()
                &&& final(table)@[limiter.slot()] == 0
                &&& 0 <= i < table@.len() ==> final(table)@[i] == table@[i]
            },
        forall|table: &mut ConnectionTable| #[trigger]
            call_ensures(ConcurrencyLimiter::new, (table,), limiter) ==> {
                &&& limiter.limit_set() is None
                &&& final(table)@.len() == table@.len() + 1
                &&& limiter.slot() == table@.len()
                &&& final(table)@[limiter.slot()] == 0
                &&& 0 <= i < table@.len() ==> final(table)@[i] == table@[i]
            },
{
}

/// The provider that is chosen could be, gets the connection, and is handed out with its own target; if
/// none is chosen, no count changes.
pub proof fn law_select_excluding(
    pool: &ProviderPool,
    exclude: &HashSet<usize>,
    now: u64,
    selected: Option<(usize, &Target, ConcurrencyGuard)>,
    other: int,
)
    ensures
        forall|table: &mut ConnectionTable|
            (#[trigger] call_ensures(
                ProviderPool::select_excluding,
                (pool, table, exclude, now),
                selected,
            )) && pool.counted_in(*table) ==> match selected {
                Some((i, target, guard)) => {
                    let chosen = pool.all()[i as int];
                    &&& i < pool.all().len()
                    &&& !exclude@.contains(i)
                    &&& *target == chosen.target
                    &&& guard.slot() == chosen.limiter.slot()
                    &&& final(table)@.len() == table@.len()
                    &&& chosen.limiter.limit_set() matches Some(limit) ==> table@[guard.slot()] < limit
                    &&& table@[guard.slot()] < usize::MAX ==> final(table)@[guard.slot()]
                        == table@[guard.slot()] + 1
                    &&& 0 <= other < table@.len() && other != guard.slot() ==> final(table)@[other]
                        == table@[other]
                },
                None => final(table)@ == table@,
            },
{
    assert forall|table: &mut ConnectionTable|
        (#[trigger] call_ensures(
            ProviderPool::select_excluding,
            (pool, table, exclude, now),
            selected,
        )) && pool.counted_in(*table) implies match selected {
        Some((i, target, guard)) => {
            let chosen = pool.all()[i as int];
            &&& i < pool.all().len()
            &&& !exclude@.contains(i)
            &&& *target == chosen.target
            &&& guard.slot() == chosen.limiter.slot()
            &&& final(table)@.len() == table@.len()
            &&& chosen.limiter.limit_set() matches Some(limit) ==> table@[guard.slot()] < limit
            &&& table@[guard.slot()] < usize::MAX ==> final(table)@[guard.slot()] == table@[guard.slot()]
                + 1
            &&& 0 <= other < table@.len() && other != guard.slot() ==> final(table)@[other]
                == table@[other]
        },
        None => final(table)@ == table@,
    } by {
        match selected {
            Some((i, _, _)) => {
                crate::load_balancer::law_preferred_is_available(*pool, *table, exclude@, now, i as int);
                assert(pool.all()[i as int].limiter.counted_in(*table));
            },
            None => {},
        }
    }
}

/// A provider is made of what it is given.
pub proof fn law_new_provider(target: Target, weight: u32, limit: usize, provider: Provider)
    ensures
        forall|table: &mut ConnectionTable| #[trigger]
            call_ensures(Provider::with_concurrency_limit, (table, target, weight, limit), provider)
                ==> provider.target == target && provider.weight == weight
                && provider.limiter.limit_set() == Some(limit),
        forall|table: &mut ConnectionTable| #[trigger]
            call_ensures(Provider::new, (table, target, weight), provider) ==> provider.target == target
                && provider.weight == weight && provider.limiter.limit_set() is None,
{
}

// ---------------------------------------------------------------------------
// Failing over
// ---------------------------------------------------------------------------

/// What follows from a refusal of a provider's rate limit.
pub proof fn law_judge_rate_limit(
    pool: &ProviderPool,
    check: Option<Result<(), RateLimitExceeded>>,
    verdict: Verdict,
)
    requires
        call_ensures(relay::judge_rate_limit, (pool, check), verdict),
    ensures
        ({
            let refused = check matches Some(answer) && answer is Err;
            let passes_over = pool.retry_rules() matches Some(rules) && rules.enabled
                && rules.on_rate_limit;
            &&& !refused ==> verdict is Proceed
            &&& refused && passes_over ==> (verdict matches Verdict::TryNext(error) && error.status
                == 429)
            &&& refused && !passes_over ==> (verdict matches Verdict::Answer(error) && error.status
                == 429)
        }),
{
}

/// What follows from how an upstream took a request.
pub proof fn law_judge_outcome(
    pool: &ProviderPool,
    target: &Target,
    outcome: UpstreamOutcome,
    verdict: Verdict,
)
    requires
        call_ensures(relay::judge_outcome, (pool, target, outcome), verdict),
    ensures
        ({
            let enabled = pool.retry_rules() matches Some(rules) && rules.enabled;
            match outcome {
                UpstreamOutcome::Timeout => if enabled {
                    verdict matches Verdict::TryNext(error) && error.status == 504
                } else {
                    verdict matches Verdict::Answer(error) && error.status == 504
                },
                UpstreamOutcome::NetworkError => if enabled {
                    verdict matches Verdict::TryNext(error) && error.status == 502
                } else {
                    verdict matches Verdict::Answer(error) && error.status == 502
                },
                UpstreamOutcome::Status(status) => if pool.retry_rules() matches Some(rules)
                    && rules.enabled && rules.on_status@.contains(status) {
                    verdict matches Verdict::TryNext(error) && error.status == 502
                } else if target.sanitize_response && !(200 <= status < 300) {
                    verdict matches Verdict::Answer(error) && error.status == status
                } else {
                    verdict is Proceed
                },
            }
        }),
{
}

/// What follows from a look into a successful response.
pub proof fn law_judge_scan(pool: &ProviderPool, scan: Scan2xx, verdict: Verdict)
    requires
        call_ensures(relay::judge_scan, (pool, scan), verdict),
    ensures
        match scan {
            Scan2xx::Clean => verdict is Proceed,
            Scan2xx::Embedded(status) => if pool.retry_rules() matches Some(rules) && rules.enabled && (
            rules.on_status@.contains(status) || (status == 429 && rules.on_rate_limit)) {
                verdict matches Verdict::TryNext(error) && error.status == 503
            } else if status == 429 || status >= 500 {
                verdict matches Verdict::Answer(error) && error.status == 503
            } else {
                verdict matches Verdict::Answer(error) && error.status == status
            },
            Scan2xx::EmptyBody => if pool.retry_rules() matches Some(rules) && rules.enabled
                && rules.on_status@.contains(502) {
                verdict matches Verdict::TryNext(error) && error.status == 503
            } else {
                verdict matches Verdict::Answer(error) && error.status == 503
            },
        },
{
}

/// A body that was transformed is passed on in its new form, one that needed no change as it was, with its
/// length told; one that could not be transformed is not passed on.
pub proof fn law_settle_body(
    original: Vec<u8>,
    transformed: Result<Option<Vec<u8>>, String>,
    body: Result<Vec<u8>, OnwardsErrorResponse>,
)
    ensures
        forall|h: &mut HeaderMap<HeaderValue>| #[trigger]
            call_ensures(relay::settle_body, (h, original, transformed), body) ==> {
                &&& transformed is Err ==> (body matches Err(error) && error.status == 500)
                &&& transformed matches Ok(Some(new)) ==> (body matches Ok(bytes) && bytes@ == new@)
                &&& transformed matches Ok(None) ==> (body matches Ok(bytes) && bytes@ == original@)
                &&& body matches Ok(bytes) ==> headers::entries(*final(h))["content-length"@] == seq![
                    encode_utf8(text::numeral(bytes@.len())),
                ]
            },
{
}

/// An event that was transformed is passed on in its new form; in any other case it is passed on as it
/// was.
pub proof fn law_settle_event(
    original: Vec<u8>,
    transformed: Result<Option<Vec<u8>>, String>,
    event: Vec<u8>,
)
    requires
        call_ensures(relay::settle_event, (original, transformed), event),
    ensures
        transformed matches Ok(Some(new)) ==> event@ == new@,
        transformed matches Ok(None) ==> event@ == original@,
        transformed is Err ==> event@ == original@,
{
}

// ---------------------------------------------------------------------------
// Letting requests in
// ---------------------------------------------------------------------------

/// A token is valid exactly when it, or its digest where keys are kept as digests, is one of the keys.
pub proof fn law_validate_bearer_token(
    keys: &KeySet,
    token: &str,
    algorithm: &HashAlgorithm,
    plain: bool,
    digested: bool,
)
    requires
        call_ensures(auth::validate_bearer_token, (keys, token, None), plain),
        call_ensures(auth::validate_bearer_token, (keys, token, Some(algorithm)), digested),
    ensures
        plain <==> keys@.contains(token@),
        digested <==> keys@.contains(auth::hex(auth::sha256(encode_utf8(token@)))),
{
    auth::law_hashed_keys(token@);
}

/// A request for a model finds a pool only if the model is served and the token opens its pool.
pub proof fn law_find_pool(
    targets: &Targets,
    model: &str,
    token: Option<&str>,
    found: Result<&std::sync::Arc<ProviderPool>, OnwardsErrorResponse>,
)
    requires
        call_ensures(Targets::find_pool, (targets, model, token), found),
    ensures
        !targets.targets@.dom().contains(model@) ==> (found matches Err(error) && error.status == 404),
        targets.targets@.dom().contains(model@) ==> (targets.targets@[model@].key_set() matches Some(keys)
            ==> {
            &&& token is None ==> (found matches Err(error) && error.status == 401)
            &&& token matches Some(t) ==> (!keys@.contains(t@) ==> (found matches Err(error)
                && error.status == 403))
        }),
        targets.targets@.dom().contains(model@) && token is None
            && targets.targets@[model@].key_set() is None ==> (found matches Ok(pool) && *pool
            == targets.targets@[model@]),
{
}

/// A pool says of a token what its keys say.
pub proof fn law_refuse(pool: &ProviderPool, token: Option<&str>, error: Option<OnwardsErrorResponse>)
    requires
        call_ensures(admission::refuse, (pool, token), error),
    ensures
        error is None <==> match pool.key_set() {
            Some(keys) => token matches Some(t) && keys@.contains(t@),
            None => true,
        },
        error matches Some(e) ==> e.status == if token is None {
            401u16
        } else {
            403u16
        },
{
}

/// Places are taken where the limits leave room for them, and given up again by the request that holds
/// them; a request that gets none is told that too many are under way, and changes no count.
pub proof fn law_acquire_slots(
    pool: &ProviderPool,
    key: Option<ConcurrencyLimiter>,
    slots: Result<admission::Slots, OnwardsErrorResponse>,
)
    ensures
        forall|table: &mut ConnectionTable|
            (#[trigger] call_ensures(admission::acquire_slots, (pool, key, table), slots)) ==> {
                &&& slots matches Err(error) ==> error.status == 429 && final(table)@ == table@
                &&& pool.concurrency_limit() is None && key is None ==> slots is Ok && final(table)@
                    == table@
                &&& slots matches Ok(held) ==> (held.pool is Some <==> pool.concurrency_limit() is Some)
                    && (held.key is Some <==> key is Some)
            },
{
}

// ---------------------------------------------------------------------------
// Headers, paths and streams
// ---------------------------------------------------------------------------

/// What the filter leaves of a client's headers: nothing that stays with the client, all the rest, and
/// what the gateway sets itself.
pub proof fn law_filter_headers(target: &Target, name: Seq<char>)
    requires
        forwarding::auth_is_sendable(*target),
        forwarding::auth_header(*target) matches Some((auth, _)) ==> headers::header_name(auth) != Some(
            name,
        ),
        name != "x-forwarded-proto"@,
    ensures
        forall|h: &mut HeaderMap<HeaderValue>| #[trigger]
            call_ensures(forwarding::filter_headers_for_upstream, (h, target), ()) ==> {
                let before = headers::entries(*h);
                let after = headers::entries(*final(h));
                &&& after.dom().contains(name) <==> before.dom().contains(name)
                    && !forwarding::stays_with_client(name)
                &&& after.dom().contains(name) ==> after[name] == before[name]
            },
{
    assert forall|h: &mut HeaderMap<HeaderValue>| #[trigger]
        call_ensures(forwarding::filter_headers_for_upstream, (h, target), ()) implies ({
        let before = headers::entries(*h);
        let after = headers::entries(*final(h));
        &&& after.dom().contains(name) <==> before.dom().contains(name) && !forwarding::stays_with_client(
            name,
        )
        &&& after.dom().contains(name) ==> after[name] == before[name]
    }) by {
        forwarding::law_which_headers_pass(headers::entries(*h), *target, name);
    }
}

/// Where the trace is not propagated, its headers are taken out, and nothing else.
pub proof fn law_withhold_trace_context(name: Seq<char>)
    ensures
        forall|h: &mut HeaderMap<HeaderValue>| #[trigger]
            call_ensures(forwarding::withhold_trace_context, (h,), ()) ==> {
                let before = headers::entries(*h);
                let after = headers::entries(*final(h));
                &&& after.dom().contains(name) <==> before.dom().contains(name) && name
                    != "traceparent"@ && name != "tracestate"@
                &&& after.dom().contains(name) ==> after[name] == before[name]
            },
{
}

/// The path that is joined to a target's URL does not repeat the path of that URL.
pub proof fn law_join_path(request: &str, target_path: &str, joined: String, base: Seq<char>, rest: Seq<char>)
    requires
        call_ensures(forwarding::join_path, (request, target_path), joined),
        base.len() > 0,
        base.first() != '/',
        base.last() != '/',
        target_path@ == seq!['/'] + base,
    ensures
        request@ == seq!['/'] + base + seq!['/'] + rest ==> joined@ == rest,
        request@ == seq!['/'] + base ==> joined@.len() == 0,
{
    let other = seq!['!'] + base;
    assert forall|r: Seq<char>| other != #[trigger] (base + seq!['/'] + r) by {
        lemma_shifted(base, r);
    }
    assert(other.len() != base.len());
    forwarding::law_base_path_is_not_doubled(base, rest, other);
}

/// A text behind another mark is not the text with a slash behind it, if it does not end in one.
proof fn lemma_shifted(base: Seq<char>, rest: Seq<char>)
    requires
        base.len() > 0,
        base.last() != '/',
    ensures
        seq!['!'] + base != base + seq!['/'] + rest,
{
    let one = seq!['!'] + base;
    let other = base + seq!['/'] + rest;
    assert(one[base.len() as int] == base.last());
    assert(other[base.len() as int] == '/');
}

/// Bytes that are taken in come out again, in order and complete, in events that end at blank lines; what
/// is kept back holds none.
pub proof fn law_push(bytes: &[u8], events: Vec<Vec<u8>>, i: int)
    ensures
        forall|buffer: &mut SseBuffer| #[trigger]
            call_ensures(SseBuffer::push, (buffer, bytes), events) ==> {
                &&& sse::concatenated(sse::views(events@)) + final(buffer)@ == buffer@ + bytes@
                &&& !text::occurs_in(seq![10u8, 10u8], final(buffer)@)
                &&& 0 <= i < events@.len() ==> events@[i]@.len() >= 2 && events@[i]@.skip(
                    events@[i]@.len() - 2,
                ) == seq![10u8, 10u8]
            },
{
    assert forall|buffer: &mut SseBuffer| #[trigger]
        call_ensures(SseBuffer::push, (buffer, bytes), events) implies ({
        &&& sse::concatenated(sse::views(events@)) + final(buffer)@ == buffer@ + bytes@
        &&& !text::occurs_in(seq![10u8, 10u8], final(buffer)@)
        &&& 0 <= i < events@.len() ==> events@[i]@.len() >= 2 && events@[i]@.skip(events@[i]@.len() - 2)
            == seq![10u8, 10u8]
    }) by {
        sse::law_events_end_at_blank_lines(final(buffer)@);
        if 0 <= i < events@.len() {
            sse::law_events_end_at_blank_lines(events@[i]@);
        }
    }
}

/// What is left at the end of a stream is handed out.
pub proof fn law_finish(buffer: SseBuffer, rest: Option<Vec<u8>>)
    requires
        call_ensures(SseBuffer::finish, (buffer,), rest),
    ensures
        rest is None <==> buffer@.len() == 0,
        rest matches Some(bytes) ==> bytes@ == buffer@,
{
}

// ---------------------------------------------------------------------------
// Switching models
// ---------------------------------------------------------------------------

/// A request goes on at once where its model is awake, waits where another is, and is refused where the
/// switcher does not know the model; only waiting changes anything.
pub proof fn law_ensure_model_ready(
    model: &str,
    ticket: u64,
    now: Span,
    ready: Result<Readiness, SwitchError>,
    other: Seq<char>,
)
    ensures
        forall|s: &mut ModelSwitcher| #[trigger]
            call_ensures(ModelSwitcher::ensure_model_ready, (s, model, ticket, now), ready) ==> {
                let known = s@.models.dom().contains(model@);
                let queue = s@.of(model@).pending;
                &&& !known ==> (ready matches Err(error) && error is ModelNotFound)
                &&& known && s@.state == StateView::Active(model@) ==> ready == Ok::<
                    Readiness,
                    SwitchError,
                >(Readiness::Ready)
                &&& known && s@.state != StateView::Active(model@) ==> {
                    let after = final(s)@.of(model@).pending;
                    &&& ready == Ok::<Readiness, SwitchError>(Readiness::Queued)
                    &&& after.len() == queue.len() + 1
                    &&& after.last().ticket == ticket
                    &&& after.last().queued_at == now
                    &&& after.drop_last() == queue
                }
                &&& ready != Ok::<Readiness, SwitchError>(Readiness::Queued) ==> final(s)@ == s@
                &&& final(s)@.state == s@.state
                &&& other != model@ ==> final(s)@.of(other) == s@.of(other)
                &&& final(s)@.of(model@).in_flight == s@.of(model@).in_flight
            },
{
    assert forall|s: &mut ModelSwitcher| #[trigger]
        call_ensures(ModelSwitcher::ensure_model_ready, (s, model, ticket, now), ready) implies ({
        let known = s@.models.dom().contains(model@);
        let queue = s@.of(model@).pending;
        &&& !known ==> (ready matches Err(error) && error is ModelNotFound)
        &&& known && s@.state == StateView::Active(model@) ==> ready == Ok::<Readiness, SwitchError>(
            Readiness::Ready,
        )
        &&& known && s@.state != StateView::Active(model@) ==> {
            let after = final(s)@.of(model@).pending;
            &&& ready == Ok::<Readiness, SwitchError>(Readiness::Queued)
            &&& after.len() == queue.len() + 1
            &&& after.last().ticket == ticket
            &&& after.last().queued_at == now
            &&& after.drop_last() == queue
        }
        &&& ready != Ok::<Readiness, SwitchError>(Readiness::Queued) ==> final(s)@ == s@
        &&& final(s)@.state == s@.state
        &&& other != model@ ==> final(s)@.of(other) == s@.of(other)
        &&& final(s)@.of(model@).in_flight == s@.of(model@).in_flight
    }) by {
        if s@.models.dom().contains(model@) {
            switcher::law_a_request_joins_the_queue(s@, model@, other, ticket, now);
            if s@.state != StateView::Active(model@) {
                assert(final(s)@.of(model@).pending.drop_last() =~= s@.of(model@).pending);
            }
        }
    }
}

/// A request of a model that is under way is counted for that model, exactly where the switcher knows it,
/// until it is given up; whether it was the last is told.
pub proof fn law_requests_under_way(
    model: &str,
    guard: Option<InFlightGuard>,
    held: InFlightGuard,
    last: bool,
    other: Seq<char>,
)
    ensures
        forall|s: &mut ModelSwitcher|
            (#[trigger] call_ensures(ModelSwitcher::acquire_in_flight, (s, model), guard)) && s@.of(
                model@,
            ).in_flight < usize::MAX ==> {
                &&& guard is Some <==> s@.models.dom().contains(model@)
                &&& guard is Some ==> final(s)@.of(model@).in_flight == s@.of(model@).in_flight + 1
                &&& guard matches Some(g) ==> g.model_name() == model@
                &&& guard is None ==> final(s)@ == s@
                &&& other != model@ ==> final(s)@.of(other) == s@.of(other)
                &&& final(s)@.state == s@.state
                &&& final(s)@.of(model@).pending == s@.of(model@).pending
            },
        forall|s: &mut ModelSwitcher|
            (#[trigger] call_ensures(ModelSwitcher::release_in_flight, (s, held), last))
                && s@.models.dom().contains(held.model_name()) && s@.of(held.model_name()).in_flight > 0
                ==> {
                &&& final(s)@.of(held.model_name()).in_flight == s@.of(held.model_name()).in_flight - 1
                &&& last <==> final(s)@.of(held.model_name()).in_flight == 0
                &&& other != held.model_name() ==> final(s)@.of(other) == s@.of(other)
                &&& final(s)@.state == s@.state
            },
{
}

/// A switch that has ended leaves its model awake exactly if it was a success, and no model awake
/// otherwise; all requests that waited for the model are told, in order, and none waits any more.
pub proof fn law_finish_switch(run: SwitchRun, notice: Option<Notice>, i: int)
    ensures
        forall|s: &mut ModelSwitcher| #[trigger]
            call_ensures(ModelSwitcher::finish_switch, (s, run), notice) ==> {
                &&& notice is Some <==> run.now_in() is Finished
                &&& notice is None ==> final(s)@ == s@
                &&& notice matches Some(n) ==> {
                    &&& run.now_in() == PhaseView::Finished(OutcomeView::Woken) <==> final(s)@.state
                        == StateView::Active(run.wakes())
                    &&& run.now_in() != PhaseView::Finished(OutcomeView::Woken) ==> final(s)@.state
                        == StateView::Idle
                    &&& n.tickets@.len() == s@.of(run.wakes()).pending.len()
                    &&& 0 <= i < n.tickets@.len() ==> n.tickets@[i] == s@.of(
                        run.wakes(),
                    ).pending[i].ticket
                    &&& final(s)@.of(run.wakes()).pending.len() == 0
                    &&& final(s)@.of(run.wakes()).in_flight == s@.of(run.wakes()).in_flight
                }
            },
{
}

/// A switch to a model is begun exactly when it is neither awake nor being woken already; it leaves the
/// model that is awake. If the model is awake, its requests are told so.
pub proof fn law_begin_switch(target: &str, drain: bool, level: SleepLevel, start: SwitchStart)
    ensures
        forall|s: &mut ModelSwitcher| #[trigger]
            call_ensures(ModelSwitcher::begin_switch, (s, target, drain, level), start) ==> {
                &&& start is AlreadyActive <==> s@.state == StateView::Active(target@)
                &&& start is AlreadySwitching <==> (s@.state matches StateView::Switching(_, to) && to
                    == target@)
                &&& start matches SwitchStart::Started(run) ==> {
                    &&& run.wakes() == target@
                    &&& run.depth() == level
                    &&& run.leaves() == s@.state.awake()
                    &&& run.leaves() is None ==> run.now_in() == PhaseView::Waking
                    &&& final(s)@.state == StateView::Switching(s@.state.awake(), target@)
                    &&& final(s)@.models == s@.models
                }
                &&& start is AlreadyActive ==> final(s)@.of(target@).pending.len() == 0
            },
{
}

/// A waking asks for one step after another and ends with what its steps lead to.
pub proof fn law_result_of_a_waking(run: WakeRun, result: Option<Result<(), SwitchError>>)
    requires
        call_ensures(WakeRun::result, (run,), result),
    ensures
        result is None <==> run.now_in() is Next,
        (result matches Some(told) && told is Ok) <==> run.now_in() is Done,
        run.now_in() matches WakeView::Failed(reason) ==> (result matches Some(Err(
            SwitchError::WakeFailed { model, reason: told },
        )) && model@ == run.wakes() && told@ == reason),
{
}

/// A model is put to sleep unless its server did not take the request; then the model is named.
pub proof fn law_sleep_result(model: &str, reply: Result<u16, String>, result: Result<(), SwitchError>)
    requires
        call_ensures(vllm::sleep_result, (model, reply), result),
    ensures
        result is Ok <==> (reply matches Ok(status) && status < 400),
        result matches Err(error) ==> (error matches SwitchError::SleepFailed { model: named, reason: _ }
            && named@ == model@),
{
    vllm::law_when_sleep_fails(0, Seq::empty());
}

/// A server is ready exactly when it answers its health check with status 200.
pub proof fn law_health(base: &str, url: String, reply: &Result<(u16, String), String>, ready: bool)
    requires
        call_ensures(vllm::health_url, (base,), url),
        call_ensures(vllm::health_ready, (reply,), ready),
    ensures
        url@ == base@ + "/health"@,
        ready <==> (reply matches Ok(answer) && answer.0 == 200),
{
}

/// A request is held up for a switch exactly when it asks for a model that the switcher knows.
pub proof fn law_route(s: &ModelSwitcher, h: &HeaderMap<HeaderValue>, body: &[u8], route: Route)
    requires
        call_ensures(middleware::route, (s, h, body), route),
    ensures
        match middleware::asked_model(*h, body@) {
            Some(model) => (route matches Route::Switch(to) ==> to@ == model) && (route is Switch
                <==> s@.models.dom().contains(model)),
            None => route is PassThrough,
        },
{
}

/// The policy of the proxy is that of its settings.
pub proof fn law_build_policy(config: &PolicyConfig, policy: FifoPolicy)
    requires
        call_ensures(PolicyConfig::build_policy, (config,), policy),
    ensures
        policy.level == config.sleep_level,
        policy.drain == config.drain_before_switch,
        policy.timeout.nanos == config.request_timeout_secs * 1_000_000_000,
{
}

/// A script is run only for a tool name, and then it is the one of that name.
pub proof fn law_script_file(name: &str, file: Option<String>)
    requires
        call_ensures(script_tools::script_file, (name,), file),
    ensures
        file is Some <==> script_tools::is_tool_name(name@),
        file matches Some(f) ==> f@ == name@ + ".sh"@,
{
}

/// Models are listed under their names, in order.
pub proof fn law_list_models(names: &Vec<String>, created: u32, list: ListModelResponse, i: int)
    requires
        call_ensures(ListModelResponse::from_model_names, (names, created), list),
    ensures
        list.data@.len() == names@.len(),
        list.object@ == "list"@,
        0 <= i < names@.len() ==> list.data@[i].id@ == names@[i]@ && list.data@[i].created == created
            && list.data@[i].object@ == "model"@,
{
}

/// One choice after another: none beyond those allowed, each of a provider that can be chosen and was not
/// tried, and none of these again unless repeats are allowed.
pub proof fn law_next<'a>(
    now: u64,
    selected: Option<(usize, &'a Target, ConcurrencyGuard)>,
)
    ensures
        forall|iter: &mut SelectIter<'a>, table: &mut ConnectionTable|
            (#[trigger] call_ensures(SelectIter::<'a>::next, (iter, table, now), selected))
                && iter.source().counted_in(*table) ==> {
                &&& final(iter).source() == iter.source()
                &&& final(iter).limit() == iter.limit()
                &&& iter.count() >= iter.limit() ==> selected is None && final(iter).count()
                    == iter.count()
                &&& iter.count() < iter.limit() ==> final(iter).count() == iter.count() + 1
                &&& selected is None ==> final(table)@ == table@ && final(iter).tried() == iter.tried()
                &&& selected matches Some((i, target, guard)) ==> {
                    &&& i < iter.source().all().len()
                    &&& !iter.tried().contains(i)
                    &&& *target == iter.source().all()[i as int].target
                    &&& !iter.replaces() || iter.source().chosen_by()
                        == LoadBalanceStrategy::Priority ==> final(iter).tried()
                        == iter.tried().insert(i)
                    &&& iter.replaces() && iter.source().chosen_by() != LoadBalanceStrategy::Priority
                        ==> final(iter).tried() == iter.tried()
                }
            },
{
    assert forall|iter: &mut SelectIter<'a>, table: &mut ConnectionTable|
        (#[trigger] call_ensures(SelectIter::<'a>::next, (iter, table, now), selected))
            && iter.source().counted_in(*table) implies ({
        &&& final(iter).source() == iter.source()
        &&& final(iter).limit() == iter.limit()
        &&& iter.count() >= iter.limit() ==> selected is None && final(iter).count() == iter.count()
        &&& iter.count() < iter.limit() ==> final(iter).count() == iter.count() + 1
        &&& selected is None ==> final(table)@ == table@ && final(iter).tried() == iter.tried()
        &&& selected matches Some((i, target, guard)) ==> {
            &&& i < iter.source().all().len()
            &&& !iter.tried().contains(i)
            &&& *target == iter.source().all()[i as int].target
            &&& !iter.replaces() || iter.source().chosen_by() == LoadBalanceStrategy::Priority
                ==> final(iter).tried() == iter.tried().insert(i)
            &&& iter.replaces() && iter.source().chosen_by() != LoadBalanceStrategy::Priority
                ==> final(iter).tried() == iter.tried()
        }
    }) by {
        if let Some((i, _, _)) = selected {
            crate::load_balancer::law_preferred_is_available(
                iter.source(),
                *table,
                iter.tried(),
                now,
                i as int,
            );
        }
    }
}

/// An attempt whose body could not be made is not sent, and its error is what the client is told; one
/// that is sent carries the body that was made.
pub proof fn law_dispatch<'a>(path: &str, body: Result<Vec<u8>, OnwardsErrorResponse>, action: Action)
    ensures
        forall|x: &mut Exchange<'a>, h: &mut HeaderMap<HeaderValue>| #[trigger]
            call_ensures(Exchange::<'a>::dispatch, (x, path, body, h), action) ==> {
                &&& body matches Err(error) ==> (action matches Action::Refuse(told) && told@ == error@)
                &&& body matches Ok(made) ==> (action matches Action::Send(prepared) ==> prepared.body@
                    == made@)
                &&& body matches Ok(_) ==> action is Send || (action matches Action::Refuse(told)
                    && told.status == 500)
                &&& action is Send || action is Refuse
            },
{
}

/// A response that is passed on carries the headers that its target adds, and it is told which upstream
/// answered.
pub proof fn law_deliver<'a>(x: Exchange<'a>, delivery: Option<Delivery>, name: Seq<char>)
    ensures
        forall|h: &mut HeaderMap<HeaderValue>| #[trigger]
            call_ensures(Exchange::<'a>::deliver, (x, h), delivery) ==> {
                &&& delivery is Some <==> (x.attempt() matches Some((_, stage)) && stage == Stage::Ready)
                &&& delivery is None ==> *final(h) == *h
                &&& delivery matches Some(d) ==> {
                    let target = (x.attempt()->0).0;
                    &&& d.served_by.url@ == target.url.text()
                    &&& d.served_by.onwards_model == target.onwards_model
                    &&& d.trusted == match target.trusted {
                        Some(b) => b,
                        None => x.serving().trusts(),
                    }
                    &&& target.response_headers is None ==> headers::entries(*final(h))
                        == headers::entries(*h)
                }
            },
{
}

// ---------------------------------------------------------------------------
// Policies, and the server to try things on
// ---------------------------------------------------------------------------

/// First come, first served: a switch is made as soon as a request waits, whatever else is going on.
pub proof fn law_fifo_switches_at_once(
    policy: &model_switcher::policy::FifoPolicy,
    proxy: &FifoPolicy,
    ctx: &PolicyContext,
    one: PolicyDecision,
    other: PolicyDecision,
)
    requires
        call_ensures(
            <model_switcher::policy::FifoPolicy as SwitchPolicy>::on_pending_request,
            (policy, ctx),
            one,
        ),
        call_ensures(<FifoPolicy as SwitchPolicy>::on_pending_request, (proxy, ctx), other),
    ensures
        one == PolicyDecision::SwitchNow,
        other == PolicyDecision::SwitchNow,
{
}

/// In batches: a switch is made once enough requests wait for the model or the first has waited long
/// enough, and looked at again when that time has come otherwise.
pub proof fn law_batching_waits_for_requests(
    policy: &BatchingPolicy,
    ctx: &PolicyContext,
    decision: PolicyDecision,
)
    requires
        call_ensures(<BatchingPolicy as SwitchPolicy>::on_pending_request, (policy, ctx), decision),
    ensures
        decision == PolicyDecision::SwitchNow <==> ctx.target_queue_depth >= policy.min_batch_size
            || ctx.oldest_waiting.nanos >= policy.max_batch_wait.nanos,
        decision matches PolicyDecision::Defer(span) ==> ctx.oldest_waiting.nanos + span.nanos
            == policy.max_batch_wait.nanos,
{
}

/// A request that waited is told what it was told, that the switcher is gone, or that it took too long.
pub proof fn law_wait_result(waited: Waited, result: Result<(), SwitchError>)
    requires
        call_ensures(switcher::wait_result, (waited,), result),
    ensures
        waited matches Waited::Told(told) ==> result == told,
        waited is Closed ==> (result matches Err(error) && error is Internal),
        waited is TimedOut ==> (result matches Err(error) && error is Timeout),
{
}

/// A request that waited is let through exactly if its model was woken.
pub proof fn law_result_for(notice: &Notice, model: &str, result: Result<(), SwitchError>)
    requires
        call_ensures(Notice::result_for, (notice, model), result),
    ensures
        result is Ok <==> notice.outcome@ == OutcomeView::Woken,
{
    switcher::law_what_waiting_requests_are_told(model@, Seq::empty());
}

/// A model that is waited for is drained exactly when none of its requests is under way.
pub proof fn law_is_drained(s: &ModelSwitcher, model: &str, drained: bool, waiting: usize, running: usize)
    requires
        call_ensures(ModelSwitcher::is_drained, (s, model), drained),
        call_ensures(ModelSwitcher::pending_count, (s, model), waiting),
        call_ensures(ModelSwitcher::in_flight_count, (s, model), running),
    ensures
        drained <==> running == 0,
        running == s@.of(model@).in_flight,
        waiting == s@.of(model@).pending.len(),
{
}

/// A server that sleeps refuses requests until it is woken; how deeply it sleeps is what it was told, or
/// the first level.
pub proof fn law_sleeping_server(level: Option<u8>, refusal: Option<(u16, String)>, server: &MockState)
    ensures
        forall|s: &mut MockState| #[trigger]
            call_ensures(MockState::sleep, (s, level), ()) ==> final(s).sleeping && (level matches Some(l)
                ==> final(s).sleep_level == l) && (level is None ==> final(s).sleep_level == 1)
                && final(s).model == s.model && final(s).request_count == s.request_count,
        forall|s: &mut MockState| #[trigger]
            call_ensures(MockState::wake_up, (s,), ()) ==> !final(s).sleeping && final(s).model == s.model
                && final(s).request_count == s.request_count,
        call_ensures(MockState::refusal, (server,), refusal) ==> (refusal is Some <==> server.sleeping)
            && (refusal matches Some(told) ==> told.0 == 503),
{
}

/// An answer counts the request, and says what the model is, how many requests there were, and what was
/// said last.
pub proof fn law_chat_completions(last: Option<&str>, created: u64, answer: Json)
    ensures
        forall|s: &mut MockState|
            (#[trigger] call_ensures(MockState::chat_completions, (s, last, created), answer))
                && s.request_count < u64::MAX ==> {
                &&& final(s).request_count == s.request_count + 1
                &&& final(s).sleeping == s.sleeping
                &&& answer@.member("model"@) == Some(JsonTree::Text(s.model@))
            },
{
    assert forall|s: &mut MockState|
        (#[trigger] call_ensures(MockState::chat_completions, (s, last, created), answer))
            && s.request_count < u64::MAX implies ({
        &&& final(s).request_count == s.request_count + 1
        &&& final(s).sleeping == s.sleeping
        &&& answer@.member("model"@) == Some(JsonTree::Text(s.model@))
    }) by {
        let said = match last {
            Some(said) => said@,
            None => ""@,
        };
        mock_vllm::law_shape_of_an_answer(s.model@, (s.request_count + 1) as nat, said, created);
    }
}

/// A model is woken at its own server, from as deep as it sleeps, beginning with the call that wakes it; a
/// model without a server cannot be.
pub proof fn law_begin_wake<C: VllmHttpClient>(
    callbacks: &VllmCallbacks<C>,
    model: &str,
    run: Result<WakeRun, SwitchError>,
)
    requires
        call_ensures(VllmCallbacks::<C>::begin_wake, (callbacks, model), run),
    ensures
        run is Ok <==> callbacks.known().dom().contains(model@),
        run matches Ok(r) ==> {
            &&& r.wakes() == model@
            &&& r.base() == callbacks.known()[model@].base_url@
            &&& r.depth() == callbacks.sleeps_at(model@)
            &&& r.now_in() == WakeView::Next(vllm::WakeStep::WakeUp)
        },
        run matches Err(error) ==> error is ModelNotFound,
{
}

/// How deeply a server sleeps is taken note of, the deeper of two levels; a server that was woken sleeps
/// no more; other servers are not touched.
pub proof fn law_notes_on_sleep<C: VllmHttpClient>(model: &str, level: SleepLevel, other: Seq<char>)
    ensures
        forall|c: &mut VllmCallbacks<C>| #[trigger]
            call_ensures(VllmCallbacks::<C>::mark_asleep, (c, model, level), ()) ==> {
                &&& final(c).noted_level(model@) == SleepLevel::L2 <==> level == SleepLevel::L2
                    || c.noted_level(model@) == SleepLevel::L2
                &&& other != model@ ==> final(c).noted_level(other) == c.noted_level(other)
                &&& final(c).known() == c.known()
            },
        forall|c: &mut VllmCallbacks<C>| #[trigger]
            call_ensures(VllmCallbacks::<C>::mark_awake, (c, model), ()) ==> {
                &&& final(c).noted_level(model@) == SleepLevel::L1
                &&& other != model@ ==> final(c).noted_level(other) == c.noted_level(other)
                &&& final(c).known() == c.known()
            },
{
}

/// A request that asks for no model is a bad request; one that finds its pool is handed on with its model
/// and its token.
pub proof fn law_locate<'a>(
    targets: &'a Targets,
    h: &HeaderMap<HeaderValue>,
    model: Option<String>,
    found: Result<Located<'a>, OnwardsErrorResponse>,
)
    requires
        call_ensures(Targets::locate, (targets, h, model), found),
    ensures
        model is None ==> (found matches Err(error) && error.status == 400),
        model matches Some(m) ==> (!targets.targets@.dom().contains(m@) ==> (found matches Err(error)
            && error.status == 404)),
        found matches Ok(f) ==> (model matches Some(m) && f.model@ == m@ && text::optional(f.token)
            == admission::bearer(*h)),
{
}

/// A request is kept out by an error in its reasoning settings before anything else, and by a pool without
/// providers before any limit; then no place is taken. One that is let in keeps its model, token and pool.
pub proof fn law_enter<'a>(
    targets: &Targets,
    found: Located<'a>,
    reasoning: Result<bool, OnwardsErrorResponse>,
    admitted: Result<Admitted<'a>, OnwardsErrorResponse>,
)
    ensures
        forall|table: &mut ConnectionTable| #[trigger]
            call_ensures(Targets::enter, (targets, found, reasoning, table), admitted) ==> {
                &&& reasoning matches Err(error) ==> (admitted matches Err(told) && told@ == error@)
                    && final(table)@ == table@
                &&& reasoning is Ok && found.pool.all().len() == 0 ==> (admitted matches Err(told)
                    && told.status == 503) && final(table)@ == table@
                &&& admitted matches Ok(a) ==> a.model == found.model && a.token == found.token && a.pool
                    == found.pool && a.pool.all().len() > 0 && reasoning == Ok::<
                    bool,
                    OnwardsErrorResponse,
                >(a.reasoning)
                &&& admitted is Err ==> final(table)@ == table@
            },
{
    assert forall|table: &mut ConnectionTable| #[trigger]
        call_ensures(Targets::enter, (targets, found, reasoning, table), admitted) implies ({
        &&& reasoning matches Err(error) ==> (admitted matches Err(told) && told@ == error@) && final(table)@
            == table@
        &&& reasoning is Ok && found.pool.all().len() == 0 ==> (admitted matches Err(told) && told.status
            == 503) && final(table)@ == table@
        &&& admitted matches Ok(a) ==> a.model == found.model && a.token == found.token && a.pool
            == found.pool && a.pool.all().len() > 0 && reasoning == Ok::<bool, OnwardsErrorResponse>(
            a.reasoning,
        )
        &&& admitted is Err ==> final(table)@ == table@
    }) by {
        if admission::entry_error(**found.pool, reasoning) is None {
            if let Err(e) = admitted {
                admission::law_kept_out_by_a_limit(
                    *targets,
                    **found.pool,
                    text::optional(found.token),
                    table@,
                    final(table)@,
                    e@,
                );
            }
        }
    }
}

/// A request that is let in is served by a pool with providers under the model that it asked for, and a
/// request that is not takes no place.
pub proof fn law_let_in<'a>(
    targets: &'a Targets,
    h: &HeaderMap<HeaderValue>,
    body: &[u8],
    admitted: Result<Admitted<'a>, OnwardsErrorResponse>,
)
    ensures
        forall|table: &mut ConnectionTable| #[trigger]
            call_ensures(Targets::let_in, (targets, h, body, table), admitted) ==> {
                &&& admitted matches Ok(a) ==> admission::requested_model(*h, body@) == Some(a.model@)
                    && a.pool.all().len() > 0 && !a.reasoning && text::optional(a.token)
                    == admission::bearer(*h)
                &&& admission::requested_model(*h, body@) is None ==> (admitted matches Err(error)
                    && error.status == 400)
                &&& admitted is Err ==> final(table)@ == table@
            },
{
    assert forall|table: &mut ConnectionTable| #[trigger]
        call_ensures(Targets::let_in, (targets, h, body, table), admitted) implies ({
        &&& admitted matches Ok(a) ==> admission::requested_model(*h, body@) == Some(a.model@)
            && a.pool.all().len() > 0 && !a.reasoning && text::optional(a.token) == admission::bearer(*h)
        &&& admission::requested_model(*h, body@) is None ==> (admitted matches Err(error)
            && error.status == 400)
        &&& admitted is Err ==> final(table)@ == table@
    }) by {
        if let Err(e) = admitted {
            if let Ok((_, pool)) = targets.destination(*h, body@) {
                admission::law_kept_out_by_a_limit(
                    *targets,
                    pool,
                    admission::bearer(*h),
                    table@,
                    final(table)@,
                    e@,
                );
            }
        }
    }
}

/// An attempt that is opened hands out the body that is made for its target, with a document to translate
/// only where the request has reasoning settings and the target translates them; one that is not sends
/// nothing.
pub proof fn law_open<'a>(
    body: &Vec<u8>,
    reasoning: bool,
    translates: bool,
    delay_ms: Option<u64>,
    opened: Result<Rewritten, Action>,
)
    ensures
        forall|x: &mut Exchange<'a>| #[trigger]
            call_ensures(Exchange::<'a>::open, (x, body, reasoning, translates, delay_ms), opened) ==> {
                let target = (x.attempt()->0).0;
                &&& opened matches Ok(made) ==> {
                    &&& forwarding::attempt_body(body@, target) matches Ok(bytes)
                    &&& made.body@ == bytes
                    &&& !reasoning || !translates ==> made.document is None
                    &&& final(x).attempt() == Some((target, Stage::Opened))
                }
                &&& opened matches Err(action) ==> !(action is Send) && final(x).attempt() is None
                &&& final(x).serving() == x.serving()
            },
{
}

/// What happens to an attempt that is under way decides what is done next.
pub proof fn law_advance<'a>(event: AttemptEvent, delay_ms: Option<u64>, action: Action)
    ensures
        forall|x: &mut Exchange<'a>|
            (#[trigger] call_ensures(Exchange::<'a>::advance, (x, event, delay_ms), action))
                && x.attempt() is Some && (x.attempt()->0).1.expects(event) ==> {
                &&& event == AttemptEvent::Transformed || event == AttemptEvent::Scanned(Scan2xx::Clean)
                    ==> action is Deliver
                &&& event == AttemptEvent::BodyFailed ==> (action matches Action::Refuse(error)
                    && error.status == 500)
                &&& action is Deliver ==> final(x).attempt() == Some(
                    ((x.attempt()->0).0, Stage::Ready),
                )
                &&& action is Choose || action is Wait || action is Refuse ==> final(x).attempt() is None
                &&& final(x).serving() == x.serving()
            },
{
    assert forall|x: &mut Exchange<'a>|
        (#[trigger] call_ensures(Exchange::<'a>::advance, (x, event, delay_ms), action)) && x.attempt()
            is Some && (x.attempt()->0).1.expects(event) implies ({
        &&& event == AttemptEvent::Transformed || event == AttemptEvent::Scanned(Scan2xx::Clean)
            ==> action is Deliver
        &&& event == AttemptEvent::BodyFailed ==> (action matches Action::Refuse(error) && error.status
            == 500)
        &&& action is Deliver ==> final(x).attempt() == Some(((x.attempt()->0).0, Stage::Ready))
        &&& action is Choose || action is Wait || action is Refuse ==> final(x).attempt() is None
        &&& final(x).serving() == x.serving()
    }) by {
        let (target, stage) = x.attempt()->0;
        exchange::law_attempt_ends(x.serving(), target, x.treats(), stage, event);
    }
}

/// A provider is picked for each attempt, at most as many as are allowed; a pick counts as an attempt and
/// as one more active connection.
pub proof fn law_pick<'a>(
    now: u64,
    chosen: Result<(&'a Target, ConcurrencyGuard), OnwardsErrorResponse>,
)
    ensures
        forall|x: &mut Exchange<'a>, table: &mut ConnectionTable| #[trigger]
            call_ensures(Exchange::<'a>::pick, (x, table, now), chosen) ==> {
                &&& final(x).serving() == x.serving()
                &&& chosen matches Ok((target, guard)) ==> {
                    &&& x.relay().selection().count() < x.relay().selection().limit()
                    &&& final(x).relay().selection().count() == x.relay().selection().count() + 1
                    &&& final(x).relay()@.any_attempted
                    &&& final(x).attempt() == Some((*target, Stage::Chosen))
                }
                &&& chosen is Err ==> final(x).attempt() is None && final(table)@ == table@
                &&& chosen matches Err(error) ==> (x.relay()@.any_attempted ==> (
                x.relay()@.last_error matches Some(last) ==> error@ == last))
            },
{
}

/// A model without a server can be neither woken nor put to sleep, and is not ready. What is noted of a
/// model changes only with success: woken, it sleeps no more; put to sleep, it sleeps as deeply as it was
/// told or deeper.
pub proof fn law_servers_obey<C: VllmHttpClient>(
    model: &str,
    level: SleepLevel,
    result: Result<(), SwitchError>,
    ready: bool,
    callbacks: &VllmCallbacks<C>,
)
    ensures
        forall|c: &mut VllmCallbacks<C>| #[trigger]
            call_ensures(
                <VllmCallbacks<C> as ModelSwitcherCallbacks>::wake_model,
                (c, model),
                result,
            ) ==> {
                &&& !c.known().dom().contains(model@) ==> (result matches Err(error) && error
                    is ModelNotFound)
                &&& c.known().dom().contains(model@) ==> (result matches Err(error) ==> error
                    is WakeFailed)
                &&& result is Ok ==> final(c).noted_level(model@) == SleepLevel::L1
                &&& result is Err ==> final(c).noted() == c.noted()
                &&& final(c).known() == c.known()
            },
        forall|c: &mut VllmCallbacks<C>| #[trigger]
            call_ensures(
                <VllmCallbacks<C> as ModelSwitcherCallbacks>::sleep_model,
                (c, model, level),
                result,
            ) ==> {
                &&& !c.known().dom().contains(model@) ==> (result matches Err(error) && error
                    is ModelNotFound)
                &&& c.known().dom().contains(model@) ==> (result matches Err(error) ==> error
                    is SleepFailed)
                &&& result is Ok && level == SleepLevel::L2 ==> final(c).noted_level(model@)
                    == SleepLevel::L2
                &&& result is Err ==> final(c).noted() == c.noted()
                &&& final(c).known() == c.known()
            },
        call_ensures(
            <VllmCallbacks<C> as ModelSwitcherCallbacks>::is_ready,
            (callbacks, model),
            ready,
        ) ==> (ready ==> callbacks.known().dom().contains(model@)),
{
}

/// A failed attempt is taken note of, and nothing is forgotten of how long was waited.
pub proof fn law_retry<'a>(error: OnwardsErrorResponse, delay_ms: Option<u64>, pause: Pause)
    ensures
        forall|r: &mut Relay<'a>| #[trigger]
            call_ensures(Relay::<'a>::retry, (r, error, delay_ms), pause) ==> {
                &&& final(r)@.last_error == Some(error@)
                &&& final(r)@.any_attempted == r@.any_attempted
                &&& final(r).selection() == r.selection()
                &&& delay_ms is None ==> pause == Pause::NoWait
                &&& pause matches Pause::Wait(d) ==> delay_ms == Some(d) && (r@.waited_ms + d
                    <= u64::MAX ==> final(r)@.waited_ms == r@.waited_ms + d)
                &&& !(pause is Wait) ==> final(r)@.waited_ms == r@.waited_ms
            },
{
}

} // verus!
