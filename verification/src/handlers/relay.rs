//! The attempts that are made for one request, and what is made of their outcomes.
use axum::http::{HeaderMap, HeaderValue};
use vstd::prelude::*;
use vstd::utf8::encode_utf8;
use crate::errors::{ErrorView, OnwardsErrorResponse};
use crate::handlers::embedded::Scan2xx;
use crate::handlers::forwarding;
use crate::handlers::reasoning;
use crate::headers;
use crate::json;
use crate::json::{Json, JsonTree};
use crate::load_balancer::{ProviderPool, SelectIter};
use crate::target;
use crate::target::{ConcurrencyGuard, ConnectionTable, RateLimitExceeded, Target};
use crate::text;

verus! {

// ---------------------------------------------------------------------------
// Requests to upstreams
// ---------------------------------------------------------------------------

/// What an upstream is sent, but for its headers.
pub struct Prepared {
    pub url: String,
    pub body: Vec<u8>,
    /// Whether the trace is still to be put into the headers.
    pub propagate_trace: bool,
}

/// What an upstream is sent for a request once its body is made: the URL, the `host` header and the
/// body; or what the client is told.
pub open spec fn addressed(target: Target, path: Seq<char>, bytes: Seq<u8>) -> Result<
    (Seq<char>, Option<Seq<char>>, Seq<u8>),
    ErrorView,
> {
    match forwarding::destination(target, path) {
        Some((url, host)) => Ok((url, host, bytes)),
        None => Err(ErrorView::internal()),
    }
}

/// What an upstream is sent for a request: the URL, the `host` header and the body; or what the
/// client is told.
pub open spec fn prepared(target: Target, path: Seq<char>, body: Seq<u8>) -> Result<
    (Seq<char>, Option<Seq<char>>, Seq<u8>),
    ErrorView,
> {
    match forwarding::attempt_body(body, target) {
        Ok(bytes) => addressed(target, path, bytes),
        Err(error) => Err(error),
    }
}

/// Turns a request of a client, given by its path, headers and the body that was made for the
/// upstream, into one to an upstream.
pub fn address_attempt(
    target: &Target,
    pool_trusted: bool,
    path: &str,
    bytes: Vec<u8>,
    h: &mut HeaderMap<HeaderValue>,
) -> (result: Result<Prepared, OnwardsErrorResponse>)
    requires
        headers::has_room(*old(h), 3),
        forwarding::auth_is_sendable(*target),
    ensures
        match (result, addressed(*target, path@, bytes@)) {
            (Ok(p), Ok((url, host, body))) => {
                &&& p.url@ == url
                &&& p.body@ == body
                &&& p.propagate_trace == forwarding::propagates_trace(*target, pool_trusted)
                &&& headers::entries(*final(h)) == forwarding::attempt_headers(
                    headers::entries(*old(h)),
                    *target,
                    host,
                    body.len(),
                    pool_trusted,
                )
            },
            (Err(e), Err(error)) => e@ == error && headers::entries(*final(h)) == headers::entries(
                *old(h),
            ),
            _ => false,
        },
{
    let found = match forwarding::find_destination(target, path) {
        Some(found) => found,
        None => {
            return Err(OnwardsErrorResponse::internal());
        },
    };
    let host = match &found.host {
        Some(host) => Some(host.as_str()),
        None => None,
    };
    let propagate_trace = forwarding::prepare_headers(
        h,
        target,
        host,
        bytes.len() as u64,
        pool_trusted,
    );
    Ok(Prepared { url: found.url, body: bytes, propagate_trace })
}

/// The body of a client as its target gets it, and the document that the translation of the target
/// is still to be applied to, where there is one; or what the client is told.
pub open spec fn rewritten(
    target: Target,
    body: Seq<u8>,
    reasoning: bool,
    translates: bool,
) -> Result<(Seq<u8>, Option<JsonTree>), ErrorView> {
    match forwarding::attempt_body(body, target) {
        Ok(bytes) => match reasoning::document_to_translate(reasoning, translates, bytes) {
            Ok(document) => Ok((bytes, document)),
            Err(error) => Err(error),
        },
        Err(error) => Err(error),
    }
}

/// Makes the body of a client into that for a target, and reads the document that the translation
/// of the target is still to be applied to: where the request has reasoning settings, the target
/// has a translation, and there is a body.
pub fn rewrite_body(target: &Target, body: &Vec<u8>, reasoning: bool, translates: bool) -> (result:
    Result<Rewritten, OnwardsErrorResponse>)
    ensures
        match (result, rewritten(*target, body@, reasoning, translates)) {
            (Ok(r), Ok((bytes, document))) => {
                &&& r.body@ == bytes
                &&& json::optional_tree(r.document) == document
            },
            (Err(e), Err(error)) => e@ == error,
            _ => false,
        },
{
    let bytes = match forwarding::prepare_body(body, target) {
        Ok(bytes) => bytes,
        Err(error) => {
            return Err(error);
        },
    };
    match reasoning::read_for_translation(reasoning, translates, bytes.as_slice()) {
        Ok(document) => Ok(Rewritten { body: bytes, document }),
        Err(error) => Err(error),
    }
}

/// A body for a target.
pub struct Rewritten {
    pub body: Vec<u8>,
    /// What the translation of the target is still to be applied to, in place of the body.
    pub document: Option<Json>,
}

// ---------------------------------------------------------------------------
// Outcomes
// ---------------------------------------------------------------------------

/// What follows from a step of an attempt.
#[derive(Debug)]
pub enum Verdict {
    /// The attempt goes on.
    Proceed,
    /// The attempt has failed; another provider is tried. The error is what the client is told if
    /// there is none left.
    TryNext(OnwardsErrorResponse),
    /// The client is told an error.
    Answer(OnwardsErrorResponse),
}

/// What follows from a step of an attempt.
pub enum VerdictView {
    Proceed,
    TryNext(ErrorView),
    Answer(ErrorView),
}

impl View for Verdict {
    type V = VerdictView;

    open spec fn view(&self) -> VerdictView {
        match self {
            Verdict::Proceed => VerdictView::Proceed,
            Verdict::TryNext(error) => VerdictView::TryNext(error@),
            Verdict::Answer(error) => VerdictView::Answer(error@),
        }
    }
}

/// A failure after which another provider is tried, or else the client is told.
pub open spec fn failure(retry: bool, error: ErrorView) -> VerdictView {
    if retry {
        VerdictView::TryNext(error)
    } else {
        VerdictView::Answer(error)
    }
}

fn fail(retry: bool, error: OnwardsErrorResponse) -> (verdict: Verdict)
    ensures
        verdict@ == failure(retry, error@),
{
    if retry {
        Verdict::TryNext(error)
    } else {
        Verdict::Answer(error)
    }
}

/// What follows from asking the rate limit of a provider, where it has one.
pub open spec fn rate_limit_verdict(
    pool: ProviderPool,
    check: Option<Result<(), RateLimitExceeded>>,
) -> VerdictView {
    match check {
        Some(Err(_)) => failure(pool.retries_on_rate_limit(), ErrorView::rate_limited()),
        _ => VerdictView::Proceed,
    }
}

/// What follows from asking the rate limit of a provider, where it has one.
pub fn judge_rate_limit(
    pool: &ProviderPool,
    check: Option<Result<(), RateLimitExceeded>>,
) -> (verdict: Verdict)
    ensures
        verdict@ == rate_limit_verdict(*pool, check),
{
    match check {
        Some(Err(_)) => fail(
            pool.should_fallback_on_rate_limit(),
            OnwardsErrorResponse::rate_limited(),
        ),
        _ => Verdict::Proceed,
    }
}

/// Asks the rate limit of a provider, where it has one.
pub fn check_provider(pool: &ProviderPool, target: &Target) -> (verdict: Verdict)
    ensures
        exists|check: Option<Result<(), RateLimitExceeded>>| #[trigger]
            target::asked(target.limiter, check) && verdict@ == rate_limit_verdict(*pool, check),
{
    let check = target::ask(target.limiter.as_ref());
    assert(target::asked(target.limiter, check));
    judge_rate_limit(pool, check)
}

/// What follows from opening an attempt: the refusal of the provider's rate limit, where it
/// refuses, and what follows from making the body otherwise.
pub open spec fn opening_verdict(
    pool: ProviderPool,
    target: Target,
    body: Seq<u8>,
    reasoning: bool,
    translates: bool,
    check: Option<Result<(), RateLimitExceeded>>,
) -> VerdictView {
    match rate_limit_verdict(pool, check) {
        VerdictView::Proceed => match rewritten(target, body, reasoning, translates) {
            Ok(_) => VerdictView::Proceed,
            Err(error) => VerdictView::Answer(error),
        },
        refusal => refusal,
    }
}

/// Opens an attempt: asks the rate limit of the provider, where it has one, and then makes the body
/// for the upstream.
pub fn open_attempt(
    pool: &ProviderPool,
    target: &Target,
    body: &Vec<u8>,
    reasoning: bool,
    translates: bool,
) -> (opened: Result<Rewritten, Verdict>)
    ensures
        match opened {
            Ok(r) => rewritten(*target, body@, reasoning, translates) == Ok::<
                (Seq<u8>, Option<JsonTree>),
                ErrorView,
            >((r.body@, json::optional_tree(r.document))),
            Err(verdict) => !(verdict@ is Proceed),
        },
        exists|check: Option<Result<(), RateLimitExceeded>>|
            {
                let verdict = opening_verdict(*pool, *target, body@, reasoning, translates, check);
                &&& #[trigger] target::asked(target.limiter, check)
                &&& match opened {
                    Ok(_) => verdict is Proceed,
                    Err(v) => v@ == verdict,
                }
            },
{
    match check_provider(pool, target) {
        Verdict::Proceed => {},
        refusal => {
            return Err(refusal);
        },
    }
    match rewrite_body(target, body, reasoning, translates) {
        Ok(rewritten) => Ok(rewritten),
        Err(error) => Err(Verdict::Answer(error)),
    }
}

/// What follows from beginning an attempt whose body needs no translation: the refusal of the
/// provider's rate limit, where it refuses, and what follows from the preparation otherwise.
pub open spec fn begin_verdict(
    pool: ProviderPool,
    target: Target,
    path: Seq<char>,
    body: Seq<u8>,
    check: Option<Result<(), RateLimitExceeded>>,
) -> VerdictView {
    match rate_limit_verdict(pool, check) {
        VerdictView::Proceed => match prepared(target, path, body) {
            Ok(_) => VerdictView::Proceed,
            Err(error) => VerdictView::Answer(error),
        },
        refusal => refusal,
    }
}

/// How an upstream took a request.
#[derive(Debug, Clone, Copy, PartialEq, Eq, Structural)]
pub enum UpstreamOutcome {
    /// It did not answer in time.
    Timeout,
    /// It could not be reached.
    NetworkError,
    /// It answered with a status.
    Status(u16),
}

/// Whether a status tells success.
pub open spec fn is_success(status: u16) -> bool {
    200 <= status < 300
}

/// What the client is told in place of an error response of an upstream.
pub open spec fn sanitized_error(status: u16) -> ErrorView {
    if 400 <= status < 500 {
        ErrorView::upstream_rejected(status)
    } else {
        ErrorView::upstream_failed(status)
    }
}

/// What follows from how an upstream took a request.
pub open spec fn outcome_verdict(
    pool: ProviderPool,
    target: Target,
    outcome: UpstreamOutcome,
) -> VerdictView {
    match outcome {
        UpstreamOutcome::Timeout => failure(pool.retries(), ErrorView::gateway_timeout()),
        UpstreamOutcome::NetworkError => failure(pool.retries(), ErrorView::bad_gateway()),
        UpstreamOutcome::Status(status) => if pool.retries_on(status) {
            VerdictView::TryNext(ErrorView::bad_gateway())
        } else if target.sanitize_response && !is_success(status) {
            VerdictView::Answer(sanitized_error(status))
        } else {
            VerdictView::Proceed
        },
    }
}

/// What follows from how an upstream took a request.
pub fn judge_outcome(pool: &ProviderPool, target: &Target, outcome: UpstreamOutcome) -> (verdict:
    Verdict)
    ensures
        verdict@ == outcome_verdict(*pool, *target, outcome),
{
    match outcome {
        UpstreamOutcome::Timeout => fail(
            pool.fallback_enabled(),
            OnwardsErrorResponse::gateway_timeout(),
        ),
        UpstreamOutcome::NetworkError => fail(
            pool.fallback_enabled(),
            OnwardsErrorResponse::bad_gateway(),
        ),
        UpstreamOutcome::Status(status) => {
            if pool.should_fallback_on_status(status) {
                Verdict::TryNext(OnwardsErrorResponse::bad_gateway())
            } else if target.sanitize_response && !(200 <= status && status < 300) {
                if 400 <= status && status < 500 {
                    Verdict::Answer(OnwardsErrorResponse::upstream_rejected(status))
                } else {
                    Verdict::Answer(OnwardsErrorResponse::upstream_failed(status))
                }
            } else {
                Verdict::Proceed
            }
        },
    }
}

/// What the client is told of an error that was hidden in a successful response. A rate limit of
/// the upstream, or a failure of it, is not told as such.
pub open spec fn embedded_error(status: u16) -> ErrorView {
    if status == 429 || status >= 500 {
        ErrorView::service_unavailable()
    } else {
        ErrorView::upstream_rejected(status)
    }
}

/// What follows from a look into the body of a successful response.
pub open spec fn scan_verdict(pool: ProviderPool, scan: Scan2xx) -> VerdictView {
    match scan {
        Scan2xx::Clean => VerdictView::Proceed,
        Scan2xx::Embedded(status) => if pool.retries_on(status) || (status == 429
            && pool.retries_on_rate_limit()) {
            VerdictView::TryNext(ErrorView::service_unavailable())
        } else {
            VerdictView::Answer(embedded_error(status))
        },
        Scan2xx::EmptyBody => failure(pool.retries_on(502), ErrorView::service_unavailable()),
    }
}

/// What follows from a look into the body of a successful response.
pub fn judge_scan(pool: &ProviderPool, scan: Scan2xx) -> (verdict: Verdict)
    ensures
        verdict@ == scan_verdict(*pool, scan),
{
    match scan {
        Scan2xx::Clean => Verdict::Proceed,
        Scan2xx::Embedded(status) => {
            if pool.should_fallback_on_status(status) || (status == 429
                && pool.should_fallback_on_rate_limit()) {
                Verdict::TryNext(OnwardsErrorResponse::service_unavailable())
            } else if status == 429 || status >= 500 {
                Verdict::Answer(OnwardsErrorResponse::service_unavailable())
            } else {
                Verdict::Answer(OnwardsErrorResponse::upstream_rejected(status))
            }
        },
        Scan2xx::EmptyBody => fail(
            pool.should_fallback_on_status(502),
            OnwardsErrorResponse::service_unavailable(),
        ),
    }
}

/// The client never learns of a rate limit of an upstream from an error that was hidden in a
/// successful response.
pub proof fn law_embedded_rate_limit_is_not_told(pool: ProviderPool, status: u16)
    ensures
        match scan_verdict(pool, Scan2xx::Embedded(status)) {
            VerdictView::Proceed => false,
            VerdictView::TryNext(error) => error.status == 503,
            VerdictView::Answer(error) => error.status != 429 && (status >= 500 ==> error.status
                == 503),
        },
{
}

/// Without retries no failure leads to another attempt.
pub proof fn law_no_retries_unless_enabled(
    pool: ProviderPool,
    target: Target,
    outcome: UpstreamOutcome,
    scan: Scan2xx,
    check: Option<Result<(), RateLimitExceeded>>,
)
    requires
        !pool.retries(),
    ensures
        !(outcome_verdict(pool, target, outcome) is TryNext),
        !(scan_verdict(pool, scan) is TryNext),
        !(rate_limit_verdict(pool, check) is TryNext),
{
}

// ---------------------------------------------------------------------------
// Responses
// ---------------------------------------------------------------------------

/// Whether a content type is that of an event stream.
pub open spec fn is_event_stream(content_type: Option<Seq<char>>) -> bool {
    content_type matches Some(c) && text::occurs_in("text/event-stream"@, c)
}

/// Whether a response is an event stream.
pub fn response_is_stream(h: &HeaderMap<HeaderValue>) -> (stream: bool)
    ensures
        stream == is_event_stream(headers::header_text(*h, "content-type"@)),
{
    proof {
        headers::lemma_known_names();
    }
    match headers::get_text(h, "content-type") {
        Some(value) => {
            let chars = text::chars_of(value.as_str());
            let part = text::chars_of("text/event-stream");
            text::contains_text(chars.as_slice(), part.as_slice())
        },
        None => false,
    }
}

/// What is done with the body of a response.
#[derive(Debug, Clone, Copy, PartialEq, Eq, Structural)]
pub struct BodyPlan {
    /// It is looked into for a hidden error.
    pub scan: bool,
    /// It is brought into the standard form.
    pub transform: bool,
    /// It is split into complete events before that.
    pub regroup_events: bool,
}

/// What is done with the body of a response. In strict mode a later stage brings it into the
/// standard form.
pub open spec fn body_plan(
    strict_mode: bool,
    has_transform: bool,
    target: Target,
    status: u16,
    stream: bool,
) -> BodyPlan {
    let transform = !strict_mode && has_transform && target.sanitize_response && is_success(status);
    BodyPlan { scan: strict_mode && is_success(status), transform, regroup_events: transform && stream }
}

/// What is done with the body of a response.
pub fn plan_body(
    strict_mode: bool,
    has_transform: bool,
    target: &Target,
    status: u16,
    stream: bool,
) -> (plan: BodyPlan)
    ensures
        plan == body_plan(strict_mode, has_transform, *target, status, stream),
{
    let success = 200 <= status && status < 300;
    let transform = !strict_mode && has_transform && target.sanitize_response && success;
    BodyPlan { scan: strict_mode && success, transform, regroup_events: transform && stream }
}

/// The headers with those of `extra` in their place that can be sent; of two with the same name
/// the later counts.
pub open spec fn with_extra(
    before: Map<Seq<char>, Seq<Seq<u8>>>,
    extra: Seq<(String, String)>,
) -> Map<Seq<char>, Seq<Seq<u8>>>
    decreases extra.len(),
{
    if extra.len() == 0 {
        before
    } else {
        headers::with_header(
            with_extra(before, extra.drop_last()),
            extra.last().0@,
            extra.last().1@,
        )
    }
}

/// The headers that a target asks to have on its responses.
pub open spec fn extra_headers(target: Target) -> Seq<(String, String)> {
    match target.response_headers {
        Some(extra) => extra@,
        None => Seq::empty(),
    }
}

/// Puts the headers on a response that its target asks for.
pub fn add_response_headers(h: &mut HeaderMap<HeaderValue>, extra: &Vec<(String, String)>)
    requires
        headers::has_room(*old(h), extra@.len() as int),
    ensures
        headers::entries(*final(h)) == with_extra(headers::entries(*old(h)), extra@),
{
    let mut i: usize = 0;
    assert(extra@.take(0).len() == 0);
    while i < extra.len()
        invariant
            i <= extra.len(),
            headers::entries(*h) == with_extra(headers::entries(*old(h)), extra@.take(i as int)),
            headers::has_room(*h, extra@.len() - i),
        decreases extra.len() - i,
    {
        proof {
            assert(extra@.take(i + 1).drop_last() == extra@.take(i as int));
            assert(extra@.take(i + 1).last() == extra@[i as int]);
        }
        headers::put_header(h, extra[i].0.as_str(), extra[i].1.as_str());
        i = i + 1;
    }
    assert(extra@.take(extra@.len() as int) == extra@);
}

/// The body that a client is sent once a response was brought into the standard form; the body of
/// the upstream where nothing had to be changed. Its length is put into the headers.
pub fn settle_body(
    h: &mut HeaderMap<HeaderValue>,
    original: Vec<u8>,
    transformed: Result<Option<Vec<u8>>, String>,
) -> (body: Result<Vec<u8>, OnwardsErrorResponse>)
    requires
        headers::has_room(*old(h), 1),
    ensures
        match transformed {
            Ok(changed) => {
                let expected = match changed {
                    Some(bytes) => bytes@,
                    None => original@,
                };
                &&& body matches Ok(bytes)
                &&& bytes@ == expected
                &&& headers::entries(*final(h)) == headers::with_length(
                    headers::entries(*old(h)),
                    expected.len(),
                )
            },
            Err(_) => {
                &&& body matches Err(e)
                &&& e@ == ErrorView::internal()
                &&& *final(h) == *old(h)
            },
        },
{
    match transformed {
        Ok(changed) => {
            let bytes = match changed {
                Some(bytes) => bytes,
                None => original,
            };
            headers::set_body_length(h, bytes.len() as u64);
            Ok(bytes)
        },
        Err(_) => Err(OnwardsErrorResponse::internal()),
    }
}

/// The event that a client is sent once an event was brought into the standard form. One that
/// could not be is passed on as it is.
pub fn settle_event(original: Vec<u8>, transformed: Result<Option<Vec<u8>>, String>) -> (event: Vec<
    u8,
>)
    ensures
        event@ == match transformed {
            Ok(Some(changed)) => changed@,
            _ => original@,
        },
{
    match transformed {
        Ok(Some(changed)) => changed,
        _ => original,
    }
}

/// The upstream that produced a response.
#[derive(Debug)]
pub struct ServedBy {
    pub url: String,
    pub onwards_model: Option<String>,
}

/// The upstream that produced a response.
pub fn served_by(target: &Target) -> (served: ServedBy)
    ensures
        served.url@ == target.url.text(),
        served.onwards_model == target.onwards_model,
{
    ServedBy {
        url: target.url.as_str().to_owned(),
        onwards_model: match &target.onwards_model {
            Some(model) => Some(model.clone()),
            None => None,
        },
    }
}

// ---------------------------------------------------------------------------
// Attempts
// ---------------------------------------------------------------------------

/// What is done before the next attempt.
#[derive(Debug, Clone, Copy, PartialEq, Eq, Structural)]
pub enum Pause {
    /// Nothing.
    NoWait,
    /// Waiting for some milliseconds.
    Wait(u64),
    /// There is no next attempt: the time for waiting is used up.
    GiveUp,
}

/// The attempts for one request.
pub struct Relay<'a> {
    attempts: SelectIter<'a>,
    last_error: Option<OnwardsErrorResponse>,
    any_attempted: bool,
    waited_ms: u64,
}

/// What has happened so far.
pub struct RelayView {
    /// What the client is told if nothing else comes.
    pub last_error: Option<ErrorView>,
    /// Whether any provider has been tried.
    pub any_attempted: bool,
    /// The milliseconds that were spent on waiting.
    pub waited_ms: u64,
}

impl RelayView {
    /// What the client is told when no attempt is left.
    pub open spec fn final_error(self, pool: ProviderPool, model: Seq<char>) -> ErrorView {
        if self.any_attempted {
            match self.last_error {
                Some(error) => error,
                None => ErrorView::model_not_found(model),
            }
        } else if pool.all().len() > 0 {
            ErrorView::concurrency_limited()
        } else {
            ErrorView::model_not_found(model)
        }
    }

    /// What is known once the client was told that no attempt is left: the last error is gone.
    pub open spec fn after_finish(self) -> RelayView {
        if self.any_attempted {
            RelayView { last_error: None, ..self }
        } else {
            self
        }
    }
}

impl<'a> View for Relay<'a> {
    type V = RelayView;

    closed spec fn view(&self) -> RelayView {
        RelayView {
            last_error: match self.last_error {
                Some(e) => Some(e@),
                None => None,
            },
            any_attempted: self.any_attempted,
            waited_ms: self.waited_ms,
        }
    }
}

/// The most milliseconds that may be spent on waiting.
pub open spec fn wait_limit(pool: ProviderPool) -> Option<u64> {
    match pool.retry_rules() {
        Some(f) => f.max_total_backoff_ms,
        None => None,
    }
}

/// The sum, up to the largest number.
pub open spec fn sum_up_to_max(a: u64, b: u64) -> u64 {
    if a + b <= u64::MAX {
        (a + b) as u64
    } else {
        u64::MAX
    }
}

/// What is done before the next attempt: nothing if there is none or if no delay is set, and
/// otherwise waiting, unless that would exceed the limit.
pub open spec fn pause_before_next(
    pool: ProviderPool,
    attempts: nat,
    waited_ms: u64,
    delay_ms: Option<u64>,
) -> Pause {
    match delay_ms {
        Some(d) => if attempts < pool.attempts_allowed() {
            if wait_limit(pool) matches Some(max) && sum_up_to_max(waited_ms, d) > max {
                Pause::GiveUp
            } else {
                Pause::Wait(d)
            }
        } else {
            Pause::NoWait
        },
        None => Pause::NoWait,
    }
}

impl<'a> Relay<'a> {
    /// What chooses the providers.
    pub closed spec fn selection(self) -> SelectIter<'a> {
        self.attempts
    }

    /// Whether no more time was spent on waiting than the pool allows.
    pub open spec fn within_limit(self) -> bool {
        wait_limit(self.selection().source()) matches Some(max) ==> self@.waited_ms <= max
    }

    /// Starts the attempts for one request.
    pub fn new(pool: &'a ProviderPool) -> (relay: Relay<'a>)
        ensures
            relay.selection().source() == *pool,
            relay.selection().tried() == Set::<usize>::empty(),
            relay.selection().count() == 0,
            relay.selection().limit() == pool.attempts_allowed(),
            relay.selection().replaces() == (pool.retry_rules() matches Some(f) && f.with_replacement),
            relay@ == (RelayView { last_error: None, any_attempted: false, waited_ms: 0 }),
            relay.within_limit(),
    {
        Relay { attempts: pool.select_iter(), last_error: None, any_attempted: false, waited_ms: 0 }
    }

    /// The pool that the providers are chosen from.
    pub fn pool(&self) -> (pool: &'a ProviderPool)
        ensures
            *pool == self.selection().source(),
    {
        self.attempts.pool()
    }

    /// Whether the next choice can be made.
    pub fn draw_is_possible(&self, table: &ConnectionTable, now: u64) -> (possible: bool)
        requires
            self.selection().source().counted_in(*table),
        ensures
            possible == self.selection().can_draw(*table, now),
    {
        self.attempts.draw_is_possible(table, now)
    }

    /// Chooses the provider for the next attempt, if there is to be one, and makes a connection to
    /// it active.
    pub fn next(&mut self, table: &mut ConnectionTable, now: u64) -> (selected: Option<
        (usize, &'a Target, ConcurrencyGuard),
    >)
        requires
            old(self).selection().source().counted_in(*old(table)),
            old(self).selection().can_draw(*old(table), now),
        ensures
            final(self).selection().source() == old(self).selection().source(),
            final(self).selection().limit() == old(self).selection().limit(),
            final(self).selection().replaces() == old(self).selection().replaces(),
            old(self).selection().count() >= old(self).selection().limit() ==> selected is None,
            final(self).selection().count() == if old(self).selection().count()
                < old(self).selection().limit() {
                (old(self).selection().count() + 1) as usize
            } else {
                old(self).selection().count()
            },
            final(self)@ == (RelayView {
                any_attempted: old(self)@.any_attempted || selected is Some,
                ..old(self)@
            }),
            old(self).within_limit() ==> final(self).within_limit(),
            match selected {
                Some((i, target, guard)) => {
                    let pool = old(self).selection().source();
                    let tried = old(self).selection().tried();
                    &&& pool.preferred(*old(table), tried, now, i as int)
                    &&& pool.all()[i as int].weight > 0 || forall|j: int|
                        pool.preferred(*old(table), tried, now, j) ==> j == i
                    &&& *target == pool.all()[i as int].target
                    &&& guard.slot() == pool.all()[i as int].limiter.slot()
                    &&& final(table)@ == old(table)@.update(
                        guard.slot(),
                        (old(table)@[guard.slot()] + 1) as usize,
                    )
                    &&& final(self).selection().tried() == if old(self).selection().moves_on() {
                        tried.insert(i)
                    } else {
                        tried
                    }
                },
                None => {
                    &&& old(self).selection().count() < old(self).selection().limit()
                        ==> forall|i: int|
                        !old(self).selection().source().preferred(
                            *old(table),
                            old(self).selection().tried(),
                            now,
                            i,
                        )
                    &&& final(self).selection().tried() == old(self).selection().tried()
                    &&& final(table)@ == old(table)@
                },
            },
    {
        match self.attempts.next(table, now) {
            Some((i, target, guard)) => {
                self.any_attempted = true;
                Some((i, target, guard))
            },
            None => None,
        }
    }

    /// Takes note of a failed attempt, and tells what is done before the next one. `delay_ms` is
    /// how long to wait before it, where the pool waits between attempts at all.
    pub fn retry(&mut self, error: OnwardsErrorResponse, delay_ms: Option<u64>) -> (pause: Pause)
        ensures
            final(self).selection() == old(self).selection(),
            pause == pause_before_next(
                old(self).selection().source(),
                old(self).selection().count() as nat,
                old(self)@.waited_ms,
                delay_ms,
            ),
            final(self)@ == (RelayView {
                last_error: Some(error@),
                any_attempted: old(self)@.any_attempted,
                waited_ms: match pause {
                    Pause::Wait(d) => sum_up_to_max(old(self)@.waited_ms, d),
                    _ => old(self)@.waited_ms,
                },
            }),
            old(self).within_limit() ==> final(self).within_limit(),
    {
        self.last_error = Some(error);
        let pool = self.attempts.pool();
        let delay: u64 = match delay_ms {
            Some(d) => d,
            None => {
                return Pause::NoWait;
            },
        };
        if self.attempts.attempts() >= pool.fallback_max_attempts() {
            return Pause::NoWait;
        }
        let total: u64 = self.waited_ms.saturating_add(delay);
        let limit = match pool.fallback() {
            Some(f) => f.max_total_backoff_ms,
            None => None,
        };
        if let Some(max) = limit {
            if total > max {
                return Pause::GiveUp;
            }
        }
        self.waited_ms = total;
        Pause::Wait(delay)
    }

    /// Ends the attempts, and tells what the client is told: the error of the last attempt, or that
    /// every provider is busy if none could be tried.
    pub fn finish(&mut self, model: &str) -> (error: OnwardsErrorResponse)
        ensures
            final(self).selection() == old(self).selection(),
            final(self)@ == old(self)@.after_finish(),
            error@ == old(self)@.final_error(old(self).selection().source(), model@),
    {
        if self.any_attempted {
            match self.last_error.take() {
                Some(error) => error,
                None => OnwardsErrorResponse::model_not_found(model),
            }
        } else if !self.attempts.pool().is_empty() {
            OnwardsErrorResponse::concurrency_limited()
        } else {
            OnwardsErrorResponse::model_not_found(model)
        }
    }
}

// ---------------------------------------------------------------------------
// Laws
// ---------------------------------------------------------------------------

/// Whether the rules of a pool are enabled.
pub open spec fn rules_enabled(pool: ProviderPool) -> bool {
    pool.retry_rules() matches Some(rules) && rules.enabled
}

/// A provider whose rate limit refuses is passed over for the next one where the rules of the pool are
/// enabled and set for rate limits, and the client is told that it comes too often otherwise. In either
/// case nothing else of the attempt matters; and a provider that does not refuse is not passed over.
pub proof fn law_refusal_of_a_provider(
    pool: ProviderPool,
    target: Target,
    path: Seq<char>,
    body: Seq<u8>,
    reasoning: bool,
    translates: bool,
    refusal: RateLimitExceeded,
)
    ensures
        ({
            let refused = Some(Err::<(), RateLimitExceeded>(refusal));
            let verdict = opening_verdict(pool, target, body, reasoning, translates, refused);
            &&& match pool.retry_rules() {
                Some(rules) => if rules.enabled && rules.on_rate_limit {
                    verdict matches VerdictView::TryNext(error) && error.status == 429
                } else {
                    verdict matches VerdictView::Answer(error) && error.status == 429
                },
                None => verdict matches VerdictView::Answer(error) && error.status == 429,
            }
            &&& rate_limit_verdict(pool, refused) == verdict
            &&& begin_verdict(pool, target, path, body, refused) == verdict
        }),
        rate_limit_verdict(pool, None) is Proceed,
        rate_limit_verdict(pool, Some(Ok(()))) is Proceed,
{
}

/// What a provider that lets an attempt pass leads to is decided by whether its request can be made:
/// if not, the client is told why, and no other provider is tried.
pub proof fn law_request_that_cannot_be_made(
    pool: ProviderPool,
    target: Target,
    path: Seq<char>,
    body: Seq<u8>,
    reasoning: bool,
    translates: bool,
    check: Option<Result<(), RateLimitExceeded>>,
)
    requires
        check matches Some(answer) ==> answer is Ok,
    ensures
        match rewritten(target, body, reasoning, translates) {
            Ok(_) => opening_verdict(pool, target, body, reasoning, translates, check) is Proceed,
            Err(error) => opening_verdict(pool, target, body, reasoning, translates, check)
                == VerdictView::Answer(error),
        },
        match prepared(target, path, body) {
            Ok(_) => begin_verdict(pool, target, path, body, check) is Proceed,
            Err(error) => begin_verdict(pool, target, path, body, check) == VerdictView::Answer(
                error,
            ),
        },
{
}

/// An upstream is sent the body that is made for its target, at its destination; what is wrong with the
/// body is told first, and then that there is no destination.
pub proof fn law_what_an_upstream_is_sent(target: Target, path: Seq<char>, body: Seq<u8>, bytes: Seq<u8>)
    ensures
        match (forwarding::attempt_body(body, target), forwarding::destination(target, path)) {
            (Err(error), _) => prepared(target, path, body) == Err::<
                (Seq<char>, Option<Seq<char>>, Seq<u8>),
                ErrorView,
            >(error),
            (Ok(_), None) => prepared(target, path, body) matches Err(error) && error.status == 500,
            (Ok(made), Some((url, host))) => prepared(target, path, body) == Ok::<
                (Seq<char>, Option<Seq<char>>, Seq<u8>),
                ErrorView,
            >((url, host, made)),
        },
        addressed(target, path, bytes) is Ok <==> forwarding::destination(target, path) is Some,
        addressed(target, path, bytes) matches Ok((url, host, sent)) ==> sent == bytes
            && forwarding::destination(target, path) == Some((url, host)),
        addressed(target, path, bytes) matches Err(error) ==> error.status == 500,
{
}

/// The body is made for its target before anything is read for its translation, and it is the body
/// thus made that is read.
pub proof fn law_body_is_made_before_it_is_translated(
    target: Target,
    body: Seq<u8>,
    reasoning: bool,
    translates: bool,
)
    ensures
        match forwarding::attempt_body(body, target) {
            Err(error) => rewritten(target, body, reasoning, translates) == Err::<
                (Seq<u8>, Option<JsonTree>),
                ErrorView,
            >(error),
            Ok(made) => {
                &&& made.len() == 0 || !reasoning || !translates ==> rewritten(
                    target,
                    body,
                    reasoning,
                    translates,
                ) == Ok::<(Seq<u8>, Option<JsonTree>), ErrorView>((made, None))
                &&& made.len() > 0 && reasoning && translates ==> match json::parsed_json(made) {
                    Some(tree) => rewritten(target, body, reasoning, translates) == Ok::<
                        (Seq<u8>, Option<JsonTree>),
                        ErrorView,
                    >((made, Some(tree))),
                    None => rewritten(target, body, reasoning, translates) matches Err(error)
                        && error.status == 400,
                }
            },
        },
{
}

/// A failure of an upstream leads to the next provider where the rules of the pool are enabled, and is
/// told otherwise: 504 if it took too long, 502 if it could not be reached.
pub proof fn law_upstream_that_does_not_answer(pool: ProviderPool, target: Target)
    ensures
        rules_enabled(pool) ==> {
            &&& outcome_verdict(pool, target, UpstreamOutcome::Timeout) matches VerdictView::TryNext(
                late,
            )
            &&& late.status == 504
            &&& outcome_verdict(pool, target, UpstreamOutcome::NetworkError) matches
                VerdictView::TryNext(unreached)
            &&& unreached.status == 502
        },
        !rules_enabled(pool) ==> {
            &&& outcome_verdict(pool, target, UpstreamOutcome::Timeout) matches VerdictView::Answer(
                late,
            )
            &&& late.status == 504
            &&& outcome_verdict(pool, target, UpstreamOutcome::NetworkError) matches
                VerdictView::Answer(unreached)
            &&& unreached.status == 502
        },
{
}

/// A response leads to the next provider exactly when the rules of the pool are enabled and name its
/// status. Otherwise an error response is passed on as it is, or, where the target's responses are
/// brought into the standard form, told with its own status; and a success goes on.
pub proof fn law_response_of_an_upstream(pool: ProviderPool, target: Target, status: u16)
    ensures
        ({
            let verdict = outcome_verdict(pool, target, UpstreamOutcome::Status(status));
            let retried = pool.retry_rules() matches Some(rules) && rules.enabled && exists|i: int|
                0 <= i < rules.on_status@.len() && #[trigger] rules.on_status@[i] == status;
            &&& retried ==> (verdict matches VerdictView::TryNext(error) && error.status == 502)
            &&& !retried && 200 <= status < 300 ==> verdict is Proceed
            &&& !retried && !target.sanitize_response ==> verdict is Proceed
            &&& !retried && target.sanitize_response && !(200 <= status < 300) ==> (verdict matches
                VerdictView::Answer(error) && error.status == status && (error.body matches Some(
                told,
            ) && (400 <= status < 500 <==> told.code == "upstream_error"@)))
        }),
{
    reveal_strlit("upstream_error");
    reveal_strlit("internal_error");
    assert("upstream_error"@[0] != "internal_error"@[0]);
}

/// A response that hides an error leads to the next provider exactly when the rules of the pool are
/// enabled and name the error's status, or are set for rate limits and it is one. Otherwise the client
/// is told: of a rate limit or a failure that the service is unavailable, of any other error its own
/// status. A clean response goes on; an empty one counts like the status 502.
pub proof fn law_hidden_errors(pool: ProviderPool, status: u16)
    ensures
        scan_verdict(pool, Scan2xx::Clean) is Proceed,
        ({
            let verdict = scan_verdict(pool, Scan2xx::Embedded(status));
            let retried = pool.retry_rules() matches Some(rules) && rules.enabled && (
            rules.on_status@.contains(status) || (status == 429 && rules.on_rate_limit));
            &&& retried ==> (verdict matches VerdictView::TryNext(error) && error.status == 503)
            &&& !retried && (status == 429 || status >= 500) ==> (verdict matches
                VerdictView::Answer(error) && error.status == 503)
            &&& !retried && status != 429 && status < 500 ==> (verdict matches VerdictView::Answer(
                error,
            ) && error.status == status)
        }),
        ({
            let verdict = scan_verdict(pool, Scan2xx::EmptyBody);
            let retried = pool.retry_rules() matches Some(rules) && rules.enabled
                && rules.on_status@.contains(502);
            &&& retried ==> (verdict matches VerdictView::TryNext(error) && error.status == 503)
            &&& !retried ==> (verdict matches VerdictView::Answer(error) && error.status == 503)
        }),
{
}

/// A successful response is looked into exactly in strict mode, and brought into the standard form
/// exactly where that is not left to a later stage, there is something that does it, and the target asks
/// for it; a stream then event by event. Nothing is done to a response that tells no success.
pub proof fn law_what_is_done_to_a_body(
    strict_mode: bool,
    has_transform: bool,
    target: Target,
    status: u16,
    stream: bool,
)
    ensures
        ({
            let plan = body_plan(strict_mode, has_transform, target, status, stream);
            &&& !(200 <= status < 300) ==> !plan.scan && !plan.transform
            &&& 200 <= status < 300 && strict_mode ==> plan.scan && !plan.transform
            &&& 200 <= status < 300 && !strict_mode ==> !plan.scan && (plan.transform
                <==> has_transform && target.sanitize_response)
            &&& plan.regroup_events <==> plan.transform && stream
        }),
{
}

/// A response is an event stream exactly when its content type says so somewhere.
pub proof fn law_content_type_of_a_stream(before: Seq<char>, after: Seq<char>, other: Seq<char>)
    ensures
        is_event_stream(Some(before + "text/event-stream"@ + after)),
        !is_event_stream(None),
        is_event_stream(Some(other)) ==> exists|a: Seq<char>, b: Seq<char>|
            other == #[trigger] (a + "text/event-stream"@ + b),
{
    text::lemma_part_occurs(before, "text/event-stream"@, after);
    if is_event_stream(Some(other)) {
        text::lemma_occurrence_splits("text/event-stream"@, other);
    }
}

/// Of the headers that a target adds to a response, each that can be sent takes the place of what was
/// there under its name; one that cannot be sent is left out; and no other header is touched.
pub proof fn law_extra_headers(
    before: Map<Seq<char>, Seq<Seq<u8>>>,
    extra: Seq<(String, String)>,
    last: (String, String),
    name: Seq<char>,
)
    ensures
        ({
            let so_far = with_extra(before, extra);
            let after = with_extra(before, extra.push(last));
            let sendable = headers::header_name(last.0@) is Some && headers::is_header_value(
                encode_utf8(last.1@),
            );
            &&& with_extra(before, Seq::empty()) == before
            &&& sendable && headers::header_name(last.0@) == Some(name) ==> after.dom().contains(name)
                && after[name] == seq![encode_utf8(last.1@)]
            &&& !sendable || headers::header_name(last.0@) != Some(name) ==> (after.dom().contains(
                name,
            ) <==> so_far.dom().contains(name)) && (so_far.dom().contains(name) ==> after[name]
                == so_far[name])
        }),
{
    assert(extra.push(last).drop_last() =~= extra);
}

/// The headers that a target adds are those of its settings.
pub proof fn law_extra_headers_of_a_target(target: Target)
    ensures
        target.response_headers is None ==> extra_headers(target).len() == 0,
        target.response_headers matches Some(extra) ==> extra_headers(target) == extra@,
{
}

/// What the client is told when no attempt is left: the error of the last attempt; if none was made,
/// that too many requests are under way, where there are providers at all.
pub proof fn law_final_error(view: RelayView, pool: ProviderPool, model: Seq<char>)
    ensures
        view.any_attempted ==> (view.last_error matches Some(error) ==> view.final_error(pool, model)
            == error),
        !view.any_attempted && pool.all().len() > 0 ==> view.final_error(pool, model)
            == ErrorView::concurrency_limited(),
        !view.any_attempted && pool.all().len() == 0 ==> view.final_error(pool, model)
            == ErrorView::model_not_found(model),
{
}

/// Before another attempt the delay is waited for, where there is one and an attempt is left; unless all
/// the waiting together would take longer than the rules of the pool allow: then the request ends.
pub proof fn law_pauses(pool: ProviderPool, attempts: nat, waited_ms: u64, d: u64)
    ensures
        pause_before_next(pool, attempts, waited_ms, None) == Pause::NoWait,
        attempts >= pool.attempts_allowed() ==> pause_before_next(pool, attempts, waited_ms, Some(d))
            == Pause::NoWait,
        attempts < pool.attempts_allowed() ==> {
            let max = match pool.retry_rules() {
                Some(rules) => rules.max_total_backoff_ms,
                None => None,
            };
            pause_before_next(pool, attempts, waited_ms, Some(d)) == match max {
                Some(m) => if waited_ms + d <= m {
                    Pause::Wait(d)
                } else if m < u64::MAX {
                    Pause::GiveUp
                } else {
                    Pause::Wait(d)
                },
                None => Pause::Wait(d),
            }
        },
{
}

/// Times are added up, as far as they can be counted.
pub proof fn law_waiting_adds_up(a: u64, b: u64)
    ensures
        a + b <= u64::MAX ==> sum_up_to_max(a, b) == a + b,
        a + b > u64::MAX ==> sum_up_to_max(a, b) == u64::MAX,
{
}

} // verus!
