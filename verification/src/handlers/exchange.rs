//! One request on its way: from the choice of a provider to the answer that the client gets.
use axum::http::{HeaderMap, HeaderValue};
use vstd::prelude::*;
use crate::errors::{ErrorView, OnwardsErrorResponse};
use crate::handlers::embedded::Scan2xx;
use crate::handlers::forwarding;
use crate::handlers::relay;
use crate::handlers::relay::{
    Pause, Prepared, Relay, RelayView, Rewritten, ServedBy, UpstreamOutcome, Verdict, VerdictView,
};
use crate::headers;
use crate::histories;
use crate::json;
use crate::json::JsonTree;
use crate::load_balancer::ProviderPool;
use crate::target;
use crate::target::{
    ConcurrencyGuard, ConnectionTable, LoadBalanceStrategy, RateLimitExceeded, Target,
};

verus! {

// ---------------------------------------------------------------------------
// One attempt
// ---------------------------------------------------------------------------

/// How the gateway treats responses.
#[derive(Debug, Clone, Copy, PartialEq, Eq, Structural)]
pub struct Manner {
    /// A later stage brings responses into the standard form, and they are looked into for hidden
    /// errors.
    pub strict_mode: bool,
    /// There is something that brings responses into the standard form.
    pub has_transform: bool,
}

/// How far an attempt has come.
#[derive(Debug, Clone, Copy, PartialEq, Eq, Structural)]
pub enum Stage {
    /// The provider is chosen.
    Chosen,
    /// The provider lets the attempt pass, and the body is being made.
    Opened,
    /// The request is on its way to the upstream.
    Sent,
    /// The body of the response is looked into.
    Scanning { stream: bool },
    /// The body of the response is brought into the standard form.
    Transforming { stream: bool },
    /// The response can be passed on.
    Ready,
}

/// What happens to an attempt once its request is on its way.
#[derive(Debug, Clone, Copy, PartialEq, Eq, Structural)]
pub enum AttemptEvent {
    /// The upstream took the request in some way. Its response may be an event stream.
    Outcome { outcome: UpstreamOutcome, stream: bool },
    /// The body was looked into.
    Scanned(Scan2xx),
    /// The body has the standard form.
    Transformed,
    /// The body could not be read, or not be brought into the standard form.
    BodyFailed,
}

impl Stage {
    /// Whether an event can happen at this stage.
    pub open spec fn expects(self, event: AttemptEvent) -> bool {
        match self {
            Stage::Sent => event is Outcome,
            Stage::Scanning { .. } => event is Scanned || event is BodyFailed,
            Stage::Transforming { .. } => event is Transformed || event is BodyFailed,
            _ => false,
        }
    }

    /// The most events that can still happen.
    pub open spec fn events_left(self) -> nat {
        match self {
            Stage::Chosen => 4,
            Stage::Opened => 3,
            Stage::Sent => 2,
            Stage::Scanning { .. } => 1,
            Stage::Transforming { .. } => 1,
            Stage::Ready => 0,
        }
    }
}

/// The stage after a response that is not given up on its status.
pub open spec fn stage_of_response(manner: Manner, target: Target, status: u16, stream: bool) -> Stage {
    let plan = relay::body_plan(manner.strict_mode, manner.has_transform, target, status, stream);
    if plan.scan {
        Stage::Scanning { stream }
    } else if plan.transform {
        Stage::Transforming { stream }
    } else {
        Stage::Ready
    }
}

/// The stage after an event, or what the failure of the attempt leads to.
pub open spec fn stage_after(
    pool: ProviderPool,
    target: Target,
    manner: Manner,
    stage: Stage,
    event: AttemptEvent,
) -> Result<Stage, VerdictView> {
    match event {
        AttemptEvent::Outcome { outcome, stream } => match (
            outcome,
            relay::outcome_verdict(pool, target, outcome),
        ) {
            (UpstreamOutcome::Status(status), VerdictView::Proceed) => Ok(
                stage_of_response(manner, target, status, stream),
            ),
            (_, verdict) => Err(verdict),
        },
        AttemptEvent::Scanned(scan) => match relay::scan_verdict(pool, scan) {
            VerdictView::Proceed => Ok(Stage::Ready),
            verdict => Err(verdict),
        },
        AttemptEvent::Transformed => Ok(Stage::Ready),
        AttemptEvent::BodyFailed => Err(VerdictView::Answer(ErrorView::internal())),
    }
}

/// The stage after an event, or what the failure of the attempt leads to.
pub fn advance_stage(
    pool: &ProviderPool,
    target: &Target,
    manner: Manner,
    stage: Stage,
    event: AttemptEvent,
) -> (next: Result<Stage, Verdict>)
    requires
        stage.expects(event),
    ensures
        match next {
            Ok(s) => stage_after(*pool, *target, manner, stage, event) == Ok::<Stage, VerdictView>(s),
            Err(v) => stage_after(*pool, *target, manner, stage, event) == Err::<Stage, VerdictView>(
                v@,
            ),
        },
{
    match event {
        AttemptEvent::Outcome { outcome, stream } => match (
            outcome,
            relay::judge_outcome(pool, target, outcome),
        ) {
            (UpstreamOutcome::Status(status), Verdict::Proceed) => {
                let plan = relay::plan_body(
                    manner.strict_mode,
                    manner.has_transform,
                    target,
                    status,
                    stream,
                );
                if plan.scan {
                    Ok(Stage::Scanning { stream })
                } else if plan.transform {
                    Ok(Stage::Transforming { stream })
                } else {
                    Ok(Stage::Ready)
                }
            },
            (_, verdict) => Err(verdict),
        },
        AttemptEvent::Scanned(scan) => match relay::judge_scan(pool, scan) {
            Verdict::Proceed => Ok(Stage::Ready),
            verdict => Err(verdict),
        },
        AttemptEvent::Transformed => Ok(Stage::Ready),
        AttemptEvent::BodyFailed => Err(Verdict::Answer(OnwardsErrorResponse::internal())),
    }
}

/// An attempt comes to an end: each event brings it nearer to the last stage or ends it, and it
/// never fails by a verdict to go on.
pub proof fn law_attempt_ends(
    pool: ProviderPool,
    target: Target,
    manner: Manner,
    stage: Stage,
    event: AttemptEvent,
)
    requires
        stage.expects(event),
    ensures
        match stage_after(pool, target, manner, stage, event) {
            Ok(next) => next.events_left() < stage.events_left(),
            Err(verdict) => !(verdict is Proceed),
        },
{
}

/// A response that is passed on was not one to be retried; an error response is passed on only
/// where the target's responses are not brought into the standard form; and in strict mode a
/// successful response is passed on only once a look into it found nothing amiss.
pub proof fn law_what_is_passed_on(
    pool: ProviderPool,
    target: Target,
    manner: Manner,
    outcome: UpstreamOutcome,
    stream: bool,
    scan: Scan2xx,
)
    ensures
        stage_after(
            pool,
            target,
            manner,
            Stage::Sent,
            AttemptEvent::Outcome { outcome, stream },
        ) matches Ok(next) ==> {
            &&& outcome matches UpstreamOutcome::Status(status)
            &&& !pool.retries_on(status)
            &&& target.sanitize_response ==> relay::is_success(status)
            &&& manner.strict_mode && relay::is_success(status) <==> next is Scanning
        },
        stage_after(
            pool,
            target,
            manner,
            Stage::Scanning { stream },
            AttemptEvent::Scanned(scan),
        ) is Ok ==> scan == Scan2xx::Clean,
{
}

// ---------------------------------------------------------------------------
// The whole request
// ---------------------------------------------------------------------------

/// What is to be done next for a request.
pub enum Action {
    /// The upstream is sent this.
    Send(Prepared),
    /// The body of the response is looked into.
    Scan { stream: bool },
    /// The body of the response is brought into the standard form.
    Transform { stream: bool },
    /// The response is passed on.
    Deliver,
    /// Another provider is chosen.
    Choose,
    /// Another provider is chosen after some milliseconds.
    Wait(u64),
    /// The client is told an error.
    Refuse(OnwardsErrorResponse),
}

/// What is to be done next for a request, but for what the upstream is sent.
pub enum ActionView {
    Send,
    Scan { stream: bool },
    Transform { stream: bool },
    Deliver,
    Choose,
    Wait(u64),
    Refuse(ErrorView),
}

impl View for Action {
    type V = ActionView;

    open spec fn view(&self) -> ActionView {
        match self {
            Action::Send(_) => ActionView::Send,
            Action::Scan { stream } => ActionView::Scan { stream: *stream },
            Action::Transform { stream } => ActionView::Transform { stream: *stream },
            Action::Deliver => ActionView::Deliver,
            Action::Choose => ActionView::Choose,
            Action::Wait(ms) => ActionView::Wait(*ms),
            Action::Refuse(error) => ActionView::Refuse(error@),
        }
    }
}

/// What is to be done at a stage.
pub open spec fn work_of(stage: Stage) -> ActionView {
    match stage {
        Stage::Chosen => ActionView::Send,
        Stage::Opened => ActionView::Send,
        Stage::Sent => ActionView::Send,
        Stage::Scanning { stream } => ActionView::Scan { stream },
        Stage::Transforming { stream } => ActionView::Transform { stream },
        Stage::Ready => ActionView::Deliver,
    }
}

/// What the verdict on an attempt leads to: what is known of the attempts from then on, and what
/// is to be done. `delay_ms` is how long to wait before another attempt, where the pool waits
/// between attempts at all.
pub open spec fn settled(
    pool: ProviderPool,
    model: Seq<char>,
    attempts: nat,
    before: RelayView,
    verdict: VerdictView,
    delay_ms: Option<u64>,
) -> (RelayView, ActionView) {
    match verdict {
        VerdictView::Proceed => (before, ActionView::Deliver),
        VerdictView::Answer(error) => (before, ActionView::Refuse(error)),
        VerdictView::TryNext(error) => {
            let noted = RelayView { last_error: Some(error), ..before };
            match relay::pause_before_next(pool, attempts, before.waited_ms, delay_ms) {
                Pause::NoWait => (noted, ActionView::Choose),
                Pause::Wait(ms) => (
                    RelayView { waited_ms: relay::sum_up_to_max(before.waited_ms, ms), ..noted },
                    ActionView::Wait(ms),
                ),
                Pause::GiveUp => (
                    noted.after_finish(),
                    ActionView::Refuse(noted.final_error(pool, model)),
                ),
            }
        },
    }
}

/// Once an attempt has failed, its error is what the client is told if it is told an error at once,
/// and also what it is told if no later attempt can be made.
pub proof fn law_last_failure_is_told(
    pool: ProviderPool,
    model: Seq<char>,
    attempts: nat,
    before: RelayView,
    error: ErrorView,
    delay_ms: Option<u64>,
)
    requires
        before.any_attempted,
    ensures
        ({
            let (after, action) = settled(
                pool,
                model,
                attempts,
                before,
                VerdictView::TryNext(error),
                delay_ms,
            );
            match action {
                ActionView::Refuse(told) => told == error,
                ActionView::Choose => after.final_error(pool, model) == error,
                ActionView::Wait(_) => after.final_error(pool, model) == error,
                _ => false,
            }
        }),
        settled(pool, model, attempts, before, VerdictView::Answer(error), delay_ms).1
            == ActionView::Refuse(error),
{
}

/// What a client gets beside the response of an upstream.
pub struct Delivery {
    /// The upstream that answered.
    pub served_by: ServedBy,
    /// Whether it is trusted.
    pub trusted: bool,
}

/// One request that was let in.
pub struct Exchange<'a> {
    attempts: Relay<'a>,
    model: String,
    manner: Manner,
    current: Option<(&'a Target, Stage)>,
}

impl<'a> Exchange<'a> {
    /// The attempts.
    pub closed spec fn relay(self) -> Relay<'a> {
        self.attempts
    }

    /// The pool that serves the request.
    pub open spec fn serving(self) -> ProviderPool {
        self.relay().selection().source()
    }

    /// The model that the client asked for.
    pub closed spec fn asked_for(self) -> Seq<char> {
        self.model@
    }

    /// How responses are treated.
    pub closed spec fn treats(self) -> Manner {
        self.manner
    }

    /// The target of the attempt that is going on, and how far it has come.
    pub closed spec fn attempt(self) -> Option<(Target, Stage)> {
        match self.current {
            Some((target, stage)) => Some((*target, stage)),
            None => None,
        }
    }

    /// Whether this is the same request, treated in the same way.
    pub open spec fn continues(self, before: Exchange<'a>) -> bool {
        &&& self.serving() == before.serving()
        &&& self.asked_for() == before.asked_for()
        &&& self.treats() == before.treats()
    }

    /// What the verdict on the attempt that is going on leads to.
    pub open spec fn settles(self, verdict: VerdictView, delay_ms: Option<u64>) -> (
        RelayView,
        ActionView,
    ) {
        settled(
            self.serving(),
            self.asked_for(),
            self.relay().selection().count() as nat,
            self.relay()@,
            verdict,
            delay_ms,
        )
    }

    /// Starts on a request that was let in.
    pub fn new(pool: &'a ProviderPool, model: &str, manner: Manner) -> (exchange: Exchange<'a>)
        ensures
            exchange.serving() == *pool,
            exchange.asked_for() == model@,
            exchange.treats() == manner,
            exchange.attempt() is None,
            exchange.relay()@ == (RelayView { last_error: None, any_attempted: false, waited_ms: 0 }),
            exchange.relay().within_limit(),
            exchange.relay().selection().tried() == Set::<usize>::empty(),
            exchange.relay().selection().count() == 0,
            exchange.relay().selection().limit() == pool.attempts_allowed(),
            exchange.relay().selection().replaces() == (pool.retry_rules() matches Some(f)
                && f.with_replacement),
    {
        Exchange {
            attempts: Relay::new(pool),
            model: model.to_owned(),
            manner,
            current: None,
        }
    }

    /// Does what the verdict on the attempt that is going on leads to.
    fn settle(&mut self, verdict: Verdict, delay_ms: Option<u64>) -> (action: Action)
        ensures
            final(self).continues(*old(self)),
            final(self).attempt() is None,
            final(self).relay().selection() == old(self).relay().selection(),
            (final(self).relay()@, action@) == old(self).settles(verdict@, delay_ms),
            old(self).relay().within_limit() ==> final(self).relay().within_limit(),
    {
        self.current = None;
        match verdict {
            Verdict::Proceed => Action::Deliver,
            Verdict::Answer(error) => Action::Refuse(error),
            Verdict::TryNext(error) => match self.attempts.retry(error, delay_ms) {
                Pause::NoWait => Action::Choose,
                Pause::Wait(ms) => Action::Wait(ms),
                Pause::GiveUp => Action::Refuse(self.attempts.finish(self.model.as_str())),
            },
        }
    }

    /// Whether the next choice can be made.
    pub fn draw_is_possible(&self, table: &ConnectionTable, now: u64) -> (possible: bool)
        requires
            self.serving().counted_in(*table),
        ensures
            possible == self.relay().selection().can_draw(*table, now),
    {
        self.attempts.draw_is_possible(table, now)
    }

    /// Chooses the provider for the next attempt and makes a connection to it active; or tells the
    /// client an error, if no provider can be chosen or no attempt is left.
    pub fn pick(&mut self, table: &mut ConnectionTable, now: u64) -> (chosen: Result<
        (&'a Target, ConcurrencyGuard),
        OnwardsErrorResponse,
    >)
        requires
            old(self).serving().counted_in(*old(table)),
            old(self).relay().selection().can_draw(*old(table), now),
        ensures
            final(self).continues(*old(self)),
            final(self).relay().selection().limit() == old(self).relay().selection().limit(),
            final(self).relay().selection().replaces() == old(self).relay().selection().replaces(),
            old(self).relay().within_limit() ==> final(self).relay().within_limit(),
            match chosen {
                Ok((target, guard)) => {
                    let pool = old(self).serving();
                    let before = old(self).relay().selection();
                    let after = final(self).relay().selection();
                    &&& before.count() < before.limit()
                    &&& after.count() == before.count() + 1
                    &&& final(self).attempt() == Some((*target, Stage::Chosen))
                    &&& final(self).relay()@ == (RelayView {
                        any_attempted: true,
                        ..old(self).relay()@
                    })
                    &&& final(table)@ == old(table)@.update(
                        guard.slot(),
                        (old(table)@[guard.slot()] + 1) as usize,
                    )
                    &&& exists|i: usize|
                        {
                            &&& #[trigger] pool.preferred(
                                *old(table),
                                before.tried(),
                                now,
                                i as int,
                            )
                            &&& pool.all()[i as int].weight > 0 || forall|j: int|
                                pool.preferred(*old(table), before.tried(), now, j) ==> j == i
                            &&& *target == pool.all()[i as int].target
                            &&& guard.slot() == pool.all()[i as int].limiter.slot()
                            &&& after.tried() == if before.moves_on() {
                                before.tried().insert(i)
                            } else {
                                before.tried()
                            }
                        }
                },
                Err(error) => {
                    let before = old(self).relay().selection();
                    &&& before.count() >= before.limit() || forall|i: int|
                        !old(self).serving().preferred(*old(table), before.tried(), now, i)
                    &&& error@ == old(self).relay()@.final_error(
                        old(self).serving(),
                        old(self).asked_for(),
                    )
                    &&& final(self).attempt() is None
                    &&& final(table)@ == old(table)@
                },
            },
    {
        match self.attempts.next(table, now) {
            Some((i, target, guard)) => {
                self.current = Some((target, Stage::Chosen));
                proof {
                    assert(old(self).serving().preferred(
                        *old(table),
                        old(self).relay().selection().tried(),
                        now,
                        i as int,
                    ));
                }
                Ok((target, guard))
            },
            None => {
                self.current = None;
                Err(self.attempts.finish(self.model.as_str()))
            },
        }
    }

    /// Opens the attempt with the provider that was chosen: asks its rate limit, where it has one,
    /// and makes the body for the upstream of that of the client. Where the request has reasoning
    /// settings and the target translates them, the document that is handed out is to be translated.
    pub fn open(
        &mut self,
        body: &Vec<u8>,
        reasoning: bool,
        translates: bool,
        delay_ms: Option<u64>,
    ) -> (opened: Result<Rewritten, Action>)
        requires
            old(self).attempt() is Some,
            (old(self).attempt()->0).1 == Stage::Chosen,
        ensures
            final(self).continues(*old(self)),
            final(self).relay().selection() == old(self).relay().selection(),
            old(self).relay().within_limit() ==> final(self).relay().within_limit(),
            ({
                let target = (old(self).attempt()->0).0;
                match opened {
                    Ok(r) => {
                        &&& relay::rewritten(target, body@, reasoning, translates) == Ok::<
                            (Seq<u8>, Option<JsonTree>),
                            ErrorView,
                        >((r.body@, json::optional_tree(r.document)))
                        &&& final(self).attempt() == Some((target, Stage::Opened))
                        &&& final(self).relay()@ == old(self).relay()@
                    },
                    Err(action) => final(self).attempt() is None && !(action@ is Send),
                }
            }),
            ({
                let pool = old(self).serving();
                let target = (old(self).attempt()->0).0;
                exists|check: Option<Result<(), RateLimitExceeded>>|
                    {
                        let verdict = relay::opening_verdict(
                            pool,
                            target,
                            body@,
                            reasoning,
                            translates,
                            check,
                        );
                        &&& #[trigger] target::asked(target.limiter, check)
                        &&& match opened {
                            Ok(_) => verdict is Proceed,
                            Err(action) => !(verdict is Proceed) && (final(self).relay()@, action@)
                                == old(self).settles(verdict, delay_ms),
                        }
                    }
            }),
    {
        let pool = self.attempts.pool();
        let (target, _) = self.current.unwrap();
        match relay::open_attempt(pool, target, body, reasoning, translates) {
            Ok(rewritten) => {
                self.current = Some((target, Stage::Opened));
                Ok(rewritten)
            },
            Err(verdict) => Err(self.settle(verdict, delay_ms)),
        }
    }

    /// Sends the attempt off, with the body that was made for the upstream: the one that was handed
    /// out, or what its translation gave. An error in the translation is what the client is told; no
    /// other provider is tried.
    pub fn dispatch(
        &mut self,
        path: &str,
        body: Result<Vec<u8>, OnwardsErrorResponse>,
        h: &mut HeaderMap<HeaderValue>,
    ) -> (action: Action)
        requires
            old(self).attempt() is Some,
            (old(self).attempt()->0).1 == Stage::Opened,
            forwarding::auth_is_sendable((old(self).attempt()->0).0),
            headers::has_room(*old(h), 3),
        ensures
            final(self).continues(*old(self)),
            final(self).relay() == old(self).relay(),
            ({
                let pool = old(self).serving();
                let target = (old(self).attempt()->0).0;
                let sent = match body {
                    Ok(made) => relay::addressed(target, path@, made@),
                    Err(error) => Err(error@),
                };
                match (action, sent) {
                    (Action::Send(p), Ok((url, host, bytes))) => {
                        &&& p.url@ == url
                        &&& p.body@ == bytes
                        &&& p.propagate_trace == forwarding::propagates_trace(target, pool.trusts())
                        &&& headers::entries(*final(h)) == forwarding::attempt_headers(
                            headers::entries(*old(h)),
                            target,
                            host,
                            bytes.len(),
                            pool.trusts(),
                        )
                        &&& final(self).attempt() == Some((target, Stage::Sent))
                    },
                    (Action::Refuse(e), Err(error)) => {
                        &&& e@ == error
                        &&& headers::entries(*final(h)) == headers::entries(*old(h))
                        &&& final(self).attempt() is None
                    },
                    _ => false,
                }
            }),
    {
        let pool = self.attempts.pool();
        let (target, _) = self.current.unwrap();
        self.current = None;
        let made = match body {
            Ok(made) => made,
            Err(error) => {
                return Action::Refuse(error);
            },
        };
        match relay::address_attempt(target, pool.is_trusted(), path, made, h) {
            Ok(prepared) => {
                self.current = Some((target, Stage::Sent));
                Action::Send(prepared)
            },
            Err(error) => Action::Refuse(error),
        }
    }

    /// Begins the attempt, for a request without reasoning settings, with the provider that was
    /// chosen: asks its rate limit, where it has one,
    /// and turns the request of the client, given by its path, body and headers, into one to the
    /// upstream.
    pub fn begin(
        &mut self,
        path: &str,
        body: &Vec<u8>,
        h: &mut HeaderMap<HeaderValue>,
        delay_ms: Option<u64>,
    ) -> (action: Action)
        requires
            old(self).attempt() is Some,
            (old(self).attempt()->0).1 == Stage::Chosen,
            forwarding::auth_is_sendable((old(self).attempt()->0).0),
            headers::has_room(*old(h), 3),
        ensures
            final(self).continues(*old(self)),
            final(self).relay().selection() == old(self).relay().selection(),
            old(self).relay().within_limit() ==> final(self).relay().within_limit(),
            ({
                let pool = old(self).serving();
                let target = (old(self).attempt()->0).0;
                match action {
                    Action::Send(p) => {
                        &&& relay::prepared(target, path@, body@) matches Ok((url, host, bytes))
                        &&& p.url@ == url
                        &&& p.body@ == bytes
                        &&& p.propagate_trace == forwarding::propagates_trace(target, pool.trusts())
                        &&& headers::entries(*final(h)) == forwarding::attempt_headers(
                            headers::entries(*old(h)),
                            target,
                            host,
                            bytes.len(),
                            pool.trusts(),
                        )
                        &&& final(self).attempt() == Some((target, Stage::Sent))
                        &&& final(self).relay()@ == old(self).relay()@
                    },
                    _ => {
                        &&& headers::entries(*final(h)) == headers::entries(*old(h))
                        &&& final(self).attempt() is None
                    },
                }
            }),
            ({
                let pool = old(self).serving();
                let target = (old(self).attempt()->0).0;
                exists|check: Option<Result<(), RateLimitExceeded>>|
                    {
                        let verdict = relay::begin_verdict(pool, target, path@, body@, check);
                        &&& #[trigger] target::asked(target.limiter, check)
                        &&& match action {
                            Action::Send(_) => verdict is Proceed,
                            _ => !(verdict is Proceed) && (final(self).relay()@, action@) == old(
                                self,
                            ).settles(verdict, delay_ms),
                        }
                    }
            }),
    {
        match self.open(body, false, false, delay_ms) {
            Ok(rewritten) => self.dispatch(path, Ok(rewritten.body), h),
            Err(action) => action,
        }
    }

    /// Goes on after an event of the attempt.
    pub fn advance(&mut self, event: AttemptEvent, delay_ms: Option<u64>) -> (action: Action)
        requires
            old(self).attempt() is Some,
            (old(self).attempt()->0).1.expects(event),
        ensures
            final(self).continues(*old(self)),
            final(self).relay().selection() == old(self).relay().selection(),
            old(self).relay().within_limit() ==> final(self).relay().within_limit(),
            ({
                let (target, stage) = old(self).attempt()->0;
                match stage_after(old(self).serving(), target, old(self).treats(), stage, event) {
                    Ok(next) => {
                        &&& action@ == work_of(next)
                        &&& final(self).attempt() == Some((target, next))
                        &&& final(self).relay()@ == old(self).relay()@
                    },
                    Err(verdict) => {
                        &&& final(self).attempt() is None
                        &&& (final(self).relay()@, action@) == old(self).settles(verdict, delay_ms)
                    },
                }
            }),
    {
        let pool = self.attempts.pool();
        let (target, stage) = self.current.unwrap();
        match advance_stage(pool, target, self.manner, stage, event) {
            Ok(next) => {
                self.current = Some((target, next));
                match next {
                    Stage::Scanning { stream } => Action::Scan { stream },
                    Stage::Transforming { stream } => Action::Transform { stream },
                    _ => Action::Deliver,
                }
            },
            Err(verdict) => self.settle(verdict, delay_ms),
        }
    }

    /// Puts the headers on the response that its target asks for, and tells where the response
    /// comes from.
    pub fn deliver(self, h: &mut HeaderMap<HeaderValue>) -> (delivery: Option<Delivery>)
        requires
            self.attempt() matches Some((target, _)) ==> headers::has_room(
                *old(h),
                relay::extra_headers(target).len() as int,
            ),
        ensures
            match self.attempt() {
                Some((target, Stage::Ready)) => {
                    &&& delivery matches Some(d)
                    &&& d.served_by.url@ == target.url.text()
                    &&& d.served_by.onwards_model == target.onwards_model
                    &&& d.trusted == forwarding::trusts(target, self.serving().trusts())
                    &&& headers::entries(*final(h)) == relay::with_extra(
                        headers::entries(*old(h)),
                        relay::extra_headers(target),
                    )
                },
                _ => delivery is None && *final(h) == *old(h),
            },
    {
        match self.current {
            Some((target, Stage::Ready)) => {
                if let Some(extra) = &target.response_headers {
                    relay::add_response_headers(h, extra);
                }
                Some(
                    Delivery {
                        served_by: relay::served_by(target),
                        trusted: forwarding::resolve_trust(target, self.attempts.pool().is_trusted()),
                    },
                )
            },
            _ => None,
        }
    }
}

// ---------------------------------------------------------------------------
// A whole failover
// ---------------------------------------------------------------------------

/// Whether attempts were made with some providers, one after another, and came to some verdicts:
/// each provider was chosen from those that had not been tried, there were no more attempts than
/// are allowed, and every attempt but the last failed in such a way that another was to be tried.
pub open spec fn is_failover(
    pool: ProviderPool,
    tables: Seq<ConnectionTable>,
    nows: Seq<u64>,
    chosen: Seq<usize>,
    verdicts: Seq<VerdictView>,
) -> bool {
    &&& histories::is_iteration(pool, tables, nows, chosen)
    &&& chosen.len() == verdicts.len()
    &&& 0 < chosen.len() <= pool.attempts_allowed()
    &&& forall|k: int| 0 <= k < verdicts.len() - 1 ==> #[trigger] verdicts[k] is TryNext
}

/// What is known once attempts without waits between them have come to some verdicts.
pub open spec fn known_after(pool: ProviderPool, model: Seq<char>, verdicts: Seq<VerdictView>) -> RelayView
    decreases verdicts.len(),
{
    if verdicts.len() == 0 {
        RelayView { last_error: None, any_attempted: false, waited_ms: 0 }
    } else {
        let before = known_after(pool, model, verdicts.drop_last());
        settled(
            pool,
            model,
            verdicts.len(),
            RelayView { any_attempted: true, ..before },
            verdicts.last(),
            None,
        ).0
    }
}

/// In a failover no provider is tried twice. If every attempt fails and every provider has room, as
/// many are tried as there are, or as many as attempts are allowed if that is fewer, in order of
/// priority one after another from the first; and the client is told the error of the last.
pub proof fn law_failover(
    pool: ProviderPool,
    model: Seq<char>,
    tables: Seq<ConnectionTable>,
    nows: Seq<u64>,
    chosen: Seq<usize>,
    verdicts: Seq<VerdictView>,
    table: ConnectionTable,
    now: u64,
)
    requires
        is_failover(pool, tables, nows, chosen, verdicts),
        pool.all().len() <= usize::MAX,
    ensures
        chosen.no_duplicates(),
        chosen.len() <= pool.all().len(),
        ({
            let over = chosen.len() == pool.attempts_allowed() || forall|i: int|
                !pool.preferred(
                    table,
                    histories::tried_before(chosen, chosen.len() as int),
                    now,
                    i,
                );
            let room = forall|i: int|
                0 <= i < pool.all().len() ==> #[trigger] histories::has_room(pool, table, i);
            verdicts.last() is TryNext && over && room ==> chosen.len() == if pool.attempts_allowed()
                < pool.all().len() {
                pool.attempts_allowed()
            } else {
                pool.all().len()
            }
        }),
        pool.chosen_by() == LoadBalanceStrategy::Priority && (forall|j: int|
            0 <= j < chosen.len() && j < pool.all().len() ==> !(#[trigger] pool.all()[j]).limiter.full(
                tables[j],
            )) ==> forall|k: int| 0 <= k < chosen.len() ==> #[trigger] chosen[k] == k,
        verdicts.last() matches VerdictView::TryNext(error) ==> known_after(
            pool,
            model,
            verdicts,
        ).final_error(pool, model) == error,
{
    histories::law_choices_are_distinct(pool, tables, nows, chosen);
    let over = chosen.len() == pool.attempts_allowed() || forall|i: int|
        !pool.preferred(table, histories::tried_before(chosen, chosen.len() as int), now, i);
    let room = forall|i: int|
        0 <= i < pool.all().len() ==> #[trigger] histories::has_room(pool, table, i);
    if over && room {
        histories::law_iteration_is_complete(
            pool,
            tables,
            nows,
            chosen,
            pool.attempts_allowed(),
            table,
            now,
        );
    }
    if pool.chosen_by() == LoadBalanceStrategy::Priority && (forall|j: int|
        0 <= j < chosen.len() && j < pool.all().len() ==> !(#[trigger] pool.all()[j]).limiter.full(
            tables[j],
        )) {
        assert forall|k: int| 0 <= k < chosen.len() implies #[trigger] chosen[k] == k by {
            histories::law_priority_is_an_order(pool, tables, nows, chosen, k);
        }
    }
}

/// An attempt that has failed so that another is to be tried leads to another choice, at once or after
/// the delay, as long as the rules of the pool let it wait; and what it failed with is kept. Only where
/// they do not is the client told.
pub proof fn law_failure_leads_on(
    pool: ProviderPool,
    model: Seq<char>,
    attempts: nat,
    before: RelayView,
    error: ErrorView,
    d: u64,
)
    ensures
        ({
            let (after, action) = settled(
                pool,
                model,
                attempts,
                before,
                VerdictView::TryNext(error),
                None,
            );
            &&& action == ActionView::Choose
            &&& after.last_error == Some(error)
            &&& after.any_attempted == before.any_attempted
            &&& after.waited_ms == before.waited_ms
        }),
        ({
            let (after, action) = settled(
                pool,
                model,
                attempts,
                before,
                VerdictView::TryNext(error),
                Some(d),
            );
            let max = match pool.retry_rules() {
                Some(rules) => rules.max_total_backoff_ms,
                None => None,
            };
            &&& attempts >= pool.attempts_allowed() ==> action == ActionView::Choose
            &&& attempts < pool.attempts_allowed() && (max matches Some(m) ==> before.waited_ms + d
                <= m) ==> action == ActionView::Wait(d) && after.last_error == Some(error) && (
            before.waited_ms + d <= u64::MAX ==> after.waited_ms == before.waited_ms + d)
            &&& attempts < pool.attempts_allowed() && (max matches Some(m) && before.waited_ms + d > m
                && m < u64::MAX) ==> action is Refuse
        }),
        settled(pool, model, attempts, before, VerdictView::Answer(error), Some(d)) == (
            before,
            ActionView::Refuse(error),
        ),
{
    relay::law_pauses(pool, attempts, before.waited_ms, d);
    relay::law_waiting_adds_up(before.waited_ms, d);
}

/// A provider whose rate limit refuses leads to another choice where the rules of the pool are enabled
/// and set for rate limits.
pub proof fn law_limited_provider_is_passed_over(
    pool: ProviderPool,
    target: Target,
    model: Seq<char>,
    body: Seq<u8>,
    reasoning: bool,
    translates: bool,
    refusal: RateLimitExceeded,
    attempts: nat,
    before: RelayView,
)
    requires
        pool.retry_rules() matches Some(rules) && rules.enabled && rules.on_rate_limit,
    ensures
        settled(
            pool,
            model,
            attempts,
            before,
            relay::opening_verdict(
                pool,
                target,
                body,
                reasoning,
                translates,
                Some(Err::<(), RateLimitExceeded>(refusal)),
            ),
            None,
        ).1 == ActionView::Choose,
{
    relay::law_refusal_of_a_provider(
        pool,
        target,
        Seq::empty(),
        body,
        reasoning,
        translates,
        refusal,
    );
}

/// The stages of an attempt follow from what happens: a response that is not given up on is looked into
/// in strict mode, brought into the standard form where that is asked for, and can be passed on
/// otherwise; a look that finds nothing amiss, and a body in the standard form, can be passed on; a body
/// that cannot be had ends the request.
pub proof fn law_stages(
    pool: ProviderPool,
    target: Target,
    manner: Manner,
    stage: Stage,
    status: u16,
    stream: bool,
    scan: Scan2xx,
)
    ensures
        ({
            let outcome = UpstreamOutcome::Status(status);
            let next = stage_after(
                pool,
                target,
                manner,
                Stage::Sent,
                AttemptEvent::Outcome { outcome, stream },
            );
            let verdict = relay::outcome_verdict(pool, target, outcome);
            let success = 200 <= status < 300;
            &&& !(verdict is Proceed) ==> next == Err::<Stage, VerdictView>(verdict)
            &&& verdict is Proceed && success && manner.strict_mode ==> next == Ok::<
                Stage,
                VerdictView,
            >(Stage::Scanning { stream })
            &&& verdict is Proceed && success && !manner.strict_mode && manner.has_transform
                && target.sanitize_response ==> next == Ok::<Stage, VerdictView>(
                Stage::Transforming { stream },
            )
            &&& verdict is Proceed && (!success || (!manner.strict_mode && !(manner.has_transform
                && target.sanitize_response))) ==> next == Ok::<Stage, VerdictView>(Stage::Ready)
        }),
        ({
            let next = stage_after(pool, target, manner, stage, AttemptEvent::Scanned(scan));
            &&& scan == Scan2xx::Clean ==> next == Ok::<Stage, VerdictView>(Stage::Ready)
            &&& scan != Scan2xx::Clean ==> next == Err::<Stage, VerdictView>(
                relay::scan_verdict(pool, scan),
            ) && !(relay::scan_verdict(pool, scan) is Proceed)
        }),
        stage_after(pool, target, manner, stage, AttemptEvent::Transformed) == Ok::<
            Stage,
            VerdictView,
        >(Stage::Ready),
        stage_after(pool, target, manner, stage, AttemptEvent::BodyFailed) matches Err(verdict) && (
        verdict matches VerdictView::Answer(error) && error.status == 500),
        work_of(Stage::Ready) == ActionView::Deliver,
        work_of(Stage::Scanning { stream }) == (ActionView::Scan { stream }),
        work_of(Stage::Transforming { stream }) == (ActionView::Transform { stream }),
{
}

} // verus!
