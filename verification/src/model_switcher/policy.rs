//! When models are switched.
use vstd::prelude::*;
use crate::model_switcher::callbacks::SleepLevel;
use crate::span::Span;

verus! {

/// What a policy knows when a request waits for a model that is not awake.
#[derive(Debug)]
pub struct PolicyContext {
    /// The model that the request is for.
    pub target_model: String,
    /// The model that is awake, if any.
    pub active_model: Option<String>,
    /// The number of requests that wait for the target model.
    pub target_queue_depth: usize,
    /// How long the oldest of them has waited.
    pub oldest_waiting: Span,
    /// The number of requests that the active model is serving.
    pub active_in_flight: usize,
}

/// What a policy decides.
#[derive(Debug, Clone, Copy, PartialEq, Eq, Structural)]
pub enum PolicyDecision {
    /// The model is switched at once.
    SwitchNow,
    /// The model is switched once some time has passed.
    Defer(Span),
}

/// Decides when models are switched, and how.
pub trait SwitchPolicy: Send + Sync {
    /// Whether to switch, when a request waits for a model that is not awake.
    fn on_pending_request(&self, ctx: &PolicyContext) -> PolicyDecision;

    /// Whether the requests that the active model is serving are finished before it is put to
    /// sleep.
    fn drains_before_switch(&self) -> bool;

    /// How deeply the active model is put to sleep.
    fn sleep_level(&self) -> SleepLevel;

    /// How long a request waits at most.
    fn request_timeout(&self) -> Span;
}

/// Switches as soon as a request waits.
#[derive(Debug, Clone, Copy, PartialEq, Eq, Structural)]
pub struct FifoPolicy {
    pub level: SleepLevel,
    pub timeout: Span,
    pub drain: bool,
}

impl FifoPolicy {
    /// A policy with a sleep level, a timeout for requests, and whether requests are finished
    /// before the switch.
    pub fn new(sleep_level: SleepLevel, request_timeout: Span, drain_before_switch: bool) -> (policy:
        FifoPolicy)
        ensures
            policy == (FifoPolicy {
                level: sleep_level,
                timeout: request_timeout,
                drain: drain_before_switch,
            }),
    {
        FifoPolicy { level: sleep_level, timeout: request_timeout, drain: drain_before_switch }
    }

    /// Level 1, thirty seconds, and requests are finished before the switch.
    pub fn default_config() -> (policy: FifoPolicy)
        ensures
            policy == (FifoPolicy { level: SleepLevel::L1, timeout: Span::secs(30), drain: true }),
    {
        FifoPolicy::new(SleepLevel::L1, Span::from_secs(30), true)
    }
}

impl Default for FifoPolicy {
    fn default() -> (policy: FifoPolicy)
        ensures
            policy == (FifoPolicy { level: SleepLevel::L1, timeout: Span::secs(30), drain: true }),
    {
        FifoPolicy::default_config()
    }
}

impl SwitchPolicy for FifoPolicy {
    fn on_pending_request(&self, _ctx: &PolicyContext) -> (decision: PolicyDecision)
        ensures
            decision == PolicyDecision::SwitchNow,
    {
        PolicyDecision::SwitchNow
    }

    fn drains_before_switch(&self) -> (drain: bool)
        ensures
            drain == self.drain,
    {
        self.drain
    }

    fn sleep_level(&self) -> (level: SleepLevel)
        ensures
            level == self.level,
    {
        self.level
    }

    fn request_timeout(&self) -> (timeout: Span)
        ensures
            timeout == self.timeout,
    {
        self.timeout
    }
}

/// Switches once enough requests wait, or one has waited long enough.
#[derive(Debug, Clone, Copy, PartialEq, Eq, Structural)]
pub struct BatchingPolicy {
    pub level: SleepLevel,
    pub timeout: Span,
    pub drain: bool,
    /// The number of requests at which the model is switched.
    pub min_batch_size: usize,
    /// The longest that a request waits for others to join it.
    pub max_batch_wait: Span,
}

impl BatchingPolicy {
    /// A policy with these settings.
    pub fn new(
        sleep_level: SleepLevel,
        request_timeout: Span,
        drain_before_switch: bool,
        min_batch_size: usize,
        max_batch_wait: Span,
    ) -> (policy: BatchingPolicy)
        ensures
            policy == (BatchingPolicy {
                level: sleep_level,
                timeout: request_timeout,
                drain: drain_before_switch,
                min_batch_size,
                max_batch_wait,
            }),
    {
        BatchingPolicy {
            level: sleep_level,
            timeout: request_timeout,
            drain: drain_before_switch,
            min_batch_size,
            max_batch_wait,
        }
    }

    /// What is decided when so many requests wait, the oldest for so long.
    pub open spec fn decides(self, depth: usize, waiting: Span) -> PolicyDecision {
        if depth >= self.min_batch_size || waiting.nanos >= self.max_batch_wait.nanos {
            PolicyDecision::SwitchNow
        } else {
            PolicyDecision::Defer(
                Span { nanos: (self.max_batch_wait.nanos - waiting.nanos) as u128 },
            )
        }
    }
}

impl SwitchPolicy for BatchingPolicy {
    fn on_pending_request(&self, ctx: &PolicyContext) -> (decision: PolicyDecision)
        ensures
            decision == self.decides(ctx.target_queue_depth, ctx.oldest_waiting),
    {
        if ctx.target_queue_depth >= self.min_batch_size {
            return PolicyDecision::SwitchNow;
        }
        if ctx.oldest_waiting.nanos >= self.max_batch_wait.nanos {
            return PolicyDecision::SwitchNow;
        }
        PolicyDecision::Defer(self.max_batch_wait.saturating_sub(ctx.oldest_waiting))
    }

    fn drains_before_switch(&self) -> (drain: bool)
        ensures
            drain == self.drain,
    {
        self.drain
    }

    fn sleep_level(&self) -> (level: SleepLevel)
        ensures
            level == self.level,
    {
        self.level
    }

    fn request_timeout(&self) -> (timeout: Span)
        ensures
            timeout == self.timeout,
    {
        self.timeout
    }
}

/// A request that is deferred is not deferred again once that time has passed, and no request
/// waits for others longer than the policy allows.
pub proof fn law_deferral_ends(policy: BatchingPolicy, depth: usize, waiting: Span, later: Span)
    ensures
        policy.decides(depth, waiting) matches PolicyDecision::Defer(span) ==> {
            &&& span.nanos > 0
            &&& waiting.nanos + span.nanos == policy.max_batch_wait.nanos
            &&& later.nanos >= waiting.nanos + span.nanos ==> policy.decides(depth, later)
                == PolicyDecision::SwitchNow
        },
{
}

/// A batch is switched to exactly when enough requests wait or one has waited long enough; otherwise what
/// is missing of that time is waited for.
pub proof fn law_when_a_batch_is_ready(policy: BatchingPolicy, depth: usize, waiting: Span)
    ensures
        depth >= policy.min_batch_size ==> policy.decides(depth, waiting) == PolicyDecision::SwitchNow,
        waiting.nanos >= policy.max_batch_wait.nanos ==> policy.decides(depth, waiting)
            == PolicyDecision::SwitchNow,
        depth < policy.min_batch_size && waiting.nanos < policy.max_batch_wait.nanos ==> (policy.decides(
            depth,
            waiting,
        ) matches PolicyDecision::Defer(span) && waiting.nanos + span.nanos
            == policy.max_batch_wait.nanos),
{
}

} // verus!
