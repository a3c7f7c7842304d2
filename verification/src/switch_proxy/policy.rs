//! When the proxy switches models.
use vstd::prelude::*;
use crate::model_switcher::callbacks::SleepLevel;
use crate::model_switcher::policy::{PolicyContext, PolicyDecision, SwitchPolicy};
use crate::span::Span;

verus! {

/// Switches as soon as a request waits. The sleep level is a number, as a configuration has it.
#[derive(Debug, Clone, Copy, PartialEq, Eq, Structural)]
pub struct FifoPolicy {
    pub level: u8,
    pub timeout: Span,
    pub drain: bool,
}

impl FifoPolicy {
    /// A policy with a sleep level, a timeout for requests, and whether requests are finished
    /// before the switch.
    pub fn new(sleep_level: u8, request_timeout: Span, drain_before_switch: bool) -> (policy:
        FifoPolicy)
        ensures
            policy == (FifoPolicy {
                level: sleep_level,
                timeout: request_timeout,
                drain: drain_before_switch,
            }),
    {
        FifoPolicy { level: sleep_level, timeout: request_timeout, drain: drain_before_switch }
    }
}

impl Default for FifoPolicy {
    fn default() -> (policy: FifoPolicy)
        ensures
            policy == (FifoPolicy { level: 1, timeout: Span::secs(60), drain: true }),
    {
        FifoPolicy::new(1, Span::from_secs(60), true)
    }
}

impl SwitchPolicy for FifoPolicy {
    fn on_pending_request(&self, _ctx: &PolicyContext) -> (decision: PolicyDecision)
        ensures
            decision == PolicyDecision::SwitchNow,
    {
        PolicyDecision::SwitchNow
    }

    fn drains_before_switch(&self) -> (drain: bool)
        ensures
            drain == self.drain,
    {
        self.drain
    }

    fn sleep_level(&self) -> (level: SleepLevel)
        ensures
            level == SleepLevel::numbered(self.level),
    {
        SleepLevel::from(self.level)
    }

    fn request_timeout(&self) -> (timeout: Span)
        ensures
            timeout == self.timeout,
    {
        self.timeout
    }
}

} // verus!
