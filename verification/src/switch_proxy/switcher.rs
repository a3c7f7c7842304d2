//! What a request through the proxy is told when its model is not ready.
use vstd::prelude::*;
use crate::model_switcher::switcher;
use crate::model_switcher::switcher::{ModelSwitcher, Notice, Readiness, SwitchOutcome};
use crate::span::Span;
use crate::text;

verus! {

/// Why a model could not be made ready.
#[derive(Debug)]
pub enum SwitchError {
    /// No such model is registered.
    ModelNotFound(String),
    /// The model was woken and did not become ready.
    NotReady(String),
    /// The request waited too long.
    Timeout,
    /// What starts and stops the servers failed.
    Orchestrator(String),
    /// Something went wrong inside the switcher.
    Internal(String),
}

impl SwitchError {
    /// What an error says.
    pub open spec fn text(self) -> Seq<char> {
        match self {
            SwitchError::ModelNotFound(model) => "model not found: "@ + model@,
            SwitchError::NotReady(model) => "model not ready: "@ + model@,
            SwitchError::Timeout => "request timeout"@,
            SwitchError::Orchestrator(reason) => "orchestrator error: "@ + reason@,
            SwitchError::Internal(reason) => "internal error: "@ + reason@,
        }
    }

    /// What an error says.
    pub fn message(&self) -> (message: String)
        ensures
            message@ == self.text(),
    {
        match self {
            SwitchError::ModelNotFound(model) => "model not found: ".to_owned().concat(
                model.as_str(),
            ),
            SwitchError::NotReady(model) => "model not ready: ".to_owned().concat(model.as_str()),
            SwitchError::Timeout => "request timeout".to_owned(),
            SwitchError::Orchestrator(reason) => "orchestrator error: ".to_owned().concat(
                reason.as_str(),
            ),
            SwitchError::Internal(reason) => "internal error: ".to_owned().concat(reason.as_str()),
        }
    }
}

/// Takes a request for a model: it can be served if the model is awake, and waits otherwise.
pub fn ensure_model_ready(switcher: &mut ModelSwitcher, model: &str, ticket: u64, now: Span) -> (ready:
    Result<Readiness, SwitchError>)
    ensures
        match ready {
            Err(e) => {
                &&& !old(switcher)@.models.dom().contains(model@)
                &&& e matches SwitchError::ModelNotFound(m)
                &&& m@ == model@
                &&& final(switcher)@ == old(switcher)@
            },
            Ok(Readiness::Ready) => {
                &&& old(switcher)@.models.dom().contains(model@)
                &&& old(switcher)@.state == switcher::StateView::Active(model@)
                &&& final(switcher)@ == old(switcher)@
            },
            Ok(Readiness::Queued) => {
                &&& old(switcher)@.models.dom().contains(model@)
                &&& old(switcher)@.state != switcher::StateView::Active(model@)
                &&& final(switcher)@ == old(switcher)@.with_pending(model@, ticket, now)
            },
        },
{
    match switcher.ensure_model_ready(model, ticket, now) {
        Ok(readiness) => Ok(readiness),
        Err(_) => Err(SwitchError::ModelNotFound(model.to_owned())),
    }
}

/// What each request is told: that its model is ready, or why it is not.
pub open spec fn notice_error(outcome: switcher::OutcomeView, model: Seq<char>) -> Option<Seq<char>> {
    match outcome {
        switcher::OutcomeView::Woken => None,
        switcher::OutcomeView::NotReady => Some("model not ready: "@ + model),
        switcher::OutcomeView::WakeFailed(reason) => Some("orchestrator error: "@ + reason),
    }
}

/// What each request is told once a switch to its model has ended.
pub fn result_for(notice: &Notice, model: &str) -> (result: Result<(), SwitchError>)
    ensures
        match result {
            Ok(_) => notice_error(notice.outcome@, model@) is None,
            Err(e) => e matches SwitchError::Internal(reason) && notice_error(
                notice.outcome@,
                model@,
            ) == Some(reason@),
        },
{
    match &notice.outcome {
        SwitchOutcome::Woken => Ok(()),
        SwitchOutcome::NotReady => Err(
            SwitchError::Internal(SwitchError::NotReady(model.to_owned()).message()),
        ),
        SwitchOutcome::WakeFailed(reason) => Err(
            SwitchError::Internal(SwitchError::Orchestrator(reason.clone()).message()),
        ),
    }
}

/// How the waiting of a request ended.
#[derive(Debug)]
pub enum Waited {
    /// It was told what became of the switch.
    Told(Result<(), SwitchError>),
    /// The switcher is gone.
    Closed,
    /// It waited too long.
    TimedOut,
}

/// What a request that has waited is answered.
pub fn wait_result(waited: Waited) -> (result: Result<(), SwitchError>)
    ensures
        match waited {
            Waited::Told(told) => result == told,
            Waited::Closed => result matches Err(SwitchError::Internal(reason)) && reason@
                == "channel closed"@,
            Waited::TimedOut => result matches Err(SwitchError::Timeout),
        },
{
    match waited {
        Waited::Told(told) => told,
        Waited::Closed => Err(SwitchError::Internal("channel closed".to_owned())),
        Waited::TimedOut => Err(SwitchError::Timeout),
    }
}

/// Requests that waited are told nothing bad where their model is awake, and otherwise why it is not.
pub proof fn law_what_waiting_requests_are_told(model: Seq<char>, reason: Seq<char>)
    ensures
        notice_error(switcher::OutcomeView::Woken, model) is None,
        notice_error(switcher::OutcomeView::NotReady, model) matches Some(told) && text::occurs_in(
            model,
            told,
        ),
        notice_error(switcher::OutcomeView::WakeFailed(reason), model) matches Some(told)
            && text::occurs_in(reason, told),
{
    let none = Seq::<char>::empty();
    assert("model not ready: "@ + model =~= "model not ready: "@ + model + none);
    text::lemma_part_occurs("model not ready: "@, model, none);
    assert("orchestrator error: "@ + reason =~= "orchestrator error: "@ + reason + none);
    text::lemma_part_occurs("orchestrator error: "@, reason, none);
}

/// What is told of an error holds the model or the reason that it is about.
pub proof fn law_errors_name_their_cause(model: String, reason: String)
    ensures
        text::occurs_in(model@, SwitchError::ModelNotFound(model).text()),
        text::occurs_in(model@, SwitchError::NotReady(model).text()),
        text::occurs_in(reason@, SwitchError::Orchestrator(reason).text()),
        text::occurs_in(reason@, SwitchError::Internal(reason).text()),
{
    let none = Seq::<char>::empty();
    assert("model not found: "@ + model@ =~= "model not found: "@ + model@ + none);
    text::lemma_part_occurs("model not found: "@, model@, none);
    assert("model not ready: "@ + model@ =~= "model not ready: "@ + model@ + none);
    text::lemma_part_occurs("model not ready: "@, model@, none);
    assert("orchestrator error: "@ + reason@ =~= "orchestrator error: "@ + reason@ + none);
    text::lemma_part_occurs("orchestrator error: "@, reason@, none);
    assert("internal error: "@ + reason@ =~= "internal error: "@ + reason@ + none);
    text::lemma_part_occurs("internal error: "@, reason@, none);
}

} // verus!
