//! Which model is awake, which requests wait, and the steps of a switch.
use vstd::prelude::*;
use crate::model_switcher::callbacks::{SleepLevel, SwitchError};
use crate::model_switcher::policy::{PolicyContext, PolicyDecision, SwitchPolicy};
use crate::names::NameMap;
use crate::span::Span;
use crate::text;

verus! {

/// Settings of a switcher.
#[derive(Debug)]
pub struct ModelSwitcherConfig {
    /// The model to wake at the start, if any.
    pub initial_model: Option<String>,
    /// Whether it is woken at the start.
    pub wake_on_init: bool,
}

impl Default for ModelSwitcherConfig {
    fn default() -> (config: ModelSwitcherConfig)
        ensures
            config.initial_model is None,
            config.wake_on_init,
    {
        ModelSwitcherConfig { initial_model: None, wake_on_init: true }
    }
}

impl ModelSwitcherConfig {
    /// The model that is woken at the start.
    pub open spec fn initial(self) -> Option<Seq<char>> {
        if self.wake_on_init {
            text::optional(self.initial_model)
        } else {
            None
        }
    }

    /// The model that is woken at the start.
    pub fn model_to_wake(&self) -> (model: Option<&str>)
        ensures
            text::optional_str(model) == self.initial(),
    {
        if self.wake_on_init {
            match &self.initial_model {
                Some(model) => Some(model.as_str()),
                None => None,
            }
        } else {
            None
        }
    }
}

/// What a switcher is doing.
#[derive(Debug)]
pub enum SwitcherState {
    /// No model is awake.
    Idle,
    /// A model is awake.
    Active { model: String },
    /// One model is being put to sleep, if one was awake, and another woken.
    Switching { from: Option<String>, to: String },
}

/// What a switcher is doing.
pub enum StateView {
    Idle,
    Active(Seq<char>),
    Switching(Option<Seq<char>>, Seq<char>),
}

impl View for SwitcherState {
    type V = StateView;

    open spec fn view(&self) -> StateView {
        match self {
            SwitcherState::Idle => StateView::Idle,
            SwitcherState::Active { model } => StateView::Active(model@),
            SwitcherState::Switching { from, to } => StateView::Switching(text::optional(*from), to@),
        }
    }
}

impl StateView {
    /// The model that is awake.
    pub open spec fn awake(self) -> Option<Seq<char>> {
        match self {
            StateView::Active(model) => Some(model),
            _ => None,
        }
    }
}

/// A request that waits for a model.
#[derive(Debug, Clone, Copy, PartialEq, Eq, Structural)]
pub struct PendingRequest {
    /// What the request is known by.
    pub ticket: u64,
    /// When it began to wait, counted from a fixed moment.
    pub queued_at: Span,
}

/// What is known of one model.
#[derive(Debug)]
pub struct ModelState {
    /// The number of requests that it is serving.
    pub in_flight: usize,
    /// The requests that wait for it, the oldest first.
    pub pending: Vec<PendingRequest>,
}

/// What is known of one model.
pub struct ModelView {
    pub in_flight: usize,
    pub pending: Seq<PendingRequest>,
}

impl View for ModelState {
    type V = ModelView;

    open spec fn view(&self) -> ModelView {
        ModelView { in_flight: self.in_flight, pending: self.pending@ }
    }
}

/// What a switcher knows.
pub struct SwitcherView {
    pub state: StateView,
    pub models: Map<Seq<char>, ModelView>,
}

/// Keeps track of which model is awake, which requests wait and which are being served.
pub struct ModelSwitcher {
    state: SwitcherState,
    models: NameMap<ModelState>,
}

/// The views of the values of a map.
pub open spec fn model_views(models: Map<Seq<char>, ModelState>) -> Map<Seq<char>, ModelView> {
    models.map_values(|m: ModelState| m@)
}

impl View for ModelSwitcher {
    type V = SwitcherView;

    closed spec fn view(&self) -> SwitcherView {
        SwitcherView { state: self.state@, models: model_views(self.models@) }
    }
}

/// Whether a request can be served now.
#[derive(Debug, Clone, Copy, PartialEq, Eq, Structural)]
pub enum Readiness {
    /// Its model is awake.
    Ready,
    /// It waits for its model.
    Queued,
}

/// Whether a request is being served.
#[derive(Debug)]
pub struct InFlightGuard {
    model: String,
}

impl InFlightGuard {
    /// The model that serves the request.
    pub closed spec fn model_name(self) -> Seq<char> {
        self.model@
    }
}

impl SwitcherView {
    /// What is known of a model; nothing has happened to one that is not registered.
    pub open spec fn of(self, model: Seq<char>) -> ModelView {
        if self.models.dom().contains(model) {
            self.models[model]
        } else {
            ModelView { in_flight: 0, pending: Seq::empty() }
        }
    }

    /// The same but for one model.
    pub open spec fn with_model(self, model: Seq<char>, known: ModelView) -> SwitcherView {
        SwitcherView { models: self.models.insert(model, known), ..self }
    }

    /// The same with one more request that waits for a model.
    pub open spec fn with_pending(self, model: Seq<char>, ticket: u64, now: Span) -> SwitcherView {
        self.with_model(
            model,
            ModelView {
                in_flight: self.models[model].in_flight,
                pending: self.models[model].pending.push(PendingRequest { ticket, queued_at: now }),
            },
        )
    }
}

impl ModelSwitcher {
    /// A switcher for some models, none of them awake.
    pub fn new(models: &Vec<String>) -> (switcher: ModelSwitcher)
        ensures
            switcher@.state == StateView::Idle,
            forall|n: Seq<char>|
                switcher@.models.dom().contains(n) <==> text::texts(models@).contains(n),
            forall|n: Seq<char>| #[trigger]
                switcher@.models.dom().contains(n) ==> switcher@.models[n] == (ModelView {
                    in_flight: 0,
                    pending: Seq::empty(),
                }),
    {
        let ghost names = text::texts(models@);
        let mut known: NameMap<ModelState> = NameMap::new();
        let mut i: usize = 0;
        while i < models.len()
            invariant
                i <= models.len(),
                names == text::texts(models@),
                forall|n: Seq<char>|
                    known@.dom().contains(n) <==> exists|j: int|
                        0 <= j < i && (#[trigger] names[j]) == n,
                forall|n: Seq<char>| #[trigger]
                    known@.dom().contains(n) ==> known@[n]@ == (ModelView {
                        in_flight: 0,
                        pending: Seq::empty(),
                    }),
            decreases models.len() - i,
        {
            assert(names[i as int] == models@[i as int]@);
            known.insert(models[i].as_str(), ModelState { in_flight: 0, pending: Vec::new() });
            i = i + 1;
        }
        ModelSwitcher { state: SwitcherState::Idle, models: known }
    }

    /// What the switcher is doing.
    pub fn state(&self) -> (state: &SwitcherState)
        ensures
            state@ == self@.state,
    {
        &self.state
    }

    /// The model that is awake.
    pub fn active_model(&self) -> (model: Option<&str>)
        ensures
            match model {
                Some(m) => self@.state.awake() == Some(m@),
                None => self@.state.awake() is None,
            },
    {
        match &self.state {
            SwitcherState::Active { model } => Some(model.as_str()),
            _ => None,
        }
    }

    /// Whether a model is registered.
    pub fn is_registered(&self, model: &str) -> (registered: bool)
        ensures
            registered == self@.models.dom().contains(model@),
    {
        self.models.get(model).is_some()
    }

    /// The number of requests that a model is serving.
    pub fn in_flight_count(&self, model: &str) -> (count: usize)
        ensures
            count == self@.of(model@).in_flight,
    {
        match self.models.get(model) {
            Some(known) => known.in_flight,
            None => 0,
        }
    }

    /// The number of requests that wait for a model.
    pub fn pending_count(&self, model: &str) -> (count: usize)
        ensures
            count == self@.of(model@).pending.len(),
    {
        match self.models.get(model) {
            Some(known) => known.pending.len(),
            None => 0,
        }
    }

    /// Takes a request for a model: it can be served if the model is awake, and waits otherwise.
    pub fn ensure_model_ready(&mut self, model: &str, ticket: u64, now: Span) -> (ready: Result<
        Readiness,
        SwitchError,
    >)
        ensures
            match ready {
                Err(e) => {
                    &&& !old(self)@.models.dom().contains(model@)
                    &&& e matches SwitchError::ModelNotFound(m)
                    &&& m@ == model@
                    &&& final(self)@ == old(self)@
                },
                Ok(Readiness::Ready) => {
                    &&& old(self)@.models.dom().contains(model@)
                    &&& old(self)@.state == StateView::Active(model@)
                    &&& final(self)@ == old(self)@
                },
                Ok(Readiness::Queued) => {
                    &&& old(self)@.models.dom().contains(model@)
                    &&& old(self)@.state != StateView::Active(model@)
                    &&& final(self)@ == old(self)@.with_pending(model@, ticket, now)
                },
            },
    {
        if self.models.get(model).is_none() {
            return Err(SwitchError::ModelNotFound(model.to_owned()));
        }
        if let SwitcherState::Active { model: active } = &self.state {
            if text::same_text(active.as_str(), model) {
                return Ok(Readiness::Ready);
            }
        }
        let mut known = ModelState { in_flight: 0, pending: Vec::new() };
        let _ = self.models.exchange(model, &mut known);
        known.pending.push(PendingRequest { ticket, queued_at: now });
        let _ = self.models.exchange(model, &mut known);
        proof {
            assert(self@.models =~= old(self)@.with_pending(model@, ticket, now).models);
        }
        Ok(Readiness::Queued)
    }

    /// Takes a request for the model that is to be woken at the start, if there is one.
    pub fn initialize(&mut self, config: &ModelSwitcherConfig, ticket: u64, now: Span) -> (ready:
        Result<Readiness, SwitchError>)
        ensures
            match config.initial() {
                None => ready == Ok::<Readiness, SwitchError>(Readiness::Ready) && final(self)@
                    == old(self)@,
                Some(model) => match ready {
                    Err(e) => {
                        &&& !old(self)@.models.dom().contains(model)
                        &&& e matches SwitchError::ModelNotFound(m)
                        &&& m@ == model
                        &&& final(self)@ == old(self)@
                    },
                    Ok(Readiness::Ready) => {
                        &&& old(self)@.models.dom().contains(model)
                        &&& old(self)@.state == StateView::Active(model)
                        &&& final(self)@ == old(self)@
                    },
                    Ok(Readiness::Queued) => {
                        &&& old(self)@.models.dom().contains(model)
                        &&& old(self)@.state != StateView::Active(model)
                        &&& final(self)@ == old(self)@.with_pending(model, ticket, now)
                    },
                },
            },
    {
        match config.model_to_wake() {
            Some(model) => self.ensure_model_ready(model, ticket, now),
            None => Ok(Readiness::Ready),
        }
    }

    /// Notes that a model begins to serve a request.
    pub fn acquire_in_flight(&mut self, model: &str) -> (guard: Option<InFlightGuard>)
        requires
            old(self)@.of(model@).in_flight < usize::MAX,
        ensures
            match guard {
                Some(g) => {
                    &&& old(self)@.models.dom().contains(model@)
                    &&& g.model_name() == model@
                    &&& final(self)@ == old(self)@.with_model(
                        model@,
                        ModelView {
                            in_flight: (old(self)@.models[model@].in_flight + 1) as usize,
                            pending: old(self)@.models[model@].pending,
                        },
                    )
                },
                None => !old(self)@.models.dom().contains(model@) && final(self)@ == old(self)@,
            },
    {
        let mut known = ModelState { in_flight: 0, pending: Vec::new() };
        if self.models.exchange(model, &mut known) {
            known.in_flight = known.in_flight + 1;
            let _ = self.models.exchange(model, &mut known);
            proof {
                assert(self@.models =~= old(self)@.with_model(
                    model@,
                    ModelView {
                        in_flight: (old(self)@.models[model@].in_flight + 1) as usize,
                        pending: old(self)@.models[model@].pending,
                    },
                ).models);
            }
            Some(InFlightGuard { model: model.to_owned() })
        } else {
            None
        }
    }

    /// Notes that a request has been served, and tells whether its model now serves none.
    pub fn release_in_flight(&mut self, guard: InFlightGuard) -> (last: bool)
        requires
            old(self)@.models.dom().contains(guard.model_name()),
            old(self)@.models[guard.model_name()].in_flight > 0,
        ensures
            final(self)@ == old(self)@.with_model(
                guard.model_name(),
                ModelView {
                    in_flight: (old(self)@.models[guard.model_name()].in_flight - 1) as usize,
                    pending: old(self)@.models[guard.model_name()].pending,
                },
            ),
            last == (old(self)@.models[guard.model_name()].in_flight == 1),
    {
        let ghost name = guard.model_name();
        let mut known = ModelState { in_flight: 0, pending: Vec::new() };
        let _ = self.models.exchange(guard.model.as_str(), &mut known);
        let last = known.in_flight == 1;
        known.in_flight = known.in_flight - 1;
        let _ = self.models.exchange(guard.model.as_str(), &mut known);
        proof {
            assert(self@.models =~= old(self)@.with_model(
                name,
                ModelView {
                    in_flight: (old(self)@.models[name].in_flight - 1) as usize,
                    pending: old(self)@.models[name].pending,
                },
            ).models);
        }
        last
    }
}

/// Once a request has been served, what is known of every model is as it was before it began.
pub proof fn law_release_undoes_acquire(before: SwitcherView, model: Seq<char>)
    requires
        before.models.dom().contains(model),
        before.models[model].in_flight < usize::MAX,
    ensures
        ({
            let during = before.with_model(
                model,
                ModelView {
                    in_flight: (before.models[model].in_flight + 1) as usize,
                    pending: before.models[model].pending,
                },
            );
            during.with_model(
                model,
                ModelView {
                    in_flight: (during.models[model].in_flight - 1) as usize,
                    pending: during.models[model].pending,
                },
            ) == before
        }),
{
    let during = before.with_model(
        model,
        ModelView {
            in_flight: (before.models[model].in_flight + 1) as usize,
            pending: before.models[model].pending,
        },
    );
    let after = during.with_model(
        model,
        ModelView {
            in_flight: (during.models[model].in_flight - 1) as usize,
            pending: during.models[model].pending,
        },
    );
    assert(after.models =~= before.models);
}

// ---------------------------------------------------------------------------
// Whether to switch
// ---------------------------------------------------------------------------

/// What follows from a request that waits.
#[derive(Debug, Clone, Copy, PartialEq, Eq, Structural)]
pub enum Trigger {
    /// Nothing: the switch is under way, or there is no such model.
    Nothing,
    /// The model is switched at once.
    SwitchNow,
    /// The model is switched once some time has passed.
    SwitchAfter(Span),
}

impl SwitcherView {
    /// Whether a policy is asked about a request that waits for a model.
    pub open spec fn asks_policy(self, model: Seq<char>) -> bool {
        &&& self.models.dom().contains(model)
        &&& !(self.state matches StateView::Switching(_, to) && to == model)
    }

    /// How long the oldest request has waited for a model.
    pub open spec fn oldest_wait(self, model: Seq<char>, now: Span) -> Span {
        let pending = self.of(model).pending;
        if pending.len() > 0 && now.nanos > pending[0].queued_at.nanos {
            Span { nanos: (now.nanos - pending[0].queued_at.nanos) as u128 }
        } else {
            Span { nanos: 0 }
        }
    }

    /// Whether a policy is told what is the case.
    pub open spec fn described_by(self, ctx: PolicyContext, model: Seq<char>, now: Span) -> bool {
        &&& ctx.target_model@ == model
        &&& text::optional(ctx.active_model) == self.state.awake()
        &&& ctx.target_queue_depth == self.of(model).pending.len()
        &&& ctx.oldest_waiting == self.oldest_wait(model, now)
        &&& ctx.active_in_flight == match self.state.awake() {
            Some(active) => self.of(active).in_flight,
            None => 0,
        }
    }
}

/// What follows from a decision of a policy.
pub open spec fn trigger_for(decision: PolicyDecision) -> Trigger {
    match decision {
        PolicyDecision::SwitchNow => Trigger::SwitchNow,
        PolicyDecision::Defer(span) => Trigger::SwitchAfter(span),
    }
}

/// What follows from a decision of a policy.
pub fn follow(decision: PolicyDecision) -> (trigger: Trigger)
    ensures
        trigger == trigger_for(decision),
{
    match decision {
        PolicyDecision::SwitchNow => Trigger::SwitchNow,
        PolicyDecision::Defer(span) => Trigger::SwitchAfter(span),
    }
}

impl ModelSwitcher {
    /// What a policy is told about a request that waits for a model; nothing if it is not asked.
    pub fn policy_context(&self, model: &str, now: Span) -> (ctx: Option<PolicyContext>)
        ensures
            match ctx {
                Some(c) => self@.asks_policy(model@) && self@.described_by(c, model@, now),
                None => !self@.asks_policy(model@),
            },
    {
        let known = match self.models.get(model) {
            Some(known) => known,
            None => {
                return None;
            },
        };
        if let SwitcherState::Switching { from: _, to } = &self.state {
            if text::same_text(to.as_str(), model) {
                return None;
            }
        }
        let oldest_waiting = if known.pending.len() > 0 {
            now.saturating_sub(known.pending[0].queued_at)
        } else {
            Span::zero()
        };
        let (active_model, active_in_flight) = match &self.state {
            SwitcherState::Active { model: active } => (
                Some(active.clone()),
                self.in_flight_count(active.as_str()),
            ),
            _ => (None, 0),
        };
        Some(
            PolicyContext {
                target_model: model.to_owned(),
                active_model,
                target_queue_depth: known.pending.len(),
                oldest_waiting,
                active_in_flight,
            },
        )
    }

    /// Asks a policy about a request that waits for a model, and follows its decision. The policy
    /// is asked unless there is no such model or a switch to it is under way.
    pub fn maybe_trigger_switch<P: SwitchPolicy>(&self, policy: &P, model: &str, now: Span) -> (trigger:
        Trigger)
        ensures
            trigger == Trigger::Nothing <==> !self@.asks_policy(model@),
            self@.asks_policy(model@) ==> exists|ctx: &PolicyContext, decision: PolicyDecision|
                {
                    &&& self@.described_by(*ctx, model@, now)
                    &&& #[trigger] call_ensures(P::on_pending_request, (policy, ctx), decision)
                    &&& trigger == trigger_for(decision)
                },
    {
        match self.policy_context(model, now) {
            Some(ctx) => {
                let told = &ctx;
                let decision = policy.on_pending_request(told);
                assert(call_ensures(P::on_pending_request, (policy, told), decision));
                follow(decision)
            },
            None => Trigger::Nothing,
        }
    }
}

// ---------------------------------------------------------------------------
// A switch
// ---------------------------------------------------------------------------

/// How often a model that was woken is asked whether it is ready.
pub const READY_ATTEMPTS: u32 = 10;

/// How a switch ended.
#[derive(Debug)]
pub enum SwitchOutcome {
    /// The model is awake.
    Woken,
    /// The model was woken and did not become ready.
    NotReady,
    /// The model could not be woken, for a reason.
    WakeFailed(String),
}

/// How a switch ended.
pub enum OutcomeView {
    Woken,
    NotReady,
    WakeFailed(Seq<char>),
}

impl View for SwitchOutcome {
    type V = OutcomeView;

    open spec fn view(&self) -> OutcomeView {
        match self {
            SwitchOutcome::Woken => OutcomeView::Woken,
            SwitchOutcome::NotReady => OutcomeView::NotReady,
            SwitchOutcome::WakeFailed(reason) => OutcomeView::WakeFailed(reason@),
        }
    }
}

/// How far a switch has come.
#[derive(Debug)]
pub enum SwitchPhase {
    /// Requests to the model that is awake are being finished.
    Draining,
    /// The model that was awake is being put to sleep.
    Sleeping,
    /// The other model is being woken.
    Waking,
    /// It is being asked for the n-th time whether it is ready, counted from zero.
    Probing(u32),
    /// It was not ready, and time passes before it is asked again.
    Pausing(u32),
    /// The switch has ended.
    Finished(SwitchOutcome),
}

/// How far a switch has come.
pub enum PhaseView {
    Draining,
    Sleeping,
    Waking,
    Probing(u32),
    Pausing(u32),
    Finished(OutcomeView),
}

impl View for SwitchPhase {
    type V = PhaseView;

    open spec fn view(&self) -> PhaseView {
        match self {
            SwitchPhase::Draining => PhaseView::Draining,
            SwitchPhase::Sleeping => PhaseView::Sleeping,
            SwitchPhase::Waking => PhaseView::Waking,
            SwitchPhase::Probing(n) => PhaseView::Probing(*n),
            SwitchPhase::Pausing(n) => PhaseView::Pausing(*n),
            SwitchPhase::Finished(outcome) => PhaseView::Finished(outcome@),
        }
    }
}

/// What is to be done next for a switch.
#[derive(Debug, Clone, Copy, PartialEq, Eq, Structural)]
pub enum SwitchAction {
    /// Waiting until the model that is awake serves no request.
    WaitForInFlight,
    /// Putting that model to sleep.
    Sleep(SleepLevel),
    /// Waking the other model.
    Wake,
    /// Asking it whether it is ready.
    CheckReady,
    /// Letting time pass.
    Wait(Span),
    /// Nothing.
    Nothing,
}

/// What came of what was to be done.
#[derive(Debug)]
pub enum SwitchEvent {
    /// The model serves no request.
    Drained,
    /// The model was put to sleep, or could not be; the switch goes on either way.
    Slept,
    /// The model was woken.
    Woken,
    /// The model could not be woken, for a reason.
    WakeFailed(String),
    /// Whether the model is ready.
    Ready(bool),
    /// Time has passed.
    Waited,
}

/// What came of what was to be done.
pub enum EventView {
    Drained,
    Slept,
    Woken,
    WakeFailed(Seq<char>),
    Ready(bool),
    Waited,
}

impl View for SwitchEvent {
    type V = EventView;

    open spec fn view(&self) -> EventView {
        match self {
            SwitchEvent::Drained => EventView::Drained,
            SwitchEvent::Slept => EventView::Slept,
            SwitchEvent::Woken => EventView::Woken,
            SwitchEvent::WakeFailed(reason) => EventView::WakeFailed(reason@),
            SwitchEvent::Ready(ready) => EventView::Ready(*ready),
            SwitchEvent::Waited => EventView::Waited,
        }
    }
}

/// How long passes after the n-th time, counted from zero, that a model was not ready.
pub open spec fn pause_after(n: u32) -> Span {
    Span::millis((100 * (n + 1)) as u64)
}

impl PhaseView {
    /// The phase that follows an event. An event that does not belong to the phase changes
    /// nothing.
    pub open spec fn after(self, event: EventView) -> PhaseView {
        match (self, event) {
            (PhaseView::Draining, EventView::Drained) => PhaseView::Sleeping,
            (PhaseView::Sleeping, EventView::Slept) => PhaseView::Waking,
            (PhaseView::Waking, EventView::Woken) => PhaseView::Probing(0),
            (PhaseView::Waking, EventView::WakeFailed(reason)) => PhaseView::Finished(
                OutcomeView::WakeFailed(reason),
            ),
            (PhaseView::Probing(n), EventView::Ready(true)) => PhaseView::Finished(
                OutcomeView::Woken,
            ),
            (PhaseView::Probing(n), EventView::Ready(false)) => PhaseView::Pausing(n),
            (PhaseView::Pausing(n), EventView::Waited) => if n + 1 < READY_ATTEMPTS {
                PhaseView::Probing((n + 1) as u32)
            } else {
                PhaseView::Finished(OutcomeView::NotReady)
            },
            _ => self,
        }
    }

    /// What is to be done in a phase.
    pub open spec fn action(self, level: SleepLevel) -> SwitchAction {
        match self {
            PhaseView::Draining => SwitchAction::WaitForInFlight,
            PhaseView::Sleeping => SwitchAction::Sleep(level),
            PhaseView::Waking => SwitchAction::Wake,
            PhaseView::Probing(_) => SwitchAction::CheckReady,
            PhaseView::Pausing(n) => SwitchAction::Wait(pause_after(n)),
            PhaseView::Finished(_) => SwitchAction::Nothing,
        }
    }

    /// Whether the phase is one that a switch can be in.
    pub open spec fn possible(self) -> bool {
        match self {
            PhaseView::Probing(n) => n < READY_ATTEMPTS,
            PhaseView::Pausing(n) => n < READY_ATTEMPTS,
            _ => true,
        }
    }

    /// The most steps until the switch has ended.
    pub open spec fn steps_left(self) -> nat {
        match self {
            PhaseView::Draining => (2 * READY_ATTEMPTS + 3) as nat,
            PhaseView::Sleeping => (2 * READY_ATTEMPTS + 2) as nat,
            PhaseView::Waking => (2 * READY_ATTEMPTS + 1) as nat,
            PhaseView::Probing(n) => (2 * (READY_ATTEMPTS - n)) as nat,
            PhaseView::Pausing(n) => (2 * (READY_ATTEMPTS - n) - 1) as nat,
            PhaseView::Finished(_) => 0,
        }
    }
}

/// Every event that belongs to its phase brings the end of a switch nearer, and a switch only
/// gets into phases that are possible.
pub proof fn law_switch_ends(phase: PhaseView, event: EventView)
    requires
        phase.possible(),
    ensures
        phase.after(event).possible(),
        phase.after(event) != phase ==> phase.after(event).steps_left() < phase.steps_left(),
        phase.steps_left() == 0 <==> phase is Finished,
{
}

/// A switch succeeds only if the model was woken and said that it was ready.
pub proof fn law_success_needs_readiness(phase: PhaseView, event: EventView)
    requires
        !(phase is Finished),
        phase.after(event) == PhaseView::Finished(OutcomeView::Woken),
    ensures
        phase is Probing,
        event == EventView::Ready(true),
{
}

/// A model is put to sleep only once it serves no request, where requests are finished first, and
/// the other is woken only once that one was put to sleep.
pub proof fn law_order_of_a_switch(from: Seq<char>, phase: PhaseView, event: EventView)
    ensures
        first_phase(Some(from), true, true) == PhaseView::Draining,
        phase != PhaseView::Sleeping && phase.after(event) == PhaseView::Sleeping ==> phase
            == PhaseView::Draining && event == EventView::Drained,
        phase != PhaseView::Waking && phase.after(event) == PhaseView::Waking ==> phase
            == PhaseView::Sleeping && event == EventView::Slept,
        phase.after(event) is Probing && !(phase is Probing) ==> (phase == PhaseView::Waking && event
            == EventView::Woken) || (phase is Pausing && event == EventView::Waited),
{
}

/// The milliseconds that pass, in all, before the n-th time that a model is asked.
pub open spec fn total_pause(n: nat) -> nat
    decreases n,
{
    if n == 0 {
        0
    } else {
        total_pause((n - 1) as nat) + 100 * n
    }
}

/// A model that never says it is ready is waited for five and a half seconds.
pub proof fn law_longest_wait()
    ensures
        total_pause(READY_ATTEMPTS as nat) == 5500,
{
    reveal_with_fuel(total_pause, 11);
}

/// A switch under way.
#[derive(Debug)]
pub struct SwitchRun {
    from: Option<String>,
    to: String,
    level: SleepLevel,
    phase: SwitchPhase,
}

impl SwitchRun {
    /// The model that was awake.
    pub closed spec fn leaves(self) -> Option<Seq<char>> {
        text::optional(self.from)
    }

    /// The model that is woken.
    pub closed spec fn wakes(self) -> Seq<char> {
        self.to@
    }

    /// How deeply the model that was awake is put to sleep.
    pub closed spec fn depth(self) -> SleepLevel {
        self.level
    }

    /// How far the switch has come.
    pub closed spec fn now_in(self) -> PhaseView {
        self.phase@
    }

    /// The model that was awake.
    pub fn from_model(&self) -> (model: Option<&str>)
        ensures
            match model {
                Some(m) => self.leaves() == Some(m@),
                None => self.leaves() is None,
            },
    {
        match &self.from {
            Some(model) => Some(model.as_str()),
            None => None,
        }
    }

    /// The model that is woken.
    pub fn to_model(&self) -> (model: &str)
        ensures
            model@ == self.wakes(),
    {
        self.to.as_str()
    }

    /// What is to be done next.
    pub fn action(&self) -> (action: SwitchAction)
        requires
            self.now_in().possible(),
        ensures
            action == self.now_in().action(self.depth()),
    {
        match self.phase {
            SwitchPhase::Draining => SwitchAction::WaitForInFlight,
            SwitchPhase::Sleeping => SwitchAction::Sleep(self.level),
            SwitchPhase::Waking => SwitchAction::Wake,
            SwitchPhase::Probing(_) => SwitchAction::CheckReady,
            SwitchPhase::Pausing(n) => SwitchAction::Wait(Span::from_millis(100 * (n as u64 + 1))),
            SwitchPhase::Finished(_) => SwitchAction::Nothing,
        }
    }

    /// Takes note of what came of it.
    pub fn step(&mut self, event: SwitchEvent)
        requires
            old(self).now_in().possible(),
        ensures
            final(self).now_in() == old(self).now_in().after(event@),
            final(self).now_in().possible(),
            final(self).leaves() == old(self).leaves(),
            final(self).wakes() == old(self).wakes(),
            final(self).depth() == old(self).depth(),
    {
        let next = match (&self.phase, event) {
            (SwitchPhase::Draining, SwitchEvent::Drained) => Some(SwitchPhase::Sleeping),
            (SwitchPhase::Sleeping, SwitchEvent::Slept) => Some(SwitchPhase::Waking),
            (SwitchPhase::Waking, SwitchEvent::Woken) => Some(SwitchPhase::Probing(0)),
            (SwitchPhase::Waking, SwitchEvent::WakeFailed(reason)) => Some(
                SwitchPhase::Finished(SwitchOutcome::WakeFailed(reason)),
            ),
            (SwitchPhase::Probing(n), SwitchEvent::Ready(ready)) => if ready {
                Some(SwitchPhase::Finished(SwitchOutcome::Woken))
            } else {
                Some(SwitchPhase::Pausing(*n))
            },
            (SwitchPhase::Pausing(n), SwitchEvent::Waited) => if *n + 1 < READY_ATTEMPTS {
                Some(SwitchPhase::Probing(*n + 1))
            } else {
                Some(SwitchPhase::Finished(SwitchOutcome::NotReady))
            },
            _ => None,
        };
        if let Some(phase) = next {
            self.phase = phase;
        }
    }
}

/// The requests that have waited for a model, and what they are told.
#[derive(Debug)]
pub struct Notice {
    pub tickets: Vec<u64>,
    pub outcome: SwitchOutcome,
}

/// The tickets of requests, in order.
pub open spec fn tickets(pending: Seq<PendingRequest>) -> Seq<u64> {
    pending.map_values(|p: PendingRequest| p.ticket)
}

/// What each request is told: that its model is ready, or why it is not.
pub open spec fn notice_error(outcome: OutcomeView, model: Seq<char>) -> Option<Seq<char>> {
    match outcome {
        OutcomeView::Woken => None,
        OutcomeView::NotReady => Some("model '"@ + model + "' is not ready"@),
        OutcomeView::WakeFailed(reason) => Some(reason),
    }
}

impl Notice {
    /// What each request is told.
    pub fn result_for(&self, model: &str) -> (result: Result<(), SwitchError>)
        ensures
            match result {
                Ok(_) => notice_error(self.outcome@, model@) is None,
                Err(e) => e matches SwitchError::Internal(reason) && notice_error(
                    self.outcome@,
                    model@,
                ) == Some(reason@),
            },
    {
        match &self.outcome {
            SwitchOutcome::Woken => Ok(()),
            SwitchOutcome::NotReady => Err(
                SwitchError::Internal(SwitchError::NotReady(model.to_owned()).message()),
            ),
            SwitchOutcome::WakeFailed(reason) => Err(SwitchError::Internal(reason.clone())),
        }
    }
}

/// How the waiting of a request ended.
#[derive(Debug)]
pub enum Waited {
    /// It was told what became of the switch.
    Told(Result<(), SwitchError>),
    /// The switcher is gone.
    Closed,
    /// It waited too long.
    TimedOut,
}

/// What a request that has waited is answered.
pub fn wait_result(waited: Waited) -> (result: Result<(), SwitchError>)
    ensures
        match waited {
            Waited::Told(told) => result == told,
            Waited::Closed => result matches Err(SwitchError::Internal(reason)) && reason@
                == "switcher shutdown"@,
            Waited::TimedOut => result matches Err(SwitchError::Timeout),
        },
{
    match waited {
        Waited::Told(told) => told,
        Waited::Closed => Err(SwitchError::Internal("switcher shutdown".to_owned())),
        Waited::TimedOut => Err(SwitchError::Timeout),
    }
}

/// What comes of the attempt to begin a switch.
pub enum SwitchStart {
    /// The model is awake already; those who waited for it are told.
    AlreadyActive(Notice),
    /// A switch to the model is under way.
    AlreadySwitching,
    /// The switch has begun.
    Started(SwitchRun),
}

/// The phase in which a switch begins.
pub open spec fn first_phase(from: Option<Seq<char>>, registered: bool, drain: bool) -> PhaseView {
    match from {
        Some(_) => if registered && drain {
            PhaseView::Draining
        } else {
            PhaseView::Sleeping
        },
        None => PhaseView::Waking,
    }
}

impl SwitcherView {
    /// The same with nobody waiting for a model.
    pub open spec fn without_pending(self, model: Seq<char>) -> SwitcherView {
        if self.models.dom().contains(model) {
            self.with_model(
                model,
                ModelView { in_flight: self.models[model].in_flight, pending: Seq::empty() },
            )
        } else {
            self
        }
    }
}

impl ModelSwitcher {
    /// Ends the waiting for a model.
    fn take_pending(&mut self, model: &str) -> (waited: Vec<u64>)
        ensures
            waited@ == tickets(old(self)@.of(model@).pending),
            final(self)@ == old(self)@.without_pending(model@),
            final(self).state == old(self).state,
    {
        let mut known = ModelState { in_flight: 0, pending: Vec::new() };
        let mut waited: Vec<u64> = Vec::new();
        if self.models.exchange(model, &mut known) {
            let ghost pending = known.pending@;
            let mut i: usize = 0;
            while i < known.pending.len()
                invariant
                    i <= known.pending.len(),
                    known.pending@ == pending,
                    waited@ == tickets(pending).take(i as int),
                decreases known.pending.len() - i,
            {
                waited.push(known.pending[i].ticket);
                i = i + 1;
            }
            assert(tickets(pending).take(pending.len() as int) == tickets(pending));
            known.pending = Vec::new();
            let _ = self.models.exchange(model, &mut known);
        } else {
            assert(tickets(Seq::empty()) =~= Seq::<u64>::empty());
        }
        proof {
            assert(self@.models =~= old(self)@.without_pending(model@).models);
        }
        waited
    }

    /// Begins a switch to a model, unless it is awake or a switch to it is under way.
    pub fn begin_switch(&mut self, target: &str, drain: bool, level: SleepLevel) -> (start:
        SwitchStart)
        ensures
            match start {
                SwitchStart::AlreadyActive(notice) => {
                    &&& old(self)@.state == StateView::Active(target@)
                    &&& notice.outcome@ == OutcomeView::Woken
                    &&& notice.tickets@ == tickets(old(self)@.of(target@).pending)
                    &&& final(self)@ == old(self)@.without_pending(target@)
                },
                SwitchStart::AlreadySwitching => {
                    &&& old(self)@.state matches StateView::Switching(_, to)
                    &&& to == target@
                    &&& final(self)@ == old(self)@
                },
                SwitchStart::Started(run) => {
                    let from = old(self)@.state.awake();
                    &&& old(self)@.state != StateView::Active(target@)
                    &&& !(old(self)@.state matches StateView::Switching(_, to) && to == target@)
                    &&& final(self)@ == (SwitcherView {
                        state: StateView::Switching(from, target@),
                        ..old(self)@
                    })
                    &&& run.leaves() == from
                    &&& run.wakes() == target@
                    &&& run.depth() == level
                    &&& run.now_in() == first_phase(
                        from,
                        from matches Some(f) && old(self)@.models.dom().contains(f),
                        drain,
                    )
                    &&& run.now_in().possible()
                },
            },
    {
        let from: Option<String> = match &self.state {
            SwitcherState::Active { model } => {
                if text::same_text(model.as_str(), target) {
                    let waited = self.take_pending(target);
                    return SwitchStart::AlreadyActive(
                        Notice { tickets: waited, outcome: SwitchOutcome::Woken },
                    );
                }
                Some(model.clone())
            },
            SwitcherState::Switching { from: _, to } => {
                if text::same_text(to.as_str(), target) {
                    return SwitchStart::AlreadySwitching;
                }
                None
            },
            SwitcherState::Idle => None,
        };
        let phase = match &from {
            Some(model) => if drain && self.models.get(model.as_str()).is_some() {
                SwitchPhase::Draining
            } else {
                SwitchPhase::Sleeping
            },
            None => SwitchPhase::Waking,
        };
        let kept = match &from {
            Some(model) => Some(model.clone()),
            None => None,
        };
        self.state = SwitcherState::Switching { from: kept, to: target.to_owned() };
        SwitchStart::Started(SwitchRun { from, to: target.to_owned(), level, phase })
    }

    /// Ends a switch: the model is awake if it was woken, and otherwise none is; those who waited
    /// for it are told.
    pub fn finish_switch(&mut self, run: SwitchRun) -> (notice: Option<Notice>)
        ensures
            match notice {
                Some(n) => {
                    &&& run.now_in() == PhaseView::Finished(n.outcome@)
                    &&& n.tickets@ == tickets(old(self)@.of(run.wakes()).pending)
                    &&& final(self)@ == (SwitcherView {
                        state: if n.outcome@ == OutcomeView::Woken {
                            StateView::Active(run.wakes())
                        } else {
                            StateView::Idle
                        },
                        ..old(self)@.without_pending(run.wakes())
                    })
                },
                None => !(run.now_in() is Finished) && final(self)@ == old(self)@,
            },
    {
        match run.phase {
            SwitchPhase::Finished(outcome) => {
                let waited = self.take_pending(run.to.as_str());
                match &outcome {
                    SwitchOutcome::Woken => {
                        self.state = SwitcherState::Active { model: run.to };
                    },
                    _ => {
                        self.state = SwitcherState::Idle;
                    },
                }
                Some(Notice { tickets: waited, outcome })
            },
            _ => None,
        }
    }

    /// Whether a model serves no request.
    pub fn is_drained(&self, model: &str) -> (drained: bool)
        ensures
            drained == (self@.of(model@).in_flight == 0),
    {
        self.in_flight_count(model) == 0
    }
}

/// Ending the waiting for a model leaves the requests that wait for others, and all that are being
/// served, as they were.
pub proof fn law_only_the_queue_is_emptied(before: SwitcherView, model: Seq<char>, other: Seq<char>)
    ensures
        before.without_pending(model).of(model).pending.len() == 0,
        before.without_pending(model).of(other).in_flight == before.of(other).in_flight,
        other != model ==> before.without_pending(model).of(other) == before.of(other),
        before.without_pending(model).models.dom() == before.models.dom(),
{
    assert(before.without_pending(model).models.dom() =~= before.models.dom());
}

/// A request that waits is among those that are told how the switch to its model ended, together
/// with all that waited before it, in their order; none of them waits any longer.
pub proof fn law_waiting_requests_are_told(
    before: SwitcherView,
    model: Seq<char>,
    ticket: u64,
    now: Span,
)
    requires
        before.models.dom().contains(model),
    ensures
        tickets(before.with_pending(model, ticket, now).of(model).pending) == tickets(
            before.of(model).pending,
        ).push(ticket),
        before.with_pending(model, ticket, now).without_pending(model).of(model).pending.len() == 0,
        before.with_pending(model, ticket, now).of(model).in_flight == before.of(model).in_flight,
{
    assert(tickets(before.with_pending(model, ticket, now).of(model).pending) =~= tickets(
        before.of(model).pending,
    ).push(ticket));
}

// ---------------------------------------------------------------------------
// What the switcher does when
// ---------------------------------------------------------------------------

/// A model is woken at the start exactly when one is named and it is to be woken then.
pub proof fn law_initial_model(config: ModelSwitcherConfig)
    ensures
        !config.wake_on_init ==> config.initial() is None,
        config.wake_on_init ==> config.initial() == text::optional(config.initial_model),
{
}

/// A model is awake exactly while no switch is under way and one was made.
pub proof fn law_awake_model(state: StateView, model: Seq<char>)
    ensures
        state.awake() == Some(model) <==> state == StateView::Active(model),
{
}

/// A request that has to wait joins the end of the queue of its model, with the time at which it came;
/// the other models, the requests under way and the state are as before.
pub proof fn law_a_request_joins_the_queue(
    before: SwitcherView,
    model: Seq<char>,
    other: Seq<char>,
    ticket: u64,
    now: Span,
)
    requires
        before.models.dom().contains(model),
    ensures
        ({
            let after = before.with_pending(model, ticket, now);
            let queue = before.of(model).pending;
            &&& after.of(model).pending.len() == queue.len() + 1
            &&& after.of(model).pending.last() == (PendingRequest { ticket, queued_at: now })
            &&& forall|i: int| 0 <= i < queue.len() ==> after.of(model).pending[i] == queue[i]
            &&& after.of(model).in_flight == before.of(model).in_flight
            &&& other != model ==> after.of(other) == before.of(other)
            &&& after.state == before.state
        }),
{
}

/// What is known of one model can be changed without touching what is known of another; of a model that
/// was never heard of nothing is under way and nothing waits.
pub proof fn law_models_are_apart(
    before: SwitcherView,
    model: Seq<char>,
    other: Seq<char>,
    known: ModelView,
)
    ensures
        before.with_model(model, known).of(model) == known,
        other != model ==> before.with_model(model, known).of(other) == before.of(other),
        before.with_model(model, known).state == before.state,
        !before.models.dom().contains(model) ==> before.of(model).in_flight == 0 && before.of(
            model,
        ).pending.len() == 0,
        before.models.dom().contains(model) ==> before.of(model) == before.models[model],
{
}

/// The policy is asked about a model exactly when the switcher knows it and is not switching to it
/// already.
pub proof fn law_when_the_policy_is_asked(
    view: SwitcherView,
    model: Seq<char>,
    other: Seq<char>,
    from: Option<Seq<char>>,
)
    ensures
        view.asks_policy(model) ==> view.models.dom().contains(model),
        view.state == StateView::Switching(from, model) ==> !view.asks_policy(model),
        view.models.dom().contains(model) && !(view.state is Switching) ==> view.asks_policy(model),
        view.models.dom().contains(model) && view.state == StateView::Switching(from, other) && other
            != model ==> view.asks_policy(model),
{
}

/// How long a model is waited for is the time since the first request in its queue came; nothing, if
/// none waits.
pub proof fn law_oldest_wait(view: SwitcherView, model: Seq<char>, now: Span)
    ensures
        view.of(model).pending.len() == 0 ==> view.oldest_wait(model, now).nanos == 0,
        view.of(model).pending.len() > 0 ==> {
            let came = view.of(model).pending.first().queued_at;
            &&& now.nanos >= came.nanos ==> came.nanos + view.oldest_wait(model, now).nanos == now.nanos
            &&& now.nanos < came.nanos ==> view.oldest_wait(model, now).nanos == 0
        },
{
}

/// The policy is told of the model that is asked for, how many wait for it and since when, and of the
/// model that is awake and how many requests it serves.
pub proof fn law_what_the_policy_is_told(
    view: SwitcherView,
    ctx: PolicyContext,
    model: Seq<char>,
    now: Span,
)
    requires
        view.described_by(ctx, model, now),
    ensures
        ctx.target_model@ == model,
        ctx.target_queue_depth == view.of(model).pending.len(),
        ctx.oldest_waiting == view.oldest_wait(model, now),
        text::optional(ctx.active_model) == view.state.awake(),
        view.state.awake() matches Some(active) ==> ctx.active_in_flight == view.of(active).in_flight,
        view.state.awake() is None ==> ctx.active_in_flight == 0,
{
}

/// A decision of the policy is carried out as it is: at once, or after the time that it names.
pub proof fn law_decisions_are_carried_out(span: Span)
    ensures
        trigger_for(PolicyDecision::SwitchNow) == Trigger::SwitchNow,
        trigger_for(PolicyDecision::Defer(span)) == Trigger::SwitchAfter(span),
{
}

/// A switch leaves the model that is awake, if there is one: its requests are waited for first where the
/// switcher knows it and the policy wants that, and then it is put to sleep. Then the other is woken.
pub proof fn law_how_a_switch_begins(from: Seq<char>, registered: bool, drain: bool)
    ensures
        first_phase(None, registered, drain) == PhaseView::Waking,
        registered && drain ==> first_phase(Some(from), registered, drain) == PhaseView::Draining,
        !registered || !drain ==> first_phase(Some(from), registered, drain) == PhaseView::Sleeping,
{
}

/// A switch goes on when what it waits for has happened, and only then: requests are finished, the old
/// model sleeps, the new one is woken. A waking that fails ends it.
pub proof fn law_a_switch_goes_on(event: EventView, reason: Seq<char>)
    ensures
        PhaseView::Draining.after(EventView::Drained) == PhaseView::Sleeping,
        event != EventView::Drained ==> PhaseView::Draining.after(event) == PhaseView::Draining,
        PhaseView::Sleeping.after(EventView::Slept) == PhaseView::Waking,
        event != EventView::Slept ==> PhaseView::Sleeping.after(event) == PhaseView::Sleeping,
        PhaseView::Waking.after(EventView::Woken) == PhaseView::Probing(0),
        PhaseView::Waking.after(EventView::WakeFailed(reason)) == PhaseView::Finished(
            OutcomeView::WakeFailed(reason),
        ),
        event != EventView::Woken && !(event is WakeFailed) ==> PhaseView::Waking.after(event)
            == PhaseView::Waking,
{
}

/// A model that was woken is asked up to ten times whether it is ready, with longer and longer pauses
/// after each time that it is not: a tenth of a second more each time. The first yes makes the switch a
/// success; after ten times no it is given up.
pub proof fn law_a_model_is_asked_ten_times(n: u32, level: SleepLevel)
    requires
        n < 10,
    ensures
        PhaseView::Probing(n).action(level) == SwitchAction::CheckReady,
        PhaseView::Probing(n).after(EventView::Ready(true)) == PhaseView::Finished(OutcomeView::Woken),
        PhaseView::Probing(n).after(EventView::Ready(false)) == PhaseView::Pausing(n),
        PhaseView::Pausing(n).action(level) matches SwitchAction::Wait(pause) && pause.nanos
            == 100_000_000 * (n + 1),
        n < 9 ==> PhaseView::Pausing(n).after(EventView::Waited) == PhaseView::Probing((n + 1) as u32),
        n == 9 ==> PhaseView::Pausing(n).after(EventView::Waited) == PhaseView::Finished(
            OutcomeView::NotReady,
        ),
{
}

/// What is done at each step of a switch; nothing is done once it has ended, and nothing changes then.
pub proof fn law_what_a_switch_does(level: SleepLevel, outcome: OutcomeView, event: EventView)
    ensures
        PhaseView::Draining.action(level) == SwitchAction::WaitForInFlight,
        PhaseView::Sleeping.action(level) == SwitchAction::Sleep(level),
        PhaseView::Waking.action(level) == SwitchAction::Wake,
        PhaseView::Finished(outcome).action(level) == SwitchAction::Nothing,
        PhaseView::Finished(outcome).after(event) == PhaseView::Finished(outcome),
{
}

/// Requests that waited are told nothing bad where their model is awake, and otherwise why it is not.
pub proof fn law_what_waiting_requests_are_told(model: Seq<char>, reason: Seq<char>)
    ensures
        notice_error(OutcomeView::Woken, model) is None,
        notice_error(OutcomeView::NotReady, model) matches Some(told) && text::occurs_in(model, told),
        notice_error(OutcomeView::WakeFailed(reason), model) == Some(reason),
{
    text::lemma_part_occurs("model '"@, model, "' is not ready"@);
}

/// Requests are told in the order in which they came.
pub proof fn law_tickets_keep_their_order(pending: Seq<PendingRequest>, i: int)
    ensures
        tickets(pending).len() == pending.len(),
        0 <= i < pending.len() ==> tickets(pending)[i] == pending[i].ticket,
{
}

} // verus!
