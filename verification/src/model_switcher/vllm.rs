//! Waking vLLM servers and putting them to sleep over their HTTP interface.
use std::sync::Arc;
use vstd::prelude::*;
use crate::model_switcher::callbacks::{ModelSwitcherCallbacks, SleepLevel, SwitchError};
use crate::names::NameMap;
use crate::span::Span;
use crate::text;

verus! {

/// A vLLM server that serves one model.
#[derive(Debug)]
pub struct VllmModelConfig {
    /// The name by which clients ask for the model.
    pub model_name: String,
    /// Where the server is.
    pub base_url: String,
    /// How deeply the model sleeps.
    pub sleep_level: SleepLevel,
}

/// Sends requests to vLLM servers.
pub trait VllmHttpClient: Send + Sync {
    /// Sends a POST request and tells the status of the response.
    fn post(&self, url: &str, body: Option<&str>) -> Result<u16, String>;

    /// Sends a GET request and gives the status and the body of the response.
    fn get(&self, url: &str) -> Result<(u16, String), String>;
}

/// A client that sends nothing and takes every request to succeed.
#[derive(Debug, Clone, Copy, PartialEq, Eq, Structural)]
pub struct DefaultVllmClient {
    pub timeout: Span,
}

impl Default for DefaultVllmClient {
    fn default() -> (client: DefaultVllmClient)
        ensures
            client.timeout == (Span { nanos: 0 }),
    {
        DefaultVllmClient { timeout: Span::zero() }
    }
}

impl DefaultVllmClient {
    /// A client with a timeout.
    pub fn new(timeout: Span) -> (client: DefaultVllmClient)
        ensures
            client.timeout == timeout,
    {
        DefaultVllmClient { timeout }
    }
}

impl VllmHttpClient for DefaultVllmClient {
    fn post(&self, _url: &str, _body: Option<&str>) -> (status: Result<u16, String>)
        ensures
            status == Ok::<u16, String>(200),
    {
        Ok(200)
    }

    fn get(&self, _url: &str) -> (response: Result<(u16, String), String>)
        ensures
            response matches Ok((status, body)) && status == 200 && body@ == "{}"@,
    {
        Ok((200, "{}".to_owned()))
    }
}

// ---------------------------------------------------------------------------
// Waking a server
// ---------------------------------------------------------------------------

/// The requests by which a server is woken, in order.
#[derive(Debug, Clone, Copy, PartialEq, Eq, Structural)]
pub enum WakeStep {
    WakeUp,
    ReloadWeights,
    ResetPrefixCache,
}

/// A request to a server.
#[derive(Debug)]
pub struct VllmRequest {
    pub url: String,
    pub body: Option<String>,
}

impl WakeStep {
    /// Where the request of a step goes.
    pub open spec fn url(self, base: Seq<char>) -> Seq<char> {
        match self {
            WakeStep::WakeUp => base + "/wake_up"@,
            WakeStep::ReloadWeights => base + "/collective_rpc"@,
            WakeStep::ResetPrefixCache => base + "/reset_prefix_cache"@,
        }
    }

    /// What the request of a step holds.
    pub open spec fn body(self) -> Option<Seq<char>> {
        match self {
            WakeStep::ReloadWeights => Some("{\"method\": \"reload_weights\"}"@),
            _ => None,
        }
    }

    /// What the step is called where it fails.
    pub open spec fn label(self) -> Seq<char> {
        match self {
            WakeStep::WakeUp => "wake_up"@,
            WakeStep::ReloadWeights => "reload_weights"@,
            WakeStep::ResetPrefixCache => "reset_prefix_cache"@,
        }
    }

    /// The step after this one, for a model that sleeps so deeply.
    pub open spec fn following(self, level: SleepLevel) -> Option<WakeStep> {
        match (self, level) {
            (WakeStep::WakeUp, SleepLevel::L2) => Some(WakeStep::ReloadWeights),
            (WakeStep::ReloadWeights, _) => Some(WakeStep::ResetPrefixCache),
            _ => None,
        }
    }

    fn name(&self) -> (label: &'static str)
        ensures
            label@ == self.label(),
    {
        match self {
            WakeStep::WakeUp => "wake_up",
            WakeStep::ReloadWeights => "reload_weights",
            WakeStep::ResetPrefixCache => "reset_prefix_cache",
        }
    }

    fn request(&self, base: &str) -> (request: VllmRequest)
        ensures
            request.url@ == self.url(base@),
            match request.body {
                Some(b) => self.body() == Some(b@),
                None => self.body() is None,
            },
    {
        match self {
            WakeStep::WakeUp => VllmRequest { url: base.to_owned().concat("/wake_up"), body: None },
            WakeStep::ReloadWeights => VllmRequest {
                url: base.to_owned().concat("/collective_rpc"),
                body: Some("{\"method\": \"reload_weights\"}".to_owned()),
            },
            WakeStep::ResetPrefixCache => VllmRequest {
                url: base.to_owned().concat("/reset_prefix_cache"),
                body: None,
            },
        }
    }
}

/// How far the waking of a server has come.
pub enum WakeView {
    /// A step is to be done.
    Next(WakeStep),
    /// The server is awake.
    Done,
    /// The server could not be woken, for a reason.
    Failed(Seq<char>),
}

/// The text of an error.
pub open spec fn reply_text(reply: Result<u16, String>) -> Result<u16, Seq<char>> {
    match reply {
        Ok(status) => Ok(status),
        Err(error) => Err(error@),
    }
}

/// Whether a status tells of a failure.
pub open spec fn is_failure(status: u16) -> bool {
    status >= 400
}

/// How far the waking of a server has come once a step was answered. That the cache could not be
/// reset is no failure if the server answered.
pub open spec fn woken_by(step: WakeStep, level: SleepLevel, reply: Result<u16, Seq<char>>) -> WakeView {
    match reply {
        Err(error) => WakeView::Failed(step.label() + " request failed: "@ + error),
        Ok(status) => if is_failure(status) && step != WakeStep::ResetPrefixCache {
            WakeView::Failed(step.label() + " returned status "@ + text::numeral(status as nat))
        } else {
            match step.following(level) {
                Some(next) => WakeView::Next(next),
                None => WakeView::Done,
            }
        },
    }
}

/// How far the waking of a server has come.
#[derive(Debug)]
pub enum WakePhase {
    Next(WakeStep),
    Done,
    Failed(String),
}

impl View for WakePhase {
    type V = WakeView;

    open spec fn view(&self) -> WakeView {
        match self {
            WakePhase::Next(step) => WakeView::Next(*step),
            WakePhase::Done => WakeView::Done,
            WakePhase::Failed(reason) => WakeView::Failed(reason@),
        }
    }
}

impl WakeView {
    /// The most requests until the waking has ended.
    pub open spec fn requests_left(self) -> nat {
        match self {
            WakeView::Next(WakeStep::WakeUp) => 3,
            WakeView::Next(WakeStep::ReloadWeights) => 2,
            WakeView::Next(WakeStep::ResetPrefixCache) => 1,
            _ => 0,
        }
    }
}

/// Whether some replies of a client to the requests of a waking, from one point on, bring it to
/// another, which is an end.
pub open spec fn leads_to<C: VllmHttpClient>(
    client: &C,
    base: Seq<char>,
    level: SleepLevel,
    from: WakeView,
    end: WakeView,
) -> bool
    decreases from.requests_left(),
{
    match from {
        WakeView::Next(step) => exists|url: &str, body: Option<&str>, reply: Result<u16, String>|
            {
                &&& url@ == step.url(base)
                &&& text::optional_str(body) == step.body()
                &&& #[trigger] call_ensures(C::post, (client, url, body), reply)
                &&& leads_to(client, base, level, woken_by(step, level, reply_text(reply)), end)
            },
        _ => end == from,
    }
}

/// A waking whose requests all succeed ends with the server awake.
pub proof fn law_success_wakes<C: VllmHttpClient>(
    client: &C,
    base: Seq<char>,
    level: SleepLevel,
    from: WakeView,
    end: WakeView,
)
    requires
        from is Next,
        leads_to(client, base, level, from, end),
        forall|url: &str, body: Option<&str>, reply: Result<u16, String>| #[trigger]
            call_ensures(C::post, (client, url, body), reply) ==> (reply matches Ok(status)
                && !is_failure(status)),
    ensures
        end == WakeView::Done,
    decreases from.requests_left(),
{
    let step = from->Next_0;
    let (url, body, reply) = choose|url: &str, body: Option<&str>, reply: Result<u16, String>|
        {
            &&& url@ == step.url(base)
            &&& text::optional_str(body) == step.body()
            &&& #[trigger] call_ensures(C::post, (client, url, body), reply)
            &&& leads_to(client, base, level, woken_by(step, level, reply_text(reply)), end)
        };
    assert(call_ensures(C::post, (client, url, body), reply));
    let next = woken_by(step, level, reply_text(reply));
    if next is Next {
        law_success_wakes(client, base, level, next, end);
    }
}

/// A server that is being woken.
#[derive(Debug)]
pub struct WakeRun {
    model: String,
    base_url: String,
    level: SleepLevel,
    phase: WakePhase,
}

impl WakeRun {
    /// The model that is woken.
    pub closed spec fn wakes(self) -> Seq<char> {
        self.model@
    }

    /// Where its server is.
    pub closed spec fn base(self) -> Seq<char> {
        self.base_url@
    }

    /// How deeply it sleeps.
    pub closed spec fn depth(self) -> SleepLevel {
        self.level
    }

    /// How far its waking has come.
    pub closed spec fn now_in(self) -> WakeView {
        self.phase@
    }

    /// The request to send next, if any.
    pub fn request(&self) -> (request: Option<VllmRequest>)
        ensures
            match (request, self.now_in()) {
                (Some(r), WakeView::Next(step)) => r.url@ == step.url(self.base()) && match r.body {
                    Some(b) => step.body() == Some(b@),
                    None => step.body() is None,
                },
                (None, WakeView::Next(_)) => false,
                (r, _) => r is None,
            },
    {
        match &self.phase {
            WakePhase::Next(step) => Some(step.request(self.base_url.as_str())),
            _ => None,
        }
    }

    /// Takes note of the answer to the request.
    pub fn reply(&mut self, reply: Result<u16, String>)
        ensures
            final(self).now_in() == match old(self).now_in() {
                WakeView::Next(step) => woken_by(step, old(self).depth(), reply_text(reply)),
                other => other,
            },
            final(self).wakes() == old(self).wakes(),
            final(self).base() == old(self).base(),
            final(self).depth() == old(self).depth(),
    {
        let step = match &self.phase {
            WakePhase::Next(step) => *step,
            _ => {
                return ;
            },
        };
        let next = match reply {
            Err(error) => WakePhase::Failed(
                step.name().to_owned().concat(" request failed: ").concat(error.as_str()),
            ),
            Ok(status) => if status >= 400 && step != WakeStep::ResetPrefixCache {
                WakePhase::Failed(
                    step.name().to_owned().concat(" returned status ").concat(
                        text::decimal(status as u64).as_str(),
                    ),
                )
            } else {
                match (step, self.level) {
                    (WakeStep::WakeUp, SleepLevel::L2) => WakePhase::Next(WakeStep::ReloadWeights),
                    (WakeStep::ReloadWeights, _) => WakePhase::Next(WakeStep::ResetPrefixCache),
                    _ => WakePhase::Done,
                }
            },
        };
        self.phase = next;
    }

    /// Whether the waking succeeded, once it has ended.
    pub fn result(self) -> (result: Option<Result<(), SwitchError>>)
        ensures
            match (result, self.now_in()) {
                (None, WakeView::Next(_)) => true,
                (Some(Ok(_)), WakeView::Done) => true,
                (Some(Err(e)), WakeView::Failed(reason)) => {
                    &&& e matches SwitchError::WakeFailed { model: m, reason: r }
                    &&& m@ == self.wakes()
                    &&& r@ == reason
                },
                _ => false,
            },
    {
        match self.phase {
            WakePhase::Next(_) => None,
            WakePhase::Done => Some(Ok(())),
            WakePhase::Failed(reason) => Some(
                Err(SwitchError::WakeFailed { model: self.model, reason }),
            ),
        }
    }
}

/// Every answer brings the end of a waking nearer.
pub proof fn law_waking_ends(step: WakeStep, level: SleepLevel, reply: Result<u16, Seq<char>>)
    ensures
        woken_by(step, level, reply).requests_left() < WakeView::Next(step).requests_left(),
{
}

/// A model that sleeps lightly is woken by one request, and one that sleeps deeply by three, if
/// none fails.
pub proof fn law_requests_of_a_waking(status: u16)
    requires
        !is_failure(status),
    ensures
        woken_by(WakeStep::WakeUp, SleepLevel::L1, Ok(status)) == WakeView::Done,
        woken_by(WakeStep::WakeUp, SleepLevel::L2, Ok(status)) == WakeView::Next(
            WakeStep::ReloadWeights,
        ),
        woken_by(WakeStep::ReloadWeights, SleepLevel::L2, Ok(status)) == WakeView::Next(
            WakeStep::ResetPrefixCache,
        ),
        woken_by(WakeStep::ResetPrefixCache, SleepLevel::L2, Ok(status)) == WakeView::Done,
{
}

// ---------------------------------------------------------------------------
// Putting a server to sleep, and asking for its health
// ---------------------------------------------------------------------------

/// Where the request goes that puts a server to sleep.
pub open spec fn sleep_address(base: Seq<char>, level: SleepLevel) -> Seq<char> {
    base + "/sleep?level="@ + text::numeral(level.number() as nat)
}

/// Where the request goes that puts a server to sleep.
pub fn sleep_url(base: &str, level: SleepLevel) -> (url: String)
    ensures
        url@ == sleep_address(base@, level),
{
    base.to_owned().concat("/sleep?level=").concat(text::decimal(level.as_u8() as u64).as_str())
}

/// Why a server was not put to sleep, if it was not.
pub open spec fn sleep_failure(reply: Result<u16, Seq<char>>) -> Option<Seq<char>> {
    match reply {
        Err(error) => Some("sleep request failed: "@ + error),
        Ok(status) => if is_failure(status) {
            Some("sleep returned status "@ + text::numeral(status as nat))
        } else {
            None
        },
    }
}

/// Whether a server was put to sleep, from its answer.
pub fn sleep_result(model: &str, reply: Result<u16, String>) -> (result: Result<(), SwitchError>)
    ensures
        match result {
            Ok(_) => sleep_failure(reply_text(reply)) is None,
            Err(e) => {
                &&& e matches SwitchError::SleepFailed { model: m, reason }
                &&& m@ == model@
                &&& sleep_failure(reply_text(reply)) == Some(reason@)
            },
        },
{
    match reply {
        Err(error) => Err(
            SwitchError::SleepFailed {
                model: model.to_owned(),
                reason: "sleep request failed: ".to_owned().concat(error.as_str()),
            },
        ),
        Ok(status) => if status >= 400 {
            Err(
                SwitchError::SleepFailed {
                    model: model.to_owned(),
                    reason: "sleep returned status ".to_owned().concat(
                        text::decimal(status as u64).as_str(),
                    ),
                },
            )
        } else {
            Ok(())
        },
    }
}

/// Where a server tells of its health.
pub fn health_url(base: &str) -> (url: String)
    ensures
        url@ == base@ + "/health"@,
{
    base.to_owned().concat("/health")
}

/// Whether a server can serve requests, from its answer.
pub fn health_ready(reply: &Result<(u16, String), String>) -> (ready: bool)
    ensures
        ready == (reply matches Ok((status, _)) && status == 200),
{
    match reply {
        Ok((status, _)) => *status == 200,
        Err(_) => false,
    }
}

// ---------------------------------------------------------------------------
// The callbacks
// ---------------------------------------------------------------------------

/// Seconds that a server is given to become ready.
pub const READY_TIMEOUT_SECS: u64 = 60;

/// Milliseconds between two questions whether a server is ready.
pub const READY_POLL_INTERVAL_MS: u64 = 500;

/// Seconds that the default client waits for a response.
pub const CLIENT_TIMEOUT_SECS: u64 = 30;

/// Callbacks for models that vLLM servers serve.
pub struct VllmCallbacks<C: VllmHttpClient> {
    models: NameMap<VllmModelConfig>,
    /// How deeply models were put to sleep since they were last woken.
    asleep: NameMap<SleepLevel>,
    client: Arc<C>,
    ready_timeout: Span,
    ready_poll_interval: Span,
}

/// The servers by the names of their models; of two for one name, the later.
pub open spec fn servers(configs: Seq<VllmModelConfig>) -> Map<Seq<char>, VllmModelConfig>
    decreases configs.len(),
{
    if configs.len() == 0 {
        Map::empty()
    } else {
        servers(configs.drop_last()).insert(configs.last().model_name@, configs.last())
    }
}

impl VllmCallbacks<DefaultVllmClient> {
    /// Callbacks for some servers, with the default client.
    pub fn new(configs: Vec<VllmModelConfig>) -> (callbacks: VllmCallbacks<DefaultVllmClient>)
        ensures
            callbacks.known() == servers(configs@),
            callbacks.noted() == Map::<Seq<char>, SleepLevel>::empty(),
            callbacks.sender() == (DefaultVllmClient { timeout: Span::secs(CLIENT_TIMEOUT_SECS) }),
            callbacks.patience() == Span::secs(READY_TIMEOUT_SECS),
            callbacks.pace() == Span::millis(READY_POLL_INTERVAL_MS),
    {
        VllmCallbacks::with_client(
            configs,
            Arc::new(DefaultVllmClient::new(Span::from_secs(CLIENT_TIMEOUT_SECS))),
        )
    }
}

impl<C: VllmHttpClient> VllmCallbacks<C> {
    /// The servers by the names of their models.
    pub closed spec fn known(self) -> Map<Seq<char>, VllmModelConfig> {
        self.models@
    }

    /// How deeply models were put to sleep since they were last woken.
    pub closed spec fn noted(self) -> Map<Seq<char>, SleepLevel> {
        self.asleep@
    }

    /// How deeply a model was put to sleep since it was last woken, if it was at all.
    pub open spec fn noted_level(self, model: Seq<char>) -> SleepLevel {
        if self.noted().dom().contains(model) {
            self.noted()[model]
        } else {
            SleepLevel::L1
        }
    }

    /// How deeply a model is taken to sleep: as deeply as is set for it, or as it was put to sleep,
    /// whichever is deeper.
    pub open spec fn sleeps_at(self, model: Seq<char>) -> SleepLevel {
        self.known()[model].sleep_level.deeper(self.noted_level(model))
    }

    /// Whether all but what is noted of the models is as it was.
    pub open spec fn same_servers(self, other: VllmCallbacks<C>) -> bool {
        &&& self.known() == other.known()
        &&& self.sender() == other.sender()
        &&& self.patience() == other.patience()
        &&& self.pace() == other.pace()
    }

    /// What sends the requests.
    pub closed spec fn sender(self) -> C {
        *self.client
    }

    /// How long a server is given to become ready.
    pub closed spec fn patience(self) -> Span {
        self.ready_timeout
    }

    /// How long passes between two questions whether a server is ready.
    pub closed spec fn pace(self) -> Span {
        self.ready_poll_interval
    }

    /// Callbacks for some servers, with a client.
    pub fn with_client(configs: Vec<VllmModelConfig>, client: Arc<C>) -> (callbacks: VllmCallbacks<
        C,
    >)
        ensures
            callbacks.known() == servers(configs@),
            callbacks.noted() == Map::<Seq<char>, SleepLevel>::empty(),
            callbacks.sender() == *client,
            callbacks.patience() == Span::secs(READY_TIMEOUT_SECS),
            callbacks.pace() == Span::millis(READY_POLL_INTERVAL_MS),
    {
        let ghost all = configs@;
        let mut models: NameMap<VllmModelConfig> = NameMap::new();
        assert(all.take(0) =~= Seq::empty());
        for config in it: configs.into_iter()
            invariant
                it.seq() == all,
                models@ == servers(all.take(it.index() as int)),
        {
            let ghost i = it.index() as int;
            assert(all.take(i + 1).drop_last() =~= all.take(i));
            let name = config.model_name.clone();
            models.insert(name.as_str(), config);
        }
        assert(all.take(all.len() as int) =~= all);
        VllmCallbacks {
            models,
            asleep: NameMap::new(),
            client,
            ready_timeout: Span::from_secs(READY_TIMEOUT_SECS),
            ready_poll_interval: Span::from_millis(READY_POLL_INTERVAL_MS),
        }
    }

    /// The same with another time that a server is given to become ready.
    pub fn with_ready_timeout(self, timeout: Span) -> (callbacks: VllmCallbacks<C>)
        ensures
            callbacks.known() == self.known(),
            callbacks.noted() == self.noted(),
            callbacks.sender() == self.sender(),
            callbacks.patience() == timeout,
            callbacks.pace() == self.pace(),
    {
        VllmCallbacks { ready_timeout: timeout, ..self }
    }

    /// The same with another time between two questions whether a server is ready.
    pub fn with_ready_poll_interval(self, interval: Span) -> (callbacks: VllmCallbacks<C>)
        ensures
            callbacks.known() == self.known(),
            callbacks.noted() == self.noted(),
            callbacks.sender() == self.sender(),
            callbacks.patience() == self.patience(),
            callbacks.pace() == interval,
    {
        VllmCallbacks { ready_poll_interval: interval, ..self }
    }

    /// The server of a model.
    pub fn get_model(&self, model: &str) -> (config: Result<&VllmModelConfig, SwitchError>)
        ensures
            match config {
                Ok(c) => self.known().dom().contains(model@) && self.known()[model@] == *c,
                Err(e) => {
                    &&& !self.known().dom().contains(model@)
                    &&& e matches SwitchError::ModelNotFound(m)
                    &&& m@ == model@
                },
            },
    {
        match self.models.get(model) {
            Some(config) => Ok(config),
            None => Err(SwitchError::ModelNotFound(model.to_owned())),
        }
    }

    fn level_noted(&self, model: &str) -> (level: SleepLevel)
        ensures
            level == self.noted_level(model@),
    {
        match self.asleep.get(model) {
            Some(level) => *level,
            None => SleepLevel::L1,
        }
    }

    /// Notes that a model was put to sleep.
    pub fn mark_asleep(&mut self, model: &str, level: SleepLevel)
        ensures
            final(self).same_servers(*old(self)),
            final(self).noted() == old(self).noted().insert(
                model@,
                old(self).noted_level(model@).deeper(level),
            ),
    {
        let deepest = self.level_noted(model).deeper_of(level);
        self.asleep.insert(model, deepest);
    }

    /// Notes that a model was woken.
    pub fn mark_awake(&mut self, model: &str)
        ensures
            final(self).same_servers(*old(self)),
            final(self).noted() == old(self).noted().insert(model@, SleepLevel::L1),
    {
        self.asleep.insert(model, SleepLevel::L1);
    }

    /// Begins to wake a model.
    pub fn begin_wake(&self, model: &str) -> (run: Result<WakeRun, SwitchError>)
        ensures
            match run {
                Ok(r) => {
                    &&& self.known().dom().contains(model@)
                    &&& r.wakes() == model@
                    &&& r.base() == self.known()[model@].base_url@
                    &&& r.depth() == self.sleeps_at(model@)
                    &&& r.now_in() == WakeView::Next(WakeStep::WakeUp)
                },
                Err(e) => {
                    &&& !self.known().dom().contains(model@)
                    &&& e matches SwitchError::ModelNotFound(m)
                    &&& m@ == model@
                },
            },
    {
        let config = match self.get_model(model) {
            Ok(config) => config,
            Err(e) => {
                return Err(e);
            },
        };
        Ok(
            WakeRun {
                model: model.to_owned(),
                base_url: config.base_url.clone(),
                level: config.sleep_level.deeper_of(self.level_noted(model)),
                phase: WakePhase::Next(WakeStep::WakeUp),
            },
        )
    }
}

/// A model that was put to sleep at level 2 is woken from level 2, whatever is set for it, until it
/// has been woken; then what is set for it counts again.
pub proof fn law_deep_sleep_is_remembered<C: VllmHttpClient>(
    before: VllmCallbacks<C>,
    asleep: VllmCallbacks<C>,
    awake: VllmCallbacks<C>,
    model: Seq<char>,
)
    requires
        asleep.same_servers(before),
        asleep.noted() == before.noted().insert(
            model,
            before.noted_level(model).deeper(SleepLevel::L2),
        ),
        awake.same_servers(asleep),
        awake.noted() == asleep.noted().insert(model, SleepLevel::L1),
    ensures
        asleep.sleeps_at(model) == SleepLevel::L2,
        awake.sleeps_at(model) == before.known()[model].sleep_level,
{
}

impl<C: VllmHttpClient> ModelSwitcherCallbacks for VllmCallbacks<C> {
    /// Sends the requests that wake a model, one after another, until one fails or none is left.
    fn wake_model(&mut self, model: &str) -> (result: Result<(), SwitchError>)
        ensures
            final(self).same_servers(*old(self)),
            !old(self).known().dom().contains(model@) ==> {
                &&& final(self).noted() == old(self).noted()
                &&& result matches Err(SwitchError::ModelNotFound(m))
                &&& m@ == model@
            },
            old(self).known().dom().contains(model@) ==> exists|end: WakeView|
                {
                    &&& #[trigger] leads_to(
                        &old(self).sender(),
                        old(self).known()[model@].base_url@,
                        old(self).sleeps_at(model@),
                        WakeView::Next(WakeStep::WakeUp),
                        end,
                    )
                    &&& match end {
                        WakeView::Next(_) => false,
                        WakeView::Done => {
                            &&& result is Ok
                            &&& final(self).noted() == old(self).noted().insert(
                                model@,
                                SleepLevel::L1,
                            )
                        },
                        WakeView::Failed(why) => {
                            &&& result matches Err(SwitchError::WakeFailed { model: m, reason })
                            &&& m@ == model@
                            &&& reason@ == why
                            &&& final(self).noted() == old(self).noted()
                        },
                    }
                },
    {
        let mut run = match self.begin_wake(model) {
            Ok(run) => run,
            Err(e) => {
                return Err(e);
            },
        };
        let ghost base = run.base();
        let ghost depth = run.depth();
        let ghost start = run.now_in();
        loop
            invariant
                run.wakes() == model@,
                run.base() == base,
                run.depth() == depth,
                *self == *old(self),
                forall|end: WakeView| #[trigger]
                    leads_to(&self.sender(), base, depth, run.now_in(), end) ==> leads_to(
                        &self.sender(),
                        base,
                        depth,
                        start,
                        end,
                    ),
            ensures
                !(run.now_in() is Next),
            decreases run.now_in().requests_left(),
        {
            let request = match run.request() {
                Some(request) => request,
                None => {
                    break ;
                },
            };
            let url = request.url.as_str();
            let body = match &request.body {
                Some(body) => Some(body.as_str()),
                None => None,
            };
            let reply = self.client.post(url, body);
            let ghost before = run.now_in();
            proof {
                law_waking_ends(before->Next_0, depth, reply_text(reply));
                assert(call_ensures(C::post, (&self.sender(), url, body), reply));
                assert forall|end: WakeView| #[trigger]
                    leads_to(
                        &self.sender(),
                        base,
                        depth,
                        woken_by(before->Next_0, depth, reply_text(reply)),
                        end,
                    ) implies leads_to(&self.sender(), base, depth, before, end) by {}
            }
            run.reply(reply);
        }
        proof {
            assert(leads_to(&self.sender(), base, depth, run.now_in(), run.now_in()));
        }
        match run.result() {
            Some(Ok(_)) => {
                self.mark_awake(model);
                Ok(())
            },
            Some(Err(e)) => Err(e),
            None => Ok(()),
        }
    }

    /// Sends the request that puts a model to sleep.
    fn sleep_model(&mut self, model: &str, level: SleepLevel) -> (result: Result<(), SwitchError>)
        ensures
            final(self).same_servers(*old(self)),
            !old(self).known().dom().contains(model@) ==> {
                &&& final(self).noted() == old(self).noted()
                &&& result matches Err(SwitchError::ModelNotFound(m))
                &&& m@ == model@
            },
            old(self).known().dom().contains(model@) ==> exists|url: &str, reply: Result<u16, String>|
                {
                    &&& url@ == sleep_address(old(self).known()[model@].base_url@, level)
                    &&& #[trigger] call_ensures(C::post, (&old(self).sender(), url, None::<&str>), reply)
                    &&& match sleep_failure(reply_text(reply)) {
                        None => {
                            &&& result is Ok
                            &&& final(self).noted() == old(self).noted().insert(
                                model@,
                                old(self).noted_level(model@).deeper(level),
                            )
                        },
                        Some(why) => {
                            &&& result matches Err(SwitchError::SleepFailed { model: m, reason })
                            &&& m@ == model@
                            &&& reason@ == why
                            &&& final(self).noted() == old(self).noted()
                        },
                    }
                },
    {
        let config = match self.get_model(model) {
            Ok(config) => config,
            Err(e) => {
                return Err(e);
            },
        };
        let url = sleep_url(config.base_url.as_str(), level);
        let address = url.as_str();
        let reply = self.client.post(address, None);
        assert(call_ensures(C::post, (&self.sender(), address, None::<&str>), reply));
        match sleep_result(model, reply) {
            Ok(_) => {
                self.mark_asleep(model, level);
                Ok(())
            },
            Err(e) => Err(e),
        }
    }

    /// Asks a server for its health. A model that is not known is not ready, and nothing is asked.
    fn is_ready(&self, model: &str) -> (ready: bool)
        ensures
            !self.known().dom().contains(model@) ==> !ready,
            self.known().dom().contains(model@) ==> exists|url: &str, reply: Result<(u16, String), String>|
                {
                    &&& url@ == self.known()[model@].base_url@ + "/health"@
                    &&& #[trigger] call_ensures(C::get, (&self.sender(), url), reply)
                    &&& ready == (reply matches Ok((status, _)) && status == 200)
                },
    {
        match self.get_model(model) {
            Ok(config) => {
                let url = health_url(config.base_url.as_str());
                let address = url.as_str();
                let reply = self.client.get(address);
                assert(call_ensures(C::get, (&self.sender(), address), reply));
                health_ready(&reply)
            },
            Err(_) => false,
        }
    }

    /// The models, each once.
    fn registered_models(&self) -> (models: Vec<String>)
        ensures
            forall|n: Seq<char>|
                self.known().dom().contains(n) <==> exists|i: int|
                    0 <= i < models.len() && (#[trigger] models@[i])@ == n,
            forall|i: int, j: int|
                0 <= i < j < models.len() ==> (#[trigger] models@[i])@ != (#[trigger] models@[j])@,
    {
        self.models.names()
    }
}

/// Where each request of a waking goes, and what it carries.
pub proof fn law_addresses_of_a_waking(base: Seq<char>, level: SleepLevel)
    ensures
        WakeStep::WakeUp.url(base) == base + "/wake_up"@,
        WakeStep::WakeUp.body() is None,
        WakeStep::ReloadWeights.url(base) == base + "/collective_rpc"@,
        WakeStep::ReloadWeights.body() == Some("{\"method\": \"reload_weights\"}"@),
        WakeStep::ResetPrefixCache.url(base) == base + "/reset_prefix_cache"@,
        WakeStep::ResetPrefixCache.body() is None,
        level == SleepLevel::L1 ==> sleep_address(base, level) == base + "/sleep?level="@ + seq!['1'],
        level == SleepLevel::L2 ==> sleep_address(base, level) == base + "/sleep?level="@ + seq!['2'],
{
    assert(text::numeral(1) == seq![text::digit_char(1)]);
    assert(text::numeral(2) == seq![text::digit_char(2)]);
    assert(text::digit_char(1) == '1');
    assert(text::digit_char(2) == '2');
}

/// A request that does not get through ends a waking, and so does an answer that tells a failure, from
/// status 400 on, except to the last request; what failed and how is told. Below that a waking goes on.
pub proof fn law_what_ends_a_waking(step: WakeStep, level: SleepLevel, status: u16, error: Seq<char>)
    ensures
        woken_by(step, level, Err(error)) matches WakeView::Failed(told) && text::occurs_in(error, told)
            && text::begins_with(told, step.label()),
        status >= 400 && step != WakeStep::ResetPrefixCache ==> (woken_by(step, level, Ok(status)) matches
            WakeView::Failed(told) && text::occurs_in(text::numeral(status as nat), told)
            && text::begins_with(told, step.label())),
        status < 400 || step == WakeStep::ResetPrefixCache ==> !(woken_by(step, level, Ok(status))
            is Failed),
        woken_by(WakeStep::ResetPrefixCache, level, Ok(status)) == WakeView::Done,
{
    let failed = step.label() + " request failed: "@;
    assert(failed + error =~= failed + error + Seq::<char>::empty());
    text::lemma_part_occurs(failed, error, Seq::empty());
    assert(failed + error =~= step.label() + (" request failed: "@ + error));
    text::law_prefix_and_suffix(failed + error, step.label(), " request failed: "@ + error);
    let number = text::numeral(status as nat);
    let returned = step.label() + " returned status "@;
    assert(returned + number =~= returned + number + Seq::<char>::empty());
    text::lemma_part_occurs(returned, number, Seq::empty());
    assert(returned + number =~= step.label() + (" returned status "@ + number));
    text::law_prefix_and_suffix(returned + number, step.label(), " returned status "@ + number);
}

/// A server is asleep unless the request did not get through or was answered by a failure, from status
/// 400 on.
pub proof fn law_when_sleep_fails(status: u16, error: Seq<char>)
    ensures
        sleep_failure(Err(error)) matches Some(told) && text::occurs_in(error, told),
        sleep_failure(Ok(status)) is Some <==> status >= 400,
        sleep_failure(Ok(status)) matches Some(told) ==> text::occurs_in(
            text::numeral(status as nat),
            told,
        ),
{
    let failed = "sleep request failed: "@;
    assert(failed + error =~= failed + error + Seq::<char>::empty());
    text::lemma_part_occurs(failed, error, Seq::empty());
    let number = text::numeral(status as nat);
    let returned = "sleep returned status "@;
    assert(returned + number =~= returned + number + Seq::<char>::empty());
    text::lemma_part_occurs(returned, number, Seq::empty());
}

/// Each model has the server that was named for it last.
pub proof fn law_last_server_counts(configs: Seq<VllmModelConfig>, last: VllmModelConfig, name: Seq<char>)
    ensures
        servers(Seq::empty()).dom().is_empty(),
        servers(configs.push(last)).dom().contains(last.model_name@),
        servers(configs.push(last))[last.model_name@] == last,
        name != last.model_name@ ==> (servers(configs.push(last)).dom().contains(name) <==> servers(
            configs,
        ).dom().contains(name)) && (servers(configs).dom().contains(name) ==> servers(
            configs.push(last),
        )[name] == servers(configs)[name]),
{
    assert(configs.push(last).drop_last() =~= configs);
}

/// A model is woken from the second level exactly when it is set for that or was last put to sleep so
/// deeply.
pub proof fn law_depth_of_a_sleep<C: VllmHttpClient>(callbacks: VllmCallbacks<C>, model: Seq<char>)
    ensures
        callbacks.sleeps_at(model) == SleepLevel::L2 <==> callbacks.known()[model].sleep_level
            == SleepLevel::L2 || (callbacks.noted().dom().contains(model) && callbacks.noted()[model]
            == SleepLevel::L2),
{
}

/// A waking whose request cannot get through fails, at whichever step; and a waking from the second level
/// fails where the weights cannot be asked for.
pub proof fn law_requests_have_to_get_through<C: VllmHttpClient>(
    client: &C,
    base: Seq<char>,
    level: SleepLevel,
    step: WakeStep,
    end: WakeView,
)
    requires
        leads_to(client, base, level, WakeView::Next(step), end),
        forall|url: &str, body: Option<&str>, reply: Result<u16, String>|
            url@ == step.url(base) && text::optional_str(body) == step.body() && #[trigger] call_ensures(
                C::post,
                (client, url, body),
                reply,
            ) ==> reply is Err,
    ensures
        end is Failed,
{
    let (url, body, reply) = choose|url: &str, body: Option<&str>, reply: Result<u16, String>|
        {
            &&& url@ == step.url(base)
            &&& text::optional_str(body) == step.body()
            &&& #[trigger] call_ensures(C::post, (client, url, body), reply)
            &&& leads_to(client, base, level, woken_by(step, level, reply_text(reply)), end)
        };
    assert(reply is Err);
    assert(woken_by(step, level, reply_text(reply)) is Failed);
}

/// A waking has nothing to do after its end.
pub proof fn law_waking_stays_ended<C: VllmHttpClient>(
    client: &C,
    base: Seq<char>,
    level: SleepLevel,
    from: WakeView,
    end: WakeView,
)
    requires
        !(from is Next),
    ensures
        leads_to(client, base, level, from, end) <==> end == from,
{
}

/// How long servers are waited for: a call is given up after half a minute; readiness is asked for twice a
/// second, for a minute.
pub proof fn law_patience()
    ensures
        CLIENT_TIMEOUT_SECS == 30,
        READY_TIMEOUT_SECS == 60,
        READY_POLL_INTERVAL_MS == 500,
{
}

} // verus!
