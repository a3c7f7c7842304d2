use std::sync::atomic::{AtomicU16, Ordering};
use std::sync::{Arc, Mutex};

use onwards::model_switcher::callbacks::{
    ModelSwitcherCallbacks, NoOpCallbacks, SleepLevel, SwitchError,
};
use onwards::model_switcher::policy::{
    BatchingPolicy, FifoPolicy, PolicyContext, PolicyDecision, SwitchPolicy,
};
use onwards::model_switcher::switcher::{
    wait_result, ModelSwitcher, ModelSwitcherConfig, Notice, Readiness, SwitchAction, SwitchEvent,
    SwitchOutcome, SwitchStart, SwitcherState, Trigger, Waited,
};
use onwards::model_switcher::vllm::{
    DefaultVllmClient, VllmCallbacks, VllmHttpClient, VllmModelConfig,
};
use onwards::span::Span;

// ---------------------------------------------------------------------------
// Callbacks
// ---------------------------------------------------------------------------

#[test]
fn test_sleep_level_display() {
    assert_eq!(SleepLevel::L1.to_text(), "L1");
    assert_eq!(SleepLevel::L2.to_text(), "L2");
}

#[test]
fn test_sleep_level_as_u8() {
    assert_eq!(SleepLevel::L1.as_u8(), 1);
    assert_eq!(SleepLevel::L2.as_u8(), 2);
}

#[test]
fn sleep_level_from_number() {
    assert_eq!(SleepLevel::from(2), SleepLevel::L2);
    assert_eq!(SleepLevel::from(1), SleepLevel::L1);
    assert_eq!(SleepLevel::from(7), SleepLevel::L1);
    assert_eq!(SleepLevel::from(SleepLevel::L2.as_u8()), SleepLevel::L2);
    assert_eq!(SleepLevel::default(), SleepLevel::L1);
}

#[test]
fn test_noop_callbacks() {
    let mut callbacks = NoOpCallbacks::new(vec!["model-a".to_string(), "model-b".to_string()]);

    // Should succeed for registered models
    assert!(callbacks.wake_model("model-a").is_ok());
    assert!(callbacks.sleep_model("model-b", SleepLevel::L1).is_ok());
    assert!(callbacks.is_ready("model-a"));

    // Should fail for unregistered models
    assert!(matches!(
        callbacks.wake_model("model-c"),
        Err(SwitchError::ModelNotFound(_))
    ));
    assert!(!callbacks.is_ready("model-c"));
    assert!(callbacks.initialize().is_ok());
    assert!(callbacks.shutdown().is_ok());
}

#[test]
fn errors_say_what_happened() {
    let m = || "m".to_string();
    let r = || "r".to_string();
    let says = [
        (SwitchError::ModelNotFound(m()), "model not found: m"),
        (SwitchError::WakeFailed { model: m(), reason: r() }, "failed to wake model 'm': r"),
        (SwitchError::SleepFailed { model: m(), reason: r() }, "failed to sleep model 'm': r"),
        (SwitchError::NotReady(m()), "model 'm' is not ready"),
        (SwitchError::Timeout, "request timed out waiting for model switch"),
        (SwitchError::Internal(r()), "internal error: r"),
        (SwitchError::Callback(r()), "callback error: r"),
    ];
    for (error, text) in says {
        assert_eq!(error.message(), text);
    }
}

// ---------------------------------------------------------------------------
// Policies
// ---------------------------------------------------------------------------

fn context(target_queue_depth: usize, oldest_waiting: Span) -> PolicyContext {
    PolicyContext {
        target_model: "model-b".to_string(),
        active_model: Some("model-a".to_string()),
        target_queue_depth,
        oldest_waiting,
        active_in_flight: 0,
    }
}

fn batching() -> BatchingPolicy {
    BatchingPolicy::new(SleepLevel::L1, Span::from_secs(30), true, 5, Span::from_secs(10))
}

#[test]
fn test_fifo_always_switches() {
    let policy = FifoPolicy::default();

    match policy.on_pending_request(&context(1, Span::zero())) {
        PolicyDecision::SwitchNow => {}
        PolicyDecision::Defer(_) => panic!("FIFO should always return SwitchNow"),
    }
}

#[test]
fn fifo_defaults() {
    let policy = FifoPolicy::default_config();
    assert_eq!(policy.sleep_level(), SleepLevel::L1);
    assert_eq!(policy.request_timeout(), Span::from_secs(30));
    assert!(policy.drains_before_switch());
}

#[test]
fn test_batching_switches_at_threshold() {
    let policy = batching();

    // Below threshold - should defer
    match policy.on_pending_request(&context(3, Span::zero())) {
        PolicyDecision::SwitchNow => panic!("Should defer when below threshold"),
        PolicyDecision::Defer(_) => {}
    }

    // At threshold - should switch
    match policy.on_pending_request(&context(5, Span::zero())) {
        PolicyDecision::SwitchNow => {}
        PolicyDecision::Defer(_) => panic!("Should switch at threshold"),
    }
}

#[test]
fn test_batching_switches_on_timeout() {
    let policy = batching();

    // Below threshold but past wait time
    match policy.on_pending_request(&context(2, Span::from_secs(15))) {
        PolicyDecision::SwitchNow => {}
        PolicyDecision::Defer(_) => panic!("Should switch when past wait time"),
    }
}

#[test]
fn batching_defers_for_the_rest_of_the_wait() {
    let policy = batching();
    assert_eq!(
        policy.on_pending_request(&context(1, Span::from_secs(4))),
        PolicyDecision::Defer(Span::from_secs(6))
    );
    assert_eq!(
        policy.on_pending_request(&context(1, Span::from_secs(10))),
        PolicyDecision::SwitchNow
    );
}

// ---------------------------------------------------------------------------
// The switcher
// ---------------------------------------------------------------------------

fn models(names: &[&str]) -> Vec<String> {
    names.iter().map(|name| name.to_string()).collect()
}

fn is_active(switcher: &ModelSwitcher, name: &str) -> bool {
    matches!(switcher.state(), SwitcherState::Active { model } if model == name)
}

/// Carries a switch out, with the model ready after some failed questions.
fn carry_out<C: ModelSwitcherCallbacks>(
    switcher: &mut ModelSwitcher,
    callbacks: &mut C,
    start: SwitchStart,
    mut not_ready: u32,
) -> (Vec<SwitchAction>, Notice) {
    let mut run = match start {
        SwitchStart::Started(run) => run,
        SwitchStart::AlreadyActive(notice) => return (Vec::new(), notice),
        SwitchStart::AlreadySwitching => panic!("a switch is under way"),
    };
    let mut actions = Vec::new();
    loop {
        let action = run.action();
        actions.push(action);
        let event = match action {
            SwitchAction::WaitForInFlight => {
                assert!(switcher.is_drained(run.from_model().unwrap()));
                SwitchEvent::Drained
            }
            SwitchAction::Sleep(level) => {
                let _ = callbacks.sleep_model(run.from_model().unwrap(), level);
                SwitchEvent::Slept
            }
            SwitchAction::Wake => match callbacks.wake_model(run.to_model()) {
                Ok(()) => SwitchEvent::Woken,
                Err(e) => SwitchEvent::WakeFailed(e.message()),
            },
            SwitchAction::CheckReady => {
                if not_ready > 0 {
                    not_ready -= 1;
                    SwitchEvent::Ready(false)
                } else {
                    SwitchEvent::Ready(callbacks.is_ready(run.to_model()))
                }
            }
            SwitchAction::Wait(_) => SwitchEvent::Waited,
            SwitchAction::Nothing => break,
        };
        run.step(event);
    }
    (actions, switcher.finish_switch(run).unwrap())
}

fn make_ready(switcher: &mut ModelSwitcher, callbacks: &mut NoOpCallbacks, model: &str) {
    let policy = FifoPolicy::default();
    match switcher.ensure_model_ready(model, 1, Span::zero()).unwrap() {
        Readiness::Ready => {}
        Readiness::Queued => {
            assert_eq!(
                switcher.maybe_trigger_switch(&policy, model, Span::zero()),
                Trigger::SwitchNow
            );
            let start =
                switcher.begin_switch(model, policy.drains_before_switch(), policy.sleep_level());
            let (_, notice) = carry_out(switcher, callbacks, start, 0);
            assert_eq!(notice.tickets, vec![1]);
            notice.result_for(model).unwrap();
        }
    }
}

#[test]
fn test_switcher_initialization() {
    let switcher = ModelSwitcher::new(&models(&["model-a", "model-b"]));

    assert!(switcher.is_registered("model-a"));
    assert!(switcher.is_registered("model-b"));
    assert!(!switcher.is_registered("model-c"));

    assert!(matches!(switcher.state(), SwitcherState::Idle));
}

#[test]
fn test_ensure_model_ready() {
    let mut callbacks = NoOpCallbacks::new(models(&["model-a", "model-b"]));
    let mut switcher = ModelSwitcher::new(&callbacks.registered_models());

    // First call should trigger switch
    make_ready(&mut switcher, &mut callbacks, "model-a");

    assert!(is_active(&switcher, "model-a"));
    assert_eq!(switcher.active_model(), Some("model-a"));
}

#[test]
fn switcher_test_model_not_found() {
    let mut switcher = ModelSwitcher::new(&models(&["model-a"]));

    let result = switcher.ensure_model_ready("model-unknown", 1, Span::zero());
    assert!(matches!(result, Err(SwitchError::ModelNotFound(_))));
}

#[test]
fn switcher_test_in_flight_tracking() {
    let mut switcher = ModelSwitcher::new(&models(&["model-a"]));

    assert_eq!(switcher.in_flight_count("model-a"), 0);

    let guard1 = switcher.acquire_in_flight("model-a").unwrap();
    assert_eq!(switcher.in_flight_count("model-a"), 1);

    let guard2 = switcher.acquire_in_flight("model-a").unwrap();
    assert_eq!(switcher.in_flight_count("model-a"), 2);

    assert!(!switcher.release_in_flight(guard2));
    assert_eq!(switcher.in_flight_count("model-a"), 1);

    assert!(switcher.release_in_flight(guard1));
    assert_eq!(switcher.in_flight_count("model-a"), 0);
    assert!(switcher.acquire_in_flight("model-x").is_none());
}

#[test]
fn test_switch_between_models() {
    let mut callbacks = NoOpCallbacks::new(models(&["model-a", "model-b"]));
    let mut switcher = ModelSwitcher::new(&callbacks.registered_models());

    // Switch to model-a
    make_ready(&mut switcher, &mut callbacks, "model-a");
    assert!(is_active(&switcher, "model-a"));

    // Switch to model-b
    make_ready(&mut switcher, &mut callbacks, "model-b");
    assert!(is_active(&switcher, "model-b"));

    // Switch back to model-a
    make_ready(&mut switcher, &mut callbacks, "model-a");
    assert!(is_active(&switcher, "model-a"));
}

#[test]
fn test_no_switch_for_active_model() {
    let mut callbacks = NoOpCallbacks::new(models(&["model-a"]));
    let mut switcher = ModelSwitcher::new(&callbacks.registered_models());

    // First switch
    make_ready(&mut switcher, &mut callbacks, "model-a");

    // Second call should need no switch
    assert_eq!(
        switcher.ensure_model_ready("model-a", 2, Span::zero()).unwrap(),
        Readiness::Ready
    );
    assert_eq!(switcher.pending_count("model-a"), 0);
}

#[test]
fn a_switch_drains_sleeps_wakes_and_asks() {
    let mut callbacks = NoOpCallbacks::new(models(&["model-a", "model-b"]));
    let mut switcher = ModelSwitcher::new(&callbacks.registered_models());
    make_ready(&mut switcher, &mut callbacks, "model-a");
    let start = switcher.begin_switch("model-b", true, SleepLevel::L2);
    assert!(matches!(
        switcher.begin_switch("model-b", true, SleepLevel::L2),
        SwitchStart::AlreadySwitching
    ));
    let (actions, _) = carry_out(&mut switcher, &mut callbacks, start, 2);
    assert_eq!(
        actions,
        vec![
            SwitchAction::WaitForInFlight,
            SwitchAction::Sleep(SleepLevel::L2),
            SwitchAction::Wake,
            SwitchAction::CheckReady,
            SwitchAction::Wait(Span::from_millis(100)),
            SwitchAction::CheckReady,
            SwitchAction::Wait(Span::from_millis(200)),
            SwitchAction::CheckReady,
            SwitchAction::Nothing,
        ]
    );
    assert!(is_active(&switcher, "model-b"));
}

#[test]
fn a_model_that_stays_unready_is_given_up() {
    let mut callbacks = NoOpCallbacks::new(models(&["model-a"]));
    let mut switcher = ModelSwitcher::new(&callbacks.registered_models());
    for ticket in [7, 8] {
        assert_eq!(
            switcher.ensure_model_ready("model-a", ticket, Span::zero()).unwrap(),
            Readiness::Queued
        );
    }
    let start = switcher.begin_switch("model-a", true, SleepLevel::L1);
    let (actions, notice) = carry_out(&mut switcher, &mut callbacks, start, u32::MAX);
    let asked = actions.iter().filter(|a| **a == SwitchAction::CheckReady).count();
    assert_eq!(asked, 10);
    let waited: u128 = actions
        .iter()
        .map(|a| match a {
            SwitchAction::Wait(span) => span.nanos,
            _ => 0,
        })
        .sum();
    assert_eq!(waited, Span::from_millis(5500).nanos);
    assert_eq!(notice.tickets, vec![7, 8]);
    assert!(matches!(
        notice.result_for("model-a"),
        Err(SwitchError::Internal(reason)) if reason == "model 'model-a' is not ready"
    ));
    assert!(matches!(switcher.state(), SwitcherState::Idle));
    assert_eq!(switcher.pending_count("model-a"), 0);
}

#[test]
fn a_model_that_cannot_be_woken_leaves_none_awake() {
    let mut callbacks = NoOpCallbacks::new(models(&[]));
    let mut switcher = ModelSwitcher::new(&models(&["model-a"]));
    switcher.ensure_model_ready("model-a", 3, Span::zero()).unwrap();
    let start = switcher.begin_switch("model-a", true, SleepLevel::L1);
    let (_, notice) = carry_out(&mut switcher, &mut callbacks, start, 0);
    assert!(matches!(
        notice.result_for("model-a"),
        Err(SwitchError::Internal(reason)) if reason == "model not found: model-a"
    ));
    assert!(matches!(switcher.state(), SwitcherState::Idle));
}

#[test]
fn those_who_wait_for_an_awake_model_are_told_at_once() {
    let mut callbacks = NoOpCallbacks::new(models(&["model-a", "model-b"]));
    let mut switcher = ModelSwitcher::new(&callbacks.registered_models());
    switcher.ensure_model_ready("model-a", 4, Span::zero()).unwrap();
    switcher.ensure_model_ready("model-b", 5, Span::zero()).unwrap();
    let start = switcher.begin_switch("model-a", true, SleepLevel::L1);
    let (_, notice) = carry_out(&mut switcher, &mut callbacks, start, 0);
    assert_eq!(notice.tickets, vec![4]);
    assert_eq!(switcher.pending_count("model-b"), 1);
    match switcher.begin_switch("model-a", true, SleepLevel::L1) {
        SwitchStart::AlreadyActive(notice) => {
            assert!(matches!(notice.outcome, SwitchOutcome::Woken));
            assert!(notice.tickets.is_empty());
        }
        _ => panic!("the model is awake"),
    }
}

#[test]
fn a_policy_is_told_what_is_the_case() {
    let mut callbacks = NoOpCallbacks::new(models(&["model-a", "model-b"]));
    let mut switcher = ModelSwitcher::new(&callbacks.registered_models());
    make_ready(&mut switcher, &mut callbacks, "model-a");
    let _guard = switcher.acquire_in_flight("model-a").unwrap();
    switcher.ensure_model_ready("model-b", 9, Span::from_secs(2)).unwrap();
    let ctx = switcher.policy_context("model-b", Span::from_secs(5)).unwrap();
    assert_eq!(ctx.target_model, "model-b");
    assert_eq!(ctx.active_model.as_deref(), Some("model-a"));
    assert_eq!(ctx.target_queue_depth, 1);
    assert_eq!(ctx.oldest_waiting, Span::from_secs(3));
    assert_eq!(ctx.active_in_flight, 1);
    assert_eq!(
        switcher.maybe_trigger_switch(&batching(), "model-b", Span::from_secs(5)),
        Trigger::SwitchAfter(Span::from_secs(7))
    );
    assert_eq!(
        switcher.maybe_trigger_switch(&batching(), "model-x", Span::from_secs(5)),
        Trigger::Nothing
    );
    assert!(!switcher.is_drained("model-a"));
}

#[test]
fn the_initial_model_is_woken_if_configured() {
    let config = ModelSwitcherConfig::default();
    assert_eq!(config.model_to_wake(), None);
    let config = ModelSwitcherConfig { initial_model: Some("m".to_string()), wake_on_init: true };
    assert_eq!(config.model_to_wake(), Some("m"));
    let config = ModelSwitcherConfig { initial_model: Some("m".to_string()), wake_on_init: false };
    assert_eq!(config.model_to_wake(), None);
}

#[test]
fn a_start_waits_for_the_initial_model() {
    let mut switcher = ModelSwitcher::new(&models(&["m"]));
    let quiet = ModelSwitcherConfig::default();
    assert!(matches!(switcher.initialize(&quiet, 1, Span::from_secs(0)), Ok(Readiness::Ready)));
    let waking = ModelSwitcherConfig { initial_model: Some("m".to_string()), wake_on_init: true };
    assert!(matches!(switcher.initialize(&waking, 2, Span::from_secs(0)), Ok(Readiness::Queued)));
    let unknown = ModelSwitcherConfig { initial_model: Some("x".to_string()), wake_on_init: true };
    assert!(matches!(
        switcher.initialize(&unknown, 3, Span::from_secs(0)),
        Err(SwitchError::ModelNotFound(model)) if model == "x"
    ));
}

#[test]
fn waiting_ends_in_one_of_three_ways() {
    assert!(wait_result(Waited::Told(Ok(()))).is_ok());
    assert!(matches!(
        wait_result(Waited::Closed),
        Err(SwitchError::Internal(reason)) if reason == "switcher shutdown"
    ));
    assert!(matches!(wait_result(Waited::TimedOut), Err(SwitchError::Timeout)));
}

// ---------------------------------------------------------------------------
// vLLM
// ---------------------------------------------------------------------------

/// A client that notes what it is sent.
struct MockVllmClient {
    posts: Mutex<Vec<(String, Option<String>)>>,
    gets: Mutex<Vec<String>>,
    statuses: Mutex<Vec<Result<u16, String>>>,
    health_status: AtomicU16,
}

impl MockVllmClient {
    fn new() -> Self {
        Self {
            posts: Mutex::new(Vec::new()),
            gets: Mutex::new(Vec::new()),
            statuses: Mutex::new(Vec::new()),
            health_status: AtomicU16::new(200),
        }
    }

    fn answering(statuses: Vec<Result<u16, String>>) -> Self {
        let client = Self::new();
        *client.statuses.lock().unwrap() = statuses;
        client
    }

    fn calls(&self, part: &str) -> usize {
        self.posts.lock().unwrap().iter().filter(|(url, _)| url.contains(part)).count()
    }
}

impl VllmHttpClient for MockVllmClient {
    fn post(&self, url: &str, body: Option<&str>) -> Result<u16, String> {
        self.posts.lock().unwrap().push((url.to_string(), body.map(|b| b.to_string())));
        let mut statuses = self.statuses.lock().unwrap();
        if statuses.is_empty() {
            Ok(200)
        } else {
            statuses.remove(0)
        }
    }

    fn get(&self, url: &str) -> Result<(u16, String), String> {
        self.gets.lock().unwrap().push(url.to_string());
        Ok((self.health_status.load(Ordering::SeqCst), "{}".to_string()))
    }
}

fn server(name: &str, sleep_level: SleepLevel) -> VllmModelConfig {
    VllmModelConfig {
        model_name: name.to_string(),
        base_url: "http://localhost:8001".to_string(),
        sleep_level,
    }
}

#[test]
fn test_wake_model_l1() {
    let mock = Arc::new(MockVllmClient::new());
    let mut callbacks =
        VllmCallbacks::with_client(vec![server("test-model", SleepLevel::L1)], Arc::clone(&mock));

    callbacks.wake_model("test-model").unwrap();

    assert_eq!(mock.calls("/wake_up"), 1);
    assert_eq!(mock.posts.lock().unwrap().len(), 1);
}

#[test]
fn test_wake_model_l2_reloads_weights() {
    let mock = Arc::new(MockVllmClient::new());
    let mut callbacks =
        VllmCallbacks::with_client(vec![server("test-model", SleepLevel::L2)], Arc::clone(&mock));

    callbacks.wake_model("test-model").unwrap();

    assert_eq!(mock.calls("/wake_up"), 1);
    assert_eq!(
        *mock.posts.lock().unwrap(),
        vec![
            ("http://localhost:8001/wake_up".to_string(), None),
            (
                "http://localhost:8001/collective_rpc".to_string(),
                Some(r#"{"method": "reload_weights"}"#.to_string())
            ),
            ("http://localhost:8001/reset_prefix_cache".to_string(), None),
        ]
    );
}

#[test]
fn test_sleep_model() {
    let mock = Arc::new(MockVllmClient::new());
    let mut callbacks =
        VllmCallbacks::with_client(vec![server("test-model", SleepLevel::L1)], Arc::clone(&mock));

    callbacks.sleep_model("test-model", SleepLevel::L2).unwrap();

    assert_eq!(mock.calls("/sleep"), 1);
    assert_eq!(mock.posts.lock().unwrap()[0].0, "http://localhost:8001/sleep?level=2");
}

#[test]
fn a_deep_sleep_is_remembered_until_the_model_is_woken() {
    let mock = Arc::new(MockVllmClient::new());
    let mut callbacks =
        VllmCallbacks::with_client(vec![server("m", SleepLevel::L1)], Arc::clone(&mock));
    callbacks.sleep_model("m", SleepLevel::L2).unwrap();
    callbacks.sleep_model("m", SleepLevel::L1).unwrap();
    mock.posts.lock().unwrap().clear();

    callbacks.wake_model("m").unwrap();
    let expected = vec![
        ("http://localhost:8001/wake_up".to_string(), None),
        (
            "http://localhost:8001/collective_rpc".to_string(),
            Some(r#"{"method": "reload_weights"}"#.to_string()),
        ),
        ("http://localhost:8001/reset_prefix_cache".to_string(), None),
    ];
    assert_eq!(*mock.posts.lock().unwrap(), expected);

    mock.posts.lock().unwrap().clear();
    callbacks.wake_model("m").unwrap();
    assert_eq!(mock.posts.lock().unwrap().len(), 1);
}

#[test]
fn a_sleep_that_failed_is_not_remembered() {
    let mock = Arc::new(MockVllmClient::answering(vec![Ok(500)]));
    let mut callbacks =
        VllmCallbacks::with_client(vec![server("m", SleepLevel::L1)], Arc::clone(&mock));
    assert!(callbacks.sleep_model("m", SleepLevel::L2).is_err());
    callbacks.wake_model("m").unwrap();
    assert_eq!(mock.posts.lock().unwrap().len(), 2);
}

#[test]
fn vllm_test_model_not_found() {
    let mut callbacks = VllmCallbacks::new(vec![server("model-a", SleepLevel::L1)]);

    let result = callbacks.wake_model("unknown-model");
    assert!(matches!(result, Err(SwitchError::ModelNotFound(_))));
    assert!(matches!(
        callbacks.sleep_model("unknown-model", SleepLevel::L1),
        Err(SwitchError::ModelNotFound(_))
    ));
    assert!(!callbacks.is_ready("unknown-model"));
}

#[test]
fn test_registered_models() {
    let mut callbacks =
        VllmCallbacks::new(vec![server("model-a", SleepLevel::L1), server("model-b", SleepLevel::L2)]);
    let models = callbacks.registered_models();

    assert_eq!(models.len(), 2);
    assert!(models.contains(&"model-a".to_string()));
    assert!(models.contains(&"model-b".to_string()));
}

fn wake_reason(statuses: Vec<Result<u16, String>>) -> Option<String> {
    let mock = Arc::new(MockVllmClient::answering(statuses));
    let mut callbacks = VllmCallbacks::with_client(vec![server("m", SleepLevel::L2)], mock);
    match callbacks.wake_model("m") {
        Ok(()) => None,
        Err(SwitchError::WakeFailed { model, reason }) => {
            assert_eq!(model, "m");
            Some(reason)
        }
        Err(e) => panic!("{:?}", e),
    }
}

#[test]
fn waking_fails_with_its_reason() {
    let refused = || Err("refused".to_string());
    assert_eq!(wake_reason(vec![refused()]).unwrap(), "wake_up request failed: refused");
    assert_eq!(wake_reason(vec![Ok(500)]).unwrap(), "wake_up returned status 500");
    assert_eq!(
        wake_reason(vec![Ok(200), refused()]).unwrap(),
        "reload_weights request failed: refused"
    );
    assert_eq!(wake_reason(vec![Ok(200), Ok(404)]).unwrap(), "reload_weights returned status 404");
    assert_eq!(
        wake_reason(vec![Ok(200), Ok(200), refused()]).unwrap(),
        "reset_prefix_cache request failed: refused"
    );
    // A server that answers need not have reset its cache.
    assert_eq!(wake_reason(vec![Ok(200), Ok(200), Ok(500)]), None);
    assert_eq!(wake_reason(vec![Ok(399)]), None);
}

#[test]
fn sleeping_fails_with_its_reason() {
    for (reply, expected) in [
        (Err("refused".to_string()), "sleep request failed: refused"),
        (Ok(400), "sleep returned status 400"),
    ] {
        let mock = Arc::new(MockVllmClient::answering(vec![reply]));
        let mut callbacks = VllmCallbacks::with_client(vec![server("m", SleepLevel::L1)], mock);
        match callbacks.sleep_model("m", SleepLevel::L1) {
            Err(SwitchError::SleepFailed { model, reason }) => {
                assert_eq!(model, "m");
                assert_eq!(reason, expected);
            }
            other => panic!("{:?}", other),
        }
    }
}

#[test]
fn only_a_healthy_server_is_ready() {
    let mock = Arc::new(MockVllmClient::new());
    let mut callbacks =
        VllmCallbacks::with_client(vec![server("m", SleepLevel::L1)], Arc::clone(&mock));
    assert!(callbacks.is_ready("m"));
    assert_eq!(mock.gets.lock().unwrap()[0], "http://localhost:8001/health");
    mock.health_status.store(204, Ordering::SeqCst);
    assert!(!callbacks.is_ready("m"));
}

#[test]
fn the_default_client_takes_every_request_to_succeed() {
    let client = DefaultVllmClient::new(Span::from_secs(30));
    assert_eq!(client.post("http://localhost/x", None), Ok(200));
    assert_eq!(client.get("http://localhost/x"), Ok((200, "{}".to_string())));
    assert_eq!(DefaultVllmClient::default().timeout, Span::zero());
}

#[test]
fn of_two_servers_for_one_model_the_later_counts() {
    let mut second = server("m", SleepLevel::L1);
    second.base_url = "http://localhost:8002".to_string();
    let mock = Arc::new(MockVllmClient::new());
    let mut callbacks =
        VllmCallbacks::with_client(vec![server("m", SleepLevel::L1), second], Arc::clone(&mock))
            .with_ready_timeout(Span::from_secs(5))
            .with_ready_poll_interval(Span::from_millis(50));
    assert_eq!(callbacks.registered_models(), vec!["m".to_string()]);
    callbacks.wake_model("m").unwrap();
    assert_eq!(mock.posts.lock().unwrap()[0].0, "http://localhost:8002/wake_up");
}
