use axum::http::HeaderMap;
use onwards::model_switcher::callbacks::SleepLevel;
use onwards::model_switcher::policy::SwitchPolicy;
use onwards::model_switcher::switcher::{
    ModelSwitcher, Notice, Readiness, SwitchOutcome, SwitcherState,
};
use onwards::names::NameMap;
use onwards::span::Span;
use onwards::switch_proxy::config::{
    default_drain_before_switch, default_dtype, default_metrics_port, default_policy_type,
    default_port, default_request_timeout, default_sleep_level, default_tensor_parallel_size,
    default_vllm_command, Config, ModelConfig, PolicyConfig,
};
use onwards::switch_proxy::middleware::{
    extract_model, route, switch_error_response, unreadable_body, Route,
};
use onwards::switch_proxy::mock_vllm::{
    default_max_tokens, model_and_port, rpc_delay, MockState,
};
use onwards::switch_proxy::policy::FifoPolicy;
use onwards::switch_proxy::switcher::{
    ensure_model_ready, result_for, wait_result, SwitchError, Waited,
};
use onwards::target::ConnectionTable;
use serde_json::Value;

// ---------------------------------------------------------------------------
// Configuration
// ---------------------------------------------------------------------------

fn model_config(port: u16) -> ModelConfig {
    ModelConfig {
        model_path: "test".to_string(),
        port,
        gpu_memory_utilization: 0.9f32.to_string(),
        tensor_parallel_size: default_tensor_parallel_size(),
        dtype: default_dtype(),
        extra_args: vec![],
        sleep_level: default_sleep_level(),
    }
}

#[test]
fn test_vllm_args() {
    let config = ModelConfig {
        model_path: "meta-llama/Llama-2-7b".to_string(),
        port: 8001,
        gpu_memory_utilization: 0.9f32.to_string(),
        tensor_parallel_size: 2,
        dtype: "float16".to_string(),
        extra_args: vec!["--max-model-len".to_string(), "4096".to_string()],
        sleep_level: 1,
    };

    let args = config.vllm_args();
    assert!(args.contains(&"--enable-sleep-mode".to_string()));
    assert!(args.contains(&"--tensor-parallel-size".to_string()));
    assert!(args.contains(&"2".to_string()));
    assert_eq!(
        args,
        vec![
            "serve",
            "meta-llama/Llama-2-7b",
            "--port",
            "8001",
            "--gpu-memory-utilization",
            "0.9",
            "--tensor-parallel-size",
            "2",
            "--dtype",
            "float16",
            "--enable-sleep-mode",
            "--max-model-len",
            "4096",
        ]
    );
}

#[test]
fn defaults_where_nothing_is_configured() {
    assert_eq!(default_port(), 3000);
    assert_eq!(default_metrics_port(), 9090);
    assert_eq!(default_vllm_command(), "vllm");
    assert_eq!(default_policy_type(), "fifo");
    assert_eq!(default_request_timeout(), 60);
    assert!(default_drain_before_switch());
    assert_eq!(default_dtype(), "auto");
    let none = PolicyConfig::default();
    assert_eq!(none.policy_type, "fifo");
    assert_eq!(none.request_timeout_secs, 60);
    assert!(none.drain_before_switch);
    assert_eq!(none.sleep_level, 1);
}

#[test]
fn policy_is_built_as_configured() {
    let policy = PolicyConfig {
        policy_type: default_policy_type(),
        request_timeout_secs: 30,
        drain_before_switch: false,
        sleep_level: 2,
    }
    .build_policy();
    assert_eq!(policy.request_timeout(), Span::from_secs(30));
    assert_eq!(policy.sleep_level(), SleepLevel::L2);
    assert!(!policy.drains_before_switch());
    let policy = FifoPolicy::default();
    assert_eq!(policy.request_timeout(), Span::from_secs(60));
    assert_eq!(policy.sleep_level(), SleepLevel::L1);
    assert!(policy.drains_before_switch());
}

#[test]
fn each_model_gets_a_pool_with_its_server() {
    let mut models = NameMap::new();
    models.insert("llama", model_config(8001));
    models.insert("mistral", model_config(8002));
    let config = Config {
        models,
        policy: PolicyConfig::default(),
        port: default_port(),
        metrics_port: default_metrics_port(),
        vllm_command: default_vllm_command(),
    };
    let mut table = ConnectionTable::new();
    let targets = config.build_onwards_targets(&mut table).unwrap();
    let pool = targets.find_pool("mistral", None).unwrap();
    assert_eq!(pool.len(), 1);
    assert_eq!(pool.first_target().unwrap().url.as_str(), "http://localhost:8002/");
    assert!(pool.select(&mut table, 0).is_some());
    assert_eq!(targets.accessible_models(None), vec!["llama".to_string(), "mistral".to_string()]);
}

// ---------------------------------------------------------------------------
// Middleware
// ---------------------------------------------------------------------------

#[test]
fn test_extract_model_from_header() {
    let mut headers = HeaderMap::new();
    headers.insert("model-override", "llama".parse().unwrap());

    let model = extract_model(&headers, b"{}");

    assert_eq!(model, Some("llama".to_string()));
}

#[test]
fn test_extract_model_from_body() {
    let headers = HeaderMap::new();
    let body = br#"{"model": "mistral", "messages": []}"#;

    let model = extract_model(&headers, body);
    assert_eq!(model, Some("mistral".to_string()));
}

#[test]
fn test_extract_model_header_precedence() {
    let mut headers = HeaderMap::new();
    headers.insert("model-override", "from-header".parse().unwrap());

    let body = br#"{"model": "from-body"}"#;
    let model = extract_model(&headers, body);

    // Header takes precedence
    assert_eq!(model, Some("from-header".to_string()));
}

#[test]
fn test_extract_model_none() {
    let headers = HeaderMap::new();
    let body = br#"{"messages": []}"#;

    let model = extract_model(&headers, body);
    assert_eq!(model, None);
}

#[test]
fn an_unreadable_header_leaves_the_choice_to_the_body() {
    let mut headers = HeaderMap::new();
    headers.insert("model-override", axum::http::HeaderValue::from_bytes(b"\xff").unwrap());
    assert_eq!(extract_model(&headers, br#"{"model":"m"}"#), Some("m".to_string()));
}

#[test]
fn only_known_models_are_switched() {
    let switcher = ModelSwitcher::new(&vec!["a".to_string()]);
    let headers = HeaderMap::new();
    assert!(matches!(route(&switcher, &headers, br#"{"model":"a"}"#), Route::Switch(m) if m == "a"));
    assert!(matches!(route(&switcher, &headers, br#"{"model":"b"}"#), Route::PassThrough));
    assert!(matches!(route(&switcher, &headers, b"plain"), Route::PassThrough));
}

#[test]
fn errors_are_answered_with_their_status() {
    let answers = [
        (SwitchError::ModelNotFound("m".to_string()), 404, "Model not found: m"),
        (SwitchError::NotReady("m".to_string()), 503, "Model not ready: m"),
        (SwitchError::Timeout, 504, "Request timed out waiting for model"),
        (SwitchError::Orchestrator("e".to_string()), 500, "Orchestrator error: e"),
        (SwitchError::Internal("e".to_string()), 500, "Internal error: e"),
    ];
    for (error, status, message) in answers {
        let reply = switch_error_response(&error);
        assert_eq!(reply.status, status);
        assert_eq!(reply.message, message);
    }
    let reply = unreadable_body();
    assert_eq!(reply.status, 400);
    let document: Value =
        serde_json::from_str(&reply.to_json().render().unwrap()).unwrap();
    assert_eq!(document["error"]["message"], "Failed to read request body");
    assert_eq!(document["error"]["type"], "model_switcher_error");
}

// ---------------------------------------------------------------------------
// The switcher
// ---------------------------------------------------------------------------

#[test]
fn test_switcher_creation() {
    let switcher = ModelSwitcher::new(&vec!["model-a".to_string(), "model-b".to_string()]);

    assert!(switcher.is_registered("model-a"));
    assert!(switcher.is_registered("model-b"));
    assert!(!switcher.is_registered("model-c"));
}

#[test]
fn test_switcher_initial_state() {
    let switcher = ModelSwitcher::new(&vec!["model-a".to_string()]);
    assert!(matches!(switcher.state(), SwitcherState::Idle));
    assert_eq!(switcher.active_model(), None);
}

#[test]
fn test_switcher_unregistered_model_error() {
    let mut switcher = ModelSwitcher::new(&vec!["model-a".to_string()]);
    assert!(matches!(
        ensure_model_ready(&mut switcher, "unknown", 1, Span::zero()),
        Err(SwitchError::ModelNotFound(m)) if m == "unknown"
    ));
    assert_eq!(
        ensure_model_ready(&mut switcher, "model-a", 1, Span::zero()).unwrap(),
        Readiness::Queued
    );
}

#[test]
fn waiting_requests_are_told_why_their_model_is_not_ready() {
    let notice = |outcome| Notice { tickets: vec![1], outcome };
    assert!(result_for(&notice(SwitchOutcome::Woken), "m").is_ok());
    assert!(matches!(
        result_for(&notice(SwitchOutcome::NotReady), "m"),
        Err(SwitchError::Internal(reason)) if reason == "model not ready: m"
    ));
    assert!(matches!(
        result_for(&notice(SwitchOutcome::WakeFailed("gone".to_string())), "m"),
        Err(SwitchError::Internal(reason)) if reason == "orchestrator error: gone"
    ));
    assert!(matches!(
        wait_result(Waited::Closed),
        Err(SwitchError::Internal(reason)) if reason == "channel closed"
    ));
    assert!(matches!(wait_result(Waited::TimedOut), Err(SwitchError::Timeout)));
    assert!(wait_result(Waited::Told(Ok(()))).is_ok());
    assert_eq!(SwitchError::Timeout.message(), "request timeout");
    assert_eq!(SwitchError::ModelNotFound("m".to_string()).message(), "model not found: m");
    assert_eq!(SwitchError::Internal("e".to_string()).message(), "internal error: e");
}

// ---------------------------------------------------------------------------
// The mock server
// ---------------------------------------------------------------------------

fn stats_of(state: &MockState) -> Value {
    serde_json::from_str(&state.stats().render().unwrap()).unwrap()
}

#[test]
fn test_mock_server_basic() {
    let mut state = MockState::new("test-model".to_string());
    assert_eq!(state.health(), 200);
    assert_eq!(stats_of(&state)["model"], "test-model");
    assert_eq!(stats_of(&state)["sleeping"], false);
    let answer: Value =
        serde_json::from_str(&state.chat_completions(Some("Hello"), 12).render().unwrap()).unwrap();
    assert_eq!(answer["id"], "chatcmpl-mock-1");
    assert_eq!(answer["object"], "chat.completion");
    assert_eq!(answer["created"], 12);
    assert_eq!(answer["model"], "test-model");
    assert_eq!(
        answer["choices"][0]["message"]["content"],
        "Mock response from test-model (request #1): You said \"Hello\""
    );
    assert_eq!(answer["choices"][0]["finish_reason"], "stop");
    assert_eq!(answer["usage"]["total_tokens"], 30);
    assert_eq!(stats_of(&state)["request_count"], 1);
    let list: Value = serde_json::from_str(&state.list_models().render().unwrap()).unwrap();
    assert_eq!(list["data"][0]["id"], "test-model");
    assert_eq!(list["data"][0]["owned_by"], "mock-vllm");
}

#[test]
fn test_mock_server_sleep_wake() {
    let mut state = MockState::new("test-model".to_string());
    state.sleep(Some(1));
    assert_eq!(stats_of(&state)["sleeping"], true);
    assert_eq!(stats_of(&state)["sleep_level"], 1);
    state.wake_up();
    assert_eq!(stats_of(&state)["sleeping"], false);
}

#[test]
fn test_mock_server_l2_sleep() {
    let mut state = MockState::new("test-model".to_string());
    state.sleep(Some(2));
    assert_eq!(stats_of(&state)["sleep_level"], 2);
    state.sleep(None);
    assert_eq!(stats_of(&state)["sleep_level"], 1);
}

#[test]
fn test_mock_server_rejects_while_sleeping() {
    let mut state = MockState::new("test-model".to_string());
    assert_eq!(state.refusal(), None);
    state.sleep(Some(1));
    assert_eq!(state.refusal(), Some((503, "Model is sleeping".to_string())));
    assert_eq!(state.health(), 200);
}

#[test]
fn mock_server_options() {
    assert_eq!(default_max_tokens(), 100);
    let served = model_and_port(Some(("a".to_string(), Some(1))), "b".to_string(), 2);
    assert_eq!(served, ("a".to_string(), 1));
    let served = model_and_port(Some(("a".to_string(), None)), "b".to_string(), 2);
    assert_eq!(served, ("a".to_string(), 2));
    assert_eq!(model_and_port(None, "b".to_string(), 2), ("b".to_string(), 2));
    assert_eq!(rpc_delay("reload_weights"), Span::from_millis(100));
    assert_eq!(rpc_delay("other"), Span::zero());
}
