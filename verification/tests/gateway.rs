use std::sync::Arc;

use axum::http::{HeaderMap, HeaderName, HeaderValue};
use onwards::auth::{ConstantTimeString, KeySet};
use onwards::errors::OnwardsErrorResponse;
use onwards::handlers::admission::{
    apply_override, bearer_token, extract_model_from_request, release_slots, Targets,
};
use onwards::handlers::embedded::{
    classify_sse_event, scan_body, PeekEvent, Scan2xx, SsePeek,
};
use onwards::handlers::exchange::{Action, AttemptEvent, Exchange, Manner};
use onwards::handlers::forwarding::{check_auth, find_destination, resolve_trust};
use onwards::handlers::reasoning::settle_translation;
use onwards::handlers::relay::{
    judge_outcome, judge_rate_limit, judge_scan, plan_body, response_is_stream, served_by,
    settle_body, settle_event, Pause, Relay, UpstreamOutcome, Verdict,
};
use onwards::headers::room_for;
use onwards::json::Json;
use onwards::load_balancer::{Provider, ProviderPool};
use onwards::models::ListModelResponse;
use onwards::names::NameMap;
use onwards::sse::SseBuffer;
use onwards::target::{
    ConcurrencyLimiter, ConnectionTable, FallbackConfig, Labels, LoadBalanceStrategy,
    RateLimitExceeded, RateLimiter, RoutingAction, RoutingRule, Target, TargetUrl,
};
use serde_json::Value;

// ---------------------------------------------------------------------------
// A gateway without a network
// ---------------------------------------------------------------------------

/// What an upstream answers.
#[derive(Clone)]
struct Reply {
    status: u16,
    content_type: &'static str,
    chunks: Vec<String>,
}

fn whole(status: u16, body: &str) -> Reply {
    Reply { status, content_type: "application/json", chunks: vec![body.to_string()] }
}

fn stream(chunks: Vec<String>) -> Reply {
    Reply { status: 200, content_type: "text/event-stream", chunks }
}

/// A request that an upstream was sent.
struct Sent {
    method: &'static str,
    uri: String,
    headers: HeaderMap,
    body: Vec<u8>,
}

/// What the client is answered.
struct Answer {
    status: u16,
    headers: HeaderMap,
    body: String,
}

impl Answer {
    fn json(&self) -> Value {
        serde_json::from_str(&self.body).unwrap()
    }
}

fn refused(error: OnwardsErrorResponse) -> Answer {
    let status = error.status;
    Answer {
        status,
        headers: HeaderMap::new(),
        body: error.to_json().unwrap().render().unwrap(),
    }
}

struct Gateway {
    targets: Targets,
    table: ConnectionTable,
    /// The answers, in order; the last is given again and again.
    replies: Vec<Reply>,
    sent: Vec<Sent>,
}

/// Looks for an error in the first events of a stream that has ended.
fn peek(chunks: &[String]) -> Scan2xx {
    let mut buffer = SseBuffer::new();
    let mut events = Vec::new();
    for chunk in chunks {
        events.extend(buffer.push(chunk.as_bytes()));
    }
    events.extend(buffer.finish());
    let mut peek = SsePeek::new();
    let mut events = events.into_iter();
    while peek.wants_more() {
        match events.next() {
            Some(event) => peek.observe(PeekEvent::Frame(classify_sse_event(&event))),
            None => peek.observe(PeekEvent::Closed),
        }
    }
    peek.verdict(false)
}

impl Gateway {
    fn new(targets: Targets, table: ConnectionTable, replies: Vec<Reply>) -> Gateway {
        Gateway { targets, table, replies, sent: Vec::new() }
    }

    fn post(&mut self, headers: HeaderMap, body: &str) -> Answer {
        self.request("POST", headers, body)
    }

    fn request(&mut self, method: &'static str, headers: HeaderMap, body: &str) -> Answer {
        let body = body.as_bytes().to_vec();
        let admitted = match self.targets.let_in(&headers, &body, &mut self.table) {
            Ok(admitted) => admitted,
            Err(error) => return refused(error),
        };
        let manner = Manner { strict_mode: self.targets.strict_mode, has_transform: false };
        let mut exchange = Exchange::new(admitted.pool, &admitted.model, manner);
        let answer = 'request: loop {
            assert!(exchange.draw_is_possible(&self.table, 0));
            let (target, guard) = match exchange.pick(&mut self.table, 0) {
                Ok(picked) => picked,
                Err(error) => break refused(error),
            };
            assert!(check_auth(target));
            assert!(room_for(&headers, 3));
            let mut sent_headers = headers.clone();
            let mut reply = None;
            let mut response = HeaderMap::new();
            let mut action =
                exchange.begin("/v1/chat/completions", &body, &mut sent_headers, None);
            loop {
                let event = match action {
                    Action::Send(prepared) => {
                        let number = self.sent.len().min(self.replies.len() - 1);
                        let given = self.replies[number].clone();
                        self.sent.push(Sent {
                            method,
                            uri: prepared.url,
                            headers: sent_headers.clone(),
                            body: prepared.body,
                        });
                        response.insert("content-type", given.content_type.parse().unwrap());
                        let outcome = UpstreamOutcome::Status(given.status);
                        reply = Some(given);
                        AttemptEvent::Outcome { outcome, stream: response_is_stream(&response) }
                    }
                    Action::Scan { stream } => {
                        let chunks = &reply.as_ref().unwrap().chunks;
                        AttemptEvent::Scanned(if stream {
                            peek(chunks)
                        } else {
                            scan_body(chunks.concat().as_bytes())
                        })
                    }
                    Action::Transform { .. } => unreachable!(),
                    Action::Deliver => {
                        let given = reply.unwrap();
                        assert!(exchange.deliver(&mut response).is_some());
                        self.table.release(guard);
                        break 'request Answer {
                            status: given.status,
                            headers: response,
                            body: given.chunks.concat(),
                        };
                    }
                    Action::Choose => break,
                    Action::Wait(_) => unreachable!(),
                    Action::Refuse(error) => {
                        self.table.release(guard);
                        break 'request refused(error);
                    }
                };
                action = exchange.advance(event, None);
            }
            self.table.release(guard);
        };
        release_slots(admitted.slots, &mut self.table);
        answer
    }
}

fn target_at(url: &str) -> Target {
    Target::new(TargetUrl::parse(url).unwrap())
}

fn no_targets() -> Targets {
    Targets {
        targets: NameMap::new(),
        key_labels: NameMap::new(),
        key_rate_limiters: NameMap::new(),
        key_concurrency_limiters: NameMap::new(),
        strict_mode: false,
    }
}

fn serving(table: &mut ConnectionTable, models: Vec<(&str, Target)>) -> Targets {
    let mut targets = no_targets();
    for (name, target) in models {
        targets.targets.insert(name, Arc::new(ProviderPool::single(table, target, 1)));
    }
    targets
}

fn pool_of(providers: Vec<Provider>, keys: Option<KeySet>, rules: Vec<RoutingRule>) -> ProviderPool {
    ProviderPool::with_config(
        providers,
        keys,
        None,
        None,
        None,
        LoadBalanceStrategy::default(),
        false,
        rules,
    )
}

fn key_set(keys: &[&str]) -> KeySet {
    let mut set = KeySet::new();
    for key in keys {
        set.insert(ConstantTimeString::from(key.to_string()));
    }
    set
}

/// A strict gateway that tries `n` providers and retries on some statuses.
fn fallback_gateway(n: usize, on_status: Vec<u16>, replies: Vec<Reply>) -> Gateway {
    let mut table = ConnectionTable::new();
    let mut providers = Vec::new();
    for i in 0..n {
        let target = Target {
            request_timeout_secs: Some(5),
            ..target_at(&format!("https://p{i}.example.com/"))
        };
        providers.push(Provider::new(&mut table, target, 1));
    }
    let pool = ProviderPool::with_config(
        providers,
        None,
        None,
        None,
        Some(FallbackConfig { enabled: true, on_status, ..Default::default() }),
        LoadBalanceStrategy::Priority,
        false,
        Vec::new(),
    );
    let mut targets = no_targets();
    targets.targets.insert("gpt-4", Arc::new(pool));
    targets.strict_mode = true;
    Gateway::new(targets, table, replies)
}

const CHAT: &str = r#"{"model":"gpt-4","messages":[{"role":"user","content":"Hello"}]}"#;

const STREAMING_CHAT: &str =
    r#"{"model":"gpt-4","stream":true,"messages":[{"role":"user","content":"Hello"}]}"#;

fn chat(model: &str) -> String {
    format!(r#"{{"model":"{model}","messages":[{{"role":"user","content":"Hello"}}]}}"#)
}

fn with_header(name: &'static str, value: &'static str) -> HeaderMap {
    let mut headers = HeaderMap::new();
    headers.insert(HeaderName::from_static(name), HeaderValue::from_static(value));
    headers
}

// ---------------------------------------------------------------------------
// Routing
// ---------------------------------------------------------------------------

#[test]
fn test_empty_targets_returns_404() {
    let mut gateway = Gateway::new(no_targets(), ConnectionTable::new(), vec![whole(200, "{}")]);
    let answer = gateway.post(HeaderMap::new(), CHAT);
    assert_eq!(answer.status, 404);
    assert_eq!(answer.json()["error"]["code"], "model_not_found");
}

#[test]
fn a_request_without_a_model_is_bad() {
    let mut gateway = Gateway::new(no_targets(), ConnectionTable::new(), vec![whole(200, "{}")]);
    let answer = gateway.post(HeaderMap::new(), "{}");
    assert_eq!(answer.status, 400);
    assert_eq!(answer.json()["error"]["param"], "model");
}

#[test]
fn test_request_and_response_details() {
    let mut table = ConnectionTable::new();
    let target = Target {
        onwards_key: Some("test-api-key".to_string()),
        ..target_at("https://api.example.com")
    };
    let targets = serving(&mut table, vec![("test-model", target)]);
    let reply = r#"{"id": "test-response", "object": "chat.completion", "choices": [{"message": {"content": "Hello from mock!"}}]}"#;
    let mut gateway = Gateway::new(targets, table, vec![whole(200, reply)]);

    let answer = gateway.post(
        with_header("content-type", "application/json"),
        r#"{"model": "test-model", "messages": [{"role": "user", "content": "Hello!"}], "temperature": 0.7}"#,
    );

    assert_eq!(answer.status, 200);
    assert_eq!(answer.json()["id"], "test-response");
    assert_eq!(answer.json()["choices"][0]["message"]["content"], "Hello from mock!");

    assert_eq!(gateway.sent.len(), 1);
    let sent = &gateway.sent[0];
    assert_eq!(sent.method, "POST");
    assert_eq!(sent.uri, "https://api.example.com/v1/chat/completions");
    assert_eq!(sent.headers["authorization"], "Bearer test-api-key");
    assert_eq!(sent.headers["host"], "api.example.com");
    assert_eq!(sent.headers["content-type"], "application/json");
    let forwarded: Value = serde_json::from_slice(&sent.body).unwrap();
    assert_eq!(forwarded["model"], "test-model");
    assert_eq!(forwarded["messages"][0]["content"], "Hello!");
    assert_eq!(forwarded["temperature"], 0.7);
}

#[test]
fn test_model_override_header_takes_precedence() {
    let mut table = ConnectionTable::new();
    let header_target = Target {
        onwards_key: Some("header-key".to_string()),
        ..target_at("https://api.header.com")
    };
    let body_target = Target {
        onwards_key: Some("body-key".to_string()),
        ..target_at("https://api.body.com")
    };
    let targets =
        serving(&mut table, vec![("header-model", header_target), ("body-model", body_target)]);
    let mut gateway = Gateway::new(targets, table, vec![whole(200, r#"{"success": true}"#)]);

    let answer = gateway.post(
        with_header("model-override", "header-model"),
        r#"{"model": "body-model", "messages": [{"role": "user", "content": "Test"}]}"#,
    );
    assert_eq!(answer.status, 200);
    assert_eq!(gateway.sent.len(), 1);
    assert!(gateway.sent[0].uri.contains("api.header.com"));
    assert!(!gateway.sent[0].uri.contains("api.body.com"));
    assert_eq!(gateway.sent[0].headers["authorization"], "Bearer header-key");
    assert!(!gateway.sent[0].headers.contains_key("model-override"));
}

#[test]
fn the_model_is_renamed_for_the_upstream() {
    let mut table = ConnectionTable::new();
    let target = Target {
        onwards_model: Some("upstream-name".to_string()),
        ..target_at("https://api.example.com/v1")
    };
    let targets = serving(&mut table, vec![("gpt-4", target)]);
    let mut gateway = Gateway::new(targets, table, vec![whole(200, "{}")]);
    assert_eq!(gateway.post(HeaderMap::new(), CHAT).status, 200);
    let forwarded: Value = serde_json::from_slice(&gateway.sent[0].body).unwrap();
    assert_eq!(forwarded["model"], "upstream-name");
    assert_eq!(
        gateway.sent[0].headers["content-length"],
        gateway.sent[0].body.len().to_string().as_str()
    );
    // The body names no model, so it cannot be renamed.
    let answer = gateway.post(with_header("model-override", "gpt-4"), r#"{"messages":[]}"#);
    assert_eq!(answer.status, 400);
}

#[test]
fn extract_model_prefers_the_header() {
    let headers = with_header("model-override", "gpt-4");
    let body = br#"{"model": "gpt-3.5", "messages": []}"#;
    assert_eq!(extract_model_from_request(&headers, body).unwrap(), "gpt-4");
    let body = br#"{"model": "mistral-large", "messages": []}"#;
    assert_eq!(extract_model_from_request(&HeaderMap::new(), body).unwrap(), "mistral-large");
    assert_eq!(extract_model_from_request(&HeaderMap::new(), b"[]"), None);
    assert_eq!(extract_model_from_request(&HeaderMap::new(), br#"{"model": 4}"#), None);
    // A header that is no text decides too.
    let mut headers = HeaderMap::new();
    headers.insert("model-override", HeaderValue::from_bytes(b"\xff").unwrap());
    assert_eq!(extract_model_from_request(&headers, br#"{"model": "m"}"#), None);
}

#[test]
fn bearer_tokens_are_read_from_the_authorization() {
    assert_eq!(bearer_token(&with_header("authorization", "Bearer abc")).as_deref(), Some("abc"));
    assert_eq!(bearer_token(&with_header("authorization", "Basic abc")), None);
    assert_eq!(bearer_token(&HeaderMap::new()), None);
}

// ---------------------------------------------------------------------------
// Keys
// ---------------------------------------------------------------------------

fn keyed_targets(table: &mut ConnectionTable) -> Targets {
    let mut targets = no_targets();
    for (name, url, keys) in [
        ("gpt-4", "https://api.openai.com", Some(key_set(&["gpt4-token"]))),
        ("mistral-large", "https://api.mistral.ai", Some(key_set(&["mistral-token"]))),
        ("gemini-pro", "https://api.google.com", None),
    ] {
        let providers = vec![Provider::new(table, target_at(url), 1)];
        targets.targets.insert(name, Arc::new(pool_of(providers, keys, Vec::new())));
    }
    targets
}

#[test]
fn models_are_listed_by_bearer_token() {
    let targets = keyed_targets(&mut ConnectionTable::new());
    assert_eq!(targets.accessible_models(None), vec!["gemini-pro"]);
    assert_eq!(targets.accessible_models(Some("gpt4-token")), vec!["gpt-4", "gemini-pro"]);
    assert_eq!(targets.accessible_models(Some("mistral-token")), vec!["mistral-large", "gemini-pro"]);
    assert_eq!(targets.accessible_models(Some("invalid-token")), vec!["gemini-pro"]);
}

#[test]
fn the_model_list_has_its_form() {
    let names = vec!["gpt-4".to_string(), "mistral-large".to_string(), "gemini-pro".to_string()];
    let list = ListModelResponse::from_model_names(&names, 7);
    let document: Value = serde_json::from_str(&list.to_json().render().unwrap()).unwrap();
    assert_eq!(document["object"], "list");
    let models = document["data"].as_array().unwrap();
    assert_eq!(models.len(), 3);
    for (model, name) in models.iter().zip(&names) {
        assert_eq!(model["id"], name.as_str());
        assert_eq!(model["object"], "model");
        assert_eq!(model["owned_by"], "None");
        assert_eq!(model["created"], 7);
    }
}

#[test]
fn keys_are_asked_for() {
    let mut table = ConnectionTable::new();
    let targets = keyed_targets(&mut table);
    let mut gateway = Gateway::new(targets, table, vec![whole(200, "{}")]);
    assert_eq!(gateway.post(HeaderMap::new(), CHAT).status, 401);
    assert_eq!(gateway.post(with_header("authorization", "Bearer nope"), CHAT).status, 403);
    assert_eq!(gateway.post(with_header("authorization", "Bearer gpt4-token"), CHAT).status, 200);
    // The key of the client does not reach the upstream.
    assert!(!gateway.sent[0].headers.contains_key("authorization"));
}

fn labelled(pairs: &[(&str, &str)]) -> Labels {
    let mut labels = Labels::new();
    for (key, value) in pairs {
        labels.insert(key, value);
    }
    labels
}

#[test]
fn rules_deny_and_redirect_by_label() {
    let mut table = ConnectionTable::new();
    let mut targets = no_targets();
    let rules = vec![
        RoutingRule {
            match_labels: labelled(&[("purpose", "playground")]),
            action: RoutingAction::Deny,
        },
        RoutingRule {
            match_labels: labelled(&[("purpose", "batch")]),
            action: RoutingAction::Redirect { target: "other".to_string() },
        },
        RoutingRule {
            match_labels: labelled(&[("purpose", "lost")]),
            action: RoutingAction::Redirect { target: "nowhere".to_string() },
        },
        RoutingRule {
            match_labels: labelled(&[("purpose", "void")]),
            action: RoutingAction::Redirect { target: "empty".to_string() },
        },
    ];
    let providers = vec![Provider::new(&mut table, target_at("https://main.example.com"), 1)];
    targets.targets.insert("gpt-4", Arc::new(pool_of(providers, None, rules)));
    let providers = vec![Provider::new(&mut table, target_at("https://other.example.com"), 1)];
    targets.targets.insert("other", Arc::new(pool_of(providers, None, Vec::new())));
    targets.targets.insert("empty", Arc::new(pool_of(Vec::new(), None, Vec::new())));
    for purpose in ["playground", "batch", "lost", "void"] {
        targets.key_labels.insert(purpose, labelled(&[("purpose", purpose)]));
    }
    let mut gateway = Gateway::new(targets, table, vec![whole(200, "{}")]);
    assert_eq!(gateway.post(with_header("authorization", "Bearer playground"), CHAT).status, 403);
    assert_eq!(gateway.post(with_header("authorization", "Bearer batch"), CHAT).status, 200);
    assert!(gateway.sent[0].uri.contains("other.example.com"));
    assert_eq!(gateway.post(with_header("authorization", "Bearer lost"), CHAT).status, 502);
    assert_eq!(gateway.post(with_header("authorization", "Bearer void"), CHAT).status, 502);
    assert_eq!(gateway.post(with_header("authorization", "Bearer x"), CHAT).status, 200);
    assert!(gateway.sent[1].uri.contains("main.example.com"));
    // A pool without providers serves nobody.
    assert_eq!(gateway.post(HeaderMap::new(), &chat("empty")).status, 503);
}

// ---------------------------------------------------------------------------
// Limits
// ---------------------------------------------------------------------------

struct BlockingRateLimiter;

impl RateLimiter for BlockingRateLimiter {
    fn check(&self) -> Result<(), RateLimitExceeded> {
        Err(RateLimitExceeded)
    }
}

struct AllowingRateLimiter;

impl RateLimiter for AllowingRateLimiter {
    fn check(&self) -> Result<(), RateLimitExceeded> {
        Ok(())
    }
}

#[test]
fn test_rate_limiting_blocks_requests() {
    let mut table = ConnectionTable::new();
    let target = Target {
        limiter: Some(Arc::new(BlockingRateLimiter)),
        ..target_at("https://api.example.com")
    };
    let targets = serving(&mut table, vec![("rate-limited-model", target)]);
    let mut gateway = Gateway::new(targets, table, vec![whole(200, r#"{"success": true}"#)]);

    let answer = gateway.post(HeaderMap::new(), &chat("rate-limited-model"));
    assert_eq!(answer.status, 429);
    assert_eq!(answer.json()["error"]["type"], "rate_limit_error");
    assert_eq!(answer.json()["error"]["code"], "rate_limit");
    assert_eq!(gateway.sent.len(), 0);
}

#[test]
fn test_rate_limiting_with_mixed_targets() {
    let mut table = ConnectionTable::new();
    let blocked = Target {
        limiter: Some(Arc::new(BlockingRateLimiter)),
        ..target_at("https://blocked.example.com")
    };
    let allowed = Target {
        limiter: Some(Arc::new(AllowingRateLimiter)),
        ..target_at("https://allowed.example.com")
    };
    let targets = serving(
        &mut table,
        vec![
            ("blocked-model", blocked),
            ("allowed-model", allowed),
            ("unlimited-model", target_at("https://unlimited.example.com")),
        ],
    );
    let mut gateway = Gateway::new(targets, table, vec![whole(200, r#"{"success": true}"#)]);
    assert_eq!(gateway.post(HeaderMap::new(), &chat("blocked-model")).status, 429);
    assert_eq!(gateway.post(HeaderMap::new(), &chat("allowed-model")).status, 200);
    assert_eq!(gateway.post(HeaderMap::new(), &chat("unlimited-model")).status, 200);

    let urls: Vec<&str> = gateway.sent.iter().map(|sent| sent.uri.as_str()).collect();
    assert_eq!(
        urls,
        vec![
            "https://allowed.example.com/v1/chat/completions",
            "https://unlimited.example.com/v1/chat/completions",
        ]
    );
}

#[test]
fn a_key_and_a_pool_can_have_rate_limits() {
    let mut table = ConnectionTable::new();
    let mut targets = serving(&mut table, vec![("gpt-4", target_at("https://api.example.com"))]);
    targets.key_rate_limiters.insert("slow", Arc::new(BlockingRateLimiter));
    let pool = ProviderPool::with_config(
        vec![Provider::new(&mut table, target_at("https://api.example.com"), 1)],
        None,
        Some(Arc::new(BlockingRateLimiter)),
        None,
        None,
        LoadBalanceStrategy::default(),
        false,
        Vec::new(),
    );
    targets.targets.insert("limited", Arc::new(pool));
    let mut gateway = Gateway::new(targets, table, vec![whole(200, "{}")]);
    assert_eq!(gateway.post(with_header("authorization", "Bearer slow"), CHAT).status, 429);
    assert_eq!(gateway.post(with_header("authorization", "Bearer fast"), CHAT).status, 200);
    assert_eq!(gateway.post(HeaderMap::new(), &chat("limited")).status, 429);
}

#[test]
fn test_rate_limiting_allows_requests() {
    let mut table = ConnectionTable::new();
    let target = Target {
        limiter: Some(Arc::new(AllowingRateLimiter)),
        ..target_at("https://api.example.com")
    };
    let targets = serving(&mut table, vec![("rate-limited-model", target)]);
    let mut gateway = Gateway::new(targets, table, vec![whole(200, r#"{"success": true}"#)]);
    let answer = gateway.post(HeaderMap::new(), &chat("rate-limited-model"));
    assert_eq!(answer.status, 200);
    assert_eq!(gateway.sent.len(), 1);
    assert!(gateway.sent[0].uri.contains("api.example.com"));
}

#[test]
fn test_concurrency_limiting_below_limits() {
    let mut table = ConnectionTable::new();
    let target = target_at("https://api.example.com");
    let pool = ProviderPool::new(vec![Provider::with_concurrency_limit(&mut table, target, 1, 5)]);
    let mut targets = no_targets();
    targets.targets.insert("limited-model", Arc::new(pool));
    let mut gateway = Gateway::new(targets, table, vec![whole(200, r#"{"success": true}"#)]);
    let body = r#"{"model":"limited-model","messages":[{"role":"user","content":"Test"}]}"#;
    assert_eq!(gateway.post(HeaderMap::new(), body).status, 200);
    assert_eq!(gateway.sent.len(), 1);
}

#[test]
fn test_concurrency_limiting_at_limits() {
    let mut table = ConnectionTable::new();
    let providers = vec![Provider::new(&mut table, target_at("https://api.example.com"), 1)];
    let limiter = ConcurrencyLimiter::with_limit(&mut table, 1);
    let pool = ProviderPool::with_config(
        providers,
        None,
        None,
        Some(limiter),
        None,
        LoadBalanceStrategy::default(),
        false,
        Vec::new(),
    );
    let mut targets = no_targets();
    targets.targets.insert("limited-model", Arc::new(pool));
    let body = chat("limited-model");

    let first = targets.let_in(&HeaderMap::new(), body.as_bytes(), &mut table).ok().unwrap();
    let second = targets.let_in(&HeaderMap::new(), body.as_bytes(), &mut table).err().unwrap();
    assert_eq!(second.status, 429);
    assert_eq!(second.body.unwrap().code, "concurrency_limit_exceeded");
    release_slots(first.slots, &mut table);
    let third = targets.let_in(&HeaderMap::new(), body.as_bytes(), &mut table);
    assert!(third.is_ok());
}

#[test]
fn test_per_key_concurrency_limiting() {
    let mut table = ConnectionTable::new();
    let mut targets = serving(&mut table, vec![("test-model", target_at("https://api.example.com"))]);
    let limiter = ConcurrencyLimiter::with_limit(&mut table, 1);
    targets.key_concurrency_limiters.insert("sk-limited-key", limiter);
    let body = chat("test-model");
    let headers = with_header("authorization", "Bearer sk-limited-key");

    let first = targets.let_in(&headers, body.as_bytes(), &mut table).ok().unwrap();
    assert_eq!(limiter.active(&table), 1);
    let second = targets.let_in(&headers, body.as_bytes(), &mut table).err().unwrap();
    assert_eq!(second.status, 429);
    assert_eq!(second.body.unwrap().code, "concurrency_limit_exceeded");
    // Others are let in.
    assert!(targets.let_in(&HeaderMap::new(), body.as_bytes(), &mut table).is_ok());
    release_slots(first.slots, &mut table);
    assert_eq!(limiter.active(&table), 0);
}

#[test]
fn busy_providers_are_told_apart_from_failed_ones() {
    let mut table = ConnectionTable::new();
    let target = target_at("https://api.example.com");
    let pool = ProviderPool::new(vec![Provider::with_concurrency_limit(&mut table, target, 1, 1)]);
    let mut targets = no_targets();
    targets.targets.insert("gpt-4", Arc::new(pool));
    let mut gateway = Gateway::new(targets, table, vec![whole(200, "{}")]);
    assert_eq!(gateway.post(HeaderMap::new(), CHAT).status, 200);
    let pool = Arc::clone(gateway.targets.find_pool("gpt-4", None).ok().unwrap());
    let (_, _, guard) = pool.select(&mut gateway.table, 0).unwrap();
    let answer = gateway.post(HeaderMap::new(), CHAT);
    assert_eq!(answer.status, 429);
    assert_eq!(answer.json()["error"]["code"], "concurrency_limit_exceeded");
    gateway.table.release(guard);
    assert_eq!(gateway.post(HeaderMap::new(), CHAT).status, 200);
}

// ---------------------------------------------------------------------------
// Errors hidden in successful responses
// ---------------------------------------------------------------------------

const ERROR_FRAME: &str =
    "data: {\"error\":{\"code\":429,\"message\":\"Provider returned error\"}}\n\n";
const OK_CONTENT_FRAME: &str = "data: {\"id\":\"chatcmpl-1\",\"object\":\"chat.completion.chunk\",\"choices\":[{\"index\":0,\"delta\":{\"content\":\"hi\"},\"finish_reason\":null}]}\n\n";
const KEEP_ALIVE: &str = ": keep-alive\n\n";

#[test]
fn test_streaming_embedded_error_retries_then_exhausts_to_503() {
    let mut gateway = fallback_gateway(2, vec![429], vec![stream(vec![ERROR_FRAME.to_string()])]);
    assert_eq!(gateway.post(HeaderMap::new(), STREAMING_CHAT).status, 503);
    assert_eq!(gateway.sent.len(), 2);
}

#[test]
fn test_streaming_embedded_error_retries_then_succeeds() {
    let ok_chunk = "data: {\"id\":\"chatcmpl-1\",\"object\":\"chat.completion.chunk\",\"created\":1,\"model\":\"gpt-4\",\"choices\":[{\"index\":0,\"delta\":{\"content\":\"hi\"},\"finish_reason\":null}]}\n\n".to_string();
    let done = "data: [DONE]\n\n".to_string();
    let replies = vec![stream(vec![ERROR_FRAME.to_string()]), stream(vec![ok_chunk, done])];
    let mut gateway = fallback_gateway(2, vec![429], replies);
    assert_eq!(gateway.post(HeaderMap::new(), STREAMING_CHAT).status, 200);
    assert_eq!(gateway.sent.len(), 2);
}

#[test]
fn test_unary_embedded_error_collapses_to_503() {
    let body = r#"{"error":{"code":429,"message":"Provider returned error"}}"#;
    let mut gateway = fallback_gateway(2, vec![429], vec![whole(200, body)]);
    assert_eq!(gateway.post(HeaderMap::new(), CHAT).status, 503);
    assert_eq!(gateway.sent.len(), 2);
}

#[test]
fn test_streaming_keepalive_before_error_is_still_detected() {
    let reply = stream(vec![KEEP_ALIVE.to_string(), ERROR_FRAME.to_string()]);
    let mut gateway = fallback_gateway(2, vec![429], vec![reply]);
    assert_eq!(gateway.post(HeaderMap::new(), STREAMING_CHAT).status, 503);
    assert_eq!(gateway.sent.len(), 2);
}

#[test]
fn test_streaming_empty_body_retries_then_succeeds() {
    let replies = vec![stream(vec![]), stream(vec![OK_CONTENT_FRAME.to_string()])];
    let mut gateway = fallback_gateway(2, vec![502], replies);
    let answer = gateway.post(HeaderMap::new(), STREAMING_CHAT);
    assert_eq!(answer.status, 200);
    assert!(answer.body.contains("hi"));
    assert_eq!(gateway.sent.len(), 2);
}

#[test]
fn test_streaming_empty_body_exhausts_to_503() {
    let mut gateway = fallback_gateway(2, vec![502], vec![stream(vec![])]);
    assert_eq!(gateway.post(HeaderMap::new(), STREAMING_CHAT).status, 503);
    assert_eq!(gateway.sent.len(), 2);
}

#[test]
fn test_unary_empty_body_retries_and_exhausts_to_503() {
    let mut gateway = fallback_gateway(2, vec![502], vec![whole(200, "")]);
    assert_eq!(gateway.post(HeaderMap::new(), CHAT).status, 503);
    assert_eq!(gateway.sent.len(), 2);
}

#[test]
fn test_streaming_keepalive_then_token_is_forwarded_not_retried() {
    let reply = stream(vec![KEEP_ALIVE.to_string(), OK_CONTENT_FRAME.to_string()]);
    let mut gateway = fallback_gateway(2, vec![502], vec![reply]);
    let answer = gateway.post(HeaderMap::new(), STREAMING_CHAT);
    assert_eq!(answer.status, 200);
    assert!(answer.body.contains("hi"));
    assert_eq!(gateway.sent.len(), 1);
}

#[test]
fn test_streaming_only_keepalives_so_far_is_forwarded_not_retried() {
    let reply = stream(vec![KEEP_ALIVE.to_string(); 5]);
    let mut gateway = fallback_gateway(2, vec![502], vec![reply]);
    assert_eq!(gateway.post(HeaderMap::new(), STREAMING_CHAT).status, 200);
    assert_eq!(gateway.sent.len(), 1);
}

#[test]
fn a_slow_stream_is_not_taken_to_be_empty() {
    let mut peek = SsePeek::new();
    peek.observe(PeekEvent::Frame(classify_sse_event(KEEP_ALIVE.as_bytes())));
    assert_eq!(peek.verdict(true), Scan2xx::Clean);
    assert_eq!(peek.verdict(false), Scan2xx::Clean);
    peek.observe(PeekEvent::Closed);
    assert_eq!(peek.verdict(false), Scan2xx::EmptyBody);
}

#[test]
fn hidden_errors_are_not_told_as_they_are() {
    let pool = ProviderPool::new(Vec::new());
    let status = |hidden| match judge_scan(&pool, Scan2xx::Embedded(hidden)) {
        Verdict::Answer(error) => error.status,
        other => panic!("{:?}", other),
    };
    assert_eq!(status(429), 503);
    assert_eq!(status(501), 503);
    assert_eq!(status(404), 404);
    assert!(matches!(
        judge_scan(&pool, Scan2xx::EmptyBody),
        Verdict::Answer(error) if error.status == 503
    ));
    assert!(matches!(judge_scan(&pool, Scan2xx::Clean), Verdict::Proceed));
}

// ---------------------------------------------------------------------------
// Outcomes
// ---------------------------------------------------------------------------

fn sanitizing_gateway(sanitize_response: bool, reply: Reply) -> Gateway {
    let mut table = ConnectionTable::new();
    let target = Target {
        onwards_key: Some("sk-test".to_string()),
        sanitize_response,
        ..target_at("https://api.openai.com")
    };
    let targets = serving(&mut table, vec![("gpt-4", target)]);
    Gateway::new(targets, table, vec![reply])
}

#[test]
fn test_error_sanitization_replaces_4xx_body() {
    let upstream_error = r#"{"error": {"message": "Internal provider Novita returned error: model not loaded on GPU cluster eu-west-3", "code": "novita_internal_error"}}"#;
    let mut gateway = sanitizing_gateway(true, whole(422, upstream_error));
    let answer = gateway.post(HeaderMap::new(), CHAT);
    assert_eq!(answer.status, 422);
    let body = answer.json();
    assert_eq!(body["error"]["message"], "The upstream provider rejected the request.");
    assert_eq!(body["error"]["type"], "invalid_request_error");
    assert_eq!(body["error"]["code"], "upstream_error");
    assert!(!answer.body.contains("ovita"));
    assert!(!answer.body.contains("eu-west-3"));
}

#[test]
fn test_error_sanitization_preserves_5xx_status() {
    let upstream_error = r#"{"error": "GPU cluster overloaded", "retry_after": 30}"#;
    let mut gateway = sanitizing_gateway(true, whole(503, upstream_error));
    let answer = gateway.post(HeaderMap::new(), CHAT);
    assert_eq!(answer.status, 503);
    let body = answer.json();
    assert_eq!(body["error"]["message"], "An internal error occurred. Please try again later.");
    assert_eq!(body["error"]["type"], "internal_error");
    assert_eq!(body["error"]["code"], "internal_error");
    assert!(!answer.body.contains("GPU cluster"));
}

#[test]
fn test_error_sanitization_disabled_passes_through() {
    let upstream_error = r#"{"error": {"message": "provider-specific detail"}}"#;
    let mut gateway = sanitizing_gateway(false, whole(422, upstream_error));
    let answer = gateway.post(HeaderMap::new(), CHAT);
    assert_eq!(answer.status, 422);
    assert_eq!(answer.json()["error"]["message"], "provider-specific detail");
}

#[test]
fn failures_are_retried_only_where_enabled() {
    let target = target_at("https://api.example.com");
    let plain = ProviderPool::new(Vec::new());
    assert!(matches!(
        judge_outcome(&plain, &target, UpstreamOutcome::Timeout),
        Verdict::Answer(error) if error.status == 504
    ));
    assert!(matches!(
        judge_outcome(&plain, &target, UpstreamOutcome::NetworkError),
        Verdict::Answer(error) if error.status == 502
    ));
    assert!(matches!(
        judge_rate_limit(&plain, Some(Err(RateLimitExceeded))),
        Verdict::Answer(error) if error.status == 429
    ));
    let gateway = fallback_gateway(1, vec![500], vec![whole(200, "{}")]);
    let pool = gateway.targets.find_pool("gpt-4", None).ok().unwrap();
    assert!(matches!(
        judge_outcome(pool, &target, UpstreamOutcome::Timeout),
        Verdict::TryNext(error) if error.status == 504
    ));
    assert!(matches!(
        judge_outcome(pool, &target, UpstreamOutcome::Status(500)),
        Verdict::TryNext(error) if error.status == 502
    ));
    assert!(matches!(
        judge_outcome(pool, &target, UpstreamOutcome::Status(404)),
        Verdict::Proceed
    ));
}

#[test]
fn waiting_between_attempts_stays_within_its_limit() {
    let mut table = ConnectionTable::new();
    let providers = vec![
        Provider::new(&mut table, target_at("https://a.example.com"), 1),
        Provider::new(&mut table, target_at("https://b.example.com"), 1),
        Provider::new(&mut table, target_at("https://c.example.com"), 1),
        Provider::new(&mut table, target_at("https://d.example.com"), 1),
    ];
    let pool = ProviderPool::with_config(
        providers,
        None,
        None,
        None,
        Some(FallbackConfig {
            enabled: true,
            max_total_backoff_ms: Some(250),
            ..Default::default()
        }),
        LoadBalanceStrategy::Priority,
        false,
        Vec::new(),
    );
    let mut relay = Relay::new(&pool);
    assert!(relay.next(&mut table, 0).is_some());
    assert_eq!(relay.retry(OnwardsErrorResponse::bad_gateway(), Some(100)), Pause::Wait(100));
    assert!(relay.next(&mut table, 0).is_some());
    assert_eq!(relay.retry(OnwardsErrorResponse::bad_gateway(), Some(150)), Pause::Wait(150));
    assert!(relay.next(&mut table, 0).is_some());
    assert_eq!(relay.retry(OnwardsErrorResponse::gateway_timeout(), Some(1)), Pause::GiveUp);
    assert_eq!(relay.finish("m").status, 504);
}

#[test]
fn a_refused_provider_is_not_sent_the_request() {
    let mut table = ConnectionTable::new();
    let target = Target {
        limiter: Some(Arc::new(BlockingRateLimiter)),
        ..target_at("https://api.example.com")
    };
    let pool = ProviderPool::single(&mut table, target, 1);
    let manner = Manner { strict_mode: false, has_transform: false };
    let mut exchange = Exchange::new(&pool, "m", manner);
    assert!(exchange.pick(&mut table, 0).is_ok());
    let mut headers = HeaderMap::new();
    match exchange.begin("/x", &Vec::new(), &mut headers, None) {
        Action::Refuse(error) => {
            assert_eq!(error.status, 429);
            let body = error.body.unwrap();
            assert_eq!(body.error_type, "rate_limit_error");
            assert_eq!(body.code, "rate_limit");
        }
        _ => panic!("the limit refuses"),
    }
}

#[test]
fn a_failover_goes_through_the_providers_in_order() {
    for (allowed, expected) in [(None, 3), (Some(2), 2), (Some(9), 3)] {
        let mut table = ConnectionTable::new();
        let mut providers = Vec::new();
        for i in 0..3 {
            let target = target_at(&format!("https://provider{i}.example.com/"));
            // In order of priority a provider needs no weight.
            providers.push(Provider::new(&mut table, target, i));
        }
        let pool = ProviderPool::with_config(
            providers,
            None,
            None,
            None,
            Some(FallbackConfig {
                enabled: true,
                on_status: vec![500],
                max_attempts: allowed,
                ..Default::default()
            }),
            LoadBalanceStrategy::Priority,
            false,
            Vec::new(),
        );
        let mut targets = no_targets();
        targets.targets.insert("gpt-4", Arc::new(pool));
        let mut gateway = Gateway::new(targets, table, vec![whole(500, "{}")]);
        assert_eq!(gateway.post(HeaderMap::new(), CHAT).status, 502);
        let hosts: Vec<String> = gateway.sent.iter().map(|sent| sent.uri.clone()).collect();
        let wanted: Vec<String> = (0..expected)
            .map(|i| format!("https://provider{i}.example.com/v1/chat/completions"))
            .collect();
        assert_eq!(hosts, wanted);
    }
}

#[test]
fn an_exchange_gives_up_with_the_last_error() {
    let mut table = ConnectionTable::new();
    let providers = vec![
        Provider::new(&mut table, target_at("https://a.example.com"), 1),
        Provider::new(&mut table, target_at("https://b.example.com"), 1),
        Provider::new(&mut table, target_at("https://c.example.com"), 1),
    ];
    let pool = ProviderPool::with_config(
        providers,
        None,
        None,
        None,
        Some(FallbackConfig {
            enabled: true,
            max_total_backoff_ms: Some(100),
            ..Default::default()
        }),
        LoadBalanceStrategy::Priority,
        false,
        Vec::new(),
    );
    let manner = Manner { strict_mode: false, has_transform: false };
    let mut exchange = Exchange::new(&pool, "m", manner);
    let mut urls = Vec::new();
    let mut failures = vec![
        (UpstreamOutcome::NetworkError, 60),
        (UpstreamOutcome::Timeout, 41),
    ]
    .into_iter();
    let error = loop {
        let (_, guard) = exchange.pick(&mut table, 0).ok().unwrap();
        let mut headers = HeaderMap::new();
        match exchange.begin("/v1/models", &Vec::new(), &mut headers, None) {
            Action::Send(prepared) => urls.push(prepared.url),
            _ => panic!("the request is sent"),
        }
        let (outcome, delay) = failures.next().unwrap();
        let event = AttemptEvent::Outcome { outcome, stream: false };
        let action = exchange.advance(event, Some(delay));
        table.release(guard);
        match action {
            Action::Wait(ms) => assert_eq!(ms, 60),
            Action::Refuse(error) => break error,
            _ => panic!("a failure is followed by a pause or the end"),
        }
    };
    assert_eq!(error.status, 504);
    assert_eq!(urls, vec!["https://a.example.com/v1/models", "https://b.example.com/v1/models"]);
}

#[test]
fn an_exchange_transforms_what_it_delivers() {
    let mut table = ConnectionTable::new();
    let target = Target {
        sanitize_response: true,
        trusted: Some(true),
        ..target_at("https://api.example.com")
    };
    let pool = ProviderPool::single(&mut table, target, 1);
    let manner = Manner { strict_mode: false, has_transform: true };
    let sent = AttemptEvent::Outcome { outcome: UpstreamOutcome::Status(200), stream: true };

    let mut exchange = Exchange::new(&pool, "m", manner);
    assert!(exchange.pick(&mut table, 0).is_ok());
    let mut headers = HeaderMap::new();
    assert!(matches!(exchange.begin("/x", &Vec::new(), &mut headers, None), Action::Send(_)));
    assert!(matches!(exchange.advance(sent, None), Action::Transform { stream: true }));
    assert!(matches!(exchange.advance(AttemptEvent::Transformed, None), Action::Deliver));
    let delivery = exchange.deliver(&mut headers).unwrap();
    assert!(delivery.trusted);
    assert_eq!(delivery.served_by.url, "https://api.example.com/");

    let mut exchange = Exchange::new(&pool, "m", manner);
    assert!(exchange.pick(&mut table, 0).is_ok());
    let mut headers = HeaderMap::new();
    assert!(matches!(exchange.begin("/x", &Vec::new(), &mut headers, None), Action::Send(_)));
    assert!(matches!(exchange.advance(sent, None), Action::Transform { stream: true }));
    match exchange.advance(AttemptEvent::BodyFailed, None) {
        Action::Refuse(error) => assert_eq!(error.status, 500),
        _ => panic!("a body that cannot be transformed is not delivered"),
    }
    let mut headers = HeaderMap::new();
    assert!(exchange.deliver(&mut headers).is_none());
}

#[test]
fn connections_are_counted_in_their_own_table() {
    let mut table = ConnectionTable::new();
    let mut targets = serving(&mut table, vec![("m", target_at("https://a.example.com"))]);
    assert!(targets.is_counted(&table));
    assert!(!targets.is_counted(&ConnectionTable::new()));
    let limiter = ConcurrencyLimiter::with_limit(&mut table, 2);
    assert!(limiter.is_counted(&table));
    targets.key_concurrency_limiters.insert("k", limiter);
    assert!(targets.is_counted(&table));
    let mut smaller = ConnectionTable::new();
    ConcurrencyLimiter::new(&mut smaller);
    assert!(!targets.is_counted(&smaller));
}

#[test]
fn no_wait_after_the_last_attempt() {
    let mut table = ConnectionTable::new();
    let pool = ProviderPool::single(&mut table, target_at("https://a.example.com"), 1);
    let mut relay = Relay::new(&pool);
    assert!(relay.next(&mut table, 0).is_some());
    assert_eq!(relay.retry(OnwardsErrorResponse::bad_gateway(), Some(100)), Pause::NoWait);
    assert!(relay.next(&mut table, 0).is_none());
}

// ---------------------------------------------------------------------------
// Responses
// ---------------------------------------------------------------------------

#[test]
fn test_pricing_added_to_response_headers_when_configured() {
    let mut table = ConnectionTable::new();
    let target = Target {
        response_headers: Some(vec![
            ("Input-Price-Per-Token".to_string(), "0.00003".to_string()),
            ("Output-Price-Per-Token".to_string(), "0.00006".to_string()),
            ("not a name".to_string(), "x".to_string()),
            ("bad-value".to_string(), "a\nb".to_string()),
        ]),
        ..target_at("https://api.openai.com")
    };
    let targets = serving(&mut table, vec![("gpt-4", target)]);
    let mut gateway = Gateway::new(targets, table, vec![whole(200, r#"{"success": true}"#)]);
    let answer = gateway.post(HeaderMap::new(), CHAT);
    assert_eq!(answer.status, 200);
    assert_eq!(answer.headers["Input-Price-Per-Token"], "0.00003");
    assert_eq!(answer.headers["Output-Price-Per-Token"], "0.00006");
    assert!(!answer.headers.contains_key("bad-value"));
}

#[test]
fn test_no_pricing_headers_when_not_configured() {
    let mut table = ConnectionTable::new();
    let targets = serving(&mut table, vec![("free-model", target_at("https://api.example.com"))]);
    let mut gateway = Gateway::new(targets, table, vec![whole(200, r#"{"success": true}"#)]);
    let answer = gateway.post(HeaderMap::new(), &chat("free-model"));
    assert_eq!(answer.status, 200);
    assert!(!answer.headers.contains_key("Input-Price-Per-Token"));
    assert!(!answer.headers.contains_key("Output-Price-Per-Token"));
}

#[test]
fn test_pricing_preserved_in_error_response_headers() {
    let mut table = ConnectionTable::new();
    let target = Target {
        response_headers: Some(vec![
            ("Input-Price-Per-Token".to_string(), "0.00001".to_string()),
            ("Output-Price-Per-Token".to_string(), "0.00002".to_string()),
        ]),
        ..target_at("https://api.example.com")
    };
    let targets = serving(&mut table, vec![("error-model", target)]);
    let mut gateway = Gateway::new(targets, table, vec![whole(500, r#"{"error": "Server error"}"#)]);
    let answer = gateway.post(HeaderMap::new(), &chat("error-model"));
    assert_eq!(answer.status, 500);
    assert_eq!(answer.headers["Input-Price-Per-Token"], "0.00001");
    assert_eq!(answer.headers["Output-Price-Per-Token"], "0.00002");
}

fn priced(url: &str, headers: Vec<(&str, &str)>) -> Target {
    let headers = headers.into_iter().map(|(k, v)| (k.to_string(), v.to_string())).collect();
    Target { response_headers: Some(headers), ..target_at(url) }
}

#[test]
fn test_pricing_headers_with_different_models() {
    let mut table = ConnectionTable::new();
    let expensive = priced(
        "https://api.expensive.com",
        vec![("Input-Price-Per-Token", "0.0001"), ("Output-Price-Per-Token", "0.0002")],
    );
    let cheap = priced(
        "https://api.cheap.com",
        vec![("Input-Price-Per-Token", "0.000001"), ("Output-Price-Per-Token", "0.000002")],
    );
    let targets = serving(&mut table, vec![("expensive-model", expensive), ("cheap-model", cheap)]);
    let mut gateway = Gateway::new(targets, table, vec![whole(200, r#"{"success": true}"#)]);

    let answer = gateway.post(HeaderMap::new(), &chat("expensive-model"));
    assert_eq!(answer.status, 200);
    assert_eq!(answer.headers["Input-Price-Per-Token"], "0.0001");
    assert_eq!(answer.headers["Output-Price-Per-Token"], "0.0002");

    let answer = gateway.post(HeaderMap::new(), &chat("cheap-model"));
    assert_eq!(answer.status, 200);
    assert_eq!(answer.headers["Input-Price-Per-Token"], "0.000001");
    assert_eq!(answer.headers["Output-Price-Per-Token"], "0.000002");
}

#[test]
fn test_pricing_header_with_only_input_price() {
    let mut table = ConnectionTable::new();
    let target = priced("https://api.example.com", vec![("Input-Price-Per-Token", "0.00005")]);
    let targets = serving(&mut table, vec![("input-only-model", target)]);
    let mut gateway = Gateway::new(targets, table, vec![whole(200, r#"{"success": true}"#)]);
    let answer = gateway.post(HeaderMap::new(), &chat("input-only-model"));
    assert_eq!(answer.status, 200);
    assert_eq!(answer.headers["Input-Price-Per-Token"], "0.00005");
    assert!(!answer.headers.contains_key("Output-Price-Per-Token"));
}

#[test]
fn test_pricing_header_with_only_output_price() {
    let mut table = ConnectionTable::new();
    let target = priced("https://api.example.com", vec![("Output-Price-Per-Token", "0.00008")]);
    let targets = serving(&mut table, vec![("output-only-model", target)]);
    let mut gateway = Gateway::new(targets, table, vec![whole(200, r#"{"success": true}"#)]);
    let answer = gateway.post(HeaderMap::new(), &chat("output-only-model"));
    assert_eq!(answer.status, 200);
    assert!(!answer.headers.contains_key("Input-Price-Per-Token"));
    assert_eq!(answer.headers["Output-Price-Per-Token"], "0.00008");
}

fn keyed(url: &str, key: &str) -> Target {
    Target { onwards_key: Some(key.to_string()), ..target_at(url) }
}

#[test]
fn test_load_balancing_with_multiple_providers() {
    let mut table = ConnectionTable::new();
    let providers = vec![
        Provider::new(&mut table, keyed("https://api.provider1.com", "key1"), 1),
        Provider::new(&mut table, keyed("https://api.provider2.com", "key2"), 1),
    ];
    let mut targets = no_targets();
    targets.targets.insert("test-model", Arc::new(ProviderPool::new(providers)));
    let mut gateway = Gateway::new(targets, table, vec![whole(200, r#"{"success": true}"#)]);
    for _ in 0..5 {
        assert_eq!(gateway.post(HeaderMap::new(), &chat("test-model")).status, 200);
    }
    assert_eq!(gateway.sent.len(), 5);
}

#[test]
fn test_load_balancing_with_weighted_providers() {
    let mut table = ConnectionTable::new();
    let providers = vec![
        Provider::new(&mut table, keyed("https://api.high-weight.com", "key-high"), 3),
        Provider::new(&mut table, keyed("https://api.low-weight.com", "key-low"), 1),
    ];
    let mut targets = no_targets();
    targets.targets.insert("weighted-model", Arc::new(ProviderPool::new(providers)));
    let mut gateway = Gateway::new(targets, table, vec![whole(200, r#"{"success": true}"#)]);
    for _ in 0..100 {
        assert_eq!(gateway.post(HeaderMap::new(), &chat("weighted-model")).status, 200);
    }
    assert_eq!(gateway.sent.len(), 100);
    let sent_to = |host| gateway.sent.iter().filter(|sent| sent.uri.contains(host)).count();
    assert!(sent_to("api.high-weight.com") > sent_to("api.low-weight.com"));
}

#[test]
fn test_single_provider_pool_behaves_like_single_target() {
    let mut table = ConnectionTable::new();
    let pool = ProviderPool::single(&mut table, keyed("https://api.single.com", "single-key"), 1);
    let mut targets = no_targets();
    targets.targets.insert("single-model", Arc::new(pool));
    let mut gateway = Gateway::new(targets, table, vec![whole(200, r#"{"success": true}"#)]);
    assert_eq!(gateway.post(HeaderMap::new(), &chat("single-model")).status, 200);
    assert_eq!(gateway.sent.len(), 1);
    assert!(gateway.sent[0].uri.contains("api.single.com"));
}

#[test]
fn bodies_are_treated_by_mode_and_target() {
    let target = Target { sanitize_response: true, ..target_at("https://api.example.com") };
    let plan = plan_body(false, true, &target, 200, true);
    assert!(!plan.scan && plan.transform && plan.regroup_events);
    let plan = plan_body(true, true, &target, 200, true);
    assert!(plan.scan && !plan.transform && !plan.regroup_events);
    let plan = plan_body(false, true, &target, 500, false);
    assert!(!plan.scan && !plan.transform && !plan.regroup_events);
    let plan = plan_body(false, false, &target, 200, false);
    assert!(!plan.transform);
}

#[test]
fn transformed_bodies_replace_the_original() {
    let mut headers = with_header("transfer-encoding", "chunked");
    let body = settle_body(&mut headers, b"old".to_vec(), Ok(Some(b"newer".to_vec()))).ok().unwrap();
    assert_eq!(body, b"newer");
    assert_eq!(headers["content-length"], "5");
    assert!(!headers.contains_key("transfer-encoding"));
    let body = settle_body(&mut headers, b"old".to_vec(), Ok(None)).ok().unwrap();
    assert_eq!(body, b"old");
    assert_eq!(headers["content-length"], "3");
    let error = settle_body(&mut headers, b"old".to_vec(), Err("x".to_string())).err().unwrap();
    assert_eq!(error.status, 500);
    assert_eq!(settle_event(b"old".to_vec(), Ok(Some(b"new".to_vec()))), b"new");
    assert_eq!(settle_event(b"old".to_vec(), Ok(None)), b"old");
    assert_eq!(settle_event(b"old".to_vec(), Err("x".to_string())), b"old");
}

#[test]
fn responses_name_their_upstream() {
    let target = Target {
        onwards_model: Some("m".to_string()),
        trusted: Some(true),
        ..target_at("https://api.example.com/v1")
    };
    let served = served_by(&target);
    assert_eq!(served.url, "https://api.example.com/v1");
    assert_eq!(served.onwards_model.as_deref(), Some("m"));
    assert!(resolve_trust(&target, false));
}

#[test]
fn destinations_have_their_host() {
    let target = target_at("http://localhost:8080/api/");
    let found = find_destination(&target, "/api/x?y=1").unwrap();
    assert_eq!(found.url, "http://localhost:8080/api/x?y=1");
    assert_eq!(found.host.as_deref(), Some("localhost:8080"));
    let target = target_at("https://api.example.com");
    let found = find_destination(&target, "/v1/x").unwrap();
    assert_eq!(found.host.as_deref(), Some("api.example.com"));
}

#[test]
fn keys_that_cannot_be_sent_are_found() {
    let mut target = target_at("https://api.example.com");
    assert!(check_auth(&target));
    target.onwards_key = Some("k".to_string());
    assert!(check_auth(&target));
    target.onwards_key = Some("k\n".to_string());
    assert!(!check_auth(&target));
    target.onwards_key = Some("k".to_string());
    target.upstream_auth_header_name = Some("no name".to_string());
    assert!(!check_auth(&target));
}

// ---------------------------------------------------------------------------
// Error responses
// ---------------------------------------------------------------------------

#[test]
fn error_responses_have_their_status_and_code() {
    let errors = [
        (OnwardsErrorResponse::model_not_found("m"), 404, "model_not_found"),
        (OnwardsErrorResponse::payload_too_large(1024), 413, "payload_too_large"),
        (OnwardsErrorResponse::rate_limited(), 429, "rate_limit"),
        (OnwardsErrorResponse::internal(), 500, "internal_error"),
        (OnwardsErrorResponse::bad_gateway(), 502, "internal_error"),
        (OnwardsErrorResponse::concurrency_limited(), 429, "concurrency_limit_exceeded"),
        (OnwardsErrorResponse::gateway_timeout(), 504, "gateway_timeout"),
    ];
    for (error, status, code) in errors {
        assert_eq!(error.status, status);
        let document: Value =
            serde_json::from_str(&error.to_json().unwrap().render().unwrap()).unwrap();
        assert_eq!(document["error"]["code"], code, "{}", document);
        assert!(document["error"]["message"].is_string());
        assert!(document["error"]["type"].is_string());
    }
    let error = OnwardsErrorResponse::payload_too_large(1024);
    assert!(error.body.unwrap().message.contains("1024 bytes"));
}

#[test]
fn what_a_body_names_gives_way_to_the_header() {
    let named = || Some("named".to_string());
    assert_eq!(apply_override(&HeaderMap::new(), named()), named());
    assert_eq!(apply_override(&HeaderMap::new(), None), None);
    let headers = with_header("model-override", "other");
    assert_eq!(apply_override(&headers, named()), Some("other".to_string()));
    let mut headers = HeaderMap::new();
    headers.insert("model-override", HeaderValue::from_bytes(b"\xff").unwrap());
    assert_eq!(apply_override(&headers, named()), None);
}

#[test]
fn reasoning_is_judged_between_routing_and_the_search_for_providers() {
    let mut table = ConnectionTable::new();
    let mut targets = no_targets();
    targets.targets.insert("empty", Arc::new(pool_of(Vec::new(), None, Vec::new())));
    let one = Provider::new(&mut table, target_at("https://api.example.com"), 1);
    targets.targets.insert("one", Arc::new(pool_of(vec![one], None, Vec::new())));
    let headers = HeaderMap::new();
    let asked = |model: &str| Some(model.to_string());

    assert_eq!(targets.locate(&headers, None).err().unwrap().status, 400);
    assert_eq!(targets.locate(&headers, asked("none")).err().unwrap().status, 404);

    let objection = || Err(OnwardsErrorResponse::forbidden());
    let found = targets.locate(&headers, asked("empty")).ok().unwrap();
    assert_eq!(targets.enter(found, objection(), &mut table).err().unwrap().status, 403);
    let found = targets.locate(&headers, asked("empty")).ok().unwrap();
    assert_eq!(targets.enter(found, Ok(true), &mut table).err().unwrap().status, 503);
    let found = targets.locate(&headers, asked("one")).ok().unwrap();
    assert_eq!(targets.enter(found, objection(), &mut table).err().unwrap().status, 403);
    let found = targets.locate(&headers, asked("one")).ok().unwrap();
    let admitted = targets.enter(found, Ok(true), &mut table).ok().unwrap();
    assert_eq!(admitted.model, "one");
    assert!(admitted.reasoning);
}

#[test]
fn a_body_is_translated_after_its_model_is_renamed() {
    let mut table = ConnectionTable::new();
    let target = || Target {
        onwards_model: Some("upstream".to_string()),
        ..target_at("https://api.example.com")
    };
    let providers = vec![
        Provider::new(&mut table, target(), 1),
        Provider::new(&mut table, target(), 1),
    ];
    let pool = ProviderPool::with_config(
        providers,
        None,
        None,
        None,
        Some(FallbackConfig { enabled: true, on_status: vec![500], ..Default::default() }),
        LoadBalanceStrategy::Priority,
        false,
        Vec::new(),
    );
    let manner = Manner { strict_mode: false, has_transform: false };
    let body = br#"{"model":"m","reasoning":{"effort":"low"}}"#.to_vec();

    let mut exchange = Exchange::new(&pool, "m", manner);
    assert!(exchange.pick(&mut table, 0).is_ok());
    let opened = exchange.open(&body, true, true, None).ok().unwrap();
    let mut document = match opened.document.unwrap() {
        Json::Object(document) => document,
        _ => panic!("the body is an object"),
    };
    assert!(matches!(document.take("model"), Some(Json::Text(model)) if model == "upstream"));
    document.take("reasoning");
    document.insert("effort", Json::Text("low".to_string()));
    let mut headers = HeaderMap::new();
    let made = settle_translation(Ok(Json::Object(document)));
    match exchange.dispatch("/x", made, &mut headers) {
        Action::Send(prepared) => {
            assert_eq!(prepared.url, "https://api.example.com/x");
            assert_eq!(prepared.body, br#"{"effort":"low"}"#);
            assert_eq!(headers["content-length"], "16");
        }
        _ => panic!("a translated body is sent"),
    }

    // An error in the translation ends the request, though a provider is left.
    let mut exchange = Exchange::new(&pool, "m", manner);
    assert!(exchange.pick(&mut table, 0).is_ok());
    assert!(exchange.open(&body, true, true, None).is_ok());
    let mut headers = HeaderMap::new();
    let refused = settle_translation(Err(OnwardsErrorResponse::forbidden()));
    match exchange.dispatch("/x", refused, &mut headers) {
        Action::Refuse(error) => assert_eq!(error.status, 403),
        _ => panic!("an error in the translation is told"),
    }

    // Without settings, or without a translation, there is nothing to translate.
    for (reasoning, translates) in [(false, true), (true, false)] {
        let mut exchange = Exchange::new(&pool, "m", manner);
        assert!(exchange.pick(&mut table, 0).is_ok());
        let opened = exchange.open(&body, reasoning, translates, None).ok().unwrap();
        assert!(opened.document.is_none());
    }

    let mut exchange = Exchange::new(&pool, "m", manner);
    assert!(exchange.pick(&mut table, 0).is_ok());
    match exchange.open(&b"{".to_vec(), true, true, None) {
        Err(Action::Refuse(error)) => assert_eq!(error.status, 400),
        _ => panic!("a body that cannot be read is refused"),
    }
}
