use axum::http::{HeaderMap, HeaderName};
use onwards::errors::OnwardsErrorResponse;
use onwards::handlers::embedded::{classify_sse_event, embedded_error_status, SseEventKind};
use onwards::handlers::forwarding::{
    filter_headers_for_upstream, join_path, resolve_trace_propagation, withhold_trace_context,
};
use onwards::handlers::reasoning::{
    find_reasoning, judge_translations, read_for_translation, settle_reasoning, settle_translation,
    ReasoningSource,
};
use onwards::handlers::response_id::{override_id, path_has_id, replace_id, requested_id};
use onwards::json::Json;
use onwards::load_balancer::{Provider, ProviderPool};
use onwards::target::{ConnectionTable, FallbackConfig, LoadBalanceStrategy, Target, TargetUrl};

fn target_at(url: &str) -> Target {
    Target::new(TargetUrl::parse(url).unwrap())
}

fn json(text: &str) -> Json {
    Json::parse(text.as_bytes()).unwrap()
}

#[test]
fn embedded_error_status_detects_provider_envelope() {
    // Whole-body error envelope (the 200-with-error pattern).
    let body = json(r#"{"error": {"code": 429, "message": "Provider returned error"}}"#);
    assert_eq!(embedded_error_status(&body), Some(429));

    // Error alongside otherwise-valid fields (reassembled-stream shape).
    let body = json(
        r#"{
            "id": "gen-x", "object": "chat.completion.chunk", "choices": [],
            "error": {"code": 503, "message": "upstream"}
        }"#,
    );
    assert_eq!(embedded_error_status(&body), Some(503));

    // Stringified numeric code.
    assert_eq!(
        embedded_error_status(&json(r#"{"error": {"code": "502"}}"#)),
        Some(502)
    );
}

#[test]
fn embedded_error_status_ignores_normal_and_ambiguous_bodies() {
    // A well-formed completion must never be disturbed.
    let ok = json(
        r#"{
            "id": "chatcmpl-1", "object": "chat.completion",
            "choices": [{"index": 0, "message": {"role": "assistant", "content": "hi"}}]
        }"#,
    );
    assert_eq!(embedded_error_status(&ok), None);

    // No code / null code / non-numeric (string) code / out-of-range code.
    assert_eq!(
        embedded_error_status(&json(r#"{"error": {"message": "x"}}"#)),
        None
    );
    assert_eq!(
        embedded_error_status(&json(r#"{"error": {"code": null}}"#)),
        None
    );
    assert_eq!(
        embedded_error_status(&json(r#"{"error": {"code": "rate_limit_exceeded"}}"#)),
        None
    );
    assert_eq!(
        embedded_error_status(&json(r#"{"error": {"code": 200}}"#)),
        None
    );
    assert_eq!(
        embedded_error_status(&json(r#"{"error": {"code": 999}}"#)),
        None
    );
}

#[test]
fn classify_sse_event_distinguishes_error_data_and_comment() {
    // A provider's first-frame error on a 200 stream.
    assert_eq!(
        classify_sse_event(b"data: {\"error\":{\"code\":429,\"message\":\"x\"}}\n\n"),
        SseEventKind::Error(429)
    );
    // Error alongside otherwise-valid chunk fields (provider shape).
    assert_eq!(
        classify_sse_event(b"data: {\"id\":\"g\",\"choices\":[],\"error\":{\"code\":502}}\n\n"),
        SseEventKind::Error(502)
    );
    // Tolerant of `data:` with no space after the colon.
    assert_eq!(
        classify_sse_event(b"data:{\"error\":{\"code\":503}}\n\n"),
        SseEventKind::Error(503)
    );
    // Multi-line `data:` fields are concatenated with `\n` before parsing
    // (SSE spec): the two `data:` lines here join to the valid JSON
    // `{"error":{"code":429}}` (the embedded `\n` is JSON whitespace).
    assert_eq!(
        classify_sse_event(b"data: {\"error\":\ndata: {\"code\":429}}\n\n"),
        SseEventKind::Error(429)
    );

    // Normal content and the [DONE] sentinel are data frames, not errors.
    assert_eq!(
        classify_sse_event(b"data: {\"choices\":[{\"delta\":{\"content\":\"hi\"}}]}\n\n"),
        SseEventKind::Data
    );
    assert_eq!(classify_sse_event(b"data: [DONE]\n\n"), SseEventKind::Data);

    // Comment / keep-alive frames carry no `data:` field.
    assert_eq!(classify_sse_event(b": keep-alive\n\n"), SseEventKind::Comment);
    assert_eq!(classify_sse_event(b": ping\n\n"), SseEventKind::Comment);

    // Non-UTF-8 is treated as opaque data (forwarded, never flagged).
    assert_eq!(classify_sse_event(&[0xFF, 0xFE]), SseEventKind::Data);
}

#[test]
fn test_filter_headers_strips_hop_by_hop_headers() {
    let mut headers = HeaderMap::new();

    // Add hop-by-hop headers that should be removed
    headers.insert("connection", "keep-alive".parse().unwrap());
    headers.insert("keep-alive", "timeout=5".parse().unwrap());
    headers.insert("proxy-authenticate", "Basic".parse().unwrap());
    headers.insert("proxy-authorization", "Basic abc123".parse().unwrap());
    headers.insert("te", "trailers".parse().unwrap());
    headers.insert("trailer", "Expires".parse().unwrap());
    headers.insert("upgrade", "HTTP/2.0".parse().unwrap());

    // Add a safe header that should be kept
    headers.insert("content-type", "application/json".parse().unwrap());

    let target = target_at("https://api.example.com");

    filter_headers_for_upstream(&mut headers, &target);

    // Verify hop-by-hop headers were removed
    assert!(!headers.contains_key("connection"));
    assert!(!headers.contains_key("keep-alive"));
    assert!(!headers.contains_key("proxy-authenticate"));
    assert!(!headers.contains_key("proxy-authorization"));
    assert!(!headers.contains_key("te"));
    assert!(!headers.contains_key("trailer"));
    assert!(!headers.contains_key("upgrade"));

    // Verify safe header was kept
    assert!(headers.contains_key("content-type"));
}

#[test]
fn test_filter_headers_strips_auth_headers() {
    let mut headers = HeaderMap::new();

    // Add auth headers that should be removed
    headers.insert("authorization", "Bearer client-token".parse().unwrap());
    headers.insert("x-api-key", "client-api-key".parse().unwrap());
    headers.insert("api-key", "another-key".parse().unwrap());

    let target = target_at("https://api.example.com");

    filter_headers_for_upstream(&mut headers, &target);

    // Verify all auth headers were removed (client credentials stripped)
    assert!(!headers.contains_key("authorization"));
    assert!(!headers.contains_key("x-api-key"));
    assert!(!headers.contains_key("api-key"));
}

#[test]
fn test_filter_headers_strips_browser_security_headers() {
    let mut headers = HeaderMap::new();

    // Add browser security headers
    headers.insert("sec-fetch-site", "cross-site".parse().unwrap());
    headers.insert("sec-fetch-mode", "cors".parse().unwrap());
    headers.insert("sec-fetch-dest", "empty".parse().unwrap());
    headers.insert("sec-fetch-user", "?1".parse().unwrap());

    let target = target_at("https://api.example.com");

    filter_headers_for_upstream(&mut headers, &target);

    // Verify all sec-fetch-* headers were removed
    assert!(!headers.contains_key("sec-fetch-site"));
    assert!(!headers.contains_key("sec-fetch-mode"));
    assert!(!headers.contains_key("sec-fetch-dest"));
    assert!(!headers.contains_key("sec-fetch-user"));
}

#[test]
fn test_filter_headers_strips_all_sec_ch_ua_variants() {
    let mut headers = HeaderMap::new();

    // Add various sec-ch-ua headers
    headers.insert("sec-ch-ua", "\"Chrome\";v=\"120\"".parse().unwrap());
    headers.insert("sec-ch-ua-mobile", "?0".parse().unwrap());
    headers.insert("sec-ch-ua-platform", "\"macOS\"".parse().unwrap());
    headers.insert("sec-ch-ua-arch", "\"arm64\"".parse().unwrap());
    headers.insert("sec-ch-ua-model", "\"\"".parse().unwrap());

    // Add a safe header
    headers.insert("user-agent", "Mozilla/5.0...".parse().unwrap());

    let target = target_at("https://api.example.com");

    filter_headers_for_upstream(&mut headers, &target);

    // Verify all sec-ch-ua* headers were removed
    assert!(!headers.contains_key("sec-ch-ua"));
    assert!(!headers.contains_key("sec-ch-ua-mobile"));
    assert!(!headers.contains_key("sec-ch-ua-platform"));
    assert!(!headers.contains_key("sec-ch-ua-arch"));
    assert!(!headers.contains_key("sec-ch-ua-model"));

    // Verify user-agent was kept
    assert!(headers.contains_key("user-agent"));
}

#[test]
fn test_filter_headers_strips_browser_context_headers() {
    let mut headers = HeaderMap::new();

    headers.insert("origin", "http://localhost:3000".parse().unwrap());
    headers.insert("referer", "http://localhost:3000/chat".parse().unwrap());
    headers.insert("cookie", "session=abc123".parse().unwrap());

    let target = target_at("https://api.example.com");

    filter_headers_for_upstream(&mut headers, &target);

    assert!(!headers.contains_key("origin"));
    assert!(!headers.contains_key("referer"));
    assert!(!headers.contains_key("cookie"));
}

#[test]
fn test_filter_headers_strips_caching_headers() {
    let mut headers = HeaderMap::new();

    headers.insert(
        "if-modified-since",
        "Wed, 21 Oct 2015 07:28:00 GMT".parse().unwrap(),
    );
    headers.insert("if-none-match", "\"abc123\"".parse().unwrap());
    headers.insert("if-match", "\"xyz789\"".parse().unwrap());
    headers.insert(
        "if-unmodified-since",
        "Wed, 21 Oct 2015 07:28:00 GMT".parse().unwrap(),
    );
    headers.insert("if-range", "\"abc123\"".parse().unwrap());

    let target = target_at("https://api.example.com");

    filter_headers_for_upstream(&mut headers, &target);

    assert!(!headers.contains_key("if-modified-since"));
    assert!(!headers.contains_key("if-none-match"));
    assert!(!headers.contains_key("if-match"));
    assert!(!headers.contains_key("if-unmodified-since"));
    assert!(!headers.contains_key("if-range"));
}

#[test]
fn test_filter_headers_strips_model_override_header() {
    let mut headers = HeaderMap::new();

    headers.insert("model-override", "gpt-4".parse().unwrap());
    headers.insert("content-type", "application/json".parse().unwrap());

    let target = target_at("https://api.example.com");

    filter_headers_for_upstream(&mut headers, &target);

    // model-override should be removed (already consumed for routing)
    assert!(!headers.contains_key("model-override"));
    // content-type should be kept
    assert!(headers.contains_key("content-type"));
}

#[test]
fn test_filter_headers_keeps_safe_headers() {
    let mut headers = HeaderMap::new();

    // Add headers that should be kept
    headers.insert("content-type", "application/json".parse().unwrap());
    headers.insert("accept", "application/json".parse().unwrap());
    headers.insert("user-agent", "MyClient/1.0".parse().unwrap());
    headers.insert("accept-language", "en-US,en;q=0.9".parse().unwrap());
    headers.insert("accept-encoding", "gzip, deflate, br".parse().unwrap());
    headers.insert("x-stainless-lang", "js".parse().unwrap());
    headers.insert("x-stainless-os", "macOS".parse().unwrap());

    let target = target_at("https://api.example.com");

    filter_headers_for_upstream(&mut headers, &target);

    // All these headers should be kept
    assert!(headers.contains_key("content-type"));
    assert!(headers.contains_key("accept"));
    assert!(headers.contains_key("user-agent"));
    assert!(headers.contains_key("accept-language"));
    assert!(headers.contains_key("accept-encoding"));
    assert!(headers.contains_key("x-stainless-lang"));
    assert!(headers.contains_key("x-stainless-os"));
}

#[test]
fn test_filter_headers_adds_authorization_when_onwards_key_present() {
    let mut headers = HeaderMap::new();

    // Add client authorization that should be stripped
    headers.insert("authorization", "Bearer client-token".parse().unwrap());

    let target = Target { onwards_key: Some("sk-upstream-key".to_string()), ..target_at("https://api.example.com") };

    filter_headers_for_upstream(&mut headers, &target);

    // Client auth should be removed and replaced with onwards_key
    assert!(headers.contains_key("authorization"));
    assert_eq!(
        headers.get("authorization").unwrap().to_str().unwrap(),
        "Bearer sk-upstream-key"
    );
}

#[test]
fn test_filter_headers_no_authorization_when_onwards_key_absent() {
    let mut headers = HeaderMap::new();

    // Add client authorization
    headers.insert("authorization", "Bearer client-token".parse().unwrap());

    let target = target_at("https://api.example.com");

    filter_headers_for_upstream(&mut headers, &target);

    // Client auth should be removed and NOT replaced (no onwards_key)
    assert!(!headers.contains_key("authorization"));
}

#[test]
fn test_filter_headers_custom_auth_header_name() {
    let mut headers = HeaderMap::new();

    // Add client authorization that should be stripped
    headers.insert("authorization", "Bearer client-token".parse().unwrap());

    let target = Target { onwards_key: Some("my-api-key-123".to_string()), upstream_auth_header_name: Some("X-API-Key".to_string()), ..target_at("https://api.example.com") };

    filter_headers_for_upstream(&mut headers, &target);

    // Client auth should be removed
    assert!(!headers.contains_key("authorization"));

    // Custom header should be added with default Bearer prefix
    assert!(headers.contains_key("x-api-key"));
    assert_eq!(
        headers.get("x-api-key").unwrap().to_str().unwrap(),
        "Bearer my-api-key-123"
    );
}

#[test]
fn test_filter_headers_custom_auth_header_prefix() {
    let mut headers = HeaderMap::new();

    let target = Target { onwards_key: Some("token-xyz".to_string()), upstream_auth_header_prefix: Some("ApiKey ".to_string()), ..target_at("https://api.example.com") };

    filter_headers_for_upstream(&mut headers, &target);

    // Should use custom prefix with default Authorization header
    assert!(headers.contains_key("authorization"));
    assert_eq!(
        headers.get("authorization").unwrap().to_str().unwrap(),
        "ApiKey token-xyz"
    );
}

#[test]
fn test_filter_headers_empty_auth_header_prefix() {
    let mut headers = HeaderMap::new();

    let target = Target { onwards_key: Some("plain-api-key-456".to_string()), upstream_auth_header_prefix: Some("".to_string()), ..target_at("https://api.example.com") };

    filter_headers_for_upstream(&mut headers, &target);

    // Should use empty prefix (just the key value)
    assert!(headers.contains_key("authorization"));
    assert_eq!(
        headers.get("authorization").unwrap().to_str().unwrap(),
        "plain-api-key-456"
    );
}

#[test]
fn test_filter_headers_custom_header_name_and_prefix() {
    let mut headers = HeaderMap::new();

    let target = Target { onwards_key: Some("secret-key".to_string()), upstream_auth_header_name: Some("X-Custom-Auth".to_string()), upstream_auth_header_prefix: Some("Token ".to_string()), ..target_at("https://api.example.com") };

    filter_headers_for_upstream(&mut headers, &target);

    // Should use both custom header name and custom prefix
    assert!(!headers.contains_key("authorization"));
    assert!(headers.contains_key("x-custom-auth"));
    assert_eq!(
        headers.get("x-custom-auth").unwrap().to_str().unwrap(),
        "Token secret-key"
    );
}

#[test]
fn test_filter_headers_adds_x_forwarded_proto() {
    let mut headers = HeaderMap::new();

    let target = target_at("https://api.example.com");

    filter_headers_for_upstream(&mut headers, &target);

    assert!(headers.contains_key("x-forwarded-proto"));
    assert_eq!(
        headers.get("x-forwarded-proto").unwrap().to_str().unwrap(),
        "https"
    );
}

#[test]
fn test_filter_headers_comprehensive_browser_request() {
    // Simulate a real browser request with all the problematic headers
    let mut headers = HeaderMap::new();

    // Hop-by-hop
    headers.insert("connection", "keep-alive".parse().unwrap());

    // Auth (should be stripped)
    headers.insert("authorization", "Bearer client-secret".parse().unwrap());

    // Browser security
    headers.insert("sec-fetch-site", "same-origin".parse().unwrap());
    headers.insert("sec-fetch-mode", "cors".parse().unwrap());
    headers.insert("sec-fetch-dest", "empty".parse().unwrap());
    headers.insert("sec-ch-ua", "\"Chrome\";v=\"120\"".parse().unwrap());
    headers.insert("sec-ch-ua-mobile", "?0".parse().unwrap());
    headers.insert("sec-ch-ua-platform", "\"macOS\"".parse().unwrap());

    // Browser context
    headers.insert("origin", "http://localhost:5173".parse().unwrap());
    headers.insert(
        "referer",
        "http://localhost:5173/playground".parse().unwrap(),
    );
    headers.insert("cookie", "session=xyz; token=abc".parse().unwrap());

    // Caching
    headers.insert("if-none-match", "\"abc123\"".parse().unwrap());

    // Safe headers that should be kept
    headers.insert("content-type", "application/json".parse().unwrap());
    headers.insert("accept", "application/json".parse().unwrap());
    headers.insert("user-agent", "Mozilla/5.0...".parse().unwrap());

    let target = Target { onwards_key: Some("sk-ant-upstream-key".to_string()), ..target_at("https://api.anthropic.com") };

    filter_headers_for_upstream(&mut headers, &target);

    // Verify all problematic headers were removed
    assert!(!headers.contains_key("connection"));
    assert!(!headers.contains_key("sec-fetch-site"));
    assert!(!headers.contains_key("sec-fetch-mode"));
    assert!(!headers.contains_key("sec-fetch-dest"));
    assert!(!headers.contains_key("sec-ch-ua"));
    assert!(!headers.contains_key("sec-ch-ua-mobile"));
    assert!(!headers.contains_key("sec-ch-ua-platform"));
    assert!(!headers.contains_key("origin"));
    assert!(!headers.contains_key("referer"));
    assert!(!headers.contains_key("cookie"));
    assert!(!headers.contains_key("if-none-match"));

    // Verify safe headers were kept
    assert!(headers.contains_key("content-type"));
    assert!(headers.contains_key("accept"));
    assert!(headers.contains_key("user-agent"));

    // Verify Authorization was replaced with upstream key
    assert_eq!(
        headers.get("authorization").unwrap().to_str().unwrap(),
        "Bearer sk-ant-upstream-key"
    );

    // Verify X-Forwarded-Proto was added
    assert_eq!(
        headers.get("x-forwarded-proto").unwrap().to_str().unwrap(),
        "https"
    );
}

#[test]
fn test_filter_headers_preserves_provider_specific_headers() {
    let mut headers = HeaderMap::new();

    // Provider-specific headers that should be kept
    headers.insert("anthropic-version", "2023-06-01".parse().unwrap());
    headers.insert("openai-organization", "org-123".parse().unwrap());
    headers.insert("x-stainless-lang", "js".parse().unwrap());
    headers.insert("x-stainless-runtime", "browser:chrome".parse().unwrap());

    let target = target_at("https://api.anthropic.com");

    filter_headers_for_upstream(&mut headers, &target);

    // All provider-specific headers should be kept
    assert!(headers.contains_key("anthropic-version"));
    assert!(headers.contains_key("openai-organization"));
    assert!(headers.contains_key("x-stainless-lang"));
    assert!(headers.contains_key("x-stainless-runtime"));
}

#[test]
fn test_path_stripping_with_duplicate_prefix() {
    // Test the logic: target URL has "/v1", request path has "/v1/chat/completions"
    // Should result in "https://api.openai.com/v1/chat/completions" not "/v1/v1/..."

    let target_url = TargetUrl::parse("https://api.openai.com/v1/").unwrap();
    let path = join_path("/v1/chat/completions", target_url.path());
    let result = target_url.join(&path).unwrap();
    assert_eq!(
        result.as_str(),
        "https://api.openai.com/v1/chat/completions"
    );
}

#[test]
fn test_path_stripping_without_duplicate() {
    // Test: target URL has no path, request path has "/v1/chat/completions"
    // Should result in "https://api.openai.com/v1/chat/completions"

    let target_url = TargetUrl::parse("https://api.openai.com/").unwrap();
    let path = join_path("/v1/chat/completions", target_url.path());
    let result = target_url.join(&path).unwrap();
    assert_eq!(
        result.as_str(),
        "https://api.openai.com/v1/chat/completions"
    );
}

#[test]
fn test_path_stripping_with_actual_duplicate_paths() {
    // Edge case: API actually has /v1/v1/something
    // Target has no path, request has "v1/v1/something"

    let target_url = TargetUrl::parse("https://api.example.com/").unwrap();
    let path = join_path("/v1/v1/something", target_url.path());
    let result = target_url.join(&path).unwrap();
    assert_eq!(result.as_str(), "https://api.example.com/v1/v1/something");
}

#[test]
fn test_path_stripping_with_different_prefix() {
    // Test: target has "/v2", request has "/v1/chat/completions"
    // Should not strip, result in "https://api.example.com/v2/v1/chat/completions"

    let target_url = TargetUrl::parse("https://api.example.com/v2/").unwrap();
    let path = join_path("/v1/chat/completions", target_url.path());
    let result = target_url.join(&path).unwrap();
    assert_eq!(
        result.as_str(),
        "https://api.example.com/v2/v1/chat/completions"
    );
}

#[test]
fn test_path_stripping_with_query_params() {
    // Test: path with query parameters should work correctly

    let target_url = TargetUrl::parse("https://api.openai.com/v1/").unwrap();
    let path = join_path("/v1/chat/completions?stream=true", target_url.path());
    let result = target_url.join(&path).unwrap();
    assert_eq!(
        result.as_str(),
        "https://api.openai.com/v1/chat/completions?stream=true"
    );
}

#[test]
fn test_path_stripping_false_positive() {
    // Test: path starts with target prefix but no slash after (e.g., "v1x")
    // Should NOT strip since it's not a real path match

    let target_url = TargetUrl::parse("https://api.example.com/v1/").unwrap();
    let path = join_path("/v1x/something", target_url.path());
    let result = target_url.join(&path).unwrap();
    // Should NOT strip "v1" since "v1x" is not the same as "v1/"
    assert_eq!(result.as_str(), "https://api.example.com/v1/v1x/something");
}

// Timeout behavior tests
// These tests document the expected behavior but can't easily test the actual timeout
// functionality without a mock HTTP client. They serve as documentation and type-checking.

#[test]
fn test_timeout_config_can_be_set() {
    // Test that timeout can be configured on target

    let target = Target { request_timeout_secs: Some(30), ..target_at("https://api.example.com") };

    assert_eq!(target.request_timeout_secs, Some(30));
}

#[test]
fn test_timeout_defaults_to_none() {
    // Test that timeout defaults to None (unlimited)

    let target = target_at("https://api.example.com");

    assert_eq!(target.request_timeout_secs, None);
}

#[test]
fn test_gateway_timeout_error_response() {
    let error = OnwardsErrorResponse::gateway_timeout();

    assert_eq!(error.status, 504);
}

#[test]
fn test_gateway_timeout_error_body() {
    let error = OnwardsErrorResponse::gateway_timeout();
    let body_str = error.to_json().unwrap().render().unwrap();

    // Should contain error structure with message and code fields
    assert!(body_str.contains("message"));
    assert!(body_str.contains("code"));
    assert!(body_str.contains("gateway_timeout"));
    assert!(body_str.contains("took too long"));
}

#[test]
fn test_pool_with_fallback_enabled() {
    // Test that pool configuration correctly enables fallback with multiple providers
    // This validates pool setup, not actual retry behavior

    // Create two targets
    let target1 = Target { request_timeout_secs: Some(1), ..target_at("https://provider1.example.com/") };

    let target2 = Target { request_timeout_secs: Some(1), ..target_at("https://provider2.example.com/") };

    let mut table = ConnectionTable::new();
    let providers = vec![
        Provider::new(&mut table, target1, 1),
        Provider::new(&mut table, target2, 1),
    ];

    let fallback_config = Some(FallbackConfig {
        enabled: true,
        on_status: vec![],
        on_rate_limit: false,
        ..Default::default()
    });

    let pool = ProviderPool::with_config(
        providers,
        None,
        None,
        None,
        fallback_config,
        LoadBalanceStrategy::Priority,
        false,
        Vec::new(),
    );

    assert!(pool.fallback_enabled(), "Fallback should be enabled");
    assert_eq!(pool.len(), 2, "Pool should have 2 providers");
}

/// Helper: build a minimal target with the requested trace flags.
fn target_with_trace_flags(
    trusted: Option<bool>,
    propagate_trace_context: Option<bool>,
) -> Target {
    Target { trusted, propagate_trace_context, ..target_at("https://api.example.com/") }
}

#[test]
fn resolve_trace_propagation_explicit_true_overrides_untrusted_pool() {
    let target = target_with_trace_flags(Some(false), Some(true));
    assert!(resolve_trace_propagation(&target, false));
}

#[test]
fn resolve_trace_propagation_explicit_false_overrides_trusted_pool() {
    let target = target_with_trace_flags(Some(true), Some(false));
    assert!(!resolve_trace_propagation(&target, true));
}

#[test]
fn resolve_trace_propagation_inherits_from_target_trusted_when_unset() {
    let target = target_with_trace_flags(Some(true), None);
    assert!(resolve_trace_propagation(&target, false));

    let target = target_with_trace_flags(Some(false), None);
    assert!(!resolve_trace_propagation(&target, true));
}

#[test]
fn resolve_trace_propagation_inherits_from_pool_when_target_unset() {
    let target = target_with_trace_flags(None, None);
    assert!(resolve_trace_propagation(&target, true));
    assert!(!resolve_trace_propagation(&target, false));
}

#[test]
fn withhold_trace_context_strips_inbound_trace_headers() {
    // When propagation is disabled for an upstream, an inbound trace
    // context (e.g. from the caller) must not be forwarded.
    let mut headers = HeaderMap::new();
    headers.insert(
        "traceparent",
        "00-0af7651916cd43dd8448eb211c80319c-b7ad6b7169203331-01"
            .parse()
            .unwrap(),
    );
    headers.insert("tracestate", "vendor=value".parse().unwrap());
    headers.insert("content-type", "application/json".parse().unwrap());

    withhold_trace_context(&mut headers);

    assert!(
        !headers.contains_key("traceparent"),
        "traceparent must be stripped"
    );
    assert!(
        !headers.contains_key("tracestate"),
        "tracestate must be stripped"
    );
    // Unrelated headers are left untouched.
    assert!(
        headers.contains_key("content-type"),
        "non-trace headers must be preserved"
    );
}

#[test]
fn withhold_trace_context_is_noop_when_absent() {
    let mut headers = HeaderMap::new();
    headers.insert("content-type", "application/json".parse().unwrap());
    withhold_trace_context(&mut headers);
    assert_eq!(headers.len(), 1);
}

#[test]
fn every_sec_header_is_withheld() {
    let mut headers = HeaderMap::new();
    headers.insert("sec-gpc", "1".parse().unwrap());
    headers.insert("content-type", "application/json".parse().unwrap());
    // Such a name can come over HTTP/2.
    let quoted = HeaderName::from_lowercase(b"sec-ch-ua\"x").unwrap();
    headers.insert(quoted.clone(), "1".parse().unwrap());
    let long = HeaderName::from_lowercase(format!("sec-{}\"", "a".repeat(90)).as_bytes()).unwrap();
    headers.insert(long.clone(), "1".parse().unwrap());
    let kept = HeaderName::from_lowercase(b"x-\"y").unwrap();
    headers.insert(kept.clone(), "1".parse().unwrap());
    filter_headers_for_upstream(&mut headers, &target_at("https://api.example.com"));
    assert!(!headers.contains_key("sec-gpc"));
    assert!(!headers.contains_key(&quoted));
    assert!(!headers.contains_key(&long));
    assert!(headers.contains_key(&kept));
    assert_eq!(headers["content-type"], "application/json");
    assert_eq!(headers["x-forwarded-proto"], "https");
    assert_eq!(headers.len(), 3);
}

#[test]
fn reasoning_is_read_where_the_path_has_its_contract() {
    assert!(matches!(find_reasoning(true, true, b"x"), Ok(ReasoningSource::Given)));
    assert!(matches!(find_reasoning(false, false, b"x"), Ok(ReasoningSource::Absent)));
    assert!(matches!(find_reasoning(false, true, b""), Ok(ReasoningSource::Absent)));
    assert!(matches!(find_reasoning(false, true, b"{}"), Ok(ReasoningSource::Validate(_))));
    let error = find_reasoning(false, true, b"{").err().unwrap();
    assert_eq!(error.status, 400);
    assert_eq!(error.body.unwrap().message, "Request body must be valid JSON.");
}

#[test]
fn the_first_objection_is_told() {
    assert!(judge_translations(vec![None, None]).is_ok());
    let objections = vec![
        None,
        Some(OnwardsErrorResponse::forbidden()),
        Some(OnwardsErrorResponse::unauthorized()),
    ];
    assert_eq!(judge_translations(objections).err().unwrap().status, 403);
}

#[test]
fn a_body_is_translated_where_there_is_something_to_translate() {
    assert!(read_for_translation(true, true, b"").ok().unwrap().is_none());
    assert!(read_for_translation(false, true, b"{").ok().unwrap().is_none());
    assert!(read_for_translation(true, false, b"{").ok().unwrap().is_none());
    assert_eq!(read_for_translation(true, true, b"{").err().unwrap().status, 400);
    let document = read_for_translation(true, true, b"{ }").ok().unwrap().unwrap();
    assert_eq!(settle_translation(Ok(document)).ok().unwrap(), b"{}");
    let refused = settle_translation(Err(OnwardsErrorResponse::forbidden()));
    assert_eq!(refused.err().unwrap().status, 403);
}

#[test]
fn an_id_is_replaced_in_successful_responses_that_have_one() {
    let id = || Some("resp_1".to_string());
    assert_eq!(override_id(true, true, 200, id()), id());
    assert_eq!(override_id(true, true, 299, None), None);
    assert_eq!(override_id(true, true, 300, id()), None);
    assert_eq!(override_id(true, false, 200, id()), None);
    assert_eq!(override_id(false, true, 200, id()), None);
    let mut headers = HeaderMap::new();
    assert_eq!(requested_id(&headers, "X-Response-Id"), None);
    headers.insert("x-response-id", "7".parse().unwrap());
    assert_eq!(requested_id(&headers, "X-Response-Id"), Some("resp_7".to_string()));
    headers.insert("x-response-id", "resp_8".parse().unwrap());
    assert_eq!(requested_id(&headers, "x-response-id"), Some("resp_8".to_string()));
    assert_eq!(requested_id(&headers, "no name"), None);
}

#[test]
fn names_that_cannot_be_spelled_are_withheld_too() {
    // Characters of long names are not looked at when a header is put in.
    const LONG: &str =
        "sec-(aaaaaaaaaaaaaaaaaaaaaaaaaaaaaaaaaaaaaaaaaaaaaaaaaaaaaaaaaaaaaaaaaaaaaaaaaaaaaaaaaa";
    const OTHER: &str =
        "x-(aaaaaaaaaaaaaaaaaaaaaaaaaaaaaaaaaaaaaaaaaaaaaaaaaaaaaaaaaaaaaaaaaaaaaaaaaaaaaaaaaaaa";
    let mut headers = HeaderMap::new();
    headers.insert(LONG, "1".parse().unwrap());
    headers.insert(OTHER, "1".parse().unwrap());
    assert_eq!(headers.len(), 2);
    filter_headers_for_upstream(&mut headers, &target_at("https://api.example.com"));
    let mut names: Vec<&str> = headers.keys().map(|name| name.as_str()).collect();
    names.sort();
    assert_eq!(names.len(), 2);
    assert!(names[0].starts_with("x-\0"));
    assert_eq!(names[1], "x-forwarded-proto");
}

#[test]
fn reasoning_settings_are_settled_before_a_pool_is_entered() {
    let objection = || vec![None, Some(OnwardsErrorResponse::forbidden())];
    let given = || Ok(ReasoningSource::Given);
    let absent = || Ok(ReasoningSource::Absent);
    let validate = || Ok(ReasoningSource::Validate(json("{}")));
    assert!(settle_reasoning(given(), Ok(false), Vec::new()).ok().unwrap());
    assert_eq!(settle_reasoning(given(), Ok(false), objection()).err().unwrap().status, 403);
    assert!(!settle_reasoning(absent(), Ok(true), objection()).ok().unwrap());
    assert!(!settle_reasoning(validate(), Ok(false), objection()).ok().unwrap());
    assert!(settle_reasoning(validate(), Ok(true), vec![None]).ok().unwrap());
    assert_eq!(settle_reasoning(validate(), Ok(true), objection()).err().unwrap().status, 403);
    let invalid = Err(OnwardsErrorResponse::unauthorized());
    assert_eq!(settle_reasoning(validate(), invalid, objection()).err().unwrap().status, 401);
    let unread = find_reasoning(false, true, b"{");
    assert_eq!(settle_reasoning(unread, Ok(true), objection()).err().unwrap().status, 400);
}

#[test]
fn the_id_at_the_top_of_a_body_is_replaced() {
    assert!(path_has_id("/v1/responses"));
    assert!(path_has_id("/v1/chat/completions"));
    assert!(path_has_id("/responses"));
    assert!(!path_has_id("/v1/completions"));
    assert!(!path_has_id("responses"));
    let changed = replace_id(br#"{"id":"a","x":{"id":"b"}}"#, "resp_1").unwrap();
    assert_eq!(changed, br#"{"id":"resp_1","x":{"id":"b"}}"#);
    assert_eq!(replace_id(br#"{"x":1}"#, "resp_1"), None);
    assert_eq!(replace_id(br#"["id"]"#, "resp_1"), None);
    assert_eq!(replace_id(b"{", "resp_1"), None);
}
