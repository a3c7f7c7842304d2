use axum::http::HeaderMap;
use onwards::cache::{CacheClassifier, CacheStats, ClassifyInput, NoopCacheClassifier};
use onwards::cache_usage::{
    inject_into_body, inject_into_sse_body, inject_into_usage_json, plan_injection,
    prepare_stream_headers, strip_cache_control, InjectionPlan, StreamInjector,
};
use onwards::sse::SseBuffer;
use serde_json::Value;

fn stats() -> CacheStats {
    CacheStats {
        read: 1024,
        creation_5m: 10,
        creation_1h: 20,
        creation_24h: 30,
    }
}

#[test]
fn strip_removes_nested_cache_control() {
    let body = br#"{
        "model": "m",
        "messages": [
            {"role": "system", "content": [
                {"type": "text", "text": "sys", "cache_control": {"type": "ephemeral", "ttl": "1h"}}
            ]},
            {"role": "user", "content": "hi", "cache_control": {"type": "ephemeral"}}
        ],
        "cache_control": {"type": "ephemeral"}
    }"#;
    let out = strip_cache_control(body).expect("should rewrite");
    let v: Value = serde_json::from_slice(&out).unwrap();
    assert!(v.get("cache_control").is_none());
    let msgs = v["messages"].as_array().unwrap();
    assert!(msgs[1].get("cache_control").is_none());
    let content = msgs[0]["content"].as_array().unwrap();
    assert!(content[0].get("cache_control").is_none());
    // body content otherwise intact
    assert_eq!(content[0]["text"], "sys");
}

#[test]
fn strip_returns_none_when_nothing_to_do() {
    let body = br#"{"model":"m","messages":[{"role":"user","content":"hi"}]}"#;
    assert!(strip_cache_control(body).is_none());
}

#[test]
fn strip_sets_include_usage_for_streaming() {
    let body = br#"{"model":"m","stream":true,"messages":[{"role":"user","content":"hi"}]}"#;
    let out = strip_cache_control(body).expect("should rewrite (include_usage)");
    let v: Value = serde_json::from_slice(&out).unwrap();
    assert_eq!(v["stream_options"]["include_usage"], true);
}

#[test]
fn strip_leaves_non_streaming_usage_alone() {
    // no cache_control, not streaming → nothing to do
    let body = br#"{"model":"m","stream":false,"messages":[{"role":"user","content":"hi"}]}"#;
    assert!(strip_cache_control(body).is_none());
}

#[test]
fn inject_non_streaming_adds_cache_fields() {
    let body = br#"{
        "id":"c1","object":"chat.completion","model":"m",
        "choices":[],
        "usage":{"prompt_tokens":1100,"completion_tokens":5,"total_tokens":1105}
    }"#;
    let out = inject_into_usage_json(body, &stats()).expect("should inject");
    let v: Value = serde_json::from_slice(&out).unwrap();
    let usage = &v["usage"];
    // prompt_tokens untouched (full input count)
    assert_eq!(usage["prompt_tokens"], 1100);
    assert_eq!(usage["prompt_tokens_details"]["cached_tokens"], 1024);
    assert_eq!(usage["cache_read_input_tokens"], 1024);
    assert_eq!(usage["cache_creation_input_tokens"], 60);
    assert_eq!(usage["cache_creation"]["ephemeral_5m_input_tokens"], 10);
    assert_eq!(usage["cache_creation"]["ephemeral_1h_input_tokens"], 20);
    assert_eq!(usage["cache_creation"]["ephemeral_24h_input_tokens"], 30);
}

#[test]
fn inject_non_streaming_zero_stats_injects_zeros() {
    let body = br#"{"usage":{"prompt_tokens":10,"completion_tokens":5,"total_tokens":15}}"#;
    let out = inject_into_usage_json(body, &CacheStats::default()).expect("should inject");
    let v: Value = serde_json::from_slice(&out).unwrap();
    assert_eq!(v["usage"]["prompt_tokens_details"]["cached_tokens"], 0);
    assert_eq!(v["usage"]["cache_read_input_tokens"], 0);
    assert_eq!(v["usage"]["cache_creation_input_tokens"], 0);
}

#[test]
fn inject_non_streaming_none_when_no_usage() {
    let body = br#"{"id":"c1","choices":[]}"#;
    assert!(inject_into_usage_json(body, &stats()).is_none());
}

#[test]
fn inject_sse_edits_only_terminal_usage_frame() {
    // A delta chunk (no usage), then a terminal usage frame, then [DONE].
    let body = "data: {\"id\":\"c1\",\"object\":\"chat.completion.chunk\",\"model\":\"m\",\"choices\":[{\"index\":0,\"delta\":{\"content\":\"hi\"}}]}\n\ndata: {\"id\":\"c1\",\"object\":\"chat.completion.chunk\",\"model\":\"m\",\"choices\":[],\"usage\":{\"prompt_tokens\":1100,\"completion_tokens\":5,\"total_tokens\":1105}}\n\ndata: [DONE]\n\n";
    let out = inject_into_sse_body(body.as_bytes(), &stats()).expect("should inject");
    let out_str = std::str::from_utf8(&out).unwrap();

    // Delta chunk content untouched.
    assert!(out_str.contains("\"delta\":{\"content\":\"hi\"}"));
    // Usage frame got the cache fields.
    assert!(out_str.contains("\"cached_tokens\":1024"));
    assert!(out_str.contains("\"cache_read_input_tokens\":1024"));
    assert!(out_str.contains("\"cache_creation_input_tokens\":60"));
    assert!(out_str.contains("\"ephemeral_1h_input_tokens\":20"));
    // [DONE] preserved.
    assert!(out_str.contains("data: [DONE]"));
    // Framing preserved: ends with \n\n.
    assert!(out_str.ends_with("\n\n"));
    // The delta chunk should appear before the usage frame (order preserved).
    let delta_pos = out_str.find("\"content\":\"hi\"").unwrap();
    let usage_pos = out_str.find("cached_tokens").unwrap();
    assert!(delta_pos < usage_pos);
}

#[test]
fn inject_sse_none_when_no_usage_frame() {
    let body = "data: {\"id\":\"c1\",\"choices\":[{\"delta\":{\"content\":\"hi\"}}]}\n\ndata: [DONE]\n\n";
    assert!(inject_into_sse_body(body.as_bytes(), &stats()).is_none());
}

#[test]
fn inject_sse_only_edits_first_usage_frame() {
    // Defensive: a single usage frame is the norm; ensure we stop after the
    // first edit and don't touch a second (degenerate) usage line.
    let body = "data: {\"usage\":{\"prompt_tokens\":1}}\n\ndata: {\"usage\":{\"prompt_tokens\":2}}\n\ndata: [DONE]\n\n";
    let out = inject_into_sse_body(body.as_bytes(), &stats()).expect("should inject");
    let out_str = std::str::from_utf8(&out).unwrap();
    // exactly one injected cached_tokens.
    assert_eq!(out_str.matches("cached_tokens").count(), 1);
}

#[test]
fn inject_sse_handles_event_split_across_body_chunks() {
    let chunk1 = "data: {\"id\":\"c1\",\"object\":\"chat.completion.chunk\",\"choices\":[],\"usage\":{\"prompt_to";
    let chunk2 = "kens\":1100,\"completion_tokens\":5,\"total_tokens\":1105}}\n\n";
    let chunk3 = "data: [DONE]\n\n";
    let mut headers = HeaderMap::new();
    headers.insert("content-type", "text/event-stream".parse().unwrap());
    headers.insert("content-length", "10".parse().unwrap());
    assert!(matches!(plan_injection(&headers), InjectionPlan::EditStream));
    prepare_stream_headers(&mut headers);
    assert!(!headers.contains_key("content-length"));

    let mut buffer = SseBuffer::new();
    let mut injector = StreamInjector::new(stats());
    let mut collected = Vec::new();
    for chunk in [chunk1, chunk2, chunk3] {
        for event in buffer.push(chunk.as_bytes()) {
            collected.extend(injector.pass(event));
        }
    }
    assert!(buffer.finish().is_none());
    let s = std::str::from_utf8(&collected).unwrap();
    // The split usage frame was re-aggregated and injected.
    assert!(
        s.contains("\"cached_tokens\":1024"),
        "usage frame should be injected across split chunks: {s}"
    );
    assert!(s.contains("\"cache_read_input_tokens\":1024"));
    assert!(s.contains("data: [DONE]"));
}

#[test]
fn cache_stats_default_is_all_zero() {
    let s = CacheStats::default();
    assert_eq!(s.read, 0);
    assert_eq!(s.creation_5m, 0);
    assert_eq!(s.creation_1h, 0);
    assert_eq!(s.creation_24h, 0);
    assert_eq!(s.creation_total(), 0);
    assert!(s.is_zero());
}

#[test]
fn creation_total_sums_tiers() {
    let s = CacheStats {
        read: 100,
        creation_5m: 1,
        creation_1h: 2,
        creation_24h: 3,
    };
    assert_eq!(s.creation_total(), 6);
    assert!(!s.is_zero());
}

#[test]
fn noop_classifier_returns_zero_stats() {
    let classifier = NoopCacheClassifier;
    let input = ClassifyInput {
        virtual_model: "my-virtual-model".to_string(),
        path: "/v1/chat/completions".to_string(),
        body: br#"{"model":"my-virtual-model","messages":[{"role":"user","content":"hi"}]}"#.to_vec(),
        api_key: Some("sk-test".to_string()),
    };
    let stats = classifier.classify(&input);
    assert_eq!(stats, CacheStats::default());
    assert!(stats.is_zero());
}

#[test]
fn creation_total_stops_at_the_largest_number() {
    let s = CacheStats { read: 0, creation_5m: u64::MAX, creation_1h: 1, creation_24h: 2 };
    assert_eq!(s.creation_total(), u64::MAX);
}

#[test]
fn stripping_twice_changes_nothing_more() {
    let body = br#"{"model":"m","stream":true,"tools":[{"cache_control":{"type":"ephemeral"},"name":"t"}]}"#;
    let once = strip_cache_control(body).unwrap();
    assert_eq!(
        serde_json::from_slice::<Value>(&once).unwrap(),
        serde_json::from_str::<Value>(
            r#"{"model":"m","stream":true,"stream_options":{"include_usage":true},"tools":[{"name":"t"}]}"#
        )
        .unwrap()
    );
    assert!(strip_cache_control(&once).is_none());
}

#[test]
fn strip_keeps_other_stream_options() {
    let body = br#"{"stream":true,"stream_options":{"include_usage":false,"x":1}}"#;
    let out = strip_cache_control(body).unwrap();
    let v: Value = serde_json::from_slice(&out).unwrap();
    assert_eq!(v["stream_options"]["include_usage"], true);
    assert_eq!(v["stream_options"]["x"], 1);
}

#[test]
fn stream_options_that_are_no_object_give_way() {
    for options in ["null", "7", "[]"] {
        let body = format!(r#"{{"stream":true,"stream_options":{options}}}"#);
        let out = strip_cache_control(body.as_bytes()).unwrap();
        assert_eq!(
            std::str::from_utf8(&out).unwrap(),
            r#"{"stream":true,"stream_options":{"include_usage":true}}"#
        );
        assert!(strip_cache_control(&out).is_none());
    }
}

#[test]
fn strip_ignores_what_is_no_json() {
    assert!(strip_cache_control(b"not json").is_none());
    assert!(strip_cache_control(b"").is_none());
}

#[test]
fn details_that_are_no_object_give_way() {
    let body = br#"{"usage":{"prompt_tokens":10,"prompt_tokens_details":null}}"#;
    let out = inject_into_usage_json(body, &stats()).unwrap();
    let v: Value = serde_json::from_slice(&out).unwrap();
    assert_eq!(v["usage"]["prompt_tokens_details"]["cached_tokens"], 1024);
    assert_eq!(v["usage"]["cache_read_input_tokens"], 1024);
    assert_eq!(v["usage"]["prompt_tokens"], 10);
}

#[test]
fn inject_keeps_other_details() {
    let body = br#"{"usage":{"prompt_tokens":7,"prompt_tokens_details":{"audio_tokens":3}}}"#;
    let out = inject_into_usage_json(body, &stats()).unwrap();
    let v: Value = serde_json::from_slice(&out).unwrap();
    assert_eq!(v["usage"]["prompt_tokens_details"]["audio_tokens"], 3);
    assert_eq!(v["usage"]["prompt_tokens_details"]["cached_tokens"], 1024);
}

#[test]
fn body_is_injected_with_its_new_length() {
    let mut headers = HeaderMap::new();
    headers.insert("content-type", "application/json".parse().unwrap());
    headers.insert("transfer-encoding", "chunked".parse().unwrap());
    headers.insert("content-encoding", "identity".parse().unwrap());
    assert!(matches!(plan_injection(&headers), InjectionPlan::EditBody));
    let out = inject_into_body(&mut headers, br#"{"usage":{"prompt_tokens":7}}"#.to_vec(), &stats());
    assert!(std::str::from_utf8(&out).unwrap().contains("\"cached_tokens\":1024"));
    assert_eq!(headers["content-length"], out.len().to_string().as_str());
    assert!(!headers.contains_key("transfer-encoding"));
    assert!(!headers.contains_key("content-encoding"));
}

#[test]
fn body_without_usage_is_passed_on() {
    let mut headers = HeaderMap::new();
    headers.insert("content-type", "application/json".parse().unwrap());
    headers.insert("content-encoding", "gzip".parse().unwrap());
    let out = inject_into_body(&mut headers, b"{}".to_vec(), &stats());
    assert_eq!(out, b"{}");
    assert_eq!(headers["content-length"], "2");
    assert_eq!(headers["content-encoding"], "gzip");
}

#[test]
fn other_media_types_are_passed_on() {
    let mut headers = HeaderMap::new();
    headers.insert("content-type", "audio/mpeg".parse().unwrap());
    assert!(matches!(plan_injection(&headers), InjectionPlan::PassOn));
}

#[test]
fn buffer_hands_out_complete_events_only() {
    let mut buffer = SseBuffer::new();
    assert!(buffer.push(b"data: a\n").is_empty());
    let events = buffer.push(b"\ndata: b\n\nda");
    assert_eq!(events, vec![b"data: a\n\n".to_vec(), b"data: b\n\n".to_vec()]);
    assert_eq!(buffer.finish(), Some(b"da".to_vec()));
}
