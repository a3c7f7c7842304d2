use onwards::auth::{hash_key, validate_bearer_token, ConstantTimeString, HashAlgorithm, KeySet};
use onwards::json::{Json, JsonObject};
use onwards::load_balancer::{
    least_ratio, total_weight, weighted_index, Provider, ProviderPool, TtfbTracker,
};
use onwards::names::NameMap;
use onwards::script_tools::{
    invalid_name_message, is_valid_tool_name, script_file, script_output,
};
use onwards::settings::{pool_settings, HttpPoolConfig, DEFAULT_BODY_LIMIT};
use onwards::span::Span;
use onwards::target::{
    ConcurrencyLimiter, ConnectionTable, FallbackConfig, LoadBalanceStrategy, Target, TargetUrl,
};
use onwards::test_utils::{scripted, MockStream, MockStreamEvent, Polled};
use onwards::text;

fn target_at(url: &str) -> Target {
    Target::new(TargetUrl::parse(url).unwrap())
}

// ---------------------------------------------------------------------------
// Keys
// ---------------------------------------------------------------------------

#[test]
fn keys_are_hashed() {
    assert_eq!(
        hash_key("abc", Some(&HashAlgorithm::Sha256)),
        "ba7816bf8f01cfea414140de5dae2223b00361a396177a9cb410ff61f20015ad"
    );
    assert_eq!(hash_key("abc", None), "abc");
}

#[test]
fn keys_are_validated() {
    let mut keys = KeySet::new();
    keys.insert(ConstantTimeString::from("plain".to_string()));
    keys.insert(ConstantTimeString::from(hash_key("secret", Some(&HashAlgorithm::Sha256))));
    assert!(validate_bearer_token(&keys, "plain", None));
    assert!(!validate_bearer_token(&keys, "plai", None));
    assert!(!validate_bearer_token(&keys, "secret", None));
    assert!(validate_bearer_token(&keys, "secret", Some(&HashAlgorithm::Sha256)));
    assert!(!validate_bearer_token(&keys, "plain", Some(&HashAlgorithm::Sha256)));
    assert!(!validate_bearer_token(&KeySet::new(), "plain", None));
}

// ---------------------------------------------------------------------------
// Choosing
// ---------------------------------------------------------------------------

#[test]
fn the_least_ratios_are_found() {
    assert_eq!(least_ratio(&vec![Some((1, 2)), Some((2, 4)), Some((3, 4)), None]), vec![0, 1]);
    assert_eq!(least_ratio(&vec![None, Some((5, 1))]), vec![1]);
    assert!(least_ratio(&vec![None]).is_empty());
}

#[test]
fn draws_follow_weights() {
    let weights = vec![3, 0, 2];
    assert_eq!(total_weight(&weights), 5);
    let chosen: Vec<usize> = (0..5).map(|drawn| weighted_index(&weights, drawn)).collect();
    assert_eq!(chosen, vec![0, 0, 0, 2, 2]);
    assert_eq!(total_weight(&vec![u32::MAX, u32::MAX]), 8_589_934_590);
}

#[test]
fn measured_times_fade() {
    let mut tracker = TtfbTracker::new(2);
    assert_eq!(tracker.get(0, 0), 0);
    tracker.record(0, 2_000_000, 1_000);
    assert_eq!(tracker.get(0, 1_000), 2_000_000);
    let later = tracker.get(0, 11_000);
    assert!(later < 2_000_000);
    assert_eq!(tracker.get(0, 10_000_000), 0);
    assert_eq!(tracker.get(1, 1_000), 0);
    assert_eq!(tracker.get(9, 1_000), 0);
}

fn fastest_pool(table: &mut ConnectionTable) -> ProviderPool {
    ProviderPool::with_config(
        vec![
            Provider::new(table, target_at("https://a.example.com"), 1),
            Provider::new(table, target_at("https://b.example.com"), 1),
        ],
        None,
        None,
        None,
        None,
        LoadBalanceStrategy::FastestTtfb,
        false,
        Vec::new(),
    )
}

#[test]
fn the_fastest_provider_is_chosen() {
    let mut table = ConnectionTable::new();
    let mut pool = fastest_pool(&mut table);
    pool.record_ttfb(0, 900_000, 5);
    pool.record_ttfb(1, 300_000, 5);
    for _ in 0..20 {
        let (chosen, _, guard) = pool.select(&mut table, 6).unwrap();
        assert_eq!(chosen, 1);
        table.release(guard);
    }
    // One that was not measured is tried first.
    let mut pool = fastest_pool(&mut table);
    pool.record_ttfb(1, 300_000, 5);
    assert_eq!(pool.select(&mut table, 6).unwrap().0, 0);
}

#[test]
fn priority_passes_over_busy_providers() {
    let mut table = ConnectionTable::new();
    let pool = ProviderPool::with_config(
        vec![
            Provider::with_concurrency_limit(&mut table, target_at("https://a.example.com"), 1, 1),
            Provider::new(&mut table, target_at("https://b.example.com"), 1),
        ],
        None,
        None,
        None,
        None,
        LoadBalanceStrategy::Priority,
        false,
        Vec::new(),
    );
    let (first, _, guard) = pool.select(&mut table, 0).unwrap();
    assert_eq!(first, 0);
    assert_eq!(pool.select(&mut table, 0).unwrap().0, 1);
    table.release(guard);
    assert_eq!(pool.select(&mut table, 0).unwrap().0, 0);
}

#[test]
fn providers_without_weight_are_not_drawn() {
    let mut table = ConnectionTable::new();
    let pool = ProviderPool::new(vec![
        Provider::new(&mut table, target_at("https://a.example.com"), 0),
        Provider::new(&mut table, target_at("https://b.example.com"), 1),
    ]);
    for _ in 0..20 {
        assert_eq!(pool.select(&mut table, 0).unwrap().0, 1);
    }
}

#[test]
fn limiters_count_and_give_back() {
    let mut table = ConnectionTable::new();
    let limited = ConcurrencyLimiter::with_limit(&mut table, 2);
    let unlimited = ConcurrencyLimiter::new(&mut table);
    assert_eq!(limited.limit(), Some(2));
    assert_eq!(unlimited.limit(), None);
    let first = limited.try_acquire(&mut table).unwrap();
    let second = limited.try_acquire(&mut table).unwrap();
    assert!(limited.at_capacity(&table));
    assert!(limited.try_acquire(&mut table).is_none());
    assert_eq!(unlimited.active(&table), 0);
    assert!(table.counts(&first));
    table.release(first);
    table.release(second);
    assert_eq!(limited.active(&table), 0);
}

#[test]
fn retries_follow_the_rules() {
    let off = FallbackConfig { on_status: vec![500], ..Default::default() };
    assert!(!off.should_fallback_on_status(500));
    let on = FallbackConfig { enabled: true, on_status: vec![500], ..Default::default() };
    assert!(on.should_fallback_on_status(500));
    assert!(!on.should_fallback_on_status(404));
}

#[test]
fn urls_are_normalised_and_compared() {
    let url = TargetUrl::parse("https://API.example.com").unwrap();
    assert_eq!(url.as_str(), "https://api.example.com/");
    assert_eq!(url.path(), "/");
    assert!(url.same(&TargetUrl::parse("https://api.example.com/").unwrap()));
    assert!(!url.same(&TargetUrl::parse("https://api.example.com/x").unwrap()));
    assert!(TargetUrl::parse("not a url").is_none());
}

// ---------------------------------------------------------------------------
// Documents and texts
// ---------------------------------------------------------------------------

#[test]
fn documents_are_read_and_written() {
    let source = r#"{"a":[1,-2,2.5,true,null,"x\ny"],"b":{"c":18446744073709551615}}"#;
    let value = Json::parse(source.as_bytes()).unwrap();
    assert!(matches!(
        value.member("b").unwrap().member("c"),
        Some(Json::Unsigned(u64::MAX))
    ));
    assert!(value.member("c").is_none());
    assert_eq!(value.render().unwrap(), source);
    assert!(Json::parse(b"{").is_none());
    assert!(Json::parse(b"").is_none());
    // Of two members of one name the later counts.
    let value = Json::parse(br#"{"a":1,"a":2}"#).unwrap();
    assert_eq!(value.render().unwrap(), r#"{"a":2}"#);
}

#[test]
fn objects_hold_each_name_once() {
    let mut object = JsonObject::new();
    object.insert("a", Json::Unsigned(1));
    object.insert("b", Json::Bool(true));
    object.insert("a", Json::Unsigned(2));
    assert!(object.has("a"));
    assert!(matches!(object.take("a"), Some(Json::Unsigned(2))));
    assert!(!object.has("a"));
    assert_eq!(object.into_entries().len(), 1);
}

#[test]
fn texts_are_taken_apart() {
    let chars = text::chars_of(" a b\u{a0}\n");
    assert_eq!(text::string_of(text::trim(&chars)), "a b");
    let lines = text::lines(&text::chars_of("one\r\ntwo\n\nfour"));
    let lines: Vec<String> = lines.iter().map(|line| text::string_of(line)).collect();
    assert_eq!(lines, vec!["one", "two", "", "four"]);
    assert_eq!(text::decimal(0), "0");
    assert_eq!(text::decimal(u64::MAX), "18446744073709551615");
    assert_eq!(text::parse_number(&text::chars_of("0429")), Some(429));
    assert_eq!(text::parse_number(&text::chars_of("18446744073709551616")), None);
    assert_eq!(text::parse_number(&text::chars_of("")), None);
    assert_eq!(text::decode(b"\xff"), None);
    assert_eq!(text::decode("\u{e4}".as_bytes()), Some(vec!['\u{e4}']));
    assert!(text::contains_bytes(b"say \"error\"", b"\"error\""));
    assert!(!text::contains_bytes(b"say error", b"\"error\""));
}

#[test]
fn names_keep_their_order() {
    let mut map = NameMap::new();
    map.insert("b", 1);
    map.insert("a", 2);
    map.insert("b", 3);
    assert_eq!(map.len(), 2);
    assert_eq!(map.names(), vec!["b", "a"]);
    assert_eq!(map.get("b"), Some(&3));
    assert_eq!(map.at(1), ("a", &2));
    let mut value = 9;
    assert!(map.exchange("a", &mut value));
    assert_eq!(value, 2);
    assert!(!map.exchange("x", &mut value));
    assert_eq!(map.get("a"), Some(&9));
}

#[test]
fn spans_are_counted_in_nanoseconds() {
    assert_eq!(Span::from_secs(2).nanos, 2_000_000_000);
    assert_eq!(Span::from_millis(3).nanos, 3_000_000);
    assert_eq!(Span::from_secs(1).saturating_sub(Span::from_secs(2)), Span::zero());
}

// ---------------------------------------------------------------------------
// Tools, mocks and settings
// ---------------------------------------------------------------------------

#[test]
fn tool_names_are_checked() {
    assert!(is_valid_tool_name("get_weather-2"));
    for name in ["", "../x", "a b", "a.sh", "a/b", "\u{e4}"] {
        assert!(!is_valid_tool_name(name), "{name}");
        assert_eq!(script_file(name), None);
    }
    assert_eq!(script_file("get_weather").as_deref(), Some("get_weather.sh"));
    assert_eq!(
        invalid_name_message("a b"),
        "Invalid tool name 'a b': only alphanumeric, hyphen, underscore allowed"
    );
}

#[test]
fn script_output_is_a_document_or_a_text() {
    assert_eq!(script_output(" {\"a\": 1}\n").render().unwrap(), r#"{"a":1}"#);
    assert_eq!(script_output("sunny\n").render().unwrap(), r#""sunny""#);
    assert_eq!(script_output("").render().unwrap(), r#""""#);
}

#[test]
fn mock_streams_follow_their_script() {
    let mut stream = MockStream::new(vec![
        MockStreamEvent::Data("a".to_string()),
        MockStreamEvent::Bytes(vec![1, 2]),
        MockStreamEvent::Error("gone".to_string()),
        MockStreamEvent::Pending,
        MockStreamEvent::Data("never".to_string()),
    ]);
    assert!(matches!(stream.poll(), Polled::Chunk(bytes) if bytes == b"a"));
    assert!(matches!(stream.poll(), Polled::Chunk(bytes) if bytes == [1, 2]));
    assert!(matches!(stream.poll(), Polled::Failed(message) if message == "gone"));
    assert!(matches!(stream.poll(), Polled::Waiting));
    assert!(matches!(stream.poll(), Polled::Waiting));
    assert!(matches!(MockStream::new(Vec::new()).poll(), Polled::Ended));
    assert_eq!(scripted(&vec![5, 6], 1), Some(&6));
    assert_eq!(scripted(&vec![5, 6], 2), None);
}

#[test]
fn settings_where_nothing_is_configured() {
    assert_eq!(DEFAULT_BODY_LIMIT, 32 * 1024 * 1024);
    let settings = pool_settings(None);
    assert_eq!(settings.max_idle_per_host, 100);
    assert_eq!(settings.idle_timeout_secs, 90);
    let own = HttpPoolConfig { max_idle_per_host: 7, idle_timeout_secs: 8 };
    assert_eq!(pool_settings(Some(own)), own);
}

#[test]
fn numbers_are_told_apart() {
    let document = Json::parse(b"[5,-1,1.5]").unwrap();
    let items = match document {
        Json::Array(items) => items,
        _ => panic!("the document is an array"),
    };
    assert!(matches!(items[0], Json::Unsigned(5)));
    for item in &items[1..] {
        assert!(matches!(item, Json::OtherNumber(_)));
    }
    let text = Json::Array(items).render().unwrap();
    assert_eq!(text, "[5,-1,1.5]");
}
