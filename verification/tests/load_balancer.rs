use std::collections::HashMap;

use onwards::load_balancer::{Provider, ProviderPool};
use onwards::target::{
    ConcurrencyGuard, ConcurrencyLimiter, ConnectionTable, FallbackConfig, Labels,
    LoadBalanceStrategy, RoutingAction, RoutingRule, Target, TargetUrl,
};

fn create_test_target(url: &str) -> Target {
    Target::new(TargetUrl::parse(url).unwrap())
}

fn labelled(pairs: &[(&str, &str)]) -> Labels {
    let mut labels = Labels::new();
    for (key, value) in pairs {
        labels.insert(key, value);
    }
    labels
}

/// Every choice that is left, with its connection still active.
fn collect<'a>(
    pool: &'a ProviderPool,
    table: &mut ConnectionTable,
) -> Vec<(usize, &'a Target, ConcurrencyGuard)> {
    let mut iter = pool.select_iter();
    let mut chosen = Vec::new();
    while let Some(next) = iter.next(table, 0) {
        chosen.push(next);
    }
    chosen
}

fn release_all(table: &mut ConnectionTable, chosen: Vec<(usize, &Target, ConcurrencyGuard)>) {
    for (_, _, guard) in chosen {
        table.release(guard);
    }
}

#[test]
fn test_single_provider_pool() {
    let mut table = ConnectionTable::new();
    let target = create_test_target("https://api.example.com");
    let pool = ProviderPool::single(&mut table, target, 1);

    assert_eq!(pool.len(), 1);
    assert!(!pool.is_empty());

    let selected = pool.select(&mut table, 0);
    assert!(selected.is_some());
    let (_, target, _guard) = selected.unwrap();
    assert_eq!(target.url.as_str(), "https://api.example.com/");
}

#[test]
fn test_empty_pool_returns_none() {
    let mut table = ConnectionTable::new();
    let pool = ProviderPool::new(vec![]);

    assert!(pool.is_empty());
    assert!(pool.select(&mut table, 0).is_none());
}

#[test]
fn test_weighted_selection_distribution() {
    let mut table = ConnectionTable::new();
    // With least connections, when guards are dropped between selections,
    // all providers have 0 active connections and ties are broken by
    // weighted random — so the distribution matches weights.
    let providers = vec![
        Provider::new(&mut table, create_test_target("https://api1.example.com"), 3),
        Provider::new(&mut table, create_test_target("https://api2.example.com"), 1),
    ];
    let pool = ProviderPool::new(providers);

    let mut counts: HashMap<String, usize> = HashMap::new();
    for _ in 0..1000 {
        if let Some((_, target, guard)) = pool.select(&mut table, 0) {
            *counts.entry(target.url.as_str().to_string()).or_insert(0) += 1;
            // the active count returns to 0
            table.release(guard);
        }
    }

    let count1 = *counts.get("https://api1.example.com/").unwrap_or(&0);
    let count2 = *counts.get("https://api2.example.com/").unwrap_or(&0);

    let ratio = count1 as f64 / count2 as f64;
    assert!(
        ratio > 1.5 && ratio < 6.0,
        "Expected ratio around 3.0, got {}",
        ratio
    );
}

#[test]
fn test_least_connections_prefers_less_loaded() {
    let mut table = ConnectionTable::new();
    // When guards are held, least connections should prefer the less loaded provider
    let providers = vec![
        Provider::new(&mut table, create_test_target("https://api1.example.com"), 1),
        Provider::new(&mut table, create_test_target("https://api2.example.com"), 1),
    ];
    let pool = ProviderPool::new(providers);

    // First selection: both at 0, random tiebreak (equal weights)
    let (idx1, _, guard1) = pool.select(&mut table, 0).unwrap();

    // Second selection: one at 1, other at 0 — should pick the other
    let (idx2, _, _guard2) = pool.select(&mut table, 0).unwrap();
    assert_ne!(idx1, idx2, "Should pick the less loaded provider");

    // Drop first guard, making that provider less loaded again
    table.release(guard1);

    // Now idx1 has 0 active, idx2 has 1 active — should prefer idx1
    let (idx3, _, _guard3) = pool.select(&mut table, 0).unwrap();
    assert_eq!(
        idx3, idx1,
        "Should pick the provider whose guard was dropped"
    );
}

#[test]
fn test_weighted_least_connections_respects_weights() {
    let mut table = ConnectionTable::new();
    // Weight 3 provider should accumulate ~3x the connections before
    // the score matches weight 1 provider
    let providers = vec![
        Provider::new(&mut table, create_test_target("https://heavy.example.com"), 3),
        Provider::new(&mut table, create_test_target("https://light.example.com"), 1),
    ];
    let pool = ProviderPool::new(providers);

    // Hold all guards to accumulate connections
    let mut guards = Vec::new();
    for _ in 0..40 {
        if let Some((_, _, guard)) = pool.select(&mut table, 0) {
            guards.push(guard);
        }
    }

    let heavy_active = pool.providers()[0].active_connections(&table);
    let light_active = pool.providers()[1].active_connections(&table);

    // Ratio should be approximately 3:1
    let ratio = heavy_active as f64 / light_active as f64;
    assert!(
        ratio > 2.0 && ratio < 5.0,
        "Expected ratio around 3.0, got {} (heavy={}, light={})",
        ratio,
        heavy_active,
        light_active
    );
}

#[test]
fn test_concurrency_limit_skips_full_provider() {
    let mut table = ConnectionTable::new();
    let providers = vec![
        Provider::with_concurrency_limit(
            &mut table,
            create_test_target("https://limited.example.com"),
            1,
            1,
        ),
        Provider::new(&mut table, create_test_target("https://unlimited.example.com"), 1),
    ];
    let pool = ProviderPool::new(providers);

    // First request goes to limited provider (both at 0, random tiebreak)
    // Keep trying until we get the limited one
    let mut guard_on_limited = None;
    for _ in 0..100 {
        let (idx, _, guard) = pool.select(&mut table, 0).unwrap();
        if idx == 0 {
            guard_on_limited = Some(guard);
            break;
        }
        table.release(guard);
    }
    assert!(
        guard_on_limited.is_some(),
        "Should eventually select the limited provider"
    );

    // Now limited provider is at capacity (1/1). Next selection must go to unlimited.
    let (idx, _, _guard) = pool.select(&mut table, 0).unwrap();
    assert_eq!(idx, 1, "Should skip the full provider");
}

#[test]
fn test_all_at_capacity_returns_none() {
    let mut table = ConnectionTable::new();
    let providers = vec![
        Provider::with_concurrency_limit(&mut table, create_test_target("https://a.example.com"), 1, 1),
        Provider::with_concurrency_limit(&mut table, create_test_target("https://b.example.com"), 1, 1),
    ];
    let pool = ProviderPool::new(providers);

    let (_, _, _g1) = pool.select(&mut table, 0).unwrap();
    let (_, _, _g2) = pool.select(&mut table, 0).unwrap();

    // Both at capacity
    assert!(pool.select(&mut table, 0).is_none());
}

#[test]
fn test_first_target() {
    let mut table = ConnectionTable::new();
    let providers = vec![
        Provider::new(&mut table, create_test_target("https://api1.example.com"), 1),
        Provider::new(&mut table, create_test_target("https://api2.example.com"), 2),
    ];
    let pool = ProviderPool::new(providers);

    let first = pool.first_target();
    assert!(first.is_some());
    assert_eq!(first.unwrap().url.as_str(), "https://api1.example.com/");
}

#[test]
fn test_providers_accessor() {
    let mut table = ConnectionTable::new();
    let providers = vec![
        Provider::new(&mut table, create_test_target("https://api1.example.com"), 1),
        Provider::new(&mut table, create_test_target("https://api2.example.com"), 2),
    ];
    let pool = ProviderPool::new(providers);

    assert_eq!(pool.providers().len(), 2);
    assert_eq!(pool.providers()[0].weight, 1);
    assert_eq!(pool.providers()[1].weight, 2);
}

#[test]
fn test_select_iter_priority_strategy() {
    let mut table = ConnectionTable::new();

    let providers = vec![
        Provider::new(&mut table, create_test_target("https://primary.example.com"), 1),
        Provider::new(&mut table, create_test_target("https://secondary.example.com"), 10),
        Provider::new(&mut table, create_test_target("https://tertiary.example.com"), 5),
    ];

    let pool = ProviderPool::with_config(
        providers,
        None,
        None,
        None,
        None,
        LoadBalanceStrategy::Priority,
        false,
        Vec::new(),
    );

    // Priority strategy should return providers in definition order
    let order: Vec<_> = collect(&pool, &mut table);
    assert_eq!(order.len(), 3);
    assert_eq!(order[0].0, 0);
    assert_eq!(order[1].0, 1);
    assert_eq!(order[2].0, 2);
    assert_eq!(order[0].1.url.as_str(), "https://primary.example.com/");
    assert_eq!(order[1].1.url.as_str(), "https://secondary.example.com/");
    assert_eq!(order[2].1.url.as_str(), "https://tertiary.example.com/");
}

#[test]
fn test_select_iter_priority_with_replacement_still_advances() {
    let mut table = ConnectionTable::new();

    let providers = vec![
        Provider::new(&mut table, create_test_target("https://primary.example.com"), 1),
        Provider::new(&mut table, create_test_target("https://secondary.example.com"), 1),
        Provider::new(&mut table, create_test_target("https://tertiary.example.com"), 1),
    ];

    let fallback = Some(FallbackConfig {
        enabled: true,
        with_replacement: true,
        max_attempts: Some(3),
        ..Default::default()
    });

    let pool = ProviderPool::with_config(
        providers,
        None,
        None,
        None,
        fallback,
        LoadBalanceStrategy::Priority,
        false,
        Vec::new(),
    );

    // Even with with_replacement=true, priority strategy should advance
    // through providers in order (with_replacement is ignored for priority)
    let order: Vec<_> = collect(&pool, &mut table);
    assert_eq!(order.len(), 3);
    assert_eq!(order[0].1.url.as_str(), "https://primary.example.com/");
    assert_eq!(order[1].1.url.as_str(), "https://secondary.example.com/");
    assert_eq!(order[2].1.url.as_str(), "https://tertiary.example.com/");
}

#[test]
fn test_select_iter_weighted_random_includes_all() {
    let mut table = ConnectionTable::new();

    let providers = vec![
        Provider::new(&mut table, create_test_target("https://api1.example.com"), 3),
        Provider::new(&mut table, create_test_target("https://api2.example.com"), 1),
    ];

    let pool = ProviderPool::with_config(
        providers,
        None,
        None,
        None,
        None,
        LoadBalanceStrategy::WeightedRandom,
        false,
        Vec::new(),
    );

    let order: Vec<_> = collect(&pool, &mut table);
    assert_eq!(order.len(), 2);

    let urls: std::collections::HashSet<_> =
        order.iter().map(|(_, t, _)| t.url.as_str()).collect();
    assert!(urls.contains("https://api1.example.com/"));
    assert!(urls.contains("https://api2.example.com/"));
}

#[test]
fn test_select_iter_weighted_random_distribution() {
    let mut table = ConnectionTable::new();

    let providers = vec![
        Provider::new(&mut table, create_test_target("https://heavy.example.com"), 9),
        Provider::new(&mut table, create_test_target("https://light.example.com"), 1),
    ];

    let pool = ProviderPool::with_config(
        providers,
        None,
        None,
        None,
        None,
        LoadBalanceStrategy::WeightedRandom,
        false,
        Vec::new(),
    );

    // When guards are dropped between iterations, all providers are at 0
    // active connections, so tiebreaking is weighted random.
    let mut heavy_first = 0;
    let iterations = 1000;
    for _ in 0..iterations {
        let order: Vec<_> = collect(&pool, &mut table);
        if order[0].1.url.as_str() == "https://heavy.example.com/" {
            heavy_first += 1;
        }
        release_all(&mut table, order);
    }

    let percentage = (heavy_first * 100) / iterations;
    assert!(
        (80..=98).contains(&percentage),
        "Expected heavy to be first ~90% of the time, got {}% ({}/{})",
        percentage,
        heavy_first,
        iterations
    );
}

#[test]
fn test_select_iter_empty_pool() {
    let mut table = ConnectionTable::new();
    let pool = ProviderPool::new(vec![]);
    let order: Vec<_> = collect(&pool, &mut table);
    assert!(order.is_empty());
}

#[test]
fn test_select_iter_single_provider() {
    let mut table = ConnectionTable::new();

    for strategy in [
        LoadBalanceStrategy::Priority,
        LoadBalanceStrategy::WeightedRandom,
    ] {
        let pool = ProviderPool::with_config(
            vec![Provider::new(&mut table, create_test_target("https://only.example.com"), 1)],
            None,
            None,
            None,
            None,
            strategy,
            false,
            Vec::new(),
        );

        let order: Vec<_> = collect(&pool, &mut table);
        assert_eq!(order.len(), 1);
        assert_eq!(order[0].1.url.as_str(), "https://only.example.com/");
    }
}

#[test]
fn test_select_iter_with_replacement_allows_duplicates() {
    let mut table = ConnectionTable::new();

    let providers = vec![
        Provider::new(&mut table, create_test_target("https://api1.example.com"), 9),
        Provider::new(&mut table, create_test_target("https://api2.example.com"), 1),
    ];

    let fallback = Some(FallbackConfig {
        enabled: true,
        with_replacement: true,
        max_attempts: Some(5),
        ..Default::default()
    });

    let pool = ProviderPool::with_config(
        providers,
        None,
        None,
        None,
        fallback,
        LoadBalanceStrategy::WeightedRandom,
        false,
        Vec::new(),
    );

    // With replacement + max_attempts=5, should get exactly 5 entries
    let order: Vec<_> = collect(&pool, &mut table);
    assert_eq!(order.len(), 5);

    // With least connections + with_replacement, the same provider can be picked
    // multiple times (since guards from prior iterations are dropped and the
    // provider becomes least-loaded again)
    let mut found_duplicate = false;
    for _ in 0..100 {
        let order: Vec<_> = collect(&pool, &mut table);
        let indices: Vec<usize> = order.iter().map(|(idx, _, _)| *idx).collect();
        let unique: std::collections::HashSet<_> = indices.iter().collect();
        release_all(&mut table, order);
        if unique.len() < indices.len() {
            found_duplicate = true;
            break;
        }
    }
    assert!(
        found_duplicate,
        "With replacement should allow the same provider to appear multiple times"
    );
}

#[test]
fn test_select_iter_max_attempts_controls_length() {
    let mut table = ConnectionTable::new();

    let providers = vec![
        Provider::new(&mut table, create_test_target("https://api1.example.com"), 1),
        Provider::new(&mut table, create_test_target("https://api2.example.com"), 1),
        Provider::new(&mut table, create_test_target("https://api3.example.com"), 1),
    ];

    let fallback = Some(FallbackConfig {
        enabled: true,
        max_attempts: Some(2),
        ..Default::default()
    });

    let pool = ProviderPool::with_config(
        providers,
        None,
        None,
        None,
        fallback,
        LoadBalanceStrategy::WeightedRandom,
        false,
        Vec::new(),
    );

    let order: Vec<_> = collect(&pool, &mut table);
    assert_eq!(
        order.len(),
        2,
        "max_attempts should cap the ordering length"
    );

    let indices: std::collections::HashSet<_> = order.iter().map(|(idx, _, _)| *idx).collect();
    assert_eq!(
        indices.len(),
        2,
        "Without replacement, all entries should be unique"
    );
}

#[test]
fn test_select_iter_max_attempts_with_priority() {
    let mut table = ConnectionTable::new();

    let providers = vec![
        Provider::new(&mut table, create_test_target("https://primary.example.com"), 1),
        Provider::new(&mut table, create_test_target("https://secondary.example.com"), 1),
        Provider::new(&mut table, create_test_target("https://tertiary.example.com"), 1),
    ];

    let fallback = Some(FallbackConfig {
        enabled: true,
        max_attempts: Some(2),
        ..Default::default()
    });

    let pool = ProviderPool::with_config(
        providers,
        None,
        None,
        None,
        fallback,
        LoadBalanceStrategy::Priority,
        false,
        Vec::new(),
    );

    let order: Vec<_> = collect(&pool, &mut table);
    assert_eq!(order.len(), 2);
    assert_eq!(order[0].1.url.as_str(), "https://primary.example.com/");
    assert_eq!(order[1].1.url.as_str(), "https://secondary.example.com/");
}

#[test]
fn test_select_iter_defaults_preserve_behavior() {
    let mut table = ConnectionTable::new();

    let providers = vec![
        Provider::new(&mut table, create_test_target("https://api1.example.com"), 3),
        Provider::new(&mut table, create_test_target("https://api2.example.com"), 1),
    ];

    let pool = ProviderPool::with_config(
        providers,
        None,
        None,
        None,
        None,
        LoadBalanceStrategy::WeightedRandom,
        false,
        Vec::new(),
    );

    let order: Vec<_> = collect(&pool, &mut table);
    assert_eq!(order.len(), 2);

    let urls: std::collections::HashSet<_> =
        order.iter().map(|(_, t, _)| t.url.as_str()).collect();
    assert!(urls.contains("https://api1.example.com/"));
    assert!(urls.contains("https://api2.example.com/"));
}

#[test]
fn test_select_iter_with_replacement_single_provider() {
    let mut table = ConnectionTable::new();

    let providers = vec![Provider::new(&mut table, create_test_target("https://only.example.com"), 1)];

    let fallback = Some(FallbackConfig {
        enabled: true,
        with_replacement: true,
        max_attempts: Some(3),
        ..Default::default()
    });

    let pool = ProviderPool::with_config(
        providers,
        None,
        None,
        None,
        fallback,
        LoadBalanceStrategy::WeightedRandom,
        false,
        Vec::new(),
    );

    let order: Vec<_> = collect(&pool, &mut table);
    assert_eq!(
        order.len(),
        3,
        "Single provider with replacement should repeat"
    );
    for (idx, target, _) in &order {
        assert_eq!(*idx, 0);
        assert_eq!(target.url.as_str(), "https://only.example.com/");
    }
}

#[test]
fn test_select_iter_with_replacement_respects_weights() {
    let mut table = ConnectionTable::new();

    let providers = vec![
        Provider::new(&mut table, create_test_target("https://heavy.example.com"), 99),
        Provider::new(&mut table, create_test_target("https://light.example.com"), 1),
    ];

    let fallback = Some(FallbackConfig {
        enabled: true,
        with_replacement: true,
        max_attempts: Some(10),
        ..Default::default()
    });

    let pool = ProviderPool::with_config(
        providers,
        None,
        None,
        None,
        fallback,
        LoadBalanceStrategy::WeightedRandom,
        false,
        Vec::new(),
    );

    // Over many runs, the heavy provider should dominate first-pick
    let mut heavy_count = 0;
    let iterations = 100;
    for _ in 0..iterations {
        let order: Vec<_> = collect(&pool, &mut table);
        heavy_count += order
            .iter()
            .filter(|(_, t, _)| t.url.as_str() == "https://heavy.example.com/")
            .count();
        release_all(&mut table, order);
    }

    let total = iterations * 10;
    let percentage = (heavy_count * 100) / total;
    assert!(
        percentage > 85,
        "Heavy provider (99:1 weight) should appear >85% of the time, got {}%",
        percentage
    );
}

#[test]
fn test_evaluate_routing_rules_no_rules() {
    let mut table = ConnectionTable::new();
    let pool = ProviderPool::new(vec![Provider::new(&mut table, create_test_target("https://api.example.com"), 1)]);

    let labels = labelled(&[("purpose", "batch")]);
    assert!(pool.evaluate_routing_rules(&labels).is_none());
}

#[test]
fn test_evaluate_routing_rules_deny() {
    let mut table = ConnectionTable::new();

    let rules = vec![RoutingRule {
        match_labels: labelled(&[("purpose", "playground")]),
        action: RoutingAction::Deny,
    }];

    let pool = ProviderPool::with_config(
        vec![Provider::new(&mut table, create_test_target("https://api.example.com"), 1)],
        None,
        None,
        None,
        None,
        LoadBalanceStrategy::default(),
        false,
        rules,
    );

    let labels = labelled(&[("purpose", "playground")]);
    assert!(matches!(
        pool.evaluate_routing_rules(&labels),
        Some(RoutingAction::Deny)
    ));

    let labels = labelled(&[("purpose", "batch")]);
    assert!(pool.evaluate_routing_rules(&labels).is_none());

    assert!(pool.evaluate_routing_rules(&Labels::new()).is_none());
}

#[test]
fn test_evaluate_routing_rules_redirect() {
    let mut table = ConnectionTable::new();

    let rules = vec![RoutingRule {
        match_labels: labelled(&[("purpose", "batch")]),
        action: RoutingAction::Redirect {
            target: "gpt-4o-mini".to_string(),
        },
    }];

    let pool = ProviderPool::with_config(
        vec![Provider::new(&mut table, create_test_target("https://api.example.com"), 1)],
        None,
        None,
        None,
        None,
        LoadBalanceStrategy::default(),
        false,
        rules,
    );

    let labels = labelled(&[("purpose", "batch")]);
    match pool.evaluate_routing_rules(&labels) {
        Some(RoutingAction::Redirect { target }) => {
            assert_eq!(target, "gpt-4o-mini");
        }
        other => panic!("Expected Redirect, got {:?}", other),
    }
}

#[test]
fn test_evaluate_routing_rules_first_match_wins() {
    let mut table = ConnectionTable::new();

    let rules = vec![
        RoutingRule {
            match_labels: labelled(&[("purpose", "batch")]),
            action: RoutingAction::Deny,
        },
        RoutingRule {
            match_labels: labelled(&[("purpose", "batch")]),
            action: RoutingAction::Redirect {
                target: "other".to_string(),
            },
        },
    ];

    let pool = ProviderPool::with_config(
        vec![Provider::new(&mut table, create_test_target("https://api.example.com"), 1)],
        None,
        None,
        None,
        None,
        LoadBalanceStrategy::default(),
        false,
        rules,
    );

    let labels = labelled(&[("purpose", "batch")]);
    assert!(matches!(
        pool.evaluate_routing_rules(&labels),
        Some(RoutingAction::Deny)
    ));
}

#[test]
fn test_evaluate_routing_rules_multiple_label_conditions() {
    let mut table = ConnectionTable::new();

    let rules = vec![RoutingRule {
        match_labels: labelled(&[
            ("purpose", "batch"),
            ("tier", "free"),
        ]),
        action: RoutingAction::Deny,
    }];

    let pool = ProviderPool::with_config(
        vec![Provider::new(&mut table, create_test_target("https://api.example.com"), 1)],
        None,
        None,
        None,
        None,
        LoadBalanceStrategy::default(),
        false,
        rules,
    );

    let labels = labelled(&[
        ("purpose", "batch"),
        ("tier", "free"),
    ]);
    assert!(matches!(
        pool.evaluate_routing_rules(&labels),
        Some(RoutingAction::Deny)
    ));

    let labels = labelled(&[("purpose", "batch")]);
    assert!(pool.evaluate_routing_rules(&labels).is_none());

    let labels = labelled(&[
        ("purpose", "batch"),
        ("tier", "free"),
        ("org", "acme"),
    ]);
    assert!(matches!(
        pool.evaluate_routing_rules(&labels),
        Some(RoutingAction::Deny)
    ));
}

#[test]
fn test_adopt_provider_state_preserves_active_counts() {
    let mut table = ConnectionTable::new();
    let providers = vec![
        Provider::new(&mut table, create_test_target("https://api1.example.com"), 3),
        Provider::new(&mut table, create_test_target("https://api2.example.com"), 1),
    ];
    let old_pool = ProviderPool::new(providers);

    // Accumulate some active connections on the old pool
    let mut guards = Vec::new();
    for _ in 0..8 {
        if let Some((_, _, guard)) = old_pool.select(&mut table, 0) {
            guards.push(guard);
        }
    }

    let old_active_0 = old_pool.providers()[0].active_connections(&table);
    let old_active_1 = old_pool.providers()[1].active_connections(&table);
    assert!(old_active_0 > 0, "Should have active connections on provider 0");
    assert!(old_active_1 > 0, "Should have active connections on provider 1");

    // Create a new pool (simulating a config reload) and adopt state
    let new_providers = vec![
        Provider::new(&mut table, create_test_target("https://api1.example.com"), 3),
        Provider::new(&mut table, create_test_target("https://api2.example.com"), 1),
    ];
    let mut new_pool = ProviderPool::new(new_providers);

    assert_eq!(new_pool.providers()[0].active_connections(&table), 0);
    assert_eq!(new_pool.providers()[1].active_connections(&table), 0);

    new_pool.adopt_provider_state(&old_pool);

    // New pool should see the same active counts
    assert_eq!(new_pool.providers()[0].active_connections(&table), old_active_0);
    assert_eq!(new_pool.providers()[1].active_connections(&table), old_active_1);

    // Dropping a guard should decrement both old and new views
    table.release(guards.pop().unwrap());
    let total_after = new_pool.providers()[0].active_connections(&table)
        + new_pool.providers()[1].active_connections(&table);
    assert_eq!(total_after, old_active_0 + old_active_1 - 1);
}

#[test]
fn test_adopt_provider_state_new_provider_starts_at_zero() {
    let mut table = ConnectionTable::new();
    let old_providers = vec![
        Provider::new(&mut table, create_test_target("https://api1.example.com"), 1),
    ];
    let old_pool = ProviderPool::new(old_providers);

    // Accumulate connections on old pool
    let _guards: Vec<_> = (0..5)
        .filter_map(|_| old_pool.select(&mut table, 0).map(|(_, _, g)| g))
        .collect();

    // New pool has an additional provider
    let new_providers = vec![
        Provider::new(&mut table, create_test_target("https://api1.example.com"), 1),
        Provider::new(&mut table, create_test_target("https://api2.example.com"), 1),
    ];
    let mut new_pool = ProviderPool::new(new_providers);
    new_pool.adopt_provider_state(&old_pool);

    // Existing provider should have adopted counts
    assert_eq!(new_pool.providers()[0].active_connections(&table), 5);
    // New provider should start fresh at 0
    assert_eq!(new_pool.providers()[1].active_connections(&table), 0);
}

#[test]
fn test_adopt_provider_state_removed_provider_ignored() {
    let mut table = ConnectionTable::new();
    let old_providers = vec![
        Provider::new(&mut table, create_test_target("https://api1.example.com"), 1),
        Provider::new(&mut table, create_test_target("https://api2.example.com"), 1),
    ];
    let old_pool = ProviderPool::new(old_providers);

    let _guards: Vec<_> = (0..4)
        .filter_map(|_| old_pool.select(&mut table, 0).map(|(_, _, g)| g))
        .collect();

    // New pool removes api2
    let new_providers = vec![
        Provider::new(&mut table, create_test_target("https://api1.example.com"), 1),
    ];
    let mut new_pool = ProviderPool::new(new_providers);
    new_pool.adopt_provider_state(&old_pool);

    // Should only have the surviving provider's count
    assert!(new_pool.providers()[0].active_connections(&table) > 0);
    assert_eq!(new_pool.providers().len(), 1);
}

#[test]
fn test_adopt_provider_state_preserves_pool_concurrency_limiter() {
    let mut table = ConnectionTable::new();

    let old_pool = ProviderPool::with_config(
        vec![Provider::new(&mut table, create_test_target("https://api1.example.com"), 1)],
        None,
        None,
        Some(ConcurrencyLimiter::with_limit(&mut table, 100)),
        None,
        LoadBalanceStrategy::default(),
        false,
        Vec::new(),
    );

    // Acquire some pool-level concurrency slots
    let _guard1 = old_pool.pool_concurrency_limiter().unwrap().try_acquire(&mut table);
    let _guard2 = old_pool.pool_concurrency_limiter().unwrap().try_acquire(&mut table);
    assert_eq!(old_pool.pool_concurrency_limiter().unwrap().active(&table), 2);

    let mut new_pool = ProviderPool::with_config(
        vec![Provider::new(&mut table, create_test_target("https://api1.example.com"), 1)],
        None,
        None,
        Some(ConcurrencyLimiter::with_limit(&mut table, 200)), // new limit
        None,
        LoadBalanceStrategy::default(),
        false,
        Vec::new(),
    );

    new_pool.adopt_provider_state(&old_pool);

    // Should have adopted the active count
    assert_eq!(new_pool.pool_concurrency_limiter().unwrap().active(&table), 2);
    // But the new limit should apply
    assert_eq!(new_pool.pool_concurrency_limiter().unwrap().limit(), Some(200));
}

#[test]
fn counts_are_live_guards_and_stay_within_the_limit() {
    let mut table = ConnectionTable::new();
    let provider = Provider::with_concurrency_limit(
        &mut table,
        create_test_target("https://api.example.com"),
        1,
        2,
    );
    let pool = ProviderPool::new(vec![provider]);
    let count = |table: &ConnectionTable| pool.providers()[0].active_connections(table);
    assert_eq!(count(&table), 0);
    let (_, _, first) = pool.select(&mut table, 0).unwrap();
    assert_eq!(count(&table), 1);
    let (_, _, second) = pool.select_iter().next(&mut table, 0).unwrap();
    assert_eq!(count(&table), 2);
    assert!(pool.select(&mut table, 0).is_none());
    assert_eq!(count(&table), 2);
    table.release(first);
    assert_eq!(count(&table), 1);
    let (_, _, third) = pool.select(&mut table, 0).unwrap();
    table.release(second);
    table.release(third);
    assert_eq!(count(&table), 0);
}
