use rust_monitoring_system::{Labels, MetricRegistry, MetricValue, MonitoringError};
use std::time::Duration;

fn labels(pairs: &[(&str, &str)]) -> Labels {
    let mut l = Labels::new();
    for (k, v) in pairs {
        l.insert(k.to_string(), v.to_string());
    }
    l
}

#[test]
fn test_register_counter() {
    let mut registry = MetricRegistry::new();
    {
        let counter = registry
            .register_counter("test_counter", "A test counter", Labels::new())
            .expect("Failed to register counter");

        counter.inc_by(5);
        assert_eq!(counter.get(), 5);
    }

    // Try to register same metric again
    let result = registry.register_counter("test_counter", "A test counter", Labels::new());
    assert!(result.is_err());
}

#[test]
fn test_register_gauge() {
    let mut registry = MetricRegistry::new();
    let gauge = registry
        .register_gauge("test_gauge", "A test gauge", Labels::new())
        .expect("Failed to register gauge");

    gauge.set(42);
    assert_eq!(gauge.get(), 42);
}

#[test]
fn registry_test_get_or_create() {
    let mut registry = MetricRegistry::new();

    let counter1 = registry.get_or_create_counter("counter", Labels::new());
    counter1.inc();

    let counter2 = registry.get_or_create_counter("counter", Labels::new());
    assert_eq!(counter2.get(), 1);
}

#[test]
fn test_labels() {
    let mut registry = MetricRegistry::new();

    let labels1 = labels(&[("env", "prod")]);
    let labels2 = labels(&[("env", "dev")]);

    {
        let counter1 = registry
            .register_counter("requests", "Request count", labels1)
            .expect("Failed to register counter with prod labels");
        counter1.inc_by(10);
        assert_eq!(counter1.get(), 10);
    }
    {
        let counter2 = registry
            .register_counter("requests", "Request count", labels2)
            .expect("Failed to register counter with dev labels");
        counter2.inc_by(20);
        assert_eq!(counter2.get(), 20);
    }
    assert_eq!(
        registry.get_or_create_counter("requests", labels(&[("env", "prod")])).get(),
        10
    );
    assert_eq!(
        registry.get_or_create_counter("requests", labels(&[("env", "dev")])).get(),
        20
    );
}

#[test]
fn registry_test_default_labels() {
    let mut registry = MetricRegistry::new();

    registry.set_default_labels(labels(&[("service", "api")]));

    let _counter = registry
        .register_counter("requests", "Request count", Labels::new())
        .expect("Failed to register counter with default labels");

    let metrics = registry.collect();
    assert_eq!(metrics.len(), 1);
    assert_eq!(metrics[0].labels.get("service"), Some(&"api".to_string()));
}

#[test]
fn test_collect() {
    let mut registry = MetricRegistry::new();

    registry
        .register_counter("counter", "help", Labels::new())
        .expect("Failed to register counter for collect test")
        .inc_by(5);
    registry
        .register_gauge("gauge", "help", Labels::new())
        .expect("Failed to register gauge for collect test")
        .set(42);

    let metrics = registry.collect();
    assert_eq!(metrics.len(), 2);
}

#[test]
fn test_clear() {
    let mut registry = MetricRegistry::new();

    registry
        .register_counter("counter", "help", Labels::new())
        .expect("Failed to register counter for clear test");

    assert_eq!(registry.count(), 1);

    registry.clear();
    assert_eq!(registry.count(), 0);
}

#[test]
fn duplicate_registration_reports_the_identity() {
    let mut registry = MetricRegistry::new();
    registry.set_default_labels(labels(&[("service", "api")]));
    registry
        .register_counter("requests", "help", Labels::new())
        .expect("first registration");
    match registry.register_counter("requests", "other help", Labels::new()) {
        Err(MonitoringError::AlreadyExists { name, labels }) => {
            assert_eq!(name, "requests");
            assert_eq!(labels, "{\"service\": \"api\"}");
        }
        _ => panic!("expected AlreadyExists"),
    }
    assert_eq!(registry.count(), 1);
}

#[test]
fn register_gauge_at_capacity_is_refused() {
    let mut registry = MetricRegistry::with_max_cardinality(1);
    registry
        .register_gauge("a", "help", Labels::new())
        .expect("first gauge");
    match registry.register_gauge("b", "help", Labels::new()) {
        Err(MonitoringError::CardinalityLimitExceeded { limit, current }) => {
            assert_eq!(limit, 1);
            assert_eq!(current, 1);
        }
        _ => panic!("expected CardinalityLimitExceeded"),
    }
    assert_eq!(registry.count(), 1);
    assert_eq!(registry.cardinality_rejections(), 0);
}

#[test]
fn get_or_create_at_capacity_counts_rejections() {
    let mut registry = MetricRegistry::with_max_cardinality(1);
    registry.get_or_create_gauge("a", Labels::new()).set(3);
    registry.get_or_create_gauge("b", Labels::new()).set(4);
    registry.get_or_create_counter("c", Labels::new()).inc();
    assert_eq!(registry.count(), 1);
    assert_eq!(registry.cardinality_rejections(), 2);
    assert_eq!(registry.get_or_create_gauge("a", Labels::new()).get(), 3);
}

#[test]
fn get_or_create_replaces_other_kind() {
    let mut registry = MetricRegistry::new();
    registry.get_or_create_gauge("x", Labels::new()).set(7);
    assert_eq!(registry.get_or_create_counter("x", Labels::new()).get(), 0);
    assert_eq!(registry.count(), 1);
    let metrics = registry.collect();
    assert!(matches!(metrics[0].value, MetricValue::Uint(0)));
}

#[test]
fn unregister_removes_the_metric() {
    let mut registry = MetricRegistry::new();
    registry.get_or_create_counter("a", labels(&[("k", "v")])).inc();
    registry.get_or_create_counter("b", Labels::new()).inc();
    assert!(registry.unregister("a", &labels(&[("k", "v")])).is_ok());
    assert_eq!(registry.count(), 1);
    match registry.unregister("a", &labels(&[("k", "v")])) {
        Err(MonitoringError::MetricNotFound { name, .. }) => assert_eq!(name, "a"),
        _ => panic!("expected MetricNotFound"),
    }
}

#[test]
fn ttl_cleanup_removes_idle_metrics() {
    let mut registry = MetricRegistry::with_ttl(0, Duration::from_secs(60));
    assert!(registry.is_ttl_enabled());
    assert_eq!(registry.ttl(), Duration::from_secs(60));
    registry.get_or_create_counter("a", Labels::new()).inc();
    assert_eq!(registry.cleanup_expired(), 0);
    assert_eq!(registry.count(), 1);
    // Far in the future every metric has expired.
    assert_eq!(registry.cleanup_expired_at(u128::MAX), 1);
    assert_eq!(registry.count(), 0);
}

#[test]
fn no_ttl_keeps_everything() {
    let mut registry = MetricRegistry::new();
    assert!(!registry.is_ttl_enabled());
    registry.get_or_create_counter("a", Labels::new()).inc();
    assert_eq!(registry.cleanup_expired(), 0);
    assert_eq!(registry.count(), 1);
}

#[test]
fn snapshot_stamps_the_given_time() {
    let mut registry = MetricRegistry::new();
    registry.get_or_create_gauge("g", Labels::new()).set(-5);
    let metrics = registry.snapshot(1234);
    assert_eq!(metrics.len(), 1);
    assert_eq!(metrics[0].timestamp, 1234);
    match &metrics[0].value {
        MetricValue::Float(f) => {
            assert_eq!(f.text(), "-5");
            assert_eq!(f.truncated(), -5);
        }
        _ => panic!("a gauge is collected as a float"),
    }
}

#[test]
fn cleanup_twice_removes_nothing_more() {
    let mut registry = MetricRegistry::with_ttl(0, Duration::from_secs(1));
    registry.get_or_create_counter("a", Labels::new()).inc();
    let now: u128 = 5_000_000_000;
    let first = registry.cleanup_expired_at(now);
    let count = registry.count();
    assert_eq!(registry.cleanup_expired_at(now), 0);
    assert_eq!(registry.count(), count);
    assert_eq!(first + count, 1);
}

#[test]
fn unregister_after_register_restores_the_metrics() {
    let mut registry = MetricRegistry::new();
    registry.get_or_create_gauge("kept", Labels::new()).set(1);
    registry
        .register_counter("temp", "help", labels(&[("k", "v")]))
        .expect("register");
    assert_eq!(registry.count(), 2);
    registry.unregister("temp", &labels(&[("k", "v")])).expect("unregister");
    let metrics = registry.collect();
    assert_eq!(metrics.len(), 1);
    assert_eq!(metrics[0].name, "kept");
}

#[test]
fn default_labels_are_overridden_by_explicit_ones() {
    let mut registry = MetricRegistry::new();
    registry.set_default_labels(labels(&[("env", "prod"), ("service", "api")]));
    registry.get_or_create_counter("r", labels(&[("env", "dev")])).inc();
    let metrics = registry.collect();
    assert_eq!(metrics[0].labels.get("env"), Some(&"dev".to_string()));
    assert_eq!(metrics[0].labels.get("service"), Some(&"api".to_string()));
    assert_eq!(registry.get_default_labels().len(), 2);
}

#[test]
fn sub_second_ttl_is_enabled() {
    let registry = MetricRegistry::with_ttl(10_000, Duration::from_millis(500));
    assert!(registry.is_ttl_enabled());
    assert_eq!(registry.ttl(), Duration::from_millis(500));
}

#[test]
fn collect_removes_expired_metrics_first() {
    let mut registry = MetricRegistry::with_ttl(10, Duration::from_secs(1));
    registry.get_or_create_counter("old", Labels::new()).inc();
    // Two seconds and more after the registry's clock started.
    let metrics = registry.collect_at(3_000_000_000u128 + u64::MAX as u128, 0);
    assert!(metrics.iter().all(|m| m.name != "old"));
    assert_eq!(registry.count(), 0);
}

#[test]
fn collect_without_ttl_keeps_everything() {
    let mut registry = MetricRegistry::new();
    registry.get_or_create_counter("old", Labels::new()).inc();
    let metrics = registry.collect_at(u128::MAX, 0);
    assert_eq!(metrics.len(), 1);
    assert_eq!(registry.count(), 1);
}

#[test]
fn get_or_create_at_records_the_time_of_use() {
    let mut registry = MetricRegistry::with_ttl(10, Duration::from_secs(1));
    registry.get_or_create_counter_at("a", Labels::new(), 5).inc();
    registry.get_or_create_gauge_at("b", Labels::new(), 500_000_005).set(2);
    // One nanosecond short of the TTL for "a": nothing expires.
    assert_eq!(registry.cleanup_expired_at(1_000_000_004), 0);
    // The TTL has passed for "a" but not for "b".
    assert_eq!(registry.cleanup_expired_at(1_000_000_005), 1);
    assert_eq!(registry.count(), 1);
    assert_eq!(registry.get_or_create_gauge_at("b", Labels::new(), 1_000_000_006).get(), 2);
}

#[test]
fn unregistered_metric_is_not_collected() {
    let mut registry = MetricRegistry::new();
    registry.get_or_create_counter("gone", labels(&[("k", "v")])).inc();
    registry.get_or_create_counter("gone", Labels::new()).inc();
    registry.unregister("gone", &labels(&[("k", "v")])).expect("registered");
    let metrics = registry.collect_at(0, 0);
    assert_eq!(metrics.len(), 1);
    assert_eq!(metrics[0].name, "gone");
    assert!(metrics[0].labels.is_empty());
}

#[test]
fn large_gauge_is_collected_as_its_f64() {
    let mut registry = MetricRegistry::new();
    registry.get_or_create_gauge("g", Labels::new()).set(i64::MAX);
    let metrics = registry.collect_at(0, 0);
    match &metrics[0].value {
        MetricValue::Float(f) => {
            assert_eq!(*f.text(), format!("{}", i64::MAX as f64));
            assert_eq!(f.truncated(), (i64::MAX as f64) as i64);
        },
        other => panic!("unexpected value {:?}", other),
    }
}
