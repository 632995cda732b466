use rust_monitoring_system::{
    Labels, MetricRegistry, MetricValue, Monitor, MonitorConfig, PrometheusExporter,
};
use std::time::Duration;

fn labels(pairs: &[(&str, &str)]) -> Labels {
    let mut l = Labels::new();
    for (k, v) in pairs {
        l.insert(k.to_string(), v.to_string());
    }
    l
}

#[test]
fn test_prometheus_injection_prevention() {
    let exporter = PrometheusExporter::new();

    // Attempt injection attack with newlines and quotes
    let labels = labels(&[
        ("user", "evil\"} malicious_metric 100\n# HELP"),
        ("path", "/api\\test"),
    ]);

    let mut monitor = Monitor::new();
    let counter = monitor.counter("http_requests", labels);
    counter.inc_by(42);

    let metrics = monitor.collect();
    let output = exporter.export(&metrics).expect("Failed to export");

    // Verify injection was prevented
    assert!(!output.contains("malicious_metric 100\n"));
    assert!(output.contains("\\\""));
    assert!(output.contains("\\n"));
    assert!(output.contains("\\\\"));

    // Verify metric value is correct
    assert!(output.contains("42"));
}

#[test]
fn test_cardinality_limit_enforcement() {
    let mut registry = MetricRegistry::with_max_cardinality(10);

    // Create metrics up to the limit
    for i in 0..10 {
        let l = labels(&[("id", &i.to_string())]);
        let result = registry.register_counter(&format!("metric_{}", i), "help", l);
        assert!(result.is_ok(), "Should allow metrics within limit");
    }

    // Try to exceed the limit
    let l = labels(&[("id", "999")]);
    let result = registry.register_counter("metric_999", "help", l);
    assert!(result.is_err(), "Should reject metrics exceeding limit");
    assert!(result
        .unwrap_err()
        .text()
        .contains("Cardinality limit exceeded"));
}

#[test]
fn test_cardinality_limit_get_or_create() {
    let mut registry = MetricRegistry::with_max_cardinality(5);

    // Create metrics up to limit using get_or_create
    for i in 0..5 {
        let l = labels(&[("id", &i.to_string())]);
        let counter = registry.get_or_create_counter(&format!("counter_{}", i), l);
        counter.inc();
    }

    assert_eq!(registry.count(), 5);

    // Try to exceed limit - should return a counter but not store it
    let l = labels(&[("id", "999")]);
    let _counter = registry.get_or_create_counter("counter_999", l);

    // The counter is returned but not stored
    assert_eq!(registry.count(), 5, "Should not exceed cardinality limit");
}

#[test]
fn test_gauge_operations() {
    let mut monitor = Monitor::new();
    let gauge = monitor.gauge("test_gauge", Labels::new());

    // Test set
    gauge.set(42);
    assert_eq!(gauge.get(), 42);

    // Test inc
    gauge.inc();
    assert_eq!(gauge.get(), 43);

    // Test dec
    gauge.dec();
    assert_eq!(gauge.get(), 42);

    // Test inc_by
    gauge.inc_by(10);
    assert_eq!(gauge.get(), 52);

    // Test dec_by
    gauge.dec_by(2);
    assert_eq!(gauge.get(), 50);
}

#[test]
fn test_metric_labels() {
    let mut monitor = Monitor::new();

    let labels1 = labels(&[("method", "GET"), ("status", "200")]);
    let labels2 = labels(&[("method", "POST"), ("status", "201")]);

    {
        let counter1 = monitor.counter("http_requests", labels1);
        counter1.inc_by(10);
        assert_eq!(counter1.get(), 10);
    }
    {
        let counter2 = monitor.counter("http_requests", labels2);
        counter2.inc_by(20);
        assert_eq!(counter2.get(), 20);
    }

    // Verify they're separate metrics
    let metrics = monitor.collect();
    assert_eq!(metrics.len(), 2);
}

#[test]
fn integration_tests_test_default_labels() {
    let default_labels = labels(&[("service", "test_service"), ("env", "test")]);

    let config = MonitorConfig::new("test").with_labels(default_labels);
    let mut monitor = Monitor::with_config(config);

    let counter = monitor
        .register_counter("requests", "Request count", Labels::new())
        .expect("Failed to register");

    counter.inc();

    let metrics = monitor.collect();
    assert_eq!(metrics.len(), 1);

    // Verify default labels are applied
    assert_eq!(
        metrics[0].labels.get("service"),
        Some(&"test_service".to_string())
    );
    assert_eq!(metrics[0].labels.get("env"), Some(&"test".to_string()));
}

#[test]
fn test_prometheus_export_format() {
    let mut monitor = Monitor::new();

    monitor
        .register_counter("http_requests_total", "Total HTTP requests", Labels::new())
        .expect("Failed to register")
        .inc_by(42);

    let l = labels(&[("status", "200")]);
    monitor
        .register_gauge("http_response_time", "HTTP response time", l)
        .expect("Failed to register")
        .set(123);

    let metrics = monitor.collect();
    let exporter = PrometheusExporter::new();
    let output = exporter.export(&metrics).expect("Failed to export");

    // Verify Prometheus format
    assert!(output.contains("# HELP http_requests_total Total HTTP requests"));
    assert!(output.contains("# TYPE http_requests_total counter"));
    assert!(output.contains("http_requests_total 42"));

    assert!(output.contains("# HELP http_response_time HTTP response time"));
    assert!(output.contains("# TYPE http_response_time gauge"));
    assert!(output.contains("http_response_time{status=\"200\"} 123"));
}

#[test]
fn integration_tests_test_metric_name_sanitization() {
    let exporter = PrometheusExporter::new();
    let mut monitor = Monitor::new();

    // Create metric with invalid characters
    let counter = monitor.counter("test-metric.with!invalid@chars", Labels::new());
    counter.inc();

    let metrics = monitor.collect();
    let output = exporter.export(&metrics).expect("Failed to export");

    // Verify metric name is sanitized
    assert!(output.contains("test_metric_with_invalid_chars"));
    assert!(!output.contains("test-metric.with!invalid@chars"));
}

#[test]
fn integration_tests_test_label_name_sanitization() {
    let exporter = PrometheusExporter::new();
    let mut monitor = Monitor::new();

    let l = labels(&[("invalid-label.name!", "value")]);

    let counter = monitor.counter("test_metric", l);
    counter.inc();

    let metrics = monitor.collect();
    let output = exporter.export(&metrics).expect("Failed to export");

    // Verify label name is sanitized
    assert!(output.contains("invalid_label_name_"));
}

#[test]
fn integration_tests_test_monitor_lifecycle() {
    let mut monitor = Monitor::new();

    assert!(!monitor.is_running());

    monitor.start().expect("Failed to start");
    assert!(monitor.is_running());

    monitor.stop().expect("Failed to stop");
    assert!(!monitor.is_running());
}

#[test]
fn integration_tests_test_monitor_config() {
    let config = MonitorConfig::new("test_service")
        .with_interval(Duration::from_secs(30))
        .with_auto_collect(true)
        .with_max_cardinality(5000);

    assert_eq!(config.service_name, "test_service");
    assert_eq!(config.collection_interval, Duration::from_secs(30));
    assert!(config.auto_collect);
    assert_eq!(config.max_cardinality, 5000);
}

#[test]
fn test_metric_collection_snapshot() {
    let mut monitor = Monitor::new();

    monitor.counter("test_counter", Labels::new()).inc_by(10);

    // Collect metrics
    let metrics1 = monitor.collect();
    assert_eq!(metrics1.len(), 1);
    assert!(matches!(metrics1[0].value, MetricValue::Uint(10)));

    // Increment again
    monitor.counter("test_counter", Labels::new()).inc_by(5);

    // Collect again - should see new value
    let metrics2 = monitor.collect();
    assert_eq!(metrics2.len(), 1);
    assert!(matches!(metrics2[0].value, MetricValue::Uint(15)));
}

#[test]
fn test_clear_metrics() {
    let mut monitor = Monitor::new();

    // Create some metrics
    monitor.counter("counter1", Labels::new()).inc();
    monitor.gauge("gauge1", Labels::new()).set(42);

    assert_eq!(monitor.metric_count(), 2);

    // Clear all metrics
    monitor.clear();

    assert_eq!(monitor.metric_count(), 0);
}

#[test]
fn test_zero_cardinality_limit() {
    // Test that cardinality limit of 0 means unlimited
    let mut registry = MetricRegistry::with_max_cardinality(0);

    // Should be able to create many metrics
    for i in 0..100 {
        let l = labels(&[("id", &i.to_string())]);
        let result = registry.register_counter(&format!("metric_{}", i), "help", l);
        assert!(
            result.is_ok(),
            "Should allow unlimited metrics when limit is 0"
        );
    }

    assert_eq!(registry.count(), 100);
}
