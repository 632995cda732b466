use rust_monitoring_system::MonitoringError;

#[test]
fn test_error_creation() {
    let err = MonitoringError::config("MetricRegistry", "Invalid scrape interval");
    assert!(matches!(err, MonitoringError::ConfigError { .. }));

    let err = MonitoringError::not_found("http_requests_total", "method=GET");
    assert!(matches!(err, MonitoringError::MetricNotFound { .. }));

    let err = MonitoringError::invalid_type("cpu_usage", "Gauge", "Counter");
    assert!(matches!(err, MonitoringError::InvalidMetricType { .. }));
}

#[test]
fn test_error_display() {
    let err = MonitoringError::registration("http_requests", "Duplicate metric");
    assert_eq!(
        err.text(),
        "Failed to register metric 'http_requests': Duplicate metric"
    );

    let err = MonitoringError::export("Prometheus", "Connection refused");
    assert_eq!(err.text(), "Export error to Prometheus: Connection refused");

    let err = MonitoringError::lock("write");
    assert_eq!(err.text(), "Failed to acquire registry lock: write");
}

#[test]
fn error_text_of_every_variant() {
    assert_eq!(
        MonitoringError::config("exporter", "bad address").text(),
        "Configuration error in exporter: bad address"
    );
    assert_eq!(
        MonitoringError::not_found("cpu", "{}").text(),
        "Metric not found: cpu (labels: {})"
    );
    assert_eq!(
        MonitoringError::invalid_type("cpu", "Gauge", "Counter").text(),
        "Invalid metric type for 'cpu': expected Gauge, found Counter"
    );
    assert_eq!(
        MonitoringError::invalid_value("cpu", "negative").text(),
        "Invalid metric value for 'cpu': negative"
    );
    assert_eq!(
        MonitoringError::storage("flush", "disk full").text(),
        "Storage error during flush: disk full"
    );
    assert_eq!(
        MonitoringError::collection("system", "no proc").text(),
        "Collection error in system: no proc"
    );
    assert_eq!(
        MonitoringError::alert("high_cpu", "threshold").text(),
        "Alert error for 'high_cpu': threshold"
    );
    assert_eq!(
        MonitoringError::already_exists("requests", "{}").text(),
        "Metric already exists: requests (labels: {})"
    );
    assert_eq!(
        MonitoringError::cardinality_limit_exceeded(10, 12).text(),
        "Cardinality limit exceeded: limit=10, current=12. Cannot create new metrics."
    );
    assert_eq!(MonitoringError::other("boom").text(), "boom");
    assert_eq!(
        MonitoringError::NotInitialized.text(),
        "Monitoring system not initialized"
    );
    assert_eq!(
        MonitoringError::AlreadyInitialized.text(),
        "Monitoring system already initialized"
    );
}
