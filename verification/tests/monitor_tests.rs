use rust_monitoring_system::{cleanup_step, CleanupStep, Labels, Monitor, MonitorConfig, MonitoringError};
use std::time::Duration;

#[test]
fn monitor_test_monitor_lifecycle() {
    let mut monitor = Monitor::new();

    assert!(!monitor.is_running());

    monitor.start().expect("Failed to start monitor");
    assert!(monitor.is_running());

    monitor.stop().expect("Failed to stop monitor");
    assert!(!monitor.is_running());
}

#[test]
fn test_monitor_restart() {
    let mut monitor = Monitor::new();

    monitor.start().expect("Failed to start monitor");
    monitor.stop().expect("Failed to stop monitor");

    monitor.start().expect("Failed to restart monitor");
    monitor
        .stop()
        .expect("Failed to stop monitor after restart");
}

#[test]
fn test_monitor_metrics() {
    let mut monitor = Monitor::new();

    let counter = monitor
        .register_counter("requests", "Request count", Labels::new())
        .expect("Failed to register counter");

    counter.inc_by(10);

    let metrics = monitor.collect();
    assert_eq!(metrics.len(), 1);
    assert_eq!(metrics[0].name, "requests");
}

#[test]
fn monitor_test_monitor_config() {
    let config = MonitorConfig::new("my_service")
        .with_interval(Duration::from_secs(30))
        .with_auto_collect(true);

    let monitor = Monitor::with_config(config);

    let cfg = monitor.config();
    assert_eq!(cfg.service_name, "my_service");
    assert_eq!(cfg.collection_interval, Duration::from_secs(30));
    assert!(cfg.auto_collect);
}

#[test]
fn monitor_test_get_or_create() {
    let mut monitor = Monitor::new();

    let counter1 = monitor.counter("counter", Labels::new());
    counter1.inc();

    let counter2 = monitor.counter("counter", Labels::new());
    assert_eq!(counter2.get(), 1);
}

#[test]
fn start_twice_and_stop_twice_fail() {
    let mut monitor = Monitor::new();
    assert!(matches!(monitor.stop(), Err(MonitoringError::NotInitialized)));
    monitor.start().expect("first start");
    assert!(matches!(monitor.start(), Err(MonitoringError::AlreadyInitialized)));
    assert!(monitor.is_running());
    monitor.stop().expect("first stop");
    assert!(matches!(monitor.stop(), Err(MonitoringError::NotInitialized)));
    assert!(!monitor.is_running());
}

#[test]
fn default_config_values() {
    let config = MonitorConfig::default();
    assert_eq!(config.service_name, "default");
    assert_eq!(config.collection_interval, Duration::from_secs(60));
    assert!(!config.auto_collect);
    assert!(config.default_labels.is_empty());
    assert_eq!(config.max_cardinality, 10_000);
    assert_eq!(config.metric_ttl, Duration::from_secs(3600));
    assert_eq!(config.cleanup_interval, Duration::from_secs(60));
}

#[test]
fn config_builders_set_one_field_each() {
    let mut l = Labels::new();
    l.insert("region".to_string(), "eu".to_string());
    let config = MonitorConfig::new("svc")
        .with_labels(l)
        .with_max_cardinality(7)
        .with_metric_ttl(Duration::from_secs(5))
        .with_cleanup_interval(Duration::from_secs(2));
    assert_eq!(config.service_name, "svc");
    assert_eq!(config.default_labels.get("region"), Some(&"eu".to_string()));
    assert_eq!(config.max_cardinality, 7);
    assert_eq!(config.metric_ttl, Duration::from_secs(5));
    assert_eq!(config.cleanup_interval, Duration::from_secs(2));
    assert_eq!(config.collection_interval, Duration::from_secs(60));
}

#[test]
fn monitor_registry_follows_config() {
    let config = MonitorConfig::new("svc").with_max_cardinality(1);
    let mut monitor = Monitor::with_config(config);
    monitor.counter("a", Labels::new()).inc();
    monitor.counter("b", Labels::new()).inc();
    assert_eq!(monitor.metric_count(), 1);
    assert_eq!(monitor.cardinality_rejections(), 1);
    assert!(monitor.registry().is_ttl_enabled());
}

#[test]
fn cleanup_period_choices() {
    let monitor = Monitor::new();
    assert_eq!(monitor.cleanup_period(), Some(Duration::from_secs(60)));

    let no_ttl = Monitor::with_config(MonitorConfig::new("a").with_metric_ttl(Duration::ZERO));
    assert_eq!(no_ttl.cleanup_period(), None);

    let short_ttl =
        Monitor::with_config(MonitorConfig::new("c").with_metric_ttl(Duration::from_millis(500)));
    assert_eq!(short_ttl.cleanup_period(), Some(Duration::from_secs(60)));

    let zero_interval =
        Monitor::with_config(MonitorConfig::new("b").with_cleanup_interval(Duration::from_secs(0)));
    assert_eq!(zero_interval.cleanup_period(), Some(Duration::from_secs(1)));
}

#[test]
fn update_config_sets_default_labels() {
    let mut monitor = Monitor::new();
    let mut l = Labels::new();
    l.insert("service".to_string(), "api".to_string());
    let config = MonitorConfig::new("renamed").with_labels(l);
    monitor.update_config(config);
    assert_eq!(monitor.config().service_name, "renamed");
    monitor.counter("requests", Labels::new()).inc();
    let metrics = monitor.collect();
    assert_eq!(metrics[0].labels.get("service"), Some(&"api".to_string()));
}

#[test]
fn clear_empties_the_monitor() {
    let mut monitor = Monitor::new();
    monitor.gauge("g", Labels::new()).set(1);
    assert_eq!(monitor.metric_count(), 1);
    monitor.clear();
    assert_eq!(monitor.metric_count(), 0);
}

#[test]
fn uptime_starts_at_zero() {
    let monitor = Monitor::new();
    assert_eq!(monitor.uptime(), 0);
}

#[test]
fn cleanup_schedule_steps() {
    assert_eq!(cleanup_step(0, 2_000_000_000), CleanupStep::Sleep(500_000_000));
    assert_eq!(cleanup_step(1_800_000_000, 2_000_000_000), CleanupStep::Sleep(200_000_000));
    assert_eq!(cleanup_step(2_000_000_000, 2_000_000_000), CleanupStep::CleanUp);
    assert_eq!(cleanup_step(0, 0), CleanupStep::CleanUp);
}
