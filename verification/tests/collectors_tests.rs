use rust_monitoring_system::collectors::integrated_system::{cpu_report, memory_report, process_report};
use rust_monitoring_system::collectors::performance::{
    performance_cpu_updates, performance_memory_updates, performance_process_updates,
};
use rust_monitoring_system::{
    GaugeUpdate, IntegratedSystemConfig, Labels, MemoryHistory, MetricRegistry, MetricValue,
    RuntimeMetrics,
};
use std::time::Duration;

#[test]
fn test_runtime_metrics() {
    let registry = MetricRegistry::new();
    let mut runtime = RuntimeMetrics::new(registry);

    runtime.record_request_duration("api_call", 150);
    runtime.record_success("api_call");
    runtime.record_error("db_query", "timeout");

    let metrics = runtime.registry_mut().collect();
    assert!(!metrics.is_empty());

    // Check specific metrics
    let request_duration = metrics
        .iter()
        .find(|m| m.name == "request_duration_ms_total");
    assert!(request_duration.is_some());

    let errors = metrics.iter().find(|m| m.name == "error_count_total");
    assert!(errors.is_some());
}

#[test]
fn runtime_metrics_accumulate() {
    let mut runtime = RuntimeMetrics::new(MetricRegistry::new());
    runtime.record_request_duration("get", 100);
    runtime.record_request_duration("get", 50);
    runtime.record_error("get", "timeout");
    runtime.set_active_connections(7);
    runtime.set_queue_size("jobs", 3);
    let metrics = runtime.registry_mut().collect();
    let names: Vec<&str> = metrics.iter().map(|m| m.name.as_str()).collect();
    assert_eq!(
        names,
        vec![
            "request_duration_ms_total",
            "request_count_total",
            "error_count_total",
            "active_connections",
            "queue_size"
        ]
    );
    assert!(matches!(metrics[0].value, MetricValue::Uint(150)));
    assert!(matches!(metrics[1].value, MetricValue::Uint(2)));
    assert_eq!(metrics[0].labels.get("operation"), Some(&"get".to_string()));
    assert_eq!(metrics[2].labels.get("error_type"), Some(&"timeout".to_string()));
    assert_eq!(metrics[4].labels.get("queue"), Some(&"jobs".to_string()));
    match &metrics[3].value {
        MetricValue::Float(f) => assert_eq!(f.text(), "7"),
        _ => panic!("gauges are collected as floats"),
    }
}

#[test]
fn integrated_config_defaults_and_builders() {
    let c = IntegratedSystemConfig::default();
    assert_eq!(c.history_size, 60);
    assert_eq!(c.collection_interval, Duration::from_secs(1));
    assert!(c.enable_process_monitoring);
    assert!(c.enable_per_core_monitoring);
    let c = c
        .with_history_size(5)
        .with_collection_interval(Duration::from_millis(250))
        .with_process_monitoring(false)
        .with_per_core_monitoring(false);
    assert_eq!(c.history_size, 5);
    assert_eq!(c.collection_interval, Duration::from_millis(250));
    assert!(!c.enable_process_monitoring);
    assert!(!c.enable_per_core_monitoring);
}

#[test]
fn memory_history_window_average_and_peak() {
    let mut h = MemoryHistory::new(3);
    assert_eq!(h.current(), 0);
    assert_eq!(h.peak(), 0);
    assert!(h.sum_fits());
    assert_eq!(h.average(), 0);
    for v in [10u64, 40, 20, 30] {
        h.add_sample(v, 3);
    }
    // The oldest sample (10) has left the window of three.
    assert_eq!(h.current(), 30);
    assert_eq!(h.average(), 30);
    assert_eq!(h.peak(), 40);
    h.add_sample(5, 3);
    assert_eq!(h.average(), (20 + 30 + 5) / 3);
    assert_eq!(h.peak(), 40);
}

#[test]
fn memory_history_zero_size_keeps_latest() {
    let mut h = MemoryHistory::new(0);
    h.add_sample(8, 0);
    h.add_sample(9, 0);
    assert_eq!(h.current(), 9);
    assert_eq!(h.average(), 9);
}

#[test]
fn memory_history_sum_overflow_is_detected() {
    let mut h = MemoryHistory::new(4);
    h.add_sample(u64::MAX, 4);
    assert!(h.sum_fits());
    h.add_sample(1, 4);
    assert!(!h.sum_fits());
}

fn names(us: &[GaugeUpdate]) -> Vec<String> {
    us.iter().map(|u| u.name.clone()).collect()
}

#[test]
fn cpu_report_with_and_without_cores() {
    let cores = vec![12, 34];
    let r = cpu_report(20, 15, 40, &cores, true);
    assert_eq!(
        names(&r),
        vec![
            "system_cpu_usage_percent",
            "system_cpu_usage_avg_percent",
            "system_cpu_usage_peak_percent",
            "system_cpu_core_usage_percent",
            "system_cpu_core_usage_percent",
            "system_cpu_count"
        ]
    );
    assert_eq!(r[4].labels.get("cpu"), Some(&"1".to_string()));
    assert_eq!(r[4].value, 34);
    assert_eq!(r[5].value, 2);
    let r = cpu_report(20, 15, 40, &cores, false);
    assert_eq!(r.len(), 4);
    assert_eq!(r[3].value, 2);
}

#[test]
fn memory_and_process_reports() {
    let mut h = MemoryHistory::new(2);
    h.add_sample(100, 2);
    h.add_sample(300, 2);
    let r = memory_report(1000, 300, 700, 30, 50, 5, &h);
    let values: Vec<i64> = r.iter().map(|u| u.value).collect();
    assert_eq!(values, vec![1000, 300, 700, 30, 200, 300, 50, 5]);
    assert_eq!(r[4].name, "system_memory_used_avg_bytes");
    let p = process_report(3, 2, 9, 300, &h, 4096);
    let values: Vec<i64> = p.iter().map(|u| u.value).collect();
    assert_eq!(values, vec![3, 2, 9, 300, 200, 300, 4096]);
    assert_eq!(p[6].name, "process_virtual_memory_bytes");
}

#[test]
fn performance_updates() {
    let cpu = performance_cpu_updates(50, &vec![40, 60]);
    assert_eq!(
        names(&cpu),
        vec![
            "system_cpu_usage_percent",
            "system_cpu_core_usage_percent",
            "system_cpu_core_usage_percent"
        ]
    );
    assert_eq!(cpu[1].labels.get("cpu"), Some(&"0".to_string()));
    let mem = performance_memory_updates(8, 6, 2, 75, 4, 1);
    assert_eq!(mem.iter().map(|u| u.value).collect::<Vec<_>>(), vec![8, 6, 2, 75, 4, 1]);
    let proc_updates = performance_process_updates(1, 2, 3);
    assert_eq!(names(&proc_updates)[2], "process_virtual_memory_bytes");
}

#[test]
fn set_gauges_applies_every_update() {
    let mut registry = MetricRegistry::new();
    let mut l = Labels::new();
    l.insert("cpu".to_string(), "0".to_string());
    let updates = vec![
        GaugeUpdate::plain("a", 1),
        GaugeUpdate { name: "b".to_string(), labels: l, value: 2 },
        GaugeUpdate::plain("a", 3),
    ];
    registry.set_gauges(&updates);
    assert_eq!(registry.count(), 2);
    assert_eq!(registry.get_or_create_gauge("a", Labels::new()).get(), 3);
}

#[test]
fn add_to_counter_stops_at_the_top() {
    let mut registry = MetricRegistry::new();
    registry.add_to_counter("c", Labels::new(), u64::MAX);
    registry.add_to_counter("c", Labels::new(), 2);
    assert_eq!(registry.get_or_create_counter("c", Labels::new()).get(), u64::MAX);
}
