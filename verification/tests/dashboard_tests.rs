use rust_monitoring_system::exporters::html::render_panel;
use rust_monitoring_system::{
    Dashboard, DashboardExporter, DataPoint, FloatValue, Labels, Metric, MetricRegistry,
    MetricType, MetricValue, Panel, PanelType,
};

#[test]
fn test_dashboard_creation() {
    let mut dashboard = Dashboard::new("Test Dashboard");
    dashboard.add_panel(Panel {
        id: "test".to_string(),
        title: "Test Panel".to_string(),
        metric_name: "test_metric".to_string(),
        panel_type: PanelType::Gauge,
    });

    assert_eq!(dashboard.title, "Test Dashboard");
    assert_eq!(dashboard.panels.len(), 1);
}

#[test]
fn test_default_dashboard() {
    let registry = MetricRegistry::new();
    let exporter = DashboardExporter::default_system_dashboard(registry);

    assert_eq!(exporter.dashboard().title, "System Metrics");
    assert!(!exporter.dashboard().panels.is_empty());
}

#[test]
fn test_snapshot() {
    let mut registry = MetricRegistry::new();

    registry.get_or_create_gauge("cpu_usage", Labels::new()).set(50);

    let mut exporter = DashboardExporter::default_system_dashboard(registry);
    let snapshot = exporter.get_snapshot();

    assert!(!snapshot.time_series.is_empty());
    assert!(snapshot.timestamp > 0);
}

#[test]
fn dashboard_defaults_and_refresh() {
    let d = Dashboard::new("D").with_refresh_interval(30);
    assert_eq!(d.refresh_interval_seconds, 30);
    assert!(d.panels.is_empty());
    assert_eq!(Dashboard::new("E").refresh_interval_seconds, 5);
}

#[test]
fn system_dashboard_panels() {
    let exporter = DashboardExporter::default_system_dashboard(MetricRegistry::new());
    let panels = &exporter.dashboard().panels;
    let names: Vec<&str> = panels.iter().map(|p| p.metric_name.as_str()).collect();
    assert_eq!(
        names,
        vec![
            "system_cpu_usage_percent",
            "system_memory_usage_percent",
            "request_count_total",
            "error_count_total"
        ]
    );
    assert_eq!(panels[0].panel_type, PanelType::Gauge);
    assert_eq!(panels[2].panel_type, PanelType::Graph);
}

fn metric(name: &str, value: MetricValue) -> Metric {
    Metric {
        name: name.to_string(),
        metric_type: MetricType::Gauge,
        help: String::new(),
        labels: Labels::new(),
        value,
        timestamp: 0,
    }
}

#[test]
fn snapshot_values_of_each_kind() {
    let exporter = DashboardExporter::new(MetricRegistry::new(), Dashboard::new("D"));
    let metrics = vec![
        metric("int", MetricValue::Int(-4)),
        metric("uint", MetricValue::Uint(9)),
        metric("float", MetricValue::Float(FloatValue::new("2.75".to_string(), 2).expect("a number"))),
        metric("big", MetricValue::Uint(u64::MAX)),
    ];
    let snapshot = exporter.snapshot_of(&metrics, 77);
    assert_eq!(snapshot.timestamp, 77);
    assert_eq!(snapshot.dashboard.title, "D");
    let values: Vec<i64> = snapshot
        .time_series
        .iter()
        .map(|t| t.data_points[0].value)
        .collect();
    assert_eq!(values, vec![-4, 9, 2, -1]);
    assert_eq!(snapshot.time_series[1].name, "uint");
    assert_eq!(
        snapshot.time_series[0].data_points,
        vec![DataPoint { timestamp: 77, value: -4 }]
    );
}

#[test]
fn panel_markup() {
    let gauge = Panel::new("a", "CPU", "cpu", PanelType::Gauge);
    let html = render_panel(&gauge);
    assert_eq!(
        html,
        "            <div class=\"panel\" data-metric=\"cpu\">\n                <h2>CPU</h2>\n                <div class=\"metric-value\">--</div>\n                <div class=\"gauge\">\n                    <div class=\"gauge-fill\" style=\"width: 0%\"></div>\n                </div>\n                <div class=\"metric-label\">cpu</div>\n            </div>"
    );
    let counter = Panel::new("b", "Requests", "req", PanelType::Counter);
    assert_eq!(
        render_panel(&counter),
        "            <div class=\"panel\" data-metric=\"req\">\n                <h2>Requests</h2>\n                <div class=\"metric-value\">--</div>\n                <div class=\"metric-label\">req</div>\n            </div>"
    );
}

#[test]
fn html_page_embeds_title_refresh_and_escaped_json() {
    let exporter = DashboardExporter::default_system_dashboard(MetricRegistry::new());
    let html = exporter.html_page("{\"a\":\"it's\"}");
    assert!(html.starts_with("<!DOCTYPE html>\n<html>\n<head>\n    <title>System Metrics</title>"));
    assert!(html.contains("let dashboardData = {\"a\":\"it\\'s\"};"));
    assert!(html.contains("JSON.parse('{\"a\":\"it\\'s\"}')"));
    assert!(html.contains("setInterval(loadData, 5 * 1000);"));
    assert!(html.contains("<h1>System Metrics</h1>"));
    assert!(html.contains("data-metric=\"error_count_total\""));
    assert!(html.ends_with("</html>"));
}
