//! Metrics, a registry that enforces cardinality limits, a Prometheus text
//! exporter, dashboards, system collectors and an auto-scaler.

pub mod base;
pub mod collectors;
pub mod exporters;
pub mod prelude;
pub mod scaling;

pub use base::error::MonitoringError;
pub use base::labels::Labels;
pub use base::metric::{
    Counter, FloatValue, Gauge, HistogramData, Metric, MetricType, MetricValue, SummaryData,
};
pub use base::monitor::{cleanup_step, CleanupStep, Monitor, MonitorConfig};
pub use base::registry::MetricRegistry;
pub use base::updates::GaugeUpdate;
pub use collectors::integrated_system::{IntegratedSystemConfig, MemoryHistory};
pub use collectors::performance::RuntimeMetrics;
pub use exporters::dashboard::{
    DataPoint, Dashboard, DashboardExporter, DashboardSnapshot, Panel, PanelType, TimeSeries,
};
pub use exporters::prometheus::PrometheusExporter;
pub use scaling::autoscaler::{
    AutoScaler, AutoScalerConfig, PredictiveScaler, ScalingDecision, ScalingDirection, ScalingRule,
};
