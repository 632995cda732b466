//! Convenient re-exports for common types

pub use crate::base::error::MonitoringError;
pub use crate::base::labels::Labels;
pub use crate::base::metric::{
    Counter, FloatValue, Gauge, HistogramData, Metric, MetricType, MetricValue, SummaryData,
};
pub use crate::base::monitor::Monitor;
pub use crate::base::registry::MetricRegistry;
pub use crate::exporters::prometheus::PrometheusExporter;
