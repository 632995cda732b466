//! Real-time metrics dashboard exporter

use vstd::prelude::*;
use crate::base::clock::unix_secs_now;
use crate::base::labels::Labels;
use crate::base::metric::{Metric, MetricValue, MetricValueView, MetricView};
use crate::base::registry::{collected, collected_state, MetricRegistry, RegistryView};
use crate::exporters::html::{dashboard_page, page_html};

verus! {

/// Dashboard data point
#[derive(Debug, Clone, Copy, PartialEq, Eq, Structural)]
pub struct DataPoint {
    /// Unix timestamp in seconds
    pub timestamp: u64,
    /// Metric value
    pub value: i64,
}

/// The abstract content of a time series.
pub struct TimeSeriesView {
    pub name: Seq<char>,
    pub labels: Seq<(Seq<char>, Seq<char>)>,
    pub data_points: Seq<DataPoint>,
}

/// Time series data
#[derive(Debug, Clone)]
pub struct TimeSeries {
    /// Metric name
    pub name: String,
    /// Metric labels (key-value pairs)
    pub labels: Labels,
    /// Time-stamped data points
    pub data_points: Vec<DataPoint>,
}

impl View for TimeSeries {
    type V = TimeSeriesView;

    open spec fn view(&self) -> TimeSeriesView {
        TimeSeriesView {
            name: self.name@,
            labels: self.labels.pairs(),
            data_points: self.data_points@,
        }
    }
}

/// Panel types
#[derive(Debug, Clone, Copy, PartialEq, Eq, Structural)]
pub enum PanelType {
    /// Time-series graph visualization
    Graph,
    /// Gauge (percentage) visualization
    Gauge,
    /// Counter (numeric) visualization
    Counter,
    /// Table visualization
    Table,
}

/// The abstract content of a panel.
pub struct PanelView {
    pub id: Seq<char>,
    pub title: Seq<char>,
    pub metric_name: Seq<char>,
    pub panel_type: PanelType,
}

/// Dashboard panel configuration
#[derive(Debug, Clone)]
pub struct Panel {
    /// Unique panel identifier
    pub id: String,
    /// Panel display title
    pub title: String,
    /// Name of the metric to display
    pub metric_name: String,
    /// Type of visualization panel
    pub panel_type: PanelType,
}

impl View for Panel {
    type V = PanelView;

    open spec fn view(&self) -> PanelView {
        PanelView {
            id: self.id@,
            title: self.title@,
            metric_name: self.metric_name@,
            panel_type: self.panel_type,
        }
    }
}

impl Panel {
    /// A panel from its four parts.
    pub fn new(id: &str, title: &str, metric_name: &str, panel_type: PanelType) -> (r: Panel)
        ensures
            r@ == (PanelView { id: id@, title: title@, metric_name: metric_name@, panel_type }),
    {
        Panel {
            id: id.to_string(),
            title: title.to_string(),
            metric_name: metric_name.to_string(),
            panel_type,
        }
    }

    /// A copy of this panel.
    pub fn duplicate(&self) -> (r: Panel)
        ensures
            r@ == self@,
    {
        Panel {
            id: self.id.clone(),
            title: self.title.clone(),
            metric_name: self.metric_name.clone(),
            panel_type: self.panel_type,
        }
    }
}

/// The abstract content of a dashboard.
pub struct DashboardView {
    pub title: Seq<char>,
    pub panels: Seq<PanelView>,
    pub refresh_interval_seconds: u64,
}

/// Dashboard configuration
#[derive(Debug, Clone)]
pub struct Dashboard {
    /// Dashboard title
    pub title: String,
    /// List of dashboard panels
    pub panels: Vec<Panel>,
    /// Auto-refresh interval in seconds
    pub refresh_interval_seconds: u64,
}

impl View for Dashboard {
    type V = DashboardView;

    open spec fn view(&self) -> DashboardView {
        DashboardView {
            title: self.title@,
            panels: self.panels@.map_values(|p: Panel| p@),
            refresh_interval_seconds: self.refresh_interval_seconds,
        }
    }
}

impl Dashboard {
    /// Create a new dashboard, without panels, refreshed every 5 seconds
    pub fn new(title: &str) -> (r: Self)
        ensures
            r@ == (DashboardView {
                title: title@,
                panels: Seq::empty(),
                refresh_interval_seconds: 5,
            }),
    {
        let r = Dashboard { title: title.to_string(), panels: Vec::new(), refresh_interval_seconds: 5 };
        assert(r@.panels =~= Seq::<PanelView>::empty());
        r
    }

    /// Add a panel
    pub fn add_panel(&mut self, panel: Panel)
        ensures
            final(self)@ == (DashboardView { panels: old(self)@.panels.push(panel@), ..old(self)@ }),
    {
        let ghost p = panel;
        self.panels.push(panel);
        assert(self@.panels =~= old(self)@.panels.push(p@));
    }

    /// Set refresh interval
    pub fn with_refresh_interval(self, seconds: u64) -> (r: Self)
        ensures
            r@ == (DashboardView { refresh_interval_seconds: seconds, ..self@ }),
    {
        let mut d = self;
        d.refresh_interval_seconds = seconds;
        d
    }

    /// A copy of this dashboard.
    pub fn duplicate(&self) -> (r: Dashboard)
        ensures
            r@ == self@,
    {
        let mut panels: Vec<Panel> = Vec::new();
        let n = self.panels.len();
        for i in 0..n
            invariant
                n == self.panels.len(),
                panels@.map_values(|p: Panel| p@) == self@.panels.take(i as int),
        {
            let p = self.panels[i].duplicate();
            let ghost before = panels@;
            panels.push(p);
            assert(panels@.map_values(|p: Panel| p@) =~= before.map_values(|p: Panel| p@).push(
                p@,
            ));
            assert(self@.panels.take(i + 1) =~= self@.panels.take(i as int).push(p@));
        }
        assert(self@.panels.take(n as int) =~= self@.panels);
        Dashboard {
            title: self.title.clone(),
            panels,
            refresh_interval_seconds: self.refresh_interval_seconds,
        }
    }
}

/// The abstract content of a dashboard snapshot.
pub struct SnapshotView {
    pub dashboard: DashboardView,
    pub time_series: Seq<TimeSeriesView>,
    pub timestamp: u64,
}

/// Dashboard snapshot
#[derive(Debug, Clone)]
pub struct DashboardSnapshot {
    /// Dashboard configuration
    pub dashboard: Dashboard,
    /// Current time series data
    pub time_series: Vec<TimeSeries>,
    /// Snapshot timestamp (Unix seconds)
    pub timestamp: u64,
}

impl View for DashboardSnapshot {
    type V = SnapshotView;

    open spec fn view(&self) -> SnapshotView {
        SnapshotView {
            dashboard: self.dashboard@,
            time_series: self.time_series@.map_values(|t: TimeSeries| t@),
            timestamp: self.timestamp,
        }
    }
}

/// The value a dashboard shows for a metric value: integers as they are
/// (unsigned ones converted by `as`), floats truncated, and 0 for
/// histograms and summaries.
pub open spec fn display_value(v: MetricValueView) -> i64 {
    match v {
        MetricValueView::Int(x) => x,
        MetricValueView::Uint(x) => x as i64,
        MetricValueView::Float(f) => f.1,
        _ => 0,
    }
}

/// The time series a dashboard shows for the metric `m` at `timestamp`.
pub open spec fn series_of(m: MetricView, timestamp: u64) -> TimeSeriesView {
    TimeSeriesView {
        name: m.name,
        labels: m.labels,
        data_points: seq![DataPoint { timestamp, value: display_value(m.value) }],
    }
}

/// The snapshot of the dashboard `d` showing the metrics `ms` at `timestamp`.
pub open spec fn snapshot_view(d: DashboardView, ms: Seq<MetricView>, timestamp: u64) -> SnapshotView {
    SnapshotView {
        dashboard: d,
        time_series: ms.map_values(|m: MetricView| series_of(m, timestamp)),
        timestamp,
    }
}

/// The panels of the default system dashboard.
pub open spec fn system_panels() -> Seq<PanelView> {
    seq![
        PanelView {
            id: "cpu_usage"@,
            title: "CPU Usage"@,
            metric_name: "system_cpu_usage_percent"@,
            panel_type: PanelType::Gauge,
        },
        PanelView {
            id: "memory_usage"@,
            title: "Memory Usage"@,
            metric_name: "system_memory_usage_percent"@,
            panel_type: PanelType::Gauge,
        },
        PanelView {
            id: "request_rate"@,
            title: "Request Rate"@,
            metric_name: "request_count_total"@,
            panel_type: PanelType::Graph,
        },
        PanelView {
            id: "error_rate"@,
            title: "Error Rate"@,
            metric_name: "error_count_total"@,
            panel_type: PanelType::Graph,
        },
    ]
}

fn display_value_of(v: &MetricValue) -> (r: i64)
    ensures
        r == display_value(v@),
{
    match v {
        MetricValue::Int(x) => *x,
        MetricValue::Uint(x) => *x as i64,
        MetricValue::Float(f) => f.truncated(),
        _ => 0,
    }
}

/// The abstract state of a dashboard exporter.
pub struct ExporterView {
    pub registry: RegistryView,
    pub dashboard: DashboardView,
}

/// Dashboard exporter: a dashboard over the metrics of a registry.
pub struct DashboardExporter {
    registry: MetricRegistry,
    dashboard: Dashboard,
}

impl View for DashboardExporter {
    type V = ExporterView;

    closed spec fn view(&self) -> ExporterView {
        ExporterView { registry: self.registry@, dashboard: self.dashboard@ }
    }
}

impl DashboardExporter {
    /// The exporter's registry is consistent.
    pub closed spec fn wf(&self) -> bool {
        self.registry.wf()
    }

    /// Create a new dashboard exporter
    pub fn new(registry: MetricRegistry, dashboard: Dashboard) -> (r: Self)
        requires
            registry.wf(),
        ensures
            r.wf(),
            r@ == (ExporterView { registry: registry@, dashboard: dashboard@ }),
    {
        DashboardExporter { registry, dashboard }
    }

    /// Create a default system dashboard
    pub fn default_system_dashboard(registry: MetricRegistry) -> (r: Self)
        requires
            registry.wf(),
        ensures
            r.wf(),
            r@.registry == registry@,
            r@.dashboard == (DashboardView {
                title: "System Metrics"@,
                panels: system_panels(),
                refresh_interval_seconds: 5,
            }),
    {
        let mut dashboard = Dashboard::new("System Metrics");
        dashboard.add_panel(Panel::new("cpu_usage", "CPU Usage", "system_cpu_usage_percent", PanelType::Gauge));
        dashboard.add_panel(
            Panel::new("memory_usage", "Memory Usage", "system_memory_usage_percent", PanelType::Gauge),
        );
        dashboard.add_panel(Panel::new("request_rate", "Request Rate", "request_count_total", PanelType::Graph));
        dashboard.add_panel(Panel::new("error_rate", "Error Rate", "error_count_total", PanelType::Graph));
        assert(dashboard@.panels =~= system_panels());
        Self::new(registry, dashboard)
    }

    /// The dashboard shown.
    pub fn dashboard(&self) -> (r: &Dashboard)
        ensures
            r@ == self@.dashboard,
    {
        &self.dashboard
    }

    /// The registry whose metrics are shown.
    pub fn registry(&self) -> (r: &MetricRegistry)
        ensures
            r@ == self@.registry,
            self.wf() ==> r.wf(),
    {
        &self.registry
    }

    /// The registry whose metrics are shown, for updating them.
    pub fn registry_mut(&mut self) -> (r: &mut MetricRegistry)
        ensures
            (*r)@ == old(self)@.registry,
            old(self).wf() ==> (*r).wf(),
            final(self)@.registry == (*final(r))@,
            final(self)@.dashboard == old(self)@.dashboard,
            (*final(r)).wf() ==> final(self).wf(),
    {
        &mut self.registry
    }

    /// The HTML page of this dashboard, with `snapshot_json` (a snapshot as
    /// JSON text) embedded in its script.
    pub fn html_page(&self, snapshot_json: &str) -> (r: String)
        ensures
            r@ == page_html(self@.dashboard, snapshot_json@),
    {
        dashboard_page(&self.dashboard, snapshot_json)
    }

    /// The snapshot of this dashboard showing `metrics` at `timestamp`
    /// (Unix seconds): one time series of one data point per metric.
    pub fn snapshot_of(&self, metrics: &Vec<Metric>, timestamp: u64) -> (r: DashboardSnapshot)
        ensures
            r@ == snapshot_view(self@.dashboard, metrics@.map_values(|m: Metric| m@), timestamp),
    {
        let ghost ms = metrics@.map_values(|m: Metric| m@);
        let mut series: Vec<TimeSeries> = Vec::new();
        let n = metrics.len();
        for i in 0..n
            invariant
                n == metrics.len(),
                ms == metrics@.map_values(|m: Metric| m@),
                series@.map_values(|t: TimeSeries| t@) == ms.take(i as int).map_values(
                    |m: MetricView| series_of(m, timestamp),
                ),
        {
            let m = &metrics[i];
            let point = DataPoint { timestamp, value: display_value_of(&m.value) };
            let mut points: Vec<DataPoint> = Vec::new();
            points.push(point);
            let t = TimeSeries { name: m.name.clone(), labels: m.labels.duplicate(), data_points: points };
            assert(t@.data_points =~= seq![point]);
            assert(ms[i as int] == m@);
            assert(t@ == series_of(ms[i as int], timestamp));
            let ghost before = series@;
            series.push(t);
            assert(series@.map_values(|t: TimeSeries| t@) =~= before.map_values(|t: TimeSeries| t@).push(
                series_of(ms[i as int], timestamp),
            ));
            assert(ms.take(i + 1).map_values(|m: MetricView| series_of(m, timestamp)) =~= ms.take(
                i as int,
            ).map_values(|m: MetricView| series_of(m, timestamp)).push(series_of(ms[i as int], timestamp)));
        }
        assert(ms.take(n as int) =~= ms);
        DashboardSnapshot { dashboard: self.dashboard.duplicate(), time_series: series, timestamp }
    }

    /// Get current dashboard snapshot: every metric of the registry, as
    /// collected now (which removes expired metrics first), at the current
    /// Unix time in seconds (0 when the clock lies before the epoch).
    pub fn get_snapshot(&mut self) -> (r: DashboardSnapshot)
        requires
            old(self).wf(),
        ensures
            final(self).wf(),
            final(self)@.dashboard == old(self)@.dashboard,
            exists|now: u128| #[trigger] collected_state(old(self)@.registry, final(self)@.registry, now),
            exists|ms_ts: i64, ts: u64|
                r@ == #[trigger] snapshot_view(
                    old(self)@.dashboard,
                    collected(final(self)@.registry.entries, ms_ts),
                    ts,
                ),
    {
        let metrics = self.registry.collect();
        proof {
            let t = choose|t: u128| #[trigger] collected_state(old(self)@.registry, self.registry@, t);
            assert(collected_state(old(self)@.registry, self@.registry, t));
        }
        let timestamp = unix_secs_now();
        let r = self.snapshot_of(&metrics, timestamp);
        proof {
            let ms_ts = choose|ts: i64|
                metrics@.map_values(|m: Metric| m@) == #[trigger] collected(
                    self@.registry.entries,
                    ts,
                );
            assert(r@ == snapshot_view(
                old(self)@.dashboard,
                collected(self@.registry.entries, ms_ts),
                timestamp,
            ));
        }
        r
    }
}

} // verus!
