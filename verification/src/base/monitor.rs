//! Main monitoring interface

use vstd::prelude::*;
use crate::base::clock::{
    duration_as_nanos, duration_as_secs, duration_from_secs, duration_nanos, instant_elapsed,
    instant_now, nanos_per_sec,
};
use crate::base::error::MonitoringError;
use crate::base::labels::{debug_labels, merge_pairs, pairs_to_map, Labels};
use crate::base::metric::{Counter, Gauge, Metric};
use crate::base::registry::{
    at_capacity, collected, collected_state, has_id, id_of, pushed, replaced, same_settings, with_value, EntryView,
    MetricRegistry, RegistryView, StoredValue,
};

verus! {

/// The abstract content of a monitor configuration.
pub struct MonitorConfigView {
    pub service_name: Seq<char>,
    pub collection_interval: std::time::Duration,
    pub auto_collect: bool,
    pub default_labels: Seq<(Seq<char>, Seq<char>)>,
    pub max_cardinality: usize,
    pub metric_ttl: std::time::Duration,
    pub cleanup_interval: std::time::Duration,
}

/// Monitor configuration
#[derive(Debug, Clone)]
pub struct MonitorConfig {
    /// Service name
    pub service_name: String,
    /// Collection interval
    pub collection_interval: std::time::Duration,
    /// Enable automatic collection
    pub auto_collect: bool,
    /// Default labels
    pub default_labels: Labels,
    /// Maximum number of unique metric time series (0: no limit)
    pub max_cardinality: usize,
    /// Time-to-live for inactive metrics (0: no expiry)
    pub metric_ttl: std::time::Duration,
    /// Cleanup interval for expired metrics
    pub cleanup_interval: std::time::Duration,
}

impl View for MonitorConfig {
    type V = MonitorConfigView;

    open spec fn view(&self) -> MonitorConfigView {
        MonitorConfigView {
            service_name: self.service_name@,
            collection_interval: self.collection_interval,
            auto_collect: self.auto_collect,
            default_labels: self.default_labels.pairs(),
            max_cardinality: self.max_cardinality,
            metric_ttl: self.metric_ttl,
            cleanup_interval: self.cleanup_interval,
        }
    }
}

/// The settings of a default configuration, with the service name `name`.
pub open spec fn default_config_with(c: MonitorConfigView, name: Seq<char>) -> bool {
    &&& c.service_name == name
    &&& duration_nanos(c.collection_interval) == 60 * nanos_per_sec()
    &&& !c.auto_collect
    &&& c.default_labels.len() == 0
    &&& c.max_cardinality == 10_000
    &&& duration_nanos(c.metric_ttl) == 3600 * nanos_per_sec()
    &&& duration_nanos(c.cleanup_interval) == 60 * nanos_per_sec()
}

impl Default for MonitorConfig {
    fn default() -> (r: Self)
        ensures
            default_config_with(r@, "default"@),
    {
        MonitorConfig::new("default")
    }
}

impl MonitorConfig {
    /// Create a new configuration with service name
    pub fn new(service_name: &str) -> (r: Self)
        ensures
            default_config_with(r@, service_name@),
    {
        let r = MonitorConfig {
            service_name: service_name.to_string(),
            collection_interval: duration_from_secs(60),
            auto_collect: false,
            default_labels: Labels::new(),
            max_cardinality: 10_000,
            metric_ttl: duration_from_secs(3600),
            cleanup_interval: duration_from_secs(60),
        };
        r
    }

    /// A configuration with the same settings.
    pub fn duplicate(&self) -> (r: Self)
        ensures
            r@ == self@,
    {
        MonitorConfig {
            service_name: self.service_name.clone(),
            collection_interval: self.collection_interval.clone(),
            auto_collect: self.auto_collect,
            default_labels: self.default_labels.duplicate(),
            max_cardinality: self.max_cardinality,
            metric_ttl: self.metric_ttl.clone(),
            cleanup_interval: self.cleanup_interval.clone(),
        }
    }

    /// Set collection interval
    pub fn with_interval(self, interval: std::time::Duration) -> (r: Self)
        ensures
            r@ == (MonitorConfigView { collection_interval: interval, ..self@ }),
    {
        let mut c = self;
        c.collection_interval = interval;
        c
    }

    /// Enable automatic collection
    pub fn with_auto_collect(self, enabled: bool) -> (r: Self)
        ensures
            r@ == (MonitorConfigView { auto_collect: enabled, ..self@ }),
    {
        let mut c = self;
        c.auto_collect = enabled;
        c
    }

    /// Set default labels
    pub fn with_labels(self, labels: Labels) -> (r: Self)
        ensures
            r@ == (MonitorConfigView { default_labels: labels.pairs(), ..self@ }),
    {
        let mut c = self;
        c.default_labels = labels;
        c
    }

    /// Set maximum cardinality (max number of unique time series)
    pub fn with_max_cardinality(self, max_cardinality: usize) -> (r: Self)
        ensures
            r@ == (MonitorConfigView { max_cardinality, ..self@ }),
    {
        let mut c = self;
        c.max_cardinality = max_cardinality;
        c
    }

    /// Set metric TTL (time-to-live for inactive metrics)
    pub fn with_metric_ttl(self, ttl: std::time::Duration) -> (r: Self)
        ensures
            r@ == (MonitorConfigView { metric_ttl: ttl, ..self@ }),
    {
        let mut c = self;
        c.metric_ttl = ttl;
        c
    }

    /// Set cleanup interval
    pub fn with_cleanup_interval(self, interval: std::time::Duration) -> (r: Self)
        ensures
            r@ == (MonitorConfigView { cleanup_interval: interval, ..self@ }),
    {
        let mut c = self;
        c.cleanup_interval = interval;
        c
    }
}

/// The abstract state of a monitor.
pub struct MonitorView {
    pub config: MonitorConfigView,
    pub registry: RegistryView,
    pub running: bool,
}

/// A stopped monitor that is started and stopped again is as it was: what
/// `start` makes of a stopped monitor, `stop` takes back.
pub proof fn law_start_then_stop_restores(v: MonitorView)
    requires
        !v.running,
    ensures
        ({
            let started = MonitorView { running: true, ..v };
            &&& started.running
            &&& (MonitorView { running: false, ..started }) == v
        }),
{
}

/// Main monitoring system: a configuration, the registry it sets up, and
/// whether monitoring is running.
#[derive(Debug)]
pub struct Monitor {
    config: MonitorConfig,
    registry: MetricRegistry,
    running: bool,
    start_time: std::time::Instant,
}

impl View for Monitor {
    type V = MonitorView;

    closed spec fn view(&self) -> MonitorView {
        MonitorView { config: self.config@, registry: self.registry@, running: self.running }
    }
}

/// What the cleanup schedule does next: sleep for a number of nanoseconds,
/// or remove expired metrics.
#[derive(Debug, PartialEq, Eq, Structural)]
pub enum CleanupStep {
    Sleep(u128),
    CleanUp,
}

/// The longest sleep between two checks for shutdown: half a second.
pub const CHECK_INTERVAL_NANOS: u128 = 500_000_000u128;

/// The cleanup schedule: after sleeping `slept_nanos` of a period of
/// `period_nanos`, clean up once the period is reached, else sleep for what
/// is left of it, but at most half a second, so that a shutdown is noticed.
pub fn cleanup_step(slept_nanos: u128, period_nanos: u128) -> (r: CleanupStep)
    ensures
        slept_nanos >= period_nanos ==> r == CleanupStep::CleanUp,
        slept_nanos < period_nanos ==> r == CleanupStep::Sleep(
            if period_nanos - slept_nanos < CHECK_INTERVAL_NANOS {
                (period_nanos - slept_nanos) as u128
            } else {
                CHECK_INTERVAL_NANOS
            },
        ),
{
    if slept_nanos >= period_nanos {
        CleanupStep::CleanUp
    } else {
        let remaining = period_nanos - slept_nanos;
        if remaining < CHECK_INTERVAL_NANOS {
            CleanupStep::Sleep(remaining)
        } else {
            CleanupStep::Sleep(CHECK_INTERVAL_NANOS)
        }
    }
}

impl Monitor {
    /// The monitor's registry is consistent.
    pub closed spec fn wf(&self) -> bool {
        self.registry.wf()
    }

    /// Create a new monitor with default configuration
    pub fn new() -> (r: Self)
        ensures
            r.wf(),
            default_config_with(r@.config, "default"@),
            r@.registry.entries.len() == 0,
            r@.registry.default_labels.len() == 0,
            r@.registry.max_cardinality == 10_000,
            r@.registry.ttl == r@.config.metric_ttl,
            r@.registry.rejections == 0,
            !r@.running,
    {
        Self::with_config(MonitorConfig::default())
    }

    /// Create a new monitor with custom configuration: its registry has the
    /// configured limit, time-to-live and default labels.
    pub fn with_config(config: MonitorConfig) -> (r: Self)
        ensures
            r.wf(),
            r@.config == config@,
            r@.registry.entries.len() == 0,
            r@.registry.default_labels == config@.default_labels,
            r@.registry.max_cardinality == config@.max_cardinality,
            r@.registry.ttl == config@.metric_ttl,
            r@.registry.rejections == 0,
            !r@.running,
    {
        let mut registry = MetricRegistry::with_ttl(config.max_cardinality, config.metric_ttl);
        registry.set_default_labels(config.default_labels.duplicate());
        Monitor { config, registry, running: false, start_time: instant_now() }
    }

    /// Get the metric registry
    pub fn registry(&self) -> (r: &MetricRegistry)
        ensures
            r@ == self@.registry,
            self.wf() ==> r.wf(),
    {
        &self.registry
    }

    /// The metric registry, for updating it.
    pub fn registry_mut(&mut self) -> (r: &mut MetricRegistry)
        ensures
            (*r)@ == old(self)@.registry,
            old(self).wf() ==> (*r).wf(),
            final(self)@.registry == (*final(r))@,
            final(self)@.config == old(self)@.config,
            final(self)@.running == old(self)@.running,
            (*final(r)).wf() ==> final(self).wf(),
    {
        &mut self.registry
    }

    /// Start the monitoring system; fails when it is already running.
    pub fn start(&mut self) -> (r: Result<(), MonitoringError>)
        ensures
            old(self)@.running ==> r == Err::<(), MonitoringError>(
                MonitoringError::AlreadyInitialized,
            ) && final(self)@ == old(self)@,
            !old(self)@.running ==> r is Ok && final(self)@ == (MonitorView {
                running: true,
                ..old(self)@
            }),
            old(self).wf() ==> final(self).wf(),
    {
        if self.running {
            return Err(MonitoringError::AlreadyInitialized);
        }
        self.running = true;
        Ok(())
    }

    /// How often expired metrics are to be removed while the monitor runs:
    /// none when the time-to-live is zero, else the cleanup interval, or one
    /// second when that is zero.
    pub fn cleanup_period(&self) -> (r: Option<std::time::Duration>)
        ensures
            r is None <==> duration_nanos(self@.config.metric_ttl) == 0,
            r matches Some(d) ==> (if duration_nanos(self@.config.cleanup_interval) == 0 {
                duration_nanos(d) == nanos_per_sec()
            } else {
                d == self@.config.cleanup_interval
            }),
    {
        if duration_as_nanos(&self.config.metric_ttl) > 0 {
            if duration_as_nanos(&self.config.cleanup_interval) == 0 {
                Some(duration_from_secs(1))
            } else {
                Some(self.config.cleanup_interval.clone())
            }
        } else {
            None
        }
    }

    /// Stop the monitoring system; fails when it is not running.
    pub fn stop(&mut self) -> (r: Result<(), MonitoringError>)
        ensures
            !old(self)@.running ==> r == Err::<(), MonitoringError>(
                MonitoringError::NotInitialized,
            ) && final(self)@ == old(self)@,
            old(self)@.running ==> r is Ok && final(self)@ == (MonitorView {
                running: false,
                ..old(self)@
            }),
            old(self).wf() ==> final(self).wf(),
    {
        if !self.running {
            return Err(MonitoringError::NotInitialized);
        }
        self.running = false;
        Ok(())
    }

    /// Check if monitoring is running
    pub fn is_running(&self) -> (r: bool)
        ensures
            r == self@.running,
    {
        self.running
    }

    /// Get uptime in whole seconds.  Nothing is stated of the value: it
    /// depends on when the call is made.
    pub fn uptime(&self) -> u64 {
        let d = instant_elapsed(&self.start_time);
        duration_as_secs(&d)
    }

    /// Register a counter metric
    pub fn register_counter(&mut self, name: &str, help: &str, labels: Labels) -> (r: Result<
        &mut Counter,
        MonitoringError,
    >)
        requires
            old(self).wf(),
        ensures
            final(self).wf(),
            final(self)@.config == old(self)@.config,
            final(self)@.running == old(self)@.running,
            ({
                let a = old(self)@.registry;
                let b = final(self)@.registry;
                let merged = merge_pairs(a.default_labels, labels.pairs());
                let id = (name@, pairs_to_map(merged));
                &&& has_id(a.entries, id) ==> (b == a && (r matches Err(
                    MonitoringError::AlreadyExists { name: n, labels: l },
                ) && n@ == name@ && l@ == debug_labels(merged)))
                &&& !has_id(a.entries, id) && at_capacity(a) ==> b == a && r == Err::<
                    &mut Counter,
                    MonitoringError,
                >(
                    MonitoringError::CardinalityLimitExceeded {
                        limit: a.max_cardinality,
                        current: a.entries.len() as usize,
                    },
                )
                &&& !has_id(a.entries, id) && !at_capacity(a) ==> (r matches Ok(c) && (*c)@ == 0
                    && pushed(
                    a,
                    b,
                    EntryView {
                        name: name@,
                        labels: merged,
                        help: help@,
                        value: StoredValue::Counter((*final(c))@),
                    },
                ))
            }),
    {
        self.registry.register_counter(name, help, labels)
    }

    /// Register a gauge metric
    pub fn register_gauge(&mut self, name: &str, help: &str, labels: Labels) -> (r: Result<
        &mut Gauge,
        MonitoringError,
    >)
        requires
            old(self).wf(),
        ensures
            final(self).wf(),
            final(self)@.config == old(self)@.config,
            final(self)@.running == old(self)@.running,
            ({
                let a = old(self)@.registry;
                let b = final(self)@.registry;
                let merged = merge_pairs(a.default_labels, labels.pairs());
                let id = (name@, pairs_to_map(merged));
                &&& has_id(a.entries, id) ==> (b == a && (r matches Err(
                    MonitoringError::AlreadyExists { name: n, labels: l },
                ) && n@ == name@ && l@ == debug_labels(merged)))
                &&& !has_id(a.entries, id) && at_capacity(a) ==> b == a && r == Err::<
                    &mut Gauge,
                    MonitoringError,
                >(
                    MonitoringError::CardinalityLimitExceeded {
                        limit: a.max_cardinality,
                        current: a.entries.len() as usize,
                    },
                )
                &&& !has_id(a.entries, id) && !at_capacity(a) ==> (r matches Ok(g) && (*g)@ == 0
                    && pushed(
                    a,
                    b,
                    EntryView {
                        name: name@,
                        labels: merged,
                        help: help@,
                        value: StoredValue::Gauge((*final(g))@),
                    },
                ))
            }),
    {
        self.registry.register_gauge(name, help, labels)
    }

    /// Get or create a counter (no help text is stored)
    pub fn counter(&mut self, name: &str, labels: Labels) -> (r: &mut Counter)
        requires
            old(self).wf(),
        ensures
            final(self).wf(),
            final(self)@.config == old(self)@.config,
            final(self)@.running == old(self)@.running,
            ({
                let a = old(self)@.registry;
                let b = final(self)@.registry;
                let merged = merge_pairs(a.default_labels, labels.pairs());
                let id = (name@, pairs_to_map(merged));
                let es = a.entries;
                &&& forall|i: int|
                    0 <= i < es.len() && id_of(#[trigger] es[i]) == id ==> (if es[i].value is Counter {
                        StoredValue::Counter((*r)@) == es[i].value
                    } else {
                        (*r)@ == 0
                    }) && replaced(a, b, i, with_value(es[i], StoredValue::Counter((*final(r))@)))
                &&& !has_id(es, id) && !at_capacity(a) ==> (*r)@ == 0 && pushed(
                    a,
                    b,
                    EntryView {
                        name: name@,
                        labels: merged,
                        help: Seq::empty(),
                        value: StoredValue::Counter((*final(r))@),
                    },
                )
                &&& !has_id(es, id) && at_capacity(a) ==> (*r)@ == 0 && b.entries == es
                    && b.accessed == a.accessed && same_settings(a, b) && b.rejections
                    == a.rejections.wrapping_add(1)
            }),
    {
        self.registry.get_or_create_counter(name, labels)
    }

    /// Get or create a gauge (no help text is stored)
    pub fn gauge(&mut self, name: &str, labels: Labels) -> (r: &mut Gauge)
        requires
            old(self).wf(),
        ensures
            final(self).wf(),
            final(self)@.config == old(self)@.config,
            final(self)@.running == old(self)@.running,
            ({
                let a = old(self)@.registry;
                let b = final(self)@.registry;
                let merged = merge_pairs(a.default_labels, labels.pairs());
                let id = (name@, pairs_to_map(merged));
                let es = a.entries;
                &&& forall|i: int|
                    0 <= i < es.len() && id_of(#[trigger] es[i]) == id ==> (if es[i].value is Gauge {
                        StoredValue::Gauge((*r)@) == es[i].value
                    } else {
                        (*r)@ == 0
                    }) && replaced(a, b, i, with_value(es[i], StoredValue::Gauge((*final(r))@)))
                &&& !has_id(es, id) && !at_capacity(a) ==> (*r)@ == 0 && pushed(
                    a,
                    b,
                    EntryView {
                        name: name@,
                        labels: merged,
                        help: Seq::empty(),
                        value: StoredValue::Gauge((*final(r))@),
                    },
                )
                &&& !has_id(es, id) && at_capacity(a) ==> (*r)@ == 0 && b.entries == es
                    && b.accessed == a.accessed && same_settings(a, b) && b.rejections
                    == a.rejections.wrapping_add(1)
            }),
    {
        self.registry.get_or_create_gauge(name, labels)
    }

    /// Collect all metrics, stamped with the current time: with a
    /// time-to-live, the metrics unused for that long are removed first.
    pub fn collect(&mut self) -> (r: Vec<Metric>)
        requires
            old(self).wf(),
        ensures
            final(self).wf(),
            exists|now: u128| #[trigger] collected_state(old(self)@.registry, final(self)@.registry, now),
            final(self)@.config == old(self)@.config,
            final(self)@.running == old(self)@.running,
            exists|ts: i64| r@.map_values(|m: Metric| m@) == #[trigger] collected(final(self)@.registry.entries, ts),
    {
        let r = self.registry.collect();
        proof {
            let t = choose|t: u128| #[trigger] collected_state(old(self)@.registry, self.registry@, t);
            assert(collected_state(old(self)@.registry, self@.registry, t));
            let ts = choose|ts: i64| r@.map_values(|m: Metric| m@) == #[trigger] collected(self.registry@.entries, ts);
            assert(r@.map_values(|m: Metric| m@) == collected(self@.registry.entries, ts));
        }
        r
    }

    /// Get the number of registered metrics
    pub fn metric_count(&self) -> (r: usize)
        requires
            self.wf(),
        ensures
            r == self@.registry.entries.len(),
    {
        self.registry.count()
    }

    /// Get the number of cardinality limit rejections
    pub fn cardinality_rejections(&self) -> (r: u64)
        ensures
            r == self@.registry.rejections,
    {
        self.registry.cardinality_rejections()
    }

    /// Clear all metrics
    pub fn clear(&mut self)
        requires
            old(self).wf(),
        ensures
            final(self).wf(),
            final(self)@.registry.entries.len() == 0,
            final(self)@.registry.accessed.len() == 0,
            same_settings(old(self)@.registry, final(self)@.registry),
            final(self)@.registry.rejections == old(self)@.registry.rejections,
            final(self)@.config == old(self)@.config,
            final(self)@.running == old(self)@.running,
    {
        self.registry.clear();
    }

    /// Get configuration
    pub fn config(&self) -> (r: MonitorConfig)
        ensures
            r@ == self@.config,
    {
        self.config.duplicate()
    }

    /// Replace the configuration; its default labels become the registry's.
    /// The registry's limit and time-to-live stay as they were.
    pub fn update_config(&mut self, config: MonitorConfig)
        requires
            old(self).wf(),
        ensures
            final(self).wf(),
            final(self)@.config == config@,
            final(self)@.registry == (RegistryView {
                default_labels: config@.default_labels,
                ..old(self)@.registry
            }),
            final(self)@.running == old(self)@.running,
    {
        let labels = config.default_labels.duplicate();
        self.config = config;
        self.registry.set_default_labels(labels);
    }
}

impl Default for Monitor {
    fn default() -> (r: Self)
        ensures
            r.wf(),
            default_config_with(r@.config, "default"@),
            r@.registry.entries.len() == 0,
            !r@.running,
    {
        Monitor::new()
    }
}

} // verus!
