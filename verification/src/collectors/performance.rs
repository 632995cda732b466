//! Performance monitoring: runtime metrics of an application, and the gauge
//! updates that a performance collector makes from readings of the system.

use vstd::prelude::*;
use crate::base::labels::{key_position, Labels};
use crate::base::registry::{MetricRegistry, RegistryView};
use crate::base::updates::{counter_added, gauge_set, GaugeUpdate, GaugeUpdateView};
use crate::collectors::integrated_system::{core_updates, push_core_updates};

verus! {

/// Runtime performance metrics, recorded in a registry.
pub struct RuntimeMetrics {
    registry: MetricRegistry,
}

impl View for RuntimeMetrics {
    type V = RegistryView;

    closed spec fn view(&self) -> RegistryView {
        self.registry@
    }
}

fn one_label(key: &str, value: &str) -> (r: Labels)
    ensures
        r.pairs() == seq![(key@, value@)],
{
    let mut l = Labels::new();
    l.insert(key.to_string(), value.to_string());
    l
}

fn two_labels(k1: &str, v1: &str, k2: &str, v2: &str) -> (r: Labels)
    requires
        k1@ != k2@,
    ensures
        r.pairs() == seq![(k1@, v1@), (k2@, v2@)],
{
    let mut l = one_label(k1, v1);
    l.insert(k2.to_string(), v2.to_string());
    assert(seq![(k1@, v1@)].drop_last() =~= Seq::<(Seq<char>, Seq<char>)>::empty());
    assert(key_position(seq![(k1@, v1@)], k2@) == -1) by {
        reveal_with_fuel(key_position, 2);
    }
    assert(l.pairs() =~= seq![(k1@, v1@), (k2@, v2@)]);
    l
}

impl RuntimeMetrics {
    /// The registry is consistent.
    pub closed spec fn wf(&self) -> bool {
        self.registry.wf()
    }

    /// Create a new runtime metrics collector
    pub fn new(registry: MetricRegistry) -> (r: Self)
        requires
            registry.wf(),
        ensures
            r.wf(),
            r@ == registry@,
    {
        RuntimeMetrics { registry }
    }

    /// The registry the metrics are recorded in.
    pub fn registry(&self) -> (r: &MetricRegistry)
        ensures
            r@ == self@,
            self.wf() ==> r.wf(),
    {
        &self.registry
    }

    /// The registry the metrics are recorded in, for updating it.
    pub fn registry_mut(&mut self) -> (r: &mut MetricRegistry)
        ensures
            (*r)@ == old(self)@,
            old(self).wf() ==> (*r).wf(),
            final(self)@ == (*final(r))@,
            (*final(r)).wf() ==> final(self).wf(),
    {
        &mut self.registry
    }

    /// Record request duration: adds `duration_ms` to the total duration of
    /// `operation` and counts one request.
    pub fn record_request_duration(&mut self, operation: &str, duration_ms: u64)
        requires
            old(self).wf(),
        ensures
            final(self).wf(),
            exists|mid: RegistryView|
                #[trigger] counter_added(
                    old(self)@,
                    mid,
                    "request_duration_ms_total"@,
                    seq![("operation"@, operation@)],
                    duration_ms,
                ) && counter_added(
                    mid,
                    final(self)@,
                    "request_count_total"@,
                    seq![("operation"@, operation@)],
                    1,
                ),
    {
        let labels = one_label("operation", operation);
        self.registry.add_to_counter("request_duration_ms_total", labels.duplicate(), duration_ms);
        let ghost mid = self@;
        self.registry.add_to_counter("request_count_total", labels, 1);
        assert(counter_added(
            old(self)@,
            mid,
            "request_duration_ms_total"@,
            seq![("operation"@, operation@)],
            duration_ms,
        ));
    }

    /// Record error: counts one error of `error_type` in `operation`.
    pub fn record_error(&mut self, operation: &str, error_type: &str)
        requires
            old(self).wf(),
        ensures
            final(self).wf(),
            counter_added(
                old(self)@,
                final(self)@,
                "error_count_total"@,
                seq![("operation"@, operation@), ("error_type"@, error_type@)],
                1,
            ),
    {
        proof {
            reveal_strlit("operation");
            reveal_strlit("error_type");
            assert("operation"@.len() != "error_type"@.len());
        }
        let labels = two_labels("operation", operation, "error_type", error_type);
        self.registry.add_to_counter("error_count_total", labels, 1);
    }

    /// Record success: counts one successful `operation`.
    pub fn record_success(&mut self, operation: &str)
        requires
            old(self).wf(),
        ensures
            final(self).wf(),
            counter_added(
                old(self)@,
                final(self)@,
                "operation_count_total"@,
                seq![("operation"@, operation@), ("status"@, "success"@)],
                1,
            ),
    {
        proof {
            reveal_strlit("operation");
            reveal_strlit("status");
            assert("operation"@.len() != "status"@.len());
        }
        let labels = two_labels("operation", operation, "status", "success");
        self.registry.add_to_counter("operation_count_total", labels, 1);
    }

    /// Set active connections
    pub fn set_active_connections(&mut self, count: i64)
        requires
            old(self).wf(),
        ensures
            final(self).wf(),
            gauge_set(old(self)@, final(self)@, "active_connections"@, Seq::empty(), count),
    {
        self.registry.set_gauge("active_connections", Labels::new(), count);
    }

    /// Set queue size of the queue `queue_name`
    pub fn set_queue_size(&mut self, queue_name: &str, size: i64)
        requires
            old(self).wf(),
        ensures
            final(self).wf(),
            gauge_set(old(self)@, final(self)@, "queue_size"@, seq![("queue"@, queue_name@)], size),
    {
        self.registry.set_gauge("queue_size", one_label("queue", queue_name), size);
    }
}

/// The gauge updates of a performance collector's CPU collection: the
/// global usage, then the usage of each core labelled by its index.
pub open spec fn performance_cpu_view(global: i64, cores: Seq<i64>) -> Seq<GaugeUpdateView> {
    seq![GaugeUpdateView { name: "system_cpu_usage_percent"@, labels: Seq::empty(), value: global }]
        + core_updates(cores)
}

/// The gauge updates of a performance collector's CPU collection, from the
/// global and per-core usage (percent, converted to integers).
pub fn performance_cpu_updates(global: i64, cores: &Vec<i64>) -> (r: Vec<GaugeUpdate>)
    ensures
        r@.map_values(|u: GaugeUpdate| u@) == performance_cpu_view(global, cores@),
{
    let mut r: Vec<GaugeUpdate> = Vec::new();
    r.push(GaugeUpdate::plain("system_cpu_usage_percent", global));
    let ghost head = r@.map_values(|u: GaugeUpdate| u@);
    push_core_updates(&mut r, cores);
    r
}

/// The gauge updates of a performance collector's memory collection.
pub open spec fn performance_memory_view(
    total: u64,
    used: u64,
    available: u64,
    usage_percent: i64,
    swap_total: u64,
    swap_used: u64,
) -> Seq<GaugeUpdateView> {
    seq![
        GaugeUpdateView { name: "system_memory_total_bytes"@, labels: Seq::empty(), value: total as i64 },
        GaugeUpdateView { name: "system_memory_used_bytes"@, labels: Seq::empty(), value: used as i64 },
        GaugeUpdateView {
            name: "system_memory_available_bytes"@,
            labels: Seq::empty(),
            value: available as i64,
        },
        GaugeUpdateView { name: "system_memory_usage_percent"@, labels: Seq::empty(), value: usage_percent },
        GaugeUpdateView { name: "system_swap_total_bytes"@, labels: Seq::empty(), value: swap_total as i64 },
        GaugeUpdateView { name: "system_swap_used_bytes"@, labels: Seq::empty(), value: swap_used as i64 },
    ]
}

/// The gauge updates of a performance collector's memory collection, from
/// the memory and swap readings in bytes and the usage percentage.
pub fn performance_memory_updates(
    total: u64,
    used: u64,
    available: u64,
    usage_percent: i64,
    swap_total: u64,
    swap_used: u64,
) -> (r: Vec<GaugeUpdate>)
    ensures
        r@.map_values(|u: GaugeUpdate| u@) == performance_memory_view(
            total,
            used,
            available,
            usage_percent,
            swap_total,
            swap_used,
        ),
{
    let mut r: Vec<GaugeUpdate> = Vec::new();
    r.push(GaugeUpdate::plain("system_memory_total_bytes", total as i64));
    r.push(GaugeUpdate::plain("system_memory_used_bytes", used as i64));
    r.push(GaugeUpdate::plain("system_memory_available_bytes", available as i64));
    r.push(GaugeUpdate::plain("system_memory_usage_percent", usage_percent));
    r.push(GaugeUpdate::plain("system_swap_total_bytes", swap_total as i64));
    r.push(GaugeUpdate::plain("system_swap_used_bytes", swap_used as i64));
    assert(r@.map_values(|u: GaugeUpdate| u@) =~= performance_memory_view(
        total,
        used,
        available,
        usage_percent,
        swap_total,
        swap_used,
    ));
    r
}

/// The gauge updates of a performance collector's process collection.
pub open spec fn performance_process_view(cpu: i64, memory: u64, virtual_memory: u64) -> Seq<
    GaugeUpdateView,
> {
    seq![
        GaugeUpdateView { name: "process_cpu_usage_percent"@, labels: Seq::empty(), value: cpu },
        GaugeUpdateView { name: "process_memory_bytes"@, labels: Seq::empty(), value: memory as i64 },
        GaugeUpdateView {
            name: "process_virtual_memory_bytes"@,
            labels: Seq::empty(),
            value: virtual_memory as i64,
        },
    ]
}

/// The gauge updates of a performance collector's process collection, from
/// the process's CPU usage (percent, converted to an integer) and memory.
pub fn performance_process_updates(cpu: i64, memory: u64, virtual_memory: u64) -> (r: Vec<
    GaugeUpdate,
>)
    ensures
        r@.map_values(|u: GaugeUpdate| u@) == performance_process_view(cpu, memory, virtual_memory),
{
    let mut r: Vec<GaugeUpdate> = Vec::new();
    r.push(GaugeUpdate::plain("process_cpu_usage_percent", cpu));
    r.push(GaugeUpdate::plain("process_memory_bytes", memory as i64));
    r.push(GaugeUpdate::plain("process_virtual_memory_bytes", virtual_memory as i64));
    assert(r@.map_values(|u: GaugeUpdate| u@) =~= performance_process_view(cpu, memory, virtual_memory));
    r
}

} // verus!
