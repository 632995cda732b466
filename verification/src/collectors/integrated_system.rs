//! Integrated CPU and memory monitoring with historical tracking: the
//! configuration, the history of memory readings (moving average and peak),
//! and the gauge updates made from each round of readings.

use vstd::prelude::*;
use crate::base::clock::{duration_from_secs, duration_nanos, nanos_per_sec};
use crate::base::labels::Labels;
use crate::base::text::{decimal, decimal_string};
use crate::base::updates::{GaugeUpdate, GaugeUpdateView};

verus! {

/// Configuration for integrated system monitoring
#[derive(Debug, Clone, Copy)]
pub struct IntegratedSystemConfig {
    /// Number of historical samples to keep for averaging
    pub history_size: usize,
    /// Collection interval for auto-collection
    pub collection_interval: std::time::Duration,
    /// Enable process-specific monitoring
    pub enable_process_monitoring: bool,
    /// Enable per-CPU core monitoring
    pub enable_per_core_monitoring: bool,
}

impl Default for IntegratedSystemConfig {
    fn default() -> (r: Self)
        ensures
            r.history_size == 60,
            duration_nanos(r.collection_interval) == nanos_per_sec(),
            r.enable_process_monitoring,
            r.enable_per_core_monitoring,
    {
        IntegratedSystemConfig {
            history_size: 60,
            collection_interval: duration_from_secs(1),
            enable_process_monitoring: true,
            enable_per_core_monitoring: true,
        }
    }
}

impl IntegratedSystemConfig {
    /// Create new configuration with custom history size
    pub fn with_history_size(self, size: usize) -> (r: Self)
        ensures
            r == (IntegratedSystemConfig { history_size: size, ..self }),
    {
        let mut c = self;
        c.history_size = size;
        c
    }

    /// Set collection interval
    pub fn with_collection_interval(self, interval: std::time::Duration) -> (r: Self)
        ensures
            r == (IntegratedSystemConfig { collection_interval: interval, ..self }),
    {
        let mut c = self;
        c.collection_interval = interval;
        c
    }

    /// Enable or disable process monitoring
    pub fn with_process_monitoring(self, enabled: bool) -> (r: Self)
        ensures
            r == (IntegratedSystemConfig { enable_process_monitoring: enabled, ..self }),
    {
        let mut c = self;
        c.enable_process_monitoring = enabled;
        c
    }

    /// Enable or disable per-core monitoring
    pub fn with_per_core_monitoring(self, enabled: bool) -> (r: Self)
        ensures
            r == (IntegratedSystemConfig { enable_per_core_monitoring: enabled, ..self }),
    {
        let mut c = self;
        c.enable_per_core_monitoring = enabled;
        c
    }
}

/// The sum of the samples.
pub open spec fn seq_sum(s: Seq<u64>) -> nat
    decreases s.len(),
{
    if s.len() == 0 {
        0
    } else {
        seq_sum(s.drop_last()) + s.last() as nat
    }
}

/// The abstract content of a memory history.
pub struct MemoryHistoryView {
    pub samples: Seq<u64>,
    pub peak: u64,
}

/// `h` after the sample `value` was added with room for `max_samples`: the
/// oldest sample leaves when the history is full, and the peak rises to
/// `value` if that is higher.
pub open spec fn after_sample(h: MemoryHistoryView, value: u64, max_samples: usize) -> MemoryHistoryView {
    MemoryHistoryView {
        samples: (if h.samples.len() >= max_samples && h.samples.len() > 0 {
            h.samples.drop_first()
        } else {
            h.samples
        }).push(value),
        peak: if value > h.peak {
            value
        } else {
            h.peak
        },
    }
}

/// No sample lies above the peak.
pub open spec fn peak_bounds(h: MemoryHistoryView) -> bool {
    forall|i: int| 0 <= i < h.samples.len() ==> #[trigger] h.samples[i] <= h.peak
}

/// Adding samples keeps every sample at or below the peak, and keeps at
/// most `max_samples` of them (one when `max_samples` is 0).
pub proof fn law_history_keeps_its_bounds(h: MemoryHistoryView, value: u64, max_samples: usize)
    requires
        peak_bounds(h),
        h.samples.len() <= (if max_samples == 0 {
            1
        } else {
            max_samples as int
        }),
    ensures
        peak_bounds(after_sample(h, value, max_samples)),
        after_sample(h, value, max_samples).samples.len() <= (if max_samples == 0 {
            1
        } else {
            max_samples as int
        }),
{
    let a = after_sample(h, value, max_samples);
    let kept = if h.samples.len() >= max_samples && h.samples.len() > 0 {
        h.samples.drop_first()
    } else {
        h.samples
    };
    assert forall|i: int| 0 <= i < a.samples.len() implies #[trigger] a.samples[i] <= a.peak by {
        if i < kept.len() {
            if h.samples.len() >= max_samples && h.samples.len() > 0 {
                assert(kept[i] == h.samples[i + 1]);
            }
        }
    }
}

proof fn lemma_sum_at_most(s: Seq<u64>, p: u64)
    requires
        forall|i: int| 0 <= i < s.len() ==> #[trigger] s[i] <= p,
    ensures
        seq_sum(s) <= s.len() * p,
    decreases s.len(),
{
    if s.len() > 0 {
        lemma_sum_at_most(s.drop_last(), p);
        assert(s.last() == s[s.len() - 1]);
        assert((s.len() - 1) * p + p == s.len() * p) by (nonlinear_arith);
    }
}

/// The average of the samples is at most the peak.
pub proof fn law_average_at_most_peak(h: MemoryHistoryView)
    requires
        peak_bounds(h),
        h.samples.len() > 0,
    ensures
        seq_sum(h.samples) / h.samples.len() <= h.peak,
{
    lemma_sum_at_most(h.samples, h.peak);
    let n = h.samples.len() as int;
    let t = seq_sum(h.samples) as int;
    let p = h.peak as int;
    assert(t / n <= p) by (nonlinear_arith)
        requires
            n > 0,
            t <= n * p,
            p >= 0,
            t >= 0,
    ;
}

/// Historical memory readings: the most recent samples, oldest first, and
/// the highest sample seen since the history was created.
#[derive(Debug, Clone)]
pub struct MemoryHistory {
    samples: std::collections::VecDeque<u64>,
    peak: u64,
}

impl View for MemoryHistory {
    type V = MemoryHistoryView;

    closed spec fn view(&self) -> MemoryHistoryView {
        MemoryHistoryView { samples: self.samples@, peak: self.peak }
    }
}

proof fn lemma_sum_prefix(s: Seq<u64>, i: int)
    requires
        0 <= i <= s.len(),
    ensures
        seq_sum(s.take(i)) <= seq_sum(s),
    decreases s.len() - i,
{
    if i < s.len() {
        lemma_sum_prefix(s, i + 1);
        assert(s.take(i + 1).drop_last() =~= s.take(i));
    } else {
        assert(s.take(i) =~= s);
    }
}

impl MemoryHistory {
    /// An empty history with peak 0.
    pub fn new(max_samples: usize) -> (r: Self)
        ensures
            r@ == (MemoryHistoryView { samples: Seq::empty(), peak: 0 }),
    {
        let r = MemoryHistory {
            samples: std::collections::VecDeque::with_capacity(max_samples),
            peak: 0,
        };
        assert(r@.samples =~= Seq::<u64>::empty());
        r
    }

    /// Add a sample, keeping at most `max_samples` (at least the new one).
    pub fn add_sample(&mut self, value: u64, max_samples: usize)
        ensures
            final(self)@ == after_sample(old(self)@, value, max_samples),
    {
        if self.samples.len() >= max_samples {
            self.samples.pop_front();
        }
        self.samples.push_back(value);
        if value > self.peak {
            self.peak = value;
        }
        assert(self@.samples =~= after_sample(old(self)@, value, max_samples).samples);
    }

    /// Whether the samples sum to at most `u64::MAX`, so that their average
    /// can be taken.
    pub fn sum_fits(&self) -> (r: bool)
        ensures
            r == (seq_sum(self@.samples) <= u64::MAX),
    {
        let n = self.samples.len();
        let mut sum: u64 = 0;
        for i in 0..n
            invariant
                n == self.samples.len(),
                sum == seq_sum(self@.samples.take(i as int)),
        {
            assert(self@.samples.take(i + 1).drop_last() =~= self@.samples.take(i as int));
            match sum.checked_add(self.samples[i]) {
                Some(s) => {
                    sum = s;
                },
                None => {
                    proof {
                        lemma_sum_prefix(self@.samples, i + 1);
                    }
                    return false;
                },
            }
        }
        assert(self@.samples.take(n as int) =~= self@.samples);
        true
    }

    /// The average of the samples, rounded down (0 without samples).
    pub fn average(&self) -> (r: u64)
        requires
            seq_sum(self@.samples) <= u64::MAX,
        ensures
            self@.samples.len() == 0 ==> r == 0,
            self@.samples.len() > 0 ==> r == seq_sum(self@.samples) / self@.samples.len(),
    {
        let n = self.samples.len();
        if n == 0 {
            return 0;
        }
        let mut sum: u64 = 0;
        for i in 0..n
            invariant
                n == self.samples.len(),
                seq_sum(self@.samples) <= u64::MAX,
                sum == seq_sum(self@.samples.take(i as int)),
        {
            assert(self@.samples.take(i + 1).drop_last() =~= self@.samples.take(i as int));
            proof {
                lemma_sum_prefix(self@.samples, i + 1);
            }
            sum = sum + self.samples[i];
        }
        assert(self@.samples.take(n as int) =~= self@.samples);
        sum / (n as u64)
    }

    /// The latest sample (0 without samples).
    pub fn current(&self) -> (r: u64)
        ensures
            self@.samples.len() == 0 ==> r == 0,
            self@.samples.len() > 0 ==> r == self@.samples.last(),
    {
        if self.samples.len() == 0 {
            0
        } else {
            self.samples[self.samples.len() - 1]
        }
    }

    /// The highest sample seen.
    pub fn peak(&self) -> (r: u64)
        ensures
            r == self@.peak,
    {
        self.peak
    }
}

/// The usage gauges of the cores: one per core, labelled by its index.
pub open spec fn core_updates(cores: Seq<i64>) -> Seq<GaugeUpdateView> {
    Seq::new(
        cores.len(),
        |i: int|
            GaugeUpdateView {
                name: "system_cpu_core_usage_percent"@,
                labels: seq![("cpu"@, decimal(i as nat))],
                value: cores[i],
            },
    )
}

/// Append the usage gauges of the cores to `out`.
pub fn push_core_updates(out: &mut Vec<GaugeUpdate>, cores: &Vec<i64>)
    ensures
        final(out)@.map_values(|u: GaugeUpdate| u@) == old(out)@.map_values(|u: GaugeUpdate| u@)
            + core_updates(cores@),
{
    let ghost head = old(out)@.map_values(|u: GaugeUpdate| u@);
    let n = cores.len();
    for i in 0..n
        invariant
            n == cores.len(),
            out@.map_values(|u: GaugeUpdate| u@) == head + core_updates(cores@).take(i as int),
    {
        let mut labels = Labels::new();
        labels.insert("cpu".to_string(), decimal_string(i as u128));
        let u = GaugeUpdate {
            name: "system_cpu_core_usage_percent".to_string(),
            labels,
            value: cores[i],
        };
        let ghost before = out@.map_values(|u: GaugeUpdate| u@);
        out.push(u);
        assert(out@.map_values(|u: GaugeUpdate| u@) =~= before.push(u@));
        assert(core_updates(cores@).take(i + 1) =~= core_updates(cores@).take(i as int).push(u@));
    }
    assert(core_updates(cores@).take(n as int) =~= core_updates(cores@));
}

/// The gauge updates of an integrated monitor's CPU collection.
pub open spec fn cpu_report_view(
    global: i64,
    average: i64,
    peak: i64,
    cores: Seq<i64>,
    per_core: bool,
) -> Seq<GaugeUpdateView> {
    seq![
        GaugeUpdateView { name: "system_cpu_usage_percent"@, labels: Seq::empty(), value: global },
        GaugeUpdateView { name: "system_cpu_usage_avg_percent"@, labels: Seq::empty(), value: average },
        GaugeUpdateView { name: "system_cpu_usage_peak_percent"@, labels: Seq::empty(), value: peak },
    ] + (if per_core {
        core_updates(cores)
    } else {
        Seq::empty()
    }) + seq![
        GaugeUpdateView { name: "system_cpu_count"@, labels: Seq::empty(), value: cores.len() as i64 },
    ]
}

/// The gauge updates of an integrated monitor's CPU collection: current,
/// average and peak usage (percent, converted to integers), the usage of
/// each core when `per_core`, and the number of cores.
pub fn cpu_report(global: i64, average: i64, peak: i64, cores: &Vec<i64>, per_core: bool) -> (r: Vec<
    GaugeUpdate,
>)
    ensures
        r@.map_values(|u: GaugeUpdate| u@) == cpu_report_view(global, average, peak, cores@, per_core),
{
    let mut r: Vec<GaugeUpdate> = Vec::new();
    r.push(GaugeUpdate::plain("system_cpu_usage_percent", global));
    r.push(GaugeUpdate::plain("system_cpu_usage_avg_percent", average));
    r.push(GaugeUpdate::plain("system_cpu_usage_peak_percent", peak));
    let ghost head = r@.map_values(|u: GaugeUpdate| u@);
    if per_core {
        push_core_updates(&mut r, cores);
    }
    let ghost mid = r@.map_values(|u: GaugeUpdate| u@);
    let count = GaugeUpdate::plain("system_cpu_count", cores.len() as i64);
    r.push(count);
    assert(r@.map_values(|u: GaugeUpdate| u@) =~= mid.push(count@));
    assert(r@.map_values(|u: GaugeUpdate| u@) =~= cpu_report_view(global, average, peak, cores@, per_core));
    r
}

/// The gauge updates of an integrated monitor's memory collection.
pub open spec fn memory_report_view(
    total: u64,
    used: u64,
    available: u64,
    usage_percent: i64,
    swap_total: u64,
    swap_used: u64,
    history: MemoryHistoryView,
) -> Seq<GaugeUpdateView> {
    let avg = if history.samples.len() == 0 {
        0
    } else {
        seq_sum(history.samples) / history.samples.len()
    };
    seq![
        GaugeUpdateView { name: "system_memory_total_bytes"@, labels: Seq::empty(), value: total as i64 },
        GaugeUpdateView { name: "system_memory_used_bytes"@, labels: Seq::empty(), value: used as i64 },
        GaugeUpdateView {
            name: "system_memory_available_bytes"@,
            labels: Seq::empty(),
            value: available as i64,
        },
        GaugeUpdateView { name: "system_memory_usage_percent"@, labels: Seq::empty(), value: usage_percent },
        GaugeUpdateView {
            name: "system_memory_used_avg_bytes"@,
            labels: Seq::empty(),
            value: avg as u64 as i64,
        },
        GaugeUpdateView {
            name: "system_memory_used_peak_bytes"@,
            labels: Seq::empty(),
            value: history.peak as i64,
        },
        GaugeUpdateView { name: "system_swap_total_bytes"@, labels: Seq::empty(), value: swap_total as i64 },
        GaugeUpdateView { name: "system_swap_used_bytes"@, labels: Seq::empty(), value: swap_used as i64 },
    ]
}

/// The gauge updates of an integrated monitor's memory collection, from the
/// readings in bytes, the usage percentage and the history of used memory.
pub fn memory_report(
    total: u64,
    used: u64,
    available: u64,
    usage_percent: i64,
    swap_total: u64,
    swap_used: u64,
    history: &MemoryHistory,
) -> (r: Vec<GaugeUpdate>)
    requires
        seq_sum(history@.samples) <= u64::MAX,
    ensures
        r@.map_values(|u: GaugeUpdate| u@) == memory_report_view(
            total,
            used,
            available,
            usage_percent,
            swap_total,
            swap_used,
            history@,
        ),
{
    let avg = history.average();
    let mut r: Vec<GaugeUpdate> = Vec::new();
    r.push(GaugeUpdate::plain("system_memory_total_bytes", total as i64));
    r.push(GaugeUpdate::plain("system_memory_used_bytes", used as i64));
    r.push(GaugeUpdate::plain("system_memory_available_bytes", available as i64));
    r.push(GaugeUpdate::plain("system_memory_usage_percent", usage_percent));
    r.push(GaugeUpdate::plain("system_memory_used_avg_bytes", avg as i64));
    r.push(GaugeUpdate::plain("system_memory_used_peak_bytes", history.peak() as i64));
    r.push(GaugeUpdate::plain("system_swap_total_bytes", swap_total as i64));
    r.push(GaugeUpdate::plain("system_swap_used_bytes", swap_used as i64));
    assert(r@.map_values(|u: GaugeUpdate| u@) =~= memory_report_view(
        total,
        used,
        available,
        usage_percent,
        swap_total,
        swap_used,
        history@,
    ));
    r
}

/// The gauge updates of an integrated monitor's process collection.
pub open spec fn process_report_view(
    cpu: i64,
    cpu_average: i64,
    cpu_peak: i64,
    memory: u64,
    history: MemoryHistoryView,
    virtual_memory: u64,
) -> Seq<GaugeUpdateView> {
    let avg = if history.samples.len() == 0 {
        0
    } else {
        seq_sum(history.samples) / history.samples.len()
    };
    seq![
        GaugeUpdateView { name: "process_cpu_usage_percent"@, labels: Seq::empty(), value: cpu },
        GaugeUpdateView { name: "process_cpu_usage_avg_percent"@, labels: Seq::empty(), value: cpu_average },
        GaugeUpdateView { name: "process_cpu_usage_peak_percent"@, labels: Seq::empty(), value: cpu_peak },
        GaugeUpdateView { name: "process_memory_bytes"@, labels: Seq::empty(), value: memory as i64 },
        GaugeUpdateView { name: "process_memory_avg_bytes"@, labels: Seq::empty(), value: avg as u64 as i64 },
        GaugeUpdateView {
            name: "process_memory_peak_bytes"@,
            labels: Seq::empty(),
            value: history.peak as i64,
        },
        GaugeUpdateView {
            name: "process_virtual_memory_bytes"@,
            labels: Seq::empty(),
            value: virtual_memory as i64,
        },
    ]
}

/// The gauge updates of an integrated monitor's process collection, from
/// the process's CPU usage (current, average, peak; percent converted to
/// integers), its memory with the history of it, and its virtual memory.
pub fn process_report(
    cpu: i64,
    cpu_average: i64,
    cpu_peak: i64,
    memory: u64,
    history: &MemoryHistory,
    virtual_memory: u64,
) -> (r: Vec<GaugeUpdate>)
    requires
        seq_sum(history@.samples) <= u64::MAX,
    ensures
        r@.map_values(|u: GaugeUpdate| u@) == process_report_view(
            cpu,
            cpu_average,
            cpu_peak,
            memory,
            history@,
            virtual_memory,
        ),
{
    let avg = history.average();
    let mut r: Vec<GaugeUpdate> = Vec::new();
    r.push(GaugeUpdate::plain("process_cpu_usage_percent", cpu));
    r.push(GaugeUpdate::plain("process_cpu_usage_avg_percent", cpu_average));
    r.push(GaugeUpdate::plain("process_cpu_usage_peak_percent", cpu_peak));
    r.push(GaugeUpdate::plain("process_memory_bytes", memory as i64));
    r.push(GaugeUpdate::plain("process_memory_avg_bytes", avg as i64));
    r.push(GaugeUpdate::plain("process_memory_peak_bytes", history.peak() as i64));
    r.push(GaugeUpdate::plain("process_virtual_memory_bytes", virtual_memory as i64));
    assert(r@.map_values(|u: GaugeUpdate| u@) =~= process_report_view(
        cpu,
        cpu_average,
        cpu_peak,
        memory,
        history@,
        virtual_memory,
    ));
    r
}

} // verus!
