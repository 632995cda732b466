//! Metric registry for managing metrics

use vstd::prelude::*;
use crate::base::clock::{
    duration_as_nanos, duration_as_secs, duration_from_secs, duration_nanos, instant_now, nanos_per_sec,
    nanos_since, unix_millis_now,
};
use crate::base::error::MonitoringError;
use crate::base::labels::{debug_labels, merge_pairs, pairs_to_map, Labels};
use crate::base::metric::{
    float_of_integer, Counter, FloatValue, Gauge, Metric, MetricType, MetricValue, MetricValueView,
    MetricView,
};
use crate::base::text::str_equal;

verus! {

/// What an entry of the registry holds.
pub enum StoredValue {
    Counter(u64),
    Gauge(i64),
    Metric(MetricView),
}

/// The abstract content of a registry entry.
pub struct EntryView {
    pub name: Seq<char>,
    pub labels: Seq<(Seq<char>, Seq<char>)>,
    pub help: Seq<char>,
    pub value: StoredValue,
}

/// The identity of a metric: its name and its label map.
pub open spec fn id_of(e: EntryView) -> (Seq<char>, Map<Seq<char>, Seq<char>>) {
    (e.name, pairs_to_map(e.labels))
}

/// Whether some entry has the identity `id`.
pub open spec fn has_id(es: Seq<EntryView>, id: (Seq<char>, Map<Seq<char>, Seq<char>>)) -> bool {
    exists|i: int| 0 <= i < es.len() && id_of(#[trigger] es[i]) == id
}

/// No two entries share an identity.
pub open spec fn unique_ids(es: Seq<EntryView>) -> bool {
    forall|i: int, j: int| 0 <= i < j < es.len() ==> id_of(#[trigger] es[i]) != id_of(#[trigger] es[j])
}

/// A stored metric carries the name and labels of its entry.
pub open spec fn entry_consistent(e: EntryView) -> bool {
    match e.value {
        StoredValue::Metric(m) => m.name == e.name && m.labels == e.labels,
        _ => true,
    }
}

/// Every stored metric carries the name and labels of its entry.
pub open spec fn entries_consistent(es: Seq<EntryView>) -> bool {
    forall|i: int| 0 <= i < es.len() ==> #[trigger] entry_consistent(es[i])
}

/// The abstract content of a registry.
pub struct RegistryView {
    /// The metrics, in registration order.
    pub entries: Seq<EntryView>,
    /// When each metric was last used (nanoseconds of the registry's clock).
    pub accessed: Seq<u128>,
    /// Labels merged under the labels of every counter and gauge created.
    pub default_labels: Seq<(Seq<char>, Seq<char>)>,
    /// Maximum number of metrics (0: no limit).
    pub max_cardinality: usize,
    /// Time after which an unused metric expires.
    pub ttl: std::time::Duration,
    /// How often the limit turned away a get-or-create.
    pub rejections: u64,
}

/// Whether a registry is full: there is a limit and it is reached.
pub open spec fn at_capacity(v: RegistryView) -> bool {
    v.max_cardinality > 0 && v.entries.len() >= v.max_cardinality
}

/// Two registry states agree on everything but entries, access times and
/// rejections.
pub open spec fn same_settings(a: RegistryView, b: RegistryView) -> bool {
    &&& a.default_labels == b.default_labels
    &&& a.max_cardinality == b.max_cardinality
    &&& a.ttl == b.ttl
}

/// `b` is `a` with the entry `e` added last, used at some time.
pub open spec fn pushed(a: RegistryView, b: RegistryView, e: EntryView) -> bool {
    &&& same_settings(a, b)
    &&& b.rejections == a.rejections
    &&& b.entries == a.entries.push(e)
    &&& b.accessed.len() == a.accessed.len() + 1
    &&& b.accessed.take(a.accessed.len() as int) == a.accessed
}

/// `b` is `a` with entry `i` replaced by `e` and used again.
pub open spec fn replaced(a: RegistryView, b: RegistryView, i: int, e: EntryView) -> bool {
    &&& same_settings(a, b)
    &&& b.rejections == a.rejections
    &&& b.entries == a.entries.update(i, e)
    &&& b.accessed.len() == a.accessed.len()
    &&& forall|j: int| 0 <= j < a.accessed.len() && j != i ==> b.accessed[j] == a.accessed[j]
}

/// The entry `e` holding `v` instead.
pub open spec fn with_value(e: EntryView, v: StoredValue) -> EntryView {
    EntryView { name: e.name, labels: e.labels, help: e.help, value: v }
}

/// The metric that collecting the entry `e` at time `ts` reports.
pub open spec fn entry_metric(e: EntryView, ts: i64) -> MetricView {
    match e.value {
        StoredValue::Counter(v) => MetricView {
            name: e.name,
            metric_type: MetricType::Counter,
            help: e.help,
            labels: e.labels,
            value: MetricValueView::Uint(v),
            timestamp: ts,
        },
        StoredValue::Gauge(v) => MetricView {
            name: e.name,
            metric_type: MetricType::Gauge,
            help: e.help,
            labels: e.labels,
            value: MetricValueView::Float(float_of_integer(v as int)),
            timestamp: ts,
        },
        StoredValue::Metric(m) => m,
    }
}

/// The metrics that collecting entries `es` at time `ts` reports.
pub open spec fn collected(es: Seq<EntryView>, ts: i64) -> Seq<MetricView> {
    es.map_values(|e: EntryView| entry_metric(e, ts))
}

/// The entries and access times that remain after removing those of `v`
/// that are expired at `now`.
pub open spec fn cleanup_result(v: RegistryView, now: u128) -> (Seq<EntryView>, Seq<u128>) {
    keep_fresh(v.entries, v.accessed, now, duration_nanos(v.ttl))
}

/// Metrics expire: the time-to-live is not zero.
pub open spec fn ttl_enabled(v: RegistryView) -> bool {
    duration_nanos(v.ttl) > 0
}

/// The entries and access times that a collection at `now` keeps: with a
/// time-to-live, those still fresh; otherwise all.
pub open spec fn collect_kept(v: RegistryView, now: u128) -> (Seq<EntryView>, Seq<u128>) {
    if ttl_enabled(v) {
        cleanup_result(v, now)
    } else {
        (v.entries, v.accessed)
    }
}

/// `b` is `a` after a collection at `now`: the metrics that the collection
/// keeps, every one marked as used at `now`, with the same settings.
pub open spec fn collected_state(a: RegistryView, b: RegistryView, now: u128) -> bool {
    &&& b.entries == collect_kept(a, now).0
    &&& b.accessed == Seq::new(b.entries.len(), |i: int| now)
    &&& same_settings(a, b)
    &&& b.rejections == a.rejections
}

/// An entry used at `accessed` is still fresh at `now`.
pub open spec fn fresh(accessed: u128, now: u128, ttl_nanos: nat) -> bool {
    (if now >= accessed {
        now - accessed
    } else {
        0
    }) < ttl_nanos
}

/// The entries (with their access times) that are still fresh at `now`, in
/// order.
pub open spec fn keep_fresh(es: Seq<EntryView>, acc: Seq<u128>, now: u128, ttl_nanos: nat) -> (
    Seq<EntryView>,
    Seq<u128>,
)
    decreases es.len(),
{
    if es.len() == 0 || acc.len() == 0 {
        (Seq::empty(), Seq::empty())
    } else {
        let rest = keep_fresh(es.drop_first(), acc.drop_first(), now, ttl_nanos);
        if fresh(acc[0], now, ttl_nanos) {
            (seq![es[0]] + rest.0, seq![acc[0]] + rest.1)
        } else {
            rest
        }
    }
}

proof fn lemma_keep_fresh(es: Seq<EntryView>, acc: Seq<u128>, now: u128, ttl_nanos: nat)
    requires
        es.len() == acc.len(),
        unique_ids(es),
    ensures
        keep_fresh(es, acc, now, ttl_nanos).0.len() == keep_fresh(es, acc, now, ttl_nanos).1.len(),
        keep_fresh(es, acc, now, ttl_nanos).0.len() <= es.len(),
        unique_ids(keep_fresh(es, acc, now, ttl_nanos).0),
        forall|k: int|
            0 <= k < keep_fresh(es, acc, now, ttl_nanos).0.len() ==> exists|j: int|
                0 <= j < es.len() && #[trigger] keep_fresh(es, acc, now, ttl_nanos).0[k] == es[j],
    decreases es.len(),
{
    if es.len() > 0 {
        let d = es.drop_first();
        assert(unique_ids(d)) by {
            assert forall|i: int, j: int| 0 <= i < j < d.len() implies id_of(#[trigger] d[i]) != id_of(
                #[trigger] d[j],
            ) by {
                assert(d[i] == es[i + 1] && d[j] == es[j + 1]);
            }
        }
        lemma_keep_fresh(d, acc.drop_first(), now, ttl_nanos);
        let rest = keep_fresh(d, acc.drop_first(), now, ttl_nanos);
        if fresh(acc[0], now, ttl_nanos) {
            let r = seq![es[0]] + rest.0;
            assert forall|k: int| 0 <= k < r.len() implies exists|j: int|
                0 <= j < es.len() && #[trigger] r[k] == es[j] by {
                if k == 0 {
                    assert(r[0] == es[0]);
                } else {
                    assert(r[k] == rest.0[k - 1]);
                    let j = choose|j: int| 0 <= j < d.len() && rest.0[k - 1] == d[j];
                    assert(r[k] == es[j + 1]);
                }
            }
            assert forall|i: int, j: int| 0 <= i < j < r.len() implies id_of(#[trigger] r[i]) != id_of(
                #[trigger] r[j],
            ) by {
                if i == 0 {
                    assert(r[j] == rest.0[j - 1]);
                    let jj = choose|jj: int| 0 <= jj < d.len() && rest.0[j - 1] == d[jj];
                    assert(r[j] == es[jj + 1]);
                    assert(id_of(es[0]) != id_of(es[jj + 1]));
                } else {
                    assert(r[i] == rest.0[i - 1] && r[j] == rest.0[j - 1]);
                }
            }
        } else {
            assert forall|k: int| 0 <= k < rest.0.len() implies exists|j: int|
                0 <= j < es.len() && #[trigger] rest.0[k] == es[j] by {
                let j = choose|j: int| 0 <= j < d.len() && rest.0[k] == d[j];
                assert(rest.0[k] == es[j + 1]);
            }
        }
    }
}

proof fn lemma_keep_fresh_times(es: Seq<EntryView>, acc: Seq<u128>, now: u128, ttl_nanos: nat)
    ensures
        forall|k: int|
            0 <= k < keep_fresh(es, acc, now, ttl_nanos).1.len() ==> fresh(
                #[trigger] keep_fresh(es, acc, now, ttl_nanos).1[k],
                now,
                ttl_nanos,
            ),
    decreases es.len(),
{
    if es.len() > 0 && acc.len() > 0 {
        lemma_keep_fresh_times(es.drop_first(), acc.drop_first(), now, ttl_nanos);
        let rest = keep_fresh(es.drop_first(), acc.drop_first(), now, ttl_nanos);
        if fresh(acc[0], now, ttl_nanos) {
            let t = seq![acc[0]] + rest.1;
            assert forall|k: int| 0 <= k < t.len() implies fresh(#[trigger] t[k], now, ttl_nanos) by {
                if k > 0 {
                    assert(t[k] == rest.1[k - 1]);
                }
            }
        }
    }
}

/// Removing expired metrics at a time no earlier than any recorded use
/// forgets every metric left unused for the time-to-live: each metric
/// that remains was used less than the time-to-live before every use the
/// registry had recorded, so one used `ttl` or more before another is gone.
pub proof fn law_cleanup_forgets_metrics_idle_past_a_later_use(v: RegistryView, now: u128)
    requires
        forall|i: int| 0 <= i < v.accessed.len() ==> #[trigger] v.accessed[i] <= now,
    ensures
        forall|k: int, j: int|
            0 <= k < cleanup_result(v, now).1.len() && 0 <= j < v.accessed.len() ==>
                #[trigger] cleanup_result(v, now).1[k] + duration_nanos(v.ttl) > #[trigger] v.accessed[j],
{
    lemma_keep_fresh_times(v.entries, v.accessed, now, duration_nanos(v.ttl));
    assert forall|k: int, j: int|
        0 <= k < cleanup_result(v, now).1.len() && 0 <= j < v.accessed.len() implies
            #[trigger] cleanup_result(v, now).1[k] + duration_nanos(v.ttl) > #[trigger] v.accessed[j] by {
        let a = cleanup_result(v, now).1[k];
        assert(fresh(a, now, duration_nanos(v.ttl)));
        assert(v.accessed[j] <= now);
    }
}

proof fn lemma_keep_fresh_twice(es: Seq<EntryView>, acc: Seq<u128>, now: u128, ttl_nanos: nat)
    ensures
        ({
            let k = keep_fresh(es, acc, now, ttl_nanos);
            keep_fresh(k.0, k.1, now, ttl_nanos) == k
        }),
    decreases es.len(),
{
    if es.len() > 0 && acc.len() > 0 {
        let rest = keep_fresh(es.drop_first(), acc.drop_first(), now, ttl_nanos);
        lemma_keep_fresh_twice(es.drop_first(), acc.drop_first(), now, ttl_nanos);
        if fresh(acc[0], now, ttl_nanos) {
            let k0 = seq![es[0]] + rest.0;
            let k1 = seq![acc[0]] + rest.1;
            assert(k0.drop_first() =~= rest.0);
            assert(k1.drop_first() =~= rest.1);
            assert(k0[0] == es[0] && k1[0] == acc[0]);
        }
    }
}

/// Removing expired metrics twice at the same moment removes nothing the
/// second time: the registry left by a cleanup at `now` is its own cleanup
/// at `now`.
pub proof fn law_cleanup_is_idempotent(v: RegistryView, now: u128)
    ensures
        ({
            let c = cleanup_result(v, now);
            cleanup_result(RegistryView { entries: c.0, accessed: c.1, ..v }, now) == c
        }),
{
    lemma_keep_fresh_twice(v.entries, v.accessed, now, duration_nanos(v.ttl));
}

/// A cleanup only removes metrics: what remains is at most what was there,
/// every remaining metric was there before, and identities stay unique.
pub proof fn law_cleanup_only_removes(v: RegistryView, now: u128)
    requires
        v.entries.len() == v.accessed.len(),
        unique_ids(v.entries),
    ensures
        cleanup_result(v, now).0.len() <= v.entries.len(),
        cleanup_result(v, now).0.len() == cleanup_result(v, now).1.len(),
        unique_ids(cleanup_result(v, now).0),
        forall|k: int|
            0 <= k < cleanup_result(v, now).0.len() ==> v.entries.contains(
                #[trigger] cleanup_result(v, now).0[k],
            ),
{
    lemma_keep_fresh(v.entries, v.accessed, now, duration_nanos(v.ttl));
    assert forall|k: int| 0 <= k < cleanup_result(v, now).0.len() implies v.entries.contains(
        #[trigger] cleanup_result(v, now).0[k],
    ) by {
        let kf = keep_fresh(v.entries, v.accessed, now, duration_nanos(v.ttl));
        assert(cleanup_result(v, now).0[k] == kf.0[k]);
        let j = choose|j: int| 0 <= j < v.entries.len() && kf.0[k] == v.entries[j];
        assert(v.entries[j] == cleanup_result(v, now).0[k]);
    }
}

/// Registering a metric whose identity is new keeps identities unique, and
/// the metric is then found under its identity, so registering it again is
/// refused.
pub proof fn law_registered_metric_is_found(a: RegistryView, b: RegistryView, e: EntryView)
    requires
        unique_ids(a.entries),
        !has_id(a.entries, id_of(e)),
        pushed(a, b, e),
    ensures
        unique_ids(b.entries),
        has_id(b.entries, id_of(e)),
{
    let s = a.entries.push(e);
    assert forall|i: int, j: int| 0 <= i < j < s.len() implies id_of(#[trigger] s[i]) != id_of(
        #[trigger] s[j],
    ) by {
        if j == a.entries.len() {
            assert(s[i] == a.entries[i]);
        } else {
            assert(s[i] == a.entries[i] && s[j] == a.entries[j]);
        }
    }
    assert(b.entries[a.entries.len() as int] == e);
}

/// Unregistering the metric that a registration just added gives back the
/// metrics and access times from before the registration.
pub proof fn law_unregister_undoes_register(a: RegistryView, b: RegistryView, e: EntryView, i: int)
    requires
        a.entries.len() == a.accessed.len(),
        unique_ids(b.entries),
        pushed(a, b, e),
        0 <= i < b.entries.len(),
        id_of(b.entries[i]) == id_of(e),
    ensures
        b.entries.remove(i) == a.entries,
        b.accessed.remove(i) == a.accessed,
{
    let n = a.entries.len() as int;
    assert(b.entries[n] == e);
    if i < n {
        assert(id_of(b.entries[i]) != id_of(b.entries[n]));
    }
    assert(b.entries.remove(i) =~= a.entries);
    assert(b.accessed.remove(i) =~= b.accessed.take(n));
}

/// The identity under which a collected metric is reported.
pub open spec fn metric_id(m: MetricView) -> (Seq<char>, Map<Seq<char>, Seq<char>>) {
    (m.name, pairs_to_map(m.labels))
}

/// Once a metric is unregistered, no later collection reports a metric
/// with its name and label map, whether or not expired metrics are dropped
/// first and whatever the time of the collection.
pub proof fn law_unregistered_metric_is_not_collected(
    es: Seq<EntryView>,
    i: int,
    v: RegistryView,
    now: u128,
    ts: i64,
)
    requires
        unique_ids(es),
        entries_consistent(es),
        0 <= i < es.len(),
        v.entries == es.remove(i),
        v.entries.len() == v.accessed.len(),
    ensures
        forall|k: int|
            0 <= k < collected(collect_kept(v, now).0, ts).len() ==> metric_id(
                #[trigger] collected(collect_kept(v, now).0, ts)[k],
            ) != id_of(es[i]),
{
    let r = v.entries;
    assert(unique_ids(r)) by {
        assert forall|a: int, b: int| 0 <= a < b < r.len() implies id_of(#[trigger] r[a]) != id_of(
            #[trigger] r[b],
        ) by {
            let oa = if a < i { a } else { a + 1 };
            let ob = if b < i { b } else { b + 1 };
            assert(r[a] == es[oa] && r[b] == es[ob]);
        }
    }
    lemma_keep_fresh(r, v.accessed, now, duration_nanos(v.ttl));
    let kept = collect_kept(v, now).0;
    assert forall|k: int| 0 <= k < collected(kept, ts).len() implies metric_id(
        #[trigger] collected(kept, ts)[k],
    ) != id_of(es[i]) by {
        let j: int = if ttl_enabled(v) {
            let kf = keep_fresh(r, v.accessed, now, duration_nanos(v.ttl));
            assert(kept[k] == kf.0[k]);
            choose|j: int| 0 <= j < r.len() && kf.0[k] == r[j]
        } else {
            k
        };
        assert(kept[k] == r[j]);
        let oj = if j < i { j } else { j + 1 };
        assert(r[j] == es[oj]);
        assert(entry_consistent(es[oj]));
        if oj < i {
            assert(id_of(es[oj]) != id_of(es[i]));
        } else {
            assert(id_of(es[i]) != id_of(es[oj]));
        }
        assert(metric_id(collected(kept, ts)[k]) == id_of(es[oj]));
    }
}

proof fn lemma_value_update_unique(es: Seq<EntryView>, i: int)
    requires
        unique_ids(es),
        0 <= i < es.len(),
    ensures
        forall|v: StoredValue| #[trigger] unique_ids(es.update(i, with_value(es[i], v))),
{
    assert forall|v: StoredValue| #[trigger] unique_ids(es.update(i, with_value(es[i], v))) by {
        let u = es.update(i, with_value(es[i], v));
        assert forall|a: int, b: int| 0 <= a < b < u.len() implies id_of(#[trigger] u[a]) != id_of(
            #[trigger] u[b],
        ) by {
            assert(id_of(u[a]) == id_of(es[a]));
            assert(id_of(u[b]) == id_of(es[b]));
        }
    }
}

proof fn lemma_value_update_consistent(es: Seq<EntryView>, i: int)
    requires
        entries_consistent(es),
        0 <= i < es.len(),
    ensures
        forall|v: StoredValue| !(v is Metric) ==> #[trigger] entries_consistent(es.update(i, with_value(es[i], v))),
{
    assert forall|v: StoredValue| !(v is Metric) implies #[trigger] entries_consistent(es.update(i, with_value(es[i], v))) by {
        let u = es.update(i, with_value(es[i], v));
        assert forall|k: int| 0 <= k < u.len() implies #[trigger] entry_consistent(u[k]) by {
            if k != i {
                assert(u[k] == es[k]);
            }
        }
    }
}

#[derive(Debug)]
enum MetricStorage {
    Counter(Counter),
    Gauge(Gauge),
    Metric(Metric),
}

#[derive(Debug)]
struct MetricEntry {
    name: String,
    labels: Labels,
    storage: MetricStorage,
    help: String,
    last_accessed: u128,
}

spec fn storage_view(s: MetricStorage) -> StoredValue {
    match s {
        MetricStorage::Counter(c) => StoredValue::Counter(c@),
        MetricStorage::Gauge(g) => StoredValue::Gauge(g@),
        MetricStorage::Metric(m) => StoredValue::Metric(m@),
    }
}

spec fn entry_view(e: MetricEntry) -> EntryView {
    EntryView { name: e.name@, labels: e.labels.pairs(), help: e.help@, value: storage_view(e.storage) }
}

/// Registry for managing metrics: each metric is identified by its name and
/// its label map, and a cardinality limit bounds how many there can be.
#[derive(Debug)]
pub struct MetricRegistry {
    entries: Vec<MetricEntry>,
    default_labels: Labels,
    max_cardinality: usize,
    metric_ttl: std::time::Duration,
    ttl_nanos: u128,
    clock: std::time::Instant,
    cardinality_rejections: u64,
    detached_counter: Counter,
    detached_gauge: Gauge,
}

impl View for MetricRegistry {
    type V = RegistryView;

    closed spec fn view(&self) -> RegistryView {
        RegistryView {
            entries: self.entries@.map_values(|e: MetricEntry| entry_view(e)),
            accessed: self.entries@.map_values(|e: MetricEntry| e.last_accessed),
            default_labels: self.default_labels.pairs(),
            max_cardinality: self.max_cardinality,
            ttl: self.metric_ttl,
            rejections: self.cardinality_rejections,
        }
    }
}

impl MetricRegistry {
    /// The registry is consistent: identities are unique, the limit holds
    /// and the stored time-to-live is the configured one.
    pub closed spec fn wf(&self) -> bool {
        &&& unique_ids(self@.entries)
        &&& entries_consistent(self@.entries)
        &&& (self.max_cardinality > 0 ==> self.entries.len() <= self.max_cardinality)
        &&& self.ttl_nanos == duration_nanos(self.metric_ttl)
    }

    /// What a consistent registry guarantees of its view: unique identities,
    /// stored metrics that carry their entry's name and labels, one access
    /// time per metric, and the cardinality limit.
    pub proof fn lemma_wf_view(&self)
        requires
            self.wf(),
        ensures
            unique_ids(self@.entries),
            entries_consistent(self@.entries),
            self@.entries.len() == self@.accessed.len(),
            self@.max_cardinality > 0 ==> self@.entries.len() <= self@.max_cardinality,
    {
    }

    /// Create a new metric registry with default cardinality limit (10,000)
    pub fn new() -> (r: Self)
        ensures
            r.wf(),
            r@.entries.len() == 0,
            r@.default_labels.len() == 0,
            r@.max_cardinality == 10_000,
            duration_nanos(r@.ttl) == 0,
            r@.rejections == 0,
    {
        Self::with_max_cardinality(10_000)
    }

    /// Create a new metric registry with custom cardinality limit (0 for no
    /// limit) and no expiry.
    pub fn with_max_cardinality(max_cardinality: usize) -> (r: Self)
        ensures
            r.wf(),
            r@.entries.len() == 0,
            r@.default_labels.len() == 0,
            r@.max_cardinality == max_cardinality,
            duration_nanos(r@.ttl) == 0,
            r@.rejections == 0,
    {
        Self::with_ttl(max_cardinality, duration_from_secs(0))
    }

    /// Create a new metric registry with custom cardinality limit (0 for no
    /// limit) and time-to-live for unused metrics (0 for no expiry).
    pub fn with_ttl(max_cardinality: usize, ttl: std::time::Duration) -> (r: Self)
        ensures
            r.wf(),
            r@.entries.len() == 0,
            r@.default_labels.len() == 0,
            r@.max_cardinality == max_cardinality,
            r@.ttl == ttl,
            r@.rejections == 0,
    {
        let r = MetricRegistry {
            entries: Vec::new(),
            default_labels: Labels::new(),
            max_cardinality,
            metric_ttl: ttl,
            ttl_nanos: duration_as_nanos(&ttl),
            clock: instant_now(),
            cardinality_rejections: 0,
            detached_counter: Counter::new(),
            detached_gauge: Gauge::new(),
        };
        assert(r@.entries =~= Seq::<EntryView>::empty());
        r
    }

    /// The registry clock's reading, never earlier than a recorded use: the
    /// clock does not go back, so this is the reading itself.
    fn now(&self) -> (r: u128)
        ensures
            forall|i: int| 0 <= i < self@.accessed.len() ==> #[trigger] self@.accessed[i] <= r,
    {
        let mut r = nanos_since(&self.clock);
        let n = self.entries.len();
        for k in 0..n
            invariant
                n == self.entries@.len(),
                forall|i: int| 0 <= i < k ==> #[trigger] self@.accessed[i] <= r,
        {
            if self.entries[k].last_accessed > r {
                r = self.entries[k].last_accessed;
            }
        }
        r
    }

    /// Set default labels applied to all metrics
    pub fn set_default_labels(&mut self, labels: Labels)
        requires
            old(self).wf(),
        ensures
            final(self).wf(),
            final(self)@.default_labels == labels.pairs(),
            final(self)@.entries == old(self)@.entries,
            final(self)@.accessed == old(self)@.accessed,
            final(self)@.max_cardinality == old(self)@.max_cardinality,
            final(self)@.ttl == old(self)@.ttl,
            final(self)@.rejections == old(self)@.rejections,
    {
        self.default_labels = labels;
    }

    /// Get default labels
    pub fn get_default_labels(&self) -> (r: Labels)
        ensures
            r.pairs() == self@.default_labels,
    {
        self.default_labels.duplicate()
    }

    fn check_cardinality(&self, current_count: usize) -> (r: Result<(), MonitoringError>)
        ensures
            (self.max_cardinality > 0 && current_count >= self.max_cardinality) ==> r == Err::<
                (),
                MonitoringError,
            >(
                MonitoringError::CardinalityLimitExceeded {
                    limit: self.max_cardinality,
                    current: current_count,
                },
            ),
            !(self.max_cardinality > 0 && current_count >= self.max_cardinality) ==> r is Ok,
    {
        if self.max_cardinality > 0 && current_count >= self.max_cardinality {
            return Err(
                MonitoringError::cardinality_limit_exceeded(self.max_cardinality, current_count),
            );
        }
        Ok(())
    }

    fn find(&self, name: &str, labels: &Labels) -> (r: Option<usize>)
        ensures
            r matches Some(i) ==> i < self@.entries.len() && id_of(self@.entries[i as int]) == (
                name@,
                labels@,
            ),
            r is None ==> !has_id(self@.entries, (name@, labels@)),
    {
        let n = self.entries.len();
        for i in 0..n
            invariant
                n == self.entries.len(),
                forall|j: int| 0 <= j < i ==> id_of(#[trigger] self@.entries[j]) != (name@, labels@),
        {
            let e = &self.entries[i];
            assert(self@.entries[i as int] == entry_view(self.entries@[i as int]));
            if str_equal(e.name.as_str(), name) && e.labels.same_as(labels) {
                return Some(i);
            }
        }
        None
    }

    proof fn lemma_push_unique(es: Seq<EntryView>, e: EntryView)
        requires
            unique_ids(es),
            !has_id(es, id_of(e)),
        ensures
            unique_ids(es.push(e)),
    {
        let s = es.push(e);
        assert forall|i: int, j: int| 0 <= i < j < s.len() implies id_of(#[trigger] s[i]) != id_of(
            #[trigger] s[j],
        ) by {
            if j == es.len() {
                assert(s[i] == es[i]);
            } else {
                assert(s[i] == es[i] && s[j] == es[j]);
            }
        }
    }

    fn push_entry(&mut self, entry: MetricEntry)
        requires
            old(self).wf(),
            !has_id(old(self)@.entries, id_of(entry_view(entry))),
            !at_capacity(old(self)@),
            entry_consistent(entry_view(entry)),
        ensures
            final(self).wf(),
            final(self)@.entries == old(self)@.entries.push(entry_view(entry)),
            final(self)@.accessed == old(self)@.accessed.push(entry.last_accessed),
            same_settings(old(self)@, final(self)@),
            final(self)@.rejections == old(self)@.rejections,
            final(self).detached_counter == old(self).detached_counter,
            final(self).detached_gauge == old(self).detached_gauge,
    {
        proof {
            Self::lemma_push_unique(self@.entries, entry_view(entry));
        }
        let ghost e = entry;
        self.entries.push(entry);
        assert(self@.entries =~= old(self)@.entries.push(entry_view(e)));
        assert(self@.accessed =~= old(self)@.accessed.push(e.last_accessed));
        assert forall|k: int| 0 <= k < self@.entries.len() implies #[trigger] entry_consistent(self@.entries[k]) by {
            if k < old(self)@.entries.len() {
                assert(self@.entries[k] == old(self)@.entries[k]);
            }
        }
    }

    /// Register a counter metric under `name` and the default labels merged
    /// with `labels`.
    pub fn register_counter(&mut self, name: &str, help: &str, labels: Labels) -> (r: Result<
        &mut Counter,
        MonitoringError,
    >)
        requires
            old(self).wf(),
        ensures
            final(self).wf(),
            ({
                let merged = merge_pairs(old(self)@.default_labels, labels.pairs());
                let id = (name@, pairs_to_map(merged));
                &&& has_id(old(self)@.entries, id) ==> (final(self)@ == old(self)@ && (r matches Err(
                    MonitoringError::AlreadyExists { name: n, labels: l },
                ) && n@ == name@ && l@ == debug_labels(merged)))
                &&& !has_id(old(self)@.entries, id) && at_capacity(old(self)@) ==> final(self)@
                    == old(self)@ && r == Err::<&mut Counter, MonitoringError>(
                    MonitoringError::CardinalityLimitExceeded {
                        limit: old(self)@.max_cardinality,
                        current: old(self)@.entries.len() as usize,
                    },
                )
                &&& !has_id(old(self)@.entries, id) && !at_capacity(old(self)@) ==> (r matches Ok(c)
                    && (*c)@ == 0 && pushed(
                    old(self)@,
                    final(self)@,
                    EntryView {
                        name: name@,
                        labels: merged,
                        help: help@,
                        value: StoredValue::Counter((*final(c))@),
                    },
                ))
            }),
    {
        let merged = self.default_labels.merged(&labels);
        if self.find(name, &merged).is_some() {
            return Err(MonitoringError::already_exists(name, merged.debug_text().as_str()));
        }
        let len = self.entries.len();
        match self.check_cardinality(len) {
            Err(e) => {
                return Err(e);
            },
            Ok(()) => {},
        }
        let now = self.now();
        let entry = MetricEntry {
            name: name.to_string(),
            labels: merged,
            storage: MetricStorage::Counter(Counter::new()),
            help: help.to_string(),
            last_accessed: now,
        };
        self.push_entry(entry);
        proof {
            let es = old(self)@.entries;
            assert forall|x: EntryView| #[trigger] es.push(self@.entries[len as int]).update(len as int, x)
                =~= es.push(x) by {}
            assert(self@.accessed.take(len as int) =~= old(self)@.accessed);
        }
        Ok(self.counter_slot(len))
    }

    /// Register a gauge metric under `name` and the default labels merged
    /// with `labels`.
    pub fn register_gauge(&mut self, name: &str, help: &str, labels: Labels) -> (r: Result<
        &mut Gauge,
        MonitoringError,
    >)
        requires
            old(self).wf(),
        ensures
            final(self).wf(),
            ({
                let merged = merge_pairs(old(self)@.default_labels, labels.pairs());
                let id = (name@, pairs_to_map(merged));
                &&& has_id(old(self)@.entries, id) ==> (final(self)@ == old(self)@ && (r matches Err(
                    MonitoringError::AlreadyExists { name: n, labels: l },
                ) && n@ == name@ && l@ == debug_labels(merged)))
                &&& !has_id(old(self)@.entries, id) && at_capacity(old(self)@) ==> final(self)@
                    == old(self)@ && r == Err::<&mut Gauge, MonitoringError>(
                    MonitoringError::CardinalityLimitExceeded {
                        limit: old(self)@.max_cardinality,
                        current: old(self)@.entries.len() as usize,
                    },
                )
                &&& !has_id(old(self)@.entries, id) && !at_capacity(old(self)@) ==> (r matches Ok(g)
                    && (*g)@ == 0 && pushed(
                    old(self)@,
                    final(self)@,
                    EntryView {
                        name: name@,
                        labels: merged,
                        help: help@,
                        value: StoredValue::Gauge((*final(g))@),
                    },
                ))
            }),
    {
        let merged = self.default_labels.merged(&labels);
        if self.find(name, &merged).is_some() {
            return Err(MonitoringError::already_exists(name, merged.debug_text().as_str()));
        }
        let len = self.entries.len();
        match self.check_cardinality(len) {
            Err(e) => {
                return Err(e);
            },
            Ok(()) => {},
        }
        let now = self.now();
        let entry = MetricEntry {
            name: name.to_string(),
            labels: merged,
            storage: MetricStorage::Gauge(Gauge::new()),
            help: help.to_string(),
            last_accessed: now,
        };
        self.push_entry(entry);
        proof {
            let es = old(self)@.entries;
            assert forall|x: EntryView| #[trigger] es.push(self@.entries[len as int]).update(len as int, x)
                =~= es.push(x) by {}
            assert(self@.accessed.take(len as int) =~= old(self)@.accessed);
        }
        Ok(self.gauge_slot(len))
    }

    /// Register a fully built metric under its own name and labels (default
    /// labels are not merged in).
    pub fn register_metric(&mut self, metric: Metric) -> (r: Result<(), MonitoringError>)
        requires
            old(self).wf(),
        ensures
            final(self).wf(),
            ({
                let id = (metric.name@, metric.labels@);
                &&& has_id(old(self)@.entries, id) ==> (final(self)@ == old(self)@ && (r matches Err(
                    MonitoringError::AlreadyExists { name: n, labels: l },
                ) && n@ == metric.name@ && l@ == debug_labels(metric.labels.pairs())))
                &&& !has_id(old(self)@.entries, id) && at_capacity(old(self)@) ==> final(self)@
                    == old(self)@ && r == Err::<(), MonitoringError>(
                    MonitoringError::CardinalityLimitExceeded {
                        limit: old(self)@.max_cardinality,
                        current: old(self)@.entries.len() as usize,
                    },
                )
                &&& !has_id(old(self)@.entries, id) && !at_capacity(old(self)@) ==> r is Ok
                    && pushed(
                    old(self)@,
                    final(self)@,
                    EntryView {
                        name: metric.name@,
                        labels: metric.labels.pairs(),
                        help: metric.help@,
                        value: StoredValue::Metric(metric@),
                    },
                )
            }),
    {
        if self.find(metric.name.as_str(), &metric.labels).is_some() {
            return Err(
                MonitoringError::already_exists(
                    metric.name.as_str(),
                    metric.labels.debug_text().as_str(),
                ),
            );
        }
        let len = self.entries.len();
        match self.check_cardinality(len) {
            Err(e) => {
                return Err(e);
            },
            Ok(()) => {},
        }
        let now = self.now();
        let entry = MetricEntry {
            name: metric.name.clone(),
            labels: metric.labels.duplicate(),
            help: metric.help.clone(),
            storage: MetricStorage::Metric(metric),
            last_accessed: now,
        };
        self.push_entry(entry);
        assert(self@.accessed.take(len as int) =~= old(self)@.accessed);
        Ok(())
    }

    /// Sets the access time of entry `i` and makes it hold a counter,
    /// keeping the counter it holds if it holds one.
    fn touch_as_counter(&mut self, i: usize, now: u128)
        requires
            old(self).wf(),
            i < old(self)@.entries.len(),
        ensures
            final(self).wf(),
            final(self)@.entries == old(self)@.entries.update(
                i as int,
                if old(self)@.entries[i as int].value is Counter {
                    old(self)@.entries[i as int]
                } else {
                    with_value(old(self)@.entries[i as int], StoredValue::Counter(0))
                },
            ),
            final(self)@.accessed == old(self)@.accessed.update(i as int, now),
            same_settings(old(self)@, final(self)@),
            final(self)@.rejections == old(self)@.rejections,
    {
        assert(self@.entries[i as int] == entry_view(self.entries@[i as int]));
        let e = &mut self.entries[i];
        e.last_accessed = now;
        match &e.storage {
            MetricStorage::Counter(_) => {},
            _ => {
                e.storage = MetricStorage::Counter(Counter::new());
            },
        }
        proof {
            assert(self@.entries =~= old(self)@.entries.update(
                i as int,
                if old(self)@.entries[i as int].value is Counter {
                    old(self)@.entries[i as int]
                } else {
                    with_value(old(self)@.entries[i as int], StoredValue::Counter(0))
                },
            ));
            assert(self@.accessed =~= old(self)@.accessed.update(i as int, now));
            assert forall|a: int, b: int| 0 <= a < b < self@.entries.len() implies id_of(
                #[trigger] self@.entries[a],
            ) != id_of(#[trigger] self@.entries[b]) by {
                assert(id_of(self@.entries[a]) == id_of(old(self)@.entries[a]));
                assert(id_of(self@.entries[b]) == id_of(old(self)@.entries[b]));
            }
        }
    }

    /// Sets the access time of entry `i` and makes it hold a gauge, keeping
    /// the gauge it holds if it holds one.
    fn touch_as_gauge(&mut self, i: usize, now: u128)
        requires
            old(self).wf(),
            i < old(self)@.entries.len(),
        ensures
            final(self).wf(),
            final(self)@.entries == old(self)@.entries.update(
                i as int,
                if old(self)@.entries[i as int].value is Gauge {
                    old(self)@.entries[i as int]
                } else {
                    with_value(old(self)@.entries[i as int], StoredValue::Gauge(0))
                },
            ),
            final(self)@.accessed == old(self)@.accessed.update(i as int, now),
            same_settings(old(self)@, final(self)@),
            final(self)@.rejections == old(self)@.rejections,
    {
        assert(self@.entries[i as int] == entry_view(self.entries@[i as int]));
        let e = &mut self.entries[i];
        e.last_accessed = now;
        match &e.storage {
            MetricStorage::Gauge(_) => {},
            _ => {
                e.storage = MetricStorage::Gauge(Gauge::new());
            },
        }
        proof {
            assert(self@.entries =~= old(self)@.entries.update(
                i as int,
                if old(self)@.entries[i as int].value is Gauge {
                    old(self)@.entries[i as int]
                } else {
                    with_value(old(self)@.entries[i as int], StoredValue::Gauge(0))
                },
            ));
            assert(self@.accessed =~= old(self)@.accessed.update(i as int, now));
            assert forall|a: int, b: int| 0 <= a < b < self@.entries.len() implies id_of(
                #[trigger] self@.entries[a],
            ) != id_of(#[trigger] self@.entries[b]) by {
                assert(id_of(self@.entries[a]) == id_of(old(self)@.entries[a]));
                assert(id_of(self@.entries[b]) == id_of(old(self)@.entries[b]));
            }
        }
    }

    /// Get or create a counter under `name` and the default labels merged
    /// with `labels`.  An existing counter is returned; a metric of another
    /// kind under that identity is replaced by a new counter.  When a new
    /// counter would exceed the cardinality limit, the rejection is counted
    /// and a counter that the registry does not track is returned.
    pub fn get_or_create_counter(&mut self, name: &str, labels: Labels) -> (r: &mut Counter)
        requires
            old(self).wf(),
        ensures
            final(self).wf(),
            ({
                let merged = merge_pairs(old(self)@.default_labels, labels.pairs());
                let id = (name@, pairs_to_map(merged));
                let es = old(self)@.entries;
                &&& forall|i: int|
                    0 <= i < es.len() && id_of(#[trigger] es[i]) == id ==> (if es[i].value is Counter {
                        StoredValue::Counter((*r)@) == es[i].value
                    } else {
                        (*r)@ == 0
                    }) && replaced(
                        old(self)@,
                        final(self)@,
                        i,
                        with_value(es[i], StoredValue::Counter((*final(r))@)),
                    )
                &&& !has_id(es, id) && !at_capacity(old(self)@) ==> (*r)@ == 0 && pushed(
                    old(self)@,
                    final(self)@,
                    EntryView {
                        name: name@,
                        labels: merged,
                        help: Seq::empty(),
                        value: StoredValue::Counter((*final(r))@),
                    },
                )
                &&& !has_id(es, id) && at_capacity(old(self)@) ==> (*r)@ == 0 && final(self)@.entries == es && final(self)@.accessed == old(self)@.accessed && same_settings(
                    old(self)@,
                    final(self)@,
                ) && final(self)@.rejections == old(self)@.rejections.wrapping_add(1)
            }),
    {
        let now = self.now();
        self.get_or_create_counter_at(name, labels, now)
    }

    /// `get_or_create_counter` with `now` as the time of use, in nanoseconds
    /// of the registry's clock.
    pub fn get_or_create_counter_at(&mut self, name: &str, labels: Labels, now: u128) -> (r: &mut Counter)
        requires
            old(self).wf(),
        ensures
            final(self).wf(),
            ({
                let merged = merge_pairs(old(self)@.default_labels, labels.pairs());
                let id = (name@, pairs_to_map(merged));
                let es = old(self)@.entries;
                &&& forall|i: int|
                    0 <= i < es.len() && id_of(#[trigger] es[i]) == id ==> (if es[i].value is Counter {
                        StoredValue::Counter((*r)@) == es[i].value
                    } else {
                        (*r)@ == 0
                    }) && replaced(
                        old(self)@,
                        final(self)@,
                        i,
                        with_value(es[i], StoredValue::Counter((*final(r))@)),
                    ) && final(self)@.accessed[i] == now
                &&& !has_id(es, id) && !at_capacity(old(self)@) ==> (*r)@ == 0 && pushed(
                    old(self)@,
                    final(self)@,
                    EntryView {
                        name: name@,
                        labels: merged,
                        help: Seq::empty(),
                        value: StoredValue::Counter((*final(r))@),
                    },
                ) && final(self)@.accessed.last() == now
                &&& !has_id(es, id) && at_capacity(old(self)@) ==> (*r)@ == 0 && final(self)@.entries == es && final(self)@.accessed == old(self)@.accessed && same_settings(
                    old(self)@,
                    final(self)@,
                ) && final(self)@.rejections == old(self)@.rejections.wrapping_add(1)
            }),
    {
        let merged = self.default_labels.merged(&labels);
        match self.find(name, &merged) {
            Some(i) => {
                proof {
                    assert forall|j: int|
                        0 <= j < self@.entries.len() && id_of(#[trigger] self@.entries[j]) == id_of(
                            self@.entries[i as int],
                        ) implies j == i by {
                        if j < i {
                            assert(id_of(self@.entries[j]) != id_of(self@.entries[i as int]));
                        } else if j > i {
                            assert(id_of(self@.entries[i as int]) != id_of(self@.entries[j]));
                        }
                    }
                }
                self.touch_as_counter(i, now);
                proof {
                    let es = old(self)@.entries;
                    let mid = self@.entries[i as int];
                    assert forall|x: StoredValue| #[trigger] es.update(i as int, mid).update(
                        i as int,
                        with_value(mid, x),
                    ) =~= es.update(i as int, with_value(es[i as int], x)) by {}
                }
                self.counter_slot(i)
            },
            None => {
                let len = self.entries.len();
                if self.max_cardinality > 0 && len >= self.max_cardinality {
                    self.cardinality_rejections = self.cardinality_rejections.wrapping_add(1);
                    self.detached_counter = Counter::new();
                    return &mut self.detached_counter;
                }
                let entry = MetricEntry {
                    name: name.to_string(),
                    labels: merged,
                    storage: MetricStorage::Counter(Counter::new()),
                    help: String::new(),
                    last_accessed: now,
                };
                self.push_entry(entry);
                proof {
                    let es = old(self)@.entries;
                    assert forall|x: EntryView| #[trigger] es.push(self@.entries[len as int]).update(
                        len as int,
                        x,
                    ) =~= es.push(x) by {}
                    assert(self@.accessed.take(len as int) =~= old(self)@.accessed);
                }
                self.counter_slot(len)
            },
        }
    }

    /// Get or create a gauge under `name` and the default labels merged with
    /// `labels`.  An existing gauge is returned; a metric of another kind
    /// under that identity is replaced by a new gauge.  When a new gauge
    /// would exceed the cardinality limit, the rejection is counted and a
    /// gauge that the registry does not track is returned.
    pub fn get_or_create_gauge(&mut self, name: &str, labels: Labels) -> (r: &mut Gauge)
        requires
            old(self).wf(),
        ensures
            final(self).wf(),
            ({
                let merged = merge_pairs(old(self)@.default_labels, labels.pairs());
                let id = (name@, pairs_to_map(merged));
                let es = old(self)@.entries;
                &&& forall|i: int|
                    0 <= i < es.len() && id_of(#[trigger] es[i]) == id ==> (if es[i].value is Gauge {
                        StoredValue::Gauge((*r)@) == es[i].value
                    } else {
                        (*r)@ == 0
                    }) && replaced(
                        old(self)@,
                        final(self)@,
                        i,
                        with_value(es[i], StoredValue::Gauge((*final(r))@)),
                    )
                &&& !has_id(es, id) && !at_capacity(old(self)@) ==> (*r)@ == 0 && pushed(
                    old(self)@,
                    final(self)@,
                    EntryView {
                        name: name@,
                        labels: merged,
                        help: Seq::empty(),
                        value: StoredValue::Gauge((*final(r))@),
                    },
                )
                &&& !has_id(es, id) && at_capacity(old(self)@) ==> (*r)@ == 0 && final(self)@.entries == es && final(self)@.accessed == old(self)@.accessed && same_settings(
                    old(self)@,
                    final(self)@,
                ) && final(self)@.rejections == old(self)@.rejections.wrapping_add(1)
            }),
    {
        let now = self.now();
        self.get_or_create_gauge_at(name, labels, now)
    }

    /// `get_or_create_gauge` with `now` as the time of use, in nanoseconds
    /// of the registry's clock.
    pub fn get_or_create_gauge_at(&mut self, name: &str, labels: Labels, now: u128) -> (r: &mut Gauge)
        requires
            old(self).wf(),
        ensures
            final(self).wf(),
            ({
                let merged = merge_pairs(old(self)@.default_labels, labels.pairs());
                let id = (name@, pairs_to_map(merged));
                let es = old(self)@.entries;
                &&& forall|i: int|
                    0 <= i < es.len() && id_of(#[trigger] es[i]) == id ==> (if es[i].value is Gauge {
                        StoredValue::Gauge((*r)@) == es[i].value
                    } else {
                        (*r)@ == 0
                    }) && replaced(
                        old(self)@,
                        final(self)@,
                        i,
                        with_value(es[i], StoredValue::Gauge((*final(r))@)),
                    ) && final(self)@.accessed[i] == now
                &&& !has_id(es, id) && !at_capacity(old(self)@) ==> (*r)@ == 0 && pushed(
                    old(self)@,
                    final(self)@,
                    EntryView {
                        name: name@,
                        labels: merged,
                        help: Seq::empty(),
                        value: StoredValue::Gauge((*final(r))@),
                    },
                ) && final(self)@.accessed.last() == now
                &&& !has_id(es, id) && at_capacity(old(self)@) ==> (*r)@ == 0 && final(self)@.entries == es && final(self)@.accessed == old(self)@.accessed && same_settings(
                    old(self)@,
                    final(self)@,
                ) && final(self)@.rejections == old(self)@.rejections.wrapping_add(1)
            }),
    {
        let merged = self.default_labels.merged(&labels);
        match self.find(name, &merged) {
            Some(i) => {
                proof {
                    assert forall|j: int|
                        0 <= j < self@.entries.len() && id_of(#[trigger] self@.entries[j]) == id_of(
                            self@.entries[i as int],
                        ) implies j == i by {
                        if j < i {
                            assert(id_of(self@.entries[j]) != id_of(self@.entries[i as int]));
                        } else if j > i {
                            assert(id_of(self@.entries[i as int]) != id_of(self@.entries[j]));
                        }
                    }
                }
                self.touch_as_gauge(i, now);
                proof {
                    let es = old(self)@.entries;
                    let mid = self@.entries[i as int];
                    assert forall|x: StoredValue| #[trigger] es.update(i as int, mid).update(
                        i as int,
                        with_value(mid, x),
                    ) =~= es.update(i as int, with_value(es[i as int], x)) by {}
                }
                self.gauge_slot(i)
            },
            None => {
                let len = self.entries.len();
                if self.max_cardinality > 0 && len >= self.max_cardinality {
                    self.cardinality_rejections = self.cardinality_rejections.wrapping_add(1);
                    self.detached_gauge = Gauge::new();
                    return &mut self.detached_gauge;
                }
                let entry = MetricEntry {
                    name: name.to_string(),
                    labels: merged,
                    storage: MetricStorage::Gauge(Gauge::new()),
                    help: String::new(),
                    last_accessed: now,
                };
                self.push_entry(entry);
                proof {
                    let es = old(self)@.entries;
                    assert forall|x: EntryView| #[trigger] es.push(self@.entries[len as int]).update(
                        len as int,
                        x,
                    ) =~= es.push(x) by {}
                    assert(self@.accessed.take(len as int) =~= old(self)@.accessed);
                }
                self.gauge_slot(len)
            },
        }
    }

    fn gauge_slot(&mut self, i: usize) -> (r: &mut Gauge)
        requires
            old(self).wf(),
            i < old(self)@.entries.len(),
            old(self)@.entries[i as int].value is Gauge,
        ensures
            StoredValue::Gauge((*r)@) == old(self)@.entries[i as int].value,
            final(self)@.entries == old(self)@.entries.update(
                i as int,
                with_value(old(self)@.entries[i as int], StoredValue::Gauge((*final(r))@)),
            ),
            final(self)@.accessed == old(self)@.accessed,
            same_settings(old(self)@, final(self)@),
            final(self)@.rejections == old(self)@.rejections,
            final(self).wf(),
    {
        assert(self@.entries.len() == self.entries@.len());
        assert(self@.entries[i as int] == entry_view(self.entries@[i as int]));
        proof {
            lemma_value_update_unique(self@.entries, i as int);
            lemma_value_update_consistent(self@.entries, i as int);
        }
        let e = &mut self.entries[i];
        match &mut e.storage {
            MetricStorage::Gauge(g) => g,
            _ => vstd::pervasive::unreached(),
        }
    }

    #[verifier::rlimit(30)]
    fn counter_slot(&mut self, i: usize) -> (r: &mut Counter)
        requires
            old(self).wf(),
            i < old(self)@.entries.len(),
            old(self)@.entries[i as int].value is Counter,
        ensures
            StoredValue::Counter((*r)@) == old(self)@.entries[i as int].value,
            final(self)@.entries == old(self)@.entries.update(
                i as int,
                with_value(old(self)@.entries[i as int], StoredValue::Counter((*final(r))@)),
            ),
            final(self)@.accessed == old(self)@.accessed,
            same_settings(old(self)@, final(self)@),
            final(self)@.rejections == old(self)@.rejections,
            final(self).wf(),
    {
        assert(self@.entries.len() == self.entries@.len());
        assert(self@.entries[i as int] == entry_view(self.entries@[i as int]));
        proof {
            lemma_value_update_unique(self@.entries, i as int);
            lemma_value_update_consistent(self@.entries, i as int);
        }
        let e = &mut self.entries[i];
        match &mut e.storage {
            MetricStorage::Counter(c) => c,
            _ => vstd::pervasive::unreached(),
        }
    }

    /// Unregister the metric with exactly this name and label map (default
    /// labels are not merged in).
    pub fn unregister(&mut self, name: &str, labels: &Labels) -> (r: Result<(), MonitoringError>)
        requires
            old(self).wf(),
        ensures
            final(self).wf(),
            ({
                let id = (name@, labels@);
                let es = old(self)@.entries;
                &&& forall|i: int|
                    0 <= i < es.len() && id_of(#[trigger] es[i]) == id ==> r is Ok && final(self)@.entries
                        == es.remove(i) && final(self)@.accessed == old(self)@.accessed.remove(i)
                        && same_settings(old(self)@, final(self)@) && final(self)@.rejections == old(
                        self,
                    )@.rejections
                &&& !has_id(es, id) ==> final(self)@ == old(self)@ && (r matches Err(
                    MonitoringError::MetricNotFound { name: n, labels: l },
                ) && n@ == name@ && l@ == debug_labels(labels.pairs()))
            }),
    {
        match self.find(name, labels) {
            Some(i) => {
                proof {
                    assert forall|j: int|
                        0 <= j < self@.entries.len() && id_of(#[trigger] self@.entries[j]) == id_of(
                            self@.entries[i as int],
                        ) implies j == i by {
                        if j < i {
                            assert(id_of(self@.entries[j]) != id_of(self@.entries[i as int]));
                        } else if j > i {
                            assert(id_of(self@.entries[i as int]) != id_of(self@.entries[j]));
                        }
                    }
                }
                self.entries.remove(i);
                proof {
                    assert(self@.entries =~= old(self)@.entries.remove(i as int));
                    assert(self@.accessed =~= old(self)@.accessed.remove(i as int));
                    let es = old(self)@.entries;
                    assert forall|a: int, b: int| 0 <= a < b < self@.entries.len() implies id_of(
                        #[trigger] self@.entries[a],
                    ) != id_of(#[trigger] self@.entries[b]) by {
                        let oa = if a < i { a } else { a + 1 };
                        let ob = if b < i { b } else { b + 1 };
                        assert(self@.entries[a] == es[oa]);
                        assert(self@.entries[b] == es[ob]);
                    }
                }
                Ok(())
            },
            None => Err(MonitoringError::not_found(name, labels.debug_text().as_str())),
        }
    }

    /// The metrics as they stand, in registration order, with `timestamp`
    /// on the counters and gauges (a registered metric keeps its own).
    pub fn snapshot(&self, timestamp: i64) -> (r: Vec<Metric>)
        ensures
            r@.map_values(|m: Metric| m@) == collected(self@.entries, timestamp),
    {
        let mut out: Vec<Metric> = Vec::new();
        let n = self.entries.len();
        for i in 0..n
            invariant
                n == self.entries.len(),
                out@.map_values(|m: Metric| m@) == self@.entries.take(i as int).map_values(
                    |e: EntryView| entry_metric(e, timestamp),
                ),
        {
            let e = &self.entries[i];
            assert(self@.entries[i as int] == entry_view(self.entries@[i as int]));
            let m = match &e.storage {
                MetricStorage::Counter(c) => Metric {
                    name: e.name.clone(),
                    metric_type: MetricType::Counter,
                    help: e.help.clone(),
                    labels: e.labels.duplicate(),
                    value: MetricValue::Uint(c.get()),
                    timestamp,
                },
                MetricStorage::Gauge(g) => Metric {
                    name: e.name.clone(),
                    metric_type: MetricType::Gauge,
                    help: e.help.clone(),
                    labels: e.labels.duplicate(),
                    value: MetricValue::Float(FloatValue::from_integer(g.get())),
                    timestamp,
                },
                MetricStorage::Metric(m) => m.duplicate(),
            };
            let ghost prev = out@;
            out.push(m);
            proof {
                assert(out@.map_values(|m: Metric| m@) =~= prev.map_values(|m: Metric| m@).push(
                    entry_metric(self@.entries[i as int], timestamp),
                ));
                assert(self@.entries.take(i + 1) =~= self@.entries.take(i as int).push(
                    self@.entries[i as int],
                ));
                assert(out@.map_values(|m: Metric| m@) =~= self@.entries.take(i + 1).map_values(
                    |e: EntryView| entry_metric(e, timestamp),
                ));
            }
        }
        assert(self@.entries.take(n as int) =~= self@.entries);
        out
    }

    /// Collect all metrics at `now` (nanoseconds of the registry's clock):
    /// with a time-to-live, first removes the metrics unused for that long;
    /// then marks every metric left as used at `now` and returns their
    /// snapshot stamped with `timestamp` (Unix milliseconds).
    pub fn collect_at(&mut self, now: u128, timestamp: i64) -> (r: Vec<Metric>)
        requires
            old(self).wf(),
        ensures
            final(self).wf(),
            collected_state(old(self)@, final(self)@, now),
            r@.map_values(|m: Metric| m@) == collected(final(self)@.entries, timestamp),
    {
        if self.ttl_nanos > 0 {
            self.cleanup_expired_at(now);
        }
        let ghost mid = self@;
        let n = self.entries.len();
        for i in 0..n
            invariant
                n == self.entries.len(),
                self.wf(),
                self@.entries == mid.entries,
                self@.accessed.len() == n,
                forall|j: int| 0 <= j < i ==> self@.accessed[j] == now,
                same_settings(old(self)@, self@),
                self@.rejections == old(self)@.rejections,
        {
            let ghost before = self@;
            let ghost old_es = self.entries@;
            let e = &mut self.entries[i];
            e.last_accessed = now;
            proof {
                assert(self@.entries =~= before.entries);
                assert forall|j: int| 0 <= j < i + 1 implies self@.accessed[j] == now by {
                    if j < i {
                        assert(self.entries@[j] == old_es[j]);
                        assert(self@.accessed[j] == before.accessed[j]);
                    } else {
                        assert(self@.accessed[j] == self.entries@[j].last_accessed);
                    }
                }
            }
        }
        assert(self@.accessed =~= Seq::new(self@.entries.len(), |i: int| now));
        self.snapshot(timestamp)
    }

    /// Collect all metrics now: with a time-to-live, the metrics unused for
    /// that long are removed first; the rest are marked as used now and
    /// returned stamped with the current wall-clock time.
    pub fn collect(&mut self) -> (r: Vec<Metric>)
        requires
            old(self).wf(),
        ensures
            final(self).wf(),
            exists|now: u128|
                #[trigger] collected_state(old(self)@, final(self)@, now) && (forall|i: int|
                    0 <= i < old(self)@.accessed.len() ==> #[trigger] old(self)@.accessed[i] <= now),
            exists|ts: i64| r@.map_values(|m: Metric| m@) == #[trigger] collected(final(self)@.entries, ts),
    {
        let now = self.now();
        let ts = unix_millis_now();
        self.collect_at(now, ts)
    }

    /// Get the number of registered metrics; it never exceeds a non-zero
    /// cardinality limit.
    pub fn count(&self) -> (r: usize)
        requires
            self.wf(),
        ensures
            r == self@.entries.len(),
            self@.max_cardinality > 0 ==> r <= self@.max_cardinality,
    {
        self.entries.len()
    }

    /// Clear all metrics
    pub fn clear(&mut self)
        requires
            old(self).wf(),
        ensures
            final(self).wf(),
            final(self)@.entries.len() == 0,
            final(self)@.accessed.len() == 0,
            same_settings(old(self)@, final(self)@),
            final(self)@.rejections == old(self)@.rejections,
    {
        self.entries.clear();
        assert(self@.entries =~= Seq::<EntryView>::empty());
    }

    /// Remove the metrics unused for at least the time-to-live at `now`
    /// (nanoseconds of the registry's clock); returns how many went.
    pub fn cleanup_expired_at(&mut self, now: u128) -> (r: usize)
        requires
            old(self).wf(),
        ensures
            final(self).wf(),
            (final(self)@.entries, final(self)@.accessed) == cleanup_result(old(self)@, now),
            r == old(self)@.entries.len() - cleanup_result(old(self)@, now).0.len(),
            same_settings(old(self)@, final(self)@),
            final(self)@.rejections == old(self)@.rejections,
    {
        let ghost es = old(self)@.entries;
        let ghost acc = old(self)@.accessed;
        let ghost ttl = duration_nanos(old(self)@.ttl);
        let initial = self.entries.len();
        let mut i = initial;
        proof {
            assert(es.skip(initial as int) =~= Seq::<EntryView>::empty());
            assert(acc.skip(initial as int) =~= Seq::<u128>::empty());
            assert(es.take(initial as int) =~= es);
            assert(acc.take(initial as int) =~= acc);
        }
        while i > 0
            invariant
                i <= initial,
                initial == es.len(),
                acc.len() == es.len(),
                ttl == self.ttl_nanos,
                self.ttl_nanos == duration_nanos(self.metric_ttl),
                self@.entries == es.take(i as int) + keep_fresh(
                    es.skip(i as int),
                    acc.skip(i as int),
                    now,
                    ttl,
                ).0,
                self@.accessed == acc.take(i as int) + keep_fresh(
                    es.skip(i as int),
                    acc.skip(i as int),
                    now,
                    ttl,
                ).1,
                same_settings(old(self)@, self@),
                self@.rejections == old(self)@.rejections,
            decreases i,
        {
            let ghost before = self@;
            let j = i - 1;
            proof {
                assert(self.entries@.len() == self@.entries.len());
                assert(self@.entries.len() >= i);
                assert(es.skip(j as int).drop_first() =~= es.skip(i as int));
                assert(acc.skip(j as int).drop_first() =~= acc.skip(i as int));
                assert(es.skip(j as int)[0] == es[j as int]);
                assert(acc.skip(j as int)[0] == acc[j as int]);
                assert(self@.entries[j as int] == es[j as int]);
                assert(self@.accessed[j as int] == acc[j as int]);
                assert(self@.accessed[j as int] == self.entries@[j as int].last_accessed);
            }
            let last = self.entries[j].last_accessed;
            let age = if now >= last {
                now - last
            } else {
                0
            };
            if age >= self.ttl_nanos {
                self.entries.remove(j);
                proof {
                    assert(self@.entries =~= before.entries.remove(j as int));
                    assert(self@.accessed =~= before.accessed.remove(j as int));
                    assert(self@.entries =~= es.take(j as int) + keep_fresh(
                        es.skip(j as int),
                        acc.skip(j as int),
                        now,
                        ttl,
                    ).0);
                    assert(self@.accessed =~= acc.take(j as int) + keep_fresh(
                        es.skip(j as int),
                        acc.skip(j as int),
                        now,
                        ttl,
                    ).1);
                }
            } else {
                proof {
                    assert(self@.entries =~= es.take(j as int) + keep_fresh(
                        es.skip(j as int),
                        acc.skip(j as int),
                        now,
                        ttl,
                    ).0);
                    assert(self@.accessed =~= acc.take(j as int) + keep_fresh(
                        es.skip(j as int),
                        acc.skip(j as int),
                        now,
                        ttl,
                    ).1);
                }
            }
            i = j;
        }
        proof {
            assert(es.skip(0) =~= es);
            assert(acc.skip(0) =~= acc);
            assert(self@.entries =~= keep_fresh(es, acc, now, ttl).0);
            assert(self@.accessed =~= keep_fresh(es, acc, now, ttl).1);
            lemma_keep_fresh(es, acc, now, ttl);
            assert(self@.entries.len() == self.entries@.len());
        }
        initial - self.entries.len()
    }

    /// Clean up expired metrics based on TTL: when there is a time-to-live
    /// (it is not zero), removes the metrics unused for that long; returns
    /// how many went.
    pub fn cleanup_expired(&mut self) -> (r: usize)
        requires
            old(self).wf(),
        ensures
            final(self).wf(),
            !ttl_enabled(old(self)@) ==> r == 0 && final(self)@ == old(self)@,
            ttl_enabled(old(self)@) ==> exists|now: u128|
                (final(self)@.entries, final(self)@.accessed) == #[trigger] cleanup_result(
                    old(self)@,
                    now,
                ) && r == old(self)@.entries.len() - cleanup_result(old(self)@, now).0.len() && (
                forall|i: int|
                    0 <= i < old(self)@.accessed.len() ==> #[trigger] old(self)@.accessed[i] <= now),
            same_settings(old(self)@, final(self)@),
            final(self)@.rejections == old(self)@.rejections,
    {
        if self.ttl_nanos == 0 {
            return 0;
        }
        let now = self.now();
        self.cleanup_expired_at(now)
    }

    /// Get TTL configuration
    pub fn ttl(&self) -> (r: std::time::Duration)
        ensures
            r == self@.ttl,
    {
        self.metric_ttl
    }

    /// Check if TTL is enabled: it is not zero.
    pub fn is_ttl_enabled(&self) -> (r: bool)
        requires
            self.wf(),
        ensures
            r == ttl_enabled(self@),
    {
        self.ttl_nanos > 0
    }

    /// Get the number of cardinality limit rejections: how often a
    /// get-or-create returned an untracked metric.
    pub fn cardinality_rejections(&self) -> (r: u64)
        ensures
            r == self@.rejections,
    {
        self.cardinality_rejections
    }
}

impl Default for MetricRegistry {
    fn default() -> (r: Self)
        ensures
            r.wf(),
            r@.entries.len() == 0,
            r@.max_cardinality == 10_000,
            r@.rejections == 0,
    {
        Self::new()
    }
}

} // verus!
