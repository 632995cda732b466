//! Updates of single metrics by name and labels: adding to a counter and
//! setting gauges, one or several in turn.

use vstd::prelude::*;
use crate::base::labels::{merge_pairs, pairs_to_map, Labels};
use crate::base::metric::{counter_add, float_of_integer, MetricValueView};
use crate::base::registry::{
    at_capacity, entry_metric, has_id, id_of, pushed, replaced, same_settings, unique_ids,
    with_value, EntryView, MetricRegistry, RegistryView, StoredValue,
};

verus! {

/// The count an entry holds if it is a counter, else 0.
pub open spec fn counter_value(v: StoredValue) -> u64 {
    match v {
        StoredValue::Counter(c) => c,
        _ => 0,
    }
}

/// `b` is `a` after the counter `name` with `labels` (merged under the
/// default labels) was got or created and `amount` added to it (stopping
/// at `u64::MAX`).
/// A metric of another kind under that identity becomes a counter from 0;
/// at the cardinality limit only the rejection is counted.
pub open spec fn counter_added(
    a: RegistryView,
    b: RegistryView,
    name: Seq<char>,
    labels: Seq<(Seq<char>, Seq<char>)>,
    amount: u64,
) -> bool {
    let merged = merge_pairs(a.default_labels, labels);
    let id = (name, pairs_to_map(merged));
    let es = a.entries;
    &&& forall|i: int|
        0 <= i < es.len() && id_of(#[trigger] es[i]) == id ==> replaced(
            a,
            b,
            i,
            with_value(es[i], StoredValue::Counter(counter_add(counter_value(es[i].value), amount))),
        )
    &&& !has_id(es, id) && !at_capacity(a) ==> pushed(
        a,
        b,
        EntryView { name, labels: merged, help: Seq::empty(), value: StoredValue::Counter(amount) },
    )
    &&& !has_id(es, id) && at_capacity(a) ==> b.entries == es && b.accessed == a.accessed
        && same_settings(a, b) && b.rejections == a.rejections.wrapping_add(1)
}

/// `b` is `a` after the gauge `name` with `labels` (merged under the
/// default labels) was got or created and set to `value`.  A metric of
/// another kind under that identity becomes a gauge; at the cardinality
/// limit only the rejection is counted.
pub open spec fn gauge_set(
    a: RegistryView,
    b: RegistryView,
    name: Seq<char>,
    labels: Seq<(Seq<char>, Seq<char>)>,
    value: i64,
) -> bool {
    let merged = merge_pairs(a.default_labels, labels);
    let id = (name, pairs_to_map(merged));
    let es = a.entries;
    &&& forall|i: int|
        0 <= i < es.len() && id_of(#[trigger] es[i]) == id ==> replaced(
            a,
            b,
            i,
            with_value(es[i], StoredValue::Gauge(value)),
        )
    &&& !has_id(es, id) && !at_capacity(a) ==> pushed(
        a,
        b,
        EntryView { name, labels: merged, help: Seq::empty(), value: StoredValue::Gauge(value) },
    )
    &&& !has_id(es, id) && at_capacity(a) ==> b.entries == es && b.accessed == a.accessed
        && same_settings(a, b) && b.rejections == a.rejections.wrapping_add(1)
}

/// The abstract content of a gauge update: name, labels and value.
pub struct GaugeUpdateView {
    pub name: Seq<char>,
    pub labels: Seq<(Seq<char>, Seq<char>)>,
    pub value: i64,
}

/// A gauge to set: its name, its labels and the value to set it to.
pub struct GaugeUpdate {
    pub name: String,
    pub labels: Labels,
    pub value: i64,
}

impl View for GaugeUpdate {
    type V = GaugeUpdateView;

    open spec fn view(&self) -> GaugeUpdateView {
        GaugeUpdateView { name: self.name@, labels: self.labels.pairs(), value: self.value }
    }
}

impl GaugeUpdate {
    /// An update of the unlabelled gauge `name` to `value`.
    pub fn plain(name: &str, value: i64) -> (r: GaugeUpdate)
        ensures
            r@ == (GaugeUpdateView { name: name@, labels: Seq::empty(), value }),
    {
        GaugeUpdate { name: name.to_string(), labels: Labels::new(), value }
    }
}

/// `states` runs from the first to the last registry state through the
/// gauge updates `us`: each state is the one before it with the next gauge
/// set.
pub open spec fn gauge_chain(states: Seq<RegistryView>, us: Seq<GaugeUpdateView>) -> bool {
    &&& states.len() == us.len() + 1
    &&& forall|k: int|
        0 <= k < us.len() ==> #[trigger] gauge_set(
            states[k],
            states[k + 1],
            us[k].name,
            us[k].labels,
            us[k].value,
        )
}

/// `b` is `a` after the gauges `us` were set in order.
pub open spec fn gauges_set(a: RegistryView, b: RegistryView, us: Seq<GaugeUpdateView>) -> bool {
    exists|states: Seq<RegistryView>|
        #[trigger] gauge_chain(states, us) && states[0] == a && states.last() == b
}

/// The views of a sequence of gauge updates.
pub open spec fn update_views(us: Seq<GaugeUpdate>) -> Seq<GaugeUpdateView> {
    us.map_values(|u: GaugeUpdate| u@)
}

/// A gauge that was set is found again with the value it was set to: after
/// the gauge `name` with `labels` is set to `value` in a registry whose
/// identities are unique, and the registry either held that gauge's
/// identity already or was not full, exactly one metric has that identity,
/// it holds `value`, and collecting it reports `value`.
pub proof fn law_gauge_reads_back(
    a: RegistryView,
    b: RegistryView,
    name: Seq<char>,
    labels: Seq<(Seq<char>, Seq<char>)>,
    value: i64,
)
    requires
        unique_ids(a.entries),
        gauge_set(a, b, name, labels, value),
        has_id(a.entries, (name, pairs_to_map(merge_pairs(a.default_labels, labels))))
            || !at_capacity(a),
    ensures
        ({
            let id = (name, pairs_to_map(merge_pairs(a.default_labels, labels)));
            &&& has_id(b.entries, id)
            &&& forall|i: int|
                0 <= i < b.entries.len() && id_of(#[trigger] b.entries[i]) == id ==> b.entries[i].value
                    == StoredValue::Gauge(value)
            &&& forall|i: int, ts: i64|
                0 <= i < b.entries.len() && id_of(#[trigger] b.entries[i]) == id ==> #[trigger] entry_metric(
                    b.entries[i],
                    ts,
                ).value == MetricValueView::Float(float_of_integer(value as int))
        }),
{
    let id = (name, pairs_to_map(merge_pairs(a.default_labels, labels)));
    if has_id(a.entries, id) {
        let i = choose|i: int| 0 <= i < a.entries.len() && id_of(#[trigger] a.entries[i]) == id;
        assert(b.entries[i] == with_value(a.entries[i], StoredValue::Gauge(value)));
        assert forall|j: int| 0 <= j < b.entries.len() && id_of(#[trigger] b.entries[j]) == id implies b.entries[j].value
            == StoredValue::Gauge(value) by {
            if j != i {
                assert(b.entries[j] == a.entries[j]);
                if j < i {
                    assert(id_of(a.entries[j]) != id_of(a.entries[i]));
                } else {
                    assert(id_of(a.entries[i]) != id_of(a.entries[j]));
                }
            }
        }
    } else {
        let n = a.entries.len() as int;
        assert(b.entries[n] == b.entries.last());
        assert(id_of(b.entries[n]) == id);
        assert forall|j: int| 0 <= j < b.entries.len() && id_of(#[trigger] b.entries[j]) == id implies b.entries[j].value
            == StoredValue::Gauge(value) by {
            if j < n {
                assert(b.entries[j] == a.entries[j]);
            }
        }
    }
}

/// A counter that was added to is found again with its new count: after
/// `amount` is added to the counter `name` with `labels` in a registry whose
/// identities are unique, and the registry either held that identity
/// already or was not full, exactly one metric has that identity and it
/// holds the previous count (0 for a new counter, or for a metric of
/// another kind) plus `amount`, stopping at `u64::MAX`.
pub proof fn law_counter_reads_back(
    a: RegistryView,
    b: RegistryView,
    name: Seq<char>,
    labels: Seq<(Seq<char>, Seq<char>)>,
    amount: u64,
)
    requires
        unique_ids(a.entries),
        counter_added(a, b, name, labels, amount),
        has_id(a.entries, (name, pairs_to_map(merge_pairs(a.default_labels, labels))))
            || !at_capacity(a),
    ensures
        ({
            let id = (name, pairs_to_map(merge_pairs(a.default_labels, labels)));
            &&& has_id(b.entries, id)
            &&& forall|i: int|
                0 <= i < b.entries.len() && id_of(#[trigger] b.entries[i]) == id ==> b.entries[i].value
                    == StoredValue::Counter(
                    counter_add(
                        if has_id(a.entries, id) {
                            counter_value(a.entries[i].value)
                        } else {
                            0u64
                        },
                        amount,
                    ),
                )
        }),
{
    let id = (name, pairs_to_map(merge_pairs(a.default_labels, labels)));
    if has_id(a.entries, id) {
        let i = choose|i: int| 0 <= i < a.entries.len() && id_of(#[trigger] a.entries[i]) == id;
        assert(b.entries[i] == with_value(
            a.entries[i],
            StoredValue::Counter(counter_add(counter_value(a.entries[i].value), amount)),
        ));
        assert forall|j: int| 0 <= j < b.entries.len() && id_of(#[trigger] b.entries[j]) == id implies b.entries[j].value
            == StoredValue::Counter(counter_add(counter_value(a.entries[j].value), amount)) by {
            if j != i {
                assert(b.entries[j] == a.entries[j]);
                if j < i {
                    assert(id_of(a.entries[j]) != id_of(a.entries[i]));
                } else {
                    assert(id_of(a.entries[i]) != id_of(a.entries[j]));
                }
            }
        }
    } else {
        let n = a.entries.len() as int;
        assert(b.entries[n] == b.entries.last());
        assert(id_of(b.entries[n]) == id);
        assert(counter_add(0u64, amount) == amount);
        assert forall|j: int| 0 <= j < b.entries.len() && id_of(#[trigger] b.entries[j]) == id implies b.entries[j].value
            == StoredValue::Counter(counter_add(0u64, amount)) by {
            if j < n {
                assert(b.entries[j] == a.entries[j]);
            }
        }
    }
}

impl MetricRegistry {
    /// Add `amount` to the counter `name` with `labels`, creating it if
    /// needed.
    pub fn add_to_counter(&mut self, name: &str, labels: Labels, amount: u64)
        requires
            old(self).wf(),
        ensures
            final(self).wf(),
            counter_added(old(self)@, final(self)@, name@, labels.pairs(), amount),
    {
        let ghost lp = labels.pairs();
        let c = self.get_or_create_counter(name, labels);
        c.inc_by(amount);
        proof {
            let a = old(self)@;
            let merged = merge_pairs(a.default_labels, lp);
            let id = (name@, pairs_to_map(merged));
            assert forall|i: int| 0 <= i < a.entries.len() && id_of(#[trigger] a.entries[i]) == id implies
                counter_add(counter_value(a.entries[i].value), amount) == counter_add(if a.entries[i].value is Counter {
                counter_value(a.entries[i].value)
            } else {
                0u64
            }, amount) by {}
        }
    }

    /// Set the gauge `name` with `labels` to `value`, creating it if needed.
    pub fn set_gauge(&mut self, name: &str, labels: Labels, value: i64)
        requires
            old(self).wf(),
        ensures
            final(self).wf(),
            gauge_set(old(self)@, final(self)@, name@, labels.pairs(), value),
    {
        let g = self.get_or_create_gauge(name, labels);
        g.set(value);
    }

    /// Set each gauge of `updates`, in order.
    pub fn set_gauges(&mut self, updates: &Vec<GaugeUpdate>)
        requires
            old(self).wf(),
        ensures
            final(self).wf(),
            gauges_set(old(self)@, final(self)@, update_views(updates@)),
    {
        let ghost us = update_views(updates@);
        let ghost mut states: Seq<RegistryView> = seq![self@];
        let n = updates.len();
        for i in 0..n
            invariant
                n == updates.len(),
                us == update_views(updates@),
                self.wf(),
                gauge_chain(states, us.take(i as int)),
                states[0] == old(self)@,
                states.last() == self@,
        {
            let u = &updates[i];
            let ghost before = self@;
            self.set_gauge(u.name.as_str(), u.labels.duplicate(), u.value);
            proof {
                let t = us.take(i + 1);
                let prev = states;
                states = states.push(self@);
                assert forall|k: int| 0 <= k < t.len() implies #[trigger] gauge_set(
                    states[k],
                    states[k + 1],
                    t[k].name,
                    t[k].labels,
                    t[k].value,
                ) by {
                    if k < i {
                        assert(t[k] == us.take(i as int)[k]);
                        assert(states[k] == prev[k] && states[k + 1] == prev[k + 1]);
                    } else {
                        assert(t[k] == u@);
                    }
                }
            }
        }
        assert(us.take(n as int) =~= us);
        assert(gauge_chain(states, us));
    }
}

} // verus!
