//! Auto-scaling based on metrics

use vstd::prelude::*;
use crate::base::clock::{
    duration_as_nanos, duration_from_secs, duration_nanos, instant_now, nanos_since,
};
use crate::base::labels::{
    keys_distinct, key_position, lemma_insert_pairs, lemma_map_contains, lemma_remove_pairs,
    pairs_insert, pairs_remove, pairs_to_map,
};
use crate::base::metric::{Metric, MetricValue, MetricValueView, MetricView};
use crate::base::registry::{collected, collected_state, MetricRegistry, RegistryView};
use crate::base::text::{push_signed_decimal, push_str, signed_decimal, str_equal};

verus! {

/// Scaling direction
#[derive(Debug, Clone, Copy, PartialEq, Eq, Structural)]
pub enum ScalingDirection {
    /// Scale up (increase instances)
    Up,
    /// Scale down (decrease instances)
    Down,
    /// No scaling action needed
    NoAction,
}

/// The abstract content of a scaling decision.
pub struct DecisionView {
    pub direction: ScalingDirection,
    pub current_instances: usize,
    pub target_instances: usize,
    pub reason: Seq<char>,
}

/// Scaling decision
#[derive(Debug, Clone)]
pub struct ScalingDecision {
    /// Direction to scale
    pub direction: ScalingDirection,
    /// Current instance count
    pub current_instances: usize,
    /// Target instance count
    pub target_instances: usize,
    /// Reason for scaling
    pub reason: String,
}

impl View for ScalingDecision {
    type V = DecisionView;

    open spec fn view(&self) -> DecisionView {
        DecisionView {
            direction: self.direction,
            current_instances: self.current_instances,
            target_instances: self.target_instances,
            reason: self.reason@,
        }
    }
}

/// The abstract content of a scaling rule.
pub struct RuleView {
    pub metric_name: Seq<char>,
    pub scale_up_threshold: i64,
    pub scale_down_threshold: i64,
    pub breach_duration: usize,
}

/// Metric-based scaling rule
#[derive(Debug, Clone)]
pub struct ScalingRule {
    /// Metric name to monitor
    pub metric_name: String,
    /// Threshold for scaling up
    pub scale_up_threshold: i64,
    /// Threshold for scaling down
    pub scale_down_threshold: i64,
    /// Number of consecutive breaches before scaling
    pub breach_duration: usize,
}

impl View for ScalingRule {
    type V = RuleView;

    open spec fn view(&self) -> RuleView {
        RuleView {
            metric_name: self.metric_name@,
            scale_up_threshold: self.scale_up_threshold,
            scale_down_threshold: self.scale_down_threshold,
            breach_duration: self.breach_duration,
        }
    }
}

impl ScalingRule {
    /// Create a new scaling rule that acts after 3 consecutive breaches
    pub fn new(metric_name: &str, scale_up_threshold: i64, scale_down_threshold: i64) -> (r: Self)
        ensures
            r@ == (RuleView {
                metric_name: metric_name@,
                scale_up_threshold,
                scale_down_threshold,
                breach_duration: 3,
            }),
    {
        ScalingRule {
            metric_name: metric_name.to_string(),
            scale_up_threshold,
            scale_down_threshold,
            breach_duration: 3,
        }
    }

    /// Set breach duration
    pub fn with_breach_duration(self, duration: usize) -> (r: Self)
        ensures
            r@ == (RuleView { breach_duration: duration, ..self@ }),
    {
        ScalingRule { breach_duration: duration, ..self }
    }
}

/// Auto-scaler configuration
#[derive(Debug, Clone)]
pub struct AutoScalerConfig {
    /// Minimum number of instances
    pub min_instances: usize,
    /// Maximum number of instances
    pub max_instances: usize,
    /// Cooldown period after scaling
    pub cooldown: std::time::Duration,
    /// Check interval
    pub check_interval: std::time::Duration,
    /// Scaling rules
    pub rules: Vec<ScalingRule>,
}

impl Default for AutoScalerConfig {
    fn default() -> (r: Self)
        ensures
            r.min_instances == 1,
            r.max_instances == 10,
            duration_nanos(r.cooldown) == 300_000_000_000,
            duration_nanos(r.check_interval) == 60_000_000_000,
            r.rules@.len() == 0,
    {
        AutoScalerConfig {
            min_instances: 1,
            max_instances: 10,
            cooldown: duration_from_secs(300),
            check_interval: duration_from_secs(60),
            rules: Vec::new(),
        }
    }
}

impl AutoScalerConfig {
    /// Create a new configuration: 1 to 10 instances, 300 s cooldown, 60 s
    /// check interval, no rules.
    pub fn new() -> (r: Self)
        ensures
            r.min_instances == 1,
            r.max_instances == 10,
            duration_nanos(r.cooldown) == 300_000_000_000,
            duration_nanos(r.check_interval) == 60_000_000_000,
            r.rules@.len() == 0,
    {
        Self::default()
    }

    /// Set minimum instances
    pub fn with_min_instances(self, min: usize) -> (r: Self)
        ensures
            r == (AutoScalerConfig { min_instances: min, ..self }),
    {
        AutoScalerConfig { min_instances: min, ..self }
    }

    /// Set maximum instances
    pub fn with_max_instances(self, max: usize) -> (r: Self)
        ensures
            r == (AutoScalerConfig { max_instances: max, ..self }),
    {
        AutoScalerConfig { max_instances: max, ..self }
    }

    /// Set cooldown period
    pub fn with_cooldown(self, cooldown: std::time::Duration) -> (r: Self)
        ensures
            r == (AutoScalerConfig { cooldown, ..self }),
    {
        AutoScalerConfig { cooldown, ..self }
    }

    /// Add a scaling rule
    pub fn add_rule(self, rule: ScalingRule) -> (r: Self)
        ensures
            r.min_instances == self.min_instances,
            r.max_instances == self.max_instances,
            r.cooldown == self.cooldown,
            r.check_interval == self.check_interval,
            r.rules@ == self.rules@.push(rule),
    {
        let mut rules = self.rules;
        rules.push(rule);
        AutoScalerConfig { rules, ..self }
    }
}

/// The breach count kept under key `k`, 0 when none is.
pub open spec fn breach_of(m: Map<Seq<char>, usize>, k: Seq<char>) -> nat {
    if m.contains_key(k) {
        m[k] as nat
    } else {
        0
    }
}

/// The key under which breaches of the upper threshold are counted.
pub open spec fn up_key(name: Seq<char>) -> Seq<char> {
    name + "_up"@
}

/// The key under which breaches of the lower threshold are counted.
pub open spec fn down_key(name: Seq<char>) -> Seq<char> {
    name + "_down"@
}

/// `name (value) >= threshold (t)`.
pub open spec fn up_reason(rule: RuleView, value: i64) -> Seq<char> {
    rule.metric_name + " ("@ + signed_decimal(value as int) + ") >= threshold ("@ + signed_decimal(
        rule.scale_up_threshold as int,
    ) + ")"@
}

/// `name (value) <= threshold (t)`.
pub open spec fn down_reason(rule: RuleView, value: i64) -> Seq<char> {
    rule.metric_name + " ("@ + signed_decimal(value as int) + ") <= threshold ("@ + signed_decimal(
        rule.scale_down_threshold as int,
    ) + ")"@
}

/// One instance more, but not above `max`.
pub open spec fn up_target(current: usize, max: usize) -> usize {
    if current < max {
        (current + 1) as usize
    } else {
        max
    }
}

/// One instance fewer (not below zero), but not below `min`.
pub open spec fn down_target(current: usize, min: usize) -> usize {
    let less: usize = if current > 0 {
        (current - 1) as usize
    } else {
        0
    };
    if less > min {
        less
    } else {
        min
    }
}

/// What one rule does with a metric value: a value at or above the upper
/// threshold counts a breach upward, at or below the lower threshold a breach
/// downward, anything between clears both counts.  When a count reaches the
/// rule's breach duration it is reset, and a decision is made if the target
/// differs from the current count.
pub open spec fn rule_step(
    breaches: Map<Seq<char>, usize>,
    rule: RuleView,
    value: i64,
    current: usize,
    min: usize,
    max: usize,
) -> (Map<Seq<char>, usize>, Option<DecisionView>) {
    let up = up_key(rule.metric_name);
    let down = down_key(rule.metric_name);
    if value >= rule.scale_up_threshold {
        let c = breach_of(breaches, up) + 1;
        if c >= rule.breach_duration {
            let target = up_target(current, max);
            (
                breaches.insert(up, 0),
                if target > current {
                    Some(
                        DecisionView {
                            direction: ScalingDirection::Up,
                            current_instances: current,
                            target_instances: target,
                            reason: up_reason(rule, value),
                        },
                    )
                } else {
                    None
                },
            )
        } else {
            (breaches.insert(up, c as usize), None)
        }
    } else if value <= rule.scale_down_threshold {
        let c = breach_of(breaches, down) + 1;
        if c >= rule.breach_duration {
            let target = down_target(current, min);
            (
                breaches.insert(down, 0),
                if target < current {
                    Some(
                        DecisionView {
                            direction: ScalingDirection::Down,
                            current_instances: current,
                            target_instances: target,
                            reason: down_reason(rule, value),
                        },
                    )
                } else {
                    None
                },
            )
        } else {
            (breaches.insert(down, c as usize), None)
        }
    } else {
        (breaches.remove(up).remove(down), None)
    }
}

/// The value of a metric as an integer: integers as they are (unsigned ones
/// only when they fit), floats converted; histograms and summaries have none.
pub open spec fn value_as_i64(v: MetricValueView) -> Option<i64> {
    match v {
        MetricValueView::Int(x) => Some(x),
        MetricValueView::Uint(x) => if x <= i64::MAX as u64 {
            Some(x as i64)
        } else {
            None
        },
        MetricValueView::Float(f) => Some(f.1),
        _ => None,
    }
}

/// The integer value of the first unlabelled metric called `name`.
pub open spec fn find_value(ms: Seq<MetricView>, name: Seq<char>) -> Option<i64>
    decreases ms.len(),
{
    if ms.len() == 0 {
        None
    } else if ms[0].name == name && ms[0].labels.len() == 0 {
        value_as_i64(ms[0].value)
    } else {
        find_value(ms.drop_first(), name)
    }
}

/// The rules applied in order to the metrics until one decides.
pub open spec fn rules_outcome(
    breaches: Map<Seq<char>, usize>,
    rules: Seq<RuleView>,
    ms: Seq<MetricView>,
    current: usize,
    min: usize,
    max: usize,
) -> (Map<Seq<char>, usize>, Option<DecisionView>)
    decreases rules.len(),
{
    if rules.len() == 0 {
        (breaches, None)
    } else {
        match find_value(ms, rules[0].metric_name) {
            None => rules_outcome(breaches, rules.drop_first(), ms, current, min, max),
            Some(v) => {
                let step = rule_step(breaches, rules[0], v, current, min, max);
                if step.1 is Some {
                    step
                } else {
                    rules_outcome(step.0, rules.drop_first(), ms, current, min, max)
                }
            },
        }
    }
}

/// A decision moves the instance count by exactly one: to one more, never
/// above the maximum, or to one fewer, never below the minimum; it states
/// the count it started from.
pub open spec fn moves_by_one(d: DecisionView, current: usize, min: usize, max: usize) -> bool {
    &&& d.current_instances == current
    &&& (d.direction == ScalingDirection::Up && d.target_instances == current + 1
        && d.target_instances <= max) || (d.direction == ScalingDirection::Down
        && d.target_instances + 1 == current && d.target_instances >= min)
}

/// Whatever rule decides, its decision moves the instance count by exactly
/// one, within the configured range.
pub proof fn law_decisions_move_by_one(
    breaches: Map<Seq<char>, usize>,
    rules: Seq<RuleView>,
    ms: Seq<MetricView>,
    current: usize,
    min: usize,
    max: usize,
)
    ensures
        rules_outcome(breaches, rules, ms, current, min, max).1 matches Some(d) ==> moves_by_one(
            d,
            current,
            min,
            max,
        ),
    decreases rules.len(),
{
    if rules.len() > 0 {
        match find_value(ms, rules[0].metric_name) {
            None => {
                law_decisions_move_by_one(breaches, rules.drop_first(), ms, current, min, max);
            },
            Some(v) => {
                let step = rule_step(breaches, rules[0], v, current, min, max);
                if step.1 is None {
                    law_decisions_move_by_one(step.0, rules.drop_first(), ms, current, min, max);
                }
            },
        }
    }
}

/// A rule decides only when its count of consecutive breaches, with this
/// one, reaches its breach duration: upward when the value is at or above
/// the upper threshold, downward when it is at or below the lower one.
pub proof fn law_decision_needs_breach_duration(
    breaches: Map<Seq<char>, usize>,
    rule: RuleView,
    value: i64,
    current: usize,
    min: usize,
    max: usize,
)
    ensures
        rule_step(breaches, rule, value, current, min, max).1 matches Some(d) ==> (if d.direction
            == ScalingDirection::Up {
            value >= rule.scale_up_threshold && breach_of(breaches, up_key(rule.metric_name)) + 1
                >= rule.breach_duration
        } else {
            d.direction == ScalingDirection::Down && value <= rule.scale_down_threshold
                && breach_of(breaches, down_key(rule.metric_name)) + 1 >= rule.breach_duration
        }),
        value < rule.scale_up_threshold && value > rule.scale_down_threshold ==> rule_step(
            breaches,
            rule,
            value,
            current,
            min,
            max,
        ).1 is None,
{
}

/// The breach counts and the last decision after a rule has judged the
/// values `values` in turn, starting from the counts `breaches`.
pub open spec fn run_rule(
    breaches: Map<Seq<char>, usize>,
    rule: RuleView,
    values: Seq<i64>,
    current: usize,
    min: usize,
    max: usize,
) -> (Map<Seq<char>, usize>, Option<DecisionView>)
    decreases values.len(),
{
    if values.len() == 0 {
        (breaches, None)
    } else {
        let before = run_rule(breaches, rule, values.drop_last(), current, min, max);
        rule_step(before.0, rule, values.last(), current, min, max)
    }
}

/// A value strictly between the thresholds clears the rule's breach
/// counts, upward and downward, and decides nothing: breaches must be
/// consecutive to count.
pub proof fn law_in_range_value_clears_breaches(
    breaches: Map<Seq<char>, usize>,
    rule: RuleView,
    value: i64,
    current: usize,
    min: usize,
    max: usize,
)
    requires
        rule.scale_down_threshold < value < rule.scale_up_threshold,
    ensures
        !rule_step(breaches, rule, value, current, min, max).0.contains_key(up_key(rule.metric_name)),
        !rule_step(breaches, rule, value, current, min, max).0.contains_key(down_key(rule.metric_name)),
        rule_step(breaches, rule, value, current, min, max).1 is None,
{
}

/// Only consecutive breaches lead to scaling: after a value between the
/// thresholds, fewer breaching values than the breach duration decide
/// nothing, and the upward count is exactly the number of those values.
pub proof fn law_breaches_must_be_consecutive(
    breaches: Map<Seq<char>, usize>,
    rule: RuleView,
    calm: i64,
    highs: Seq<i64>,
    current: usize,
    min: usize,
    max: usize,
)
    requires
        rule.scale_down_threshold < calm < rule.scale_up_threshold,
        forall|i: int| 0 <= i < highs.len() ==> #[trigger] highs[i] >= rule.scale_up_threshold,
        highs.len() < rule.breach_duration,
    ensures
        ({
            let r = run_rule(breaches, rule, seq![calm] + highs, current, min, max);
            &&& r.1 is None
            &&& breach_of(r.0, up_key(rule.metric_name)) == highs.len()
        }),
    decreases highs.len(),
{
    let vs = seq![calm] + highs;
    if highs.len() == 0 {
        assert(vs.drop_last() =~= Seq::<i64>::empty());
        assert(vs.last() == calm);
        law_in_range_value_clears_breaches(breaches, rule, calm, current, min, max);
    } else {
        let hs = highs.drop_last();
        law_breaches_must_be_consecutive(breaches, rule, calm, hs, current, min, max);
        assert(vs.drop_last() =~= seq![calm] + hs);
        assert(vs.last() == highs.last());
        assert(highs.last() == highs[highs.len() - 1]);
    }
}

/// Breach counts by key.
struct BreachCounts {
    entries: Vec<(String, usize)>,
}

impl View for BreachCounts {
    type V = Map<Seq<char>, usize>;

    closed spec fn view(&self) -> Map<Seq<char>, usize> {
        pairs_to_map(self.pairs())
    }
}

impl BreachCounts {
    closed spec fn pairs(&self) -> Seq<(Seq<char>, usize)> {
        self.entries@.map_values(|e: (String, usize)| (e.0@, e.1))
    }

    #[verifier::type_invariant]
    closed spec fn inv(&self) -> bool {
        keys_distinct(self.pairs())
    }

    fn new() -> (r: Self)
        ensures
            r@ == Map::<Seq<char>, usize>::empty(),
    {
        let r = BreachCounts { entries: Vec::new() };
        assert(r.pairs() =~= Seq::<(Seq<char>, usize)>::empty());
        assert(r@ =~= Map::<Seq<char>, usize>::empty());
        r
    }

    fn position(&self, key: &str) -> (r: Option<usize>)
        ensures
            r is Some <==> key_position(self.pairs(), key@) >= 0,
            r matches Some(i) ==> i == key_position(self.pairs(), key@) && i < self.entries.len(),
    {
        let mut i = self.entries.len();
        assert(self.pairs().take(i as int) =~= self.pairs());
        while i > 0
            invariant
                i <= self.entries.len(),
                key_position(self.pairs(), key@) == key_position(self.pairs().take(i as int), key@),
            decreases i,
        {
            let hit = str_equal(self.entries[i - 1].0.as_str(), key);
            assert(self.pairs().take(i as int).drop_last() =~= self.pairs().take(i - 1));
            if hit {
                return Some(i - 1);
            }
            i = i - 1;
        }
        None
    }

    fn get(&self, key: &str) -> (r: usize)
        ensures
            r == breach_of(self@, key@),
    {
        proof {
            lemma_map_contains(self.pairs(), key@);
        }
        match self.position(key) {
            Some(i) => self.entries[i].1,
            None => 0,
        }
    }

    fn set(&mut self, key: String, value: usize)
        ensures
            final(self)@ == old(self)@.insert(key@, value),
    {
        proof {
            use_type_invariant(&*self);
            lemma_map_contains(self.pairs(), key@);
            lemma_insert_pairs(self.pairs(), key@, value);
        }
        let ghost kv = key@;
        let mut entries: Vec<(String, usize)> = Vec::new();
        std::mem::swap(&mut entries, &mut self.entries);
        let ghost old_pairs = entries@.map_values(|e: (String, usize)| (e.0@, e.1));
        assert(old_pairs == old(self).pairs());
        match self.position_in(&entries, key.as_str()) {
            Some(i) => {
                entries.set(i, (key, value));
                assert(entries@.map_values(|e: (String, usize)| (e.0@, e.1)) =~= pairs_insert(
                    old_pairs,
                    kv,
                    value,
                ));
            },
            None => {
                entries.push((key, value));
                assert(entries@.map_values(|e: (String, usize)| (e.0@, e.1)) =~= pairs_insert(
                    old_pairs,
                    kv,
                    value,
                ));
            },
        }
        self.entries = entries;
    }

    fn position_in(&self, entries: &Vec<(String, usize)>, key: &str) -> (r: Option<usize>)
        ensures
            ({
                let p = entries@.map_values(|e: (String, usize)| (e.0@, e.1));
                &&& r is Some <==> key_position(p, key@) >= 0
                &&& r matches Some(i) ==> i == key_position(p, key@) && i < entries.len()
            }),
    {
        let ghost p = entries@.map_values(|e: (String, usize)| (e.0@, e.1));
        let mut i = entries.len();
        assert(p.take(i as int) =~= p);
        while i > 0
            invariant
                i <= entries.len(),
                p == entries@.map_values(|e: (String, usize)| (e.0@, e.1)),
                key_position(p, key@) == key_position(p.take(i as int), key@),
            decreases i,
        {
            let hit = str_equal(entries[i - 1].0.as_str(), key);
            assert(p.take(i as int).drop_last() =~= p.take(i - 1));
            if hit {
                return Some(i - 1);
            }
            i = i - 1;
        }
        None
    }

    fn remove(&mut self, key: &str)
        ensures
            final(self)@ == old(self)@.remove(key@),
    {
        proof {
            use_type_invariant(&*self);
            lemma_remove_pairs(self.pairs(), key@);
        }
        let mut entries: Vec<(String, usize)> = Vec::new();
        std::mem::swap(&mut entries, &mut self.entries);
        let ghost old_pairs = entries@.map_values(|e: (String, usize)| (e.0@, e.1));
        assert(old_pairs == old(self).pairs());
        match self.position_in(&entries, key) {
            Some(i) => {
                entries.remove(i);
                assert(entries@.map_values(|e: (String, usize)| (e.0@, e.1)) =~= pairs_remove(
                    old_pairs,
                    key@,
                ));
            },
            None => {
                assert(entries@.map_values(|e: (String, usize)| (e.0@, e.1)) =~= pairs_remove(
                    old_pairs,
                    key@,
                ));
            },
        }
        self.entries = entries;
    }
}

/// The decision of an optional scaling decision, as a value.
pub open spec fn decision_view(d: Option<ScalingDecision>) -> Option<DecisionView> {
    match d {
        Some(x) => Some(x@),
        None => None,
    }
}

/// Every breach count is below `usize::MAX`, so one more breach fits.
pub open spec fn counts_bounded(m: Map<Seq<char>, usize>) -> bool {
    forall|k: Seq<char>| #[trigger] m.contains_key(k) ==> m[k] < usize::MAX
}

fn suffixed(name: &String, suffix: &str) -> (r: String)
    ensures
        r@ == name@ + suffix@,
{
    let mut r = name.clone();
    push_str(&mut r, suffix);
    r
}

fn reason_text(rule: &ScalingRule, value: i64, up: bool) -> (r: String)
    ensures
        up ==> r@ == up_reason(rule@, value),
        !up ==> r@ == down_reason(rule@, value),
{
    let mut r = rule.metric_name.clone();
    push_str(&mut r, " (");
    push_signed_decimal(&mut r, value as i128);
    if up {
        push_str(&mut r, ") >= threshold (");
        push_signed_decimal(&mut r, rule.scale_up_threshold as i128);
    } else {
        push_str(&mut r, ") <= threshold (");
        push_signed_decimal(&mut r, rule.scale_down_threshold as i128);
    }
    push_str(&mut r, ")");
    assert(up ==> r@ =~= up_reason(rule@, value));
    assert(!up ==> r@ =~= down_reason(rule@, value));
    r
}

fn apply_rule(
    breaches: &mut BreachCounts,
    rule: &ScalingRule,
    value: i64,
    current: usize,
    min: usize,
    max: usize,
) -> (r: Option<ScalingDecision>)
    requires
        counts_bounded(old(breaches)@),
    ensures
        counts_bounded(final(breaches)@),
        (final(breaches)@, decision_view(r)) == rule_step(
            old(breaches)@,
            rule@,
            value,
            current,
            min,
            max,
        ),
{
    let up = suffixed(&rule.metric_name, "_up");
    let down = suffixed(&rule.metric_name, "_down");
    if value >= rule.scale_up_threshold {
        let c = breaches.get(up.as_str()) + 1;
        if c >= rule.breach_duration {
            breaches.set(up, 0);
            let target = if current < max {
                current + 1
            } else {
                max
            };
            if target > current {
                return Some(
                    ScalingDecision {
                        direction: ScalingDirection::Up,
                        current_instances: current,
                        target_instances: target,
                        reason: reason_text(rule, value, true),
                    },
                );
            }
        } else {
            breaches.set(up, c);
        }
    } else if value <= rule.scale_down_threshold {
        let c = breaches.get(down.as_str()) + 1;
        if c >= rule.breach_duration {
            breaches.set(down, 0);
            let less = if current > 0 {
                current - 1
            } else {
                0
            };
            let target = if less > min {
                less
            } else {
                min
            };
            if target < current {
                return Some(
                    ScalingDecision {
                        direction: ScalingDirection::Down,
                        current_instances: current,
                        target_instances: target,
                        reason: reason_text(rule, value, false),
                    },
                );
            }
        } else {
            breaches.set(down, c);
        }
    } else {
        breaches.remove(up.as_str());
        breaches.remove(down.as_str());
    }
    None
}

fn metric_value_to_i64(value: &MetricValue) -> (r: Option<i64>)
    ensures
        r == value_as_i64(value@),
{
    match value {
        MetricValue::Int(v) => Some(*v),
        MetricValue::Uint(v) => {
            if *v <= 9_223_372_036_854_775_807u64 {
                Some(*v as i64)
            } else {
                None
            }
        },
        MetricValue::Float(f) => Some(f.truncated()),
        _ => None,
    }
}

fn find_metric_value(metrics: &[Metric], name: &str) -> (r: Option<i64>)
    ensures
        r == find_value(metrics@.map_values(|m: Metric| m@), name@),
{
    let ghost ms = metrics@.map_values(|m: Metric| m@);
    let n = metrics.len();
    assert(ms.skip(0) =~= ms);
    for i in 0..n
        invariant
            n == metrics@.len(),
            ms == metrics@.map_values(|m: Metric| m@),
            find_value(ms, name@) == find_value(ms.skip(i as int), name@),
    {
        let m = &metrics[i];
        assert(ms.skip(i as int)[0] == m@);
        assert(ms.skip(i as int).drop_first() =~= ms.skip(i + 1));
        if str_equal(m.name.as_str(), name) && m.labels.is_empty() {
            return metric_value_to_i64(&m.value);
        }
    }
    None
}

/// The abstract state of an auto-scaler.
pub struct ScalerView {
    pub min_instances: usize,
    pub max_instances: usize,
    pub cooldown: std::time::Duration,
    pub check_interval: std::time::Duration,
    pub rules: Seq<RuleView>,
    pub current: usize,
    pub last_scale: u128,
    pub breaches: Map<Seq<char>, usize>,
    pub registry: RegistryView,
}

/// Auto-scaler for dynamic capacity management: it watches the metrics of
/// its registry and proposes one instance more or fewer when a rule's
/// threshold has been breached often enough in a row.
pub struct AutoScaler {
    config: AutoScalerConfig,
    registry: MetricRegistry,
    current_instances: usize,
    clock: std::time::Instant,
    last_scale: u128,
    latest: u128,
    cooldown_nanos: u128,
    breach_counts: BreachCounts,
}

impl View for AutoScaler {
    type V = ScalerView;

    closed spec fn view(&self) -> ScalerView {
        ScalerView {
            min_instances: self.config.min_instances,
            max_instances: self.config.max_instances,
            cooldown: self.config.cooldown,
            check_interval: self.config.check_interval,
            rules: self.config.rules@.map_values(|r: ScalingRule| r@),
            current: self.current_instances,
            last_scale: self.last_scale,
            breaches: self.breach_counts@,
            registry: self.registry@,
        }
    }
}

impl AutoScaler {
    /// The scaler is consistent: its registry is, the stored cooldown is the
    /// configured one, and every breach count can grow by one.
    pub closed spec fn wf(&self) -> bool {
        &&& self.registry.wf()
        &&& self.cooldown_nanos == duration_nanos(self.config.cooldown)
        &&& counts_bounded(self.breach_counts@)
        &&& self.last_scale <= self.latest
    }

    /// The latest time (nanoseconds of the scaler's clock) at which the
    /// scaler evaluated or scaled.
    pub closed spec fn latest_time(&self) -> u128 {
        self.latest
    }

    /// The scaler clock's reading, never earlier than a time the scaler has
    /// already used: the clock does not go back, so this is the reading
    /// itself.
    fn now(&self) -> (r: u128)
        ensures
            r >= self.latest_time(),
    {
        let t = nanos_since(&self.clock);
        if t < self.latest {
            self.latest
        } else {
            t
        }
    }

    /// Create a new auto-scaler that starts at the minimum instance count
    /// and counts its cooldown from now.
    pub fn new(config: AutoScalerConfig, registry: MetricRegistry) -> (r: Self)
        requires
            registry.wf(),
        ensures
            r.wf(),
            r@.min_instances == config.min_instances,
            r@.max_instances == config.max_instances,
            r@.cooldown == config.cooldown,
            r@.rules == config.rules@.map_values(|x: ScalingRule| x@),
            r@.current == config.min_instances,
            r@.breaches == Map::<Seq<char>, usize>::empty(),
            r@.registry == registry@,
            r.latest_time() == r@.last_scale,
    {
        let initial_instances = config.min_instances;
        let cooldown_nanos = duration_as_nanos(&config.cooldown);
        let clock = instant_now();
        let last_scale = nanos_since(&clock);
        AutoScaler {
            config,
            registry,
            current_instances: initial_instances,
            clock,
            last_scale,
            latest: last_scale,
            cooldown_nanos,
            breach_counts: BreachCounts::new(),
        }
    }

    /// Get current instance count
    pub fn current_instances(&self) -> (r: usize)
        ensures
            r == self@.current,
    {
        self.current_instances
    }

    /// The registry whose metrics the scaler watches.
    pub fn registry(&self) -> (r: &MetricRegistry)
        ensures
            r@ == self@.registry,
            self.wf() ==> r.wf(),
    {
        &self.registry
    }

    /// The registry whose metrics the scaler watches, for updating them.
    pub fn registry_mut(&mut self) -> (r: &mut MetricRegistry)
        ensures
            (*r)@ == old(self)@.registry,
            old(self).wf() ==> (*r).wf(),
            final(self)@.registry == (*final(r))@,
            final(self)@.current == old(self)@.current,
            final(self)@.breaches == old(self)@.breaches,
            final(self)@.rules == old(self)@.rules,
            final(self)@.min_instances == old(self)@.min_instances,
            final(self)@.max_instances == old(self)@.max_instances,
            (old(self).wf() && (*final(r)).wf()) ==> final(self).wf(),
    {
        &mut self.registry
    }

    /// The instance count `count` clamped to the configured range.
    pub open spec fn clamped(v: ScalerView, count: usize) -> usize {
        if count < v.min_instances {
            v.min_instances
        } else if count > v.max_instances {
            v.max_instances
        } else {
            count
        }
    }

    /// Set instance count manually, clamped to the configured range, and
    /// start a cooldown at `now` (nanoseconds of the scaler's clock).
    pub fn set_instances_at(&mut self, count: usize, now: u128)
        requires
            old(self)@.min_instances <= old(self)@.max_instances,
        ensures
            final(self)@ == (ScalerView {
                current: Self::clamped(old(self)@, count),
                last_scale: now,
                ..old(self)@
            }),
            final(self).latest_time() == if now > old(self).latest_time() {
                now
            } else {
                old(self).latest_time()
            },
            old(self).wf() ==> final(self).wf(),
    {
        let count = if count < self.config.min_instances {
            self.config.min_instances
        } else if count > self.config.max_instances {
            self.config.max_instances
        } else {
            count
        };
        self.current_instances = count;
        self.last_scale = now;
        if now > self.latest {
            self.latest = now;
        }
    }

    /// Set instance count manually, clamped to the configured range, and
    /// start a cooldown now.
    pub fn set_instances(&mut self, count: usize)
        requires
            old(self)@.min_instances <= old(self)@.max_instances,
        ensures
            final(self)@ == (ScalerView {
                current: Self::clamped(old(self)@, count),
                last_scale: final(self)@.last_scale,
                ..old(self)@
            }),
            final(self)@.last_scale >= old(self).latest_time(),
            final(self).latest_time() == final(self)@.last_scale,
            old(self).wf() ==> final(self).wf(),
    {
        let now = self.now();
        self.set_instances_at(count, now);
    }

    /// Whether the last scaling lies less than the cooldown ago, at `now`.
    fn is_in_cooldown(&self, now: u128) -> (r: bool)
        requires
            self.wf(),
        ensures
            r == ((if now >= self@.last_scale {
                now - self@.last_scale
            } else {
                0
            }) < duration_nanos(self@.cooldown)),
    {
        let elapsed = if now >= self.last_scale {
            now - self.last_scale
        } else {
            0
        };
        elapsed < self.cooldown_nanos
    }

    /// The decision the rules make on `metrics`: each rule in turn finds its
    /// unlabelled metric, counts a breach and may decide; the first decision
    /// is returned.  The cooldown is not consulted.
    pub fn evaluate_with(&mut self, metrics: &[Metric]) -> (r: Option<ScalingDecision>)
        requires
            old(self).wf(),
        ensures
            final(self).wf(),
            (final(self)@.breaches, decision_view(r)) == rules_outcome(
                old(self)@.breaches,
                old(self)@.rules,
                metrics@.map_values(|m: Metric| m@),
                old(self)@.current,
                old(self)@.min_instances,
                old(self)@.max_instances,
            ),
            final(self)@.current == old(self)@.current,
            final(self)@.last_scale == old(self)@.last_scale,
            final(self)@.registry == old(self)@.registry,
            final(self)@.rules == old(self)@.rules,
            final(self)@.min_instances == old(self)@.min_instances,
            final(self)@.max_instances == old(self)@.max_instances,
            final(self)@.cooldown == old(self)@.cooldown,
            final(self)@.check_interval == old(self)@.check_interval,
            final(self).latest_time() == old(self).latest_time(),
    {
        let ghost ms = metrics@.map_values(|m: Metric| m@);
        let ghost rules = old(self)@.rules;
        let ghost cur = old(self)@.current;
        let ghost lo = old(self)@.min_instances;
        let ghost hi = old(self)@.max_instances;
        let n = self.config.rules.len();
        assert(rules.skip(0) =~= rules);
        let mut i: usize = 0;
        let mut result: Option<ScalingDecision> = None;
        while i < n && result.is_none()
            invariant
                i <= n,
                n == self.config.rules@.len(),
                self.wf(),
                rules == self@.rules,
                ms == metrics@.map_values(|m: Metric| m@),
                result is None ==> rules_outcome(old(self)@.breaches, rules, ms, cur, lo, hi)
                    == rules_outcome(self@.breaches, rules.skip(i as int), ms, cur, lo, hi),
                result is Some ==> rules_outcome(old(self)@.breaches, rules, ms, cur, lo, hi) == (
                    self@.breaches,
                    decision_view(result),
                ),
                self@.current == cur,
                self@.last_scale == old(self)@.last_scale,
                self@.registry == old(self)@.registry,
                self@.min_instances == lo,
                self@.max_instances == hi,
                self@.cooldown == old(self)@.cooldown,
                self@.check_interval == old(self)@.check_interval,
                self.latest == old(self).latest,
            decreases n - i,
        {
            proof {
                assert(rules.skip(i as int)[0] == rules[i as int]);
                assert(rules.skip(i as int).drop_first() =~= rules.skip(i + 1));
                assert(rules[i as int] == self.config.rules@[i as int]@);
            }
            let found = find_metric_value(metrics, self.config.rules[i].metric_name.as_str());
            match found {
                None => {},
                Some(v) => {
                    let d = apply_rule(
                        &mut self.breach_counts,
                        &self.config.rules[i],
                        v,
                        self.current_instances,
                        self.config.min_instances,
                        self.config.max_instances,
                    );
                    result = d;
                },
            }
            i = i + 1;
        }
        result
    }

    /// Whether the scaler is in its cooldown at `now`: its last scaling lies
    /// less than the cooldown before.
    pub open spec fn cooling_down(v: ScalerView, now: u128) -> bool {
        (if now >= v.last_scale {
            now - v.last_scale
        } else {
            0
        }) < duration_nanos(v.cooldown)
    }

    /// Evaluate at `now` (nanoseconds of the scaler's clock): nothing while
    /// in cooldown; otherwise the rules decide on the registry's metrics,
    /// collected then.
    pub fn evaluate_at(&mut self, now: u128) -> (r: Option<ScalingDecision>)
        requires
            old(self).wf(),
        ensures
            final(self).wf(),
            final(self)@.current == old(self)@.current,
            final(self)@.last_scale == old(self)@.last_scale,
            final(self)@.rules == old(self)@.rules,
            final(self)@.min_instances == old(self)@.min_instances,
            final(self)@.max_instances == old(self)@.max_instances,
            final(self)@.cooldown == old(self)@.cooldown,
            final(self)@.check_interval == old(self)@.check_interval,
            final(self).latest_time() == if now > old(self).latest_time() {
                now
            } else {
                old(self).latest_time()
            },
            Self::cooling_down(old(self)@, now) ==> r is None && final(self)@ == old(self)@,
            !Self::cooling_down(old(self)@, now) ==> exists|t: u128|
                #[trigger] collected_state(old(self)@.registry, final(self)@.registry, t),
            !Self::cooling_down(old(self)@, now) ==> exists|ts: i64|
                (final(self)@.breaches, decision_view(r)) == rules_outcome(
                    old(self)@.breaches,
                    old(self)@.rules,
                    #[trigger] collected(final(self)@.registry.entries, ts),
                    old(self)@.current,
                    old(self)@.min_instances,
                    old(self)@.max_instances,
                ),
    {
        if now > self.latest {
            self.latest = now;
        }
        if self.is_in_cooldown(now) {
            return None;
        }
        let metrics = self.registry.collect();
        proof {
            let t = choose|t: u128| #[trigger] collected_state(old(self)@.registry, self.registry@, t);
            assert(collected_state(old(self)@.registry, self@.registry, t));
        }
        let r = self.evaluate_with(metrics.as_slice());
        proof {
            let ts = choose|ts: i64|
                metrics@.map_values(|m: Metric| m@) == #[trigger] collected(
                    self@.registry.entries,
                    ts,
                );
            assert((self@.breaches, decision_view(r)) == rules_outcome(
                old(self)@.breaches,
                old(self)@.rules,
                collected(self@.registry.entries, ts),
                old(self)@.current,
                old(self)@.min_instances,
                old(self)@.max_instances,
            ));
        }
        r
    }

    /// Evaluate scaling decision now: nothing while in cooldown; otherwise
    /// the rules decide on the registry's metrics, collected now.
    pub fn evaluate(&mut self) -> (r: Option<ScalingDecision>)
        requires
            old(self).wf(),
        ensures
            final(self).wf(),
            final(self)@.current == old(self)@.current,
            final(self)@.last_scale == old(self)@.last_scale,
            final(self)@.rules == old(self)@.rules,
            final(self)@.min_instances == old(self)@.min_instances,
            final(self)@.max_instances == old(self)@.max_instances,
            final(self)@.cooldown == old(self)@.cooldown,
            final(self)@.check_interval == old(self)@.check_interval,
            exists|now: u128|
                #![trigger Self::cooling_down(old(self)@, now)]
                {
                    &&& now >= old(self).latest_time()
                    &&& final(self).latest_time() == now
                    &&& Self::cooling_down(old(self)@, now) ==> r is None && final(self)@ == old(self)@
                    &&& !Self::cooling_down(old(self)@, now) ==> exists|t: u128|
                        #[trigger] collected_state(old(self)@.registry, final(self)@.registry, t)
                    &&& !Self::cooling_down(old(self)@, now) ==> exists|ts: i64|
                        (final(self)@.breaches, decision_view(r)) == rules_outcome(
                            old(self)@.breaches,
                            old(self)@.rules,
                            #[trigger] collected(final(self)@.registry.entries, ts),
                            old(self)@.current,
                            old(self)@.min_instances,
                            old(self)@.max_instances,
                        )
                },
    {
        let now = self.now();
        self.evaluate_at(now)
    }

    /// Apply a scaling decision: move to its target (clamped) and start a
    /// cooldown.
    pub fn apply_decision(&mut self, decision: &ScalingDecision)
        requires
            old(self)@.min_instances <= old(self)@.max_instances,
        ensures
            final(self)@.current == (if decision.target_instances < old(self)@.min_instances {
                old(self)@.min_instances
            } else if decision.target_instances > old(self)@.max_instances {
                old(self)@.max_instances
            } else {
                decision.target_instances
            }),
            final(self)@.breaches == old(self)@.breaches,
            final(self)@.registry == old(self)@.registry,
            final(self)@.last_scale >= old(self).latest_time(),
            final(self).latest_time() == final(self)@.last_scale,
            old(self).wf() ==> final(self).wf(),
    {
        self.set_instances(decision.target_instances);
    }

    /// The scaler's configuration.
    pub fn config(&self) -> (r: &AutoScalerConfig)
        ensures
            r.min_instances == self@.min_instances,
            r.max_instances == self@.max_instances,
            r.cooldown == self@.cooldown,
            r.check_interval == self@.check_interval,
            r.rules@.map_values(|rule: ScalingRule| rule@) == self@.rules,
    {
        &self.config
    }
}

/// The loads recorded at times after `now - window`, in order.
pub open spec fn recent(h: Seq<(u128, usize)>, now: u128, window: nat) -> Seq<(u128, usize)>
    decreases h.len(),
{
    if h.len() == 0 {
        seq![]
    } else if h.last().0 + window > now {
        recent(h.drop_last(), now, window).push(h.last())
    } else {
        recent(h.drop_last(), now, window)
    }
}

/// The predictive scaler keeps only recent loads: every load that `recent`
/// keeps was recorded less than the window before `now`, and the loads keep
/// their order.
pub proof fn law_recent_keeps_only_recent(h: Seq<(u128, usize)>, now: u128, window: nat)
    ensures
        recent(h, now, window).len() <= h.len(),
        forall|i: int|
            0 <= i < recent(h, now, window).len() ==> #[trigger] recent(h, now, window)[i].0 + window
                > now,
    decreases h.len(),
{
    if h.len() > 0 {
        law_recent_keeps_only_recent(h.drop_last(), now, window);
        let r = recent(h.drop_last(), now, window);
        if h.last().0 + window > now {
            assert forall|i: int| 0 <= i < recent(h, now, window).len() implies #[trigger] recent(
                h,
                now,
                window,
            )[i].0 + window > now by {
                if i < r.len() {
                    assert(recent(h, now, window)[i] == r[i]);
                }
            }
        }
    }
}

/// Recording a load at a time no earlier than the loads already recorded
/// keeps the history in time order, ending with the new load (when the
/// window is not empty), and forgets every load recorded a window or more
/// before it: what remains was recorded within the window before the new
/// load, so a load older than the window never feeds a prediction.
pub proof fn law_recording_forgets_loads_outside_the_window(
    h: Seq<(u128, usize)>,
    now: u128,
    load: usize,
    window: nat,
)
    requires
        forall|i: int| 0 <= i < h.len() ==> #[trigger] h[i].0 <= now,
    ensures
        ({
            let r = recent(h.push((now, load)), now, window);
            &&& window > 0 ==> r.len() > 0 && r.last() == (now, load)
            &&& forall|k: int| 0 <= k < r.len() ==> #[trigger] r[k].0 <= now && r[k].0 + window > now
        }),
{
    let hp = h.push((now, load));
    assert(hp.drop_last() =~= h);
    law_recent_keeps_only_recent(hp, now, window);
    lemma_recent_from(hp, now, window);
}

proof fn lemma_recent_from(h: Seq<(u128, usize)>, now: u128, window: nat)
    ensures
        forall|k: int| 0 <= k < recent(h, now, window).len() ==> exists|j: int|
            0 <= j < h.len() && #[trigger] recent(h, now, window)[k] == h[j],
    decreases h.len(),
{
    if h.len() > 0 {
        lemma_recent_from(h.drop_last(), now, window);
        let r0 = recent(h.drop_last(), now, window);
        let r = recent(h, now, window);
        assert forall|k: int| 0 <= k < r.len() implies exists|j: int|
            0 <= j < h.len() && #[trigger] r[k] == h[j] by {
            if k < r0.len() {
                assert(r[k] == r0[k]);
                let j = choose|j: int| 0 <= j < h.drop_last().len() && r0[k] == h.drop_last()[j];
                assert(r[k] == h[j]);
            } else {
                assert(r[k] == h[h.len() - 1]);
            }
        }
    }
}

/// After scaling, the scaler cools down: when the last scaling is no
/// earlier than a time the scaler had already seen, every evaluation from
/// that time until a cooldown after it is refused.
pub proof fn law_scaling_starts_a_cooldown(v: ScalerView, seen: u128, later: u128)
    requires
        v.last_scale >= seen,
        seen <= later,
        later < seen + duration_nanos(v.cooldown),
    ensures
        AutoScaler::cooling_down(v, later),
{
}

/// The abstract state of a predictive scaler.
pub struct PredictiveView {
    pub history: Seq<(u128, usize)>,
    pub window: std::time::Duration,
    pub base: ScalerView,
}

/// Predictive auto-scaler: an auto-scaler with a record of recent load, from
/// which a trend can be extrapolated.
pub struct PredictiveScaler {
    base_scaler: AutoScaler,
    history: Vec<(u128, usize)>,
    prediction_window: std::time::Duration,
    window_nanos: u128,
    clock: std::time::Instant,
}

impl View for PredictiveScaler {
    type V = PredictiveView;

    closed spec fn view(&self) -> PredictiveView {
        PredictiveView {
            history: self.history@,
            window: self.prediction_window,
            base: self.base_scaler@,
        }
    }
}

impl PredictiveScaler {
    /// The scaler is consistent: its base scaler is and the stored window is
    /// the configured one.
    pub closed spec fn wf(&self) -> bool {
        &&& self.base_scaler.wf()
        &&& self.window_nanos == duration_nanos(self.prediction_window)
    }

    /// Create a new predictive scaler that keeps the load of the last
    /// `prediction_window`.
    pub fn new(
        config: AutoScalerConfig,
        registry: MetricRegistry,
        prediction_window: std::time::Duration,
    ) -> (r: Self)
        requires
            registry.wf(),
        ensures
            r.wf(),
            r@.history.len() == 0,
            r@.window == prediction_window,
            r@.base.current == config.min_instances,
    {
        let window_nanos = duration_as_nanos(&prediction_window);
        PredictiveScaler {
            base_scaler: AutoScaler::new(config, registry),
            history: Vec::new(),
            prediction_window,
            window_nanos,
            clock: instant_now(),
        }
    }

    /// Record `load` at `now` (nanoseconds of the scaler's clock) and forget
    /// the loads recorded a window or more before.
    pub fn record_load_at(&mut self, now: u128, load: usize)
        requires
            old(self).wf(),
        ensures
            final(self).wf(),
            final(self)@.history == recent(
                old(self)@.history.push((now, load)),
                now,
                duration_nanos(old(self)@.window),
            ),
            final(self)@.window == old(self)@.window,
            final(self)@.base == old(self)@.base,
    {
        let mut all: Vec<(u128, usize)> = Vec::new();
        std::mem::swap(&mut all, &mut self.history);
        all.push((now, load));
        let ghost h = all@;
        let w = self.window_nanos;
        let mut kept: Vec<(u128, usize)> = Vec::new();
        for i in 0..all.len()
            invariant
                h == all@,
                w == duration_nanos(old(self)@.window),
                kept@ == recent(h.take(i as int), now, w as nat),
        {
            let (t, l) = all[i];
            let ghost prefix = h.take(i + 1);
            assert(prefix.drop_last() =~= h.take(i as int));
            assert(prefix.last() == (t, l));
            if t > now || now - t < w {
                kept.push((t, l));
                assert(t + w > now);
            } else {
                assert(!(t + w > now));
            }
            assert(kept@ == recent(prefix, now, w as nat));
        }
        assert(h.take(h.len() as int) =~= h);
        self.history = kept;
    }

    /// The scaler clock's reading, never earlier than a recorded load: the
    /// clock does not go back, so this is the reading itself.
    fn now(&self) -> (r: u128)
        ensures
            forall|i: int| 0 <= i < self@.history.len() ==> #[trigger] self@.history[i].0 <= r,
    {
        let mut r = nanos_since(&self.clock);
        let n = self.history.len();
        for k in 0..n
            invariant
                n == self.history@.len(),
                forall|i: int| 0 <= i < k ==> #[trigger] self@.history[i].0 <= r,
        {
            if self.history[k].0 > r {
                r = self.history[k].0;
            }
        }
        r
    }

    /// Record current load
    pub fn record_load(&mut self, load: usize)
        requires
            old(self).wf(),
        ensures
            final(self).wf(),
            exists|now: u128|
                final(self)@.history == #[trigger] recent(
                    old(self)@.history.push((now, load)),
                    now,
                    duration_nanos(old(self)@.window),
                ) && (forall|i: int|
                    0 <= i < old(self)@.history.len() ==> #[trigger] old(self)@.history[i].0 <= now),
            final(self)@.window == old(self)@.window,
            final(self)@.base == old(self)@.base,
    {
        let now = self.now();
        self.record_load_at(now, load);
    }

    /// The recorded loads, oldest first.
    pub fn load_history(&self) -> (r: Vec<usize>)
        ensures
            r@ == self@.history.map_values(|e: (u128, usize)| e.1),
    {
        let mut r: Vec<usize> = Vec::new();
        for i in 0..self.history.len()
            invariant
                r@ == self@.history.take(i as int).map_values(|e: (u128, usize)| e.1),
        {
            r.push(self.history[i].1);
            assert(r@ =~= self@.history.take(i + 1).map_values(|e: (u128, usize)| e.1));
        }
        assert(self@.history.take(self@.history.len() as int) =~= self@.history);
        r
    }

    /// Get current instance count
    pub fn current_instances(&self) -> (r: usize)
        ensures
            r == self@.base.current,
    {
        self.base_scaler.current_instances()
    }
}

} // verus!
