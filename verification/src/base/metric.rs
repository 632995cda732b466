//! Metric types and definitions

use vstd::prelude::*;
use crate::base::clock::unix_millis_now;
use crate::base::labels::Labels;
use crate::base::float_text::{
    f64_round, float_as_i64, float_as_i64_of, float_display, push_float_display, shortest,
};
use crate::base::text::{chars_of, decimal, signed_decimal};

verus! {

/// Type of metric
#[derive(Debug, Clone, Copy, PartialEq, Eq, Hash, Structural)]
pub enum MetricType {
    /// Counter metric (monotonically increasing)
    Counter,
    /// Gauge metric (can go up or down)
    Gauge,
    /// Histogram metric (distribution of values)
    Histogram,
    /// Summary metric (statistical summary)
    Summary,
    /// Timer metric (duration measurements)
    Timer,
}

/// The lower-case name of a metric type.
pub open spec fn metric_type_name(t: MetricType) -> Seq<char> {
    match t {
        MetricType::Counter => "counter"@,
        MetricType::Gauge => "gauge"@,
        MetricType::Histogram => "histogram"@,
        MetricType::Summary => "summary"@,
        MetricType::Timer => "timer"@,
    }
}

impl MetricType {
    /// Convert to string
    pub fn as_str(&self) -> (r: &'static str)
        ensures
            r@ == metric_type_name(*self),
    {
        match self {
            MetricType::Counter => "counter",
            MetricType::Gauge => "gauge",
            MetricType::Histogram => "histogram",
            MetricType::Summary => "summary",
            MetricType::Timer => "timer",
        }
    }
}

/// A character of the `Display` text of a finite `f64`: a digit, the
/// decimal point or the minus sign.
pub open spec fn float_char(c: char) -> bool {
    ('0' <= c && c <= '9') || c == '.' || c == '-'
}

/// Text that `Display` can give an `f64`: digits with a sign and a point
/// (it never uses an exponent), or `inf`, `-inf` or `NaN`.
pub open spec fn float_text(s: Seq<char>) -> bool {
    ||| (s.len() > 0 && forall|i: int| 0 <= i < s.len() ==> #[trigger] float_char(s[i]))
    ||| s == seq!['i', 'n', 'f']
    ||| s == seq!['-', 'i', 'n', 'f']
    ||| s == seq!['N', 'a', 'N']
}

/// A floating-point reading, held as what the library reads of it: the text
/// that Rust's `Display` gives the `f64`, and the `f64` converted to `i64` by
/// `as` (saturating, NaN to 0).
#[derive(Debug)]
pub struct FloatValue {
    text: String,
    truncated: i64,
}

impl View for FloatValue {
    type V = (Seq<char>, i64);

    closed spec fn view(&self) -> (Seq<char>, i64) {
        (self.text@, self.truncated)
    }
}

impl Clone for FloatValue {
    fn clone(&self) -> (r: FloatValue)
        ensures
            r@ == self@,
    {
        self.duplicate()
    }
}

/// The reading of an integer `v` as a float: what `Display` gives
/// `v as f64`, and `(v as f64) as i64`.
pub open spec fn float_of_integer(v: int) -> (Seq<char>, i64) {
    (float_display(v), float_as_i64(v) as i64)
}

/// Decimal texts of integers, and what `Display` gives an integer converted
/// to `f64`, are float display texts.
pub proof fn lemma_decimal_is_float_text(v: int)
    ensures
        float_text(signed_decimal(v)),
        float_text(float_display(v)),
{
    let d = if v < 0 { (-v) as nat } else { v as nat };
    lemma_signed_digits(v < 0, d);
    assert(signed_decimal(v) == (if v < 0 { seq!['-'] + decimal(d) } else { decimal(d) }));
    lemma_signed_digits(v < 0, shortest(f64_round(d), 20));
}

proof fn lemma_signed_digits(neg: bool, d: nat)
    ensures
        float_text(if neg { seq!['-'] + decimal(d) } else { decimal(d) }),
{
    lemma_decimal_digits(d);
    let s = if neg { seq!['-'] + decimal(d) } else { decimal(d) };
    if neg {
        assert forall|i: int| 0 <= i < s.len() implies #[trigger] float_char(s[i]) by {
            if i > 0 {
                assert(s[i] == decimal(d)[i - 1]);
            }
        }
    } else {
        assert forall|i: int| 0 <= i < s.len() implies #[trigger] float_char(s[i]) by {
            assert(s[i] == decimal(d)[i]);
        }
    }
}

proof fn lemma_decimal_digits(n: nat)
    ensures
        decimal(n).len() > 0,
        forall|i: int| 0 <= i < decimal(n).len() ==> '0' <= #[trigger] decimal(n)[i] <= '9',
    decreases n,
{
    if n >= 10 {
        lemma_decimal_digits(n / 10);
        let p = decimal(n / 10);
        assert forall|i: int| 0 <= i < decimal(n).len() implies '0' <= #[trigger] decimal(n)[i] <= '9' by {
            if i < p.len() {
                assert(decimal(n)[i] == p[i]);
            }
        }
    }
}

/// Whether `s` is text that `Display` can give an `f64`.
pub fn is_float_text(s: &str) -> (r: bool)
    ensures
        r == float_text(s@),
{
    let cs = chars_of(s);
    let n = cs.len();
    if n == 3 && cs[0] == 'i' && cs[1] == 'n' && cs[2] == 'f' {
        assert(s@ =~= seq!['i', 'n', 'f']);
        return true;
    }
    if n == 4 && cs[0] == '-' && cs[1] == 'i' && cs[2] == 'n' && cs[3] == 'f' {
        assert(s@ =~= seq!['-', 'i', 'n', 'f']);
        return true;
    }
    if n == 3 && cs[0] == 'N' && cs[1] == 'a' && cs[2] == 'N' {
        assert(s@ =~= seq!['N', 'a', 'N']);
        return true;
    }
    proof {
        if s@ == seq!['i', 'n', 'f'] || s@ == seq!['-', 'i', 'n', 'f'] || s@ == seq!['N', 'a', 'N'] {
            assert(cs@[0] == s@[0]);
        }
    }
    if n == 0 {
        return false;
    }
    let mut i: usize = 0;
    while i < n
        invariant
            i <= n,
            n == cs@.len(),
            cs@ == s@,
            n > 0,
            !(s@ == seq!['i', 'n', 'f'] || s@ == seq!['-', 'i', 'n', 'f'] || s@ == seq!['N', 'a', 'N']),
            forall|j: int| 0 <= j < i ==> #[trigger] float_char(s@[j]),
        decreases n - i,
    {
        let c = cs[i];
        if !(('0' <= c && c <= '9') || c == '.' || c == '-') {
            assert(!float_char(s@[i as int]));
            return false;
        }
        i = i + 1;
    }
    true
}

impl FloatValue {
    /// A float reading from its display text and its integer conversion;
    /// `None` when the text is not one that `Display` gives an `f64`.
    pub fn new(text: String, truncated: i64) -> (r: Option<FloatValue>)
        ensures
            r is Some <==> float_text(text@),
            r matches Some(f) ==> f@ == (text@, truncated),
    {
        if is_float_text(text.as_str()) {
            Some(FloatValue { text, truncated })
        } else {
            None
        }
    }

    /// The display text.
    pub fn text(&self) -> (r: &String)
        ensures
            r@ == self@.0,
            float_text(r@),
    {
        proof {
            use_type_invariant(self);
        }
        &self.text
    }

    /// The value converted to `i64`.
    pub fn truncated(&self) -> (r: i64)
        ensures
            r == self@.1,
    {
        self.truncated
    }

    #[verifier::type_invariant]
    closed spec fn inv(&self) -> bool {
        float_text(self.text@)
    }

    /// The float reading of an integer.
    pub fn from_integer(v: i64) -> (r: FloatValue)
        ensures
            r@ == float_of_integer(v as int),
    {
        let mut text = String::new();
        push_float_display(&mut text, v as i128);
        assert(text@ =~= float_display(v as int));
        proof {
            lemma_decimal_is_float_text(v as int);
        }
        FloatValue { text, truncated: float_as_i64_of(v) }
    }

    /// A copy of this reading.
    pub fn duplicate(&self) -> (r: FloatValue)
        ensures
            r@ == self@,
    {
        proof {
            use_type_invariant(self);
        }
        FloatValue { text: self.text.clone(), truncated: self.truncated }
    }
}

/// The abstract content of a histogram.
pub struct HistogramView {
    pub buckets: Seq<(Seq<char>, i64)>,
    pub counts: Seq<u64>,
    pub sum: (Seq<char>, i64),
    pub count: u64,
}

/// Histogram bucket data
#[derive(Debug, Clone)]
pub struct HistogramData {
    /// Bucket boundaries
    pub buckets: Vec<FloatValue>,
    /// Count per bucket
    pub counts: Vec<u64>,
    /// Total sum
    pub sum: FloatValue,
    /// Total count
    pub count: u64,
}

impl View for HistogramData {
    type V = HistogramView;

    open spec fn view(&self) -> HistogramView {
        HistogramView {
            buckets: self.buckets@.map_values(|b: FloatValue| b@),
            counts: self.counts@,
            sum: self.sum@,
            count: self.count,
        }
    }
}

fn copy_floats(v: &Vec<FloatValue>) -> (r: Vec<FloatValue>)
    ensures
        r@.map_values(|b: FloatValue| b@) == v@.map_values(|b: FloatValue| b@),
{
    let mut r: Vec<FloatValue> = Vec::new();
    for i in 0..v.len()
        invariant
            r@.map_values(|b: FloatValue| b@) == v@.take(i as int).map_values(|b: FloatValue| b@),
    {
        let ghost prev = r@;
        let b = v[i].duplicate();
        r.push(b);
        assert(r@.map_values(|b: FloatValue| b@) =~= prev.map_values(|b: FloatValue| b@).push(
            v@[i as int]@,
        ));
        assert(r@.map_values(|b: FloatValue| b@) =~= v@.take(i + 1).map_values(
            |b: FloatValue| b@,
        ));
    }
    assert(v@.take(v.len() as int) =~= v@);
    r
}

fn copy_counts(v: &Vec<u64>) -> (r: Vec<u64>)
    ensures
        r@ == v@,
{
    let mut r: Vec<u64> = Vec::new();
    for i in 0..v.len()
        invariant
            r@ == v@.take(i as int),
    {
        r.push(v[i]);
        assert(r@ =~= v@.take(i + 1));
    }
    assert(v@.take(v.len() as int) =~= v@);
    r
}

impl HistogramData {
    /// Create a new histogram with specified buckets: one count per bucket
    /// and one for values above the last, all zero.
    pub fn new(buckets: Vec<FloatValue>) -> (r: Self)
        requires
            buckets.len() < usize::MAX,
        ensures
            r.buckets@ == buckets@,
            r.counts@ == Seq::new((buckets.len() + 1) as nat, |i: int| 0u64),
            r.sum@ == float_of_integer(0),
            r.count == 0,
    {
        let len = buckets.len();
        let counts = vec![0u64; len + 1];
        let r = HistogramData { buckets, counts, sum: FloatValue::from_integer(0), count: 0 };
        assert(r.counts@ =~= Seq::new((len + 1) as nat, |i: int| 0u64));
        r
    }

    /// A copy of this histogram.
    pub fn duplicate(&self) -> (r: HistogramData)
        ensures
            r@ == self@,
    {
        HistogramData {
            buckets: copy_floats(&self.buckets),
            counts: copy_counts(&self.counts),
            sum: self.sum.duplicate(),
            count: self.count,
        }
    }
}

/// The abstract content of a summary.
pub struct SummaryView {
    pub sum: (Seq<char>, i64),
    pub count: u64,
    pub min: (Seq<char>, i64),
    pub max: (Seq<char>, i64),
    pub mean: (Seq<char>, i64),
}

/// Summary statistics data
#[derive(Debug, Clone)]
pub struct SummaryData {
    /// Total sum
    pub sum: FloatValue,
    /// Total count
    pub count: u64,
    /// Minimum value
    pub min: FloatValue,
    /// Maximum value
    pub max: FloatValue,
    /// Mean value
    pub mean: FloatValue,
}

impl View for SummaryData {
    type V = SummaryView;

    open spec fn view(&self) -> SummaryView {
        SummaryView {
            sum: self.sum@,
            count: self.count,
            min: self.min@,
            max: self.max@,
            mean: self.mean@,
        }
    }
}

/// The summary of no observations: sums zero, minimum +infinity, maximum
/// -infinity.
pub open spec fn empty_summary() -> SummaryView {
    SummaryView {
        sum: float_of_integer(0),
        count: 0,
        min: ("inf"@, i64::MAX),
        max: ("-inf"@, i64::MIN),
        mean: float_of_integer(0),
    }
}

impl SummaryData {
    /// Create a new summary
    pub fn new() -> (r: Self)
        ensures
            r@ == empty_summary(),
    {
        SummaryData {
            sum: FloatValue::from_integer(0),
            count: 0,
            min: {
                proof {
                    reveal_strlit("inf");
                    reveal_strlit("-inf");
                    assert("inf"@ =~= seq!['i', 'n', 'f']);
                    assert("-inf"@ =~= seq!['-', 'i', 'n', 'f']);
                }
                float_literal("inf", i64::MAX)
            },
            max: float_literal("-inf", i64::MIN),
            mean: FloatValue::from_integer(0),
        }
    }

    /// A copy of this summary.
    pub fn duplicate(&self) -> (r: SummaryData)
        ensures
            r@ == self@,
    {
        SummaryData {
            sum: self.sum.duplicate(),
            count: self.count,
            min: self.min.duplicate(),
            max: self.max.duplicate(),
            mean: self.mean.duplicate(),
        }
    }
}

impl Default for SummaryData {
    fn default() -> (r: Self)
        ensures
            r@ == empty_summary(),
    {
        Self::new()
    }
}

/// The abstract content of a metric value.
pub enum MetricValueView {
    Int(i64),
    Uint(u64),
    Float((Seq<char>, i64)),
    Histogram(HistogramView),
    Summary(SummaryView),
}

/// Metric value
#[derive(Debug, Clone)]
pub enum MetricValue {
    /// Integer value
    Int(i64),
    /// Unsigned integer value
    Uint(u64),
    /// Float value
    Float(FloatValue),
    /// Histogram buckets
    Histogram(HistogramData),
    /// Summary statistics
    Summary(SummaryData),
}

impl View for MetricValue {
    type V = MetricValueView;

    open spec fn view(&self) -> MetricValueView {
        match self {
            MetricValue::Int(v) => MetricValueView::Int(*v),
            MetricValue::Uint(v) => MetricValueView::Uint(*v),
            MetricValue::Float(f) => MetricValueView::Float(f@),
            MetricValue::Histogram(h) => MetricValueView::Histogram(h@),
            MetricValue::Summary(s) => MetricValueView::Summary(s@),
        }
    }
}

impl MetricValue {
    /// A copy of this value.
    pub fn duplicate(&self) -> (r: MetricValue)
        ensures
            r@ == self@,
    {
        match self {
            MetricValue::Int(v) => MetricValue::Int(*v),
            MetricValue::Uint(v) => MetricValue::Uint(*v),
            MetricValue::Float(f) => MetricValue::Float(f.duplicate()),
            MetricValue::Histogram(h) => MetricValue::Histogram(h.duplicate()),
            MetricValue::Summary(s) => MetricValue::Summary(s.duplicate()),
        }
    }
}

/// The bucket boundaries of a histogram metric created without explicit
/// buckets, as (display text, integer conversion).
pub open spec fn default_buckets() -> Seq<(Seq<char>, i64)> {
    seq![
        ("0.005"@, 0i64),
        ("0.01"@, 0i64),
        ("0.025"@, 0i64),
        ("0.05"@, 0i64),
        ("0.1"@, 0i64),
        ("0.25"@, 0i64),
        ("0.5"@, 0i64),
        ("1"@, 1i64),
        ("2.5"@, 2i64),
        ("5"@, 5i64),
        ("10"@, 10i64),
    ]
}

fn float_literal(text: &str, truncated: i64) -> (r: FloatValue)
    requires
        float_text(text@),
    ensures
        r@ == (text@, truncated),
{
    FloatValue { text: text.to_string(), truncated }
}

/// The default histogram bucket boundaries.
pub fn default_bucket_values() -> (r: Vec<FloatValue>)
    ensures
        r@.len() == 11,
        r@.map_values(|b: FloatValue| b@) == default_buckets(),
{
    proof {
        reveal_strlit("0.005");
        reveal_strlit("0.01");
        reveal_strlit("0.025");
        reveal_strlit("0.05");
        reveal_strlit("0.1");
        reveal_strlit("0.25");
        reveal_strlit("0.5");
        reveal_strlit("1");
        reveal_strlit("2.5");
        reveal_strlit("5");
        reveal_strlit("10");
    }
    let mut r: Vec<FloatValue> = Vec::new();
    r.push(float_literal("0.005", 0));
    r.push(float_literal("0.01", 0));
    r.push(float_literal("0.025", 0));
    r.push(float_literal("0.05", 0));
    r.push(float_literal("0.1", 0));
    r.push(float_literal("0.25", 0));
    r.push(float_literal("0.5", 0));
    r.push(float_literal("1", 1));
    r.push(float_literal("2.5", 2));
    r.push(float_literal("5", 5));
    r.push(float_literal("10", 10));
    assert(r@.map_values(|b: FloatValue| b@) =~= default_buckets());
    r
}

/// The value that a new metric of type `t` starts with.
pub open spec fn initial_value(t: MetricType) -> MetricValueView {
    match t {
        MetricType::Counter => MetricValueView::Uint(0),
        MetricType::Gauge => MetricValueView::Float(float_of_integer(0)),
        MetricType::Histogram => MetricValueView::Histogram(
            HistogramView {
                buckets: default_buckets(),
                counts: Seq::new(12, |i: int| 0u64),
                sum: float_of_integer(0),
                count: 0,
            },
        ),
        MetricType::Summary => MetricValueView::Summary(empty_summary()),
        MetricType::Timer => MetricValueView::Summary(empty_summary()),
    }
}

/// The abstract content of a metric.
pub struct MetricView {
    pub name: Seq<char>,
    pub metric_type: MetricType,
    pub help: Seq<char>,
    pub labels: Seq<(Seq<char>, Seq<char>)>,
    pub value: MetricValueView,
    pub timestamp: i64,
}

/// A metric with metadata
#[derive(Debug, Clone)]
pub struct Metric {
    /// Metric name
    pub name: String,
    /// Metric type
    pub metric_type: MetricType,
    /// Help text
    pub help: String,
    /// Labels
    pub labels: Labels,
    /// Metric value
    pub value: MetricValue,
    /// Timestamp (Unix timestamp in milliseconds)
    pub timestamp: i64,
}

impl View for Metric {
    type V = MetricView;

    open spec fn view(&self) -> MetricView {
        MetricView {
            name: self.name@,
            metric_type: self.metric_type,
            help: self.help@,
            labels: self.labels.pairs(),
            value: self.value@,
            timestamp: self.timestamp,
        }
    }
}

impl Metric {
    /// Create a new metric, stamped with the current time.
    pub fn new(name: &str, metric_type: MetricType, help: &str, labels: Labels) -> (r: Self)
        ensures
            r.name@ == name@,
            r.metric_type == metric_type,
            r.help@ == help@,
            r.labels == labels,
            r.value@ == initial_value(metric_type),
    {
        let value = match metric_type {
            MetricType::Counter => MetricValue::Uint(0),
            MetricType::Gauge => MetricValue::Float(FloatValue::from_integer(0)),
            MetricType::Histogram => MetricValue::Histogram(
                HistogramData::new(default_bucket_values()),
            ),
            MetricType::Summary => MetricValue::Summary(SummaryData::new()),
            MetricType::Timer => MetricValue::Summary(SummaryData::new()),
        };
        proof {
            if metric_type == MetricType::Histogram {
                assert(value@ =~= initial_value(metric_type));
            }
        }
        Metric {
            name: name.to_string(),
            metric_type,
            help: help.to_string(),
            labels,
            value,
            timestamp: unix_millis_now(),
        }
    }

    /// Update timestamp to current time
    pub fn update_timestamp(&mut self)
        ensures
            final(self).name == old(self).name,
            final(self).metric_type == old(self).metric_type,
            final(self).help == old(self).help,
            final(self).labels == old(self).labels,
            final(self).value == old(self).value,
    {
        self.timestamp = unix_millis_now();
    }

    /// A copy of this metric.
    pub fn duplicate(&self) -> (r: Metric)
        ensures
            r@ == self@,
    {
        Metric {
            name: self.name.clone(),
            metric_type: self.metric_type,
            help: self.help.clone(),
            labels: self.labels.duplicate(),
            value: self.value.duplicate(),
            timestamp: self.timestamp,
        }
    }
}

/// Counter metric: an unsigned count that only grows (stopping at
/// `u64::MAX`) until it is reset.
#[derive(Debug)]
pub struct Counter {
    value: u64,
}

impl View for Counter {
    type V = u64;

    closed spec fn view(&self) -> u64 {
        self.value
    }
}

impl Counter {
    /// Create a new counter
    pub fn new() -> (r: Self)
        ensures
            r@ == 0,
    {
        Counter { value: 0 }
    }

    /// Increment the counter by 1 (it stays at `u64::MAX` once there)
    pub fn inc(&mut self)
        ensures
            final(self)@ == counter_add(old(self)@, 1),
    {
        self.value = self.value.saturating_add(1);
    }

    /// Increment the counter by a specific amount (it stops at `u64::MAX`)
    pub fn inc_by(&mut self, amount: u64)
        ensures
            final(self)@ == counter_add(old(self)@, amount),
    {
        self.value = self.value.saturating_add(amount);
    }

    /// Get the current value
    pub fn get(&self) -> (r: u64)
        ensures
            r == self@,
    {
        self.value
    }

    /// Reset the counter to zero
    pub fn reset(&mut self)
        ensures
            final(self)@ == 0,
    {
        self.value = 0;
    }
}

impl Default for Counter {
    fn default() -> (r: Self)
        ensures
            r@ == 0,
    {
        Self::new()
    }
}

/// A counter's count after `n` is added to `v`: `v + n`, or `u64::MAX` when
/// that does not fit.
pub open spec fn counter_add(v: u64, n: u64) -> u64 {
    if v + n <= u64::MAX {
        (v + n) as u64
    } else {
        u64::MAX
    }
}

/// A counter never decreases except by reset: adding to it gives at least
/// what it held, and exactly the sum whenever that fits in `u64`.
pub proof fn law_counter_never_decreases(v: u64, n: u64)
    ensures
        counter_add(v, n) >= v,
        v + n <= u64::MAX ==> counter_add(v, n) == v + n,
{
}

/// Raising a gauge by one and lowering it by one gives back its value, and
/// so do `inc_by(n)` and `dec_by(n)`, overflow included.
pub proof fn law_gauge_up_then_down(v: i64, n: i64)
    ensures
        v.wrapping_add(1).wrapping_sub(1) == v,
        v.wrapping_add(n).wrapping_sub(n) == v,
{
    assert(v.wrapping_add(n).wrapping_sub(n) == v) by (bit_vector);
    assert(v.wrapping_add(1).wrapping_sub(1) == v) by (bit_vector);
}

/// Gauge metric: a signed value that can go up or down, wrapping on
/// overflow.
#[derive(Debug)]
pub struct Gauge {
    value: i64,
}

impl View for Gauge {
    type V = i64;

    closed spec fn view(&self) -> i64 {
        self.value
    }
}

impl Gauge {
    /// Create a new gauge
    pub fn new() -> (r: Self)
        ensures
            r@ == 0,
    {
        Gauge { value: 0 }
    }

    /// Set the gauge to a specific value
    pub fn set(&mut self, value: i64)
        ensures
            final(self)@ == value,
    {
        self.value = value;
    }

    /// Increment the gauge by 1
    pub fn inc(&mut self)
        ensures
            final(self)@ == old(self)@.wrapping_add(1),
    {
        self.value = self.value.wrapping_add(1);
    }

    /// Increment the gauge by a specific amount
    pub fn inc_by(&mut self, amount: i64)
        ensures
            final(self)@ == old(self)@.wrapping_add(amount),
    {
        self.value = self.value.wrapping_add(amount);
    }

    /// Decrement the gauge by 1
    pub fn dec(&mut self)
        ensures
            final(self)@ == old(self)@.wrapping_sub(1),
    {
        self.value = self.value.wrapping_sub(1);
    }

    /// Decrement the gauge by a specific amount
    pub fn dec_by(&mut self, amount: i64)
        ensures
            final(self)@ == old(self)@.wrapping_sub(amount),
    {
        self.value = self.value.wrapping_sub(amount);
    }

    /// Get the current value
    pub fn get(&self) -> (r: i64)
        ensures
            r == self@,
    {
        self.value
    }

    /// Reset the gauge to zero
    pub fn reset(&mut self)
        ensures
            final(self)@ == 0,
    {
        self.value = 0;
    }
}

impl Default for Gauge {
    fn default() -> (r: Self)
        ensures
            r@ == 0,
    {
        Self::new()
    }
}

} // verus!
