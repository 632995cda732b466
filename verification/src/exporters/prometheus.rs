//! Prometheus format exporter

use vstd::prelude::*;
use crate::base::error::MonitoringError;
use crate::base::labels::{pairs_insert, pairs_view, Labels};
use crate::base::metric::{
    float_char, float_text, lemma_decimal_is_float_text, HistogramData, HistogramView, SummaryView, Metric,
    MetricType, MetricValue, MetricValueView, MetricView,
};
use crate::base::float_text::{float_display, push_float_display};
use crate::base::text::{
    chars_of, push_char, push_str, signed_decimal,
};

verus! {

/// An ASCII letter or digit.
pub open spec fn is_ascii_alphanumeric(c: char) -> bool {
    ('a' <= c && c <= 'z') || ('A' <= c && c <= 'Z') || ('0' <= c && c <= '9')
}

fn ascii_alphanumeric(c: char) -> (r: bool)
    ensures
        r == is_ascii_alphanumeric(c),
{
    ('a' <= c && c <= 'z') || ('A' <= c && c <= 'Z') || ('0' <= c && c <= '9')
}

/// A metric-name character: kept when an ASCII letter or digit, '_' or
/// ':', else '_' (metric names are `[a-zA-Z0-9_:]*`).
pub open spec fn metric_name_char(c: char) -> char {
    if is_ascii_alphanumeric(c) || c == '_' || c == ':' {
        c
    } else {
        '_'
    }
}

/// A label-name character: kept when an ASCII letter or digit or '_', else
/// '_' (label names are `[a-zA-Z0-9_]*`).
pub open spec fn label_name_char(c: char) -> char {
    if is_ascii_alphanumeric(c) || c == '_' {
        c
    } else {
        '_'
    }
}

/// A metric name with every character made valid.
pub open spec fn sanitize_metric_name(s: Seq<char>) -> Seq<char> {
    s.map_values(|c: char| metric_name_char(c))
}

/// A label name with every character made valid.
pub open spec fn sanitize_label_name(s: Seq<char>) -> Seq<char> {
    s.map_values(|c: char| label_name_char(c))
}

/// How a label-value character is written: backslash, double quote and
/// newline are escaped.
pub open spec fn escape_value_char(c: char) -> Seq<char> {
    if c == '\\' {
        seq!['\\', '\\']
    } else if c == '"' {
        seq!['\\', '"']
    } else if c == '\n' {
        seq!['\\', 'n']
    } else {
        seq![c]
    }
}

/// A label value with backslashes, double quotes and newlines escaped.
pub open spec fn escape_label_value(s: Seq<char>) -> Seq<char>
    decreases s.len(),
{
    if s.len() == 0 {
        seq![]
    } else {
        escape_label_value(s.drop_last()) + escape_value_char(s.last())
    }
}

/// How a help-text character is written: backslash and newline are
/// escaped.
pub open spec fn escape_help_char(c: char) -> Seq<char> {
    if c == '\\' {
        seq!['\\', '\\']
    } else if c == '\n' {
        seq!['\\', 'n']
    } else {
        seq![c]
    }
}

/// Help text with backslashes and newlines escaped.
pub open spec fn escape_help(s: Seq<char>) -> Seq<char>
    decreases s.len(),
{
    if s.len() == 0 {
        seq![]
    } else {
        escape_help(s.drop_last()) + escape_help_char(s.last())
    }
}

/// Escaped label values and help texts hold no line break, so no label
/// value or help text can start a line of its own in the exposition.
pub proof fn law_escaped_text_has_no_newline(s: Seq<char>)
    ensures
        forall|i: int| 0 <= i < escape_label_value(s).len() ==> #[trigger] escape_label_value(s)[i] != '\n',
        forall|i: int| 0 <= i < escape_help(s).len() ==> #[trigger] escape_help(s)[i] != '\n',
    decreases s.len(),
{
    if s.len() > 0 {
        law_escaped_text_has_no_newline(s.drop_last());
        let a = escape_label_value(s.drop_last());
        let b = escape_value_char(s.last());
        assert forall|i: int| 0 <= i < escape_label_value(s).len() implies #[trigger] escape_label_value(s)[i]
            != '\n' by {
            if i < a.len() {
                assert(escape_label_value(s)[i] == a[i]);
            } else {
                assert(escape_label_value(s)[i] == b[i - a.len()]);
            }
        }
        let c = escape_help(s.drop_last());
        let d = escape_help_char(s.last());
        assert forall|i: int| 0 <= i < escape_help(s).len() implies #[trigger] escape_help(s)[i] != '\n' by {
            if i < c.len() {
                assert(escape_help(s)[i] == c[i]);
            } else {
                assert(escape_help(s)[i] == d[i - c.len()]);
            }
        }
    }
}

/// `name="value"` for one label.
pub open spec fn label_pair_text(p: (Seq<char>, Seq<char>)) -> Seq<char> {
    sanitize_label_name(p.0) + seq!['=', '"'] + escape_label_value(p.1) + seq!['"']
}

/// The labels joined by commas.
pub open spec fn labels_text(p: Seq<(Seq<char>, Seq<char>)>) -> Seq<char>
    decreases p.len(),
{
    if p.len() == 0 {
        seq![]
    } else if p.len() == 1 {
        label_pair_text(p[0])
    } else {
        labels_text(p.drop_last()) + seq![','] + label_pair_text(p.last())
    }
}

/// One sample line: `name value` or `name{labels} value`, then a newline.
pub open spec fn sample_line(name: Seq<char>, p: Seq<(Seq<char>, Seq<char>)>, value: Seq<char>) -> Seq<
    char,
> {
    if p.len() == 0 {
        sanitize_metric_name(name) + seq![' '] + value + seq!['\n']
    } else {
        sanitize_metric_name(name) + seq!['{'] + labels_text(p) + seq!['}', ' '] + value + seq![
            '\n',
        ]
    }
}

/// The word of the TYPE line (a timer is exported as a summary).
pub open spec fn type_word(t: MetricType) -> Seq<char> {
    match t {
        MetricType::Counter => "counter"@,
        MetricType::Gauge => "gauge"@,
        MetricType::Histogram => "histogram"@,
        MetricType::Summary => "summary"@,
        MetricType::Timer => "summary"@,
    }
}

/// The HELP line, absent when the help text is empty.
pub open spec fn help_line(m: MetricView) -> Seq<char> {
    if m.help.len() == 0 {
        seq![]
    } else {
        "# HELP "@ + sanitize_metric_name(m.name) + seq![' '] + escape_help(m.help) + seq!['\n']
    }
}

/// The TYPE line.
pub open spec fn type_line(m: MetricView) -> Seq<char> {
    "# TYPE "@ + sanitize_metric_name(m.name) + seq![' '] + type_word(m.metric_type) + seq!['\n']
}

/// The sum of the first `k` counts.
pub open spec fn cumulative(counts: Seq<u64>, k: int) -> nat
    decreases k,
{
    if k <= 0 {
        0
    } else {
        cumulative(counts, k - 1) + counts[k - 1] as nat
    }
}

/// The bucket counts a histogram exports never decrease from one bucket to
/// the next: bucket `j` counts every value that bucket `i <= j` counts.
pub proof fn law_cumulative_counts_never_decrease(counts: Seq<u64>, i: int, j: int)
    requires
        i <= j,
    ensures
        cumulative(counts, i) <= cumulative(counts, j),
    decreases j - i,
{
    if i < j {
        law_cumulative_counts_never_decrease(counts, i, j - 1);
        if j > 0 {
            assert(cumulative(counts, j) == cumulative(counts, j - 1) + counts[j - 1] as nat);
        }
    }
}

/// The first `k` bucket lines of a histogram: bucket `i` counts the values
/// in it and every bucket below.
pub open spec fn bucket_lines(name: Seq<char>, p: Seq<(Seq<char>, Seq<char>)>, h: HistogramView, k: int) -> Seq<
    char,
>
    decreases k,
{
    if k <= 0 {
        seq![]
    } else {
        bucket_lines(name, p, h, k - 1) + sample_line(
            name + "_bucket"@,
            pairs_insert(p, "le"@, h.buckets[k - 1].0),
            float_display(cumulative(h.counts, k) as int),
        )
    }
}

/// The sample lines of a metric's value.
pub open spec fn value_lines(m: MetricView) -> Seq<char> {
    match m.value {
        MetricValueView::Int(v) => sample_line(m.name, m.labels, float_display(v as int)),
        MetricValueView::Uint(v) => sample_line(m.name, m.labels, float_display(v as int)),
        MetricValueView::Float(f) => sample_line(m.name, m.labels, f.0),
        MetricValueView::Histogram(h) => bucket_lines(m.name, m.labels, h, h.buckets.len() as int)
            + sample_line(
            m.name + "_bucket"@,
            pairs_insert(m.labels, "le"@, "+Inf"@),
            float_display(h.count as int),
        ) + sample_line(m.name + "_sum"@, m.labels, h.sum.0) + sample_line(
            m.name + "_count"@,
            m.labels,
            float_display(h.count as int),
        ),
        MetricValueView::Summary(s) => sample_line(m.name + "_sum"@, m.labels, s.sum.0)
            + sample_line(m.name + "_count"@, m.labels, float_display(s.count as int)),
    }
}

/// The exposition block of one metric: HELP, TYPE, samples, blank line.
pub open spec fn metric_block(m: MetricView) -> Seq<char> {
    help_line(m) + type_line(m) + value_lines(m) + seq!['\n']
}

/// The Prometheus text of a list of metrics.
pub open spec fn exposition(ms: Seq<MetricView>) -> Seq<char>
    decreases ms.len(),
{
    if ms.len() == 0 {
        seq![]
    } else {
        exposition(ms.drop_last()) + metric_block(ms.last())
    }
}

/// `s` holds no line break.
pub open spec fn no_newline(s: Seq<char>) -> bool {
    forall|i: int| 0 <= i < s.len() ==> #[trigger] s[i] != '\n'
}

/// `s` is one line: it ends with its only line break.
pub open spec fn one_line(s: Seq<char>) -> bool {
    &&& s.len() > 0
    &&& s.last() == '\n'
    &&& no_newline(s.drop_last())
}

proof fn lemma_concat_no_newline(a: Seq<char>, b: Seq<char>)
    requires
        no_newline(a),
        no_newline(b),
    ensures
        no_newline(a + b),
{
    assert forall|i: int| 0 <= i < (a + b).len() implies #[trigger] (a + b)[i] != '\n' by {
        if i < a.len() {
            assert((a + b)[i] == a[i]);
        } else {
            assert((a + b)[i] == b[i - a.len()]);
        }
    }
}

proof fn lemma_line(a: Seq<char>)
    requires
        no_newline(a),
    ensures
        one_line(a + seq!['\n']),
{
    assert((a + seq!['\n']).drop_last() =~= a);
}

proof fn lemma_names_have_no_newline(name: Seq<char>)
    ensures
        no_newline(sanitize_metric_name(name)),
        no_newline(sanitize_label_name(name)),
{
}

proof fn lemma_labels_have_no_newline(p: Seq<(Seq<char>, Seq<char>)>)
    ensures
        no_newline(labels_text(p)),
    decreases p.len(),
{
    if p.len() > 0 {
        let last = p.last();
        lemma_names_have_no_newline(last.0);
        law_escaped_text_has_no_newline(last.1);
        let a = sanitize_label_name(last.0) + seq!['=', '"'];
        lemma_concat_no_newline(sanitize_label_name(last.0), seq!['=', '"']);
        lemma_concat_no_newline(a, escape_label_value(last.1));
        lemma_concat_no_newline(a + escape_label_value(last.1), seq!['"']);
        assert(label_pair_text(last) == a + escape_label_value(last.1) + seq!['"']);
        if p.len() > 1 {
            lemma_labels_have_no_newline(p.drop_last());
            lemma_concat_no_newline(labels_text(p.drop_last()), seq![',']);
            lemma_concat_no_newline(labels_text(p.drop_last()) + seq![','], label_pair_text(last));
        } else {
            assert(p[0] == last);
        }
    }
}

/// No name, help text or label can add a line: a sample line whose value
/// text holds no line break is one line, and so are the HELP line (when
/// there is help text) and the TYPE line, whatever the metric's name, help
/// and labels.  Values hold no line break: decimals and `f64` display texts
/// are digits, signs and points (or `inf`/`NaN`).
pub proof fn law_lines_cannot_be_injected(
    name: Seq<char>,
    p: Seq<(Seq<char>, Seq<char>)>,
    value: Seq<char>,
    m: MetricView,
)
    requires
        no_newline(value),
    ensures
        one_line(sample_line(name, p, value)),
        m.help.len() > 0 ==> one_line(help_line(m)),
        one_line(type_line(m)),
{
    lemma_names_have_no_newline(name);
    lemma_labels_have_no_newline(p);
    let n = sanitize_metric_name(name);
    if p.len() == 0 {
        lemma_concat_no_newline(n, seq![' ']);
        lemma_concat_no_newline(n + seq![' '], value);
        lemma_line(n + seq![' '] + value);
    } else {
        lemma_concat_no_newline(n, seq!['{']);
        lemma_concat_no_newline(n + seq!['{'], labels_text(p));
        lemma_concat_no_newline(n + seq!['{'] + labels_text(p), seq!['}', ' ']);
        lemma_concat_no_newline(n + seq!['{'] + labels_text(p) + seq!['}', ' '], value);
        lemma_line(n + seq!['{'] + labels_text(p) + seq!['}', ' '] + value);
    }
    let mn = sanitize_metric_name(m.name);
    lemma_names_have_no_newline(m.name);
    reveal_strlit("# HELP ");
    reveal_strlit("# TYPE ");
    reveal_strlit("counter");
    reveal_strlit("gauge");
    reveal_strlit("histogram");
    reveal_strlit("summary");
    assert(no_newline("# HELP "@));
    assert(no_newline("# TYPE "@));
    assert(no_newline(type_word(m.metric_type)));
    law_escaped_text_has_no_newline(m.help);
    lemma_concat_no_newline("# HELP "@, mn);
    lemma_concat_no_newline("# HELP "@ + mn, seq![' ']);
    lemma_concat_no_newline("# HELP "@ + mn + seq![' '], escape_help(m.help));
    lemma_line("# HELP "@ + mn + seq![' '] + escape_help(m.help));
    lemma_concat_no_newline("# TYPE "@, mn);
    lemma_concat_no_newline("# TYPE "@ + mn, seq![' ']);
    lemma_concat_no_newline("# TYPE "@ + mn + seq![' '], type_word(m.metric_type));
    lemma_line("# TYPE "@ + mn + seq![' '] + type_word(m.metric_type));
}

/// Values written on sample lines hold no line break: the display text of
/// a float reading and the decimal of an integer.
pub proof fn law_values_have_no_newline(f: Seq<char>, v: int)
    requires
        float_text(f),
    ensures
        no_newline(f),
        no_newline(signed_decimal(v)),
        no_newline(float_display(v)),
{
    if f == seq!['i', 'n', 'f'] || f == seq!['-', 'i', 'n', 'f'] || f == seq!['N', 'a', 'N'] {
        assert(no_newline(f));
    } else {
        assert forall|i: int| 0 <= i < f.len() implies #[trigger] f[i] != '\n' by {
            assert(float_char(f[i]));
        }
    }
    lemma_decimal_is_float_text(v);
    let d = signed_decimal(v);
    assert forall|i: int| 0 <= i < d.len() implies #[trigger] d[i] != '\n' by {
        assert(float_char(d[i]));
    }
    let e = float_display(v);
    assert forall|i: int| 0 <= i < e.len() implies #[trigger] e[i] != '\n' by {
        assert(float_char(e[i]));
    }
}

/// Escaping works character by character, so it distributes over
/// concatenation: escaping `a + b` is escaping `a`, then escaping `b`.  The
/// backslash that escaping adds is never escaped again.
pub proof fn law_escaping_distributes(a: Seq<char>, b: Seq<char>)
    ensures
        escape_label_value(a + b) == escape_label_value(a) + escape_label_value(b),
        escape_help(a + b) == escape_help(a) + escape_help(b),
    decreases b.len(),
{
    if b.len() == 0 {
        assert(a + b =~= a);
        assert(escape_label_value(a) + escape_label_value(b) =~= escape_label_value(a));
        assert(escape_help(a) + escape_help(b) =~= escape_help(a));
    } else {
        law_escaping_distributes(a, b.drop_last());
        assert((a + b).drop_last() =~= a + b.drop_last());
        assert((a + b).last() == b.last());
        assert(escape_label_value(a + b) =~= escape_label_value(a) + escape_label_value(b));
        assert(escape_help(a + b) =~= escape_help(a) + escape_help(b));
    }
}

/// The number of line breaks in `s`.
pub open spec fn newlines(s: Seq<char>) -> nat
    decreases s.len(),
{
    if s.len() == 0 {
        0
    } else {
        newlines(s.drop_last()) + if s.last() == '\n' {
            1nat
        } else {
            0nat
        }
    }
}

proof fn lemma_newlines_concat(a: Seq<char>, b: Seq<char>)
    ensures
        newlines(a + b) == newlines(a) + newlines(b),
    decreases b.len(),
{
    if b.len() == 0 {
        assert(a + b =~= a);
    } else {
        lemma_newlines_concat(a, b.drop_last());
        assert((a + b).drop_last() =~= a + b.drop_last());
        assert((a + b).last() == b.last());
    }
}

proof fn lemma_newlines_none(s: Seq<char>)
    requires
        no_newline(s),
    ensures
        newlines(s) == 0,
    decreases s.len(),
{
    if s.len() > 0 {
        assert(no_newline(s.drop_last())) by {
            assert forall|i: int| 0 <= i < s.drop_last().len() implies #[trigger] s.drop_last()[i] != '\n' by {
                assert(s.drop_last()[i] == s[i]);
            }
        }
        lemma_newlines_none(s.drop_last());
    }
}

proof fn lemma_newlines_one_line(s: Seq<char>)
    requires
        one_line(s),
    ensures
        newlines(s) == 1,
{
    lemma_newlines_none(s.drop_last());
}

/// How many sample lines the value of `m` has.
pub open spec fn sample_count(m: MetricView) -> nat {
    match m.value {
        MetricValueView::Histogram(h) => h.buckets.len() + 3,
        MetricValueView::Summary(_) => 2,
        _ => 1,
    }
}

/// The value texts of `m` are float display texts.
pub open spec fn float_texts_valid(m: MetricView) -> bool {
    match m.value {
        MetricValueView::Float(f) => float_text(f.0),
        MetricValueView::Histogram(h) => float_text(h.sum.0),
        MetricValueView::Summary(s) => float_text(s.sum.0),
        _ => true,
    }
}

proof fn lemma_sample_line_count(name: Seq<char>, p: Seq<(Seq<char>, Seq<char>)>, value: Seq<char>, m: MetricView)
    requires
        no_newline(value),
    ensures
        newlines(sample_line(name, p, value)) == 1,
        sample_line(name, p, value)[0] != '#',
{
    law_lines_cannot_be_injected(name, p, value, m);
    lemma_newlines_one_line(sample_line(name, p, value));
    if p.len() == 0 {
        assert(sample_line(name, p, value) == sanitize_metric_name(name) + seq![' '] + value + seq!['\n']);
    } else {
        assert(sample_line(name, p, value) == sanitize_metric_name(name) + seq!['{'] + labels_text(p)
            + seq!['}', ' '] + value + seq!['\n']);
    }
    if sanitize_metric_name(name).len() > 0 {
        assert(sample_line(name, p, value)[0] == sanitize_metric_name(name)[0]);
    }
}

proof fn lemma_bucket_lines_count(name: Seq<char>, p: Seq<(Seq<char>, Seq<char>)>, h: HistogramView, k: int, m: MetricView)
    requires
        0 <= k,
    ensures
        newlines(bucket_lines(name, p, h, k)) == k,
        k > 0 ==> bucket_lines(name, p, h, k)[0] != '#',
    decreases k,
{
    if k > 0 {
        lemma_bucket_lines_count(name, p, h, k - 1, m);
        let v = float_display(cumulative(h.counts, k) as int);
        lemma_decimal_no_newline(cumulative(h.counts, k) as int);
        let l = sample_line(name + "_bucket"@, pairs_insert(p, "le"@, h.buckets[k - 1].0), v);
        lemma_sample_line_count(name + "_bucket"@, pairs_insert(p, "le"@, h.buckets[k - 1].0), v, m);
        lemma_newlines_concat(bucket_lines(name, p, h, k - 1), l);
        if k == 1 {
            assert(bucket_lines(name, p, h, 0) =~= Seq::<char>::empty());
            assert(bucket_lines(name, p, h, k) =~= l);
        } else {
            assert(bucket_lines(name, p, h, k)[0] == bucket_lines(name, p, h, k - 1)[0]);
        }
    }
}

proof fn lemma_decimal_no_newline(v: int)
    ensures
        no_newline(float_display(v)),
{
    law_values_have_no_newline(seq!['0'], v);
}

/// No name, help text or label can add or forge a line: the block of a
/// metric has exactly one line for its help text (when there is one), one
/// TYPE line, one line per sample and a closing blank line, and the
/// sample lines never start with '#'.
pub proof fn law_block_line_count(m: MetricView)
    requires
        well_shaped(m),
        float_texts_valid(m),
    ensures
        newlines(metric_block(m)) == (if m.help.len() > 0 {
            1nat
        } else {
            0nat
        }) + 1 + sample_count(m) + 1,
        value_lines(m)[0] != '#',
        m.help.len() > 0 ==> help_line(m)[0] == '#',
        type_line(m)[0] == '#',
{
    law_lines_cannot_be_injected(m.name, m.labels, seq![], m);
    if m.help.len() > 0 {
        lemma_newlines_one_line(help_line(m));
    } else {
        assert(help_line(m) =~= Seq::<char>::empty());
    }
    lemma_newlines_one_line(type_line(m));
    reveal_strlit("# HELP ");
    reveal_strlit("# TYPE ");
    assert(type_line(m)[0] == '#');
    assert(m.help.len() > 0 ==> help_line(m)[0] == '#');
    match m.value {
        MetricValueView::Int(v) => {
            lemma_decimal_no_newline(v as int);
            lemma_sample_line_count(m.name, m.labels, float_display(v as int), m);
        },
        MetricValueView::Uint(v) => {
            lemma_decimal_no_newline(v as int);
            lemma_sample_line_count(m.name, m.labels, float_display(v as int), m);
        },
        MetricValueView::Float(f) => {
            law_values_have_no_newline(f.0, 0);
            lemma_sample_line_count(m.name, m.labels, f.0, m);
        },
        MetricValueView::Histogram(h) => {
            let n = h.buckets.len() as int;
            lemma_bucket_lines_count(m.name, m.labels, h, n, m);
            lemma_decimal_no_newline(h.count as int);
            law_values_have_no_newline(h.sum.0, 0);
            let l1 = sample_line(m.name + "_bucket"@, pairs_insert(m.labels, "le"@, "+Inf"@), float_display(h.count as int));
            let l2 = sample_line(m.name + "_sum"@, m.labels, h.sum.0);
            let l3 = sample_line(m.name + "_count"@, m.labels, float_display(h.count as int));
            lemma_sample_line_count(m.name + "_bucket"@, pairs_insert(m.labels, "le"@, "+Inf"@), float_display(h.count as int), m);
            lemma_sample_line_count(m.name + "_sum"@, m.labels, h.sum.0, m);
            lemma_sample_line_count(m.name + "_count"@, m.labels, float_display(h.count as int), m);
            let b = bucket_lines(m.name, m.labels, h, n);
            lemma_newlines_concat(b, l1);
            lemma_newlines_concat(b + l1, l2);
            lemma_newlines_concat(b + l1 + l2, l3);
            assert(value_lines(m) == b + l1 + l2 + l3);
            if n > 0 {
                assert(value_lines(m)[0] == b[0]);
            } else {
                assert(b =~= Seq::<char>::empty());
                assert(value_lines(m)[0] == l1[0]);
            }
        },
        MetricValueView::Summary(s) => {
            lemma_decimal_no_newline(s.count as int);
            law_values_have_no_newline(s.sum.0, 0);
            let l1 = sample_line(m.name + "_sum"@, m.labels, s.sum.0);
            let l2 = sample_line(m.name + "_count"@, m.labels, float_display(s.count as int));
            lemma_sample_line_count(m.name + "_sum"@, m.labels, s.sum.0, m);
            lemma_sample_line_count(m.name + "_count"@, m.labels, float_display(s.count as int), m);
            lemma_newlines_concat(l1, l2);
            assert(value_lines(m)[0] == l1[0]);
        },
    }
    let hl = help_line(m);
    let tl = type_line(m);
    let vl = value_lines(m);
    lemma_newlines_concat(hl, tl);
    lemma_newlines_concat(hl + tl, vl);
    lemma_newlines_concat(hl + tl + vl, seq!['\n']);
    assert(newlines(seq!['\n']) == 1) by {
        assert(seq!['\n'].drop_last() =~= Seq::<char>::empty());
        assert(newlines(seq!['\n'].drop_last()) == 0);
        assert(seq!['\n'].last() == '\n');
    }
}

/// The `_sum` and `_count` lines of a metric: both carry the metric's own
/// labels.
pub open spec fn sum_count_lines(m: MetricView, sum: Seq<char>, count: u64) -> Seq<char> {
    sample_line(m.name + "_sum"@, m.labels, sum) + sample_line(
        m.name + "_count"@,
        m.labels,
        float_display(count as int),
    )
}

/// The samples of a histogram end with its `_sum` and `_count` lines, which
/// carry the metric's own labels like its bucket lines, so the label sets
/// of one histogram stay separate series.
pub proof fn law_histogram_sum_and_count_carry_labels(m: MetricView, h: HistogramView)
    requires
        m.value == MetricValueView::Histogram(h),
    ensures
        ({
            let v = value_lines(m);
            let t = sum_count_lines(m, h.sum.0, h.count);
            v.len() >= t.len() && v.subrange(v.len() - t.len(), v.len() as int) == t
        }),
{
    let prefix = bucket_lines(m.name, m.labels, h, h.buckets.len() as int) + sample_line(
        m.name + "_bucket"@,
        pairs_insert(m.labels, "le"@, "+Inf"@),
        float_display(h.count as int),
    );
    let t = sum_count_lines(m, h.sum.0, h.count);
    assert(value_lines(m) =~= prefix + t);
    let v = value_lines(m);
    assert(v.subrange(v.len() - t.len(), v.len() as int) =~= t);
}

/// The samples of a summary are its `_sum` and `_count` lines, which carry
/// the metric's own labels.
pub proof fn law_summary_sum_and_count_carry_labels(m: MetricView, s: SummaryView)
    requires
        m.value == MetricValueView::Summary(s),
    ensures
        value_lines(m) == sum_count_lines(m, s.sum.0, s.count),
{
}

/// Histograms have a count for every bucket.
pub open spec fn well_shaped(m: MetricView) -> bool {
    m.value is Histogram ==> {
        let h = m.value->Histogram_0;
        &&& h.counts.len() >= h.buckets.len()
        &&& cumulative(h.counts, h.buckets.len() as int) <= u64::MAX
    }
}

fn push_metric_name(out: &mut String, name: &str)
    ensures
        final(out)@ == old(out)@ + sanitize_metric_name(name@),
{
    let cs = chars_of(name);
    let n = cs.len();
    for i in 0..n
        invariant
            n == cs@.len(),
            cs@ == name@,
            out@ == old(out)@ + sanitize_metric_name(name@.take(i as int)),
    {
        let c = cs[i];
        if ascii_alphanumeric(c) || c == '_' || c == ':' {
            push_char(out, c);
        } else {
            push_char(out, '_');
        }
        assert(sanitize_metric_name(name@.take(i + 1)) =~= sanitize_metric_name(
            name@.take(i as int),
        ).push(metric_name_char(c)));
    }
    assert(name@.take(n as int) =~= name@);
}

fn push_label_name(out: &mut String, name: &str)
    ensures
        final(out)@ == old(out)@ + sanitize_label_name(name@),
{
    let cs = chars_of(name);
    let n = cs.len();
    for i in 0..n
        invariant
            n == cs@.len(),
            cs@ == name@,
            out@ == old(out)@ + sanitize_label_name(name@.take(i as int)),
    {
        let c = cs[i];
        if ascii_alphanumeric(c) || c == '_' {
            push_char(out, c);
        } else {
            push_char(out, '_');
        }
        assert(sanitize_label_name(name@.take(i + 1)) =~= sanitize_label_name(
            name@.take(i as int),
        ).push(label_name_char(c)));
    }
    assert(name@.take(n as int) =~= name@);
}

fn push_label_value(out: &mut String, value: &str)
    ensures
        final(out)@ == old(out)@ + escape_label_value(value@),
{
    let cs = chars_of(value);
    let n = cs.len();
    for i in 0..n
        invariant
            n == cs@.len(),
            cs@ == value@,
            out@ == old(out)@ + escape_label_value(value@.take(i as int)),
    {
        let c = cs[i];
        if c == '\\' {
            push_char(out, '\\');
            push_char(out, '\\');
        } else if c == '"' {
            push_char(out, '\\');
            push_char(out, '"');
        } else if c == '\n' {
            push_char(out, '\\');
            push_char(out, 'n');
        } else {
            push_char(out, c);
        }
        assert(value@.take(i + 1).drop_last() =~= value@.take(i as int));
        assert(out@ =~= old(out)@ + escape_label_value(value@.take(i + 1)));
    }
    assert(value@.take(n as int) =~= value@);
}

fn push_help(out: &mut String, help: &str)
    ensures
        final(out)@ == old(out)@ + escape_help(help@),
{
    let cs = chars_of(help);
    let n = cs.len();
    for i in 0..n
        invariant
            n == cs@.len(),
            cs@ == help@,
            out@ == old(out)@ + escape_help(help@.take(i as int)),
    {
        let c = cs[i];
        if c == '\\' {
            push_char(out, '\\');
            push_char(out, '\\');
        } else if c == '\n' {
            push_char(out, '\\');
            push_char(out, 'n');
        } else {
            push_char(out, c);
        }
        assert(help@.take(i + 1).drop_last() =~= help@.take(i as int));
        assert(out@ =~= old(out)@ + escape_help(help@.take(i + 1)));
    }
    assert(help@.take(n as int) =~= help@);
}

fn push_labels(out: &mut String, labels: &Labels)
    ensures
        final(out)@ == old(out)@ + labels_text(labels.pairs()),
{
    let entries = labels.entries();
    let n = entries.len();
    for i in 0..n
        invariant
            n == entries@.len(),
            pairs_view(entries@) == labels.pairs(),
            out@ == old(out)@ + labels_text(labels.pairs().take(i as int)),
    {
        let ghost before = out@;
        if i > 0 {
            push_char(out, ',');
        }
        push_label_name(out, entries[i].0.as_str());
        push_char(out, '=');
        push_char(out, '"');
        push_label_value(out, entries[i].1.as_str());
        push_char(out, '"');
        proof {
            let t = labels.pairs().take(i + 1);
            assert(t.drop_last() =~= labels.pairs().take(i as int));
            assert(t.last() == labels.pairs()[i as int]);
            if i == 0 {
                assert(t[0] == labels.pairs()[0]);
            }
            assert(out@ =~= old(out)@ + labels_text(t));
        }
    }
    assert(labels.pairs().take(n as int) =~= labels.pairs());
}

fn push_sample_line(out: &mut String, name: &str, labels: &Labels, value: &str)
    ensures
        final(out)@ == old(out)@ + sample_line(name@, labels.pairs(), value@),
{
    push_metric_name(out, name);
    if labels.len() == 0 {
        push_char(out, ' ');
    } else {
        push_char(out, '{');
        push_labels(out, labels);
        push_char(out, '}');
        push_char(out, ' ');
    }
    push_str(out, value);
    push_char(out, '\n');
    assert(out@ =~= old(out)@ + sample_line(name@, labels.pairs(), value@));
}

fn suffixed(name: &str, suffix: &str) -> (r: String)
    ensures
        r@ == name@ + suffix@,
{
    let mut r = String::new();
    push_str(&mut r, name);
    push_str(&mut r, suffix);
    assert(r@ =~= name@ + suffix@);
    r
}

/// Prometheus exporter
pub struct PrometheusExporter;

impl PrometheusExporter {
    /// Create a new Prometheus exporter
    pub fn new() -> (r: Self) {
        PrometheusExporter
    }

    fn push_histogram(out: &mut String, m: &Metric, h: &HistogramData)
        requires
            m.value == MetricValue::Histogram(*h),
            well_shaped(m@),
        ensures
            final(out)@ == old(out)@ + value_lines(m@),
    {
        let name = m.name.as_str();
        let bucket_name = suffixed(name, "_bucket");
        let n = h.buckets.len();
        let mut cum: u128 = 0;
        for i in 0..n
            invariant
                n == h.buckets@.len(),
                h.counts@.len() >= n,
                bucket_name@ == m.name@ + "_bucket"@,
                cum == cumulative(h.counts@, i as int),
                cumulative(h.counts@, n as int) <= u64::MAX,
                out@ == old(out)@ + bucket_lines(m.name@, m.labels.pairs(), h@, i as int),
        {
            proof {
                law_cumulative_counts_never_decrease(h.counts@, i + 1, n as int);
            }
            cum = cum + h.counts[i] as u128;
            let mut bucket_labels = m.labels.duplicate();
            bucket_labels.insert("le".to_string(), h.buckets[i].text().clone());
            let mut text = String::new();
            push_float_display(&mut text, cum as i128);
            assert(text@ =~= float_display(cum as int));
            push_sample_line(out, bucket_name.as_str(), &bucket_labels, text.as_str());
            proof {
                assert(h@.buckets[i as int] == h.buckets@[i as int]@);
                assert(out@ =~= old(out)@ + bucket_lines(
                    m.name@,
                    m.labels.pairs(),
                    h@,
                    i + 1,
                ));
            }
        }
        let mut inf_labels = m.labels.duplicate();
        inf_labels.insert("le".to_string(), "+Inf".to_string());
        let mut count_text = String::new();
        push_float_display(&mut count_text, h.count as i128);
        assert(count_text@ =~= float_display(h.count as int));
        push_sample_line(out, bucket_name.as_str(), &inf_labels, count_text.as_str());
        let sum_name = suffixed(name, "_sum");
        push_sample_line(out, sum_name.as_str(), &m.labels, h.sum.text().as_str());
        let count_name = suffixed(name, "_count");
        push_sample_line(out, count_name.as_str(), &m.labels, count_text.as_str());
        assert(out@ =~= old(out)@ + value_lines(m@));
    }

    fn push_values(out: &mut String, m: &Metric)
        requires
            well_shaped(m@),
        ensures
            final(out)@ == old(out)@ + value_lines(m@),
    {
        let name = m.name.as_str();
        match &m.value {
            MetricValue::Int(v) => {
                let mut text = String::new();
                push_float_display(&mut text, *v as i128);
                assert(text@ =~= float_display(*v as int));
                push_sample_line(out, name, &m.labels, text.as_str());
            },
            MetricValue::Uint(v) => {
                let mut text = String::new();
                push_float_display(&mut text, *v as i128);
                assert(text@ =~= float_display(*v as int));
                push_sample_line(out, name, &m.labels, text.as_str());
            },
            MetricValue::Float(f) => {
                push_sample_line(out, name, &m.labels, f.text().as_str());
            },
            MetricValue::Histogram(h) => {
                Self::push_histogram(out, m, h);
            },
            MetricValue::Summary(s) => {
                let sum_name = suffixed(name, "_sum");
                push_sample_line(out, sum_name.as_str(), &m.labels, s.sum.text().as_str());
                let mut count_text = String::new();
                push_float_display(&mut count_text, s.count as i128);
                assert(count_text@ =~= float_display(s.count as int));
                let count_name = suffixed(name, "_count");
                push_sample_line(out, count_name.as_str(), &m.labels, count_text.as_str());
                assert(out@ =~= old(out)@ + value_lines(m@));
            },
        }
    }

    fn push_block(out: &mut String, m: &Metric)
        requires
            well_shaped(m@),
        ensures
            final(out)@ == old(out)@ + metric_block(m@),
    {
        if !m.help.as_str().is_empty() {
            push_str(out, "# HELP ");
            push_metric_name(out, m.name.as_str());
            push_char(out, ' ');
            push_help(out, m.help.as_str());
            push_char(out, '\n');
        }
        let ghost after_help = out@;
        push_str(out, "# TYPE ");
        push_metric_name(out, m.name.as_str());
        push_char(out, ' ');
        let word = match m.metric_type {
            MetricType::Counter => "counter",
            MetricType::Gauge => "gauge",
            MetricType::Histogram => "histogram",
            MetricType::Summary => "summary",
            MetricType::Timer => "summary",
        };
        push_str(out, word);
        push_char(out, '\n');
        assert(out@ =~= old(out)@ + help_line(m@) + type_line(m@));
        Self::push_values(out, m);
        push_char(out, '\n');
        assert(out@ =~= old(out)@ + metric_block(m@));
    }

    /// Export metrics in Prometheus text format: for each metric a HELP line
    /// (when it has help text), a TYPE line, its sample lines and a blank
    /// line.  Names are sanitized and label values and help escaped, so no
    /// input can add lines of its own.
    pub fn export(&self, metrics: &[Metric]) -> (r: Result<String, MonitoringError>)
        requires
            forall|i: int| 0 <= i < metrics@.len() ==> well_shaped(#[trigger] metrics@[i]@),
        ensures
            r matches Ok(text) && text@ == exposition(metrics@.map_values(|m: Metric| m@)),
    {
        let mut out = String::new();
        let n = metrics.len();
        for i in 0..n
            invariant
                n == metrics@.len(),
                forall|j: int| 0 <= j < metrics@.len() ==> well_shaped(#[trigger] metrics@[j]@),
                out@ == exposition(metrics@.take(i as int).map_values(|m: Metric| m@)),
        {
            Self::push_block(&mut out, &metrics[i]);
            proof {
                let t = metrics@.take(i + 1).map_values(|m: Metric| m@);
                assert(t.drop_last() =~= metrics@.take(i as int).map_values(|m: Metric| m@));
            }
        }
        assert(metrics@.take(n as int) =~= metrics@);
        Ok(out)
    }
}

impl Default for PrometheusExporter {
    fn default() -> (r: Self) {
        Self::new()
    }
}

} // verus!
