use rust_monitoring_system::{
    FloatValue, HistogramData, Labels, Metric, MetricType, MetricValue, PrometheusExporter,
    SummaryData,
};

fn labels(pairs: &[(&str, &str)]) -> Labels {
    let mut l = Labels::new();
    for (k, v) in pairs {
        l.insert(k.to_string(), v.to_string());
    }
    l
}

fn float(x: f64) -> FloatValue {
    FloatValue::new(format!("{}", x), x as i64).expect("the display text of an f64")
}

/// A histogram over `bounds` after observing `values`, counted as
/// `HistogramData::observe` counts them.
fn histogram(bounds: &[f64], values: &[f64]) -> HistogramData {
    let mut h = HistogramData::new(bounds.iter().map(|b| float(*b)).collect());
    let mut sum = 0.0f64;
    for v in values {
        let idx = bounds.partition_point(|b| *v > *b);
        h.counts[idx] += 1;
        h.count += 1;
        sum += *v;
    }
    h.sum = float(sum);
    h
}

fn metric(name: &str, metric_type: MetricType, help: &str, labels: Labels, value: MetricValue) -> Metric {
    Metric {
        name: name.to_string(),
        metric_type,
        help: help.to_string(),
        labels,
        value,
        timestamp: 0,
    }
}

#[test]
fn test_export_counter() {
    let exporter = PrometheusExporter::new();

    let metric = metric(
        "test_counter",
        MetricType::Counter,
        "A test counter",
        Labels::new(),
        MetricValue::Uint(42),
    );

    let output = exporter
        .export(&[metric])
        .expect("Failed to export counter metric");

    assert!(output.contains("# HELP test_counter A test counter"));
    assert!(output.contains("# TYPE test_counter counter"));
    assert!(output.contains("test_counter 42"));
}

#[test]
fn test_export_with_labels() {
    let exporter = PrometheusExporter::new();

    let labels = labels(&[("method", "GET"), ("status", "200")]);

    let metric = metric(
        "http_requests",
        MetricType::Counter,
        "HTTP requests",
        labels,
        MetricValue::Uint(100),
    );

    let output = exporter
        .export(&[metric])
        .expect("Failed to export metric with labels");

    assert!(output.contains("http_requests{"));
    assert!(output.contains("method=\"GET\""));
    assert!(output.contains("status=\"200\""));
}

#[test]
fn test_export_histogram() {
    let exporter = PrometheusExporter::new();

    let hist = histogram(&[0.1, 1.0, 10.0], &[0.05, 0.5, 5.0, 50.0]);

    let metric = metric(
        "test_histogram",
        MetricType::Histogram,
        "A test histogram",
        Labels::new(),
        MetricValue::Histogram(hist),
    );

    let output = exporter
        .export(&[metric])
        .expect("Failed to export histogram metric");

    assert!(output.contains("test_histogram_bucket{le=\"0.1\"}"));
    assert!(output.contains("test_histogram_bucket{le=\"+Inf\"}"));
    assert!(output.contains("test_histogram_sum"));
    assert!(output.contains("test_histogram_count"));
}

#[test]
fn test_label_escaping() {
    let exporter = PrometheusExporter::new();

    // Test injection attack attempt
    let labels = labels(&[
        ("user", "test\"} malicious_metric 1\n#"),
        ("path", "/api\\test"),
    ]);

    let metric = metric(
        "test_metric",
        MetricType::Counter,
        "Test metric",
        labels,
        MetricValue::Uint(42),
    );

    let output = exporter.export(&[metric]).expect("Failed to export metric");

    // Verify escaping
    assert!(output.contains("user=\"test\\\"} malicious_metric 1\\n#\""));
    assert!(output.contains("path=\"/api\\\\test\""));
    // Ensure no actual injection occurred
    assert!(!output.contains("malicious_metric 1\n"));
}

#[test]
fn prometheus_test_metric_name_sanitization() {
    let exporter = PrometheusExporter::new();

    let metric = metric(
        "test-metric.with!invalid@chars",
        MetricType::Counter,
        "Test with newline\nand backslash\\",
        Labels::new(),
        MetricValue::Uint(1),
    );

    let output = exporter.export(&[metric]).expect("Failed to export metric");

    // Metric name should be sanitized
    assert!(output.contains("test_metric_with_invalid_chars"));
    // Help should be escaped
    assert!(output.contains("Test with newline\\nand backslash\\\\"));
}

#[test]
fn prometheus_test_label_name_sanitization() {
    let exporter = PrometheusExporter::new();

    let labels = labels(&[("invalid-label.name!", "value")]);

    let metric = metric("test", MetricType::Counter, "", labels, MetricValue::Uint(1));

    let output = exporter.export(&[metric]).expect("Failed to export metric");

    // Label name should be sanitized
    assert!(output.contains("invalid_label_name_=\"value\""));
}

#[test]
fn export_exact_text_of_counter_and_gauge() {
    let exporter = PrometheusExporter::new();
    let metrics = vec![
        metric("c", MetricType::Counter, "count", Labels::new(), MetricValue::Uint(7)),
        metric(
            "g",
            MetricType::Gauge,
            "",
            labels(&[("k", "v")]),
            MetricValue::Float(float(-2.5)),
        ),
        metric("i", MetricType::Gauge, "ints", Labels::new(), MetricValue::Int(-3)),
    ];
    let output = exporter.export(&metrics).expect("export");
    assert_eq!(
        output,
        "# HELP c count\n# TYPE c counter\nc 7\n\n# TYPE g gauge\ng{k=\"v\"} -2.5\n\n# HELP i ints\n# TYPE i gauge\ni -3\n\n"
    );
}

#[test]
fn export_histogram_lines_are_cumulative() {
    let exporter = PrometheusExporter::new();
    let hist = histogram(&[1.0, 5.0], &[0.5, 0.75, 3.0, 9.0]);
    let m = metric("h", MetricType::Histogram, "", Labels::new(), MetricValue::Histogram(hist));
    let output = exporter.export(&[m]).expect("export");
    assert_eq!(
        output,
        "# TYPE h histogram\nh_bucket{le=\"1\"} 2\nh_bucket{le=\"5\"} 3\nh_bucket{le=\"+Inf\"} 4\nh_sum 13.25\nh_count 4\n\n"
    );
}

#[test]
fn export_summary_lines() {
    let exporter = PrometheusExporter::new();
    let mut s = SummaryData::new();
    s.count = 2;
    s.sum = float(3.0);
    let m = metric("s", MetricType::Summary, "", Labels::new(), MetricValue::Summary(s));
    let output = exporter.export(&[m]).expect("export");
    assert!(output.contains("# TYPE s summary\n"));
    assert!(output.contains("s_sum 3\n"));
    assert!(output.contains("s_count 2\n"));
}

#[test]
fn export_of_nothing_is_empty() {
    let exporter = PrometheusExporter::new();
    assert_eq!(exporter.export(&[]).expect("export"), "");
}

/// The sample text the exporter writes for a single unlabelled value.
fn sample_text(value: MetricValue) -> String {
    let out = PrometheusExporter::new()
        .export(&[metric("m", MetricType::Gauge, "", Labels::new(), value)])
        .expect("export");
    let line = out.lines().nth(1).expect("a sample line").to_string();
    line.strip_prefix("m ").expect("the metric name").to_string()
}

/// Values that exercise the rounding to `f64` and the shortest display.
fn awkward_integers() -> Vec<i128> {
    let mut v: Vec<i128> = vec![
        0,
        1,
        -1,
        42,
        (1i128 << 53) - 1,
        1i128 << 53,
        (1i128 << 53) + 1,
        (1i128 << 53) + 2,
        (1i128 << 53) + 3,
        (1i128 << 54) + 2,
        (1i128 << 54) + 6,
        1i128 << 63,
        (1i128 << 63) - 1,
        -(1i128 << 63),
        -(1i128 << 63) + 1,
        u64::MAX as i128,
        u64::MAX as i128 - 1,
        100_000_000_000_000_001,
        123_456_789_012_345_678,
        999_999_999_999_999_999,
        9_999_999_999_999_999_999,
        10_000_000_000_000_000_000,
        18_014_398_509_481_985,
    ];
    let mut x: u64 = 0x9E37_79B9_7F4A_7C15;
    for _ in 0..3000 {
        x = x.wrapping_mul(6364136223846793005).wrapping_add(1442695040888963407);
        v.push(x as i128);
        v.push((x >> (x % 40)) as i128);
        v.push((x as i64) as i128);
    }
    v
}

#[test]
fn integer_samples_read_as_the_f64_they_convert_to() {
    for v in awkward_integers() {
        if v >= 0 && v <= u64::MAX as i128 {
            assert_eq!(sample_text(MetricValue::Uint(v as u64)), format!("{}", v as u64 as f64), "{}", v);
        }
        if v >= i64::MIN as i128 && v <= i64::MAX as i128 {
            assert_eq!(sample_text(MetricValue::Int(v as i64)), format!("{}", v as i64 as f64), "{}", v);
        }
    }
}

#[test]
fn integer_float_readings_match_f64() {
    for v in awkward_integers() {
        if v >= i64::MIN as i128 && v <= i64::MAX as i128 {
            let i = v as i64;
            let f = FloatValue::from_integer(i);
            assert_eq!(*f.text(), format!("{}", i as f64), "{}", i);
            assert_eq!(f.truncated(), (i as f64) as i64, "{}", i);
        }
    }
}

#[test]
fn large_counter_is_written_as_its_f64() {
    assert_eq!(sample_text(MetricValue::Uint(u64::MAX)), "18446744073709552000");
    assert_eq!(sample_text(MetricValue::Uint((1 << 53) + 1)), "9007199254740992");
    assert_eq!(sample_text(MetricValue::Int(i64::MIN)), "-9223372036854776000");
}

#[test]
fn hostile_names_and_labels_keep_the_line_count() {
    let m = metric(
        "evil\n# TYPE x counter\nx",
        MetricType::Gauge,
        "help\nwith # lines\\",
        labels(&[("k\n}", "v\"\n# HELP\\"), ("a#", "}\n")]),
        MetricValue::Int(-7),
    );
    let out = PrometheusExporter::new().export(&[m]).expect("export");
    assert_eq!(out.matches('\n').count(), 4);
    let starts: Vec<bool> = out.lines().map(|l| l.starts_with('#')).collect();
    assert_eq!(starts, vec![true, true, false, false]);
}
