use rust_monitoring_system::{Counter, FloatValue, Gauge, MetricType, SummaryData};

#[test]
fn test_counter() {
    let mut counter = Counter::new();
    assert_eq!(counter.get(), 0);

    counter.inc();
    assert_eq!(counter.get(), 1);

    counter.inc_by(10);
    assert_eq!(counter.get(), 11);

    counter.reset();
    assert_eq!(counter.get(), 0);
}

#[test]
fn test_gauge() {
    let mut gauge = Gauge::new();
    assert_eq!(gauge.get(), 0);

    gauge.set(42);
    assert_eq!(gauge.get(), 42);

    gauge.inc();
    assert_eq!(gauge.get(), 43);

    gauge.dec_by(3);
    assert_eq!(gauge.get(), 40);

    gauge.reset();
    assert_eq!(gauge.get(), 0);
}

#[test]
fn counter_never_decreases_at_the_top() {
    let mut counter = Counter::new();
    counter.inc_by(u64::MAX - 1);
    counter.inc();
    assert_eq!(counter.get(), u64::MAX);
    counter.inc();
    counter.inc_by(10);
    assert_eq!(counter.get(), u64::MAX);
    counter.reset();
    assert_eq!(counter.get(), 0);
}

#[test]
fn gauge_wraps_on_overflow() {
    let mut gauge = Gauge::new();
    gauge.set(i64::MAX);
    gauge.inc();
    assert_eq!(gauge.get(), i64::MIN);
    gauge.dec();
    assert_eq!(gauge.get(), i64::MAX);
}

#[test]
fn metric_type_names() {
    assert_eq!(MetricType::Counter.as_str(), "counter");
    assert_eq!(MetricType::Gauge.as_str(), "gauge");
    assert_eq!(MetricType::Histogram.as_str(), "histogram");
    assert_eq!(MetricType::Summary.as_str(), "summary");
    assert_eq!(MetricType::Timer.as_str(), "timer");
}

#[test]
fn float_value_of_integer() {
    let f = FloatValue::from_integer(-1234);
    assert_eq!(f.text(), "-1234");
    assert_eq!(f.truncated(), -1234);
    assert_eq!(*f.text(), format!("{}", -1234i64 as f64));
}

#[test]
fn empty_summary_values() {
    let s = SummaryData::new();
    assert_eq!(s.count, 0);
    assert_eq!(s.sum.text(), "0");
    assert_eq!(*s.min.text(), format!("{}", f64::INFINITY));
    assert_eq!(*s.max.text(), format!("{}", f64::NEG_INFINITY));
}
