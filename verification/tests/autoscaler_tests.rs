use rust_monitoring_system::{
    AutoScaler, AutoScalerConfig, Labels, MetricRegistry, PredictiveScaler, ScalingDecision,
    ScalingDirection, ScalingRule,
};
use std::time::Duration;

#[test]
fn test_scaling_rule() {
    let rule = ScalingRule::new("cpu_usage", 80, 20).with_breach_duration(2);

    assert_eq!(rule.metric_name, "cpu_usage");
    assert_eq!(rule.scale_up_threshold, 80);
    assert_eq!(rule.scale_down_threshold, 20);
    assert_eq!(rule.breach_duration, 2);
}

#[test]
fn test_autoscaler_creation() {
    let registry = MetricRegistry::new();
    let config = AutoScalerConfig::new()
        .with_min_instances(2)
        .with_max_instances(10);

    let scaler = AutoScaler::new(config, registry);

    assert_eq!(scaler.current_instances(), 2);
}

#[test]
fn test_set_instances() {
    let registry = MetricRegistry::new();
    let config = AutoScalerConfig::new()
        .with_min_instances(1)
        .with_max_instances(5);

    let mut scaler = AutoScaler::new(config, registry);

    scaler.set_instances(3);
    assert_eq!(scaler.current_instances(), 3);

    // Should clamp to max
    scaler.set_instances(10);
    assert_eq!(scaler.current_instances(), 5);

    // Should clamp to min
    scaler.set_instances(0);
    assert_eq!(scaler.current_instances(), 1);
}

#[test]
fn test_scale_up_decision() {
    let mut registry = MetricRegistry::new();

    // Set high CPU usage
    registry.get_or_create_gauge("cpu_usage", Labels::new()).set(85);

    let rule = ScalingRule::new("cpu_usage", 80, 20).with_breach_duration(1);

    let config = AutoScalerConfig::new()
        .with_min_instances(1)
        .with_max_instances(10)
        .with_cooldown(Duration::from_secs(0))
        .add_rule(rule);

    let mut scaler = AutoScaler::new(config, registry);

    let decision = scaler.evaluate();
    assert!(decision.is_some());

    let decision = decision.expect("Expected a scaling decision");
    assert_eq!(decision.direction, ScalingDirection::Up);
    assert_eq!(decision.target_instances, 2);
}

#[test]
fn test_scale_down_decision() {
    let mut registry = MetricRegistry::new();

    // Set low CPU usage
    registry.get_or_create_gauge("cpu_usage", Labels::new()).set(10);

    let rule = ScalingRule::new("cpu_usage", 80, 20).with_breach_duration(1);

    let config = AutoScalerConfig::new()
        .with_min_instances(1)
        .with_max_instances(10)
        .with_cooldown(Duration::from_secs(0))
        .add_rule(rule);

    let mut scaler = AutoScaler::new(config, registry);
    scaler.set_instances(5);

    let decision = scaler.evaluate();
    assert!(decision.is_some());

    let decision = decision.expect("Expected a scaling down decision");
    assert_eq!(decision.direction, ScalingDirection::Down);
    assert_eq!(decision.target_instances, 4);
}

#[test]
fn test_breach_duration() {
    let mut registry = MetricRegistry::new();

    registry.get_or_create_gauge("cpu_usage", Labels::new()).set(85);

    let rule = ScalingRule::new("cpu_usage", 80, 20).with_breach_duration(3);

    let config = AutoScalerConfig::new()
        .with_cooldown(Duration::from_secs(0))
        .add_rule(rule);

    let mut scaler = AutoScaler::new(config, registry);

    // First two evaluations should not scale
    assert!(scaler.evaluate().is_none());
    assert!(scaler.evaluate().is_none());

    // Third evaluation should trigger scale
    let decision = scaler.evaluate();
    assert!(decision.is_some());
}

#[test]
fn config_defaults() {
    let config = AutoScalerConfig::new();
    assert_eq!(config.min_instances, 1);
    assert_eq!(config.max_instances, 10);
    assert_eq!(config.cooldown, Duration::from_secs(300));
    assert_eq!(config.check_interval, Duration::from_secs(60));
    assert!(config.rules.is_empty());
}

#[test]
fn no_scale_up_at_max() {
    let mut registry = MetricRegistry::new();
    registry.get_or_create_gauge("cpu_usage", Labels::new()).set(95);
    let config = AutoScalerConfig::new()
        .with_min_instances(1)
        .with_max_instances(2)
        .with_cooldown(Duration::from_secs(0))
        .add_rule(ScalingRule::new("cpu_usage", 80, 20));
    let mut scaler = AutoScaler::new(config, registry);
    scaler.set_instances(2);
    assert!(scaler.evaluate().is_none());
}

#[test]
fn cooldown_blocks_evaluation() {
    let mut registry = MetricRegistry::new();
    registry.get_or_create_gauge("cpu_usage", Labels::new()).set(95);
    let config = AutoScalerConfig::new()
        .with_cooldown(Duration::from_secs(3600))
        .add_rule(ScalingRule::new("cpu_usage", 80, 20));
    let mut scaler = AutoScaler::new(config, registry);
    // A new scaler starts in its cooldown.
    assert!(scaler.evaluate().is_none());
    assert_eq!(scaler.current_instances(), 1);
}

#[test]
fn decision_reason_text() {
    let mut registry = MetricRegistry::new();
    registry.get_or_create_gauge("cpu_usage", Labels::new()).set(85);
    let config = AutoScalerConfig::new()
        .with_cooldown(Duration::from_secs(0))
        .add_rule(ScalingRule::new("cpu_usage", 80, 20).with_breach_duration(1));
    let mut scaler = AutoScaler::new(config, registry);
    let decision = scaler.evaluate().expect("scale up");
    assert_eq!(decision.reason, "cpu_usage (85) >= threshold (80)");
    assert_eq!(decision.current_instances, 1);
}

#[test]
fn apply_decision_clamps() {
    let config = AutoScalerConfig::new().with_min_instances(2).with_max_instances(4);
    let mut scaler = AutoScaler::new(config, MetricRegistry::new());
    let decision = ScalingDecision {
        direction: ScalingDirection::Up,
        current_instances: 2,
        target_instances: 9,
        reason: String::new(),
    };
    scaler.apply_decision(&decision);
    assert_eq!(scaler.current_instances(), 4);
}

#[test]
fn predictive_scaler_keeps_recent_loads() {
    let config = AutoScalerConfig::new();
    let mut scaler = PredictiveScaler::new(config, MetricRegistry::new(), Duration::from_secs(300));
    scaler.record_load(10);
    scaler.record_load(20);
    scaler.record_load(30);
    assert_eq!(scaler.load_history(), vec![10, 20, 30]);
    assert_eq!(scaler.current_instances(), 1);
}

#[test]
fn predictive_scaler_forgets_old_loads() {
    let config = AutoScalerConfig::new();
    let mut scaler = PredictiveScaler::new(config, MetricRegistry::new(), Duration::from_secs(10));
    let second: u128 = 1_000_000_000;
    scaler.record_load_at(0, 1);
    scaler.record_load_at(5 * second, 2);
    scaler.record_load_at(12 * second, 3);
    assert_eq!(scaler.load_history(), vec![2, 3]);
    scaler.record_load_at(15 * second, 4);
    assert_eq!(scaler.load_history(), vec![3, 4]);
}
