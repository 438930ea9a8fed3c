use thalamic_relay::binary32::Binary32;
use thalamic_relay::metrics::{
    export_safety_gauges, record_safety_snapshot, record_shutdown, refresh, MetricUpdate,
    RelayMetrics,
};
use thalamic_relay::publish::{DropReason, IsolatedPublishQueue, QueueFullPolicy};
use thalamic_relay::safety::{ActuatorOutcome, BrakeIntent, SafetyMachine, SafetyState};
use thalamic_relay::shutdown::{plan_shutdown, InFlightActuation, ShutdownReason};
use thalamic_relay::telemetry;
use thalamic_relay::telemetry::{fixtures, RawTelemetry, SessionSeed, TelemetryFrame, UnixMillis};
use thalamic_relay::time::freshness_millis;

fn b(value: f32) -> Binary32 {
    Binary32::from_bits(value.to_bits())
}

fn seed() -> SessionSeed {
    SessionSeed { pid: 7, nanos: 1_700_000_000_000_000_000, discriminator: 0 }
}

fn assess(raw: &RawTelemetry, now: UnixMillis) -> TelemetryFrame {
    telemetry::assess(raw, now, seed())
}

fn freshness_seconds(received_at: Option<UnixMillis>, now: UnixMillis) -> f64 {
    freshness_millis(received_at, now) as f64 / 1000.0
}

#[test]
fn relay_metrics_default_values() {
    let m = RelayMetrics::default();
    assert_eq!(m.telemetry_acquired_at, None);
    assert_eq!(m.telemetry_received_instant, None);
    assert_eq!(m.safety_state, SafetyState::TelemetryMissing);
    assert_eq!(m.policy_state, SafetyState::TelemetryMissing);
    assert!(!m.brake_engaged);
    assert_eq!(freshness_seconds(None, 1_000), 0.0);
}

#[test]
fn freshness_seconds_grows_when_export_time_advances() {
    let acquired = Some(1_000);
    let early = freshness_seconds(acquired, 2_500);
    let later = freshness_seconds(acquired, 5_000);
    assert!((early - 1.5).abs() < f64::EPSILON);
    assert!((later - 4.0).abs() < f64::EPSILON);
    assert!(later > early);
}

#[test]
fn metrics_queue_snapshot_names_are_stable() {
    let (mut queue, _rx) =
        IsolatedPublishQueue::bounded_with_policy(4, QueueFullPolicy::DropOldest).unwrap();
    let mapping = assess(&fixtures::healthy_real(), fixtures::NOW).to_sensory_mapping();
    queue.try_enqueue(mapping.clone()).unwrap();
    queue.try_enqueue(mapping.clone()).unwrap();
    queue.try_enqueue(mapping.clone()).unwrap();
    queue.try_enqueue(mapping.clone()).unwrap();
    queue.try_enqueue(mapping).unwrap();
    let text = queue.snapshot().prometheus_exposition();
    assert!(text.contains("sensory_queue_depth 4"));
    assert!(text.contains("sensory_queue_capacity 4"));
    assert!(text.contains("sensory_queue_enqueued_total 5"));
    assert!(text.contains("sensory_queue_dropped_total{reason=\"drop_oldest\"} 1"));
    assert!(text.contains("sensory_queue_full_policy{policy=\"drop_oldest\"} 1"));
    assert_eq!(DropReason::ALL.len(), 6);
}

#[test]
fn freshness_seconds_ignores_regressing_source_wall_time() {
    let received_at = Some(5_000);
    let source_regressed = Some(1_000);
    assert_eq!(freshness_seconds(received_at, 5_000), 0.0);
    assert!((freshness_seconds(source_regressed, 5_000) - 4.0).abs() < f64::EPSILON);
    // Callers must pass receive time; source age is validity, not this gauge.
    assert!(freshness_seconds(received_at, 5_000) < freshness_seconds(source_regressed, 5_000));
}

#[test]
fn record_safety_snapshot_copies_state_and_brake() {
    let mut metrics = RelayMetrics::default();
    let mut machine = SafetyMachine::new();
    let mut raw = fixtures::healthy_real();
    raw.gpu_temp_c = Some(b(90.0));
    let snap = machine.evaluate(&assess(&raw, fixtures::NOW));
    assert_eq!(snap.intent, BrakeIntent::Apply);
    record_safety_snapshot(&mut metrics, &snap);
    assert_eq!(metrics.safety_state, SafetyState::CriticalBraked);
    assert!(!metrics.brake_engaged);
    assert_eq!(metrics.policy_state, SafetyState::CriticalBraked);
}

#[test]
fn record_shutdown_copies_unresolved_flags() {
    let mut machine = SafetyMachine::new();
    machine.seed_brake_applied();
    let plan = plan_shutdown(
        ShutdownReason::Sigterm,
        &machine.snapshot(),
        InFlightActuation::Nothing,
    );
    let mut metrics = RelayMetrics::default();
    record_shutdown(&mut metrics, &plan);
    assert_eq!(metrics.shutdown_reason, Some("sigterm"));
    assert!(metrics.shutdown_unresolved_brake);
    assert!(!metrics.shutdown_unresolved_actuator);
}

#[test]
fn freshness_seconds_is_zero_when_acquired_at_now() {
    assert_eq!(freshness_seconds(Some(5_000), 5_000), 0.0);
    assert_eq!(freshness_seconds(Some(8_000), 5_000), 0.0);
}

#[test]
fn record_safety_snapshot_tracks_hysteresis_and_actuator_overlay() {
    let mut metrics = RelayMetrics::default();
    let mut machine = SafetyMachine::new();
    let mut raw = fixtures::healthy_real();
    raw.gpu_temp_c = Some(b(90.0));
    let _ = machine.evaluate(&assess(&raw, fixtures::NOW));
    let failed = machine.record_actuator(ActuatorOutcome::ApplyFailed("pl".into()));
    record_safety_snapshot(&mut metrics, &failed);
    assert_eq!(metrics.safety_state, SafetyState::ActuatorFailure);
    assert_eq!(metrics.policy_state, SafetyState::CriticalBraked);
    assert!(!metrics.brake_engaged);
    assert_eq!(metrics.hysteresis_ok_count, 0);
}

#[test]
fn safety_gauges_are_one_hot_and_numeric() {
    let updates =
        export_safety_gauges(SafetyState::ActuatorFailure, SafetyState::CriticalBraked, true, 2);
    assert_eq!(updates.len(), 2 * SafetyState::ALL.len() + 4);
    let gauge = |name, state, value| MetricUpdate::Gauge { name, state, value };
    assert!(updates.contains(&gauge("safety_state", Some("actuator_failure"), 1)));
    assert!(updates.contains(&gauge("safety_state", Some("critical_braked"), 0)));
    assert!(updates.contains(&gauge("safety_policy_state", Some("critical_braked"), 1)));
    assert!(updates.contains(&gauge("safety_state_id", None, 8)));
    assert!(updates.contains(&gauge("safety_policy_state_id", None, 2)));
    assert!(updates.contains(&gauge("safety_brake_engaged", None, 1)));
    assert!(updates.contains(&gauge("safety_hysteresis_ok_count", None, 2)));
}

#[test]
fn counters_move_only_when_something_happened() {
    let mut metrics = RelayMetrics::default();
    let mut machine = SafetyMachine::new();
    let ok = assess(&fixtures::healthy_real(), fixtures::NOW);
    let transitions = MetricUpdate::Counter { name: "safety_transitions_total", reason: None };
    let first = record_safety_snapshot(&mut metrics, &machine.evaluate(&ok));
    assert!(first.contains(&transitions));
    let second = record_safety_snapshot(&mut metrics, &machine.evaluate(&ok));
    assert!(!second.contains(&transitions));
    assert_eq!(second, refresh(&metrics));
    let failed = machine.record_actuator(ActuatorOutcome::ReleaseFailed("pl".into()));
    let third = record_safety_snapshot(&mut metrics, &failed);
    assert!(third.contains(&MetricUpdate::Counter {
        name: "safety_actuator_failures_total",
        reason: None
    }));
}

#[test]
fn shutdown_updates_carry_the_reason_and_the_flags() {
    let mut machine = SafetyMachine::new();
    machine.seed_brake_applied();
    let plan =
        plan_shutdown(ShutdownReason::Sigint, &machine.snapshot(), InFlightActuation::Nothing);
    let updates = record_shutdown(&mut RelayMetrics::default(), &plan);
    let gauge = |name, value| MetricUpdate::Gauge { name, state: None, value };
    assert_eq!(
        updates,
        [
            MetricUpdate::Counter { name: "shutdown_total", reason: Some("sigint") },
            gauge("shutdown_unresolved_brake", 1),
            gauge("shutdown_unresolved_actuator", 0),
            gauge("shutdown_brake_left_engaged", 1),
        ]
    );
}
