use thalamic_relay::binary32::Binary32;
use thalamic_relay::safety::{
    classify_power_limit, ActuatorOutcome, BrakeIntent, SafetyMachine, SafetySnapshot,
    SafetyState, BRAKE_FRACTION,
};
use thalamic_relay::shutdown::{
    conclude_join, plan_shutdown, InFlightActuation, InFlightJoin, ShutdownActuation,
    ShutdownPlan, ShutdownReason, TaskEnd, SHUTDOWN_ACTUATOR_TIMEOUT_SECS,
    SHUTDOWN_METRICS_TIMEOUT_SECS,
};
use thalamic_relay::telemetry;
use thalamic_relay::telemetry::{fixtures, RawTelemetry, SessionSeed, TelemetryFrame, UnixMillis};

fn b(value: f32) -> Binary32 {
    Binary32::from_bits(value.to_bits())
}

fn seed() -> SessionSeed {
    SessionSeed { pid: 7, nanos: 1_700_000_000_000_000_000, discriminator: 0 }
}

fn assess(raw: &RawTelemetry, now: UnixMillis) -> TelemetryFrame {
    telemetry::assess(raw, now, seed())
}

fn nvml(temp_c: f32, power_w: f32) -> TelemetryFrame {
    let mut raw = fixtures::healthy_real();
    raw.gpu_temp_c = Some(b(temp_c));
    raw.power_w = Some(b(power_w));
    assess(&raw, fixtures::NOW)
}

fn snap_healthy() -> SafetySnapshot {
    let mut m = SafetyMachine::new();
    m.evaluate(&nvml(65.0, 200.0))
}

fn snap_warned() -> SafetySnapshot {
    let mut m = SafetyMachine::new();
    m.evaluate(&nvml(78.0, 200.0))
}

fn snap_brake_requested() -> SafetySnapshot {
    let mut m = SafetyMachine::new();
    m.evaluate(&nvml(90.0, 200.0))
}

fn snap_brake_active() -> SafetySnapshot {
    let mut m = SafetyMachine::new();
    let _ = m.evaluate(&nvml(90.0, 200.0));
    m.record_actuator(ActuatorOutcome::Applied)
}

fn snap_recovering() -> SafetySnapshot {
    let mut m = SafetyMachine::new();
    let _ = m.evaluate(&nvml(90.0, 200.0));
    let _ = m.record_actuator(ActuatorOutcome::Applied);
    m.evaluate(&nvml(65.0, 200.0))
}

fn snap_release_pending() -> SafetySnapshot {
    let mut m = SafetyMachine::new();
    let _ = m.evaluate(&nvml(90.0, 200.0));
    let _ = m.record_actuator(ActuatorOutcome::Applied);
    let ok = nvml(65.0, 200.0);
    let _ = m.evaluate(&ok);
    let _ = m.evaluate(&ok);
    m.evaluate(&ok)
}

fn snap_actuator_failed() -> SafetySnapshot {
    let mut m = SafetyMachine::new();
    let _ = m.evaluate(&nvml(90.0, 200.0));
    m.record_actuator(ActuatorOutcome::ApplyFailed("nvidia-smi -pl failed".into()))
}

fn snap_missing() -> SafetySnapshot {
    let mut m = SafetyMachine::new();
    m.evaluate(&assess(&fixtures::sensor_dropout(), fixtures::NOW))
}

fn snap_stale() -> SafetySnapshot {
    let mut m = SafetyMachine::new();
    m.evaluate(&assess(&fixtures::stale(), fixtures::NOW))
}

fn snap_invalid() -> SafetySnapshot {
    let mut m = SafetyMachine::new();
    m.evaluate(&assess(&fixtures::out_of_range(), fixtures::NOW))
}

fn snap_sim() -> SafetySnapshot {
    let mut m = SafetyMachine::new();
    m.evaluate(&assess(&fixtures::software_fallback(), fixtures::NOW))
}

fn snap_sim_braked() -> SafetySnapshot {
    let mut m = SafetyMachine::new();
    m.seed_brake_applied();
    m.evaluate(&assess(&fixtures::software_fallback(), fixtures::NOW))
}

fn assert_no_new_dispatch(plan: &ShutdownPlan) {
    assert!(
        matches!(
            plan.actuation,
            ShutdownActuation::Idle
                | ShutdownActuation::AwaitApply
                | ShutdownActuation::AwaitAuthorizedRelease
        ),
        "shutdown must not dispatch a new command, got {:?}",
        plan.actuation
    );
    assert_ne!(plan.actuation.as_str(), "dispatch_release");
    assert_ne!(plan.actuation.as_str(), "dispatch_apply");
}

#[test]
fn healthy_idle_is_clean() {
    let plan = plan_shutdown(
        ShutdownReason::Sigint,
        &snap_healthy(),
        InFlightActuation::Nothing,
    );
    assert_eq!(plan.reason.as_str(), "sigint");
    assert_eq!(plan.actuation, ShutdownActuation::Idle);
    assert!(!plan.leave_brake_engaged);
    assert!(!plan.unresolved_brake);
    assert!(!plan.unresolved_actuator);
    assert_no_new_dispatch(&plan);
}

#[test]
fn warned_without_brake_does_not_apply_on_exit() {
    let snap = snap_warned();
    assert_eq!(snap.state, SafetyState::Warning);
    assert_eq!(snap.intent, BrakeIntent::NoChange);
    let plan = plan_shutdown(ShutdownReason::Sigterm, &snap, InFlightActuation::Nothing);
    assert_eq!(plan.reason.as_str(), "sigterm");
    assert_eq!(plan.actuation, ShutdownActuation::Idle);
    assert!(!plan.leave_brake_engaged);
    assert!(!plan.unresolved_brake);
    assert_no_new_dispatch(&plan);
}

#[test]
fn brake_requested_does_not_restore_and_does_not_dispatch() {
    let snap = snap_brake_requested();
    assert_eq!(snap.intent, BrakeIntent::Apply);
    let plan = plan_shutdown(ShutdownReason::Sigterm, &snap, InFlightActuation::Nothing);
    assert_eq!(plan.actuation, ShutdownActuation::Idle);
    assert!(!plan.leave_brake_engaged);
    assert!(plan.unresolved_brake);
    assert_no_new_dispatch(&plan);
}

#[test]
fn in_flight_apply_is_awaited_not_released() {
    let snap = snap_brake_requested();
    let plan = plan_shutdown(ShutdownReason::Sigint, &snap, InFlightActuation::Apply);
    assert_eq!(plan.actuation, ShutdownActuation::AwaitApply);
    assert!(plan.leave_brake_engaged);
    assert!(plan.unresolved_brake);
    assert_no_new_dispatch(&plan);
}

#[test]
fn brake_active_leaves_hardware_throttled() {
    let snap = snap_brake_active();
    assert!(snap.brake_engaged);
    let plan = plan_shutdown(ShutdownReason::Sigterm, &snap, InFlightActuation::Nothing);
    assert_eq!(plan.actuation, ShutdownActuation::Idle);
    assert!(plan.leave_brake_engaged);
    assert!(plan.unresolved_brake);
    assert_no_new_dispatch(&plan);
}

#[test]
fn recovering_abandons_undispatched_release() {
    let snap = snap_recovering();
    assert_eq!(snap.state, SafetyState::Recovering);
    assert_eq!(snap.intent, BrakeIntent::NoChange);
    let plan = plan_shutdown(ShutdownReason::Sigint, &snap, InFlightActuation::Nothing);
    assert_eq!(plan.actuation, ShutdownActuation::Idle);
    assert!(plan.leave_brake_engaged);
    assert!(plan.unresolved_brake);
    assert_no_new_dispatch(&plan);
}

#[test]
fn release_pending_not_in_flight_does_not_restore() {
    let snap = snap_release_pending();
    assert_eq!(snap.intent, BrakeIntent::Release);
    let plan = plan_shutdown(ShutdownReason::Sigterm, &snap, InFlightActuation::Nothing);
    assert_eq!(plan.actuation, ShutdownActuation::Idle);
    assert!(plan.leave_brake_engaged);
    assert!(plan.unresolved_brake);
    assert_no_new_dispatch(&plan);
}

#[test]
fn already_authorized_in_flight_release_may_complete() {
    let snap = snap_release_pending();
    assert_eq!(snap.intent, BrakeIntent::Release);
    let plan = plan_shutdown(ShutdownReason::Sigint, &snap, InFlightActuation::Release);
    assert_eq!(plan.actuation, ShutdownActuation::AwaitAuthorizedRelease);
    assert_no_new_dispatch(&plan);
}

#[test]
fn actuator_failure_does_not_retry_on_exit() {
    let snap = snap_actuator_failed();
    assert_eq!(snap.state, SafetyState::ActuatorFailure);
    let plan = plan_shutdown(ShutdownReason::Sigterm, &snap, InFlightActuation::Nothing);
    assert_eq!(plan.actuation, ShutdownActuation::Idle);
    assert!(plan.unresolved_actuator);
    assert!(plan.unresolved_brake);
    assert_no_new_dispatch(&plan);
}

#[test]
fn missing_stale_invalid_fail_closed() {
    for snap in [snap_missing(), snap_stale(), snap_invalid()] {
        let plan = plan_shutdown(ShutdownReason::Sigint, &snap, InFlightActuation::Nothing);
        assert_eq!(plan.actuation, ShutdownActuation::Idle);
        assert!(plan.unresolved_brake);
        assert_no_new_dispatch(&plan);
    }
}

#[test]
fn simulated_without_brake_leaves_hardware() {
    let snap = snap_sim();
    let plan = plan_shutdown(ShutdownReason::Sigterm, &snap, InFlightActuation::Nothing);
    assert_eq!(plan.actuation, ShutdownActuation::Idle);
    assert!(!plan.leave_brake_engaged);
    assert!(!plan.unresolved_brake);
    assert_no_new_dispatch(&plan);
}

#[test]
fn simulated_cannot_authorize_release_of_real_brake() {
    let snap = snap_sim_braked();
    assert_eq!(snap.state, SafetyState::SimulatedSoftwareOnly);
    assert_eq!(snap.intent, BrakeIntent::NoChange);
    assert!(snap.brake_engaged);
    let plan = plan_shutdown(ShutdownReason::Sigint, &snap, InFlightActuation::Nothing);
    assert_eq!(plan.actuation, ShutdownActuation::Idle);
    assert!(plan.leave_brake_engaged);
    assert!(plan.unresolved_brake);
    assert_no_new_dispatch(&plan);
}

#[test]
fn both_apply_and_release_flags_prefer_apply() {
    assert_eq!(
        InFlightActuation::from_tasks(true, true),
        InFlightActuation::Apply
    );
    assert_eq!(
        InFlightActuation::from_tasks(false, false),
        InFlightActuation::Nothing
    );
}

#[test]
fn foreign_cap_is_not_seeded() {
    let obs = classify_power_limit(Some(220), Some(300), Binary32::from_bits(BRAKE_FRACTION));
    assert!(!obs.should_seed_leftover_brake());
    assert_eq!(obs.as_str(), "foreign_sub_default_cap");
}

#[test]
fn a_joined_command_reports_how_it_ended() {
    assert_eq!(conclude_join(TaskEnd::Finished(Ok(()))), (InFlightJoin::Succeeded, false));
    assert_eq!(
        conclude_join(TaskEnd::Finished(Err("boom".into()))),
        (InFlightJoin::Failed("boom".into()), false)
    );
    assert_eq!(
        conclude_join(TaskEnd::Panicked("task panicked".into())),
        (InFlightJoin::Panicked("task panicked".into()), false)
    );
    assert_eq!(conclude_join(TaskEnd::TimedOut), (InFlightJoin::TimedOut, true));
}

#[test]
fn summaries_name_the_decision() {
    let summary = |snap: &SafetySnapshot, in_flight| {
        plan_shutdown(ShutdownReason::Sigint, snap, in_flight).summary
    };
    assert_eq!(
        summary(&snap_healthy(), InFlightActuation::Nothing),
        "healthy; leave hardware unchanged; release process lock"
    );
    assert_eq!(
        summary(&snap_recovering(), InFlightActuation::Nothing),
        "recovering; abandon undispatched release; leave brake engaged for hysteresis on restart"
    );
    assert_eq!(
        summary(&snap_healthy(), InFlightActuation::Release),
        "await already-authorized in-flight release; no new actuation"
    );
    assert_eq!(InFlightActuation::from_tasks(false, true), InFlightActuation::Release);
}

#[test]
fn shutdown_waits_are_bounded() {
    assert_eq!(SHUTDOWN_ACTUATOR_TIMEOUT_SECS, 8);
    assert_eq!(SHUTDOWN_METRICS_TIMEOUT_SECS, 2);
}

#[test]
fn a_pending_reapply_is_unresolved_at_shutdown() {
    let mut m = SafetyMachine::new();
    let _ = m.evaluate(&nvml(90.0, 200.0));
    let _ = m.record_actuator(ActuatorOutcome::Applied);
    for _ in 0..3 {
        let _ = m.evaluate(&nvml(65.0, 200.0));
    }
    let _ = m.record_actuator(ActuatorOutcome::Released);
    let _ = m.evaluate(&nvml(78.0, 200.0));
    let plan = plan_shutdown(ShutdownReason::Sigterm, &m.snapshot(), InFlightActuation::Nothing);
    assert!(plan.unresolved_brake);
    assert!(!plan.leave_brake_engaged);
}
