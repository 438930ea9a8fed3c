use thalamic_relay::binary32::Binary32;
use thalamic_relay::safety::{
    brake_target_w, classify_power_limit, match_engaged_brake, plan_apply, plan_release,
    ActuatorError, ActuatorOutcome, BrakeIntent, BrakeMatch, FakeActuator, LimitCommand,
    PowerLimitObservation, SafetyActuator, SafetyMachine, BRAKE_FRACTION,
};
use thalamic_relay::telemetry;
use thalamic_relay::telemetry::{fixtures, RawTelemetry, SessionSeed, TelemetryFrame, UnixMillis};

fn b(value: f32) -> Binary32 {
    Binary32::from_bits(value.to_bits())
}

fn seed() -> SessionSeed {
    SessionSeed { pid: 7, nanos: 1_700_000_000_000_000_000, discriminator: 0 }
}

fn assess(raw: &RawTelemetry, now: UnixMillis) -> TelemetryFrame {
    telemetry::assess(raw, now, seed())
}

fn frame(temp_c: f32, power_w: f32) -> TelemetryFrame {
    let mut raw = fixtures::healthy_real();
    raw.gpu_temp_c = Some(b(temp_c));
    raw.power_w = Some(b(power_w));
    assess(&raw, fixtures::NOW)
}

#[test]
fn fake_actuator_tracks_engage_release() {
    let mut fake = FakeActuator::new();
    assert!(!fake.is_engaged());
    fake.apply_emergency_brake(Binary32::from_bits(BRAKE_FRACTION)).unwrap();
    assert!(fake.is_engaged());
    assert_eq!(fake.apply_calls(), 1);
    fake.release_emergency_brake().unwrap();
    assert!(!fake.is_engaged());
    assert_eq!(fake.release_calls(), 1);
}

#[test]
fn fake_actuator_injects_failures() {
    let mut fake = FakeActuator::new();
    fake.set_apply_failure(Some(ActuatorError::PowerLimitUnavailable));
    assert_eq!(
        fake.apply_emergency_brake(Binary32::from_bits(BRAKE_FRACTION)),
        Err(ActuatorError::PowerLimitUnavailable)
    );
    assert!(!fake.is_engaged());
    assert_eq!(fake.apply_calls(), 1);

    fake.set_apply_failure(None);
    fake.apply_emergency_brake(Binary32::from_bits(BRAKE_FRACTION)).unwrap();
    assert!(fake.is_engaged());

    fake.set_release_failure(Some(ActuatorError::CommandFailed("boom".into())));
    assert!(fake.release_emergency_brake().is_err());
    assert!(fake.is_engaged());
}

#[test]
fn fake_actuator_reports_detected_brake() {
    let mut fake = FakeActuator::new();
    assert_eq!(fake.detect_engaged_brake(Binary32::from_bits(BRAKE_FRACTION)), None);
    let m = BrakeMatch {
        current_w: 150,
        default_w: 300,
        expected_w: 150,
    };
    fake.set_detected_brake(Some(m));
    assert_eq!(fake.detect_engaged_brake(Binary32::from_bits(BRAKE_FRACTION)), Some(m));
}

#[test]
fn actuator_error_display_is_stable() {
    assert!(
        ActuatorError::PowerLimitUnavailable
            .message()
            .contains("power limit unavailable")
    );
    assert!(
        ActuatorError::CommandFailed("x".into())
            .message()
            .contains("x")
    );
}

/// End-to-end: the pure `SafetyMachine` policy driving a `FakeActuator`,
/// with no GPU and no subprocess.
#[test]
fn machine_drives_fake_actuator_critical_then_recovery() {
    let mut fake = FakeActuator::new();
    let mut machine = SafetyMachine::new();

    // Overheat → Apply intent → drive the fake actuator.
    let snap = machine.evaluate(&frame(95.0, 200.0));
    assert_eq!(snap.intent, BrakeIntent::Apply);
    let outcome = match fake.apply_emergency_brake(Binary32::from_bits(BRAKE_FRACTION)) {
        Ok(()) => ActuatorOutcome::Applied,
        Err(e) => ActuatorOutcome::ApplyFailed(e.message()),
    };
    let snap = machine.record_actuator(outcome);
    assert!(snap.brake_engaged);
    assert!(fake.is_engaged());

    // Three real Ok readings → Release intent → drive the fake actuator.
    let cool = frame(60.0, 150.0);
    let _ = machine.evaluate(&cool);
    let _ = machine.evaluate(&cool);
    let snap = machine.evaluate(&cool);
    assert_eq!(snap.intent, BrakeIntent::Release);
    let outcome = match fake.release_emergency_brake() {
        Ok(()) => ActuatorOutcome::Released,
        Err(e) => ActuatorOutcome::ReleaseFailed(e.message()),
    };
    let snap = machine.record_actuator(outcome);
    assert!(!snap.brake_engaged);
    assert!(!fake.is_engaged());
    assert_eq!(fake.apply_calls(), 1);
    assert_eq!(fake.release_calls(), 1);
}

fn half() -> Binary32 {
    Binary32::from_bits(BRAKE_FRACTION)
}

#[test]
fn brake_target_is_a_clamped_share_of_the_default() {
    assert_eq!(brake_target_w(300, half()), 150);
    assert_eq!(brake_target_w(301, half()), 150);
    assert_eq!(brake_target_w(300, b(0.0)), 30);
    assert_eq!(brake_target_w(300, b(7.0)), 300);
    assert_eq!(brake_target_w(0, half()), 0);
}

#[test]
fn observations_are_told_apart() {
    let seen = |current, default| classify_power_limit(current, default, half());
    assert_eq!(seen(None, Some(300)), PowerLimitObservation::Unavailable);
    assert_eq!(seen(Some(150), None), PowerLimitObservation::Unavailable);
    assert_eq!(seen(Some(4), Some(8)), PowerLimitObservation::AmbiguousTarget);
    assert_eq!(seen(Some(148), Some(300)), PowerLimitObservation::RelayBrake);
    assert_eq!(seen(Some(152), Some(300)), PowerLimitObservation::RelayBrake);
    assert_eq!(seen(Some(153), Some(300)), PowerLimitObservation::ForeignSubDefaultCap);
    assert_eq!(seen(Some(297), Some(300)), PowerLimitObservation::ForeignSubDefaultCap);
    assert_eq!(seen(Some(298), Some(300)), PowerLimitObservation::AtOrAboveDefault);
    assert_eq!(seen(Some(450), Some(300)), PowerLimitObservation::AtOrAboveDefault);
    assert!(seen(Some(150), Some(300)).should_seed_leftover_brake());
    assert!(!seen(Some(300), Some(300)).should_seed_leftover_brake());
}

#[test]
fn applying_sets_the_target_only_from_an_unbraked_limit() {
    assert_eq!(plan_apply(Some(300), Some(300), half()), Ok(LimitCommand::SetWatts(150)));
    assert_eq!(plan_apply(None, Some(300), half()), Ok(LimitCommand::SetWatts(150)));
    assert_eq!(plan_apply(Some(150), Some(300), half()), Ok(LimitCommand::Keep));
    assert_eq!(
        plan_apply(Some(220), Some(300), half()),
        Err(ActuatorError::CommandFailed(
            "foreign sub-default power cap; refusing to change it".into()
        ))
    );
    assert_eq!(
        plan_apply(Some(8), Some(8), half()),
        Err(ActuatorError::CommandFailed(
            "brake target is ambiguous with the device default power limit; refusing".into()
        ))
    );
    assert_eq!(plan_apply(Some(300), None, half()), Err(ActuatorError::PowerLimitUnavailable));
}

#[test]
fn releasing_restores_the_default_only_from_the_brake_target() {
    assert_eq!(plan_release(Some(151), Some(300), half()), Ok(LimitCommand::SetWatts(300)));
    assert_eq!(plan_release(Some(300), Some(300), half()), Ok(LimitCommand::Keep));
    assert!(plan_release(Some(220), Some(300), half()).is_err());
    assert!(plan_release(Some(8), Some(8), half()).is_err());
    assert_eq!(plan_release(None, Some(300), half()), Err(ActuatorError::PowerLimitUnavailable));
}

#[test]
fn a_leftover_brake_is_matched_with_its_numbers() {
    assert_eq!(
        match_engaged_brake(Some(149), Some(300), half()),
        Some(BrakeMatch { current_w: 149, default_w: 300, expected_w: 150 })
    );
    assert_eq!(match_engaged_brake(Some(220), Some(300), half()), None);
}
