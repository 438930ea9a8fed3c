use thalamic_relay::binary32::Binary32;
use thalamic_relay::safety::{
    classify_frame, classify_frame_with, instant_status, ActuatorOutcome, AssessmentKind,
    BrakeIntent, SafetyLimits, SafetyMachine, SafetySnapshot, SafetyState, SafetyStatus,
    POWER_CRITICAL_W, POWER_WARN_W, RELEASE_OK_STREAK, TEMP_CRITICAL_C, TEMP_WARN_C,
};
use thalamic_relay::telemetry;
use thalamic_relay::telemetry::{
    fixtures, RawTelemetry, SampleValidity, SessionSeed, TelemetryFrame, UnixMillis,
};

fn b(value: f32) -> Binary32 {
    Binary32::from_bits(value.to_bits())
}

fn seed() -> SessionSeed {
    SessionSeed { pid: 7, nanos: 1_700_000_000_000_000_000, discriminator: 0 }
}

fn assess(raw: &RawTelemetry, now: UnixMillis) -> TelemetryFrame {
    telemetry::assess(raw, now, seed())
}

fn nvml_temp_power(temp_c: f32, power_w: f32) -> TelemetryFrame {
    let mut raw = fixtures::healthy_real();
    raw.gpu_temp_c = Some(b(temp_c));
    raw.power_w = Some(b(power_w));
    assess(&raw, fixtures::NOW)
}

fn eval_once(raw: RawTelemetry) -> SafetySnapshot {
    let mut machine = SafetyMachine::new();
    machine.evaluate(&assess(&raw, fixtures::NOW))
}

fn warn_from_frame(frame: &TelemetryFrame) -> Option<SafetyStatus> {
    match instant_status(frame) {
        (SafetyStatus::Okay, _) => None,
        (status, _) => Some(status),
    }
}

#[test]
fn new_is_fail_closed_telemetry_missing() {
    let snap = SafetyMachine::new().snapshot();
    assert_eq!(snap.state, SafetyState::TelemetryMissing);
    assert_eq!(snap.policy_state, SafetyState::TelemetryMissing);
    assert!(snap.desired_brake);
    assert!(!snap.brake_engaged);
    assert_eq!(snap.intent, BrakeIntent::Apply);
    assert_eq!(snap.last_reason, "no telemetry evaluated yet");
}

#[test]
fn healthy_real_is_named_state() {
    let snap = eval_once(fixtures::healthy_real());
    assert_eq!(snap.state, SafetyState::HealthyReal);
    assert_eq!(snap.policy_state, SafetyState::HealthyReal);
    assert!(!snap.brake_engaged);
    assert!(!snap.desired_brake);
    assert_eq!(snap.intent, BrakeIntent::NoChange);
}

#[test]
fn warning_does_not_apply_brake_when_released() {
    let snap = eval_once({
        let mut raw = fixtures::healthy_real();
        raw.gpu_temp_c = Some(b(78.0));
        raw
    });
    assert_eq!(snap.state, SafetyState::Warning);
    assert!(!snap.desired_brake);
    assert_eq!(snap.intent, BrakeIntent::NoChange);
}

#[test]
fn warn_band_includes_exact_thresholds() {
    let at_temp = eval_once({
        let mut raw = fixtures::healthy_real();
        raw.gpu_temp_c = Some(Binary32::from_bits(TEMP_WARN_C));
        raw
    });
    assert_eq!(at_temp.state, SafetyState::Warning);

    let at_power = eval_once({
        let mut raw = fixtures::healthy_real();
        raw.power_w = Some(Binary32::from_bits(POWER_WARN_W));
        raw
    });
    assert_eq!(at_power.state, SafetyState::Warning);

    let just_below = eval_once({
        let mut raw = fixtures::healthy_real();
        raw.gpu_temp_c = Some(b(74.9));
        raw.power_w = Some(b(299.9));
        raw
    });
    assert_eq!(just_below.state, SafetyState::HealthyReal);
}

#[test]
fn critical_requests_brake() {
    let snap = eval_once({
        let mut raw = fixtures::healthy_real();
        raw.gpu_temp_c = Some(b(90.0));
        raw
    });
    assert_eq!(snap.state, SafetyState::CriticalBraked);
    assert!(snap.desired_brake);
    assert_eq!(snap.intent, BrakeIntent::Apply);
}

#[test]
fn missing_stale_invalid_and_unavailable_fail_closed() {
    let missing = eval_once(fixtures::sensor_dropout());
    assert_eq!(snap_policy(&missing), SafetyState::TelemetryMissing);
    assert_eq!(missing.intent, BrakeIntent::Apply);

    let stale = eval_once(fixtures::stale());
    assert_eq!(snap_policy(&stale), SafetyState::TelemetryStale);
    assert_eq!(stale.intent, BrakeIntent::Apply);

    let invalid = eval_once(fixtures::out_of_range());
    assert_eq!(snap_policy(&invalid), SafetyState::TelemetryInvalid);
    assert_eq!(invalid.intent, BrakeIntent::Apply);

    let unavail = eval_once(fixtures::nvml_unavailable());
    assert_eq!(snap_policy(&unavail), SafetyState::TelemetryMissing);
    assert_eq!(unavail.intent, BrakeIntent::Apply);
    assert!(unavail.last_reason.contains("missing"));
}

fn snap_policy(snap: &SafetySnapshot) -> SafetyState {
    snap.policy_state
}

#[test]
fn simulated_skips_thresholds_and_does_not_apply() {
    let mut raw = fixtures::software_fallback();
    raw.gpu_temp_c = Some(b(99.0));
    raw.power_w = Some(b(400.0));
    let snap = eval_once(raw);
    assert_eq!(snap.state, SafetyState::SimulatedSoftwareOnly);
    assert_eq!(snap.intent, BrakeIntent::NoChange);
    let (status, is_sim) =
        instant_status(&assess(&fixtures::software_fallback(), fixtures::NOW));
    assert_eq!(status, SafetyStatus::Okay);
    assert!(is_sim);
}

#[test]
fn simulated_holds_existing_brake_and_resets_hysteresis() {
    let mut machine = SafetyMachine::new();
    let critical = nvml_temp_power(90.0, 200.0);
    let snap = machine.evaluate(&critical);
    assert_eq!(snap.intent, BrakeIntent::Apply);
    let snap = machine.record_actuator(ActuatorOutcome::Applied);
    assert!(snap.brake_engaged);

    let sim = assess(&fixtures::software_fallback(), fixtures::NOW);
    let snap = machine.evaluate(&sim);
    assert_eq!(snap.state, SafetyState::SimulatedSoftwareOnly);
    assert!(snap.brake_engaged);
    assert!(snap.desired_brake);
    assert_eq!(snap.intent, BrakeIntent::NoChange);
    assert_eq!(snap.hysteresis_ok_count, 0);
}

#[test]
fn hysteresis_requires_three_real_ok_before_release() {
    let mut machine = SafetyMachine::new();
    let _ = machine.evaluate(&nvml_temp_power(90.0, 200.0));
    let _ = machine.record_actuator(ActuatorOutcome::Applied);

    let ok = nvml_temp_power(65.0, 200.0);
    let first = machine.evaluate(&ok);
    assert_eq!(first.state, SafetyState::Recovering);
    assert_eq!(first.hysteresis_ok_count, 1);
    assert_eq!(first.intent, BrakeIntent::NoChange);

    let second = machine.evaluate(&ok);
    assert_eq!(second.hysteresis_ok_count, 2);
    assert_eq!(second.intent, BrakeIntent::NoChange);

    let third = machine.evaluate(&ok);
    assert_eq!(third.state, SafetyState::Recovering);
    assert_eq!(third.hysteresis_ok_count, 3);
    assert!(!third.desired_brake);
    assert_eq!(third.intent, BrakeIntent::Release);
}

#[test]
fn warn_or_critical_resets_hysteresis_streak() {
    let mut machine = SafetyMachine::new();
    let _ = machine.evaluate(&nvml_temp_power(90.0, 200.0));
    let _ = machine.record_actuator(ActuatorOutcome::Applied);
    let ok = nvml_temp_power(65.0, 200.0);
    let _ = machine.evaluate(&ok);
    let _ = machine.evaluate(&ok);
    assert_eq!(machine.snapshot().hysteresis_ok_count, 2);

    let warn = nvml_temp_power(78.0, 200.0);
    let snap = machine.evaluate(&warn);
    assert_eq!(snap.state, SafetyState::Warning);
    assert_eq!(snap.hysteresis_ok_count, 0);
    assert!(snap.brake_engaged);
    assert_eq!(snap.intent, BrakeIntent::NoChange);
}

#[test]
fn warn_after_release_reapplies_brake() {
    let mut machine = SafetyMachine::new();
    let _ = machine.evaluate(&nvml_temp_power(90.0, 200.0));
    let _ = machine.record_actuator(ActuatorOutcome::Applied);
    let ok = nvml_temp_power(65.0, 200.0);
    let _ = machine.evaluate(&ok);
    let _ = machine.evaluate(&ok);
    let _ = machine.evaluate(&ok);
    let _ = machine.record_actuator(ActuatorOutcome::Released);
    assert!(!machine.snapshot().brake_engaged);

    let warn = nvml_temp_power(78.0, 200.0);
    let snap = machine.evaluate(&warn);
    assert_eq!(snap.state, SafetyState::Warning);
    assert!(snap.desired_brake);
    assert_eq!(snap.intent, BrakeIntent::Apply);
}

#[test]
fn ok_after_release_is_healthy_real() {
    let mut machine = SafetyMachine::new();
    let _ = machine.evaluate(&nvml_temp_power(90.0, 200.0));
    let _ = machine.record_actuator(ActuatorOutcome::Applied);
    let ok = nvml_temp_power(65.0, 200.0);
    let _ = machine.evaluate(&ok);
    let _ = machine.evaluate(&ok);
    let _ = machine.evaluate(&ok);
    let _ = machine.record_actuator(ActuatorOutcome::Released);
    let snap = machine.evaluate(&ok);
    assert_eq!(snap.state, SafetyState::HealthyReal);
    assert_eq!(snap.intent, BrakeIntent::NoChange);
}

#[test]
fn actuator_failure_is_named_state_and_does_not_stop_evaluation() {
    let mut machine = SafetyMachine::new();
    let critical = nvml_temp_power(90.0, 200.0);
    let _ = machine.evaluate(&critical);
    let snap = machine.record_actuator(ActuatorOutcome::ApplyFailed(
        "nvidia-smi -pl failed".to_string(),
    ));
    assert_eq!(snap.state, SafetyState::ActuatorFailure);
    assert_eq!(snap.policy_state, SafetyState::CriticalBraked);
    assert!(snap.actuator_failed);
    assert_eq!(machine.actuator_failures_total(), 1);
    assert!(!snap.brake_engaged);
    assert_eq!(snap.intent, BrakeIntent::Apply);

    let still = machine.evaluate(&critical);
    assert_eq!(still.state, SafetyState::ActuatorFailure);
    assert_eq!(still.policy_state, SafetyState::CriticalBraked);
    assert_eq!(still.intent, BrakeIntent::Apply);

    let recovered = machine.record_actuator(ActuatorOutcome::Applied);
    assert!(!recovered.actuator_failed);
    let after = machine.evaluate(&critical);
    assert_eq!(after.state, SafetyState::CriticalBraked);
    assert!(after.brake_engaged);
    assert_eq!(after.intent, BrakeIntent::NoChange);
}

#[test]
fn healthy_evaluate_clears_stale_actuator_failure_overlay() {
    let mut machine = SafetyMachine::new();
    let critical = nvml_temp_power(90.0, 200.0);
    let _ = machine.evaluate(&critical);
    let _ = machine.record_actuator(ActuatorOutcome::ApplyFailed(
        "nvidia-smi -pl failed".to_string(),
    ));
    assert_eq!(machine.snapshot().state, SafetyState::ActuatorFailure);

    let healthy = machine.evaluate(&nvml_temp_power(65.0, 200.0));
    assert_eq!(healthy.policy_state, SafetyState::HealthyReal);
    assert!(!healthy.desired_brake);
    assert_eq!(healthy.state, SafetyState::HealthyReal);
    assert_eq!(healthy.last_actuator_error, None);
    assert_eq!(healthy.intent, BrakeIntent::NoChange);
    assert_eq!(machine.actuator_failures_total(), 1);
}

#[test]
fn release_failure_keeps_brake_and_retries() {
    let mut machine = SafetyMachine::new();
    let _ = machine.evaluate(&nvml_temp_power(90.0, 200.0));
    let _ = machine.record_actuator(ActuatorOutcome::Applied);
    let ok = nvml_temp_power(65.0, 200.0);
    let _ = machine.evaluate(&ok);
    let _ = machine.evaluate(&ok);
    let release = machine.evaluate(&ok);
    assert_eq!(release.intent, BrakeIntent::Release);

    let snap = machine.record_actuator(ActuatorOutcome::ReleaseFailed("sudo denied".into()));
    assert_eq!(snap.state, SafetyState::ActuatorFailure);
    assert!(snap.brake_engaged);
    assert_eq!(snap.intent, BrakeIntent::Release);
    assert_eq!(machine.actuator_failures_total(), 1);
}

#[test]
fn leftover_brake_seed_enters_recovering() {
    let mut machine = SafetyMachine::new();
    machine.seed_brake_applied();
    let snap = machine.evaluate(&nvml_temp_power(65.0, 200.0));
    assert_eq!(snap.state, SafetyState::Recovering);
    assert!(snap.brake_engaged);
    assert_eq!(snap.hysteresis_ok_count, 1);
}

#[test]
fn nvml_old_magic_is_healthy_real_not_simulated() {
    let snap = eval_once(fixtures::nvml_looks_like_old_magic());
    assert_eq!(snap.state, SafetyState::HealthyReal);
    let (status, is_sim) = instant_status(&assess(
        &fixtures::nvml_looks_like_old_magic(),
        fixtures::NOW,
    ));
    assert_eq!(status, SafetyStatus::Okay);
    assert!(!is_sim);
}

#[test]
fn warn_from_frame_fail_closes_on_missing_temp_or_power() {
    let mut raw = fixtures::healthy_real();
    raw.gpu_temp_c = None;
    let frame = assess(&raw, fixtures::NOW);
    assert!(
        matches!(warn_from_frame(&frame), Some(SafetyStatus::Critical(ref msg)) if msg.contains("gpu_temp_c"))
    );

    let mut raw = fixtures::healthy_real();
    raw.power_w = None;
    let frame = assess(&raw, fixtures::NOW);
    assert!(
        matches!(warn_from_frame(&frame), Some(SafetyStatus::Critical(ref msg)) if msg.contains("power_w"))
    );

    let mut frame = nvml_temp_power(78.0, 200.0);
    frame.power_w.value = None;
    frame.power_w.validity = SampleValidity::Missing;
    assert!(
        matches!(warn_from_frame(&frame), Some(SafetyStatus::Critical(ref msg)) if msg.contains("power_w"))
    );
    let (status, is_sim) = instant_status(&frame);
    assert!(matches!(status, SafetyStatus::Critical(_)));
    assert!(!matches!(status, SafetyStatus::Warn(_)));
    assert!(!is_sim);

    let mut frame = nvml_temp_power(78.0, 200.0);
    frame.gpu_temp_c.value = None;
    assert_eq!(frame.gpu_temp_c.validity, SampleValidity::Valid);
    assert!(
        matches!(warn_from_frame(&frame), Some(SafetyStatus::Critical(ref msg)) if msg.contains("gpu_temp_c"))
    );
}

#[test]
fn mixed_faults_prefer_missing_over_stale() {
    let mut frame = nvml_temp_power(65.0, 200.0);
    frame.gpu_temp_c.validity = SampleValidity::Stale;
    frame.power_w.value = None;
    frame.power_w.validity = SampleValidity::Missing;
    let assessment = classify_frame(&frame);
    assert_eq!(assessment.kind, AssessmentKind::Missing);
    assert!(assessment.reason.contains("power_w"));
}

#[test]
fn transitions_are_counted() {
    let mut machine = SafetyMachine::new();
    let _ = machine.evaluate(&nvml_temp_power(65.0, 200.0));
    let before = machine.transitions_total();
    let snap = machine.evaluate(&nvml_temp_power(90.0, 200.0));
    assert_eq!(
        snap.transition,
        Some((SafetyState::HealthyReal, SafetyState::CriticalBraked))
    );
    assert_eq!(machine.transitions_total(), before + 1);
    let again = machine.evaluate(&nvml_temp_power(91.0, 200.0));
    assert_eq!(again.transition, None);
    assert_eq!(machine.transitions_total(), before + 1);
}

#[test]
fn safety_state_ids_are_stable() {
    for (i, state) in SafetyState::ALL.iter().enumerate() {
        assert_eq!(state.as_id() as usize, i);
    }
    assert_eq!(SafetyState::ActuatorFailure.as_str(), "actuator_failure");
}

#[test]
fn default_machine_matches_new() {
    let snap = SafetyMachine::default().snapshot();
    assert_eq!(snap.state, SafetyState::TelemetryMissing);
    assert_eq!(snap.intent, BrakeIntent::Apply);
}

#[test]
fn exact_critical_thresholds_are_exclusive() {
    let at_temp = eval_once({
        let mut raw = fixtures::healthy_real();
        raw.gpu_temp_c = Some(Binary32::from_bits(TEMP_CRITICAL_C));
        raw
    });
    assert_eq!(at_temp.state, SafetyState::Warning);

    let over_temp = eval_once({
        let mut raw = fixtures::healthy_real();
        raw.gpu_temp_c = Some(b(f32::from_bits(TEMP_CRITICAL_C) + 0.1));
        raw
    });
    assert_eq!(over_temp.state, SafetyState::CriticalBraked);
    assert_eq!(over_temp.intent, BrakeIntent::Apply);

    let at_power = eval_once({
        let mut raw = fixtures::healthy_real();
        raw.power_w = Some(Binary32::from_bits(POWER_CRITICAL_W));
        raw
    });
    assert_eq!(at_power.state, SafetyState::Warning);

    let over_power = eval_once({
        let mut raw = fixtures::healthy_real();
        raw.power_w = Some(b(f32::from_bits(POWER_CRITICAL_W) + 0.1));
        raw
    });
    assert_eq!(over_power.state, SafetyState::CriticalBraked);
}

#[test]
fn power_critical_wins_over_temp_warn() {
    let snap = eval_once({
        let mut raw = fixtures::healthy_real();
        raw.gpu_temp_c = Some(b(78.0));
        raw.power_w = Some(b(360.0));
        raw
    });
    assert_eq!(snap.state, SafetyState::CriticalBraked);
    assert!(snap.last_reason.contains("power"));
}

#[test]
fn non_finite_is_named_telemetry_invalid() {
    let snap = eval_once(fixtures::non_finite());
    assert_eq!(snap.state, SafetyState::TelemetryInvalid);
    assert_eq!(snap.intent, BrakeIntent::Apply);
}

#[test]
fn mixed_faults_rank_missing_over_invalid_over_stale() {
    let mut invalid_over_stale = nvml_temp_power(65.0, 200.0);
    invalid_over_stale.gpu_temp_c.validity = SampleValidity::Stale;
    invalid_over_stale.power_w.validity = SampleValidity::Invalid;
    let assessment = classify_frame(&invalid_over_stale);
    assert_eq!(assessment.kind, AssessmentKind::Invalid);
    assert!(assessment.reason.contains("power_w"));

    let mut missing_over_invalid = nvml_temp_power(65.0, 200.0);
    missing_over_invalid.gpu_temp_c.validity = SampleValidity::Invalid;
    missing_over_invalid.power_w.value = None;
    missing_over_invalid.power_w.validity = SampleValidity::Missing;
    let assessment = classify_frame(&missing_over_invalid);
    assert_eq!(assessment.kind, AssessmentKind::Missing);
    assert!(assessment.reason.contains("power_w"));
}

#[test]
fn equal_fault_rank_prefers_gpu_temp() {
    let mut both_stale = nvml_temp_power(65.0, 200.0);
    both_stale.gpu_temp_c.validity = SampleValidity::Stale;
    both_stale.power_w.validity = SampleValidity::Stale;
    let assessment = classify_frame(&both_stale);
    assert_eq!(assessment.kind, AssessmentKind::Stale);
    assert!(assessment.reason.contains("gpu_temp_c"));

    let mut both_invalid = nvml_temp_power(65.0, 200.0);
    both_invalid.gpu_temp_c.validity = SampleValidity::Invalid;
    both_invalid.power_w.validity = SampleValidity::Invalid;
    let assessment = classify_frame(&both_invalid);
    assert_eq!(assessment.kind, AssessmentKind::Invalid);
    assert!(assessment.reason.contains("gpu_temp_c"));

    let mut both_missing = nvml_temp_power(65.0, 200.0);
    both_missing.gpu_temp_c.value = None;
    both_missing.gpu_temp_c.validity = SampleValidity::Missing;
    both_missing.power_w.value = None;
    both_missing.power_w.validity = SampleValidity::Missing;
    let assessment = classify_frame(&both_missing);
    assert_eq!(assessment.kind, AssessmentKind::Missing);
    assert!(assessment.reason.contains("gpu_temp_c"));
}

#[test]
fn warn_from_frame_is_none_for_ok_and_simulated() {
    assert_eq!(
        warn_from_frame(&assess(&fixtures::healthy_real(), fixtures::NOW)),
        None
    );
    assert_eq!(
        warn_from_frame(&assess(&fixtures::software_fallback(), fixtures::NOW)),
        None
    );
}

#[test]
fn leftover_brake_plus_simulated_holds_and_does_not_apply() {
    let mut machine = SafetyMachine::new();
    machine.seed_brake_applied();
    let snap = machine.evaluate(&assess(&fixtures::software_fallback(), fixtures::NOW));
    assert_eq!(snap.state, SafetyState::SimulatedSoftwareOnly);
    assert!(snap.brake_engaged);
    assert!(snap.desired_brake);
    assert_eq!(snap.intent, BrakeIntent::NoChange);
    assert_eq!(snap.hysteresis_ok_count, 0);
}

#[test]
fn reasons_round_to_whole_numbers_with_ties_to_even() {
    for (temp, text) in [
        (76.5, "GPU thermal: 76°C approaching 85°C limit"),
        (77.5, "GPU thermal: 78°C approaching 85°C limit"),
        (84.6, "GPU thermal: 85°C approaching 85°C limit"),
        (85.5, "GPU thermal: 86°C exceeds 85°C"),
    ] {
        assert_eq!(classify_frame(&nvml_temp_power(temp, 200.0)).reason, text);
    }
    assert_eq!(
        classify_frame(&nvml_temp_power(65.0, 312.25)).reason,
        "GPU power: 312W approaching safety limit"
    );
    assert_eq!(
        classify_frame(&nvml_temp_power(65.0, 360.5)).reason,
        "GPU power: 360W exceeds 350W safety limit"
    );
    assert_eq!(classify_frame(&nvml_temp_power(65.0, 200.0)).reason, "healthy real telemetry");
    assert_eq!(
        classify_frame(&assess(&fixtures::software_fallback(), fixtures::NOW)).reason,
        "telemetry source is SoftwareFallback"
    );
    assert_eq!(
        classify_frame(&assess(&fixtures::stale(), fixtures::NOW)).reason,
        "Invalid telemetry: gpu_temp_c stale"
    );
}

#[test]
fn limits_without_a_power_policy_never_call_real_telemetry_healthy() {
    let mut limits = SafetyLimits::default_limits();
    limits.power_w = None;
    let found = classify_frame_with(&nvml_temp_power(20.0, 1.0), &limits);
    assert_eq!(found.kind, AssessmentKind::Missing);
    assert_eq!(found.reason, "Invalid telemetry: power policy unavailable");
}

#[test]
fn documented_thresholds_are_the_documented_numbers() {
    assert_eq!(f32::from_bits(TEMP_WARN_C), 75.0);
    assert_eq!(f32::from_bits(TEMP_CRITICAL_C), 85.0);
    assert_eq!(f32::from_bits(POWER_WARN_W), 300.0);
    assert_eq!(f32::from_bits(POWER_CRITICAL_W), 350.0);
    assert_eq!(RELEASE_OK_STREAK, 3);
}

#[test]
fn intent_follows_desire_and_engagement() {
    assert_eq!(SafetySnapshot::intent_from(true, false), BrakeIntent::Apply);
    assert_eq!(SafetySnapshot::intent_from(false, true), BrakeIntent::Release);
    assert_eq!(SafetySnapshot::intent_from(true, true), BrakeIntent::NoChange);
    assert_eq!(SafetySnapshot::intent_from(false, false), BrakeIntent::NoChange);
}

#[test]
fn the_streak_stops_counting_at_what_release_needs() {
    let mut machine = SafetyMachine::new();
    machine.seed_brake_applied();
    let ok = nvml_temp_power(65.0, 200.0);
    for expected in [1, 2, 3] {
        assert_eq!(machine.evaluate(&ok).hysteresis_ok_count, expected);
    }
    assert_eq!(machine.evaluate(&ok).intent, BrakeIntent::Release);
}

fn released_into_a_warning() -> (SafetyMachine, SafetySnapshot) {
    let mut machine = SafetyMachine::new();
    let _ = machine.evaluate(&nvml_temp_power(90.0, 200.0));
    let _ = machine.record_actuator(ActuatorOutcome::Applied);
    for _ in 0..3 {
        let _ = machine.evaluate(&nvml_temp_power(65.0, 200.0));
    }
    let _ = machine.record_actuator(ActuatorOutcome::Released);
    let snap = machine.evaluate(&nvml_temp_power(78.0, 200.0));
    (machine, snap)
}

#[test]
fn a_failed_reapply_in_the_warning_band_is_retried() {
    let (mut machine, snap) = released_into_a_warning();
    assert_eq!(snap.intent, BrakeIntent::Apply);
    assert!(machine.snapshot().desired_brake);
    assert_eq!(machine.snapshot().intent, BrakeIntent::Apply);

    let failed = machine.record_actuator(ActuatorOutcome::ApplyFailed("x".into()));
    assert_eq!(failed.state, SafetyState::ActuatorFailure);
    assert_eq!(failed.policy_state, SafetyState::Warning);
    assert!(failed.desired_brake);
    assert_eq!(failed.intent, BrakeIntent::Apply);

    let next = machine.evaluate(&nvml_temp_power(78.0, 200.0));
    assert_eq!(next.policy_state, SafetyState::Warning);
    assert_eq!(next.intent, BrakeIntent::Apply);

    let applied = machine.record_actuator(ActuatorOutcome::Applied);
    assert!(applied.brake_engaged);
    assert_eq!(applied.intent, BrakeIntent::NoChange);
}

#[test]
fn a_reapply_that_fails_late_is_retried() {
    let (mut machine, _) = released_into_a_warning();
    let warn = nvml_temp_power(78.0, 200.0);
    for _ in 0..2 {
        let snap = machine.evaluate(&warn);
        assert!(!snap.desired_brake);
        assert_eq!(snap.intent, BrakeIntent::NoChange);
        assert!(!machine.snapshot().desired_brake);
        assert_eq!(machine.snapshot().intent, BrakeIntent::NoChange);
    }
    let failed = machine.record_actuator(ActuatorOutcome::ApplyFailed("timed out".into()));
    assert_eq!(failed.intent, BrakeIntent::Apply);
    assert_eq!(machine.evaluate(&warn).intent, BrakeIntent::Apply);
}

#[test]
fn a_healthy_frame_ends_the_wish_to_reapply() {
    let (mut machine, _) = released_into_a_warning();
    let healthy = machine.evaluate(&nvml_temp_power(65.0, 200.0));
    assert_eq!(healthy.intent, BrakeIntent::NoChange);
    let failed = machine.record_actuator(ActuatorOutcome::ApplyFailed("x".into()));
    assert_eq!(failed.intent, BrakeIntent::NoChange);
    let warn = machine.evaluate(&nvml_temp_power(78.0, 200.0));
    assert_eq!(warn.intent, BrakeIntent::NoChange);
}

#[test]
fn a_failed_release_is_asked_for_again() {
    let mut machine = SafetyMachine::new();
    machine.seed_brake_applied();
    let ok = nvml_temp_power(65.0, 200.0);
    for _ in 0..3 {
        let _ = machine.evaluate(&ok);
    }
    let failed = machine.record_actuator(ActuatorOutcome::ReleaseFailed("x".into()));
    assert_eq!(failed.intent, BrakeIntent::Release);
    assert_eq!(machine.evaluate(&ok).intent, BrakeIntent::Release);
}

#[test]
fn a_snapshot_repeats_what_was_last_returned() {
    let mut machine = SafetyMachine::new();
    let frames = [90.0, 65.0, 65.0, 65.0, 78.0, 78.0, 65.0, 90.0];
    for (i, temp) in frames.iter().enumerate() {
        let mut last = machine.evaluate(&nvml_temp_power(*temp, 200.0));
        last.transition = None;
        assert_eq!(machine.snapshot(), last, "frame {i}");
        let outcome = match i {
            0 => ActuatorOutcome::Applied,
            3 => ActuatorOutcome::Released,
            5 => ActuatorOutcome::ApplyFailed("x".into()),
            _ => continue,
        };
        let mut last = machine.record_actuator(outcome);
        last.transition = None;
        last.actuator_failed = false;
        assert_eq!(machine.snapshot(), last, "outcome {i}");
        assert_eq!(machine.snapshot(), last, "outcome {i} again");
    }
}
