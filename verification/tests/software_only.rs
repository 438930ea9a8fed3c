//! Software-only coverage: no GPU, no privileged command, no network.

use thalamic_relay::binary32::Binary32;
use thalamic_relay::publish::{
    evaluate_then_try_publish, AbsentPublisher, FailingPublisher, IsolatedPublishQueue,
    PublishError,
};
use thalamic_relay::safety::{
    ActuatorOutcome, BrakeIntent, FakeActuator, SafetyActuator, SafetyMachine,
    SafetyPolicyConfig, SafetyState, BRAKE_FRACTION,
};
use thalamic_relay::telemetry;
use thalamic_relay::telemetry::{
    fixtures, software_fallback, RawTelemetry, SampleValidity, SensoryMapping, SessionSeed,
    TelemetryFrame, TelemetrySource, UnixMillis,
};

fn b(value: f32) -> Binary32 {
    Binary32::from_bits(value.to_bits())
}

fn seed() -> SessionSeed {
    SessionSeed { pid: 7, nanos: 1_700_000_000_000_000_000, discriminator: 0 }
}

fn assess(raw: &RawTelemetry, now: UnixMillis) -> TelemetryFrame {
    telemetry::assess(raw, now, seed())
}



#[test]
fn software_only_pipeline_evaluates_safety_then_best_effort_publish() {
    let frame = assess(&fixtures::software_fallback(), fixtures::NOW);
    assert_eq!(frame.source, TelemetrySource::SoftwareFallback);
    assert_eq!(frame.gpu_temp_c.value, Some(Binary32::from_bits(software_fallback::GPU_TEMP_C)));
    assert_eq!(frame.vram_temp_c.value, None);
    assert_eq!(frame.vram_temp_c.validity, SampleValidity::Missing);

    let mut machine = configured_machine();
    let (snap, pub_res) = evaluate_then_try_publish(&mut machine, &frame, &mut AbsentPublisher);
    assert_eq!(pub_res, Err(PublishError::Absent));
    assert_eq!(snap.state, SafetyState::SimulatedSoftwareOnly);
    assert_eq!(snap.intent, BrakeIntent::NoChange);

    let mapping = frame.to_sensory_mapping();
    assert_eq!(
        mapping.acquisition_source,
        TelemetrySource::SoftwareFallback
    );
    let names: Vec<&str> = mapping.stimuli.iter().map(|s| s.name.as_str()).collect();
    assert_eq!(
        names,
        ["gpu_temp_c", "power_w", "gpu_clock_mhz", "mem_util_pct"]
    );
}

#[test]
fn ipc_failure_cannot_stall_safety_loop_progress() {
    let mut machine = configured_machine();
    let mut publisher = FailingPublisher::send_failed();
    let mut fake = FakeActuator::new();

    let mut critical = fixtures::healthy_real();
    critical.gpu_temp_c = Some(b(95.0));
    let critical = assess(&critical, fixtures::NOW);

    let (snap, pub_res) = evaluate_then_try_publish(&mut machine, &critical, &mut publisher);
    assert!(pub_res.is_err());
    assert_eq!(snap.state, SafetyState::CriticalBraked);
    assert_eq!(snap.intent, BrakeIntent::Apply);

    fake.apply_emergency_brake(Binary32::from_bits(BRAKE_FRACTION)).unwrap();
    let snap = machine.record_actuator(ActuatorOutcome::Applied);
    assert!(snap.brake_engaged);

    let ok = assess(&fixtures::healthy_real(), fixtures::NOW);
    let _ = evaluate_then_try_publish(&mut machine, &ok, &mut publisher);
    let _ = evaluate_then_try_publish(&mut machine, &ok, &mut publisher);
    let (third, pub_res) = evaluate_then_try_publish(&mut machine, &ok, &mut publisher);
    assert_eq!(
        pub_res,
        Err(PublishError::SendFailed("ipc send failed".into()))
    );
    assert_eq!(third.state, SafetyState::Recovering);
    assert_eq!(third.intent, BrakeIntent::Release);

    fake.release_emergency_brake().unwrap();
    let snap = machine.record_actuator(ActuatorOutcome::Released);
    assert!(!snap.brake_engaged);
    assert_eq!(fake.apply_calls(), 1);
    assert_eq!(fake.release_calls(), 1);

    let (healthy, pub_res) = evaluate_then_try_publish(&mut machine, &ok, &mut publisher);
    assert!(pub_res.is_err());
    assert_eq!(healthy.state, SafetyState::HealthyReal);
    assert_eq!(healthy.intent, BrakeIntent::NoChange);
}

#[test]
fn missing_invalid_stale_and_simulated_frames_are_named_states() {
    let mut machine = configured_machine();
    let missing = machine.evaluate(&assess(&fixtures::sensor_dropout(), fixtures::NOW));
    assert_eq!(missing.state, SafetyState::TelemetryMissing);
    assert_eq!(missing.intent, BrakeIntent::Apply);

    let invalid = machine.evaluate(&assess(&fixtures::out_of_range(), fixtures::NOW));
    assert_eq!(invalid.state, SafetyState::TelemetryInvalid);

    let stale = machine.evaluate(&assess(&fixtures::stale(), fixtures::NOW));
    assert_eq!(stale.state, SafetyState::TelemetryStale);

    let sim = machine.evaluate(&assess(&fixtures::software_fallback(), fixtures::NOW));
    assert_eq!(sim.state, SafetyState::SimulatedSoftwareOnly);
    assert_eq!(sim.intent, BrakeIntent::NoChange);
}

#[test]
fn slow_and_disconnected_publish_queues_do_not_block_critical_brake() {
    let (mut queue, consumer) = IsolatedPublishQueue::<SensoryMapping>::bounded(1);
    consumer.close(&mut queue);
    let mut machine = configured_machine();
    let mut critical = fixtures::healthy_real();
    critical.gpu_temp_c = Some(b(90.0));
    let frame = assess(&critical, fixtures::NOW);
    let (snap, pub_res) = evaluate_then_try_publish(&mut machine, &frame, &mut queue);
    assert_eq!(pub_res, Err(PublishError::Disconnected));
    assert_eq!(snap.state, SafetyState::CriticalBraked);
    assert_eq!(snap.intent, BrakeIntent::Apply);
}

#[test]
fn acquire_without_force_is_not_simulated_on_ci() {
    let raw = fixtures::nvml_unavailable();
    assert_ne!(raw.source, TelemetrySource::SoftwareFallback);
    assert_eq!(raw.source, TelemetrySource::NvmlUnavailable);
}

fn configured_machine() -> SafetyMachine {
    let config = SafetyPolicyConfig {
        power_warn_w: Some(b(300.0)),
        power_critical_w: Some(b(350.0)),
        ..Default::default()
    };
    SafetyMachine::with_policy(config.resolve(None).unwrap())
}
