//! Consumer API: telemetry, safety and publish, with no daemon plumbing.
//!
//! A downstream crate validates samples and evaluates a `SafetyMachine` without
//! a GPU, a metrics exporter, or a process lock.

use thalamic_relay::binary32::Binary32;
use thalamic_relay::publish::{
    evaluate_then_try_publish, AbsentPublisher, IsolatedPublishQueue, PublishError,
    SensoryPublisher,
};
use thalamic_relay::safety::{
    classify_frame, ActuatorOutcome, AssessmentKind, BrakeIntent, FakeActuator, SafetyActuator,
    SafetyMachine, SafetyState, BRAKE_FRACTION,
};
use thalamic_relay::telemetry;
use thalamic_relay::telemetry::{
    fixtures, signal_spec, RawTelemetry, SampleValidity, SessionSeed, SignalClass, SignalId,
    TelemetryFrame, TelemetrySource, UnixMillis,
};

fn b(value: f32) -> Binary32 {
    Binary32::from_bits(value.to_bits())
}

fn seed() -> SessionSeed {
    SessionSeed { pid: 7, nanos: 1_700_000_000_000_000_000, discriminator: 0 }
}

fn assess(raw: &RawTelemetry, now: UnixMillis) -> TelemetryFrame {
    telemetry::assess(raw, now, seed())
}

#[test]
fn downstream_crate_evaluates_safety_without_gpu_or_daemon() {
    let frame = assess(&fixtures::healthy_real(), fixtures::NOW);
    assert_eq!(frame.source, TelemetrySource::Nvml);
    assert_eq!(frame.gpu_temp_c.validity, SampleValidity::Valid);

    let mut machine = SafetyMachine::new();
    let snap = machine.evaluate(&frame);
    assert_eq!(snap.state, SafetyState::HealthyReal);
    assert_eq!(snap.intent, BrakeIntent::NoChange);

    let mut hot = fixtures::healthy_real();
    hot.gpu_temp_c = Some(b(90.0));
    let hot_frame = assess(&hot, fixtures::NOW);
    let snap = machine.evaluate(&hot_frame);
    assert_eq!(snap.state, SafetyState::CriticalBraked);
    assert_eq!(snap.intent, BrakeIntent::Apply);

    let mut actuator = FakeActuator::new();
    actuator.apply_emergency_brake(Binary32::from_bits(BRAKE_FRACTION)).unwrap();
    let snap = machine.record_actuator(ActuatorOutcome::Applied);
    assert!(snap.brake_engaged);
    assert!(actuator.is_engaged());
}

#[test]
fn downstream_crate_maps_sensory_inputs_and_publishes_best_effort() {
    let frame = assess(&fixtures::healthy_real(), fixtures::NOW);
    let mapping = frame.to_sensory_mapping_at(fixtures::NOW);
    assert_eq!(mapping.acquisition_source, TelemetrySource::Nvml);
    assert!(
        mapping
            .stimuli
            .iter()
            .all(|s| signal_spec(s.signal).class.includes_runtime_input())
    );
    assert!(
        mapping
            .stimuli
            .iter()
            .any(|s| s.signal == SignalId::GpuTempC && s.classification == SignalClass::Both)
    );

    assert_eq!(
        AbsentPublisher.try_publish(&mapping),
        Err(PublishError::Absent)
    );

    let (mut queue, consumer) = IsolatedPublishQueue::bounded(1);
    queue.try_publish(&mapping).unwrap();
    assert_eq!(
        consumer.try_recv(&mut queue).expect("published frame").stimuli.len(),
        mapping.stimuli.len()
    );

    let mut machine = SafetyMachine::new();
    let (snap, pub_res) = evaluate_then_try_publish(&mut machine, &frame, &mut AbsentPublisher);
    assert_eq!(pub_res, Err(PublishError::Absent));
    assert_eq!(snap.state, SafetyState::HealthyReal);
    assert_eq!(
        classify_frame(&frame).kind,
        AssessmentKind::Okay
    );
}
