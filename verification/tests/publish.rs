use thalamic_relay::binary32::Binary32;
use thalamic_relay::publish::{
    evaluate_then_try_publish, mapping_to_ipc_message, mapping_to_stimulus_batch,
    refused_enqueue, refused_receive, source_name, unix_ms_to_ns, validity_name,
    AbsentPublisher, BatchMetadata, BatchValidator, CapacityError, CorpusIpcPublisher,
    DropReason, FailingPublisher, IpcMessage, IsolatedPublishQueue, LockFailure, PublishError,
    QueueFullPolicy, ReceiveError, ReceiveStep, SensoryPublisher, StimulusBatch,
    DEFAULT_IPC_QUEUE_CAPACITY, SOURCE_IDENTITY,
};
use thalamic_relay::safety::{
    ActuatorOutcome, BrakeIntent, FakeActuator, SafetyActuator, SafetyMachine, SafetyState,
    BRAKE_FRACTION,
};
use thalamic_relay::telemetry;
use thalamic_relay::telemetry::{
    fixtures, RawTelemetry, SampleValidity, SensoryMapping, SessionSeed, SignalId,
    TelemetryFrame, TelemetrySource, UnixMillis,
};

fn b(value: f32) -> Binary32 {
    Binary32::from_bits(value.to_bits())
}

fn f(value: Binary32) -> f32 {
    f32::from_bits(value.bits)
}

fn seed() -> SessionSeed {
    SessionSeed { pid: 7, nanos: 1_700_000_000_000_000_000, discriminator: 0 }
}

fn assess(raw: &RawTelemetry, now: UnixMillis) -> TelemetryFrame {
    telemetry::assess(raw, now, seed())
}

/// The batch in the schema its consumers read.
fn wire_batch(batch: &StimulusBatch) -> corpus_ipc::StimulusBatch {
    corpus_ipc::StimulusBatch {
        session_id: batch.session_id.clone(),
        batch_id: batch.batch_id,
        timestamp: batch.timestamp,
        values: batch.values.iter().map(|value| f(*value)).collect(),
        valid_mask: batch.valid_mask.clone(),
        metadata: batch.metadata.as_ref().map(|meta| corpus_ipc::BatchMetadata {
            processing_latency_ns: meta.processing_latency_ns,
            source: meta.source.clone(),
            custom: meta.custom.iter().cloned().collect(),
        }),
    }
}

/// Accepts what the consumers' schema accepts.
#[derive(Debug)]
struct WireSchema;

impl BatchValidator for WireSchema {
    fn validate(&self, batch: &StimulusBatch) -> Result<(), String> {
        corpus_ipc::Validate::validate(&wire_batch(batch)).map_err(|err| err.to_string())
    }
}

fn custom<'a>(meta: &'a BatchMetadata, key: &str) -> Option<&'a str> {
    meta.custom.iter().find(|entry| entry.0 == key).map(|entry| entry.1.as_str())
}

fn critical_frame() -> TelemetryFrame {
    let mut raw = fixtures::healthy_real();
    raw.gpu_temp_c = Some(b(90.0));
    assess(&raw, fixtures::NOW)
}

fn healthy_frame() -> TelemetryFrame {
    assess(&fixtures::healthy_real(), fixtures::NOW)
}

fn mapping_at_now(frame: &TelemetryFrame) -> SensoryMapping {
    frame.to_sensory_mapping_at(fixtures::NOW)
}

#[test]
fn absent_brainstem_does_not_block_or_change_safety() {
    let mut machine = SafetyMachine::new();
    let (snap, pub_res) =
        evaluate_then_try_publish(&mut machine, &critical_frame(), &mut AbsentPublisher);
    assert_eq!(pub_res, Err(PublishError::Absent));
    assert_eq!(snap.state, SafetyState::CriticalBraked);
    assert_eq!(snap.intent, BrakeIntent::Apply);
}

#[test]
fn failing_publisher_cannot_stall_or_disable_safety() {
    let mut machine = SafetyMachine::new();
    let mut publisher = FailingPublisher::send_failed();
    for _ in 0..32 {
        let (snap, pub_res) =
            evaluate_then_try_publish(&mut machine, &critical_frame(), &mut publisher);
        assert!(pub_res.is_err());
        assert_eq!(snap.policy_state, SafetyState::CriticalBraked);
        assert_eq!(snap.intent, BrakeIntent::Apply);
    }

    let (healthy, _) = evaluate_then_try_publish(&mut machine, &healthy_frame(), &mut publisher);
    assert_eq!(healthy.state, SafetyState::HealthyReal);
}

#[test]
fn slow_consumer_try_enqueue_returns_immediately() {
    let (mut queue, rx) = IsolatedPublishQueue::bounded(1);
    let mapping = mapping_at_now(&healthy_frame());
    queue.try_enqueue(mapping.clone()).unwrap();

    let err = queue.try_enqueue(mapping.clone()).unwrap_err();
    assert_eq!(err, PublishError::SlowConsumer);

    let mut machine = SafetyMachine::new();
    let (snap, pub_res) = evaluate_then_try_publish(&mut machine, &critical_frame(), &mut queue);
    assert_eq!(pub_res, Err(PublishError::SlowConsumer));
    assert_eq!(snap.state, SafetyState::CriticalBraked);
    assert_eq!(snap.intent, BrakeIntent::Apply);

    let newest = rx.try_recv(&mut queue).expect("replacement remains queued");
    assert_eq!(newest.batch_id, mapping.batch_id);
}

#[test]
fn disconnected_queue_does_not_block_safety() {
    let (mut queue, rx) = IsolatedPublishQueue::bounded(1);
    rx.close(&mut queue);
    let mut machine = SafetyMachine::new();
    let (snap, pub_res) = evaluate_then_try_publish(&mut machine, &critical_frame(), &mut queue);
    assert_eq!(pub_res, Err(PublishError::Disconnected));
    assert_eq!(snap.state, SafetyState::CriticalBraked);
}

#[test]
fn evaluate_ignores_publish_error_ordering() {
    let mut machine = SafetyMachine::new();
    let missing = assess(&fixtures::nvml_unavailable(), fixtures::NOW);
    let (snap, pub_res) =
        evaluate_then_try_publish(&mut machine, &missing, &mut FailingPublisher::disconnected());
    assert!(pub_res.is_err());
    assert_eq!(snap.policy_state, SafetyState::TelemetryMissing);
    assert_eq!(snap.intent, BrakeIntent::Apply);
}

#[test]
fn mapping_to_stimulus_batch_carries_timestamp_source_and_validity() {
    let mapping = mapping_at_now(&healthy_frame());
    let batch = mapping_to_stimulus_batch(&mapping, Some("sess-relay".into()), 7);
    WireSchema.validate(&batch).expect("mask length must match values");

    assert_eq!(batch.session_id.as_deref(), Some("sess-relay"));
    assert_eq!(batch.batch_id, 7);
    assert_eq!(batch.timestamp, unix_ms_to_ns(fixtures::NOW));
    assert_eq!(
        batch.values.len(),
        4,
        "runtime-input channels only (no observability filler)"
    );
    assert_eq!(
        batch.valid_mask.as_deref(),
        Some([true, true, true, true].as_slice())
    );
    assert!((f(batch.values[0]) - 0.65).abs() < 1e-6);
    assert!((f(batch.values[1]) - 200.0 / 350.0).abs() < 1e-6);
    assert_eq!(batch.values[3], b(0.0), "legitimate idle util is a real zero");

    let meta = batch.metadata.expect("provenance metadata required");
    assert_eq!(meta.source.as_deref(), Some(SOURCE_IDENTITY));
    assert_eq!(
        custom(&meta, "acquisition_source"),
        Some("nvml")
    );
    assert_eq!(
        custom(&meta, "channels"),
        Some("gpu_temp_c,power_w,gpu_clock_mhz,mem_util_pct")
    );
    assert_eq!(
        custom(&meta, "validity"),
        Some("valid,valid,valid,valid")
    );
    assert_eq!(
        custom(&meta, "acquisition_cadence_ms"),
        Some("100")
    );
}

#[test]
fn missing_channel_is_masked_not_a_real_zero() {
    let mapping = mapping_at_now(&assess(&fixtures::sensor_dropout(), fixtures::NOW));
    let batch = mapping_to_stimulus_batch(&mapping, None, 1);
    let mask = batch.valid_mask.expect("mask present");
    let power = mapping
        .stimuli
        .iter()
        .position(|s| s.signal == SignalId::PowerW)
        .unwrap();
    let util = mapping
        .stimuli
        .iter()
        .position(|s| s.signal == SignalId::MemUtilPct)
        .unwrap();
    assert!(!mask[power], "missing power is not a real reading");
    assert_eq!(batch.values[power], b(0.0));
    assert!(mask[util], "valid mem_util_pct=0.0 stays valid");
    assert_eq!(batch.values[util], b(0.0));
    assert_eq!(
        batch.metadata.as_ref().and_then(|m| custom(m, "validity")),
        Some("valid,missing,valid,valid")
    );
}


#[test]
fn stimulus_batch_round_trips_through_published_corpus_ipc_types() {
    let mapping = mapping_at_now(&healthy_frame());
    let IpcMessage::Stimuli(batch) = mapping_to_ipc_message(&mapping, Some("sess-1".into()), 42);
    let message = corpus_ipc::IpcMessage::Stimuli(wire_batch(&batch));
    let json = serde_json::to_value(&message).expect("serialize IpcMessage");
    assert!(
        json.get("Stimuli").is_some(),
        "wire envelope must be IpcMessage::Stimuli, not a local schema"
    );
    let stimuli = json.get("Stimuli").unwrap();
    assert!(stimuli.get("session_id").is_some());
    assert!(stimuli.get("batch_id").is_some());
    assert!(stimuli.get("timestamp").is_some());
    assert!(stimuli.get("values").is_some());
    assert!(stimuli.get("valid_mask").is_some());
    assert!(stimuli.get("metadata").is_some());

    let decoded: corpus_ipc::IpcMessage =
        serde_json::from_value(json).expect("decode via corpus-ipc");
    assert_eq!(decoded, message);
}

#[test]
fn corpus_ipc_publisher_slow_consumer_does_not_block_safety() {
    let (mut publisher, _rx) = CorpusIpcPublisher::channel(Some("sess".into()), 1, WireSchema);
    let mapping = mapping_at_now(&healthy_frame());
    publisher.try_publish(&mapping).unwrap();
    assert_eq!(
        publisher.try_publish(&mapping).unwrap_err(),
        PublishError::SlowConsumer
    );

    let mut machine = SafetyMachine::new();
    let (snap, pub_res) =
        evaluate_then_try_publish(&mut machine, &critical_frame(), &mut publisher);
    assert_eq!(pub_res, Err(PublishError::SlowConsumer));
    assert_eq!(snap.state, SafetyState::CriticalBraked);
    assert_eq!(snap.intent, BrakeIntent::Apply);
}

#[test]
fn capacity_one_drops_oldest_and_keeps_newest_sequence() {
    let (mut publisher, rx) = CorpusIpcPublisher::channel(None, 1, WireSchema);
    let mut mapping = mapping_at_now(&healthy_frame());
    mapping.session_id = "boot-a".into();

    for batch_id in 10..=12 {
        mapping.batch_id = batch_id;
        let result = publisher.try_publish(&mapping);
        if batch_id == 10 {
            assert_eq!(result, Ok(()));
        } else {
            assert_eq!(result, Err(PublishError::SlowConsumer));
        }
    }

    let IpcMessage::Stimuli(batch) = rx.try_recv(&mut publisher.queue).expect("newest frame retained");
    assert_eq!(batch.session_id.as_deref(), Some("boot-a"));
    assert_eq!(batch.batch_id, 12);
}

#[test]
fn paused_consumer_burst_retains_bounded_newest_tail() {
    let (mut queue, rx) = IsolatedPublishQueue::bounded(3);
    for value in 0..10 {
        let _ = queue.try_enqueue(value);
    }
    assert_eq!(rx.try_recv(&mut queue), Ok(7));
    assert_eq!(rx.try_recv(&mut queue), Ok(8));
    assert_eq!(rx.try_recv(&mut queue), Ok(9));
    assert!(rx.try_recv(&mut queue).is_err());
}

#[test]
fn reconnect_uses_new_receiver_and_preserves_frame_identity() {
    let (mut old, old_rx) = CorpusIpcPublisher::channel(None, 1, WireSchema);
    old_rx.close(&mut old.queue);
    let mut mapping = mapping_at_now(&healthy_frame());
    mapping.session_id = "boot-after-reconnect".into();
    mapping.batch_id = 41;
    assert_eq!(old.try_publish(&mapping), Err(PublishError::Disconnected));

    let (mut connected, rx) = CorpusIpcPublisher::channel(None, 1, WireSchema);
    connected.try_publish(&mapping).unwrap();
    let IpcMessage::Stimuli(batch) = rx.try_recv(&mut connected.queue).unwrap();
    assert_eq!(batch.session_id.as_deref(), Some("boot-after-reconnect"));
    assert_eq!(batch.batch_id, 41);
}


#[test]
fn hysteresis_still_reaches_release_while_publisher_fails() {
    let mut machine = SafetyMachine::new();
    let mut publisher = FailingPublisher::send_failed();
    let mut fake = FakeActuator::new();

    let (snap, pub_res) =
        evaluate_then_try_publish(&mut machine, &critical_frame(), &mut publisher);
    assert_eq!(
        pub_res,
        Err(PublishError::SendFailed("ipc send failed".into()))
    );
    assert_eq!(snap.intent, BrakeIntent::Apply);
    fake.apply_emergency_brake(Binary32::from_bits(BRAKE_FRACTION)).unwrap();
    let snap = machine.record_actuator(ActuatorOutcome::Applied);
    assert!(snap.brake_engaged);

    let ok = healthy_frame();
    let _ = evaluate_then_try_publish(&mut machine, &ok, &mut publisher);
    let _ = evaluate_then_try_publish(&mut machine, &ok, &mut publisher);
    let (third, pub_res) = evaluate_then_try_publish(&mut machine, &ok, &mut publisher);
    assert!(pub_res.is_err());
    assert_eq!(third.state, SafetyState::Recovering);
    assert_eq!(third.intent, BrakeIntent::Release);
    fake.release_emergency_brake().unwrap();
    let snap = machine.record_actuator(ActuatorOutcome::Released);
    assert!(!snap.brake_engaged);
    assert!(!fake.is_engaged());
}

#[test]
fn zero_capacity_queue_still_accepts_one_then_reports_slow_consumer() {
    let (mut queue, rx) = IsolatedPublishQueue::bounded(0);
    let mapping = healthy_frame().to_sensory_mapping_at(fixtures::NOW);
    queue.try_enqueue(mapping.clone()).unwrap();
    assert_eq!(
        queue.try_enqueue(mapping.clone()),
        Err(PublishError::SlowConsumer)
    );
    let received = rx.try_recv(&mut queue).unwrap();
    assert_eq!(received.acquisition_source, mapping.acquisition_source);
    assert_eq!(received.stimuli.len(), mapping.stimuli.len());
}

#[test]
fn successful_try_publish_does_not_mutate_safety_snapshot() {
    let (mut queue, rx) = IsolatedPublishQueue::bounded(4);
    let mut machine = SafetyMachine::new();
    let (snap, pub_res) = evaluate_then_try_publish(&mut machine, &healthy_frame(), &mut queue);
    assert!(pub_res.is_ok());
    assert_eq!(snap.state, SafetyState::HealthyReal);
    let received = rx.try_recv(&mut queue).unwrap();
    assert_eq!(
        received.acquisition_source,
        TelemetrySource::Nvml
    );
    assert!(rx.try_recv(&mut queue).is_err());
}

/// Refuses every batch.
struct NoBatch;

impl BatchValidator for NoBatch {
    fn validate(&self, _batch: &StimulusBatch) -> Result<(), String> {
        Err("no batch".to_string())
    }
}

#[test]
fn a_refused_batch_is_counted_and_never_queued() {
    let (mut publisher, rx) = CorpusIpcPublisher::channel(None, 2, NoBatch);
    let mapping = mapping_at_now(&healthy_frame());
    assert_eq!(
        publisher.try_publish(&mapping),
        Err(PublishError::SendFailed("no batch".into()))
    );
    assert_eq!(publisher.queue.snapshot().dropped.get(DropReason::Invalid), 1);
    assert_eq!(rx.try_recv(&mut publisher.queue), Err(ReceiveError::Empty));
}

#[test]
fn rejecting_queues_keep_what_they_hold() {
    let (mut queue, rx) =
        IsolatedPublishQueue::bounded_with_policy(2, QueueFullPolicy::RejectNewest).unwrap();
    assert_eq!(queue.try_enqueue(1), Ok(()));
    assert_eq!(queue.try_enqueue(2), Ok(()));
    assert_eq!(queue.try_enqueue(3), Err(PublishError::SlowConsumer));
    let snapshot = queue.snapshot();
    assert_eq!(snapshot.depth, 2);
    assert_eq!(snapshot.enqueued_total, 2);
    assert_eq!(snapshot.dropped.get(DropReason::RejectNewest), 1);
    assert_eq!(rx.recv(&mut queue), ReceiveStep::Item(1));
    assert_eq!(rx.recv(&mut queue), ReceiveStep::Item(2));
    assert_eq!(rx.recv(&mut queue), ReceiveStep::Wait);
    queue.close_senders();
    assert_eq!(rx.recv(&mut queue), ReceiveStep::Disconnected);
    assert_eq!(rx.try_recv(&mut queue), Err(ReceiveError::Disconnected));
}

#[test]
fn configured_capacities_have_a_range() {
    for capacity in [0, 4097] {
        let refused =
            IsolatedPublishQueue::<u8>::bounded_with_policy(capacity, QueueFullPolicy::DropOldest);
        assert_eq!(refused.unwrap_err(), CapacityError { capacity });
    }
    for capacity in [1, 4096] {
        assert!(IsolatedPublishQueue::<u8>::bounded_with_policy(
            capacity,
            QueueFullPolicy::DropOldest
        )
        .is_ok());
    }
}

#[test]
fn a_gone_receiver_loses_what_was_queued() {
    let (mut queue, rx) = IsolatedPublishQueue::bounded(4);
    queue.try_enqueue(1).unwrap();
    rx.close(&mut queue);
    assert_eq!(queue.try_enqueue(2), Err(PublishError::Disconnected));
    assert_eq!(queue.snapshot().depth, 0);
    assert_eq!(queue.snapshot().dropped.get(DropReason::Disconnected), 1);
}

#[test]
fn a_failed_lock_never_waits() {
    assert_eq!(refused_enqueue(LockFailure::WouldBlock), PublishError::SlowConsumer);
    assert_eq!(refused_enqueue(LockFailure::Poisoned), PublishError::Disconnected);
    assert_eq!(refused_receive(LockFailure::WouldBlock), ReceiveError::Empty);
    assert_eq!(refused_receive(LockFailure::Poisoned), ReceiveError::Disconnected);
}

#[test]
fn exposition_lists_every_series() {
    let (mut queue, _rx) =
        IsolatedPublishQueue::bounded_with_policy(1, QueueFullPolicy::RejectNewest).unwrap();
    queue.try_enqueue(1).unwrap();
    let _ = queue.try_enqueue(2);
    queue.record_loss(DropReason::SendFailed);
    assert_eq!(
        queue.snapshot().prometheus_exposition(),
        "sensory_queue_depth 1\n\
         sensory_queue_capacity 1\n\
         sensory_queue_enqueued_total 1\n\
         sensory_queue_dropped_total{reason=\"drop_oldest\"} 0\n\
         sensory_queue_dropped_total{reason=\"reject_newest\"} 1\n\
         sensory_queue_dropped_total{reason=\"contended\"} 0\n\
         sensory_queue_dropped_total{reason=\"disconnected\"} 0\n\
         sensory_queue_dropped_total{reason=\"invalid\"} 0\n\
         sensory_queue_dropped_total{reason=\"send_failed\"} 1\n\
         sensory_queue_full_policy{policy=\"drop_oldest\"} 0\n\
         sensory_queue_full_policy{policy=\"reject_newest\"} 1\n"
    );
}

#[test]
fn wire_names_and_times_are_plain() {
    assert_eq!(source_name(TelemetrySource::NvmlUnavailable), "nvml_unavailable");
    assert_eq!(validity_name(SampleValidity::Stale), "stale");
    assert_eq!(unix_ms_to_ns(5), 5_000_000);
    assert_eq!(unix_ms_to_ns(u64::MAX), u64::MAX);
}

#[test]
fn the_default_queue_capacity_is_within_the_range() {
    assert_eq!(DEFAULT_IPC_QUEUE_CAPACITY, 32);
    assert!(IsolatedPublishQueue::<u8>::bounded_with_policy(
        DEFAULT_IPC_QUEUE_CAPACITY,
        QueueFullPolicy::DropOldest
    )
    .is_ok());
}
