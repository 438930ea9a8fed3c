//! Best-effort sensory publication, isolated from the safety failure domain.
//!
//! Maps a sensory mapping into a stimulus batch and publishes it outside
//! safety evaluation. A publisher returns promptly: the supervisor never awaits
//! a consumer and never publishes from inside an evaluation.

pub use crate::publish::queue::{
    refused_enqueue, refused_receive, CapacityError, DropCounts, DropReason,
    IsolatedPublishQueue, LockFailure, PublishReceiver, QueueFullPolicy, QueueSnapshot,
    ReceiveError, ReceiveStep,
};
pub use crate::publish::wire::{
    mapping_to_ipc_message, mapping_to_stimulus_batch, source_name, unix_ms_to_ns, validity_name,
    BatchMetadata, IpcMessage, StimulusBatch, SOURCE_IDENTITY,
};
use crate::safety::classify;
use crate::safety::machine;
use crate::safety::{SafetyMachine, SafetySnapshot};
use crate::telemetry::mapping;
use crate::telemetry::{SensoryMapping, TelemetryFrame};
use vstd::prelude::*;

pub mod laws;
pub mod queue;
pub mod wire;

verus! {

/// Default UDP destination for stimulus datagrams.
pub const DEFAULT_IPC_ENDPOINT: &'static str = "127.0.0.1:9900";

/// Empty default means the process-unique telemetry session id is used.
pub const DEFAULT_IPC_SESSION_ID: &'static str = "";

/// Bounded queue depth.
pub const DEFAULT_IPC_QUEUE_CAPACITY: usize = 32;

/// Why a best-effort publish did not complete.
#[derive(Debug, PartialEq, Eq)]
pub enum PublishError {
    /// No transport is configured.
    Absent,
    /// The publisher worker is gone.
    Disconnected,
    /// The queue was full or locked.
    SlowConsumer,
    /// The transport returned a send failure (or the batch failed validation).
    SendFailed(String),
}

impl Clone for PublishError {
    fn clone(&self) -> (copy: Self)
        ensures
            copy == *self,
    {
        match self {
            PublishError::Absent => PublishError::Absent,
            PublishError::Disconnected => PublishError::Disconnected,
            PublishError::SlowConsumer => PublishError::SlowConsumer,
            PublishError::SendFailed(reason) => PublishError::SendFailed(reason.clone()),
        }
    }
}

/// Best-effort sensory publisher. Must not block the safety loop.
pub trait SensoryPublisher: Send + Sync + Sized {
    /// What publishing `mapping` may do to this publisher and return.
    spec fn publishes(
        before: Self,
        mapping: SensoryMapping,
        after: Self,
        outcome: Result<(), PublishError>,
    ) -> bool;

    /// Attempt to publish `mapping` without waiting on a consumer.
    fn try_publish(&mut self, mapping: &SensoryMapping) -> (outcome: Result<(), PublishError>)
        ensures
            Self::publishes(*old(self), *mapping, *final(self), outcome),
    ;
}

/// No consumer at all. Returns immediately.
#[derive(Debug, Clone, Copy, PartialEq, Eq)]
pub struct AbsentPublisher;

impl SensoryPublisher for AbsentPublisher {
    /// Nothing is sent.
    open spec fn publishes(
        before: Self,
        mapping: SensoryMapping,
        after: Self,
        outcome: Result<(), PublishError>,
    ) -> bool {
        outcome == Err::<(), PublishError>(PublishError::Absent)
    }

    fn try_publish(&mut self, mapping: &SensoryMapping) -> (outcome: Result<(), PublishError>) {
        Err(PublishError::Absent)
    }
}

/// Test double that fails every send without blocking.
#[derive(Debug)]
pub struct FailingPublisher {
    /// Reason returned with every failure.
    pub reason: String,
}

impl FailingPublisher {
    /// Publisher that reports a generic send failure.
    pub fn send_failed() -> (publisher: Self)
        ensures
            publisher.reason@ == "ipc send failed"@,
    {
        FailingPublisher { reason: "ipc send failed".to_owned() }
    }

    /// Publisher that reports a disconnected worker.
    pub fn disconnected() -> (publisher: Self)
        ensures
            publisher.reason@ == "disconnected"@,
    {
        FailingPublisher { reason: "disconnected".to_owned() }
    }
}

impl SensoryPublisher for FailingPublisher {
    /// Every send fails with the configured reason.
    open spec fn publishes(
        before: Self,
        mapping: SensoryMapping,
        after: Self,
        outcome: Result<(), PublishError>,
    ) -> bool {
        &&& outcome == Err::<(), PublishError>(PublishError::SendFailed(before.reason))
        &&& after == before
    }

    fn try_publish(&mut self, mapping: &SensoryMapping) -> (outcome: Result<(), PublishError>) {
        Err(PublishError::SendFailed(self.reason.clone()))
    }
}

impl SensoryPublisher for IsolatedPublishQueue<SensoryMapping> {
    /// A copy of the mapping is enqueued.
    open spec fn publishes(
        before: Self,
        mapping: SensoryMapping,
        after: Self,
        outcome: Result<(), PublishError>,
    ) -> bool {
        exists|copy: SensoryMapping|
            copy.same(mapping) && after@ == #[trigger] before@.enqueuing(copy).0 && outcome
                == before@.enqueuing(copy).1
    }

    fn try_publish(&mut self, mapping: &SensoryMapping) -> (outcome: Result<(), PublishError>) {
        let copy: SensoryMapping = mapping.clone();
        proof {
            let _ = self@.enqueuing(copy);
        }
        self.try_enqueue(copy)
    }
}

/// Check of a batch against the schema its consumers read.
pub trait BatchValidator: Send + Sync {
    /// Accepts the batch, or says in words what is wrong with it.
    fn validate(&self, batch: &StimulusBatch) -> (verdict: Result<(), String>);
}

/// Production publisher: convert, validate, enqueue. A worker drains the queue.
#[derive(Debug)]
pub struct CorpusIpcPublisher<V> {
    /// Queue the worker drains.
    pub queue: IsolatedPublishQueue<IpcMessage>,
    /// Session id that replaces the mapping's, if configured.
    pub session_id: Option<String>,
    /// Schema check every batch passes before it is queued.
    pub validator: V,
}

/// Session id a batch is sent under: the configured one, else the mapping's.
pub open spec fn chosen_session(configured: Option<String>, mapping: SensoryMapping) -> Seq<char> {
    match configured {
        Some(id) => id@,
        None => mapping.session_id@,
    }
}

/// Whether `message` is what a publisher sends for `mapping`.
pub open spec fn sends(
    message: IpcMessage,
    mapping: SensoryMapping,
    configured: Option<String>,
) -> bool {
    message matches IpcMessage::Stimuli(batch) && batch.session_id is Some
        && batch.session_id->0@ == chosen_session(configured, mapping) && wire::batches(
        batch,
        mapping,
        batch.session_id,
        mapping.batch_id,
    )
}

impl<V: BatchValidator> CorpusIpcPublisher<V> {
    /// Publisher and the receiving end of its queue.
    pub fn channel(session_id: Option<String>, capacity: usize, validator: V) -> (ends: (
        Self,
        PublishReceiver,
    ))
        ensures
            ends.0.session_id == session_id,
            ends.0.validator == validator,
            queue::opened(
                ends.0.queue@,
                if capacity == 0 {
                    1
                } else {
                    capacity as int
                },
                QueueFullPolicy::DropOldest,
                true,
            ),
    {
        let (queue, receiver) = IsolatedPublishQueue::bounded(capacity);
        (CorpusIpcPublisher { queue, session_id, validator }, receiver)
    }

    /// Queue and result after `verdict` on `message`: enqueued, or counted as
    /// lost and reported with the verdict's words.
    pub open spec fn after_verdict(
        queue: queue::QueueState<IpcMessage>,
        message: IpcMessage,
        verdict: Result<(), String>,
    ) -> (queue::QueueState<IpcMessage>, Result<(), PublishError>) {
        match verdict {
            Ok(()) => queue.enqueuing(message),
            Err(reason) => (
                queue::QueueState {
                    dropped: queue.dropped.with(DropReason::Invalid),
                    ..queue
                },
                Err(PublishError::SendFailed(reason)),
            ),
        }
    }
}

impl<V: BatchValidator> SensoryPublisher for CorpusIpcPublisher<V> {
    /// The mapping's batch goes to the validator and, if it passes, to the
    /// queue.
    open spec fn publishes(
        before: Self,
        mapping: SensoryMapping,
        after: Self,
        outcome: Result<(), PublishError>,
    ) -> bool {
        &&& after.session_id == before.session_id
        &&& after.validator == before.validator
        &&& exists|message: IpcMessage, verdict: Result<(), String>|
            {
                &&& sends(message, mapping, before.session_id)
                &&& call_ensures(V::validate, (&before.validator, &message->Stimuli_0), verdict)
                &&& (after.queue@, outcome) == #[trigger] Self::after_verdict(
                    before.queue@,
                    message,
                    verdict,
                )
            }
    }

    fn try_publish(&mut self, mapping: &SensoryMapping) -> (outcome: Result<(), PublishError>) {
        let session_id: String = match &self.session_id {
            Some(id) => id.clone(),
            None => mapping.session_id.clone(),
        };
        let batch: StimulusBatch = mapping_to_stimulus_batch(
            mapping,
            Some(session_id),
            mapping.batch_id,
        );
        let verdict: Result<(), String> = self.validator.validate(&batch);
        proof {
            let message = IpcMessage::Stimuli(batch);
            assert(sends(message, *mapping, self.session_id));
            let _ = Self::after_verdict(self.queue@, message, verdict);
        }
        if let Err(reason) = verdict {
            self.queue.record_loss(DropReason::Invalid);
            return Err(PublishError::SendFailed(reason));
        }
        self.queue.try_enqueue(IpcMessage::Stimuli(batch))
    }
}

/// Evaluate safety first, then attempt publish. Publish cannot change the
/// snapshot or the machine.
pub fn evaluate_then_try_publish<P: SensoryPublisher>(
    machine: &mut SafetyMachine,
    frame: &TelemetryFrame,
    publisher: &mut P,
) -> (results: (SafetySnapshot, Result<(), PublishError>))
    ensures
        ({
            let found = classify::assessment(*frame, old(machine)@.limits);
            &&& final(machine)@ == old(machine)@.evaluated(found)
            &&& machine::shows(
                results.0,
                final(machine)@,
                old(machine)@.desired_for(found.0),
                machine::change(old(machine)@, final(machine)@),
                false,
            )
        }),
        exists|sent: SensoryMapping|
            #![trigger mapping::maps_frame(sent, *frame, sent.emitted_at_unix_ms)]
            mapping::maps_frame(sent, *frame, sent.emitted_at_unix_ms) && P::publishes(
                *old(publisher),
                sent,
                *final(publisher),
                results.1,
            ),
{
    let snapshot: SafetySnapshot = machine.evaluate(frame);
    let mapping: SensoryMapping = frame.to_sensory_mapping();
    let publish_result: Result<(), PublishError> = publisher.try_publish(&mapping);
    (snapshot, publish_result)
}

} // verus!
