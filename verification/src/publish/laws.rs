//! What holds of published batches.

use crate::binary32;
use crate::binary32::{Binary32, INFINITY_BITS, ONE_BITS, ZERO_BITS};
use crate::publish;
use crate::publish::queue;
use crate::publish::queue::{
    CapacityError, DropCounts, DropReason, IsolatedPublishQueue, LockFailure, PublishReceiver,
    QueueFullPolicy, QueueSnapshot, QueueState, ReceiveError, ReceiveStep,
};
use crate::publish::wire;
use crate::publish::wire::{IpcMessage, StimulusBatch};
use crate::publish::{BatchValidator, CorpusIpcPublisher, PublishError, SensoryPublisher};
use crate::safety::{SafetyMachine, SafetySnapshot};
use crate::telemetry;
use crate::telemetry::laws;
use crate::telemetry::mapping;
use crate::telemetry::{
    RawTelemetry, SampleValidity, SensoryMapping, TelemetryFrame, TelemetrySample,
    TelemetrySource,
};
use crate::text;
use crate::time;
use crate::time::UnixMillis;
use vstd::prelude::*;

verus! {

/// A number between 0 and 1.
pub open spec fn in_unit_interval(v: Binary32) -> bool {
    (Binary32 { bits: ZERO_BITS }).at_most(v) && v.at_most(Binary32 { bits: ONE_BITS })
}

/// The batch of an assessed frame has one mask entry per value, every value is
/// finite and in `[0, 1]`, and a channel without a valid reading is masked.
pub proof fn lemma_batch_is_well_formed(
    batch: StimulusBatch,
    mapping: SensoryMapping,
    session_id: Option<String>,
    batch_id: u64,
    at: UnixMillis,
    frame: TelemetryFrame,
    raw: RawTelemetry,
    now: UnixMillis,
    cadence_ms: u64,
    clock: time::ClockState,
    i: int,
)
    requires
        wire::batches(batch, mapping, session_id, batch_id),
        mapping::maps_frame(mapping, frame, at),
        telemetry::assesses(frame, raw, now, cadence_ms, clock),
        0 <= i < batch.values@.len(),
    ensures
        batch.valid_mask is Some,
        batch.valid_mask->0@.len() == batch.values@.len(),
        batch.values@[i].finite(),
        in_unit_interval(batch.values@[i]),
        batch.valid_mask->0@[i] <==> mapping.stimuli@[i].validity == SampleValidity::Valid,
        !batch.valid_mask->0@[i] ==> batch.values@[i] == (Binary32 { bits: ZERO_BITS }),
{
    let stimulus = mapping.stimuli@[i];
    let kept = mapping::runtime_samples(frame, 8)[i];
    lemma_runtime_sample_is_assessed(frame, raw, now, cadence_ms, clock, 8, i);
    let held = telemetry::held(
        kept,
        frame.received_at_unix_ms,
        at,
        telemetry::stale_threshold(kept.signal, frame.acquisition_cadence_ms),
    );
    laws::lemma_model_input_in_unit_interval(held);
    let zero = Binary32 { bits: ZERO_BITS };
    let one = Binary32 { bits: ONE_BITS };
    binary32::lemma_units_signs(zero);
    binary32::lemma_units_signs(one);
    assert(in_unit_interval(batch.values@[i]));
    lemma_unit_interval_is_finite(batch.values@[i]);
}

/// A runtime sample of an assessed frame has a finite value if it has one, and
/// a valid one has a value.
proof fn lemma_runtime_sample_is_assessed(
    frame: TelemetryFrame,
    raw: RawTelemetry,
    now: UnixMillis,
    cadence_ms: u64,
    clock: time::ClockState,
    n: int,
    i: int,
)
    requires
        telemetry::assesses(frame, raw, now, cadence_ms, clock),
        0 <= n <= 8,
        0 <= i < mapping::runtime_samples(frame, n).len(),
    ensures
        ({
            let sample = mapping::runtime_samples(frame, n)[i];
            &&& sample.value matches Some(v) ==> v.finite()
            &&& sample.validity == SampleValidity::Valid ==> sample.value is Some
        }),
    decreases n,
{
    let sample = frame.sample(telemetry::ALL_SIGNALS@[n - 1]);
    if i < mapping::runtime_samples(frame, n - 1).len() {
        lemma_runtime_sample_is_assessed(frame, raw, now, cadence_ms, clock, n - 1, i);
    }
}

/// Numbers between 0 and 1 are finite.
proof fn lemma_unit_interval_is_finite(v: Binary32)
    requires
        in_unit_interval(v),
    ensures
        v.finite(),
{
    binary32::lemma_units_signs(v);
    binary32::lemma_units_signs(Binary32 { bits: ZERO_BITS });
    binary32::lemma_units_signs(Binary32 { bits: ONE_BITS });
    binary32::lemma_magnitude_monotonic(ONE_BITS as int, INFINITY_BITS as int);
}

/// No metadata key occurs twice.
pub proof fn lemma_provenance_keys_are_distinct(mapping: SensoryMapping, i: int, j: int)
    requires
        0 <= i < j < wire::provenance(mapping).len(),
    ensures
        wire::provenance(mapping)[i].0 != wire::provenance(mapping)[j].0,
{
    reveal_strlit("acquisition_source");
    reveal_strlit("acquisition_cadence_ms");
    reveal_strlit("channels");
    reveal_strlit("validity");
    reveal_strlit("stale_after_ms");
    let keys = wire::provenance(mapping);
    assert(keys[0].0.len() == 18 && keys[1].0.len() == 22 && keys[2].0.len() == 8
        && keys[3].0.len() == 8 && keys[4].0.len() == 14);
    assert(keys[2].0[0] == 'c' && keys[3].0[0] == 'v');
}

/// A batch has one value and one mask bit per channel, in order. The bit is set
/// exactly for a channel that is valid and has a model input; the value is then
/// that input, and zero otherwise. The batch is stamped with the emission time
/// in nanoseconds, as far as they fit.
pub proof fn lemma_batch_carries_valid_channels(
    batch: StimulusBatch,
    mapping: SensoryMapping,
    session_id: Option<String>,
    batch_id: u64,
    i: int,
)
    requires
        call_ensures(
            wire::mapping_to_stimulus_batch,
            (&mapping, session_id, batch_id),
            batch,
        ),
        0 <= i < mapping.stimuli@.len(),
    ensures
        ({
            let stimulus = mapping.stimuli@[i];
            let nanos = mapping.emitted_at_unix_ms * 1_000_000;
            &&& batch.values@.len() == mapping.stimuli@.len()
            &&& batch.valid_mask is Some
            &&& batch.valid_mask->0@.len() == mapping.stimuli@.len()
            &&& batch.valid_mask->0@[i] <==> stimulus.validity == SampleValidity::Valid
                && stimulus.normalized is Some
            &&& batch.valid_mask->0@[i] ==> Some(batch.values@[i]) == stimulus.normalized
            &&& !batch.valid_mask->0@[i] ==> batch.values@[i].bits == 0
            &&& batch.timestamp == (if nanos <= u64::MAX {
                nanos
            } else {
                u64::MAX as int
            })
            &&& batch.session_id == session_id
            &&& batch.batch_id == batch_id
        }),
{
}

/// What a held sample of age `age` becomes on the wire: its bit is set exactly
/// while it is valid, has a value and is younger than the limit; otherwise the
/// wire carries a zero that the mask takes back.
pub open spec fn sent_by_age(
    batch: StimulusBatch,
    i: int,
    sample: TelemetrySample<Binary32>,
    age: int,
    limit: int,
) -> bool {
    &&& batch.valid_mask->0@[i] <==> sample.validity == SampleValidity::Valid && sample.value is Some
        && age < limit
    &&& !batch.valid_mask->0@[i] ==> batch.values@[i].bits == 0
}

/// All four channels of a frame age on the wire by its receipt: the safety
/// channels within twenty acquisition intervals, the others within five seconds.
pub proof fn lemma_wire_masks_by_age(
    batch: StimulusBatch,
    mapping: SensoryMapping,
    session_id: Option<String>,
    batch_id: u64,
    frame: TelemetryFrame,
    at: UnixMillis,
)
    requires
        call_ensures(
            wire::mapping_to_stimulus_batch,
            (&mapping, session_id, batch_id),
            batch,
        ),
        call_ensures(TelemetryFrame::to_sensory_mapping_at, (&frame, at), mapping),
        laws::in_place(frame),
        frame.acquisition_cadence_ms > 0,
    ensures
        ({
            let age = at - frame.received_at_unix_ms;
            let safety = laws::twenty_intervals(frame.acquisition_cadence_ms);
            &&& batch.values@.len() == 4 && batch.valid_mask is Some
                && batch.valid_mask->0@.len() == 4
            &&& sent_by_age(batch, 0, frame.gpu_temp_c, age, safety)
            &&& sent_by_age(batch, 1, frame.power_w, age, safety)
            &&& sent_by_age(batch, 2, frame.gpu_clock_mhz, age, 5000)
            &&& sent_by_age(batch, 3, frame.mem_util_pct, age, 5000)
        }),
{
    laws::lemma_mapped_channels_age(mapping, frame, at);
    lemma_batch_carries_valid_channels(batch, mapping, session_id, batch_id, 0);
    lemma_batch_carries_valid_channels(batch, mapping, session_id, batch_id, 1);
    lemma_batch_carries_valid_channels(batch, mapping, session_id, batch_id, 2);
    lemma_batch_carries_valid_channels(batch, mapping, session_id, batch_id, 3);
}

/// The word for a validity.
pub open spec fn word(validity: SampleValidity) -> Seq<char> {
    match validity {
        SampleValidity::Valid => "valid"@,
        SampleValidity::Missing => "missing"@,
        SampleValidity::Invalid => "invalid"@,
        SampleValidity::Stale => "stale"@,
    }
}

/// The metadata tells the channels apart again: its lists, split at commas, name
/// each channel, its validity and its stale threshold, in order.
pub proof fn lemma_metadata_names_every_channel(
    batch: StimulusBatch,
    mapping: SensoryMapping,
    session_id: Option<String>,
    batch_id: u64,
    i: int,
)
    requires
        call_ensures(
            wire::mapping_to_stimulus_batch,
            (&mapping, session_id, batch_id),
            batch,
        ),
        0 <= i < mapping.stimuli@.len(),
        forall|j: int|
            0 <= j < mapping.stimuli@.len() ==> text::laws::without_comma(
                (#[trigger] mapping.stimuli@[j]).name@,
            ),
    ensures
        ({
            let stimulus = mapping.stimuli@[i];
            let custom = batch.metadata->0.custom@;
            &&& batch.metadata is Some
            &&& batch.metadata->0.source is Some
            &&& batch.metadata->0.source->0@ == "thalamic-relay"@
            &&& batch.metadata->0.processing_latency_ns is None
            &&& custom.len() == 5
            &&& custom[0].0@ == "acquisition_source"@
            &&& custom[0].1@ == (match mapping.acquisition_source {
                TelemetrySource::Nvml => "nvml"@,
                TelemetrySource::SoftwareFallback => "software_fallback"@,
                TelemetrySource::NvmlUnavailable => "nvml_unavailable"@,
            })
            &&& custom[1].0@ == "acquisition_cadence_ms"@
            &&& custom[1].1@ == text::decimal(mapping.acquisition_cadence_ms as nat)
            &&& custom[2].0@ == "channels"@
            &&& text::split_commas(custom[2].1@).len() == mapping.stimuli@.len()
            &&& text::split_commas(custom[2].1@)[i] == stimulus.name@
            &&& custom[3].0@ == "validity"@
            &&& text::split_commas(custom[3].1@).len() == mapping.stimuli@.len()
            &&& text::split_commas(custom[3].1@)[i] == word(stimulus.validity)
            &&& custom[4].0@ == "stale_after_ms"@
            &&& text::split_commas(custom[4].1@).len() == mapping.stimuli@.len()
            &&& text::split_commas(custom[4].1@)[i] == text::decimal(
                stimulus.stale_after_ms as nat,
            )
        }),
{
    let stimuli = mapping.stimuli@;
    let custom = batch.metadata->0.custom@;
    let shown = wire::pairs(custom);
    assert(shown =~= wire::provenance(mapping));
    assert(shown[0].0 == custom[0].0@ && shown[0].1 == custom[0].1@);
    assert(shown[1].0 == custom[1].0@ && shown[1].1 == custom[1].1@);
    assert(shown[2].0 == custom[2].0@ && shown[2].1 == custom[2].1@);
    assert(shown[3].0 == custom[3].0@ && shown[3].1 == custom[3].1@);
    assert(shown[4].0 == custom[4].0@ && shown[4].1 == custom[4].1@);
    let names = wire::channel_names(stimuli);
    assert forall|j: int| 0 <= j < names.len() implies text::laws::without_comma(
        #[trigger] names[j],
    ) by {
        assert(names[j] == stimuli[j].name@);
    }
    text::laws::lemma_split_undoes_join(names);
    let words = wire::channel_validity(stimuli);
    assert forall|j: int| 0 <= j < words.len() implies text::laws::without_comma(
        #[trigger] words[j],
    ) by {
        reveal_strlit("valid");
        reveal_strlit("missing");
        reveal_strlit("invalid");
        reveal_strlit("stale");
        assert(words[j] == word(stimuli[j].validity));
    }
    text::laws::lemma_split_undoes_join(words);
    let limits = wire::channel_thresholds(stimuli);
    assert forall|j: int| 0 <= j < limits.len() implies text::laws::without_comma(
        #[trigger] limits[j],
    ) by {
        text::lemma_decimal_shape(stimuli[j].stale_after_ms as nat);
    }
    text::laws::lemma_split_undoes_join(limits);
}

/// A configured session id replaces the mapping's; the sequence number never is
/// replaced.
pub proof fn lemma_session_override(
    message: IpcMessage,
    mapping: SensoryMapping,
    configured: Option<String>,
)
    requires
        publish::sends(message, mapping, configured),
    ensures
        message->Stimuli_0.session_id is Some,
        configured matches Some(id) ==> message->Stimuli_0.session_id->0@ == id@,
        configured is None ==> message->Stimuli_0.session_id->0@ == mapping.session_id@,
        message->Stimuli_0.batch_id == mapping.batch_id,
{
}

/// All losses counted.
pub open spec fn losses(dropped: DropCounts) -> int {
    dropped.drop_oldest + dropped.reject_newest + dropped.contended + dropped.disconnected
        + dropped.invalid + dropped.send_failed
}

/// Counting one loss raises the count of its own reason and no other.
pub proof fn lemma_losses_are_counted_apart(
    dropped: DropCounts,
    reason: DropReason,
    other: DropReason,
)
    requires
        dropped.of(reason) < u64::MAX,
    ensures
        dropped.with(reason).of(reason) == dropped.of(reason) + 1,
        other != reason ==> dropped.with(reason).of(other) == dropped.of(other),
        losses(dropped.with(reason)) == losses(dropped) + 1,
        dropped.of(DropReason::DropOldest) == dropped.drop_oldest,
        dropped.of(DropReason::RejectNewest) == dropped.reject_newest,
        dropped.of(DropReason::Contended) == dropped.contended,
        dropped.of(DropReason::Disconnected) == dropped.disconnected,
        dropped.of(DropReason::Invalid) == dropped.invalid,
        dropped.of(DropReason::SendFailed) == dropped.send_failed,
{
}

/// Nothing disappears uncounted: after an enqueue the items queued and the
/// losses counted are together one more than before. An item is accepted exactly
/// when it ends up last in the queue, and whatever else is queued keeps its
/// order and loses at most the oldest.
pub proof fn lemma_enqueue_accounts_for_every_item<T>(queue: QueueState<T>, item: T)
    requires
        queue.bounded(),
        losses(queue.dropped) < u64::MAX,
        queue.enqueued < u64::MAX,
    ensures
        ({
            let (after, outcome) = queue.enqueuing(item);
            let room = queue.items.len() < queue.capacity;
            let replaces = queue.policy == QueueFullPolicy::DropOldest;
            &&& after.items.len() + losses(after.dropped) == queue.items.len() + losses(
                queue.dropped,
            ) + 1
            &&& after.bounded()
            &&& queue.receiver_alive && room ==> after.items == queue.items.push(item)
                && after.dropped == queue.dropped
            &&& queue.receiver_alive && !room && replaces ==> after.items == queue.items.skip(
                1,
            ).push(item) && after.dropped.drop_oldest == queue.dropped.drop_oldest + 1
            &&& queue.receiver_alive && !room && !replaces ==> after.items == queue.items
                && after.dropped.reject_newest == queue.dropped.reject_newest + 1
            &&& !queue.receiver_alive ==> after.items == queue.items && after.dropped.disconnected
                == queue.dropped.disconnected + 1
            &&& after.enqueued == queue.enqueued + (if queue.receiver_alive && (room || replaces) {
                1int
            } else {
                0
            })
            &&& outcome is Ok <==> queue.receiver_alive && (room || replaces
                && !queue.reports_replacement)
            &&& outcome == Err::<(), PublishError>(PublishError::Disconnected)
                <==> !queue.receiver_alive
            &&& outcome == Err::<(), PublishError>(PublishError::SlowConsumer)
                <==> queue.receiver_alive && !room && (!replaces || queue.reports_replacement)
            &&& after.receiver_alive == queue.receiver_alive
            &&& after.senders_alive == queue.senders_alive
            &&& after.capacity == queue.capacity
            &&& after.policy == queue.policy
            &&& after.reports_replacement == queue.reports_replacement
        }),
{
}

/// A queue that turns new items away keeps exactly the oldest ones, in order, up
/// to its capacity.
pub proof fn lemma_oldest_front_is_kept<T>(queue: QueueState<T>, items: Seq<T>)
    requires
        queue.receiver_alive,
        queue.policy == QueueFullPolicy::RejectNewest,
        queue.bounded(),
    ensures
        ({
            let all = queue.items + items;
            let after = queue::enqueuing_all(queue, items);
            &&& after.items == (if all.len() <= queue.capacity {
                all
            } else {
                all.take(queue.capacity)
            })
            &&& after.receiver_alive && after.policy == queue.policy && after.capacity
                == queue.capacity
        }),
    decreases items.len(),
{
    let all = queue.items + items;
    if items.len() == 0 {
        assert(all =~= queue.items);
    } else {
        let front = items.drop_last();
        let fewer = queue.items + front;
        lemma_oldest_front_is_kept(queue, front);
        assert(all =~= fewer.push(items.last()));
        if fewer.len() >= queue.capacity {
            assert(all.take(queue.capacity) =~= fewer.take(queue.capacity));
            assert(fewer.len() == queue.capacity ==> fewer.take(queue.capacity) =~= fewer);
        }
    }
}

/// A batch that its validator refuses is never queued: it is counted as invalid
/// and reported in the validator's words. One that it accepts is enqueued.
pub proof fn lemma_refused_batches_are_not_queued<V: BatchValidator>(
    queue: QueueState<IpcMessage>,
    message: IpcMessage,
    verdict: Result<(), String>,
)
    requires
        queue.dropped.invalid < u64::MAX,
    ensures
        ({
            let (after, outcome) = CorpusIpcPublisher::<V>::after_verdict(queue, message, verdict);
            &&& verdict matches Err(reason) ==> {
                &&& after.items == queue.items
                &&& after.enqueued == queue.enqueued
                &&& after.dropped.invalid == queue.dropped.invalid + 1
                &&& losses(after.dropped) == losses(queue.dropped) + 1
                &&& outcome == Err::<(), PublishError>(PublishError::SendFailed(reason))
            }
            &&& verdict is Ok ==> (after, outcome) == queue.enqueuing(message)
        }),
{
}

/// Which capacities a queue can have: any from 1 to 4096 under a policy, and at
/// least one otherwise. It starts empty, connected and with nothing counted.
pub proof fn lemma_queue_capacities<T>(
    capacity: usize,
    policy: QueueFullPolicy,
    plain: (IsolatedPublishQueue<T>, PublishReceiver),
    outcome: Result<(IsolatedPublishQueue<T>, PublishReceiver), CapacityError>,
)
    requires
        call_ensures(IsolatedPublishQueue::<T>::bounded, (capacity,), plain),
        call_ensures(IsolatedPublishQueue::<T>::bounded_with_policy, (capacity, policy), outcome),
    ensures
        outcome is Ok <==> 1 <= capacity <= 4096,
        outcome matches Err(e) ==> e.capacity == capacity,
        outcome matches Ok(ends) ==> {
            &&& ends.0@.items.len() == 0 && ends.0@.receiver_alive && ends.0@.senders_alive
            &&& ends.0@.capacity == capacity && ends.0@.policy == policy
            &&& !ends.0@.reports_replacement
            &&& ends.0@.enqueued == 0 && losses(ends.0@.dropped) == 0
        },
        plain.0@.items.len() == 0 && plain.0@.receiver_alive && plain.0@.senders_alive,
        plain.0@.capacity == (if capacity == 0 {
            1
        } else {
            capacity as int
        }),
        plain.0@.policy == QueueFullPolicy::DropOldest && plain.0@.reports_replacement,
        plain.0@.enqueued == 0 && losses(plain.0@.dropped) == 0,
{
}

/// A queue whose lock is held looks slow to a sender and empty to a receiver; one
/// whose lock is broken looks disconnected to both.
pub proof fn lemma_failed_locks(
    failure: LockFailure,
    sending: PublishError,
    receiving: ReceiveError,
)
    requires
        call_ensures(queue::refused_enqueue, (failure,), sending),
        call_ensures(queue::refused_receive, (failure,), receiving),
    ensures
        failure == LockFailure::WouldBlock ==> sending == PublishError::SlowConsumer && receiving
            == ReceiveError::Empty,
        failure == LockFailure::Poisoned ==> sending == PublishError::Disconnected && receiving
            == ReceiveError::Disconnected,
{
}

/// Labels of the drop reasons and the full-queue policies.
pub proof fn lemma_queue_labels(
    reason: DropReason,
    policy: QueueFullPolicy,
    why: &'static str,
    how: &'static str,
)
    requires
        call_ensures(DropReason::as_str, (reason,), why),
        call_ensures(QueueFullPolicy::as_str, (policy,), how),
    ensures
        reason == DropReason::DropOldest ==> why@ == "drop_oldest"@,
        reason == DropReason::RejectNewest ==> why@ == "reject_newest"@,
        reason == DropReason::Contended ==> why@ == "contended"@,
        reason == DropReason::Disconnected ==> why@ == "disconnected"@,
        reason == DropReason::Invalid ==> why@ == "invalid"@,
        reason == DropReason::SendFailed ==> why@ == "send_failed"@,
        policy == QueueFullPolicy::DropOldest ==> how@ == "drop_oldest"@,
        policy == QueueFullPolicy::RejectNewest ==> how@ == "reject_newest"@,
{
}

/// Items are received in the order in which they were queued: the oldest leaves,
/// the rest stays, and nothing else of the queue changes.
pub proof fn lemma_oldest_is_received_first<T>(
    receiver: PublishReceiver,
    queue: &mut IsolatedPublishQueue<T>,
    step: ReceiveStep<T>,
)
    requires
        call_ensures(PublishReceiver::recv::<T>, (&receiver, queue), step),
    ensures
        ({
            let before = old(queue)@;
            let after = final(queue)@;
            &&& before.items.len() > 0 ==> step == ReceiveStep::Item(before.items[0])
                && seq![before.items[0]] + after.items == before.items
            &&& before.items.len() == 0 ==> after.items.len() == 0
            &&& step is Wait <==> before.items.len() == 0 && before.senders_alive
            &&& step is Disconnected <==> before.items.len() == 0 && !before.senders_alive
            &&& after.receiver_alive == before.receiver_alive
            &&& after.senders_alive == before.senders_alive
            &&& after.capacity == before.capacity && after.policy == before.policy
            &&& after.reports_replacement == before.reports_replacement
            &&& after.enqueued == before.enqueued && after.dropped == before.dropped
        }),
{
    let before = old(queue)@.items;
    if before.len() > 0 {
        assert(seq![before[0]] + before.skip(1) =~= before);
    }
}

/// Receiving without waiting gives the same items, and tells an empty queue from
/// one without senders.
pub proof fn lemma_oldest_is_taken_first<T>(
    receiver: PublishReceiver,
    queue: &mut IsolatedPublishQueue<T>,
    outcome: Result<T, ReceiveError>,
)
    requires
        call_ensures(PublishReceiver::try_recv::<T>, (&receiver, queue), outcome),
    ensures
        ({
            let before = old(queue)@;
            let after = final(queue)@;
            &&& before.items.len() > 0 ==> outcome == Ok::<T, ReceiveError>(before.items[0])
                && seq![before.items[0]] + after.items == before.items
            &&& before.items.len() == 0 ==> after.items.len() == 0 && outcome is Err
            &&& outcome == Err::<T, ReceiveError>(ReceiveError::Empty) <==> before.items.len() == 0
                && before.senders_alive
            &&& outcome == Err::<T, ReceiveError>(ReceiveError::Disconnected)
                <==> before.items.len() == 0 && !before.senders_alive
            &&& after.receiver_alive == before.receiver_alive
            &&& after.senders_alive == before.senders_alive
            &&& after.capacity == before.capacity && after.policy == before.policy
            &&& after.enqueued == before.enqueued && after.dropped == before.dropped
        }),
{
    let before = old(queue)@.items;
    if before.len() > 0 {
        assert(seq![before[0]] + before.skip(1) =~= before);
    }
}

/// A receiver that goes away takes the queued items with it, and every later
/// enqueue is refused as disconnected; a sender that goes away takes nothing.
pub proof fn lemma_closing_ends<T>(
    receiver: PublishReceiver,
    closed: &mut IsolatedPublishQueue<T>,
    quiet: &mut IsolatedPublishQueue<T>,
    item: T,
)
    requires
        call_ensures(PublishReceiver::close::<T>, (receiver, closed), ()),
        call_ensures(IsolatedPublishQueue::<T>::close_senders, (quiet,), ()),
    ensures
        final(closed)@.items.len() == 0,
        !final(closed)@.receiver_alive,
        final(closed)@.enqueuing(item).1 == Err::<(), PublishError>(PublishError::Disconnected),
        final(closed)@.enqueued == old(closed)@.enqueued,
        final(closed)@.dropped == old(closed)@.dropped,
        !final(quiet)@.senders_alive,
        final(quiet)@.items == old(quiet)@.items,
        final(quiet)@.receiver_alive == old(quiet)@.receiver_alive,
        final(quiet)@.dropped == old(quiet)@.dropped,
{
}

/// An accepted item ends up last in the queue; a queue below its capacity
/// accepts every item while its receiver is there.
pub proof fn lemma_accepted_items_are_last<T>(
    queue: &mut IsolatedPublishQueue<T>,
    item: T,
    outcome: Result<(), PublishError>,
)
    requires
        call_ensures(IsolatedPublishQueue::<T>::try_enqueue, (queue, item), outcome),
        old(queue)@.bounded(),
    ensures
        outcome is Ok ==> final(queue)@.items.len() > 0 && final(queue)@.items.last() == item,
        old(queue)@.receiver_alive && old(queue)@.items.len() < old(queue)@.capacity ==> outcome
            is Ok && final(queue)@.items == old(queue)@.items.push(item),
        !old(queue)@.receiver_alive ==> outcome == Err::<(), PublishError>(
            PublishError::Disconnected,
        ) && final(queue)@.items == old(queue)@.items,
        final(queue)@.items.len() <= final(queue)@.capacity,
        final(queue)@.capacity == old(queue)@.capacity,
{
}

/// A loss recorded from outside changes its own count and nothing else.
pub proof fn lemma_recorded_loss<T>(queue: &mut IsolatedPublishQueue<T>, reason: DropReason)
    requires
        call_ensures(IsolatedPublishQueue::<T>::record_loss, (queue, reason), ()),
        old(queue)@.dropped.of(reason) < u64::MAX,
    ensures
        final(queue)@.dropped.of(reason) == old(queue)@.dropped.of(reason) + 1,
        losses(final(queue)@.dropped) == losses(old(queue)@.dropped) + 1,
        final(queue)@.items == old(queue)@.items,
        final(queue)@.enqueued == old(queue)@.enqueued,
        final(queue)@.receiver_alive == old(queue)@.receiver_alive,
        final(queue)@.senders_alive == old(queue)@.senders_alive,
{
}

/// Publishing cannot reach safety: a machine that evaluates a frame and then
/// publishes ends up as one that only evaluates it, with the same snapshot.
pub proof fn lemma_publishing_leaves_safety_alone<P: SensoryPublisher>(
    publishing: &mut SafetyMachine,
    alone: &mut SafetyMachine,
    frame: TelemetryFrame,
    publisher: &mut P,
    results: (SafetySnapshot, Result<(), PublishError>),
    snapshot: SafetySnapshot,
)
    requires
        call_ensures(
            publish::evaluate_then_try_publish::<P>,
            (publishing, &frame, publisher),
            results,
        ),
        call_ensures(SafetyMachine::evaluate, (alone, &frame), snapshot),
        old(publishing)@ == old(alone)@,
    ensures
        final(publishing)@ == final(alone)@,
        results.0.state == snapshot.state,
        results.0.policy_state == snapshot.policy_state,
        results.0.brake_engaged == snapshot.brake_engaged,
        results.0.desired_brake == snapshot.desired_brake,
        results.0.intent == snapshot.intent,
        results.0.hysteresis_ok_count == snapshot.hysteresis_ok_count,
        results.0.last_reason@ == snapshot.last_reason@,
        results.0.transition == snapshot.transition,
        results.0.actuator_failed == snapshot.actuator_failed,
{
}

/// The envelope holds the batch and nothing else.
pub proof fn lemma_envelope_holds_the_batch(
    mapping: SensoryMapping,
    session_id: Option<String>,
    batch_id: u64,
    message: IpcMessage,
    batch: StimulusBatch,
)
    requires
        call_ensures(wire::mapping_to_ipc_message, (&mapping, session_id, batch_id), message),
        call_ensures(wire::mapping_to_stimulus_batch, (&mapping, session_id, batch_id), batch),
    ensures
        message->Stimuli_0.values@ == batch.values@,
        message->Stimuli_0.valid_mask->0@ == batch.valid_mask->0@,
        message->Stimuli_0.timestamp == batch.timestamp,
        message->Stimuli_0.session_id == session_id,
        message->Stimuli_0.batch_id == batch_id,
{
}

/// What metrics see of a queue: its depth, its capacity, its counts and its
/// policy.
pub proof fn lemma_queue_snapshot<T>(queue: IsolatedPublishQueue<T>, snapshot: QueueSnapshot)
    requires
        call_ensures(IsolatedPublishQueue::<T>::snapshot, (&queue,), snapshot),
    ensures
        snapshot.depth == queue@.items.len(),
        snapshot.capacity == queue@.capacity,
        snapshot.enqueued_total == queue@.enqueued,
        snapshot.dropped == queue@.dropped,
        snapshot.policy == queue@.policy,
{
}

} // verus!
