//! Mapping of frames toward sensory consumers and observability.

use crate::binary32::Binary32;
use crate::telemetry;
use crate::telemetry::{
    signal_spec, stale_after_ms, SampleValidity, SignalClass, SignalId, SignalSpec,
    TelemetryFrame, TelemetrySample, TelemetrySource, Unit, ALL_SIGNALS,
};
use crate::time::{unix_now_ms, SourceTimeStatus, TimestampOrigin, UnixMillis};
use vstd::prelude::*;

verus! {

/// One channel of a mapping.
#[derive(Debug, PartialEq, Eq)]
pub struct MappedStimulus {
    /// Signal mapped.
    pub signal: SignalId,
    /// Its canonical name.
    pub name: String,
    /// How the signal may be consumed.
    pub classification: SignalClass,
    /// Engineering unit.
    pub unit: Unit,
    /// Acquisition path.
    pub source: TelemetrySource,
    /// Validity at mapping time.
    pub validity: SampleValidity,
    /// Engineering-unit raw value. `None` if missing or non-finite.
    pub raw: Option<Binary32>,
    /// Model input. `None` unless valid.
    pub normalized: Option<Binary32>,
    /// Stale threshold (ms) at the frame's cadence.
    pub stale_after_ms: u64,
    /// Actual acquisition cadence for this frame.
    pub cadence_ms: u64,
}

impl Clone for MappedStimulus {
    fn clone(&self) -> (copy: Self)
        ensures
            copy == *self,
    {
        MappedStimulus {
            signal: self.signal,
            name: self.name.clone(),
            classification: self.classification,
            unit: self.unit,
            source: self.source,
            validity: self.validity,
            raw: self.raw,
            normalized: self.normalized,
            stale_after_ms: self.stale_after_ms,
            cadence_ms: self.cadence_ms,
        }
    }
}

/// Whether `stimulus` maps `sample` at the given cadence.
pub open spec fn maps_sample(
    stimulus: MappedStimulus,
    sample: TelemetrySample<Binary32>,
    cadence_ms: u64,
) -> bool {
    &&& stimulus.signal == sample.signal
    &&& stimulus.name@ == sample.signal.spec_name()
    &&& stimulus.classification == sample.signal.class()
    &&& stimulus.unit == sample.unit
    &&& stimulus.source == sample.source
    &&& stimulus.validity == sample.validity
    &&& stimulus.raw == sample.value
    &&& stimulus.normalized == telemetry::model_input(sample)
    &&& stimulus.stale_after_ms == telemetry::stale_threshold(sample.signal, cadence_ms)
    &&& stimulus.cadence_ms == cadence_ms
}

impl MappedStimulus {
    fn from_sample(sample: &TelemetrySample<Binary32>, cadence_ms: u64) -> (stimulus: Self)
        ensures
            maps_sample(stimulus, *sample, cadence_ms),
    {
        let spec: SignalSpec = signal_spec(sample.signal);
        MappedStimulus {
            signal: sample.signal,
            name: spec.name.to_owned(),
            classification: spec.class,
            unit: sample.unit,
            source: sample.source,
            validity: sample.validity,
            raw: sample.value,
            normalized: sample.normalized(),
            stale_after_ms: stale_after_ms(sample.signal, cadence_ms),
            cadence_ms,
        }
    }
}

/// Runtime-input channels of a frame, with frame-level provenance.
///
/// Source wall time and receive/emit time are separate, so that emit time can
/// go on the wire and source time in metadata.
#[derive(Debug, PartialEq, Eq)]
pub struct SensoryMapping {
    /// Session that stamped the frame.
    pub session_id: String,
    /// Position in the session's sequence.
    pub batch_id: u64,
    /// Original source wall time, if any.
    pub source_unix_ms: Option<UnixMillis>,
    /// Receive/assess time.
    pub received_at_unix_ms: UnixMillis,
    /// Mapping time.
    pub emitted_at_unix_ms: UnixMillis,
    /// Where the source timestamp came from.
    pub timestamp_origin: TimestampOrigin,
    /// Classification of the source timestamp.
    pub source_time_status: SourceTimeStatus,
    /// Acquisition path.
    pub acquisition_source: TelemetrySource,
    /// Actual acquisition interval.
    pub acquisition_cadence_ms: u64,
    /// Runtime-input channels in inventory order.
    pub stimuli: Vec<MappedStimulus>,
}

/// Raw-preserving observability view of an entire frame.
#[derive(Debug, PartialEq, Eq)]
pub struct ObservabilitySnapshot {
    /// Session that stamped the frame.
    pub session_id: String,
    /// Position in the session's sequence.
    pub batch_id: u64,
    /// Original source wall time, if any.
    pub source_unix_ms: Option<UnixMillis>,
    /// Receive/assess time.
    pub received_at_unix_ms: UnixMillis,
    /// Snapshot time.
    pub emitted_at_unix_ms: UnixMillis,
    /// Where the source timestamp came from.
    pub timestamp_origin: TimestampOrigin,
    /// Classification of the source timestamp.
    pub source_time_status: SourceTimeStatus,
    /// Acquisition path.
    pub acquisition_source: TelemetrySource,
    /// Actual acquisition interval.
    pub acquisition_cadence_ms: u64,
    /// Every channel in inventory order.
    pub samples: Vec<MappedStimulus>,
}

fn cloned_stimuli(stimuli: &Vec<MappedStimulus>) -> (copy: Vec<MappedStimulus>)
    ensures
        copy@ == stimuli@,
{
    let mut copy: Vec<MappedStimulus> = Vec::new();
    let mut i: usize = 0;
    while i < stimuli.len()
        invariant
            i <= stimuli.len(),
            copy@ == stimuli@.take(i as int),
        decreases stimuli.len() - i,
    {
        copy.push(stimuli[i].clone());
        i = i + 1;
        proof {
            assert(copy@ =~= stimuli@.take(i as int));
        }
    }
    proof {
        assert(stimuli@.take(i as int) =~= stimuli@);
    }
    copy
}

impl SensoryMapping {
    /// Equality of mappings, the stimuli compared as a sequence.
    pub open spec fn same(self, other: SensoryMapping) -> bool {
        &&& self.session_id@ == other.session_id@
        &&& self.batch_id == other.batch_id
        &&& self.source_unix_ms == other.source_unix_ms
        &&& self.received_at_unix_ms == other.received_at_unix_ms
        &&& self.emitted_at_unix_ms == other.emitted_at_unix_ms
        &&& self.timestamp_origin == other.timestamp_origin
        &&& self.source_time_status == other.source_time_status
        &&& self.acquisition_source == other.acquisition_source
        &&& self.acquisition_cadence_ms == other.acquisition_cadence_ms
        &&& self.stimuli@ == other.stimuli@
    }
}

impl Clone for SensoryMapping {
    fn clone(&self) -> (copy: Self)
        ensures
            copy.same(*self),
    {
        SensoryMapping {
            session_id: self.session_id.clone(),
            batch_id: self.batch_id,
            source_unix_ms: self.source_unix_ms,
            received_at_unix_ms: self.received_at_unix_ms,
            emitted_at_unix_ms: self.emitted_at_unix_ms,
            timestamp_origin: self.timestamp_origin,
            source_time_status: self.source_time_status,
            acquisition_source: self.acquisition_source,
            acquisition_cadence_ms: self.acquisition_cadence_ms,
            stimuli: cloned_stimuli(&self.stimuli),
        }
    }
}

/// Samples of a frame in inventory order, up to position `n`.
pub open spec fn inventory(frame: TelemetryFrame, n: int) -> Seq<TelemetrySample<Binary32>> {
    Seq::new(n as nat, |i: int| frame.sample(ALL_SIGNALS@[i]))
}

/// Those of the first `n` inventory samples whose signal is a runtime input.
pub open spec fn runtime_samples(frame: TelemetryFrame, n: int) -> Seq<TelemetrySample<Binary32>>
    decreases n,
{
    if n <= 0 {
        Seq::empty()
    } else {
        let rest = runtime_samples(frame, n - 1);
        let sample = frame.sample(ALL_SIGNALS@[n - 1]);
        if sample.signal.class().runtime_input() {
            rest.push(sample)
        } else {
            rest
        }
    }
}

/// Whether `stimuli` maps `samples`, each as held by `frame` at `now`.
pub open spec fn maps_samples(
    stimuli: Seq<MappedStimulus>,
    samples: Seq<TelemetrySample<Binary32>>,
    frame: TelemetryFrame,
    now: UnixMillis,
) -> bool {
    &&& stimuli.len() == samples.len()
    &&& forall|i: int|
        0 <= i < stimuli.len() ==> maps_sample(
            #[trigger] stimuli[i],
            telemetry::held(
                samples[i],
                frame.received_at_unix_ms,
                now,
                telemetry::stale_threshold(samples[i].signal, frame.acquisition_cadence_ms),
            ),
            frame.acquisition_cadence_ms,
        )
}

/// Whether `stimuli` maps `samples`, each judged again at `now` by its source
/// time at the frame's threshold.
pub open spec fn maps_rejudged(
    stimuli: Seq<MappedStimulus>,
    samples: Seq<TelemetrySample<Binary32>>,
    frame: TelemetryFrame,
    now: UnixMillis,
) -> bool {
    &&& stimuli.len() == samples.len()
    &&& forall|i: int|
        0 <= i < stimuli.len() ==> maps_sample(
            #[trigger] stimuli[i],
            telemetry::rejudged(
                samples[i],
                now,
                telemetry::stale_threshold(samples[i].signal, frame.acquisition_cadence_ms),
            ),
            frame.acquisition_cadence_ms,
        )
}

/// Whether `mapping` is the sensory mapping of `frame` at `now`.
pub open spec fn maps_frame(mapping: SensoryMapping, frame: TelemetryFrame, now: UnixMillis) -> bool {
    &&& mapping.session_id@ == frame.session_id@
    &&& mapping.batch_id == frame.batch_id
    &&& mapping.source_unix_ms == frame.source_unix_ms
    &&& mapping.received_at_unix_ms == frame.received_at_unix_ms
    &&& mapping.emitted_at_unix_ms == now
    &&& mapping.timestamp_origin == frame.timestamp_origin
    &&& mapping.source_time_status == frame.source_time_status
    &&& mapping.acquisition_source == frame.source
    &&& mapping.acquisition_cadence_ms == frame.acquisition_cadence_ms
    &&& maps_samples(mapping.stimuli@, runtime_samples(frame, 8), frame, now)
}

/// Whether `snapshot` is the observability view of `frame` at `now`.
pub open spec fn snapshots_frame(
    snapshot: ObservabilitySnapshot,
    frame: TelemetryFrame,
    now: UnixMillis,
) -> bool {
    &&& snapshot.session_id@ == frame.session_id@
    &&& snapshot.batch_id == frame.batch_id
    &&& snapshot.source_unix_ms == frame.source_unix_ms
    &&& snapshot.received_at_unix_ms == frame.received_at_unix_ms
    &&& snapshot.emitted_at_unix_ms == now
    &&& snapshot.timestamp_origin == frame.timestamp_origin
    &&& snapshot.source_time_status == frame.source_time_status
    &&& snapshot.acquisition_source == frame.source
    &&& snapshot.acquisition_cadence_ms == frame.acquisition_cadence_ms
    &&& maps_rejudged(snapshot.samples@, inventory(frame, 8), frame, now)
}

impl TelemetryFrame {
    fn map_held(&self, sample: &TelemetrySample<Binary32>, now: UnixMillis) -> (stimulus:
        MappedStimulus)
        ensures
            maps_sample(
                stimulus,
                telemetry::held(
                    *sample,
                    self.received_at_unix_ms,
                    now,
                    telemetry::stale_threshold(sample.signal, self.acquisition_cadence_ms),
                ),
                self.acquisition_cadence_ms,
            ),
    {
        let limit: u64 = stale_after_ms(sample.signal, self.acquisition_cadence_ms);
        MappedStimulus::from_sample(
            &sample.held_at(self.received_at_unix_ms, now, limit),
            self.acquisition_cadence_ms,
        )
    }

    fn map_rejudged(&self, sample: &TelemetrySample<Binary32>, now: UnixMillis) -> (stimulus:
        MappedStimulus)
        ensures
            maps_sample(
                stimulus,
                telemetry::rejudged(
                    *sample,
                    now,
                    telemetry::stale_threshold(sample.signal, self.acquisition_cadence_ms),
                ),
                self.acquisition_cadence_ms,
            ),
    {
        let limit: u64 = stale_after_ms(sample.signal, self.acquisition_cadence_ms);
        MappedStimulus::from_sample(
            &sample.at_time_with_stale(now, limit),
            self.acquisition_cadence_ms,
        )
    }

    /// Sensory mapping at wall-clock now.
    pub fn to_sensory_mapping(&self) -> (mapping: SensoryMapping)
        ensures
            maps_frame(mapping, *self, mapping.emitted_at_unix_ms),
    {
        self.to_sensory_mapping_at(unix_now_ms())
    }

    /// Mapping at an explicit instant so held frames can go stale.
    ///
    /// Holds only runtime-input candidates; observability-only channels are
    /// omitted. A valid sample held past its stale threshold is stale and has
    /// no normalized value; no other sample changes.
    pub fn to_sensory_mapping_at(&self, now: UnixMillis) -> (mapping: SensoryMapping)
        ensures
            maps_frame(mapping, *self, now),
    {
        let samples: [&TelemetrySample<Binary32>; 8] = self.samples();
        let mut stimuli: Vec<MappedStimulus> = Vec::new();
        let mut i: usize = 0;
        while i < 8
            invariant
                i <= 8,
                forall|j: int|
                    0 <= j < 8 ==> *(#[trigger] samples@[j]) == self.sample(ALL_SIGNALS@[j]),
                maps_samples(stimuli@, runtime_samples(*self, i as int), *self, now),
            decreases 8 - i,
        {
            let sample: &TelemetrySample<Binary32> = samples[i];
            if signal_spec(sample.signal).class.includes_runtime_input() {
                stimuli.push(self.map_held(sample, now));
            }
            i = i + 1;
        }
        SensoryMapping {
            session_id: self.session_id.clone(),
            batch_id: self.batch_id,
            source_unix_ms: self.source_unix_ms,
            received_at_unix_ms: self.received_at_unix_ms,
            emitted_at_unix_ms: now,
            timestamp_origin: self.timestamp_origin,
            source_time_status: self.source_time_status,
            acquisition_source: self.source,
            acquisition_cadence_ms: self.acquisition_cadence_ms,
            stimuli,
        }
    }

    /// Full snapshot for observability at wall-clock now.
    pub fn to_observability_snapshot(&self) -> (snapshot: ObservabilitySnapshot)
        ensures
            snapshots_frame(snapshot, *self, snapshot.emitted_at_unix_ms),
    {
        self.to_observability_snapshot_at(unix_now_ms())
    }

    /// Observability snapshot re-evaluated at `now`, each sample by its source
    /// time.
    pub fn to_observability_snapshot_at(&self, now: UnixMillis) -> (snapshot: ObservabilitySnapshot)
        ensures
            snapshots_frame(snapshot, *self, now),
    {
        let acquired: [&TelemetrySample<Binary32>; 8] = self.samples();
        let mut samples: Vec<MappedStimulus> = Vec::new();
        let mut i: usize = 0;
        while i < 8
            invariant
                i <= 8,
                forall|j: int|
                    0 <= j < 8 ==> *(#[trigger] acquired@[j]) == self.sample(ALL_SIGNALS@[j]),
                maps_rejudged(samples@, inventory(*self, i as int), *self, now),
            decreases 8 - i,
        {
            samples.push(self.map_rejudged(acquired[i], now));
            i = i + 1;
        }
        ObservabilitySnapshot {
            session_id: self.session_id.clone(),
            batch_id: self.batch_id,
            source_unix_ms: self.source_unix_ms,
            received_at_unix_ms: self.received_at_unix_ms,
            emitted_at_unix_ms: now,
            timestamp_origin: self.timestamp_origin,
            source_time_status: self.source_time_status,
            acquisition_source: self.source,
            acquisition_cadence_ms: self.acquisition_cadence_ms,
            samples,
        }
    }
}

} // verus!
