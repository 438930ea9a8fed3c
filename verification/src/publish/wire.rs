//! Canonical stimulus batches built from sensory mappings.

use crate::binary32::{Binary32, ZERO_BITS};
use crate::telemetry::{MappedStimulus, SampleValidity, SensoryMapping, TelemetrySource, UnixMillis};
use crate::text;
use crate::text::{comma_joined, decimal_text};
use vstd::prelude::*;

verus! {

/// Identity stamped into the metadata of every batch.
pub const SOURCE_IDENTITY: &'static str = "thalamic-relay";

/// Nanoseconds per millisecond.
pub const NANOS_PER_MILLI: u64 = 1_000_000;

/// Batch-level metadata.
#[derive(Debug, PartialEq, Eq)]
pub struct BatchMetadata {
    /// Processing latency in nanoseconds, if measured.
    pub processing_latency_ns: Option<u64>,
    /// Source identifier.
    pub source: Option<String>,
    /// Additional fields: key and value, no key twice.
    pub custom: Vec<(String, String)>,
}

/// A batch of continuous stimulus values.
#[derive(Debug, PartialEq, Eq)]
pub struct StimulusBatch {
    /// Session the batch belongs to.
    pub session_id: Option<String>,
    /// Batch identifier.
    pub batch_id: u64,
    /// Emission time in nanoseconds since the Unix epoch.
    pub timestamp: u64,
    /// One value per channel; a placeholder zero where the mask is false.
    pub values: Vec<Binary32>,
    /// Which values are real readings.
    pub valid_mask: Option<Vec<bool>>,
    /// Provenance.
    pub metadata: Option<BatchMetadata>,
}

/// The wire envelope this relay emits.
#[derive(Debug, PartialEq, Eq)]
pub enum IpcMessage {
    /// Runtime stimulus values.
    Stimuli(StimulusBatch),
}

/// Nanoseconds of a millisecond timestamp, limited to what fits.
pub open spec fn nanos_of(unix_ms: UnixMillis) -> u64 {
    if unix_ms * NANOS_PER_MILLI > u64::MAX {
        u64::MAX
    } else {
        (unix_ms * NANOS_PER_MILLI) as u64
    }
}

/// Convert unix milliseconds to nanoseconds.
pub fn unix_ms_to_ns(unix_ms: UnixMillis) -> (nanos: u64)
    ensures
        nanos == nanos_of(unix_ms),
{
    match unix_ms.checked_mul(NANOS_PER_MILLI) {
        Some(nanos) => nanos,
        None => u64::MAX,
    }
}

/// Metadata name of an acquisition path.
pub open spec fn source_label(source: TelemetrySource) -> Seq<char> {
    match source {
        TelemetrySource::Nvml => "nvml"@,
        TelemetrySource::SoftwareFallback => "software_fallback"@,
        TelemetrySource::NvmlUnavailable => "nvml_unavailable"@,
    }
}

/// Metadata name of an acquisition path.
pub fn source_name(source: TelemetrySource) -> (name: &'static str)
    ensures
        name@ == source_label(source),
{
    match source {
        TelemetrySource::Nvml => "nvml",
        TelemetrySource::SoftwareFallback => "software_fallback",
        TelemetrySource::NvmlUnavailable => "nvml_unavailable",
    }
}

/// Metadata name of a validity.
pub open spec fn validity_label(validity: SampleValidity) -> Seq<char> {
    match validity {
        SampleValidity::Valid => "valid"@,
        SampleValidity::Missing => "missing"@,
        SampleValidity::Invalid => "invalid"@,
        SampleValidity::Stale => "stale"@,
    }
}

/// Metadata name of a validity.
pub fn validity_name(validity: SampleValidity) -> (name: &'static str)
    ensures
        name@ == validity_label(validity),
{
    match validity {
        SampleValidity::Valid => "valid",
        SampleValidity::Missing => "missing",
        SampleValidity::Invalid => "invalid",
        SampleValidity::Stale => "stale",
    }
}

/// Whether a channel carries a real reading.
pub open spec fn carried(stimulus: MappedStimulus) -> bool {
    stimulus.validity == SampleValidity::Valid && stimulus.normalized is Some
}

/// Value sent for a channel: its model input, or the placeholder zero.
pub open spec fn sent_value(stimulus: MappedStimulus) -> Binary32 {
    if carried(stimulus) {
        stimulus.normalized->0
    } else {
        Binary32 { bits: ZERO_BITS }
    }
}

/// Names of the channels.
pub open spec fn channel_names(stimuli: Seq<MappedStimulus>) -> Seq<Seq<char>> {
    Seq::new(stimuli.len(), |i: int| stimuli[i].name@)
}

/// Validity names of the channels.
pub open spec fn channel_validity(stimuli: Seq<MappedStimulus>) -> Seq<Seq<char>> {
    Seq::new(stimuli.len(), |i: int| validity_label(stimuli[i].validity))
}

/// Stale thresholds of the channels, in decimal.
pub open spec fn channel_thresholds(stimuli: Seq<MappedStimulus>) -> Seq<Seq<char>> {
    Seq::new(stimuli.len(), |i: int| text::decimal(stimuli[i].stale_after_ms as nat))
}

/// Custom metadata of a mapping.
pub open spec fn provenance(mapping: SensoryMapping) -> Seq<(Seq<char>, Seq<char>)> {
    seq![
        ("acquisition_source"@, source_label(mapping.acquisition_source)),
        ("acquisition_cadence_ms"@, text::decimal(mapping.acquisition_cadence_ms as nat)),
        ("channels"@, text::join_commas(channel_names(mapping.stimuli@))),
        ("validity"@, text::join_commas(channel_validity(mapping.stimuli@))),
        ("stale_after_ms"@, text::join_commas(channel_thresholds(mapping.stimuli@))),
    ]
}

/// Views of key-value pairs.
pub open spec fn pairs(custom: Seq<(String, String)>) -> Seq<(Seq<char>, Seq<char>)> {
    Seq::new(custom.len(), |i: int| (custom[i].0@, custom[i].1@))
}

/// Whether `batch` is the batch of a mapping under the given session and id.
pub open spec fn batches(
    batch: StimulusBatch,
    mapping: SensoryMapping,
    session_id: Option<String>,
    batch_id: u64,
) -> bool {
    &&& batch.session_id == session_id
    &&& batch.batch_id == batch_id
    &&& batch.timestamp == nanos_of(mapping.emitted_at_unix_ms)
    &&& batch.values@ == Seq::new(
        mapping.stimuli@.len(),
        |i: int| sent_value(mapping.stimuli@[i]),
    )
    &&& batch.valid_mask matches Some(mask) && mask@ == Seq::new(
        mapping.stimuli@.len(),
        |i: int| carried(mapping.stimuli@[i]),
    )
    &&& batch.metadata matches Some(metadata) && metadata.processing_latency_ns is None
        && metadata.source is Some && metadata.source->0@ == SOURCE_IDENTITY@ && pairs(
        metadata.custom@,
    ) == provenance(mapping)
}

/// Map a sensory mapping into a stimulus batch.
///
/// Channels keep their order. Valid channels carry the normalized value with a
/// true mask; missing, invalid and stale ones carry the placeholder zero with a
/// false mask, so that a real zero is distinct from "no data this tick".
/// The metadata names the source, the acquisition path and cadence, and per
/// channel the name, validity and stale threshold.
pub fn mapping_to_stimulus_batch(
    mapping: &SensoryMapping,
    session_id: Option<String>,
    batch_id: u64,
) -> (batch: StimulusBatch)
    ensures
        batches(batch, *mapping, session_id, batch_id),
{
    let mut values: Vec<Binary32> = Vec::new();
    let mut valid_mask: Vec<bool> = Vec::new();
    let mut channels: Vec<String> = Vec::new();
    let mut validity: Vec<String> = Vec::new();
    let mut stale_after: Vec<String> = Vec::new();
    let stimuli: &Vec<MappedStimulus> = &mapping.stimuli;
    let mut i: usize = 0;
    while i < stimuli.len()
        invariant
            i <= stimuli.len(),
            values.len() == i,
            valid_mask.len() == i,
            channels.len() == i,
            validity.len() == i,
            stale_after.len() == i,
            forall|j: int| 0 <= j < i ==> #[trigger] values@[j] == sent_value(stimuli@[j]),
            forall|j: int| 0 <= j < i ==> #[trigger] valid_mask@[j] == carried(stimuli@[j]),
            forall|j: int| 0 <= j < i ==> (#[trigger] channels@[j])@ == stimuli@[j].name@,
            forall|j: int|
                0 <= j < i ==> (#[trigger] validity@[j])@ == validity_label(stimuli@[j].validity),
            forall|j: int|
                0 <= j < i ==> (#[trigger] stale_after@[j])@ == text::decimal(
                    stimuli@[j].stale_after_ms as nat,
                ),
        decreases stimuli.len() - i,
    {
        let stimulus: &MappedStimulus = &stimuli[i];
        channels.push(stimulus.name.clone());
        validity.push(validity_name(stimulus.validity).to_owned());
        stale_after.push(decimal_text(stimulus.stale_after_ms as u128));
        match (stimulus.validity, stimulus.normalized) {
            (SampleValidity::Valid, Some(value)) => {
                values.push(value);
                valid_mask.push(true);
            },
            _ => {
                values.push(Binary32::from_bits(ZERO_BITS));
                valid_mask.push(false);
            },
        }
        i = i + 1;
    }
    proof {
        assert(values@ =~= Seq::new(stimuli@.len(), |j: int| sent_value(stimuli@[j])));
        assert(valid_mask@ =~= Seq::new(stimuli@.len(), |j: int| carried(stimuli@[j])));
        assert(text::views(channels@) =~= channel_names(stimuli@));
        assert(text::views(validity@) =~= channel_validity(stimuli@));
        assert(text::views(stale_after@) =~= channel_thresholds(stimuli@));
    }
    let mut custom: Vec<(String, String)> = Vec::new();
    custom.push(
        ("acquisition_source".to_owned(), source_name(mapping.acquisition_source).to_owned()),
    );
    custom.push(
        (
            "acquisition_cadence_ms".to_owned(),
            decimal_text(mapping.acquisition_cadence_ms as u128),
        ),
    );
    custom.push(("channels".to_owned(), comma_joined(&channels)));
    custom.push(("validity".to_owned(), comma_joined(&validity)));
    custom.push(("stale_after_ms".to_owned(), comma_joined(&stale_after)));
    proof {
        assert(pairs(custom@) =~= provenance(*mapping));
    }
    StimulusBatch {
        session_id,
        batch_id,
        timestamp: unix_ms_to_ns(mapping.emitted_at_unix_ms),
        values,
        valid_mask: Some(valid_mask),
        metadata: Some(
            BatchMetadata {
                processing_latency_ns: None,
                source: Some(SOURCE_IDENTITY.to_owned()),
                custom,
            },
        ),
    }
}

/// Wrap a mapping as the wire envelope.
pub fn mapping_to_ipc_message(
    mapping: &SensoryMapping,
    session_id: Option<String>,
    batch_id: u64,
) -> (message: IpcMessage)
    ensures
        message matches IpcMessage::Stimuli(batch) && batches(
            batch,
            *mapping,
            session_id,
            batch_id,
        ),
{
    IpcMessage::Stimuli(mapping_to_stimulus_batch(mapping, session_id, batch_id))
}

} // verus!
