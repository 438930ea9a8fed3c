//! Explicit telemetry validity, freshness, normalization, and provenance.
//!
//! Invalid, missing, stale, and simulated data is represented by
//! [`SampleValidity`] and [`TelemetrySource`], never inferred from magic numeric
//! values. Missing or invalid readings stay [`None`] and are never silently
//! converted into a legitimate numeric zero.
//!
//! Every assessed frame is stamped by [`crate::time::SampleClock`]; source wall
//! time is kept separately from receive and emit time.

use crate::binary32::Binary32;
pub use crate::telemetry::mapping::{MappedStimulus, ObservabilitySnapshot, SensoryMapping};
pub use crate::telemetry::signal::{
    signal_spec, Normalization, SampleValidity, SignalClass, SignalId, SignalOrigin, SignalSpec,
    TelemetrySource, Unit, ALL_SIGNALS, DEFAULT_ACQUISITION_CADENCE_MS,
    OBSERVABILITY_STALE_AFTER_MS, SAFETY_EVAL_CADENCE_MS, SAFETY_EVAL_TICKS,
    SAFETY_STALE_AFTER_MS,
};
pub use crate::time::{
    unix_now_ms, FrameTiming, SampleClock, SessionSeed, SourceTimeStatus, TimestampOrigin,
    UnixMillis,
};
use crate::time;
use vstd::prelude::*;

pub mod fixtures;
pub mod laws;
pub mod mapping;
pub mod signal;
pub mod software_fallback;

verus! {

/// One typed sample. `value` is engineering units when present.
///
/// `value` is `None` for missing and non-finite readings. Out-of-range and
/// stale readings keep the raw number for observability but are not valid.
/// `observed_at` is the source wall time when present, otherwise receive time.
#[derive(Debug, Copy, PartialEq, Eq)]
pub struct TelemetrySample<T> {
    /// Signal sampled.
    pub signal: SignalId,
    /// Engineering value, if there is one.
    pub value: Option<T>,
    /// When the value was observed.
    pub observed_at: UnixMillis,
    /// Acquisition path.
    pub source: TelemetrySource,
    /// Whether the value may be used.
    pub validity: SampleValidity,
    /// Engineering unit.
    pub unit: Unit,
}

impl<T: Copy> Clone for TelemetrySample<T> {
    fn clone(&self) -> (copy: Self)
        ensures
            copy == *self,
    {
        *self
    }
}

/// The value a sample keeps of a raw reading: none if it is not finite.
pub open spec fn kept_value(raw: Option<Binary32>) -> Option<Binary32> {
    match raw {
        Some(v) => if v.finite() {
            Some(v)
        } else {
            None
        },
        None => None,
    }
}

/// Validity of a raw reading of `signal` observed at `observed_at`, judged at
/// `now` with the stale threshold `stale_after_ms`.
pub open spec fn judged(
    signal: SignalId,
    raw: Option<Binary32>,
    observed_at: UnixMillis,
    now: UnixMillis,
    stale_after_ms: u64,
) -> SampleValidity {
    match raw {
        None => SampleValidity::Missing,
        Some(v) => if !v.finite() || observed_at > now || v.below(signal.lowest())
            || signal.highest().below(v) {
            SampleValidity::Invalid
        } else if now - observed_at >= stale_after_ms {
            SampleValidity::Stale
        } else {
            SampleValidity::Valid
        },
    }
}

/// Whether `sample` is the judged form of a raw reading.
pub open spec fn samples_reading(
    sample: TelemetrySample<Binary32>,
    signal: SignalId,
    raw: Option<Binary32>,
    observed_at: UnixMillis,
    source: TelemetrySource,
    now: UnixMillis,
    stale_after_ms: u64,
) -> bool {
    sample == (TelemetrySample {
        signal,
        value: kept_value(raw),
        observed_at,
        source,
        validity: judged(signal, raw, observed_at, now, stale_after_ms),
        unit: signal.unit(),
    })
}

/// Time from `then` to `now`; zero if the clock moved back.
pub open spec fn elapsed(then: UnixMillis, now: UnixMillis) -> int {
    if now >= then {
        now - then
    } else {
        0
    }
}

/// A sample held since `received_at`: a valid one goes stale, no other changes.
pub open spec fn held(
    sample: TelemetrySample<Binary32>,
    received_at: UnixMillis,
    now: UnixMillis,
    stale_after_ms: u64,
) -> TelemetrySample<Binary32> {
    TelemetrySample {
        validity: if sample.validity == SampleValidity::Valid && elapsed(received_at, now)
            >= stale_after_ms {
            SampleValidity::Stale
        } else {
            sample.validity
        },
        ..sample
    }
}

/// A sample judged again at `now` by its source time: its value as a reading of
/// its signal. Without a value the validity stays, except that a source time in
/// the future makes a sample that is not missing invalid.
pub open spec fn rejudged(
    sample: TelemetrySample<Binary32>,
    now: UnixMillis,
    stale_after_ms: u64,
) -> TelemetrySample<Binary32> {
    if sample.value is Some {
        TelemetrySample {
            value: kept_value(sample.value),
            validity: judged(sample.signal, sample.value, sample.observed_at, now, stale_after_ms),
            unit: sample.signal.unit(),
            ..sample
        }
    } else {
        TelemetrySample {
            validity: if sample.validity != SampleValidity::Missing && sample.observed_at > now {
                SampleValidity::Invalid
            } else {
                sample.validity
            },
            ..sample
        }
    }
}

/// Model input of a sample: only valid samples have one.
pub open spec fn model_input(sample: TelemetrySample<Binary32>) -> Option<Binary32> {
    match (sample.validity, sample.value) {
        (SampleValidity::Valid, Some(v)) => Some(sample.signal.scale().of(v)),
        _ => None,
    }
}

impl TelemetrySample<Binary32> {
    /// Validate a raw optional reading against the signal contract.
    ///
    /// Non-finite values become `value: None` and invalid. Out-of-range values
    /// keep the raw number and are invalid. Missing stays `None`, never `0.0`.
    pub fn from_raw(
        signal: SignalId,
        raw: Option<Binary32>,
        observed_at: UnixMillis,
        source: TelemetrySource,
        now: UnixMillis,
    ) -> (sample: Self)
        ensures
            samples_reading(sample, signal, raw, observed_at, source, now, signal.stale_after()),
    {
        let spec: SignalSpec = signal_spec(signal);
        TelemetrySample::from_raw_with_stale(
            signal,
            raw,
            observed_at,
            source,
            now,
            spec.stale_after_ms,
        )
    }

    /// Like [`Self::from_raw`] with the stale threshold of the frame's cadence.
    pub fn from_raw_with_stale(
        signal: SignalId,
        raw: Option<Binary32>,
        observed_at: UnixMillis,
        source: TelemetrySource,
        now: UnixMillis,
        stale_after_ms: u64,
    ) -> (sample: Self)
        ensures
            samples_reading(sample, signal, raw, observed_at, source, now, stale_after_ms),
    {
        let spec: SignalSpec = signal_spec(signal);
        let (value, validity) = match raw {
            None => (None, SampleValidity::Missing),
            Some(v) => {
                if !v.is_finite() {
                    (None, SampleValidity::Invalid)
                } else if observed_at > now {
                    (Some(v), SampleValidity::Invalid)
                } else if v.lt(spec.min) || spec.max.lt(v) {
                    (Some(v), SampleValidity::Invalid)
                } else if now - observed_at >= stale_after_ms {
                    (Some(v), SampleValidity::Stale)
                } else {
                    (Some(v), SampleValidity::Valid)
                }
            },
        };
        TelemetrySample { signal, value, observed_at, source, validity, unit: spec.unit }
    }

    /// Model-input value. `None` unless this sample is valid.
    pub fn normalized(&self) -> (input: Option<Binary32>)
        ensures
            input == model_input(*self),
    {
        if self.validity != SampleValidity::Valid {
            return None;
        }
        match self.value {
            None => None,
            Some(v) => Some(signal_spec(self.signal).normalization.apply(v)),
        }
    }

    /// Re-evaluate future/stale validity at `now` without re-acquiring.
    ///
    /// Missing stays missing. Samples with no engineering value keep their
    /// validity, except that a future timestamp on a non-missing empty sample
    /// is invalid. Finite values are judged again as in [`Self::from_raw`].
    pub fn at_time(&self, now: UnixMillis) -> (sample: Self)
        ensures
            sample == rejudged(*self, now, self.signal.stale_after()),
    {
        self.at_time_with_stale(now, signal_spec(self.signal).stale_after_ms)
    }

    /// Like [`Self::at_time`] with the stale threshold of the frame's cadence.
    pub fn at_time_with_stale(&self, now: UnixMillis, stale_after_ms: u64) -> (sample: Self)
        ensures
            sample == rejudged(*self, now, stale_after_ms),
    {
        if self.value.is_none() {
            let mut same: TelemetrySample<Binary32> = *self;
            if self.validity != SampleValidity::Missing && self.observed_at > now {
                same.validity = SampleValidity::Invalid;
            }
            return same;
        }
        TelemetrySample::from_raw_with_stale(
            self.signal,
            self.value,
            self.observed_at,
            self.source,
            now,
            stale_after_ms,
        )
    }

    /// The sample as held since `received_at`: a valid sample older than
    /// `stale_after_ms` is stale, and nothing becomes valid again.
    pub fn held_at(&self, received_at: UnixMillis, now: UnixMillis, stale_after_ms: u64) -> (sample:
        Self)
        ensures
            sample == held(*self, received_at, now, stale_after_ms),
    {
        let mut sample: TelemetrySample<Binary32> = *self;
        if self.validity == SampleValidity::Valid && now.saturating_sub(received_at)
            >= stale_after_ms {
            sample.validity = SampleValidity::Stale;
        }
        sample
    }
}

/// Raw acquired readings before validation and normalization.
///
/// Every field is optional: absence means the sensor was not read. Acquisition
/// never writes `0.0` or a non-number as a stand-in for "no data".
#[derive(Debug, Clone, Copy, PartialEq, Eq)]
pub struct RawTelemetry {
    /// The producer's wall timestamp, if there is one.
    pub source_unix_ms: Option<UnixMillis>,
    /// Where that timestamp came from.
    pub timestamp_origin: TimestampOrigin,
    /// Acquisition path.
    pub source: TelemetrySource,
    /// GPU die temperature (°C).
    pub gpu_temp_c: Option<Binary32>,
    /// Video memory temperature (°C).
    pub vram_temp_c: Option<Binary32>,
    /// Board power (W).
    pub power_w: Option<Binary32>,
    /// Core voltage estimate (V).
    pub vddcr_gfx_v: Option<Binary32>,
    /// Graphics clock (MHz).
    pub gpu_clock_mhz: Option<Binary32>,
    /// Memory clock (MHz).
    pub mem_clock_mhz: Option<Binary32>,
    /// Fan speed (%).
    pub fan_speed_pct: Option<Binary32>,
    /// Memory utilization (%).
    pub mem_util_pct: Option<Binary32>,
}

impl RawTelemetry {
    /// Raw reading of a signal.
    pub open spec fn reading(self, id: SignalId) -> Option<Binary32> {
        match id {
            SignalId::GpuTempC => self.gpu_temp_c,
            SignalId::VramTempC => self.vram_temp_c,
            SignalId::PowerW => self.power_w,
            SignalId::VddcrGfxV => self.vddcr_gfx_v,
            SignalId::GpuClockMhz => self.gpu_clock_mhz,
            SignalId::MemClockMhz => self.mem_clock_mhz,
            SignalId::FanSpeedPct => self.fan_speed_pct,
            SignalId::MemUtilPct => self.mem_util_pct,
        }
    }

    /// Documented software-only idle estimates with explicit provenance.
    pub open spec fn idle_estimates(observed_at: UnixMillis) -> RawTelemetry {
        RawTelemetry {
            source_unix_ms: Some(observed_at),
            timestamp_origin: TimestampOrigin::Simulated,
            source: TelemetrySource::SoftwareFallback,
            gpu_temp_c: Some(Binary32 { bits: software_fallback::GPU_TEMP_C }),
            vram_temp_c: None,
            power_w: Some(Binary32 { bits: software_fallback::POWER_W }),
            vddcr_gfx_v: Some(Binary32 { bits: software_fallback::VDDCR_GFX_V }),
            gpu_clock_mhz: Some(Binary32 { bits: software_fallback::GPU_CLOCK_MHZ }),
            mem_clock_mhz: Some(Binary32 { bits: software_fallback::MEM_CLOCK_MHZ }),
            fan_speed_pct: Some(Binary32 { bits: software_fallback::FAN_SPEED_PCT }),
            mem_util_pct: Some(Binary32 { bits: software_fallback::MEM_UTIL_PCT }),
        }
    }

    /// Every channel missing because the device could not be read.
    pub open spec fn unavailable(observed_at: UnixMillis) -> RawTelemetry {
        RawTelemetry {
            source_unix_ms: Some(observed_at),
            timestamp_origin: TimestampOrigin::LiveAcquire,
            source: TelemetrySource::NvmlUnavailable,
            gpu_temp_c: None,
            vram_temp_c: None,
            power_w: None,
            vddcr_gfx_v: None,
            gpu_clock_mhz: None,
            mem_clock_mhz: None,
            fan_speed_pct: None,
            mem_util_pct: None,
        }
    }

    /// Documented software-only idle estimates with explicit provenance.
    pub fn software_fallback(observed_at: UnixMillis) -> (raw: Self)
        ensures
            raw == RawTelemetry::idle_estimates(observed_at),
    {
        RawTelemetry {
            source_unix_ms: Some(observed_at),
            timestamp_origin: TimestampOrigin::Simulated,
            source: TelemetrySource::SoftwareFallback,
            gpu_temp_c: Some(Binary32 { bits: software_fallback::GPU_TEMP_C }),
            vram_temp_c: None,
            power_w: Some(Binary32 { bits: software_fallback::POWER_W }),
            vddcr_gfx_v: Some(Binary32 { bits: software_fallback::VDDCR_GFX_V }),
            gpu_clock_mhz: Some(Binary32 { bits: software_fallback::GPU_CLOCK_MHZ }),
            mem_clock_mhz: Some(Binary32 { bits: software_fallback::MEM_CLOCK_MHZ }),
            fan_speed_pct: Some(Binary32 { bits: software_fallback::FAN_SPEED_PCT }),
            mem_util_pct: Some(Binary32 { bits: software_fallback::MEM_UTIL_PCT }),
        }
    }

    /// NVML/driver unavailable: every channel missing, no idle estimates.
    pub fn nvml_unavailable(observed_at: UnixMillis) -> (raw: Self)
        ensures
            raw == RawTelemetry::unavailable(observed_at),
    {
        RawTelemetry {
            source_unix_ms: Some(observed_at),
            timestamp_origin: TimestampOrigin::LiveAcquire,
            source: TelemetrySource::NvmlUnavailable,
            gpu_temp_c: None,
            vram_temp_c: None,
            power_w: None,
            vddcr_gfx_v: None,
            gpu_clock_mhz: None,
            mem_clock_mhz: None,
            fan_speed_pct: None,
            mem_util_pct: None,
        }
    }

    fn value(&self, id: SignalId) -> (reading: Option<Binary32>)
        ensures
            reading == self.reading(id),
    {
        match id {
            SignalId::GpuTempC => self.gpu_temp_c,
            SignalId::VramTempC => self.vram_temp_c,
            SignalId::PowerW => self.power_w,
            SignalId::VddcrGfxV => self.vddcr_gfx_v,
            SignalId::GpuClockMhz => self.gpu_clock_mhz,
            SignalId::MemClockMhz => self.mem_clock_mhz,
            SignalId::FanSpeedPct => self.fan_speed_pct,
            SignalId::MemUtilPct => self.mem_util_pct,
        }
    }
}

/// Stale threshold of a signal at an acquisition cadence: two complete
/// safety-evaluation periods for safety signals, limited to what fits, and a
/// fixed time for the others.
pub open spec fn stale_threshold(signal: SignalId, cadence_ms: u64) -> u64 {
    if signal.class().safety() {
        if 2 * SAFETY_EVAL_TICKS * cadence_ms > u64::MAX {
            u64::MAX
        } else {
            (2 * SAFETY_EVAL_TICKS * cadence_ms) as u64
        }
    } else {
        OBSERVABILITY_STALE_AFTER_MS
    }
}

/// Stale threshold of a signal at an acquisition cadence.
pub fn stale_after_ms(signal: SignalId, cadence_ms: u64) -> (limit: u64)
    ensures
        limit == stale_threshold(signal, cadence_ms),
{
    if signal_spec(signal).class.includes_safety() {
        match cadence_ms.checked_mul(2 * SAFETY_EVAL_TICKS) {
            Some(limit) => limit,
            None => u64::MAX,
        }
    } else {
        OBSERVABILITY_STALE_AFTER_MS
    }
}

/// Validated frame: per-signal samples plus frame-level provenance.
///
/// `batch_id` is the monotonic sample sequence, `source_unix_ms` the original
/// wall time, `acquired_at` / `received_at_unix_ms` the receive time, which is
/// the freshness basis.
#[derive(Debug, PartialEq, Eq)]
pub struct TelemetryFrame {
    /// Session that stamped the frame.
    pub session_id: String,
    /// Position in the session's sequence.
    pub batch_id: u64,
    /// Original source wall time, if any.
    pub source_unix_ms: Option<UnixMillis>,
    /// Receive/assess time.
    pub received_at_unix_ms: UnixMillis,
    /// Where the source timestamp came from.
    pub timestamp_origin: TimestampOrigin,
    /// Classification of the source timestamp.
    pub source_time_status: SourceTimeStatus,
    /// Receive/assess time. Freshness uses this, not source wall time.
    pub acquired_at: UnixMillis,
    /// Acquisition path.
    pub source: TelemetrySource,
    /// Actual supervisor acquisition interval.
    pub acquisition_cadence_ms: u64,
    /// GPU die temperature.
    pub gpu_temp_c: TelemetrySample<Binary32>,
    /// Video memory temperature.
    pub vram_temp_c: TelemetrySample<Binary32>,
    /// Board power.
    pub power_w: TelemetrySample<Binary32>,
    /// Core voltage estimate.
    pub vddcr_gfx_v: TelemetrySample<Binary32>,
    /// Graphics clock.
    pub gpu_clock_mhz: TelemetrySample<Binary32>,
    /// Memory clock.
    pub mem_clock_mhz: TelemetrySample<Binary32>,
    /// Fan speed.
    pub fan_speed_pct: TelemetrySample<Binary32>,
    /// Memory utilization.
    pub mem_util_pct: TelemetrySample<Binary32>,
}

impl Clone for TelemetryFrame {
    fn clone(&self) -> (copy: Self)
        ensures
            copy == *self,
    {
        TelemetryFrame {
            session_id: self.session_id.clone(),
            batch_id: self.batch_id,
            source_unix_ms: self.source_unix_ms,
            received_at_unix_ms: self.received_at_unix_ms,
            timestamp_origin: self.timestamp_origin,
            source_time_status: self.source_time_status,
            acquired_at: self.acquired_at,
            source: self.source,
            acquisition_cadence_ms: self.acquisition_cadence_ms,
            gpu_temp_c: self.gpu_temp_c,
            vram_temp_c: self.vram_temp_c,
            power_w: self.power_w,
            vddcr_gfx_v: self.vddcr_gfx_v,
            gpu_clock_mhz: self.gpu_clock_mhz,
            mem_clock_mhz: self.mem_clock_mhz,
            fan_speed_pct: self.fan_speed_pct,
            mem_util_pct: self.mem_util_pct,
        }
    }
}

/// Cadence recorded on a frame: at least one millisecond.
pub open spec fn recorded_cadence(cadence_ms: u64) -> u64 {
    if cadence_ms == 0 {
        1
    } else {
        cadence_ms
    }
}

/// Whether `frame` is the assessment of `raw` at `now`, stamped by a clock in
/// state `clock`.
pub open spec fn assesses(
    frame: TelemetryFrame,
    raw: RawTelemetry,
    now: UnixMillis,
    cadence_ms: u64,
    clock: time::ClockState,
) -> bool {
    &&& time::stamped(frame.timing_view(), clock, raw.source_unix_ms, now, raw.timestamp_origin)
    &&& frame.acquired_at == now
    &&& frame.source == raw.source
    &&& frame.acquisition_cadence_ms == recorded_cadence(cadence_ms)
    &&& forall|id: SignalId|
        samples_reading(
            #[trigger] frame.sample(id),
            id,
            raw.reading(id),
            match raw.source_unix_ms {
                Some(at) => at,
                None => now,
            },
            raw.source,
            now,
            stale_threshold(id, recorded_cadence(cadence_ms)),
        )
}

impl TelemetryFrame {
    /// Sample of a signal.
    pub open spec fn sample(self, id: SignalId) -> TelemetrySample<Binary32> {
        match id {
            SignalId::GpuTempC => self.gpu_temp_c,
            SignalId::VramTempC => self.vram_temp_c,
            SignalId::PowerW => self.power_w,
            SignalId::VddcrGfxV => self.vddcr_gfx_v,
            SignalId::GpuClockMhz => self.gpu_clock_mhz,
            SignalId::MemClockMhz => self.mem_clock_mhz,
            SignalId::FanSpeedPct => self.fan_speed_pct,
            SignalId::MemUtilPct => self.mem_util_pct,
        }
    }

    /// Frame-level timing.
    pub open spec fn timing_view(self) -> FrameTiming {
        FrameTiming {
            session_id: self.session_id,
            batch_id: self.batch_id,
            source_unix_ms: self.source_unix_ms,
            received_at_unix_ms: self.received_at_unix_ms,
            timestamp_origin: self.timestamp_origin,
            source_time_status: self.source_time_status,
        }
    }

    /// Validate and stamp every raw channel at the default cadence, in a new
    /// session made from `seed`.
    pub fn from_raw(raw: &RawTelemetry, now: UnixMillis, seed: SessionSeed) -> (frame: Self)
        ensures
            assesses(
                frame,
                *raw,
                now,
                DEFAULT_ACQUISITION_CADENCE_MS,
                time::fresh_session(seed),
            ),
    {
        TelemetryFrame::from_raw_with_cadence(raw, now, DEFAULT_ACQUISITION_CADENCE_MS, seed)
    }

    /// Like [`Self::from_raw`] but records the configured acquisition interval.
    pub fn from_raw_with_cadence(
        raw: &RawTelemetry,
        now: UnixMillis,
        cadence_ms: u64,
        seed: SessionSeed,
    ) -> (frame: Self)
        ensures
            assesses(frame, *raw, now, cadence_ms, time::fresh_session(seed)),
    {
        let mut clock: SampleClock = SampleClock::new(seed);
        TelemetryFrame::from_raw_with_clock(raw, now, cadence_ms, &mut clock)
    }

    /// Validate, record cadence, and stamp from a shared session clock.
    ///
    /// Live collectors, software fallback, and CSV/replay share one clock so
    /// that `batch_id` is strictly increasing within one relay session.
    pub fn from_raw_with_clock(
        raw: &RawTelemetry,
        now: UnixMillis,
        cadence_ms: u64,
        clock: &mut SampleClock,
    ) -> (frame: Self)
        requires
            old(clock)@.next < u64::MAX,
        ensures
            assesses(frame, *raw, now, cadence_ms, old(clock)@),
            final(clock)@ == time::advanced(old(clock)@, raw.source_unix_ms),
    {
        let timing: FrameTiming = clock.stamp(raw.source_unix_ms, now, raw.timestamp_origin);
        let observed_at: UnixMillis = match raw.source_unix_ms {
            Some(at) => at,
            None => now,
        };
        let cadence: u64 = if cadence_ms == 0 {
            1
        } else {
            cadence_ms
        };
        TelemetryFrame {
            session_id: timing.session_id,
            batch_id: timing.batch_id,
            source_unix_ms: timing.source_unix_ms,
            received_at_unix_ms: timing.received_at_unix_ms,
            timestamp_origin: timing.timestamp_origin,
            source_time_status: timing.source_time_status,
            acquired_at: timing.received_at_unix_ms,
            source: raw.source,
            acquisition_cadence_ms: cadence,
            gpu_temp_c: assess_signal(SignalId::GpuTempC, raw, observed_at, now, cadence),
            vram_temp_c: assess_signal(SignalId::VramTempC, raw, observed_at, now, cadence),
            power_w: assess_signal(SignalId::PowerW, raw, observed_at, now, cadence),
            vddcr_gfx_v: assess_signal(SignalId::VddcrGfxV, raw, observed_at, now, cadence),
            gpu_clock_mhz: assess_signal(SignalId::GpuClockMhz, raw, observed_at, now, cadence),
            mem_clock_mhz: assess_signal(SignalId::MemClockMhz, raw, observed_at, now, cadence),
            fan_speed_pct: assess_signal(SignalId::FanSpeedPct, raw, observed_at, now, cadence),
            mem_util_pct: assess_signal(SignalId::MemUtilPct, raw, observed_at, now, cadence),
        }
    }

    /// Frame-level timing.
    pub fn timing(&self) -> (timing: FrameTiming)
        ensures
            timing == self.timing_view(),
    {
        FrameTiming {
            session_id: self.session_id.clone(),
            batch_id: self.batch_id,
            source_unix_ms: self.source_unix_ms,
            received_at_unix_ms: self.received_at_unix_ms,
            timestamp_origin: self.timestamp_origin,
            source_time_status: self.source_time_status,
        }
    }

    /// All samples in inventory order (observability-only ones too).
    pub fn samples(&self) -> (samples: [&TelemetrySample<Binary32>; 8])
        ensures
            forall|i: int| 0 <= i < 8 ==> *(#[trigger] samples@[i]) == self.sample(ALL_SIGNALS@[i]),
    {
        [
            &self.gpu_temp_c,
            &self.vram_temp_c,
            &self.power_w,
            &self.vddcr_gfx_v,
            &self.gpu_clock_mhz,
            &self.mem_clock_mhz,
            &self.fan_speed_pct,
            &self.mem_util_pct,
        ]
    }
}

fn assess_signal(
    signal: SignalId,
    raw: &RawTelemetry,
    observed_at: UnixMillis,
    now: UnixMillis,
    cadence_ms: u64,
) -> (sample: TelemetrySample<Binary32>)
    ensures
        samples_reading(
            sample,
            signal,
            raw.reading(signal),
            observed_at,
            raw.source,
            now,
            stale_threshold(signal, cadence_ms),
        ),
{
    TelemetrySample::from_raw_with_stale(
        signal,
        raw.value(signal),
        observed_at,
        raw.source,
        now,
        stale_after_ms(signal, cadence_ms),
    )
}

/// Validate raw acquisition into a [`TelemetryFrame`], in a new session.
pub fn assess(raw: &RawTelemetry, now: UnixMillis, seed: SessionSeed) -> (frame: TelemetryFrame)
    ensures
        assesses(
            frame,
            *raw,
            now,
            DEFAULT_ACQUISITION_CADENCE_MS,
            time::fresh_session(seed),
        ),
{
    TelemetryFrame::from_raw(raw, now, seed)
}

/// Validate raw acquisition and record the configured acquisition cadence.
pub fn assess_with_cadence(
    raw: &RawTelemetry,
    now: UnixMillis,
    cadence_ms: u64,
    seed: SessionSeed,
) -> (frame: TelemetryFrame)
    ensures
        assesses(frame, *raw, now, cadence_ms, time::fresh_session(seed)),
{
    TelemetryFrame::from_raw_with_cadence(raw, now, cadence_ms, seed)
}

/// Validate raw acquisition through a shared [`SampleClock`].
pub fn assess_with_clock(
    raw: &RawTelemetry,
    now: UnixMillis,
    cadence_ms: u64,
    clock: &mut SampleClock,
) -> (frame: TelemetryFrame)
    requires
        old(clock)@.next < u64::MAX,
    ensures
        assesses(frame, *raw, now, cadence_ms, old(clock)@),
        final(clock)@ == time::advanced(old(clock)@, raw.source_unix_ms),
{
    TelemetryFrame::from_raw_with_clock(raw, now, cadence_ms, clock)
}

} // verus!
