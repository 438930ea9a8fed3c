//! Stateless classification of one frame against safety limits.

use crate::binary32;
use crate::binary32::convert;
use crate::binary32::Binary32;
use crate::safety::limits::{FreshnessLimits, SafetyLimits};
use crate::telemetry;
use crate::telemetry::{
    SampleValidity, SignalId, TelemetryFrame, TelemetrySample, TelemetrySource,
};
use crate::text::push_text;
use vstd::prelude::*;

verus! {

/// Instantaneous Ok / Warn / Critical for logs and [`instant_status`].
///
/// Missing, invalid, and stale safety samples are critical (fail closed).
/// Simulated software-only frames are Ok: there is no real GPU to protect.
#[derive(Debug, PartialEq, Eq)]
pub enum SafetyStatus {
    /// Safety samples present and below warn thresholds (or software fallback).
    Okay,
    /// Thermal or power warn band; reason is human-readable.
    Warn(String),
    /// Fail-closed or critical thermal/power; reason is human-readable.
    Critical(String),
}

impl Clone for SafetyStatus {
    fn clone(&self) -> (copy: Self)
        ensures
            copy == *self,
    {
        match self {
            SafetyStatus::Okay => SafetyStatus::Okay,
            SafetyStatus::Warn(reason) => SafetyStatus::Warn(reason.clone()),
            SafetyStatus::Critical(reason) => SafetyStatus::Critical(reason.clone()),
        }
    }
}

/// Stateless classification of one frame (no hysteresis, no actuator).
#[derive(Debug, Clone, Copy, PartialEq, Eq, Structural)]
pub enum AssessmentKind {
    /// Software fallback; skips thresholds.
    Simulated,
    /// Safety-critical sample missing, or no power policy.
    Missing,
    /// Safety-critical sample non-finite or out of engineering range.
    Invalid,
    /// Safety-critical sample too old.
    Stale,
    /// Valid samples above critical thermal/power limits.
    Critical,
    /// Valid samples in the warn band.
    Warn,
    /// Valid samples below warn thresholds.
    Okay,
}

impl AssessmentKind {
    /// Whether this kind is a fault of the telemetry itself.
    pub open spec fn faulty(self) -> bool {
        self == AssessmentKind::Missing || self == AssessmentKind::Invalid || self
            == AssessmentKind::Stale
    }
}

/// Frame assessment with a human-readable reason for logs/metrics.
#[derive(Debug, PartialEq, Eq)]
pub struct FrameAssessment {
    /// Stateless kind (no hysteresis).
    pub kind: AssessmentKind,
    /// Human-readable reason suitable for logs and metrics.
    pub reason: String,
}

impl Clone for FrameAssessment {
    fn clone(&self) -> (copy: Self)
        ensures
            copy == *self,
    {
        FrameAssessment { kind: self.kind, reason: self.reason.clone() }
    }
}

/// Fault of a safety sample, if it has one. A valid sample without a value
/// counts as missing.
pub open spec fn fault(sample: TelemetrySample<Binary32>) -> Option<AssessmentKind> {
    match sample.validity {
        SampleValidity::Valid => if sample.value is None {
            Some(AssessmentKind::Missing)
        } else {
            None
        },
        SampleValidity::Stale => Some(AssessmentKind::Stale),
        SampleValidity::Invalid => Some(AssessmentKind::Invalid),
        SampleValidity::Missing => Some(AssessmentKind::Missing),
    }
}

/// Severity of a fault: missing, then invalid, then stale.
pub open spec fn severity(kind: AssessmentKind) -> int {
    match kind {
        AssessmentKind::Missing => 3,
        AssessmentKind::Invalid => 2,
        _ => 1,
    }
}

/// The worst fault of the safety samples and its signal; equal severity
/// prefers the temperature.
pub open spec fn worst_fault(frame: TelemetryFrame) -> Option<(AssessmentKind, SignalId)> {
    match (fault(frame.gpu_temp_c), fault(frame.power_w)) {
        (None, None) => None,
        (Some(t), None) => Some((t, SignalId::GpuTempC)),
        (None, Some(p)) => Some((p, SignalId::PowerW)),
        (Some(t), Some(p)) => if severity(t) >= severity(p) {
            Some((t, SignalId::GpuTempC))
        } else {
            Some((p, SignalId::PowerW))
        },
    }
}

/// Word for a fault.
pub open spec fn fault_word(kind: AssessmentKind) -> Seq<char> {
    match kind {
        AssessmentKind::Missing => "missing"@,
        AssessmentKind::Invalid => "invalid"@,
        _ => "stale"@,
    }
}

/// Reason of a fault of a signal.
pub open spec fn fault_reason(signal: SignalId, kind: AssessmentKind) -> Seq<char> {
    "Invalid telemetry: "@ + signal.spec_name() + " "@ + fault_word(kind)
}

/// Age of a sample when its frame was assessed.
pub open spec fn age(frame: TelemetryFrame, sample: TelemetrySample<Binary32>) -> int {
    telemetry::elapsed(sample.observed_at, frame.acquired_at)
}

/// Reason why fault-free samples are too old for the freshness bounds, if so.
pub open spec fn stale_reason(frame: TelemetryFrame, freshness: Option<FreshnessLimits>) -> Option<
    Seq<char>,
> {
    match freshness {
        None => None,
        Some(bounds) => if frame.acquisition_cadence_ms > bounds.max_acquisition_interval_ms {
            Some("Invalid telemetry: acquisition interval exceeds safety policy"@)
        } else if age(frame, frame.gpu_temp_c) >= bounds.max_sample_age_ms {
            Some(fault_reason(SignalId::GpuTempC, AssessmentKind::Stale))
        } else if age(frame, frame.power_w) >= bounds.max_sample_age_ms {
            Some(fault_reason(SignalId::PowerW, AssessmentKind::Stale))
        } else {
            None
        },
    }
}

/// Kind and reason of fault-free, fresh readings under the thresholds. Critical
/// wins over warning, temperature over power.
pub open spec fn threshold_assessment(
    temp: Binary32,
    power: Binary32,
    limits: SafetyLimits,
    power_warn: Binary32,
    power_critical: Binary32,
) -> (AssessmentKind, Seq<char>) {
    if limits.temp_critical_c.below(temp) {
        (
            AssessmentKind::Critical,
            "GPU thermal: "@ + convert::whole_text(temp) + "°C exceeds "@ + convert::whole_text(
                limits.temp_critical_c,
            ) + "°C"@,
        )
    } else if power_critical.below(power) {
        (
            AssessmentKind::Critical,
            "GPU power: "@ + convert::whole_text(power) + "W exceeds "@ + convert::whole_text(
                power_critical,
            ) + "W safety limit"@,
        )
    } else if limits.temp_warn_c.at_most(temp) {
        (
            AssessmentKind::Warn,
            "GPU thermal: "@ + convert::whole_text(temp) + "°C approaching "@
                + convert::whole_text(limits.temp_critical_c) + "°C limit"@,
        )
    } else if power_warn.at_most(power) {
        (
            AssessmentKind::Warn,
            "GPU power: "@ + convert::whole_text(power) + "W approaching safety limit"@,
        )
    } else {
        (AssessmentKind::Okay, "healthy real telemetry"@)
    }
}

/// Kind and reason of a frame under the limits.
pub open spec fn assessment(frame: TelemetryFrame, limits: SafetyLimits) -> (
    AssessmentKind,
    Seq<char>,
) {
    if frame.source == TelemetrySource::SoftwareFallback {
        (AssessmentKind::Simulated, "telemetry source is SoftwareFallback"@)
    } else {
        match worst_fault(frame) {
            Some((kind, signal)) => (kind, fault_reason(signal, kind)),
            None => match stale_reason(frame, limits.freshness) {
                Some(reason) => (AssessmentKind::Stale, reason),
                None => match limits.power_w {
                    None => (
                        AssessmentKind::Missing,
                        "Invalid telemetry: power policy unavailable"@,
                    ),
                    Some((warn, critical)) => threshold_assessment(
                        frame.gpu_temp_c.value->0,
                        frame.power_w.value->0,
                        limits,
                        warn,
                        critical,
                    ),
                },
            },
        }
    }
}

impl FrameAssessment {
    /// Whether this assessment is the given kind and reason.
    pub open spec fn is(self, expected: (AssessmentKind, Seq<char>)) -> bool {
        self.kind == expected.0 && self.reason@ == expected.1
    }
}

fn sample_fault(sample: &TelemetrySample<Binary32>) -> (kind: Option<AssessmentKind>)
    ensures
        kind == fault(*sample),
{
    match sample.validity {
        SampleValidity::Valid => if sample.value.is_none() {
            Some(AssessmentKind::Missing)
        } else {
            None
        },
        SampleValidity::Stale => Some(AssessmentKind::Stale),
        SampleValidity::Invalid => Some(AssessmentKind::Invalid),
        SampleValidity::Missing => Some(AssessmentKind::Missing),
    }
}

fn fault_rank(kind: AssessmentKind) -> (rank: u8)
    ensures
        rank == severity(kind),
{
    match kind {
        AssessmentKind::Missing => 3,
        AssessmentKind::Invalid => 2,
        _ => 1,
    }
}

fn fault_assessment(signal: SignalId, kind: AssessmentKind) -> (found: FrameAssessment)
    requires
        kind.faulty(),
    ensures
        found.is((kind, fault_reason(signal, kind))),
{
    let mut reason: String = String::new();
    push_text(&mut reason, "Invalid telemetry: ");
    push_text(&mut reason, signal.name());
    push_text(&mut reason, " ");
    push_text(
        &mut reason,
        match kind {
            AssessmentKind::Missing => "missing",
            AssessmentKind::Invalid => "invalid",
            _ => "stale",
        },
    );
    proof {
        assert(reason@ =~= fault_reason(signal, kind));
    }
    FrameAssessment { kind, reason }
}

fn worst_safety_fault(frame: &TelemetryFrame) -> (found: Option<FrameAssessment>)
    ensures
        match found {
            None => worst_fault(*frame) is None,
            Some(f) => worst_fault(*frame) matches Some((kind, signal)) && f.is(
                (kind, fault_reason(signal, kind)),
            ),
        },
{
    let temp: Option<AssessmentKind> = sample_fault(&frame.gpu_temp_c);
    let power: Option<AssessmentKind> = sample_fault(&frame.power_w);
    match (temp, power) {
        (None, None) => None,
        (Some(t), None) => Some(fault_assessment(SignalId::GpuTempC, t)),
        (None, Some(p)) => Some(fault_assessment(SignalId::PowerW, p)),
        (Some(t), Some(p)) => if fault_rank(t) >= fault_rank(p) {
            Some(fault_assessment(SignalId::GpuTempC, t))
        } else {
            Some(fault_assessment(SignalId::PowerW, p))
        },
    }
}

fn policy_staleness(frame: &TelemetryFrame, bounds: &FreshnessLimits) -> (found: Option<
    FrameAssessment,
>)
    ensures
        match found {
            None => stale_reason(*frame, Some(*bounds)) is None,
            Some(f) => stale_reason(*frame, Some(*bounds)) matches Some(reason) && f.is(
                (AssessmentKind::Stale, reason),
            ),
        },
{
    if frame.acquisition_cadence_ms > bounds.max_acquisition_interval_ms {
        return Some(
            FrameAssessment {
                kind: AssessmentKind::Stale,
                reason: "Invalid telemetry: acquisition interval exceeds safety policy".to_owned(),
            },
        );
    }
    if frame.acquired_at.saturating_sub(frame.gpu_temp_c.observed_at)
        >= bounds.max_sample_age_ms {
        return Some(fault_assessment(SignalId::GpuTempC, AssessmentKind::Stale));
    }
    if frame.acquired_at.saturating_sub(frame.power_w.observed_at) >= bounds.max_sample_age_ms {
        return Some(fault_assessment(SignalId::PowerW, AssessmentKind::Stale));
    }
    None
}

/// A number at or above a positive one is a positive number.
proof fn lemma_positive(floor: Binary32, value: Binary32)
    requires
        !floor.nan(),
        floor.units() > 0,
        floor.at_most(value),
    ensures
        !value.nan(),
        !value.negative(),
        !floor.negative(),
{
    binary32::lemma_units_signs(floor);
    binary32::lemma_units_signs(value);
}

/// A measured value against a limit, in words.
fn comparison(
    what: &str,
    value: Binary32,
    relation: &str,
    limit: Option<Binary32>,
    ending: &str,
) -> (reason: String)
    requires
        !value.nan(),
        !value.negative(),
        limit matches Some(l) ==> !l.nan() && !l.negative(),
    ensures
        limit matches Some(l) ==> reason@ == what@ + convert::whole_text(value) + relation@
            + convert::whole_text(l) + ending@,
        limit is None ==> reason@ == what@ + convert::whole_text(value) + relation@,
{
    let mut reason: String = String::new();
    push_text(&mut reason, what);
    value.push_whole(&mut reason);
    push_text(&mut reason, relation);
    if let Some(l) = limit {
        l.push_whole(&mut reason);
        push_text(&mut reason, ending);
        proof {
            assert(reason@ =~= what@ + convert::whole_text(value) + relation@
                + convert::whole_text(l) + ending@);
        }
    } else {
        proof {
            assert(reason@ =~= what@ + convert::whole_text(value) + relation@);
        }
    }
    reason
}

fn assess_thresholds(
    temp: Binary32,
    power: Binary32,
    limits: &SafetyLimits,
    power_warn: Binary32,
    power_critical: Binary32,
) -> (found: FrameAssessment)
    requires
        limits.usable(),
        limits.power_w == Some((power_warn, power_critical)),
    ensures
        found.is(threshold_assessment(temp, power, *limits, power_warn, power_critical)),
{
    if limits.temp_critical_c.lt(temp) {
        proof {
            lemma_positive(limits.temp_critical_c, temp);
        }
        return FrameAssessment {
            kind: AssessmentKind::Critical,
            reason: comparison(
                "GPU thermal: ",
                temp,
                "°C exceeds ",
                Some(limits.temp_critical_c),
                "°C",
            ),
        };
    }
    if power_critical.lt(power) {
        proof {
            lemma_positive(power_critical, power);
        }
        return FrameAssessment {
            kind: AssessmentKind::Critical,
            reason: comparison(
                "GPU power: ",
                power,
                "W exceeds ",
                Some(power_critical),
                "W safety limit",
            ),
        };
    }
    if limits.temp_warn_c.le(temp) {
        proof {
            lemma_positive(limits.temp_warn_c, temp);
            lemma_positive(limits.temp_critical_c, limits.temp_critical_c);
        }
        return FrameAssessment {
            kind: AssessmentKind::Warn,
            reason: comparison(
                "GPU thermal: ",
                temp,
                "°C approaching ",
                Some(limits.temp_critical_c),
                "°C limit",
            ),
        };
    }
    if power_warn.le(power) {
        proof {
            lemma_positive(power_warn, power);
        }
        return FrameAssessment {
            kind: AssessmentKind::Warn,
            reason: comparison("GPU power: ", power, "W approaching safety limit", None, ""),
        };
    }
    FrameAssessment { kind: AssessmentKind::Okay, reason: "healthy real telemetry".to_owned() }
}

/// Classify a frame under the given limits. Simulation is provenance-only.
pub fn classify_frame_with(frame: &TelemetryFrame, limits: &SafetyLimits) -> (found: FrameAssessment)
    requires
        limits.usable(),
    ensures
        found.is(assessment(*frame, *limits)),
{
    if frame.source == TelemetrySource::SoftwareFallback {
        return FrameAssessment {
            kind: AssessmentKind::Simulated,
            reason: "telemetry source is SoftwareFallback".to_owned(),
        };
    }
    if let Some(found) = worst_safety_fault(frame) {
        return found;
    }
    if let Some(bounds) = &limits.freshness {
        if let Some(found) = policy_staleness(frame, bounds) {
            return found;
        }
    }
    match (limits.power_w, frame.gpu_temp_c.value, frame.power_w.value) {
        (Some((warn, critical)), Some(temp), Some(power)) => assess_thresholds(
            temp,
            power,
            limits,
            warn,
            critical,
        ),
        _ => FrameAssessment {
            kind: AssessmentKind::Missing,
            reason: "Invalid telemetry: power policy unavailable".to_owned(),
        },
    }
}

/// Classify a frame without hysteresis under the documented thresholds.
pub fn classify_frame(frame: &TelemetryFrame) -> (found: FrameAssessment)
    ensures
        found.is(assessment(*frame, SafetyLimits::documented())),
{
    classify_frame_with(frame, &SafetyLimits::default_limits())
}

/// Whether `status` is the instantaneous status of an assessment: simulated and
/// healthy frames are Ok, warnings are warnings, and everything else is
/// critical; the reason is that of the assessment.
pub open spec fn states(status: (SafetyStatus, bool), found: (AssessmentKind, Seq<char>)) -> bool {
    &&& status.1 == (found.0 == AssessmentKind::Simulated)
    &&& match found.0 {
        AssessmentKind::Simulated | AssessmentKind::Okay => status.0 is Okay,
        AssessmentKind::Warn => status.0 matches SafetyStatus::Warn(text) && text@ == found.1,
        _ => status.0 matches SafetyStatus::Critical(text) && text@ == found.1,
    }
}

/// Instantaneous status (no hysteresis) and whether the frame is simulated.
/// Same classification as [`classify_frame`].
pub fn instant_status(frame: &TelemetryFrame) -> (status: (SafetyStatus, bool))
    ensures
        states(status, assessment(*frame, SafetyLimits::documented())),
{
    let found: FrameAssessment = classify_frame(frame);
    match found.kind {
        AssessmentKind::Simulated => (SafetyStatus::Okay, true),
        AssessmentKind::Missing
        | AssessmentKind::Invalid
        | AssessmentKind::Stale
        | AssessmentKind::Critical => (SafetyStatus::Critical(found.reason), false),
        AssessmentKind::Warn => (SafetyStatus::Warn(found.reason), false),
        AssessmentKind::Okay => (SafetyStatus::Okay, false),
    }
}

} // verus!
