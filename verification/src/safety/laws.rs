//! What holds of safety policy and the safety machine as a whole.

use crate::binary32;
use crate::binary32::arithmetic;
use crate::binary32::convert;
use crate::binary32::laws;
use crate::binary32::Binary32;
use crate::safety::actuator::{ActuatorError, BrakeMatch, FakeActuator, SafetyActuator};
use crate::safety::brake;
use crate::safety::brake::{LimitCommand, PowerLimitObservation};
use crate::safety::classify;
use crate::safety::classify::{AssessmentKind, FrameAssessment, SafetyStatus};
use crate::safety::limits::{
    SafetyLimits, BRAKE_FRACTION, POWER_CRITICAL_W, POWER_WARN_W, TEMP_CRITICAL_C, TEMP_WARN_C,
};
use crate::safety::machine;
use crate::safety::machine::{
    ActuatorOutcome, BrakeIntent, MachineState, SafetyMachine, SafetySnapshot, SafetyState,
};
use crate::safety::policy;
use crate::safety::policy::{PolicyError, SafetyPolicy, SafetyPolicyConfig};
use crate::telemetry::{
    SampleValidity, SignalId, TelemetryFrame, TelemetrySample, TelemetrySource,
    SAFETY_STALE_AFTER_MS,
};
use vstd::arithmetic::power2::*;
use vstd::prelude::*;

verus! {

/// What a frame is assessed as: its kind and the reason.
pub type Found = (AssessmentKind, Seq<char>);

/// The command that evaluating a frame assessed as `kind` asks for.
pub open spec fn asked(m: MachineState, kind: AssessmentKind) -> BrakeIntent {
    machine::intent(m.desired_for(kind), m.brake_engaged)
}

/// Simulated telemetry never asks for a command: an engaged brake is held, a
/// released one stays released, and the release streak starts over.
pub proof fn lemma_simulated_changes_no_brake(m: MachineState, frame: TelemetryFrame)
    requires
        frame.source == TelemetrySource::SoftwareFallback,
    ensures
        ({
            let found = classify::assessment(frame, m.limits);
            &&& asked(m, found.0) == BrakeIntent::NoChange
            &&& m.evaluated(found).brake_engaged == m.brake_engaged
            &&& m.evaluated(found).ok_count == 0
            &&& m.evaluated(found).policy_state == SafetyState::SimulatedSoftwareOnly
        }),
{
}

/// Missing, invalid, stale and critical telemetry wants the brake on: it is
/// applied if it is off and held if it is on.
pub proof fn lemma_faults_fail_closed(m: MachineState, kind: AssessmentKind)
    requires
        kind.faulty() || kind == AssessmentKind::Critical,
    ensures
        m.desired_for(kind),
        asked(m, kind) == (if m.brake_engaged {
            BrakeIntent::NoChange
        } else {
            BrakeIntent::Apply
        }),
{
}

/// A faulty safety sample of a real frame is never classified as healthy,
/// warning or critical.
pub proof fn lemma_faulty_samples_are_faults(frame: TelemetryFrame, limits: SafetyLimits)
    requires
        frame.source != TelemetrySource::SoftwareFallback,
        classify::fault(frame.gpu_temp_c) is Some || classify::fault(frame.power_w) is Some,
    ensures
        classify::assessment(frame, limits).0.faulty(),
{
}

/// Without a power policy no real frame is healthy: it fails closed, so it can
/// neither be reported healthy nor authorize a release.
pub proof fn lemma_no_power_policy_fails_closed(
    m: MachineState,
    frame: TelemetryFrame,
)
    requires
        m.limits.power_w is None,
        frame.source != TelemetrySource::SoftwareFallback,
    ensures
        ({
            let found = classify::assessment(frame, m.limits);
            &&& found.0.faulty()
            &&& m.desired_for(found.0)
            &&& asked(m, found.0) != BrakeIntent::Release
            &&& m.evaluated(found).policy_state != SafetyState::HealthyReal
        }),
{
}

/// State after evaluating frames one after the other.
pub open spec fn evaluated_all(m: MachineState, found: Seq<Found>) -> MachineState
    decreases found.len(),
{
    if found.len() == 0 {
        m
    } else {
        evaluated_all(m, found.drop_last()).evaluated(found.last())
    }
}

/// Length of the unbroken run of Ok assessments at the end.
pub open spec fn ok_run(found: Seq<Found>) -> int
    decreases found.len(),
{
    if found.len() == 0 || found.last().0 != AssessmentKind::Okay {
        0
    } else {
        ok_run(found.drop_last()) + 1
    }
}

/// While the brake is on, the streak counts the Ok run at the end, and
/// evaluation alone never changes the brake.
proof fn lemma_streak_counts(m: MachineState, found: Seq<Found>)
    requires
        m.brake_engaged,
        m.ok_count == 0,
    ensures
        evaluated_all(m, found).brake_engaged,
        evaluated_all(m, found).limits == m.limits,
        evaluated_all(m, found).ok_count == (if ok_run(found) > u32::MAX {
            u32::MAX as int
        } else {
            ok_run(found)
        }),
        ok_run(found) >= 0,
    decreases found.len(),
{
    if found.len() > 0 {
        lemma_streak_counts(m, found.drop_last());
    }
}

/// Hysteresis: with the brake on, a release is asked for exactly when the last
/// frames, as many as the policy's streak, were all real and Ok.
pub proof fn lemma_release_needs_full_streak(m: MachineState, found: Seq<Found>)
    requires
        m.brake_engaged,
        m.ok_count == 0,
        m.limits.usable(),
        found.len() > 0,
    ensures
        asked(evaluated_all(m, found.drop_last()), found.last().0) == BrakeIntent::Release
            <==> ok_run(found) >= m.limits.release_ok_streak,
        ok_run(found) <= found.len(),
        forall|i: int|
            found.len() - ok_run(found) <= i < found.len() ==> (#[trigger] found[i]).0
                == AssessmentKind::Okay,
{
    lemma_streak_counts(m, found.drop_last());
    lemma_streak_counts(m, found);
    lemma_ok_run_is_ok(found);
}

proof fn lemma_ok_run_is_ok(found: Seq<Found>)
    ensures
        0 <= ok_run(found) <= found.len(),
        forall|i: int|
            found.len() - ok_run(found) <= i < found.len() ==> (#[trigger] found[i]).0
                == AssessmentKind::Okay,
    decreases found.len(),
{
    if found.len() > 0 && found.last().0 == AssessmentKind::Okay {
        let front = found.drop_last();
        lemma_ok_run_is_ok(front);
        assert forall|i: int| found.len() - ok_run(found) <= i < found.len() implies (
        #[trigger] found[i]).0 == AssessmentKind::Okay by {
            if i < front.len() {
                assert(front[i] == found[i]);
            }
        }
    }
}

/// Right after a successful release, a warning or anything worse re-applies the
/// brake; a healthy frame is plainly healthy.
pub proof fn lemma_first_frame_after_release(m: MachineState, kind: AssessmentKind, reason: Seq<char>)
    ensures
        ({
            let released = m.after(ActuatorOutcome::Released);
            &&& kind == AssessmentKind::Warn || kind == AssessmentKind::Critical || kind.faulty()
                ==> asked(released, kind) == BrakeIntent::Apply
            &&& kind == AssessmentKind::Okay ==> asked(released, kind) == BrakeIntent::NoChange
                && released.evaluated((kind, reason)).state == SafetyState::HealthyReal
        }),
{
}

/// A warning never applies a brake that is off, unless it was just released.
pub proof fn lemma_warning_does_not_apply(m: MachineState)
    requires
        !m.just_released,
    ensures
        asked(m, AssessmentKind::Warn) == BrakeIntent::NoChange,
{
}

/// A failed command is counted and reported, and does not stop evaluation: the
/// next frame is classified and asks for the same command as without it.
pub proof fn lemma_failure_does_not_stop_evaluation(
    m: MachineState,
    outcome: ActuatorOutcome,
    found: Found,
)
    requires
        outcome is ApplyFailed || outcome is ReleaseFailed,
    ensures
        ({
            let failed = m.after(outcome);
            let sound = MachineState { error: None, ..failed };
            &&& failed.state == SafetyState::ActuatorFailure
            &&& failed.failures == machine::counted(m.failures)
            &&& failed.policy_state == m.policy_state
            &&& failed.evaluated(found).policy_state == sound.evaluated(found).policy_state
            &&& asked(failed, found.0) == asked(sound, found.0)
            &&& failed.evaluated(found).ok_count == sound.evaluated(found).ok_count
        }),
{
}

/// The failure overlay goes away with a successful command, and with a healthy
/// frame while the brake is off.
pub proof fn lemma_overlay_is_cleared(m: MachineState, reason: Seq<char>)
    ensures
        m.after(ActuatorOutcome::Applied).error is None,
        m.after(ActuatorOutcome::Released).error is None,
        !m.brake_engaged ==> m.evaluated((AssessmentKind::Okay, reason)).error is None
            && m.evaluated((AssessmentKind::Okay, reason)).state == SafetyState::HealthyReal,
{
}

/// Intent shown between frames.
pub open spec fn shown(m: MachineState) -> BrakeIntent {
    machine::intent(m.desired(), m.brake_engaged)
}

/// A failed command is retried: after a frame that asked for it, the failure
/// leaves the same intent, and the next frame of the same kind asks for it again.
pub proof fn lemma_failed_command_is_retried(
    m: MachineState,
    found: Found,
    outcome: ActuatorOutcome,
)
    ensures
        ({
            let failed = m.evaluated(found).after(outcome);
            &&& outcome is ApplyFailed && asked(m, found.0) == BrakeIntent::Apply ==> shown(failed)
                == BrakeIntent::Apply && asked(failed, found.0) == BrakeIntent::Apply
            &&& outcome is ReleaseFailed && asked(m, found.0) == BrakeIntent::Release ==> shown(
                failed,
            ) == BrakeIntent::Release && asked(failed, found.0) == BrakeIntent::Release
        }),
{
}

/// Also a command that takes long: if a warning right after a release asked for
/// the brake again, and any number of warnings came before the command failed,
/// the brake is asked for again.
pub proof fn lemma_late_failure_is_retried(
    m: MachineState,
    found: Found,
    waiting: Seq<Found>,
    outcome: ActuatorOutcome,
)
    requires
        found.0 == AssessmentKind::Warn,
        asked(m, found.0) == BrakeIntent::Apply,
        forall|i: int| 0 <= i < waiting.len() ==> (#[trigger] waiting[i]).0 == AssessmentKind::Warn,
        outcome is ApplyFailed,
    ensures
        ({
            let asking = evaluated_all(m.evaluated(found), waiting);
            &&& shown(asking.after(outcome)) == BrakeIntent::Apply
            &&& asked(asking.after(outcome), AssessmentKind::Warn) == BrakeIntent::Apply
        }),
{
    lemma_request_stays_pending(m.evaluated(found), waiting);
}

/// Warnings leave a request for the brake again pending.
proof fn lemma_request_stays_pending(m: MachineState, waiting: Seq<Found>)
    requires
        m.reapply_pending,
        !m.brake_engaged,
        m.policy_state == SafetyState::Warning,
        forall|i: int| 0 <= i < waiting.len() ==> (#[trigger] waiting[i]).0 == AssessmentKind::Warn,
    ensures
        evaluated_all(m, waiting).reapply_pending,
        !evaluated_all(m, waiting).brake_engaged,
        evaluated_all(m, waiting).policy_state == SafetyState::Warning,
    decreases waiting.len(),
{
    if waiting.len() > 0 {
        let front = waiting.drop_last();
        assert forall|i: int| 0 <= i < front.len() implies (#[trigger] front[i]).0
            == AssessmentKind::Warn by {
            assert(front[i] == waiting[i]);
        }
        lemma_request_stays_pending(m, front);
        assert(waiting.last() == waiting[waiting.len() - 1]);
    }
}

/// A snapshot shows the wish and the command that the evaluation before it
/// returned.
pub proof fn lemma_snapshot_shows_the_evaluation(m: MachineState, found: Found)
    ensures
        m.evaluated(found).desired() == m.desired_for(found.0),
        shown(m.evaluated(found)) == asked(m, found.0),
{
}

/// A leftover brake detected at process start is held until it has been
/// recovered from.
pub proof fn lemma_seeded_brake_is_held(m: MachineState)
    requires
        m.limits.usable(),
    ensures
        m.seeded().desired(),
        shown(m.seeded()) == BrakeIntent::NoChange,
{
}

/// A released brake that no frame asked to apply again stays off, whatever a
/// failed command reports.
pub proof fn lemma_unasked_brake_stays_off(m: MachineState, outcome: ActuatorOutcome)
    requires
        outcome is ApplyFailed,
        !m.just_released,
        !m.reapply_pending,
    ensures
        asked(m.after(outcome), AssessmentKind::Warn) == BrakeIntent::NoChange,
{
}

/// The transition counter goes up exactly when the reported state changes.
pub proof fn lemma_transitions_are_counted(m: MachineState, found: Found)
    ensures
        m.evaluated(found).transitions == (if m.state != m.evaluated(found).state {
            machine::counted(m.transitions)
        } else {
            m.transitions
        }),
        m.evaluated(found).failures == m.failures,
{
}

/// State ids are the positions in the stable order, so they are distinct.
pub proof fn lemma_state_ids_are_distinct(a: SafetyState, b: SafetyState)
    ensures
        0 <= a.id() < 9,
        SafetyState::ALL@[a.id()] == a,
        a.id() == b.id() ==> a == b,
{
}

/// Resolved limits are ordered, positive and within the sensor ranges and the
/// device's own limit.
pub proof fn lemma_resolved_limits_are_ordered(
    config: SafetyPolicyConfig,
    device_default_w: Option<Binary32>,
)
    requires
        policy::resolution(config, device_default_w) is Ok,
    ensures
        ({
            let resolved = policy::resolution(config, device_default_w)->Ok_0;
            &&& 0 < config.temp_warn_c.units() < config.temp_critical_c.units() <= 125
                * binary32::one_in_units()
            &&& resolved.power matches Some((warn, critical)) ==> {
                &&& 0 < warn.units() < critical.units() <= 2000 * binary32::one_in_units()
                &&& device_default_w matches Some(cap) ==> critical.units() <= cap.units()
            }
            &&& resolved.power is None ==> device_default_w is None
            &&& 1 <= config.max_acquisition_interval_ms <= config.max_sample_age_ms
                <= SAFETY_STALE_AFTER_MS
            &&& config.release_ok_streak >= 1
        }),
{
    crate::telemetry::laws::lemma_engineering_values();
}

/// The documented thresholds, in degrees and watts.
pub proof fn lemma_documented_thresholds()
    ensures
        ({
            let limits = SafetyLimits::documented();
            &&& limits.temp_warn_c.units() == 75 * binary32::one_in_units()
            &&& limits.temp_critical_c.units() == 85 * binary32::one_in_units()
            &&& limits.power_w matches Some((warn, critical)) && warn.units() == 300
                * binary32::one_in_units() && critical.units() == 350 * binary32::one_in_units()
        }),
{
    lemma2_to64();
    laws::lemma_whole(TEMP_WARN_C as int, 0x96_0000, 132, 75, 17);
    laws::lemma_whole(TEMP_CRITICAL_C as int, 0xaa_0000, 132, 85, 17);
    laws::lemma_whole(POWER_WARN_W as int, 0x96_0000, 134, 300, 15);
    laws::lemma_whole(POWER_CRITICAL_W as int, 0xaf_0000, 134, 350, 15);
}

/// The brake target is half of the device default, rounded down.
pub proof fn lemma_brake_target_is_half(default_w: u32)
    requires
        default_w < 0x100_0000,
    ensures
        brake::target(default_w, Binary32 { bits: BRAKE_FRACTION }) == default_w / 2,
{
    let half = Binary32 { bits: BRAKE_FRACTION };
    let low = Binary32 { bits: brake::MIN_BRAKE_SHARE };
    let high = Binary32 { bits: brake::MAX_BRAKE_SHARE };
    let one = binary32::one_in_units();
    lemma2_to64();
    lemma_pow2_pos(148);
    lemma_pow2_unfold(149);
    // The share 0.5 is within the limits and counts half of one in units.
    binary32::lemma_units_signs(half);
    binary32::lemma_units_signs(low);
    binary32::lemma_units_signs(high);
    binary32::lemma_magnitude_monotonic(brake::MIN_BRAKE_SHARE as int, BRAKE_FRACTION as int);
    binary32::lemma_magnitude_monotonic(BRAKE_FRACTION as int, brake::MAX_BRAKE_SHARE as int);
    assert(convert::clamp(half, low, high) == half);
    binary32::lemma_magnitude_parts(125, 0x80_0000);
    lemma_pow2_adds(23, 125);
    assert(half.units() == pow2(148));
    // The default is represented exactly.
    laws::lemma_representable(default_w as int, 149);
    let k = choose|k: int|
        0 <= k < binary32::INFINITY_BITS && binary32::magnitude(k) == default_w * pow2(149);
    laws::lemma_exact(default_w * one, 1, k);
    let d = convert::of_integer(default_w);
    assert(d.units() == default_w * one);
    // So is its half.
    laws::lemma_representable(default_w as int, 148);
    let j = choose|j: int|
        0 <= j < binary32::INFINITY_BITS && binary32::magnitude(j) == default_w * pow2(148);
    let n = arithmetic::absolute_of(d.units()) * arithmetic::absolute_of(half.units());
    assert(default_w * one >= 0) by (nonlinear_arith)
        requires
            one > 0,
    ;
    assert(n == one * (default_w * pow2(148))) by (nonlinear_arith)
        requires
            n == (default_w * one) * pow2(148),
    ;
    laws::lemma_exact(n, one, j);
    let p = arithmetic::product(d, half);
    assert(p == Binary32::signed(false, j));
    assert(p.units() == default_w * pow2(148));
    let h = pow2(148) as int;
    assert(default_w * h / (2 * h) == default_w as int / 2) by {
        vstd::arithmetic::div_mod::lemma_div_denominator(default_w * h, h, 2);
        vstd::arithmetic::mul::lemma_mul_is_commutative(default_w as int, h);
        vstd::arithmetic::div_mod::lemma_div_multiples_vanish(default_w as int, h);
        assert(h * 2 == 2 * h);
    }
    if default_w == 0 {
        assert(default_w * h == 0) by (nonlinear_arith)
            requires
                default_w == 0,
        ;
    } else {
        assert(default_w * h > 0) by (nonlinear_arith)
            requires
                default_w > 0,
                h > 0,
        ;
    }
}

/// With the fixed brake share, target and default cannot be told apart exactly
/// for defaults of 8 W or less.
pub proof fn lemma_small_defaults_are_ambiguous(default_w: u32)
    requires
        default_w < 0x100_0000,
    ensures
        brake::ambiguous(default_w, brake::target(default_w, Binary32 { bits: BRAKE_FRACTION }))
            <==> default_w <= 8,
{
    lemma_brake_target_is_half(default_w);
    let target = brake::target(default_w, Binary32 { bits: BRAKE_FRACTION });
    let middle = (default_w + target) / 2;
    if default_w <= 8 {
        assert(brake::near(middle, target as int) && brake::near(middle, default_w as int));
    }
}

/// The brake does not compound, and a release undoes it: at the target the
/// limit is recognized as the relay's own brake, so that another apply keeps it,
/// a restart adopts it and a release restores the default; and at the restored
/// default it is recognized as unbraked.
pub proof fn lemma_brake_is_recognized(default_w: u32, pct: Binary32)
    requires
        !brake::ambiguous(default_w, brake::target(default_w, pct)),
    ensures
        brake::observation(Some(brake::target(default_w, pct)), Some(default_w), pct)
            == PowerLimitObservation::RelayBrake,
        brake::observation(Some(default_w), Some(default_w), pct)
            == PowerLimitObservation::AtOrAboveDefault,
{
    let target = brake::target(default_w, pct);
    assert(brake::near(target as int, target as int));
    assert(brake::near(default_w as int, default_w as int));
}

/// A limit that is not near the brake target is never taken for the relay's
/// brake.
pub proof fn lemma_foreign_caps_are_not_claimed(current_w: u32, default_w: u32, pct: Binary32)
    requires
        !brake::near(current_w as int, brake::target(default_w, pct) as int),
    ensures
        brake::observation(Some(current_w), Some(default_w), pct)
            != PowerLimitObservation::RelayBrake,
{
}

/// Thresholds decide a real frame with usable samples: it is critical exactly
/// when the temperature or the power is above its critical limit, a warning
/// exactly when neither is but one has reached its warning limit, and healthy
/// otherwise.
pub proof fn lemma_thresholds_decide(
    found: FrameAssessment,
    frame: TelemetryFrame,
    limits: SafetyLimits,
    temp: Binary32,
    power: Binary32,
    power_warn: Binary32,
    power_critical: Binary32,
)
    requires
        call_ensures(classify::classify_frame_with, (&frame, &limits), found),
        limits.usable(),
        limits.power_w == Some((power_warn, power_critical)),
        frame.source != TelemetrySource::SoftwareFallback,
        frame.gpu_temp_c.validity == SampleValidity::Valid,
        frame.gpu_temp_c.value == Some(temp),
        frame.power_w.validity == SampleValidity::Valid,
        frame.power_w.value == Some(power),
        temp.finite(),
        power.finite(),
        limits.freshness matches Some(bounds) ==> {
            &&& frame.acquisition_cadence_ms <= bounds.max_acquisition_interval_ms
            &&& frame.acquired_at - frame.gpu_temp_c.observed_at < bounds.max_sample_age_ms
            &&& frame.acquired_at - frame.power_w.observed_at < bounds.max_sample_age_ms
            &&& bounds.max_sample_age_ms > 0
        },
    ensures
        ({
            let too_hot = temp.units() > limits.temp_critical_c.units();
            let too_much = power.units() > power_critical.units();
            let hot = temp.units() >= limits.temp_warn_c.units();
            let much = power.units() >= power_warn.units();
            &&& found.kind == AssessmentKind::Critical <==> too_hot || too_much
            &&& found.kind == AssessmentKind::Warn <==> !too_hot && !too_much && (hot || much)
            &&& found.kind == AssessmentKind::Okay <==> !too_hot && !too_much && !hot && !much
            &&& too_hot ==> found.reason@ == "GPU thermal: "@ + convert::whole_text(temp)
                + "°C exceeds "@ + convert::whole_text(limits.temp_critical_c) + "°C"@
            &&& !too_hot && too_much ==> found.reason@ == "GPU power: "@ + convert::whole_text(power)
                + "W exceeds "@ + convert::whole_text(power_critical) + "W safety limit"@
            &&& !too_hot && !too_much && hot ==> found.reason@ == "GPU thermal: "@
                + convert::whole_text(temp) + "°C approaching "@ + convert::whole_text(
                limits.temp_critical_c,
            ) + "°C limit"@
            &&& !too_hot && !too_much && !hot && much ==> found.reason@ == "GPU power: "@
                + convert::whole_text(power) + "W approaching safety limit"@
            &&& !too_hot && !too_much && !hot && !much ==> found.reason@
                == "healthy real telemetry"@
        }),
{
}

/// A warmer board is never judged milder: raising the temperature or the power
/// of a real frame does not take it from critical to less, nor from a warning to
/// healthy.
pub proof fn lemma_worse_readings_are_not_milder(
    cooler: TelemetryFrame,
    warmer: TelemetryFrame,
    limits: SafetyLimits,
)
    requires
        limits.usable(),
        cooler.gpu_temp_c.value is Some,
        cooler.power_w.value is Some,
        warmer.gpu_temp_c.value is Some,
        warmer.power_w.value is Some,
        cooler.gpu_temp_c.value->0.units() <= warmer.gpu_temp_c.value->0.units(),
        cooler.power_w.value->0.units() <= warmer.power_w.value->0.units(),
        warmer.gpu_temp_c.value->0.finite(),
        warmer.power_w.value->0.finite(),
        warmer == (TelemetryFrame {
            gpu_temp_c: TelemetrySample {
                value: warmer.gpu_temp_c.value,
                ..cooler.gpu_temp_c
            },
            power_w: TelemetrySample { value: warmer.power_w.value, ..cooler.power_w },
            ..cooler
        }),
    ensures
        classify::assessment(cooler, limits).0 == AssessmentKind::Critical ==>
            classify::assessment(warmer, limits).0 == AssessmentKind::Critical,
        classify::assessment(cooler, limits).0 == AssessmentKind::Warn ==> classify::assessment(
            warmer,
            limits,
        ).0 == AssessmentKind::Warn || classify::assessment(warmer, limits).0
            == AssessmentKind::Critical,
{
}

/// Whether a safety sample has nothing to show.
pub open spec fn lacking(sample: TelemetrySample<Binary32>) -> bool {
    sample.validity == SampleValidity::Missing || sample.validity == SampleValidity::Valid
        && sample.value is None
}

/// Faults decide before thresholds: simulation by provenance alone; then a
/// sample that is lacking, then an invalid one, then a stale one, on either
/// safety channel; the reason names the temperature where both are at fault.
pub proof fn lemma_faults_decide(
    found: FrameAssessment,
    frame: TelemetryFrame,
    limits: SafetyLimits,
)
    requires
        call_ensures(classify::classify_frame_with, (&frame, &limits), found),
    ensures
        ({
            let temp = frame.gpu_temp_c;
            let power = frame.power_w;
            let genuine = frame.source != TelemetrySource::SoftwareFallback;
            let lack = lacking(temp) || lacking(power);
            let invalid = temp.validity == SampleValidity::Invalid || power.validity
                == SampleValidity::Invalid;
            let stale = temp.validity == SampleValidity::Stale || power.validity
                == SampleValidity::Stale;
            &&& found.kind == AssessmentKind::Simulated <==> !genuine
            &&& !genuine ==> found.reason@ == "telemetry source is SoftwareFallback"@
            &&& genuine && lack ==> found.kind == AssessmentKind::Missing && found.reason@ == (
            if lacking(temp) {
                "Invalid telemetry: gpu_temp_c missing"@
            } else {
                "Invalid telemetry: power_w missing"@
            })
            &&& genuine && !lack && invalid ==> found.kind == AssessmentKind::Invalid
                && found.reason@ == (if temp.validity == SampleValidity::Invalid {
                "Invalid telemetry: gpu_temp_c invalid"@
            } else {
                "Invalid telemetry: power_w invalid"@
            })
            &&& genuine && !lack && !invalid && stale ==> found.kind == AssessmentKind::Stale
                && found.reason@ == (if temp.validity == SampleValidity::Stale {
                "Invalid telemetry: gpu_temp_c stale"@
            } else {
                "Invalid telemetry: power_w stale"@
            })
            &&& found.kind == AssessmentKind::Invalid <==> genuine && !lack && invalid
        }),
{
    lemma_fault_words();
}

/// Reasons of faults, in full.
proof fn lemma_fault_words()
    ensures
        classify::fault_reason(SignalId::GpuTempC, AssessmentKind::Missing)
            == "Invalid telemetry: gpu_temp_c missing"@,
        classify::fault_reason(SignalId::GpuTempC, AssessmentKind::Invalid)
            == "Invalid telemetry: gpu_temp_c invalid"@,
        classify::fault_reason(SignalId::GpuTempC, AssessmentKind::Stale)
            == "Invalid telemetry: gpu_temp_c stale"@,
        classify::fault_reason(SignalId::PowerW, AssessmentKind::Missing)
            == "Invalid telemetry: power_w missing"@,
        classify::fault_reason(SignalId::PowerW, AssessmentKind::Invalid)
            == "Invalid telemetry: power_w invalid"@,
        classify::fault_reason(SignalId::PowerW, AssessmentKind::Stale)
            == "Invalid telemetry: power_w stale"@,
{
    reveal_strlit("Invalid telemetry: ");
    reveal_strlit("gpu_temp_c");
    reveal_strlit("power_w");
    reveal_strlit(" ");
    reveal_strlit("missing");
    reveal_strlit("invalid");
    reveal_strlit("stale");
    reveal_strlit("Invalid telemetry: gpu_temp_c missing");
    reveal_strlit("Invalid telemetry: gpu_temp_c invalid");
    reveal_strlit("Invalid telemetry: gpu_temp_c stale");
    reveal_strlit("Invalid telemetry: power_w missing");
    reveal_strlit("Invalid telemetry: power_w invalid");
    reveal_strlit("Invalid telemetry: power_w stale");
    assert(classify::fault_reason(SignalId::GpuTempC, AssessmentKind::Missing)
        =~= "Invalid telemetry: gpu_temp_c missing"@);
    assert(classify::fault_reason(SignalId::GpuTempC, AssessmentKind::Invalid)
        =~= "Invalid telemetry: gpu_temp_c invalid"@);
    assert(classify::fault_reason(SignalId::GpuTempC, AssessmentKind::Stale)
        =~= "Invalid telemetry: gpu_temp_c stale"@);
    assert(classify::fault_reason(SignalId::PowerW, AssessmentKind::Missing)
        =~= "Invalid telemetry: power_w missing"@);
    assert(classify::fault_reason(SignalId::PowerW, AssessmentKind::Invalid)
        =~= "Invalid telemetry: power_w invalid"@);
    assert(classify::fault_reason(SignalId::PowerW, AssessmentKind::Stale)
        =~= "Invalid telemetry: power_w stale"@);
}

/// The policy's freshness bounds decide next: a real frame without faults is
/// stale exactly when its declared interval is above the bound, or a safety
/// sample was at least as old as the bound when the frame was received. Without
/// bounds it is not stale, and a fresh one without a power policy is missing.
pub proof fn lemma_freshness_decides(
    found: FrameAssessment,
    frame: TelemetryFrame,
    limits: SafetyLimits,
)
    requires
        call_ensures(classify::classify_frame_with, (&frame, &limits), found),
        frame.source != TelemetrySource::SoftwareFallback,
        frame.gpu_temp_c.validity == SampleValidity::Valid,
        frame.gpu_temp_c.value is Some,
        frame.power_w.validity == SampleValidity::Valid,
        frame.power_w.value is Some,
        limits.freshness matches Some(bounds) ==> bounds.max_sample_age_ms > 0,
    ensures
        limits.freshness matches Some(bounds) ==> (found.kind == AssessmentKind::Stale <==> {
            ||| frame.acquisition_cadence_ms > bounds.max_acquisition_interval_ms
            ||| frame.acquired_at - frame.gpu_temp_c.observed_at >= bounds.max_sample_age_ms
            ||| frame.acquired_at - frame.power_w.observed_at >= bounds.max_sample_age_ms
        }),
        limits.freshness is None ==> found.kind != AssessmentKind::Stale,
        limits.freshness matches Some(bounds) ==> {
            let slow = frame.acquisition_cadence_ms > bounds.max_acquisition_interval_ms;
            let old = frame.acquired_at - frame.gpu_temp_c.observed_at >= bounds.max_sample_age_ms;
            &&& slow ==> found.reason@
                == "Invalid telemetry: acquisition interval exceeds safety policy"@
            &&& !slow && old ==> found.reason@ == "Invalid telemetry: gpu_temp_c stale"@
            &&& !slow && !old && found.kind == AssessmentKind::Stale ==> found.reason@
                == "Invalid telemetry: power_w stale"@
        },
        found.kind == AssessmentKind::Missing <==> found.kind != AssessmentKind::Stale
            && limits.power_w is None,
        found.kind == AssessmentKind::Missing ==> found.reason@
            == "Invalid telemetry: power policy unavailable"@,
        found.kind != AssessmentKind::Invalid,
{
    lemma_fault_words();
}

/// The instantaneous status is a warning exactly for a warning, critical exactly
/// for a critical reading or a fault, and fine otherwise; simulation is told
/// apart.
pub proof fn lemma_status_of_a_kind(status: (SafetyStatus, bool), found: Found)
    requires
        classify::states(status, found),
    ensures
        status.0 is Warn <==> found.0 == AssessmentKind::Warn,
        status.0 is Critical <==> found.0 == AssessmentKind::Critical || found.0
            == AssessmentKind::Missing || found.0 == AssessmentKind::Invalid || found.0
            == AssessmentKind::Stale,
        status.0 is Okay <==> found.0 == AssessmentKind::Okay || found.0
            == AssessmentKind::Simulated,
        status.1 <==> found.0 == AssessmentKind::Simulated,
        status.0 matches SafetyStatus::Warn(text) ==> text@ == found.1,
        status.0 matches SafetyStatus::Critical(text) ==> text@ == found.1,
{
}

/// Only a command's feedback moves the brake: evaluation and a failed release
/// leave it, a successful apply engages it, and a release or a failed apply
/// leaves it off. Limits never change.
pub proof fn lemma_only_feedback_moves_the_brake(
    m: MachineState,
    found: Found,
    outcome: ActuatorOutcome,
)
    ensures
        m.evaluated(found).brake_engaged == m.brake_engaged,
        m.after(outcome).brake_engaged <==> outcome is Applied || outcome is ReleaseFailed
            && m.brake_engaged,
        m.evaluated(found).limits == m.limits,
        m.after(outcome).limits == m.limits,
{
}

/// After every step the reported state is the actuator failure while an error
/// stands, and the policy state otherwise; a failed command leaves its own words
/// as the error, a successful one clears it, and a frame keeps it unless it is
/// healthy with the brake off.
pub proof fn lemma_reported_state(m: MachineState, found: Found, outcome: ActuatorOutcome)
    ensures
        ({
            let e = m.evaluated(found);
            let a = m.after(outcome);
            &&& e.state == (if e.error is Some {
                SafetyState::ActuatorFailure
            } else {
                e.policy_state
            })
            &&& a.state == (if a.error is Some {
                SafetyState::ActuatorFailure
            } else {
                a.policy_state
            })
            &&& e.error == (if found.0 == AssessmentKind::Okay && !m.brake_engaged {
                None
            } else {
                m.error
            })
            &&& outcome is Applied || outcome is Released ==> a.error is None
            &&& outcome matches ActuatorOutcome::ApplyFailed(text) ==> a.error == Some(text@)
            &&& outcome matches ActuatorOutcome::ReleaseFailed(text) ==> a.error == Some(text@)
            &&& e.reason == found.1
            &&& a.reason == (if outcome is Released {
                "brake released"@
            } else {
                m.reason
            })
            &&& a.policy_state == (if outcome is Released {
                SafetyState::HealthyReal
            } else {
                m.policy_state
            })
            &&& a.ok_count == (if outcome is Released {
                0
            } else {
                m.ok_count
            })
        }),
{
}

/// The policy state of a frame names what the frame was, and healthy readings
/// count as recovering exactly while the brake is on.
pub proof fn lemma_policy_state_names_the_frame(m: MachineState, found: Found)
    ensures
        ({
            let state = m.evaluated(found).policy_state;
            &&& state == SafetyState::SimulatedSoftwareOnly <==> found.0
                == AssessmentKind::Simulated
            &&& state == SafetyState::TelemetryMissing <==> found.0 == AssessmentKind::Missing
            &&& state == SafetyState::TelemetryInvalid <==> found.0 == AssessmentKind::Invalid
            &&& state == SafetyState::TelemetryStale <==> found.0 == AssessmentKind::Stale
            &&& state == SafetyState::CriticalBraked <==> found.0 == AssessmentKind::Critical
            &&& state == SafetyState::Warning <==> found.0 == AssessmentKind::Warn
            &&& state == SafetyState::Recovering <==> found.0 == AssessmentKind::Okay
                && m.brake_engaged
            &&& state == SafetyState::HealthyReal <==> found.0 == AssessmentKind::Okay
                && !m.brake_engaged
        }),
{
}

/// When evaluation asks for a command: an apply exactly when the brake is off
/// and the frame is a fault, critical, or the first one after a release and a
/// warning; a release exactly when the brake is on and this healthy frame
/// completes the streak.
pub proof fn lemma_when_commands_are_asked_for(m: MachineState, kind: AssessmentKind)
    ensures
        asked(m, kind) == BrakeIntent::Apply <==> !m.brake_engaged && {
            ||| kind == AssessmentKind::Missing
            ||| kind == AssessmentKind::Invalid
            ||| kind == AssessmentKind::Stale
            ||| kind == AssessmentKind::Critical
            ||| kind == AssessmentKind::Warn && m.just_released
        },
        asked(m, kind) == BrakeIntent::Release <==> m.brake_engaged && kind
            == AssessmentKind::Okay && (m.ok_count + 1 >= m.limits.release_ok_streak || m.ok_count
            == u32::MAX && m.limits.release_ok_streak == u32::MAX),
{
}

/// Every failed command is counted once and nothing else is; the transition
/// counter goes up exactly when feedback changes the reported state.
pub proof fn lemma_feedback_is_counted(m: MachineState, outcome: ActuatorOutcome)
    requires
        m.failures < u64::MAX,
        m.transitions < u64::MAX,
    ensures
        m.after(outcome).failures == m.failures + (if outcome is ApplyFailed
            || outcome is ReleaseFailed {
            1int
        } else {
            0
        }),
        m.after(outcome).transitions == m.transitions + (if m.after(outcome).state != m.state {
            1int
        } else {
            0
        }),
{
}

/// A snapshot's fields agree: its intent turns the engaged brake into the
/// desired one, a command error is shown exactly while the state reports it, and
/// the transition is a real change that ends in the reported state.
pub proof fn lemma_snapshot_is_consistent(
    snapshot: SafetySnapshot,
    before: MachineState,
    found: Found,
)
    requires
        machine::shows(
            snapshot,
            before.evaluated(found),
            before.desired_for(found.0),
            machine::change(before, before.evaluated(found)),
            false,
        ),
    ensures
        snapshot.intent == BrakeIntent::Apply <==> snapshot.desired_brake
            && !snapshot.brake_engaged,
        snapshot.intent == BrakeIntent::Release <==> !snapshot.desired_brake
            && snapshot.brake_engaged,
        snapshot.state == SafetyState::ActuatorFailure <==> snapshot.last_actuator_error is Some,
        snapshot.last_actuator_error is None ==> snapshot.state == snapshot.policy_state,
        snapshot.transition is Some <==> snapshot.state != before.state,
        snapshot.transition matches Some((from, to)) ==> from == before.state && to
            == snapshot.state,
        snapshot.brake_engaged == before.brake_engaged,
        snapshot.last_reason@ == found.1,
{
}

/// Operator limits are taken as they are, and without them both limits follow
/// from the device: its default, and 85% of it. A known default or a pair of
/// operator limits always gives a power policy.
pub proof fn lemma_power_limits_come_from_the_settings(
    config: SafetyPolicyConfig,
    device_default_w: Option<Binary32>,
    policy: SafetyPolicy,
)
    requires
        call_ensures(SafetyPolicyConfig::resolve, (&config, device_default_w), Ok(policy)),
    ensures
        policy@.config == config,
        config.power_warn_w is Some <==> config.power_critical_w is Some,
        config.power_warn_w is Some && config.power_critical_w is Some ==> policy@.power == Some(
            (config.power_warn_w->0, config.power_critical_w->0),
        ) && policy@.source == "operator"@,
        config.power_warn_w is None && device_default_w is Some ==> policy@.power == Some(
            (
                arithmetic::product(device_default_w->0, Binary32 { bits: 0x3f59_999a }),
                device_default_w->0,
            ),
        ) && policy@.source == "device_default"@,
        config.power_warn_w is None && device_default_w is None ==> policy@.power is None
            && policy@.source == "unavailable"@,
        binary32::is_nearest(85 * binary32::one_in_units(), 100, 0x3f59_999a),
{
    lemma2_to64();
    laws::lemma_share(0x3f59_999a, 0xd9_999a, 125, 24, 85, 100);
}

/// Settings resolve exactly when they are sensible: finite, positive, ordered
/// limits within the sensor ranges, a positive streak, bounds that tighten the
/// telemetry contract, and watts given as a pair that the device can take.
pub proof fn lemma_which_settings_resolve(
    config: SafetyPolicyConfig,
    device_default_w: Option<Binary32>,
    outcome: Result<SafetyPolicy, PolicyError>,
)
    requires
        call_ensures(SafetyPolicyConfig::resolve, (&config, device_default_w), outcome),
    ensures
        outcome is Ok <==> {
            let one = binary32::one_in_units();
            &&& config.temp_warn_c.finite() && config.temp_critical_c.finite()
            &&& 0 < config.temp_warn_c.units() < config.temp_critical_c.units() <= 125 * one
            &&& config.release_ok_streak >= 1
            &&& 1 <= config.max_sample_age_ms <= 2000
            &&& 1 <= config.max_acquisition_interval_ms <= config.max_sample_age_ms
            &&& device_default_w matches Some(w) ==> w.finite() && 0 < w.units() <= 2000 * one
            &&& match (config.power_warn_w, config.power_critical_w) {
                (Some(warn), Some(critical)) => {
                    &&& warn.finite() && critical.finite()
                    &&& 0 < warn.units() < critical.units() <= 2000 * one
                    &&& device_default_w matches Some(w) ==> critical.units() <= w.units()
                },
                (None, None) => device_default_w matches Some(w) ==> {
                    let warn = arithmetic::product(w, Binary32 { bits: 0x3f59_999a });
                    warn.finite() && 0 < warn.units() < w.units()
                },
                _ => false,
            }
        },
{
    crate::telemetry::laws::lemma_engineering_values();
}

/// A machine made with a policy evaluates under exactly the policy's settings.
pub proof fn lemma_policy_is_what_evaluation_uses(policy: SafetyPolicy)
    ensures
        ({
            let limits = policy.spec_limits();
            &&& limits.temp_warn_c == policy@.config.temp_warn_c
            &&& limits.temp_critical_c == policy@.config.temp_critical_c
            &&& limits.power_w == policy@.power
            &&& limits.release_ok_streak == policy@.config.release_ok_streak
            &&& limits.freshness matches Some(bounds) && bounds.max_sample_age_ms
                == policy@.config.max_sample_age_ms && bounds.max_acquisition_interval_ms
                == policy@.config.max_acquisition_interval_ms
        }),
        machine::initial(policy.spec_limits()).desired(),
        !machine::initial(policy.spec_limits()).brake_engaged,
{
}

/// The default settings: 75 and 85 degrees, no watts, three healthy frames, two
/// seconds and a tenth of a second.
pub proof fn lemma_default_settings()
    ensures
        ({
            let config = policy::default_config();
            &&& config.temp_warn_c.units() == 75 * binary32::one_in_units()
            &&& config.temp_critical_c.units() == 85 * binary32::one_in_units()
            &&& config.power_warn_w is None && config.power_critical_w is None
            &&& config.release_ok_streak == 3
            &&& config.max_sample_age_ms == 2000
            &&& config.max_acquisition_interval_ms == 100
            &&& SafetyLimits::documented().release_ok_streak == 3
            &&& SafetyLimits::documented().freshness is None
        }),
{
    lemma_documented_thresholds();
}

/// With both limits known and a target that is not ambiguous, the current limit
/// is the relay's brake exactly within 2 W of the target, the default or more
/// exactly from 2 W below the default on, and a foreign cap in all other places,
/// on either side of the target.
pub proof fn lemma_every_limit_is_placed(current_w: u32, default_w: u32, pct: Binary32)
    ensures
        ({
            let target = brake::target(default_w, pct) as int;
            let found = brake::observation(Some(current_w), Some(default_w), pct);
            let apart = -4 <= default_w - target <= 4;
            let braked = -2 <= current_w - target <= 2;
            &&& found == PowerLimitObservation::AmbiguousTarget <==> apart
            &&& found == PowerLimitObservation::RelayBrake <==> !apart && braked
            &&& found == PowerLimitObservation::AtOrAboveDefault <==> !apart && !braked
                && current_w + 2 >= default_w
            &&& found == PowerLimitObservation::ForeignSubDefaultCap <==> !apart && !braked
                && current_w + 2 < default_w
        }),
        brake::observation(None, Some(default_w), pct) == PowerLimitObservation::Unavailable,
        brake::observation(Some(current_w), None, pct) == PowerLimitObservation::Unavailable,
{
    let target = brake::target(default_w, pct) as int;
    let middle = (default_w + target) / 2;
    if -4 <= default_w - target <= 4 {
        assert(brake::near(middle, target) && brake::near(middle, default_w as int));
    }
}

/// The brake target is a share of the default. A share that is not a number
/// gives zero and one of 1 or more the whole default, and for defaults that a
/// value represents exactly the target never exceeds the default. Otherwise it
/// exceeds it by no more than the rounding of the default.
pub proof fn lemma_brake_target_is_a_share(default_w: u32, pct: Binary32)
    requires
        default_w <= 0x800_0000,
    ensures
        brake::target(default_w, pct) <= default_w + 4,
        default_w < 0x100_0000 ==> brake::target(default_w, pct) <= default_w,
        pct.nan() ==> brake::target(default_w, pct) == 0,
        default_w < 0x100_0000 && !pct.nan() && pct.units() >= binary32::one_in_units()
            ==> brake::target(default_w, pct) == default_w,
{
    let one = binary32::one_in_units();
    let low = Binary32 { bits: brake::MIN_BRAKE_SHARE };
    let high = Binary32 { bits: brake::MAX_BRAKE_SHARE };
    let share = convert::clamp(pct, low, high);
    let d = convert::of_integer(default_w);
    let p = arithmetic::product(d, share);
    lemma2_to64();
    lemma_pow2_pos(149);
    laws::lemma_integer_error(default_w);
    laws::lemma_whole(brake::MAX_BRAKE_SHARE as int, 0x80_0000, 126, 1, 23);
    binary32::lemma_units_signs(low);
    binary32::lemma_units_signs(high);
    binary32::lemma_magnitude_monotonic(brake::MIN_BRAKE_SHARE as int, brake::MAX_BRAKE_SHARE as int);
    if default_w < 0x100_0000 {
        laws::lemma_integer_exact(default_w);
    }
    if !pct.nan() {
        laws::lemma_clamp_bounds(pct, low, high);
        binary32::lemma_units_signs(share);
        if share.infinite() {
            binary32::lemma_magnitude_monotonic(
                brake::MAX_BRAKE_SHARE as int,
                binary32::INFINITY_BITS as int,
            );
        }
        laws::lemma_share_does_not_exceed(d, share);
        lemma_floor_at_most(p.units(), default_w + 4, one);
        if default_w < 0x100_0000 {
            lemma_floor_at_most(p.units(), default_w as int, one);
            if pct.units() >= one {
                assert(share.units() == one);
                let n = arithmetic::absolute_of(d.units()) * arithmetic::absolute_of(share.units());
                assert(n == one * d.units()) by (nonlinear_arith)
                    requires
                        n == d.units() * one,
                ;
                laws::lemma_exact(n, one, d.abs_bits());
                assert(p == d);
                vstd::arithmetic::div_mod::lemma_div_multiples_vanish(default_w as int, one);
                vstd::arithmetic::mul::lemma_mul_is_commutative(default_w as int, one);
            }
        }
    }
}

/// What is at most `n` parts of `d` holds at most `n` whole parts.
proof fn lemma_floor_at_most(a: int, n: int, d: int)
    requires
        d > 0,
        a <= n * d,
    ensures
        a / d <= n,
{
    vstd::arithmetic::div_mod::lemma_div_is_ordered(a, n * d, d);
    vstd::arithmetic::div_mod::lemma_div_multiples_vanish(n, d);
    vstd::arithmetic::mul::lemma_mul_is_commutative(n, d);
}

/// Engaging the brake never raises a known power limit, and never moves a limit
/// that someone else set below the default: an apply that sets a limit starts
/// from the default or above and goes down to the target.
pub proof fn lemma_apply_never_raises(
    current_w: u32,
    default_w: u32,
    pct: Binary32,
    plan: Result<LimitCommand, ActuatorError>,
)
    requires
        call_ensures(brake::plan_apply, (Some(current_w), Some(default_w), pct), plan),
        default_w <= 0x800_0000,
    ensures
        plan matches Ok(LimitCommand::SetWatts(w)) ==> {
            &&& w == brake::target(default_w, pct)
            &&& w < current_w
            &&& w + 4 < default_w
            &&& current_w + 2 >= default_w
        },
{
    lemma_brake_target_is_a_share(default_w, pct);
    lemma_every_limit_is_placed(current_w, default_w, pct);
}

/// Whether a plan is a refusal in these words.
pub open spec fn refuses(plan: Result<LimitCommand, ActuatorError>, reason: Seq<char>) -> bool {
    plan matches Err(ActuatorError::CommandFailed(text)) && text@ == reason
}

/// What an apply does with each pair of limits: it fails closed without a
/// default, refuses an ambiguous target and a foreign cap, keeps its own brake,
/// and sets the target from the default or above, or blindly where the current
/// limit is not known.
pub proof fn lemma_apply_is_decided(
    current_w: Option<u32>,
    default_w: Option<u32>,
    pct: Binary32,
    plan: Result<LimitCommand, ActuatorError>,
)
    requires
        call_ensures(brake::plan_apply, (current_w, default_w, pct), plan),
    ensures
        default_w is None ==> plan == Err::<LimitCommand, ActuatorError>(
            ActuatorError::PowerLimitUnavailable,
        ),
        default_w matches Some(default) ==> {
            let target = brake::target(default, pct);
            let current = current_w->0;
            let apart = -4 <= default - target <= 4;
            let braked = -2 <= current - target <= 2;
            &&& apart ==> refuses(
                plan,
                "brake target is ambiguous with the device default power limit; refusing"@,
            )
            &&& !apart && current_w is None ==> plan == Ok::<LimitCommand, ActuatorError>(
                LimitCommand::SetWatts(target),
            )
            &&& !apart && current_w is Some && braked ==> plan == Ok::<
                LimitCommand,
                ActuatorError,
            >(LimitCommand::Keep)
            &&& !apart && current_w is Some && !braked && current + 2 < default ==> refuses(
                plan,
                "foreign sub-default power cap; refusing to change it"@,
            )
            &&& !apart && current_w is Some && !braked && current + 2 >= default ==> plan == Ok::<
                LimitCommand,
                ActuatorError,
            >(LimitCommand::SetWatts(target))
        },
{
    if let Some(default) = default_w {
        let target = brake::target(default, pct) as int;
        let middle = (default + target) / 2;
        if -4 <= default - target <= 4 {
            assert(brake::near(middle, target) && brake::near(middle, default as int));
        }
        if let Some(current) = current_w {
            lemma_every_limit_is_placed(current, default, pct);
        }
    }
}

/// What a release does with each pair of limits: it sets a limit only from
/// within 2 W of an unambiguous target, and then to the device default; it keeps
/// a limit at the default or above, and refuses everything else.
pub proof fn lemma_release_is_decided(
    current_w: Option<u32>,
    default_w: Option<u32>,
    pct: Binary32,
    plan: Result<LimitCommand, ActuatorError>,
)
    requires
        call_ensures(brake::plan_release, (current_w, default_w, pct), plan),
    ensures
        current_w is None || default_w is None ==> plan == Err::<LimitCommand, ActuatorError>(
            ActuatorError::PowerLimitUnavailable,
        ),
        current_w is Some && default_w is Some ==> {
            let current = current_w->0;
            let default = default_w->0;
            let target = brake::target(default, pct);
            let apart = -4 <= default - target <= 4;
            let braked = -2 <= current - target <= 2;
            &&& apart ==> refuses(
                plan,
                "brake target is ambiguous with the device default power limit; refusing"@,
            )
            &&& !apart && braked ==> plan == Ok::<LimitCommand, ActuatorError>(
                LimitCommand::SetWatts(default),
            )
            &&& !apart && !braked && current + 2 < default ==> refuses(
                plan,
                "foreign sub-default power cap; refusing to change it"@,
            )
            &&& !apart && !braked && current + 2 >= default ==> plan == Ok::<
                LimitCommand,
                ActuatorError,
            >(LimitCommand::Keep)
        },
{
    if current_w is Some && default_w is Some {
        lemma_every_limit_is_placed(current_w->0, default_w->0, pct);
    }
}

/// A leftover brake is found exactly where the current limit lies within 2 W of
/// an unambiguous target, and it is reported with the limits that were queried.
pub proof fn lemma_leftover_brake_is_found(
    current_w: u32,
    default_w: u32,
    pct: Binary32,
    found: Option<BrakeMatch>,
)
    requires
        call_ensures(brake::match_engaged_brake, (Some(current_w), Some(default_w), pct), found),
    ensures
        ({
            let target = brake::target(default_w, pct);
            &&& found is Some <==> -2 <= current_w - target <= 2 && !(-4 <= default_w - target
                <= 4)
            &&& found matches Some(m) ==> m.current_w == current_w && m.default_w == default_w
                && m.expected_w == target
        }),
{
    lemma_every_limit_is_placed(current_w, default_w, pct);
}

/// Which releases are remembered: a release until the next frame, and a failed
/// apply that was to follow one as if the release had just happened.
pub proof fn lemma_release_is_remembered(m: MachineState, found: Found, outcome: ActuatorOutcome)
    ensures
        ({
            let e = m.evaluated(found);
            let a = m.after(outcome);
            let warned = found.0 == AssessmentKind::Warn && !m.brake_engaged;
            &&& !e.just_released
            &&& e.reapply_asked <==> warned && m.just_released
            &&& e.reapply_pending <==> warned && (m.just_released || m.reapply_pending)
            &&& e.ok_count == 0 <==> !(found.0 == AssessmentKind::Okay && m.brake_engaged)
            &&& found.0 == AssessmentKind::Okay && m.brake_engaged && m.ok_count < u32::MAX
                ==> e.ok_count == m.ok_count + 1
            &&& a.just_released <==> outcome is Released || outcome is ApplyFailed
                && (m.just_released || m.reapply_pending) || outcome is ReleaseFailed
                && m.just_released
            &&& outcome is Applied || outcome is Released ==> !a.reapply_asked
                && !a.reapply_pending
            &&& outcome is ApplyFailed || outcome is ReleaseFailed ==> a.reapply_asked
                == m.reapply_asked && a.reapply_pending == m.reapply_pending
        }),
{
}

/// What a snapshot between frames wants, from the last policy state: the brake
/// for every fault and for critical readings, a held brake while simulated or
/// warned, a just released one again while warned, and while recovering exactly
/// until the streak is complete.
pub proof fn lemma_standing_wish(m: MachineState)
    ensures
        m.policy_state == SafetyState::HealthyReal ==> !m.desired(),
        m.policy_state == SafetyState::SimulatedSoftwareOnly ==> (m.desired()
            <==> m.brake_engaged),
        m.policy_state == SafetyState::Warning ==> (m.desired() <==> m.brake_engaged
            || m.just_released || m.reapply_asked),
        m.policy_state == SafetyState::Recovering ==> (m.desired() <==> m.ok_count
            < m.limits.release_ok_streak),
        m.policy_state == SafetyState::CriticalBraked || m.policy_state
            == SafetyState::TelemetryMissing || m.policy_state == SafetyState::TelemetryStale
            || m.policy_state == SafetyState::TelemetryInvalid ==> m.desired(),
{
}

/// A transition is counted exactly when the reported state changes, also on a
/// frame, and failures are counted by feedback alone.
pub proof fn lemma_frames_are_counted(m: MachineState, found: Found)
    requires
        m.transitions < u64::MAX,
    ensures
        m.evaluated(found).transitions == m.transitions + (if m.evaluated(found).state != m.state {
            1int
        } else {
            0
        }),
        m.evaluated(found).failures == m.failures,
{
}

/// State ids are the positions in the list of states, and no two are equal.
pub proof fn lemma_state_ids(a: SafetyState, b: SafetyState)
    ensures
        0 <= a.id() < 9,
        SafetyState::ALL@[a.id()] == a,
        a.id() == b.id() ==> a == b,
        SafetyState::HealthyReal.id() == 0 && SafetyState::Warning.id() == 1,
        SafetyState::CriticalBraked.id() == 2 && SafetyState::Recovering.id() == 3,
        SafetyState::TelemetryMissing.id() == 4 && SafetyState::TelemetryStale.id() == 5,
        SafetyState::TelemetryInvalid.id() == 6 && SafetyState::SimulatedSoftwareOnly.id() == 7,
        SafetyState::ActuatorFailure.id() == 8,
{
}

/// Whether settings were refused in these words.
pub open spec fn refused(outcome: Result<SafetyPolicy, PolicyError>, message: Seq<char>) -> bool {
    outcome matches Err(e) && e.0@ == message
}

/// Refused settings are told what is wrong with them: the temperatures first,
/// then the streak, the sample age, the interval, the device, and the watts.
pub proof fn lemma_refusals_name_the_first_fault(
    config: SafetyPolicyConfig,
    device_default_w: Option<Binary32>,
    outcome: Result<SafetyPolicy, PolicyError>,
)
    requires
        call_ensures(SafetyPolicyConfig::resolve, (&config, device_default_w), outcome),
    ensures
        ({
            let one = binary32::one_in_units();
            let hot = config.temp_warn_c.finite() && config.temp_critical_c.finite() && 0
                < config.temp_warn_c.units() < config.temp_critical_c.units() <= 125 * one;
            let streak = config.release_ok_streak >= 1;
            let age = 1 <= config.max_sample_age_ms <= 2000;
            let interval = 1 <= config.max_acquisition_interval_ms <= config.max_sample_age_ms;
            let device = device_default_w matches Some(w) ==> w.finite() && 0 < w.units() <= 2000
                * one;
            let rest = hot && streak && age && interval && device;
            let warn = config.power_warn_w;
            let critical = config.power_critical_w;
            let paired = (warn is Some) == (critical is Some);
            let both = warn is Some && critical is Some;
            let ordered = warn->0.finite() && critical->0.finite() && 0 < warn->0.units()
                < critical->0.units() <= 2000 * one;
            &&& !hot ==> refused(
                outcome,
                "temperature limits must be finite: 0 < warning < critical <= 125 C"@,
            )
            &&& hot && !streak ==> refused(outcome, "release Ok streak must be positive"@)
            &&& hot && streak && !age ==> refused(
                outcome,
                "maximum sample age must be in 1..=2000 ms"@,
            )
            &&& hot && streak && age && !interval ==> refused(
                outcome,
                "maximum acquisition interval must be positive and no greater than maximum sample age"@,
            )
            &&& hot && streak && age && interval && !device ==> refused(
                outcome,
                "device default power limit must be finite and in (0, 2000] W"@,
            )
            &&& rest && !paired ==> refused(
                outcome,
                "power warning and critical overrides must be supplied together"@,
            )
            &&& rest && both && !ordered ==> refused(
                outcome,
                "power limits must be finite: 0 < warning < critical <= 2000 W"@,
            )
            &&& rest && both && ordered && device_default_w is Some && critical->0.units()
                > device_default_w->0.units() ==> refused(
                outcome,
                "explicit critical power exceeds the device default power limit"@,
            )
        }),
{
    crate::telemetry::laws::lemma_engineering_values();
}

/// A step interval is accepted exactly within the policy's interval bound and if
/// ten steps fit into its sample-age bound.
pub proof fn lemma_step_interval_fits(
    policy: SafetyPolicy,
    step_interval_ms: u64,
    outcome: Result<(), PolicyError>,
)
    requires
        call_ensures(SafetyPolicy::check_step_interval, (&policy, step_interval_ms), outcome),
    ensures
        outcome is Ok <==> step_interval_ms <= policy@.config.max_acquisition_interval_ms && 10
            * step_interval_ms <= policy@.config.max_sample_age_ms,
{
}

/// The instantaneous status of a real frame with valid readings goes by the
/// documented thresholds: critical above 85 degrees or 350 W, otherwise a
/// warning from 75 degrees or 300 W on, and otherwise fine.
pub proof fn lemma_instant_status_of_readings(
    frame: TelemetryFrame,
    status: (SafetyStatus, bool),
    temp: Binary32,
    power: Binary32,
)
    requires
        call_ensures(classify::instant_status, (&frame,), status),
        frame.source != TelemetrySource::SoftwareFallback,
        frame.gpu_temp_c.validity == SampleValidity::Valid,
        frame.gpu_temp_c.value == Some(temp),
        frame.power_w.validity == SampleValidity::Valid,
        frame.power_w.value == Some(power),
        temp.finite(),
        power.finite(),
    ensures
        ({
            let one = binary32::one_in_units();
            let critical = temp.units() > 85 * one || power.units() > 350 * one;
            let warned = temp.units() >= 75 * one || power.units() >= 300 * one;
            &&& status.0 is Critical <==> critical
            &&& status.0 is Warn <==> !critical && warned
            &&& status.0 is Okay <==> !critical && !warned
            &&& !status.1
        }),
{
    lemma_documented_thresholds();
}

/// A share below a tenth brakes as a tenth does, and within a tenth and one the
/// target is the whole watts of the default times the share, rounded once.
pub proof fn lemma_brake_share_is_limited(default_w: u32, pct: Binary32)
    requires
        default_w < 0x100_0000,
        !pct.nan(),
    ensures
        ({
            let tenth = Binary32 { bits: 0x3dcc_cccd };
            let w = brake::target(default_w, pct);
            let one = binary32::one_in_units();
            &&& binary32::is_nearest(one, 10, tenth.bits as int)
            &&& pct.units() < tenth.units() ==> w == brake::target(default_w, tenth)
            &&& tenth.units() <= pct.units() <= one ==> exists|k: int| #[trigger]
                binary32::is_nearest(default_w * pct.units(), 1, k) && w * one
                    <= binary32::magnitude(k) < (w + 1) * one
        }),
{
    let one = binary32::one_in_units();
    let low = Binary32 { bits: brake::MIN_BRAKE_SHARE };
    let high = Binary32 { bits: brake::MAX_BRAKE_SHARE };
    lemma2_to64();
    lemma_pow2_pos(149);
    laws::lemma_share(0x3dcc_cccd, 0xcc_cccd, 122, 27, 1, 10);
    laws::lemma_whole(brake::MAX_BRAKE_SHARE as int, 0x80_0000, 126, 1, 23);
    binary32::lemma_units_signs(low);
    binary32::lemma_units_signs(high);
    binary32::lemma_units_signs(pct);
    binary32::lemma_magnitude_monotonic(brake::MIN_BRAKE_SHARE as int, brake::MAX_BRAKE_SHARE as int);
    if low.units() <= pct.units() <= one {
        laws::lemma_clamping(pct, low, high);
        laws::lemma_integer_exact(default_w);
        let d = convert::of_integer(default_w);
        binary32::lemma_units_signs(d);
        let n = arithmetic::absolute_of(d.units()) * arithmetic::absolute_of(pct.units());
        let exact = default_w * pct.units();
        if pct.infinite() {
            binary32::lemma_magnitude_monotonic(
                brake::MAX_BRAKE_SHARE as int,
                binary32::INFINITY_BITS as int,
            );
        }
        assert(n == exact * one) by (nonlinear_arith)
            requires
                n == (default_w * one) * pct.units(),
                exact == default_w * pct.units(),
        ;
        assert(exact >= 0) by (nonlinear_arith)
            requires
                exact == default_w * pct.units(),
                default_w >= 0,
                pct.units() >= 0,
        ;
        assert(n >= 0) by (nonlinear_arith)
            requires
                n == exact * one,
                exact >= 0,
                one > 0,
        ;
        laws::lemma_nearest_exists(n, one);
        let k = binary32::nearest(n, one);
        laws::lemma_nearest_scaled(exact, 1, one, k);
        let p = arithmetic::product(d, pct);
        assert(p == Binary32::signed(false, k));
        laws::lemma_share_does_not_exceed(d, pct);
        laws::lemma_truncation(p);
        assert(d.units() < (u32::MAX + 1) * one) by (nonlinear_arith)
            requires
                d.units() == default_w * one,
                default_w < u32::MAX,
                one > 0,
        ;
    }
}

/// A machine starts without a brake, asking for one until a frame says
/// otherwise; with a leftover brake it starts recovering from none.
pub proof fn lemma_how_a_machine_starts(limits: SafetyLimits, m: MachineState)
    ensures
        ({
            let start = machine::initial(limits);
            let seeded = m.seeded();
            &&& start.limits == limits
            &&& !start.brake_engaged && start.desired() && !start.just_released
            &&& start.state == SafetyState::TelemetryMissing && start.policy_state
                == SafetyState::TelemetryMissing
            &&& start.error is None && start.ok_count == 0
            &&& start.transitions == 0 && start.failures == 0
            &&& start.reason == "no telemetry evaluated yet"@
            &&& seeded.brake_engaged && seeded.ok_count == 0 && !seeded.just_released
            &&& !seeded.reapply_asked && !seeded.reapply_pending
            &&& seeded.state == SafetyState::Recovering && seeded.policy_state
                == SafetyState::Recovering
            &&& seeded.reason == "leftover emergency brake detected at startup"@
            &&& seeded.limits == m.limits && seeded.error == m.error
            &&& seeded.transitions == m.transitions && seeded.failures == m.failures
        }),
{
}

/// Labels of the states, as exported.
pub proof fn lemma_state_labels(state: SafetyState, label: &'static str)
    requires
        call_ensures(SafetyState::as_str, (state,), label),
    ensures
        state == SafetyState::HealthyReal ==> label@ == "healthy_real"@,
        state == SafetyState::Warning ==> label@ == "warning"@,
        state == SafetyState::CriticalBraked ==> label@ == "critical_braked"@,
        state == SafetyState::Recovering ==> label@ == "recovering"@,
        state == SafetyState::TelemetryMissing ==> label@ == "telemetry_missing"@,
        state == SafetyState::TelemetryStale ==> label@ == "telemetry_stale"@,
        state == SafetyState::TelemetryInvalid ==> label@ == "telemetry_invalid"@,
        state == SafetyState::SimulatedSoftwareOnly ==> label@ == "simulated_software_only"@,
        state == SafetyState::ActuatorFailure ==> label@ == "actuator_failure"@,
{
}

/// Labels of the power-limit observations, and which of them adopts a brake.
pub proof fn lemma_observation_labels(
    found: PowerLimitObservation,
    label: &'static str,
    seeds: bool,
)
    requires
        call_ensures(PowerLimitObservation::as_str, (found,), label),
        call_ensures(PowerLimitObservation::should_seed_leftover_brake, (found,), seeds),
    ensures
        found == PowerLimitObservation::Unavailable ==> label@ == "unavailable"@,
        found == PowerLimitObservation::AmbiguousTarget ==> label@ == "ambiguous_target"@,
        found == PowerLimitObservation::RelayBrake ==> label@ == "relay_brake"@,
        found == PowerLimitObservation::ForeignSubDefaultCap ==> label@
            == "foreign_sub_default_cap"@,
        found == PowerLimitObservation::AtOrAboveDefault ==> label@ == "at_or_above_default"@,
        seeds <==> found == PowerLimitObservation::RelayBrake,
{
}

/// Actuator errors say what failed: a refused command in its own words, and an
/// unknown limit as such.
pub proof fn lemma_actuator_messages(error: ActuatorError, text: String)
    requires
        call_ensures(ActuatorError::message, (&error,), text),
    ensures
        error matches ActuatorError::CommandFailed(reason) ==> text@
            == "actuation command failed: "@ + reason@,
        error is PowerLimitUnavailable ==> text@
            == "power limit unavailable via backend; refusing arbitrary fallback"@,
{
}

/// What evaluating a frame asks for, by what the frame is classified as: an
/// apply exactly with the brake off and a fault, a critical reading or a warning
/// right after a release; a release exactly with the brake on and a healthy
/// frame that completes the streak. The brake itself does not move.
pub proof fn lemma_evaluation_asks(
    machine: &mut SafetyMachine,
    frame: TelemetryFrame,
    found: FrameAssessment,
    snapshot: SafetySnapshot,
)
    requires
        call_ensures(SafetyMachine::evaluate, (machine, &frame), snapshot),
        call_ensures(classify::classify_frame_with, (&frame, &old(machine)@.limits), found),
        old(machine)@.ok_count < u32::MAX,
    ensures
        ({
            let before = old(machine)@;
            let after = final(machine)@;
            let alarm = found.kind == AssessmentKind::Missing || found.kind
                == AssessmentKind::Invalid || found.kind == AssessmentKind::Stale || found.kind
                == AssessmentKind::Critical;
            &&& snapshot.intent == BrakeIntent::Apply <==> !before.brake_engaged && (alarm
                || found.kind == AssessmentKind::Warn && before.just_released)
            &&& snapshot.intent == BrakeIntent::Release <==> before.brake_engaged && found.kind
                == AssessmentKind::Okay && before.ok_count + 1 >= before.limits.release_ok_streak
            &&& after.brake_engaged == before.brake_engaged && snapshot.brake_engaged
                == before.brake_engaged
            &&& snapshot.last_reason@ == found.reason@
            &&& snapshot.hysteresis_ok_count == (if before.brake_engaged && found.kind
                == AssessmentKind::Okay {
                before.ok_count + 1
            } else {
                0
            })
            &&& !snapshot.actuator_failed
            &&& snapshot.transition is Some <==> after.state != before.state
            &&& snapshot.state == after.state
        }),
{
}

/// What the feedback of a command leaves behind, and how the snapshot shows it.
pub proof fn lemma_feedback_is_recorded(
    machine: &mut SafetyMachine,
    outcome: ActuatorOutcome,
    snapshot: SafetySnapshot,
)
    requires
        call_ensures(SafetyMachine::record_actuator, (machine, outcome), snapshot),
    ensures
        ({
            let before = old(machine)@;
            let after = final(machine)@;
            &&& snapshot.brake_engaged <==> outcome is Applied || outcome is ReleaseFailed
                && before.brake_engaged
            &&& after.brake_engaged == snapshot.brake_engaged
            &&& snapshot.actuator_failed <==> outcome is ApplyFailed || outcome is ReleaseFailed
            &&& snapshot.state == SafetyState::ActuatorFailure <==> snapshot.actuator_failed
                || before.policy_state == SafetyState::ActuatorFailure && outcome is Applied
            &&& outcome matches ActuatorOutcome::ApplyFailed(text) ==> snapshot.last_actuator_error
                is Some && snapshot.last_actuator_error->0@ == text@
            &&& outcome matches ActuatorOutcome::ReleaseFailed(text)
                ==> snapshot.last_actuator_error is Some && snapshot.last_actuator_error->0@
                == text@
            &&& outcome is Applied || outcome is Released ==> snapshot.last_actuator_error is None
            &&& outcome is Released ==> snapshot.policy_state == SafetyState::HealthyReal
                && !snapshot.desired_brake && snapshot.hysteresis_ok_count == 0
            &&& after.limits == before.limits
            &&& snapshot.transition is Some <==> after.state != before.state
        }),
{
}

/// Looking does not touch: a snapshot shows the machine as it is, without a
/// transition or a failure of its own.
pub proof fn lemma_snapshot_shows_the_machine(machine: SafetyMachine, snapshot: SafetySnapshot)
    requires
        call_ensures(SafetyMachine::snapshot, (&machine,), snapshot),
    ensures
        snapshot.state == machine@.state,
        snapshot.policy_state == machine@.policy_state,
        snapshot.brake_engaged == machine@.brake_engaged,
        snapshot.hysteresis_ok_count == machine@.ok_count,
        snapshot.last_reason@ == machine@.reason,
        snapshot.last_actuator_error is Some <==> machine@.error is Some,
        snapshot.transition is None,
        !snapshot.actuator_failed,
        snapshot.intent == BrakeIntent::Apply <==> snapshot.desired_brake
            && !snapshot.brake_engaged,
        snapshot.intent == BrakeIntent::Release <==> !snapshot.desired_brake
            && snapshot.brake_engaged,
{
}

/// The scripted actuator: a configured failure is returned and changes nothing
/// but the call count; otherwise an apply engages and a release disengages.
pub proof fn lemma_scripted_actuator(
    applied: &mut FakeActuator,
    released: &mut FakeActuator,
    pct: Binary32,
    applying: Result<(), ActuatorError>,
    releasing: Result<(), ActuatorError>,
)
    requires
        call_ensures(FakeActuator::apply_emergency_brake, (applied, pct), applying),
        call_ensures(FakeActuator::release_emergency_brake, (released,), releasing),
        old(applied)@.apply_calls < u32::MAX,
        old(released)@.release_calls < u32::MAX,
    ensures
        applying is Ok <==> old(applied)@.fail_apply is None,
        applying matches Err(e) ==> old(applied)@.fail_apply == Some(e),
        applying is Ok ==> final(applied)@.engaged,
        applying is Err ==> final(applied)@.engaged == old(applied)@.engaged,
        final(applied)@.apply_calls == old(applied)@.apply_calls + 1,
        final(applied)@.release_calls == old(applied)@.release_calls,
        releasing is Ok <==> old(released)@.fail_release is None,
        releasing matches Err(e) ==> old(released)@.fail_release == Some(e),
        releasing is Ok ==> !final(released)@.engaged,
        releasing is Err ==> final(released)@.engaged == old(released)@.engaged,
        final(released)@.release_calls == old(released)@.release_calls + 1,
        final(released)@.apply_calls == old(released)@.apply_calls,
{
}

/// A policy shows what it was resolved to, and brakes to half of the default.
pub proof fn lemma_policy_shows_its_limits(
    policy: SafetyPolicy,
    power: Option<(Binary32, Binary32)>,
    fraction: Binary32,
    limits: SafetyLimits,
)
    requires
        call_ensures(SafetyPolicy::power_limits_w, (&policy,), power),
        call_ensures(SafetyPolicy::brake_fraction, (&policy,), fraction),
        call_ensures(SafetyPolicy::limits, (&policy,), limits),
    ensures
        power == policy@.power,
        limits.power_w == policy@.power,
        limits.temp_warn_c == policy@.config.temp_warn_c,
        limits.temp_critical_c == policy@.config.temp_critical_c,
        limits.release_ok_streak == policy@.config.release_ok_streak,
        2 * fraction.units() == binary32::one_in_units(),
{
    lemma2_to64();
    lemma_pow2_unfold(149);
    binary32::lemma_magnitude_parts(125, 0x80_0000);
    lemma_pow2_adds(23, 125);
}

} // verus!
