//! What holds of telemetry samples, frames and mappings as a whole.

use crate::binary32;
use crate::binary32::arithmetic;
use crate::binary32::laws;
use crate::binary32::{Binary32, EPSILON_BITS, ONE_BITS, ZERO_BITS};
use crate::telemetry;
use crate::telemetry::mapping;
use crate::telemetry::signal::{
    GPU_CLOCK_MAX_MHZ, GPU_CLOCK_SCALE_MHZ, HUNDRED, MEM_CLOCK_MAX_MHZ, MEM_CLOCK_SCALE_MHZ,
    POWER_MAX_W, POWER_SCALE_W, TEMPERATURE_MAX_C,
};
use crate::telemetry::{
    MappedStimulus, Normalization, ObservabilitySnapshot, RawTelemetry, SampleValidity,
    SensoryMapping, SignalId, SignalOrigin, SignalSpec, TelemetryFrame, TelemetrySample,
    TelemetrySource, Unit, DEFAULT_ACQUISITION_CADENCE_MS, OBSERVABILITY_STALE_AFTER_MS,
    SAFETY_EVAL_CADENCE_MS, SAFETY_EVAL_TICKS, SAFETY_STALE_AFTER_MS,
};
use crate::time;
use crate::time::UnixMillis;
use vstd::arithmetic::power2::*;
use vstd::prelude::*;

verus! {

/// A sensor that was not read is a missing sample without a value and without
/// a model input; it never becomes a zero.
pub proof fn lemma_missing_stays_missing(
    frame: TelemetryFrame,
    raw: RawTelemetry,
    now: UnixMillis,
    cadence_ms: u64,
    clock: time::ClockState,
    id: SignalId,
)
    requires
        telemetry::assesses(frame, raw, now, cadence_ms, clock),
        raw.reading(id) is None,
    ensures
        frame.sample(id).validity == SampleValidity::Missing,
        frame.sample(id).value is None,
        telemetry::model_input(frame.sample(id)) is None,
{
}

/// A non-finite reading is invalid and loses its number; an out-of-range one is
/// invalid and keeps it.
pub proof fn lemma_unusable_readings_are_invalid(
    frame: TelemetryFrame,
    raw: RawTelemetry,
    now: UnixMillis,
    cadence_ms: u64,
    clock: time::ClockState,
    id: SignalId,
    reading: Binary32,
)
    requires
        telemetry::assesses(frame, raw, now, cadence_ms, clock),
        raw.reading(id) == Some(reading),
        !reading.finite() || reading.below(id.lowest()) || id.highest().below(reading),
    ensures
        frame.sample(id).validity == SampleValidity::Invalid,
        telemetry::model_input(frame.sample(id)) is None,
        !reading.finite() ==> frame.sample(id).value is None,
        reading.finite() ==> frame.sample(id).value == Some(reading),
{
}

/// A source time after the receive time makes every present sample invalid and
/// flags the frame.
pub proof fn lemma_future_source_is_invalid(
    frame: TelemetryFrame,
    raw: RawTelemetry,
    now: UnixMillis,
    cadence_ms: u64,
    clock: time::ClockState,
    at: UnixMillis,
    id: SignalId,
)
    requires
        telemetry::assesses(frame, raw, now, cadence_ms, clock),
        raw.source_unix_ms == Some(at),
        at > now,
        raw.reading(id) is Some,
    ensures
        frame.sample(id).validity == SampleValidity::Invalid,
        frame.source_time_status == time::SourceTimeStatus::Future,
{
}

/// Without a source time a reading is as old as its receipt: it is never stale
/// on arrival, and the frame says that the source time is missing.
pub proof fn lemma_missing_source_time_is_not_stale(
    frame: TelemetryFrame,
    raw: RawTelemetry,
    now: UnixMillis,
    cadence_ms: u64,
    clock: time::ClockState,
    id: SignalId,
)
    requires
        telemetry::assesses(frame, raw, now, cadence_ms, clock),
        raw.source_unix_ms is None,
    ensures
        frame.sample(id).validity != SampleValidity::Stale,
        frame.sample(id).observed_at == now,
        frame.source_time_status == time::SourceTimeStatus::Missing,
{
    let cadence = telemetry::recorded_cadence(cadence_ms);
    assert(2 * SAFETY_EVAL_TICKS * cadence > 0) by (nonlinear_arith)
        requires
            cadence >= 1,
            SAFETY_EVAL_TICKS == 10,
    ;
}

/// Judging a frame again at the time of its assessment changes nothing: an
/// observability snapshot taken then shows the frame's own samples.
pub proof fn lemma_rejudging_at_assessment_changes_nothing(
    frame: TelemetryFrame,
    raw: RawTelemetry,
    now: UnixMillis,
    cadence_ms: u64,
    clock: time::ClockState,
    id: SignalId,
)
    requires
        telemetry::assesses(frame, raw, now, cadence_ms, clock),
    ensures
        telemetry::rejudged(
            frame.sample(id),
            now,
            telemetry::stale_threshold(id, frame.acquisition_cadence_ms),
        ) == frame.sample(id),
{
}

/// Provenance is the acquisition path, whatever the numbers are.
pub proof fn lemma_provenance_is_never_inferred(
    frame: TelemetryFrame,
    raw: RawTelemetry,
    now: UnixMillis,
    cadence_ms: u64,
    clock: time::ClockState,
    id: SignalId,
)
    requires
        telemetry::assesses(frame, raw, now, cadence_ms, clock),
    ensures
        frame.source == raw.source,
        frame.sample(id).source == raw.source,
{
}

/// Holding a sample never makes it valid, never changes its value, and leaves a
/// sample that is not valid as it is.
pub proof fn lemma_held_never_upgrades(
    sample: TelemetrySample<Binary32>,
    received_at: UnixMillis,
    now: UnixMillis,
    stale_after_ms: u64,
)
    ensures
        telemetry::held(sample, received_at, now, stale_after_ms).value == sample.value,
        sample.validity != SampleValidity::Valid ==> telemetry::held(
            sample,
            received_at,
            now,
            stale_after_ms,
        ) == sample,
        telemetry::held(sample, received_at, now, stale_after_ms).validity != sample.validity ==>
            sample.validity == SampleValidity::Valid && telemetry::held(
            sample,
            received_at,
            now,
            stale_after_ms,
        ).validity == SampleValidity::Stale,
{
}

/// A receive clock that moves back leaves every held sample as it is.
pub proof fn lemma_backward_clock_changes_nothing(
    sample: TelemetrySample<Binary32>,
    received_at: UnixMillis,
    now: UnixMillis,
    stale_after_ms: u64,
)
    requires
        now <= received_at,
        stale_after_ms > 0,
    ensures
        telemetry::held(sample, received_at, now, stale_after_ms) == sample,
{
}

/// At the default cadence the thresholds are the documented ones.
pub proof fn lemma_default_thresholds(id: SignalId)
    ensures
        telemetry::stale_threshold(id, DEFAULT_ACQUISITION_CADENCE_MS) == id.stale_after(),
{
}

/// Linear normalization of a finite value lies in `[0, 1]`.
pub proof fn lemma_normalized_in_unit_interval(scale: Normalization, value: Binary32)
    requires
        scale is Linear,
        scale->min.finite(),
        scale->max.finite(),
        value.finite(),
    ensures
        (Binary32 { bits: ZERO_BITS }).at_most(scale.of(value)),
        scale.of(value).at_most(Binary32 { bits: ONE_BITS }),
{
    let zero = Binary32 { bits: ZERO_BITS };
    let one = Binary32 { bits: ONE_BITS };
    binary32::lemma_units_signs(zero);
    binary32::lemma_units_signs(one);
    let span = arithmetic::difference(scale->max, scale->min);
    laws::lemma_difference_is_number(scale->max, scale->min);
    laws::lemma_difference_is_number(value, scale->min);
    let width = Binary32::signed(false, span.abs_bits());
    if span.finite() && !width.below(Binary32 { bits: EPSILON_BITS }) {
        binary32::lemma_units_signs(Binary32 { bits: EPSILON_BITS });
        binary32::lemma_units_signs(width);
        laws::lemma_quotient_is_number(arithmetic::difference(value, scale->min), span);
        laws::lemma_clamp_bounds(
            arithmetic::quotient(arithmetic::difference(value, scale->min), span),
            zero,
            one,
        );
    }
}

/// The model input of every assessed sample, held or not, is in `[0, 1]`.
pub proof fn lemma_model_input_in_unit_interval(sample: TelemetrySample<Binary32>)
    requires
        sample.value matches Some(v) ==> v.finite(),
    ensures
        telemetry::model_input(sample) matches Some(input) ==> (Binary32 {
            bits: ZERO_BITS,
        }).at_most(input) && input.at_most(Binary32 { bits: ONE_BITS }),
{
    if sample.value is Some {
        lemma_normalized_in_unit_interval(sample.signal.scale(), sample.value->0);
    }
}

/// Linear normalization maps a usable scale's ends to exactly 0 and 1.
pub proof fn lemma_normalization_ends(scale: Normalization)
    requires
        scale is Linear,
        scale->min.finite(),
        scale->max.finite(),
        ({
            let span = arithmetic::difference(scale->max, scale->min);
            span.finite() && !span.negative() && !span.below(Binary32 { bits: EPSILON_BITS })
        }),
    ensures
        scale.of(scale->min) == (Binary32 { bits: ZERO_BITS }),
        scale.of(scale->max) == (Binary32 { bits: ONE_BITS }),
{
    let zero = Binary32 { bits: ZERO_BITS };
    let one = Binary32 { bits: ONE_BITS };
    let min = scale->min;
    let span = arithmetic::difference(scale->max, min);
    binary32::lemma_units_signs(zero);
    binary32::lemma_units_signs(one);
    binary32::lemma_units_signs(span);
    binary32::lemma_units_signs(min);
    binary32::lemma_units_signs(Binary32 { bits: EPSILON_BITS });
    let negated = Binary32::signed(!min.negative(), min.abs_bits());
    binary32::lemma_units_signs(negated);
    assert(min.units() + negated.units() == 0);
    assert(arithmetic::difference(min, min) == zero);
    assert(arithmetic::quotient(zero, span) == zero);
    laws::lemma_self_quotient(span);
}

/// The sensory mapping of an assessed frame holds exactly the temperature,
/// power, graphics clock and memory utilization channels, in this order.
pub proof fn lemma_mapping_channels(
    mapping: SensoryMapping,
    at: UnixMillis,
    frame: TelemetryFrame,
    raw: RawTelemetry,
    now: UnixMillis,
    cadence_ms: u64,
    clock: time::ClockState,
)
    requires
        telemetry::assesses(frame, raw, now, cadence_ms, clock),
        mapping::maps_frame(mapping, frame, at),
    ensures
        mapping.stimuli@.len() == 4,
        mapping.stimuli@[0].signal == SignalId::GpuTempC,
        mapping.stimuli@[1].signal == SignalId::PowerW,
        mapping.stimuli@[2].signal == SignalId::GpuClockMhz,
        mapping.stimuli@[3].signal == SignalId::MemUtilPct,
{
    reveal_with_fuel(mapping::runtime_samples, 9);
    assert(forall|id: SignalId| (#[trigger] frame.sample(id)).signal == id);
}

/// A mapped channel carries a model input only if it is valid at mapping time,
/// and it is valid then only if it was valid when the frame was assessed.
pub proof fn lemma_mapping_never_upgrades(
    mapping: SensoryMapping,
    frame: TelemetryFrame,
    now: UnixMillis,
    i: int,
)
    requires
        mapping::maps_frame(mapping, frame, now),
        0 <= i < mapping.stimuli@.len(),
    ensures
        mapping.stimuli@[i].normalized is Some ==> mapping.stimuli@[i].validity
            == SampleValidity::Valid,
        mapping.stimuli@[i].validity == SampleValidity::Valid ==> mapping::runtime_samples(
            frame,
            8,
        )[i].validity == SampleValidity::Valid,
{
}

/// The engineering ranges and scales, in degrees, watts, megahertz and percent.
pub proof fn lemma_engineering_values()
    ensures
        SignalId::GpuTempC.highest().units() == 125 * binary32::one_in_units(),
        SignalId::VramTempC.highest().units() == 125 * binary32::one_in_units(),
        SignalId::PowerW.highest().units() == 2000 * binary32::one_in_units(),
        SignalId::GpuClockMhz.highest().units() == 3000 * binary32::one_in_units(),
        SignalId::MemClockMhz.highest().units() == 12000 * binary32::one_in_units(),
        SignalId::FanSpeedPct.highest().units() == 100 * binary32::one_in_units(),
        SignalId::MemUtilPct.highest().units() == 100 * binary32::one_in_units(),
        SignalId::PowerW.scale()->max.units() == 350 * binary32::one_in_units(),
        SignalId::GpuClockMhz.scale()->max.units() == 2500 * binary32::one_in_units(),
        SignalId::MemClockMhz.scale()->max.units() == 10000 * binary32::one_in_units(),
        SignalId::GpuTempC.scale()->max.units() == 100 * binary32::one_in_units(),
{
    lemma2_to64();
    laws::lemma_whole(TEMPERATURE_MAX_C as int, 0xfa_0000, 132, 125, 17);
    laws::lemma_whole(POWER_MAX_W as int, 0xfa_0000, 136, 2000, 13);
    laws::lemma_whole(GPU_CLOCK_MAX_MHZ as int, 0xbb_8000, 137, 3000, 12);
    laws::lemma_whole(MEM_CLOCK_MAX_MHZ as int, 0xbb_8000, 139, 12000, 10);
    laws::lemma_whole(HUNDRED as int, 0xc8_0000, 132, 100, 17);
    laws::lemma_whole(POWER_SCALE_W as int, 0xaf_0000, 134, 350, 15);
    laws::lemma_whole(GPU_CLOCK_SCALE_MHZ as int, 0x9c_4000, 137, 2500, 12);
    laws::lemma_whole(MEM_CLOCK_SCALE_MHZ as int, 0x9c_4000, 139, 10000, 10);
}

/// Whether every sample of a frame is one of its own signal.
pub open spec fn in_place(frame: TelemetryFrame) -> bool {
    &&& frame.gpu_temp_c.signal == SignalId::GpuTempC
    &&& frame.vram_temp_c.signal == SignalId::VramTempC
    &&& frame.power_w.signal == SignalId::PowerW
    &&& frame.vddcr_gfx_v.signal == SignalId::VddcrGfxV
    &&& frame.gpu_clock_mhz.signal == SignalId::GpuClockMhz
    &&& frame.mem_clock_mhz.signal == SignalId::MemClockMhz
    &&& frame.fan_speed_pct.signal == SignalId::FanSpeedPct
    &&& frame.mem_util_pct.signal == SignalId::MemUtilPct
}

/// Twenty acquisition intervals, as far as they fit.
pub open spec fn twenty_intervals(cadence_ms: u64) -> int {
    if 20 * cadence_ms <= u64::MAX {
        20 * cadence_ms
    } else {
        u64::MAX as int
    }
}

/// Whether a channel shows a sample received `age` ago under a limit: a valid
/// sample stays valid below the limit and is stale from it on, any other stays
/// what it was, and only a channel that is valid carries a model input. The raw
/// value is shown either way.
pub open spec fn shows_by_age(
    stimulus: MappedStimulus,
    sample: TelemetrySample<Binary32>,
    age: int,
    limit: int,
) -> bool {
    &&& sample.validity == SampleValidity::Valid ==> {
        &&& stimulus.validity == SampleValidity::Stale <==> age >= limit
        &&& stimulus.validity == SampleValidity::Valid <==> age < limit
    }
    &&& sample.validity != SampleValidity::Valid ==> stimulus.validity == sample.validity
    &&& stimulus.normalized is Some <==> stimulus.validity == SampleValidity::Valid
        && sample.value is Some
    &&& stimulus.raw == sample.value
    &&& stimulus.signal == sample.signal
    &&& stimulus.source == sample.source
    &&& stimulus.unit == sample.unit
    &&& stimulus.name@ == sample.signal.spec_name()
    &&& stimulus.classification == sample.signal.class()
    &&& stimulus.stale_after_ms == limit
}

/// Every channel of a mapping ages by its receipt: the safety channels within
/// twenty acquisition intervals, the other two within five seconds.
pub proof fn lemma_mapped_channels_age(
    mapping: SensoryMapping,
    frame: TelemetryFrame,
    at: UnixMillis,
)
    requires
        call_ensures(TelemetryFrame::to_sensory_mapping_at, (&frame, at), mapping),
        in_place(frame),
        frame.acquisition_cadence_ms > 0,
    ensures
        ({
            let age = at - frame.received_at_unix_ms;
            let safety = twenty_intervals(frame.acquisition_cadence_ms);
            &&& mapping.stimuli@.len() == 4
            &&& shows_by_age(mapping.stimuli@[0], frame.gpu_temp_c, age, safety)
            &&& shows_by_age(mapping.stimuli@[1], frame.power_w, age, safety)
            &&& shows_by_age(mapping.stimuli@[2], frame.gpu_clock_mhz, age, 5000)
            &&& shows_by_age(mapping.stimuli@[3], frame.mem_util_pct, age, 5000)
            &&& mapping.emitted_at_unix_ms == at
            &&& mapping.received_at_unix_ms == frame.received_at_unix_ms
            &&& mapping.source_unix_ms == frame.source_unix_ms
            &&& mapping.batch_id == frame.batch_id
            &&& mapping.session_id@ == frame.session_id@
            &&& mapping.acquisition_source == frame.source
            &&& mapping.acquisition_cadence_ms == frame.acquisition_cadence_ms
        }),
{
    reveal_with_fuel(mapping::runtime_samples, 9);
    assert(forall|id: SignalId| (#[trigger] frame.sample(id)).signal == id);
    let samples = mapping::runtime_samples(frame, 8);
    assert(samples =~= seq![
        frame.gpu_temp_c,
        frame.power_w,
        frame.gpu_clock_mhz,
        frame.mem_util_pct,
    ]);
}

/// Holding a sample of any signal: a valid one is stale exactly from the limit
/// on, counted from its receipt, and nothing else of it changes.
pub proof fn lemma_held_samples_age(
    sample: TelemetrySample<Binary32>,
    received_at: UnixMillis,
    now: UnixMillis,
    stale_after_ms: u64,
    held: TelemetrySample<Binary32>,
)
    requires
        call_ensures(
            TelemetrySample::<Binary32>::held_at,
            (&sample, received_at, now, stale_after_ms),
            held,
        ),
        stale_after_ms > 0,
    ensures
        sample.validity == SampleValidity::Valid ==> {
            &&& held.validity == SampleValidity::Stale <==> now - received_at >= stale_after_ms
            &&& held.validity == SampleValidity::Valid <==> now - received_at < stale_after_ms
        },
        sample.validity != SampleValidity::Valid ==> held.validity == sample.validity,
        held.value == sample.value,
        held.signal == sample.signal,
        held.source == sample.source,
        held.observed_at == sample.observed_at,
        held.unit == sample.unit,
{
}

/// A channel held longer is never better: what a later mapping of a frame shows
/// as valid, every earlier one shows as valid too.
pub proof fn lemma_later_mappings_show_no_more(
    earlier: SensoryMapping,
    later: SensoryMapping,
    frame: TelemetryFrame,
    i: int,
)
    requires
        call_ensures(
            TelemetryFrame::to_sensory_mapping_at,
            (&frame, earlier.emitted_at_unix_ms),
            earlier,
        ),
        call_ensures(
            TelemetryFrame::to_sensory_mapping_at,
            (&frame, later.emitted_at_unix_ms),
            later,
        ),
        earlier.emitted_at_unix_ms <= later.emitted_at_unix_ms,
        0 <= i < later.stimuli@.len(),
    ensures
        earlier.stimuli@.len() == later.stimuli@.len(),
        later.stimuli@[i].validity == SampleValidity::Valid ==> earlier.stimuli@[i].validity
            == SampleValidity::Valid,
        later.stimuli@[i].raw == earlier.stimuli@[i].raw,
        later.stimuli@[i].normalized is Some ==> later.stimuli@[i].normalized
            == earlier.stimuli@[i].normalized,
{
}

/// Whether `sample` is a reading of a signal as its range and age judge it.
/// The range ends are in units.
pub open spec fn judged_as(
    sample: TelemetrySample<Binary32>,
    raw: Option<Binary32>,
    age: int,
    low: int,
    high: int,
    limit: int,
) -> bool {
    match raw {
        None => sample.validity == SampleValidity::Missing && sample.value is None,
        Some(v) => {
            let unusable = !v.finite() || age < 0 || v.units() < low || v.units() > high;
            &&& sample.value == (if v.finite() {
                Some(v)
            } else {
                None
            })
            &&& sample.validity == SampleValidity::Invalid <==> unusable
            &&& sample.validity == SampleValidity::Stale <==> !unusable && age >= limit
            &&& sample.validity == SampleValidity::Valid <==> !unusable && age < limit
        },
    }
}

/// Every reading is judged by its own range and its age: temperatures up to
/// 125 degrees, power up to 2000 W, clocks up to 3000 and 12000 MHz, shares up
/// to 100%, none of them below zero, and the voltage from 0.4 to 1.5 V.
pub proof fn lemma_readings_are_judged(
    frame: TelemetryFrame,
    raw: RawTelemetry,
    now: UnixMillis,
    cadence_ms: u64,
    clock: time::ClockState,
)
    requires
        telemetry::assesses(frame, raw, now, cadence_ms, clock),
    ensures
        ({
            let one = binary32::one_in_units();
            let at = match raw.source_unix_ms {
                Some(at) => at,
                None => now,
            };
            let age = now - at;
            let safety = twenty_intervals(
                if cadence_ms == 0 {
                    1
                } else {
                    cadence_ms
                },
            );
            let volt = Binary32 { bits: 0x3ecc_cccd };
            &&& judged_as(frame.gpu_temp_c, raw.gpu_temp_c, age, 0, 125 * one, safety)
            &&& judged_as(frame.vram_temp_c, raw.vram_temp_c, age, 0, 125 * one, 5000)
            &&& judged_as(frame.power_w, raw.power_w, age, 0, 2000 * one, safety)
            &&& judged_as(frame.vddcr_gfx_v, raw.vddcr_gfx_v, age, volt.units(), one + one / 2, 5000)
            &&& judged_as(frame.gpu_clock_mhz, raw.gpu_clock_mhz, age, 0, 3000 * one, 5000)
            &&& judged_as(frame.mem_clock_mhz, raw.mem_clock_mhz, age, 0, 12000 * one, 5000)
            &&& judged_as(frame.fan_speed_pct, raw.fan_speed_pct, age, 0, 100 * one, 5000)
            &&& judged_as(frame.mem_util_pct, raw.mem_util_pct, age, 0, 100 * one, 5000)
            &&& in_place(frame)
            &&& frame.gpu_temp_c.observed_at == at && frame.power_w.observed_at == at
            &&& frame.acquired_at == now && frame.received_at_unix_ms == now
            &&& frame.source == raw.source
            &&& frame.source_unix_ms == raw.source_unix_ms
            &&& frame.timestamp_origin == raw.timestamp_origin
            &&& frame.acquisition_cadence_ms > 0
            &&& cadence_ms > 0 ==> frame.acquisition_cadence_ms == cadence_ms
        }),
        binary32::is_nearest(4 * binary32::one_in_units(), 10, 0x3ecc_cccd),
{
    lemma_engineering_values();
    lemma_voltage_values();
    binary32::lemma_units_signs(Binary32 { bits: ZERO_BITS });
    assert(frame.sample(SignalId::GpuTempC) == frame.gpu_temp_c);
    assert(frame.sample(SignalId::VramTempC) == frame.vram_temp_c);
    assert(frame.sample(SignalId::PowerW) == frame.power_w);
    assert(frame.sample(SignalId::VddcrGfxV) == frame.vddcr_gfx_v);
    assert(frame.sample(SignalId::GpuClockMhz) == frame.gpu_clock_mhz);
    assert(frame.sample(SignalId::MemClockMhz) == frame.mem_clock_mhz);
    assert(frame.sample(SignalId::FanSpeedPct) == frame.fan_speed_pct);
    assert(frame.sample(SignalId::MemUtilPct) == frame.mem_util_pct);
}

/// The voltage range is 0.4 to 1.5 V, normalized from 0.5 to 1.2 V; what binary
/// cannot hold is rounded to nearest.
pub proof fn lemma_voltage_values()
    ensures
        binary32::is_nearest(
            4 * binary32::one_in_units(),
            10,
            SignalId::VddcrGfxV.lowest().bits as int,
        ),
        SignalId::VddcrGfxV.highest().units() == binary32::one_in_units()
            + binary32::one_in_units() / 2,
        2 * SignalId::VddcrGfxV.scale()->min.units() == binary32::one_in_units(),
        binary32::is_nearest(
            12 * binary32::one_in_units(),
            10,
            SignalId::VddcrGfxV.scale()->max.bits as int,
        ),
{
    lemma2_to64();
    lemma_pow2_unfold(149);
    laws::lemma_share(0x3ecc_cccd, 0xcc_cccd, 124, 25, 4, 10);
    laws::lemma_share(0x3f99_999a, 0x99_999a, 126, 23, 12, 10);
    binary32::lemma_magnitude_parts(126, 0xc0_0000);
    binary32::lemma_magnitude_parts(125, 0x80_0000);
    lemma_pow2_adds(22, 126);
    lemma_pow2_adds(23, 125);
    assert(0xc0_0000 * pow2(126) == 3 * (0x40_0000 * pow2(126)));
}

/// Which signals may be consumed where: temperature and power by safety and the
/// sensory mapping, the graphics clock and memory utilization by the mapping
/// alone, the rest by neither.
pub proof fn lemma_signal_classes(id: SignalId)
    ensures
        id.class().safety() <==> id == SignalId::GpuTempC || id == SignalId::PowerW,
        id.class().runtime_input() <==> id == SignalId::GpuTempC || id == SignalId::PowerW || id
            == SignalId::GpuClockMhz || id == SignalId::MemUtilPct,
        id.stale_after() == (if id == SignalId::GpuTempC || id == SignalId::PowerW {
            2000u64
        } else {
            5000u64
        }),
        id.lowest().units() == 0 <==> id != SignalId::VddcrGfxV,
        id.unit() == Unit::Celsius <==> id == SignalId::GpuTempC || id == SignalId::VramTempC,
        id.unit() == Unit::Watt <==> id == SignalId::PowerW,
        id.unit() == Unit::Volt <==> id == SignalId::VddcrGfxV,
        id.unit() == Unit::Megahertz <==> id == SignalId::GpuClockMhz || id
            == SignalId::MemClockMhz,
{
    binary32::lemma_units_signs(Binary32 { bits: ZERO_BITS });
    binary32::lemma_units_signs(id.lowest());
}

/// The stale threshold of a signal at any cadence.
pub proof fn lemma_stale_thresholds(id: SignalId, cadence_ms: u64, limit: u64)
    requires
        call_ensures(telemetry::stale_after_ms, (id, cadence_ms), limit),
    ensures
        id == SignalId::GpuTempC || id == SignalId::PowerW ==> limit == twenty_intervals(
            cadence_ms,
        ),
        id != SignalId::GpuTempC && id != SignalId::PowerW ==> limit == 5000,
{
}

/// Whether a sample judged again is what its value, its source time and its
/// range make of it; without a value it stays, unless it comes from the future.
pub open spec fn rejudged_as(
    stimulus: MappedStimulus,
    sample: TelemetrySample<Binary32>,
    at: UnixMillis,
    limit: int,
) -> bool {
    let age = at - sample.observed_at;
    match sample.value {
        Some(v) => {
            let unusable = !v.finite() || age < 0 || v.units() < sample.signal.lowest().units()
                || v.units() > sample.signal.highest().units();
            &&& stimulus.validity == SampleValidity::Invalid <==> unusable
            &&& stimulus.validity == SampleValidity::Stale <==> !unusable && age >= limit
            &&& stimulus.validity == SampleValidity::Valid <==> !unusable && age < limit
            &&& stimulus.normalized is Some <==> stimulus.validity == SampleValidity::Valid
            &&& v.finite() ==> stimulus.raw == Some(v)
        },
        None => {
            &&& stimulus.raw is None && stimulus.normalized is None
            &&& sample.validity == SampleValidity::Missing || age >= 0 ==> stimulus.validity
                == sample.validity
            &&& sample.validity != SampleValidity::Missing && age < 0 ==> stimulus.validity
                == SampleValidity::Invalid
        },
    }
}

/// The observability snapshot shows all eight channels in inventory order, each
/// judged again by its source time.
pub proof fn lemma_snapshot_rejudges_every_channel(
    snapshot: ObservabilitySnapshot,
    frame: TelemetryFrame,
    at: UnixMillis,
)
    requires
        call_ensures(TelemetryFrame::to_observability_snapshot_at, (&frame, at), snapshot),
        in_place(frame),
    ensures
        ({
            let safety = twenty_intervals(frame.acquisition_cadence_ms);
            &&& snapshot.samples@.len() == 8
            &&& rejudged_as(snapshot.samples@[0], frame.gpu_temp_c, at, safety)
            &&& rejudged_as(snapshot.samples@[1], frame.vram_temp_c, at, 5000)
            &&& rejudged_as(snapshot.samples@[2], frame.power_w, at, safety)
            &&& rejudged_as(snapshot.samples@[3], frame.vddcr_gfx_v, at, 5000)
            &&& rejudged_as(snapshot.samples@[4], frame.gpu_clock_mhz, at, 5000)
            &&& rejudged_as(snapshot.samples@[5], frame.mem_clock_mhz, at, 5000)
            &&& rejudged_as(snapshot.samples@[6], frame.fan_speed_pct, at, 5000)
            &&& rejudged_as(snapshot.samples@[7], frame.mem_util_pct, at, 5000)
            &&& snapshot.emitted_at_unix_ms == at
            &&& snapshot.received_at_unix_ms == frame.received_at_unix_ms
            &&& snapshot.source_unix_ms == frame.source_unix_ms
            &&& snapshot.batch_id == frame.batch_id
            &&& snapshot.session_id@ == frame.session_id@
            &&& snapshot.acquisition_source == frame.source
            &&& snapshot.acquisition_cadence_ms == frame.acquisition_cadence_ms
        }),
{
    lemma_voltage_values();
    let all = mapping::inventory(frame, 8);
    assert(all[0] == frame.gpu_temp_c && all[1] == frame.vram_temp_c);
    assert(all[2] == frame.power_w && all[3] == frame.vddcr_gfx_v);
    assert(all[4] == frame.gpu_clock_mhz && all[5] == frame.mem_clock_mhz);
    assert(all[6] == frame.fan_speed_pct && all[7] == frame.mem_util_pct);
}

/// The software-only estimates: 35 degrees, 25 W, 0.7 V, 210 and 405 MHz, 30%
/// fan and an idle utilization of zero, which is a reading and not its absence;
/// they say that they are simulated. Video memory has no estimate.
pub proof fn lemma_idle_estimates(raw: RawTelemetry, at: UnixMillis)
    requires
        call_ensures(RawTelemetry::software_fallback, (at,), raw),
    ensures
        ({
            let one = binary32::one_in_units();
            &&& raw.source == TelemetrySource::SoftwareFallback
            &&& raw.timestamp_origin == time::TimestampOrigin::Simulated
            &&& raw.source_unix_ms == Some(at)
            &&& raw.gpu_temp_c is Some && raw.gpu_temp_c->0.units() == 35 * one
            &&& raw.vram_temp_c is None
            &&& raw.power_w is Some && raw.power_w->0.units() == 25 * one
            &&& raw.vddcr_gfx_v is Some && binary32::is_nearest(
                7 * one,
                10,
                raw.vddcr_gfx_v->0.bits as int,
            )
            &&& raw.gpu_clock_mhz is Some && raw.gpu_clock_mhz->0.units() == 210 * one
            &&& raw.mem_clock_mhz is Some && raw.mem_clock_mhz->0.units() == 405 * one
            &&& raw.fan_speed_pct is Some && raw.fan_speed_pct->0.units() == 30 * one
            &&& raw.mem_util_pct is Some && raw.mem_util_pct->0.units() == 0
        }),
{
    lemma2_to64();
    laws::lemma_whole(0x420c_0000, 0x8c_0000, 131, 35, 18);
    laws::lemma_whole(0x41c8_0000, 0xc8_0000, 130, 25, 19);
    laws::lemma_whole(0x4352_0000, 0xd2_0000, 133, 210, 16);
    laws::lemma_whole(0x43ca_8000, 0xca_8000, 134, 405, 15);
    laws::lemma_whole(0x41f0_0000, 0xf0_0000, 130, 30, 19);
    laws::lemma_share(0x3f33_3333, 0xb3_3333, 125, 24, 7, 10);
    binary32::lemma_units_signs(Binary32 { bits: ZERO_BITS });
}

/// An unreadable device gives no reading at all, of itself and not simulated.
pub proof fn lemma_unavailable_has_no_readings(raw: RawTelemetry, at: UnixMillis, id: SignalId)
    requires
        call_ensures(RawTelemetry::nvml_unavailable, (at,), raw),
    ensures
        raw.reading(id) is None,
        raw.gpu_temp_c is None && raw.power_w is None,
        raw.source == TelemetrySource::NvmlUnavailable,
        raw.timestamp_origin == time::TimestampOrigin::LiveAcquire,
        raw.source_unix_ms == Some(at),
{
}

/// Normalization of every signal but the voltage is the value's share of the
/// scale, rounded once: zero from zero down, one from the end of the scale up,
/// and in between the nearest value to the exact share.
pub proof fn lemma_normalization_is_the_share(id: SignalId, value: Binary32)
    requires
        id != SignalId::VddcrGfxV,
        value.finite(),
    ensures
        ({
            let share = id.scale().of(value);
            let full = id.scale()->max.units();
            &&& value.units() <= 0 ==> share.units() == 0
            &&& value.units() >= full ==> share == (Binary32 { bits: ONE_BITS })
            &&& 0 < value.units() < full ==> binary32::is_nearest(
                value.units() * binary32::one_in_units(),
                full,
                share.bits as int,
            )
        }),
{
    let one = binary32::one_in_units();
    let zero = Binary32 { bits: ZERO_BITS };
    let unit = Binary32 { bits: ONE_BITS };
    let max = id.scale()->max;
    let negated = Binary32::signed(true, 0);
    lemma2_to64();
    lemma_pow2_pos(149);
    laws::lemma_whole(ONE_BITS as int, 0x80_0000, 126, 1, 23);
    binary32::lemma_units_signs(zero);
    binary32::lemma_units_signs(unit);
    binary32::lemma_units_signs(max);
    binary32::lemma_units_signs(negated);
    binary32::lemma_units_signs(value);
    laws::lemma_sum_with_zero(max, negated);
    assert(arithmetic::difference(max, zero) == max);
    binary32::lemma_magnitude_monotonic(EPSILON_BITS as int, max.bits as int);
    let moved = arithmetic::difference(value, zero);
    if value.zero() {
        assert(moved.zero());
        binary32::lemma_units_signs(moved);
        let q = arithmetic::quotient(moved, max);
        assert(q.zero());
        binary32::lemma_units_signs(q);
    } else {
        laws::lemma_sum_with_zero(value, negated);
        assert(moved == value);
        let n = arithmetic::absolute_of(value.units()) * one;
        let q = arithmetic::quotient(value, max);
        laws::lemma_nearest_exists(n, max.units());
        let k = binary32::nearest(n, max.units());
        binary32::lemma_units_signs(q);
        if value.units() > 0 {
            assert(q == Binary32::signed(false, k));
            if value.units() < max.units() {
                assert(n <= max.units() * binary32::magnitude(ONE_BITS as int)) by (nonlinear_arith)
                    requires
                        n == value.units() * one,
                        value.units() < max.units(),
                        one > 0,
                        binary32::magnitude(ONE_BITS as int) == one,
                ;
                laws::lemma_rounds_at_most(n, max.units(), k, ONE_BITS as int);
                if k < ONE_BITS {
                    binary32::lemma_magnitude_monotonic(k, ONE_BITS as int);
                }
            } else {
                assert(n >= max.units() * binary32::magnitude(ONE_BITS as int)) by (nonlinear_arith)
                    requires
                        n == value.units() * one,
                        value.units() >= max.units(),
                        one > 0,
                        binary32::magnitude(ONE_BITS as int) == one,
                ;
                laws::lemma_rounds_at_least(n, max.units(), k, ONE_BITS as int);
                if k > ONE_BITS {
                    binary32::lemma_magnitude_monotonic(ONE_BITS as int, k);
                }
            }
        } else {
            assert(q == Binary32::signed(true, k));
            if k > 0 {
                binary32::lemma_magnitude_monotonic(0, k);
            }
        }
    }
}

/// Canonical names of the signals.
pub proof fn lemma_signal_names(id: SignalId, name: &'static str)
    requires
        call_ensures(SignalId::name, (id,), name),
    ensures
        id == SignalId::GpuTempC ==> name@ == "gpu_temp_c"@,
        id == SignalId::VramTempC ==> name@ == "vram_temp_c"@,
        id == SignalId::PowerW ==> name@ == "power_w"@,
        id == SignalId::VddcrGfxV ==> name@ == "vddcr_gfx_v"@,
        id == SignalId::GpuClockMhz ==> name@ == "gpu_clock_mhz"@,
        id == SignalId::MemClockMhz ==> name@ == "mem_clock_mhz"@,
        id == SignalId::FanSpeedPct ==> name@ == "fan_speed_pct"@,
        id == SignalId::MemUtilPct ==> name@ == "mem_util_pct"@,
{
}

/// A single reading is judged at the default cadence: by its range, and by two
/// seconds for the safety signals and five for the others.
pub proof fn lemma_single_readings_are_judged(
    id: SignalId,
    raw: Option<Binary32>,
    observed_at: UnixMillis,
    source: TelemetrySource,
    now: UnixMillis,
    sample: TelemetrySample<Binary32>,
)
    requires
        call_ensures(
            TelemetrySample::<Binary32>::from_raw,
            (id, raw, observed_at, source, now),
            sample,
        ),
    ensures
        judged_as(
            sample,
            raw,
            now - observed_at,
            id.lowest().units(),
            id.highest().units(),
            if id == SignalId::GpuTempC || id == SignalId::PowerW {
                2000
            } else {
                5000
            },
        ),
        sample.signal == id,
        sample.source == source,
        sample.observed_at == observed_at,
        sample.unit == id.unit(),
{
}

/// Only a valid sample with a value has a model input.
pub proof fn lemma_only_valid_samples_are_inputs(
    sample: TelemetrySample<Binary32>,
    input: Option<Binary32>,
)
    requires
        call_ensures(TelemetrySample::<Binary32>::normalized, (&sample,), input),
    ensures
        input is Some <==> sample.validity == SampleValidity::Valid && sample.value is Some,
        input is Some ==> input == Some(sample.signal.scale().of(sample.value->0)),
{
}

/// The inventory entry of a signal: its own name, unit, range, class and scale,
/// the default cadence, and a derived value for the voltage alone.
pub proof fn lemma_inventory_entries(id: SignalId, spec: SignalSpec, name: &'static str)
    requires
        call_ensures(telemetry::signal_spec, (id,), spec),
        call_ensures(SignalId::name, (id,), name),
    ensures
        spec.id == id,
        spec.name@ == name@,
        spec.unit == id.unit(),
        spec.min == id.lowest(),
        spec.max == id.highest(),
        spec.class == id.class(),
        spec.normalization == id.scale(),
        spec.origin == SignalOrigin::Derived <==> id == SignalId::VddcrGfxV,
        spec.cadence_ms == 100,
        spec.stale_after_ms == telemetry::stale_threshold(id, spec.cadence_ms),
{
}

/// Cadences hang together: safety is evaluated every ten acquisitions, and its
/// signals are stale after two evaluations.
pub proof fn lemma_cadences()
    ensures
        DEFAULT_ACQUISITION_CADENCE_MS == 100,
        SAFETY_EVAL_CADENCE_MS == SAFETY_EVAL_TICKS * DEFAULT_ACQUISITION_CADENCE_MS,
        SAFETY_EVAL_TICKS == 10,
        SAFETY_STALE_AFTER_MS == 2 * SAFETY_EVAL_CADENCE_MS,
        OBSERVABILITY_STALE_AFTER_MS == 5000,
{
}

} // verus!
