//! Hardware bridge: from device readings to raw telemetry.
//!
//! The NVML queries and the power-limit command are side effects of the
//! executable. What becomes of the integers they return is decided here; the
//! brake itself is planned in [`crate::safety::brake`].

use crate::binary32;
use crate::binary32::arithmetic;
use crate::binary32::convert;
use crate::binary32::laws;
use crate::binary32::{Binary32, ONE_BITS, ZERO_BITS};
use crate::safety::classify;
use crate::safety::{instant_status, SafetyLimits, SafetyStatus};
use crate::telemetry;
use crate::telemetry::{
    assess_with_clock, RawTelemetry, SampleClock, SessionSeed, TelemetryFrame, TelemetrySource,
    TimestampOrigin, UnixMillis, DEFAULT_ACQUISITION_CADENCE_MS,
};
use crate::time;
use vstd::arithmetic::power2::*;
use vstd::prelude::*;

verus! {

/// Pattern of 50 W, idle board power.
pub const IDLE_POWER_W: u32 = 0x4248_0000;

/// Pattern of 300 W, full board power.
pub const FULL_POWER_W: u32 = 0x4396_0000;

/// Pattern of 0.70 V, estimated voltage at idle.
pub const IDLE_VOLTAGE_V: u32 = 0x3f33_3333;

/// Pattern of 1.05 V, estimated voltage at full power.
pub const FULL_VOLTAGE_V: u32 = 0x3f86_6666;

/// Pattern of 1000: milliwatts per watt.
pub const THOUSAND: u32 = 0x447a_0000;

/// Voltage estimate for a board power: linear from idle to full power, and
/// constant beyond either end.
pub open spec fn estimated_voltage(power_w: Binary32) -> Binary32 {
    let idle = Binary32 { bits: IDLE_POWER_W };
    let low = Binary32 { bits: IDLE_VOLTAGE_V };
    let share = convert::clamp(
        arithmetic::quotient(
            arithmetic::difference(power_w, idle),
            arithmetic::difference(Binary32 { bits: FULL_POWER_W }, idle),
        ),
        Binary32 { bits: ZERO_BITS },
        Binary32 { bits: ONE_BITS },
    );
    arithmetic::sum(
        low,
        arithmetic::product(
            share,
            arithmetic::difference(Binary32 { bits: FULL_VOLTAGE_V }, low),
        ),
    )
}

/// Derive an observability-only core voltage estimate from board power.
pub fn derive_vddcr_gfx_v(power_w: Binary32) -> (voltage: Binary32)
    ensures
        voltage == estimated_voltage(power_w),
{
    let idle: Binary32 = Binary32::from_bits(IDLE_POWER_W);
    let low: Binary32 = Binary32::from_bits(IDLE_VOLTAGE_V);
    let zero: Binary32 = Binary32::from_bits(ZERO_BITS);
    let one: Binary32 = Binary32::from_bits(ONE_BITS);
    proof {
        binary32::lemma_units_signs(zero);
        binary32::lemma_units_signs(one);
    }
    let span: Binary32 = Binary32::from_bits(FULL_POWER_W).minus(idle);
    let share: Binary32 = power_w.minus(idle).divided_by(span).clamped(zero, one);
    low.plus(share.times(Binary32::from_bits(FULL_VOLTAGE_V).minus(low)))
}

/// Integers a device reported, each absent if its query failed.
#[derive(Debug, Clone, Copy, PartialEq, Eq)]
pub struct DeviceReadings {
    /// Die temperature (°C).
    pub temperature_c: Option<u32>,
    /// Board power (mW).
    pub power_mw: Option<u32>,
    /// Graphics clock (MHz).
    pub graphics_clock_mhz: Option<u32>,
    /// Memory clock (MHz).
    pub memory_clock_mhz: Option<u32>,
    /// Fan speed (%).
    pub fan_speed_pct: Option<u32>,
    /// Memory utilization (%).
    pub memory_util_pct: Option<u32>,
}

/// Value of an integer reading, if there is one.
pub open spec fn converted(reading: Option<u32>) -> Option<Binary32> {
    match reading {
        Some(n) => Some(convert::of_integer(n)),
        None => None,
    }
}

/// Watts of a milliwatt reading.
pub open spec fn watts(milliwatts: u32) -> Binary32 {
    arithmetic::quotient(convert::of_integer(milliwatts), Binary32 { bits: THOUSAND })
}

/// Raw telemetry of a live device.
///
/// No video memory temperature is reported by the device interface, so that
/// channel stays absent; the voltage is an estimate from power.
pub open spec fn live_telemetry(readings: DeviceReadings, observed_at: UnixMillis) -> RawTelemetry {
    RawTelemetry {
        source_unix_ms: Some(observed_at),
        timestamp_origin: TimestampOrigin::LiveAcquire,
        source: TelemetrySource::Nvml,
        gpu_temp_c: converted(readings.temperature_c),
        vram_temp_c: None,
        power_w: match readings.power_mw {
            Some(mw) => Some(watts(mw)),
            None => None,
        },
        vddcr_gfx_v: match readings.power_mw {
            Some(mw) => Some(estimated_voltage(watts(mw))),
            None => None,
        },
        gpu_clock_mhz: converted(readings.graphics_clock_mhz),
        mem_clock_mhz: converted(readings.memory_clock_mhz),
        fan_speed_pct: converted(readings.fan_speed_pct),
        mem_util_pct: converted(readings.memory_util_pct),
    }
}

fn convert_reading(reading: Option<u32>) -> (value: Option<Binary32>)
    ensures
        value == converted(reading),
{
    match reading {
        Some(n) => Some(Binary32::from_integer(n)),
        None => None,
    }
}

/// Raw telemetry for an acquisition: estimates only if forced, the device's
/// readings if there are any, and otherwise every channel missing.
pub open spec fn acquired(
    force_software: bool,
    readings: Option<DeviceReadings>,
    observed_at: UnixMillis,
) -> RawTelemetry {
    if force_software {
        RawTelemetry::idle_estimates(observed_at)
    } else {
        match readings {
            Some(r) => live_telemetry(r, observed_at),
            None => RawTelemetry::unavailable(observed_at),
        }
    }
}

/// Whole watts of a milliwatt limit.
pub fn whole_watts(limit_mw: u32) -> (watts: u32)
    ensures
        watts == limit_mw as int / 1000,
{
    limit_mw / 1000
}

/// Remembers whether the driver was found unhealthy, so that an outage is
/// reported once and not on every tick.
#[derive(Debug, Clone, Copy, PartialEq, Eq)]
pub struct OutageLog {
    /// Whether the last check found the driver unhealthy.
    pub unhealthy: bool,
}

impl OutageLog {
    /// Notes a health check; true exactly when an outage has just begun.
    pub fn note(&mut self, healthy: bool) -> (report: bool)
        ensures
            report == (!healthy && !old(self).unhealthy),
            final(self).unhealthy == !healthy,
    {
        let report: bool = !healthy && !self.unhealthy;
        self.unhealthy = !healthy;
        report
    }
}

/// Telemetry acquisition from what the device reported.
pub struct HardwareBridge;

impl HardwareBridge {
    /// Raw telemetry only: no validation, no silent zeros for missing sensors.
    ///
    /// The fallback is used only when `force_software` is true. `readings` is
    /// absent when the driver, the library or the device could not be reached.
    pub fn acquire_raw(
        force_software: bool,
        readings: Option<DeviceReadings>,
        observed_at: UnixMillis,
    ) -> (raw: RawTelemetry)
        ensures
            raw == acquired(force_software, readings, observed_at),
    {
        if force_software {
            return RawTelemetry::software_fallback(observed_at);
        }
        match readings {
            Some(r) => HardwareBridge::read_nvml(&r, observed_at),
            None => RawTelemetry::nvml_unavailable(observed_at),
        }
    }

    /// Raw telemetry of a live device.
    pub fn read_nvml(readings: &DeviceReadings, observed_at: UnixMillis) -> (raw: RawTelemetry)
        ensures
            raw == live_telemetry(*readings, observed_at),
    {
        let power_w: Option<Binary32> = match readings.power_mw {
            Some(mw) => Some(
                Binary32::from_integer(mw).divided_by(Binary32::from_bits(THOUSAND)),
            ),
            None => None,
        };
        let vddcr_gfx_v: Option<Binary32> = match power_w {
            Some(w) => Some(derive_vddcr_gfx_v(w)),
            None => None,
        };
        RawTelemetry {
            source_unix_ms: Some(observed_at),
            timestamp_origin: TimestampOrigin::LiveAcquire,
            source: TelemetrySource::Nvml,
            gpu_temp_c: convert_reading(readings.temperature_c),
            vram_temp_c: None,
            power_w,
            vddcr_gfx_v,
            gpu_clock_mhz: convert_reading(readings.graphics_clock_mhz),
            mem_clock_mhz: convert_reading(readings.memory_clock_mhz),
            fan_speed_pct: convert_reading(readings.fan_speed_pct),
            mem_util_pct: convert_reading(readings.memory_util_pct),
        }
    }

    /// Acquire and assess at the default cadence, in a new session.
    pub fn read_telemetry_force(
        force_software: bool,
        readings: Option<DeviceReadings>,
        observed_at: UnixMillis,
        now: UnixMillis,
        seed: SessionSeed,
    ) -> (frame: TelemetryFrame)
        ensures
            telemetry::assesses(
                frame,
                acquired(force_software, readings, observed_at),
                now,
                DEFAULT_ACQUISITION_CADENCE_MS,
                time::fresh_session(seed),
            ),
    {
        HardwareBridge::read_telemetry_with(
            force_software,
            readings,
            observed_at,
            now,
            DEFAULT_ACQUISITION_CADENCE_MS,
            seed,
        )
    }

    /// Acquire and assess with the configured tick interval, in a new session.
    pub fn read_telemetry_with(
        force_software: bool,
        readings: Option<DeviceReadings>,
        observed_at: UnixMillis,
        now: UnixMillis,
        cadence_ms: u64,
        seed: SessionSeed,
    ) -> (frame: TelemetryFrame)
        ensures
            telemetry::assesses(
                frame,
                acquired(force_software, readings, observed_at),
                now,
                cadence_ms,
                time::fresh_session(seed),
            ),
    {
        let mut clock: SampleClock = SampleClock::new(seed);
        HardwareBridge::read_telemetry_with_clock(
            force_software,
            readings,
            observed_at,
            now,
            cadence_ms,
            &mut clock,
        )
    }

    /// Acquire and assess through a shared session clock.
    pub fn read_telemetry_with_clock(
        force_software: bool,
        readings: Option<DeviceReadings>,
        observed_at: UnixMillis,
        now: UnixMillis,
        cadence_ms: u64,
        clock: &mut SampleClock,
    ) -> (frame: TelemetryFrame)
        requires
            old(clock)@.next < u64::MAX,
        ensures
            telemetry::assesses(
                frame,
                acquired(force_software, readings, observed_at),
                now,
                cadence_ms,
                old(clock)@,
            ),
            final(clock)@ == time::advanced(old(clock)@, Some(observed_at)),
    {
        let raw: RawTelemetry = HardwareBridge::acquire_raw(force_software, readings, observed_at);
        assess_with_clock(&raw, now, cadence_ms, clock)
    }

    /// Check safety thresholds against a validated frame: the instantaneous
    /// status, and whether the frame is simulated.
    pub fn check_safety(frame: &TelemetryFrame) -> (status: (SafetyStatus, bool))
        ensures
            classify::states(
                status,
                classify::assessment(*frame, SafetyLimits::documented()),
            ),
    {
        instant_status(frame)
    }
}

/// Without the software-only flag, telemetry never claims to be simulated.
pub proof fn lemma_only_forced_is_simulated(
    force_software: bool,
    readings: Option<DeviceReadings>,
    observed_at: UnixMillis,
)
    ensures
        acquired(force_software, readings, observed_at).source == TelemetrySource::SoftwareFallback
            <==> force_software,
{
}

/// Whether `value` is an integer reading as it stands: absent if it is absent,
/// and otherwise exactly its number of ones, as far as a value holds it.
pub open spec fn reads_as(value: Option<Binary32>, reading: Option<u32>) -> bool {
    &&& value is Some <==> reading is Some
    &&& reading matches Some(n) ==> n < 0x100_0000 ==> value->0.finite() && value->0.units() == n
        * binary32::one_in_units()
}

/// A live device's readings go to their own channels: an absent one stays
/// absent, a present one is its number; power is milliwatts divided by a
/// thousand, rounded once. The voltage is there exactly with the power, and
/// video memory has no reading.
pub proof fn lemma_readings_are_converted(
    readings: DeviceReadings,
    observed_at: UnixMillis,
    raw: RawTelemetry,
)
    requires
        call_ensures(HardwareBridge::read_nvml, (&readings, observed_at), raw),
    ensures
        reads_as(raw.gpu_temp_c, readings.temperature_c),
        reads_as(raw.gpu_clock_mhz, readings.graphics_clock_mhz),
        reads_as(raw.mem_clock_mhz, readings.memory_clock_mhz),
        reads_as(raw.fan_speed_pct, readings.fan_speed_pct),
        reads_as(raw.mem_util_pct, readings.memory_util_pct),
        raw.vram_temp_c is None,
        raw.power_w is Some <==> readings.power_mw is Some,
        raw.vddcr_gfx_v is Some <==> readings.power_mw is Some,
        readings.power_mw matches Some(mw) ==> mw < 0x100_0000 ==> binary32::is_nearest(
            mw * binary32::one_in_units(),
            1000,
            raw.power_w->0.bits as int,
        ),
        raw.source == TelemetrySource::Nvml,
        raw.timestamp_origin == TimestampOrigin::LiveAcquire,
        raw.source_unix_ms == Some(observed_at),
{
    lemma_converted(readings.temperature_c);
    lemma_converted(readings.graphics_clock_mhz);
    lemma_converted(readings.memory_clock_mhz);
    lemma_converted(readings.fan_speed_pct);
    lemma_converted(readings.memory_util_pct);
    if readings.power_mw is Some && readings.power_mw->0 < 0x100_0000 {
        lemma_watts(readings.power_mw->0);
    }
}

proof fn lemma_converted(reading: Option<u32>)
    ensures
        reads_as(converted(reading), reading),
{
    if reading is Some && reading->0 < 0x100_0000 {
        laws::lemma_integer_exact(reading->0);
    }
}

proof fn lemma_watts(mw: u32)
    requires
        mw < 0x100_0000,
    ensures
        binary32::is_nearest(mw * binary32::one_in_units(), 1000, watts(mw).bits as int),
{
    let one = binary32::one_in_units();
    let a = convert::of_integer(mw);
    let thousand = Binary32 { bits: THOUSAND };
    lemma2_to64();
    lemma_pow2_pos(149);
    laws::lemma_integer_exact(mw);
    laws::lemma_whole(THOUSAND as int, 0xfa_0000, 135, 1000, 14);
    binary32::lemma_units_signs(a);
    binary32::lemma_units_signs(thousand);
    if a.zero() {
        assert(mw * one == 0);
        assert(watts(mw) == Binary32::signed(false, 0));
    } else {
        let n = arithmetic::absolute_of(a.units()) * one;
        let d = thousand.units();
        laws::lemma_nearest_exists(n, d);
        let k = binary32::nearest(n, d);
        laws::lemma_nearest_scaled(mw * one, 1000, one, k);
    }
}

/// Telemetry is simulated only if that is forced, and then whatever the device
/// says; without a device it has no reading at all.
pub proof fn lemma_acquisition_paths(
    force_software: bool,
    readings: Option<DeviceReadings>,
    observed_at: UnixMillis,
    raw: RawTelemetry,
)
    requires
        call_ensures(HardwareBridge::acquire_raw, (force_software, readings, observed_at), raw),
    ensures
        raw.source == TelemetrySource::SoftwareFallback <==> force_software,
        raw.source == TelemetrySource::Nvml <==> !force_software && readings is Some,
        raw.source == TelemetrySource::NvmlUnavailable <==> !force_software && readings is None,
        !force_software && readings is None ==> raw.gpu_temp_c is None && raw.power_w is None
            && raw.gpu_clock_mhz is None && raw.mem_clock_mhz is None && raw.fan_speed_pct is None
            && raw.mem_util_pct is None && raw.vddcr_gfx_v is None && raw.vram_temp_c is None,
        !force_software && readings is Some ==> raw == live_telemetry(readings->0, observed_at),
        raw.source_unix_ms == Some(observed_at),
{
}

/// The voltage estimate of a finite power lies between the idle and the full
/// estimate; up to the idle power it is the idle estimate, and from the full
/// power on the full estimate.
pub proof fn lemma_voltage_estimate(power_w: Binary32)
    requires
        power_w.finite(),
    ensures
        ({
            let one = binary32::one_in_units();
            let idle = Binary32 { bits: 0x3f33_3333 };
            let full = Binary32 { bits: 0x3f86_6666 };
            let voltage = estimated_voltage(power_w);
            &&& voltage.finite()
            &&& idle.units() <= voltage.units() <= full.units()
            &&& power_w.units() <= 50 * one ==> voltage == idle
            &&& power_w.units() >= 300 * one ==> voltage == full
            &&& binary32::is_nearest(7 * one, 10, idle.bits as int)
            &&& binary32::is_nearest(105 * one, 100, full.bits as int)
        }),
{
    let one = binary32::one_in_units();
    let zero = Binary32 { bits: ZERO_BITS };
    let unit = Binary32 { bits: ONE_BITS };
    let idle_w = Binary32 { bits: IDLE_POWER_W };
    let full_w = Binary32 { bits: FULL_POWER_W };
    let idle = Binary32 { bits: IDLE_VOLTAGE_V };
    let full = Binary32 { bits: FULL_VOLTAGE_V };
    lemma2_to64();
    lemma_pow2_pos(149);
    laws::lemma_share(0x3f33_3333, 0xb3_3333, 125, 24, 7, 10);
    laws::lemma_share(0x3f86_6666, 0x86_6666, 126, 23, 105, 100);
    laws::lemma_whole(ONE_BITS as int, 0x80_0000, 126, 1, 23);
    binary32::lemma_units_signs(zero);
    binary32::lemma_units_signs(unit);
    // The voltage range is represented exactly.
    lemma_voltage_range();
    let rise = arithmetic::difference(full, idle);
    // So is the power range.
    laws::lemma_whole(IDLE_POWER_W as int, 0xc8_0000, 131, 50, 18);
    laws::lemma_whole(FULL_POWER_W as int, 0x96_0000, 134, 300, 15);
    laws::lemma_whole(0x437a_0000, 0xfa_0000, 133, 250, 16);
    let less = Binary32::signed(true, IDLE_POWER_W as int);
    binary32::lemma_units_signs(less);
    binary32::lemma_units_signs(full_w);
    laws::lemma_exact_sum(full_w, less, 0x437a_0000);
    let span = arithmetic::difference(full_w, idle_w);
    assert(span.units() == 250 * one);
    let moved = arithmetic::difference(power_w, idle_w);
    lemma_moved(power_w);
    let q = arithmetic::quotient(moved, span);
    laws::lemma_quotient_is_number(moved, span);
    let share = convert::clamp(q, zero, unit);
    laws::lemma_clamp_bounds(q, zero, unit);
    lemma_within_one(share);
    laws::lemma_share_does_not_exceed(rise, share);
    laws::lemma_product_commutes(share, rise);
    let part = arithmetic::product(share, rise);
    lemma_part_is_positive(share, rise);
    lemma_sum_between(idle, part, full);
    if power_w.units() <= 50 * one {
        lemma_share_of_idle(moved, span);
        assert(share.units() == 0);
        lemma_no_rise(share, rise);
        laws::lemma_sum_with_zero(idle, part);
    }
    if power_w.units() >= 300 * one {
        lemma_share_of_full(moved, span);
        assert(share == unit);
        lemma_whole_rise(rise);
        laws::lemma_exact_sum(idle, rise, FULL_VOLTAGE_V as int);
    }
}

/// The estimates differ by a value that is represented exactly.
proof fn lemma_voltage_range()
    ensures
        ({
            let idle = Binary32 { bits: IDLE_VOLTAGE_V };
            let full = Binary32 { bits: FULL_VOLTAGE_V };
            let rise = arithmetic::difference(full, idle);
            &&& rise.finite()
            &&& !rise.negative()
            &&& rise.units() > 0
            &&& idle.units() + rise.units() == full.units()
            &&& 0 < idle.units() < full.units()
            &&& full.units() == binary32::magnitude(FULL_VOLTAGE_V as int)
        }),
{
    let idle = Binary32 { bits: IDLE_VOLTAGE_V };
    let full = Binary32 { bits: FULL_VOLTAGE_V };
    let less = Binary32::signed(true, IDLE_VOLTAGE_V as int);
    binary32::lemma_units_signs(idle);
    binary32::lemma_units_signs(full);
    binary32::lemma_units_signs(less);
    binary32::lemma_magnitude_parts(125, 0xb3_3333);
    binary32::lemma_magnitude_parts(126, 0x86_6666);
    binary32::lemma_magnitude_parts(124, 0xb3_3332);
    lemma_pow2_unfold(126);
    lemma_pow2_unfold(125);
    lemma_pow2_pos(124);
    let k: int = 0x3eb3_3332;
    let p = pow2(124) as int;
    assert(pow2(125) == 2 * p);
    assert(pow2(126) == 4 * p);
    assert(full.units() == 0x86_6666 * (4 * p));
    assert(less.units() == -(0xb3_3333 * (2 * p)));
    assert(binary32::magnitude(k) == 0xb3_3332 * p);
    assert(0x86_6666 * (4 * p) - 0xb3_3333 * (2 * p) == 0xb3_3332 * p) by (nonlinear_arith);
    assert(full.units() + less.units() == binary32::magnitude(k));
    laws::lemma_exact_sum(full, less, k);
    binary32::lemma_units_signs(arithmetic::difference(full, idle));
}

/// The power above idle keeps its side of both ends.
proof fn lemma_moved(power_w: Binary32)
    requires
        power_w.finite(),
    ensures
        ({
            let one = binary32::one_in_units();
            let moved = arithmetic::difference(power_w, Binary32 { bits: IDLE_POWER_W });
            &&& !moved.nan()
            &&& power_w.units() <= 50 * one ==> moved.units() <= 0
            &&& power_w.units() >= 300 * one ==> moved.units() >= 250 * one && !moved.negative()
        }),
{
    let one = binary32::one_in_units();
    let less = Binary32::signed(true, IDLE_POWER_W as int);
    let moved = arithmetic::difference(power_w, Binary32 { bits: IDLE_POWER_W });
    lemma2_to64();
    lemma_pow2_pos(149);
    laws::lemma_whole(IDLE_POWER_W as int, 0xc8_0000, 131, 50, 18);
    laws::lemma_whole(0x437a_0000, 0xfa_0000, 133, 250, 16);
    binary32::lemma_units_signs(less);
    binary32::lemma_units_signs(power_w);
    let n = power_w.units() - 50 * one;
    assert(power_w.units() + less.units() == n);
    if n != 0 {
        laws::lemma_nearest_exists(arithmetic::absolute_of(n), 1);
        let k = binary32::nearest(arithmetic::absolute_of(n), 1);
        if n > 0 {
            assert(moved == Binary32::signed(false, k));
            if n >= 250 * one {
                laws::lemma_rounds_at_least(n, 1, k, 0x437a_0000);
                if k > 0x437a_0000 {
                    binary32::lemma_magnitude_monotonic(0x437a_0000, k);
                }
            }
        } else {
            assert(moved == Binary32::signed(true, k));
        }
        binary32::lemma_units_signs(moved);
    } else {
        binary32::lemma_units_signs(moved);
    }
}

/// A number from zero to one is finite.
proof fn lemma_within_one(share: Binary32)
    requires
        !share.nan(),
        0 <= share.units() <= binary32::one_in_units(),
    ensures
        share.finite(),
{
    lemma2_to64();
    laws::lemma_whole(ONE_BITS as int, 0x80_0000, 126, 1, 23);
    binary32::lemma_units_signs(share);
    binary32::lemma_magnitude_monotonic(ONE_BITS as int, binary32::INFINITY_BITS as int);
}

/// A share of a rise is not negative.
proof fn lemma_part_is_positive(share: Binary32, rise: Binary32)
    requires
        share.finite(),
        rise.finite(),
        share.units() >= 0,
        rise.units() > 0,
    ensures
        arithmetic::product(share, rise).units() >= 0,
{
    binary32::lemma_units_signs(share);
    binary32::lemma_units_signs(rise);
    lemma_pow2_pos(149);
    let one = binary32::one_in_units();
    let n = arithmetic::absolute_of(share.units()) * arithmetic::absolute_of(rise.units());
    laws::lemma_nearest_exists(n, one);
    let k = binary32::nearest(n, one);
    if share.negative() {
        assert(n == 0) by (nonlinear_arith)
            requires
                n == 0 * rise.units(),
        ;
        laws::lemma_rounds_at_most(n, one, k, 0);
    }
    binary32::lemma_units_signs(arithmetic::product(share, rise));
}

/// A sum that lies exactly between two values is rounded to between them.
proof fn lemma_sum_between(low: Binary32, part: Binary32, high: Binary32)
    requires
        low.finite(),
        part.finite(),
        high.finite(),
        0 < low.units(),
        0 <= part.units(),
        low.units() + part.units() <= high.units(),
    ensures
        arithmetic::sum(low, part).finite(),
        low.units() <= arithmetic::sum(low, part).units() <= high.units(),
{
    binary32::lemma_units_signs(low);
    binary32::lemma_units_signs(part);
    binary32::lemma_units_signs(high);
    let n = low.units() + part.units();
    laws::lemma_nearest_exists(n, 1);
    let k = binary32::nearest(n, 1);
    laws::lemma_rounds_at_least(n, 1, k, low.abs_bits());
    laws::lemma_rounds_at_most(n, 1, k, high.abs_bits());
    if k > low.abs_bits() {
        binary32::lemma_magnitude_monotonic(low.abs_bits(), k);
    }
    if k < high.abs_bits() {
        binary32::lemma_magnitude_monotonic(k, high.abs_bits());
    }
}

/// Nothing above idle has no share of the power range.
proof fn lemma_share_of_idle(moved: Binary32, span: Binary32)
    requires
        !moved.nan(),
        moved.units() <= 0,
        span.finite(),
        span.units() > 0,
    ensures
        convert::clamp(
            arithmetic::quotient(moved, span),
            Binary32 { bits: ZERO_BITS },
            Binary32 { bits: ONE_BITS },
        ).units() == 0,
{
    let q = arithmetic::quotient(moved, span);
    binary32::lemma_units_signs(moved);
    binary32::lemma_units_signs(span);
    binary32::lemma_units_signs(Binary32 { bits: ZERO_BITS });
    binary32::lemma_units_signs(Binary32 { bits: ONE_BITS });
    if !moved.zero() && !moved.infinite() {
        laws::lemma_nearest_exists(
            arithmetic::absolute_of(moved.units()) * binary32::one_in_units(),
            span.units(),
        );
    }
    binary32::lemma_units_signs(q);
}

/// The whole power range or more is the whole share.
proof fn lemma_share_of_full(moved: Binary32, span: Binary32)
    requires
        !moved.nan(),
        !moved.negative(),
        span.finite(),
        !span.negative(),
        span.units() > 0,
        moved.units() >= span.units(),
    ensures
        convert::clamp(
            arithmetic::quotient(moved, span),
            Binary32 { bits: ZERO_BITS },
            Binary32 { bits: ONE_BITS },
        ) == (Binary32 { bits: ONE_BITS }),
{
    let one = binary32::one_in_units();
    let unit = Binary32 { bits: ONE_BITS };
    let q = arithmetic::quotient(moved, span);
    lemma2_to64();
    lemma_pow2_pos(149);
    laws::lemma_whole(ONE_BITS as int, 0x80_0000, 126, 1, 23);
    binary32::lemma_units_signs(moved);
    binary32::lemma_units_signs(span);
    binary32::lemma_units_signs(Binary32 { bits: ZERO_BITS });
    binary32::lemma_units_signs(unit);
    if moved.infinite() {
        binary32::lemma_magnitude_monotonic(ONE_BITS as int, binary32::INFINITY_BITS as int);
    } else {
        let n = moved.units() * one;
        laws::lemma_nearest_exists(n, span.units());
        let k = binary32::nearest(n, span.units());
        assert(n >= span.units() * binary32::magnitude(ONE_BITS as int)) by (nonlinear_arith)
            requires
                n == moved.units() * one,
                moved.units() >= span.units(),
                one > 0,
                binary32::magnitude(ONE_BITS as int) == one,
        ;
        laws::lemma_rounds_at_least(n, span.units(), k, ONE_BITS as int);
        if k > ONE_BITS {
            binary32::lemma_magnitude_monotonic(ONE_BITS as int, k);
        }
        assert(q == Binary32::signed(false, k));
    }
}

/// No share gives no rise.
proof fn lemma_no_rise(share: Binary32, rise: Binary32)
    requires
        share.finite(),
        share.units() == 0,
        rise.finite(),
    ensures
        arithmetic::product(share, rise).zero(),
{
    binary32::lemma_units_signs(share);
    lemma_pow2_pos(149);
    let one = binary32::one_in_units();
    let n = arithmetic::absolute_of(share.units()) * arithmetic::absolute_of(rise.units());
    assert(n == 0) by (nonlinear_arith)
        requires
            n == 0 * arithmetic::absolute_of(rise.units()),
    ;
    laws::lemma_nearest_exists(n, one);
    laws::lemma_rounds_at_most(n, one, binary32::nearest(n, one), 0);
}

/// The whole share gives the whole rise.
proof fn lemma_whole_rise(rise: Binary32)
    requires
        rise.finite(),
        !rise.negative(),
    ensures
        arithmetic::product(Binary32 { bits: ONE_BITS }, rise) == rise,
{
    let one = binary32::one_in_units();
    lemma2_to64();
    lemma_pow2_pos(149);
    laws::lemma_whole(ONE_BITS as int, 0x80_0000, 126, 1, 23);
    binary32::lemma_units_signs(rise);
    binary32::lemma_units_signs(Binary32 { bits: ONE_BITS });
    laws::lemma_exact(one * rise.units(), one, rise.abs_bits());
}

/// Whole watts are the thousands of milliwatts, the rest cut off.
pub proof fn lemma_whole_watts(limit_mw: u32, watts: u32)
    requires
        call_ensures(whole_watts, (limit_mw,), watts),
    ensures
        1000 * watts <= limit_mw < 1000 * (watts + 1),
{
}

/// An outage is reported when it begins and at no other check.
pub proof fn lemma_outage_is_reported_once(log: &mut OutageLog, healthy: bool, report: bool)
    requires
        call_ensures(OutageLog::note, (log, healthy), report),
    ensures
        report <==> !healthy && !old(log).unhealthy,
        final(log).unhealthy <==> !healthy,
        report ==> final(log).unhealthy,
{
}

} // verus!
