//! Signal inventory: units, ranges, classes and normalization.

use crate::binary32;
use crate::binary32::arithmetic;
use crate::binary32::convert;
use crate::binary32::{Binary32, EPSILON_BITS, ONE_BITS, ZERO_BITS};
use vstd::prelude::*;

verus! {

/// Provenance of a telemetry acquisition path.
#[derive(Debug, Clone, Copy, PartialEq, Eq, Hash, Structural)]
pub enum TelemetrySource {
    /// NVIDIA Management Library (NVML) on a live device.
    Nvml,
    /// Documented software-only idle estimates.
    SoftwareFallback,
    /// NVML/driver/device lookup failed. Safety fails closed.
    NvmlUnavailable,
}

/// Validity of a single sample. Orthogonal to [`TelemetrySource`].
#[derive(Debug, Clone, Copy, PartialEq, Eq, Hash, Structural)]
pub enum SampleValidity {
    /// Finite, in-range, and fresh enough to use.
    Valid,
    /// Sensor was not read (dropout, unsupported, or not applicable).
    Missing,
    /// Non-finite, outside the engineering range, or from the future.
    Invalid,
    /// Value may be real but is older than the signal's stale threshold.
    Stale,
}

/// Engineering unit of a sample's `value`.
#[derive(Debug, Clone, Copy, PartialEq, Eq, Hash, Structural)]
pub enum Unit {
    /// Degrees Celsius.
    Celsius,
    /// Watts.
    Watt,
    /// Volts.
    Volt,
    /// Megahertz.
    Megahertz,
    /// Percent.
    Percent,
}

/// How a signal may be consumed.
#[derive(Debug, Clone, Copy, PartialEq, Eq, Hash, Structural)]
pub enum SignalClass {
    /// Candidate sensory input for downstream runtimes.
    RuntimeInput,
    /// Consumed only by hardware-safety policy.
    SafetyOnly,
    /// Dashboards / Prometheus / logs; not a sensory or safety input.
    ObservabilityOnly,
    /// Both a safety signal and a runtime-input candidate.
    Both,
}

impl SignalClass {
    /// Whether this signal may appear in the sensory mapping.
    pub open spec fn runtime_input(self) -> bool {
        self == SignalClass::RuntimeInput || self == SignalClass::Both
    }

    /// Whether safety policy may consume this signal.
    pub open spec fn safety(self) -> bool {
        self == SignalClass::SafetyOnly || self == SignalClass::Both
    }

    /// Whether this signal may appear in the sensory mapping.
    pub fn includes_runtime_input(self) -> (answer: bool)
        ensures
            answer == self.runtime_input(),
    {
        matches!(self, SignalClass::RuntimeInput | SignalClass::Both)
    }

    /// Whether safety policy may consume this signal.
    pub fn includes_safety(self) -> (answer: bool)
        ensures
            answer == self.safety(),
    {
        matches!(self, SignalClass::SafetyOnly | SignalClass::Both)
    }
}

/// Whether the engineering value is measured or computed from another signal.
#[derive(Debug, Clone, Copy, PartialEq, Eq, Hash, Structural)]
pub enum SignalOrigin {
    /// Read from a sensor.
    Measured,
    /// Computed from another signal.
    Derived,
}

/// Deterministic model-input normalization. Applied only to valid samples.
#[derive(Debug, Clone, Copy, PartialEq, Eq, Structural)]
pub enum Normalization {
    /// Pass-through of the engineering value.
    Identity,
    /// `(value - min) / (max - min)` clamped to `[0, 1]`.
    Linear {
        /// Value mapped to 0.
        min: Binary32,
        /// Value mapped to 1.
        max: Binary32,
    },
}

impl Normalization {
    /// Normalized value of `value`: a span that is no usable number gives 0.
    pub open spec fn of(self, value: Binary32) -> Binary32 {
        match self {
            Normalization::Identity => value,
            Normalization::Linear { min, max } => {
                let span = arithmetic::difference(max, min);
                let zero = Binary32 { bits: ZERO_BITS };
                if !span.finite() || Binary32::signed(false, span.abs_bits()).below(
                    Binary32 { bits: EPSILON_BITS },
                ) {
                    zero
                } else {
                    convert::clamp(
                        arithmetic::quotient(arithmetic::difference(value, min), span),
                        zero,
                        Binary32 { bits: ONE_BITS },
                    )
                }
            },
        }
    }

    /// Normalize an engineering value. The caller has already established
    /// validity; this never maps missing data.
    pub fn apply(self, value: Binary32) -> (normalized: Binary32)
        ensures
            normalized == self.of(value),
    {
        match self {
            Normalization::Identity => value,
            Normalization::Linear { min, max } => {
                let span: Binary32 = max.minus(min);
                let zero: Binary32 = Binary32 { bits: ZERO_BITS };
                let one: Binary32 = Binary32 { bits: ONE_BITS };
                if !span.is_finite() || span.absolute().lt(Binary32 { bits: EPSILON_BITS }) {
                    zero
                } else {
                    proof {
                        binary32::lemma_units_signs(zero);
                        binary32::lemma_units_signs(one);
                    }
                    value.minus(min).divided_by(span).clamped(zero, one)
                }
            },
        }
    }
}

/// Stable signal identifiers.
#[derive(Debug, Clone, Copy, PartialEq, Eq, Hash, Structural)]
pub enum SignalId {
    /// GPU die temperature.
    GpuTempC,
    /// Video memory temperature.
    VramTempC,
    /// Board power.
    PowerW,
    /// Core voltage estimate.
    VddcrGfxV,
    /// Graphics clock.
    GpuClockMhz,
    /// Memory clock.
    MemClockMhz,
    /// Fan speed.
    FanSpeedPct,
    /// Memory utilization.
    MemUtilPct,
}

impl SignalId {
    /// Canonical snake_case name.
    pub open spec fn spec_name(self) -> Seq<char> {
        match self {
            SignalId::GpuTempC => "gpu_temp_c"@,
            SignalId::VramTempC => "vram_temp_c"@,
            SignalId::PowerW => "power_w"@,
            SignalId::VddcrGfxV => "vddcr_gfx_v"@,
            SignalId::GpuClockMhz => "gpu_clock_mhz"@,
            SignalId::MemClockMhz => "mem_clock_mhz"@,
            SignalId::FanSpeedPct => "fan_speed_pct"@,
            SignalId::MemUtilPct => "mem_util_pct"@,
        }
    }

    /// Engineering unit.
    pub open spec fn unit(self) -> Unit {
        match self {
            SignalId::GpuTempC | SignalId::VramTempC => Unit::Celsius,
            SignalId::PowerW => Unit::Watt,
            SignalId::VddcrGfxV => Unit::Volt,
            SignalId::GpuClockMhz | SignalId::MemClockMhz => Unit::Megahertz,
            SignalId::FanSpeedPct | SignalId::MemUtilPct => Unit::Percent,
        }
    }

    /// How the signal may be consumed.
    pub open spec fn class(self) -> SignalClass {
        match self {
            SignalId::GpuTempC | SignalId::PowerW => SignalClass::Both,
            SignalId::GpuClockMhz | SignalId::MemUtilPct => SignalClass::RuntimeInput,
            _ => SignalClass::ObservabilityOnly,
        }
    }

    /// Lower end of the engineering range.
    pub open spec fn lowest(self) -> Binary32 {
        Binary32 {
            bits: if self == SignalId::VddcrGfxV {
                VOLTAGE_MIN_V
            } else {
                ZERO_BITS
            },
        }
    }

    /// Upper end of the engineering range.
    pub open spec fn highest(self) -> Binary32 {
        Binary32 {
            bits: match self {
                SignalId::GpuTempC | SignalId::VramTempC => TEMPERATURE_MAX_C,
                SignalId::PowerW => POWER_MAX_W,
                SignalId::VddcrGfxV => VOLTAGE_MAX_V,
                SignalId::GpuClockMhz => GPU_CLOCK_MAX_MHZ,
                SignalId::MemClockMhz => MEM_CLOCK_MAX_MHZ,
                SignalId::FanSpeedPct | SignalId::MemUtilPct => HUNDRED,
            },
        }
    }

    /// Values mapped to 0 and 1.
    pub open spec fn scale(self) -> Normalization {
        Normalization::Linear {
            min: Binary32 {
                bits: if self == SignalId::VddcrGfxV {
                    VOLTAGE_SCALE_LOW_V
                } else {
                    ZERO_BITS
                },
            },
            max: Binary32 {
                bits: match self {
                    SignalId::PowerW => POWER_SCALE_W,
                    SignalId::VddcrGfxV => VOLTAGE_SCALE_HIGH_V,
                    SignalId::GpuClockMhz => GPU_CLOCK_SCALE_MHZ,
                    SignalId::MemClockMhz => MEM_CLOCK_SCALE_MHZ,
                    _ => HUNDRED,
                },
            },
        }
    }

    /// Stale threshold at the default acquisition cadence.
    pub open spec fn stale_after(self) -> u64 {
        if self.class().safety() {
            SAFETY_STALE_AFTER_MS
        } else {
            OBSERVABILITY_STALE_AFTER_MS
        }
    }

    /// Canonical snake_case name.
    pub fn name(self) -> (name: &'static str)
        ensures
            name@ == self.spec_name(),
    {
        signal_spec(self).name
    }
}

/// Inventory of every GPU reading currently acquired.
pub const ALL_SIGNALS: [SignalId; 8] = [
    SignalId::GpuTempC,
    SignalId::VramTempC,
    SignalId::PowerW,
    SignalId::VddcrGfxV,
    SignalId::GpuClockMhz,
    SignalId::MemClockMhz,
    SignalId::FanSpeedPct,
    SignalId::MemUtilPct,
];

/// Default supervisor acquisition cadence.
pub const DEFAULT_ACQUISITION_CADENCE_MS: u64 = 100;

/// Safety evaluation cadence in the supervisor (every 10 ticks at default interval).
pub const SAFETY_EVAL_CADENCE_MS: u64 = 1_000;

/// Acquisition ticks between two safety evaluations.
pub const SAFETY_EVAL_TICKS: u64 = 10;

/// Stale threshold for safety-critical signals (2x safety cadence).
pub const SAFETY_STALE_AFTER_MS: u64 = 2_000;

/// Stale threshold for non-safety signals.
pub const OBSERVABILITY_STALE_AFTER_MS: u64 = 5_000;

/// Pattern of 100.
pub const HUNDRED: u32 = 0x42c8_0000;

/// Pattern of 125 °C, the upper end of the temperature range.
pub const TEMPERATURE_MAX_C: u32 = 0x42fa_0000;

/// Pattern of 2000 W, the upper end of the power range.
pub const POWER_MAX_W: u32 = 0x44fa_0000;

/// Pattern of 350 W, normalized to 1.
pub const POWER_SCALE_W: u32 = 0x43af_0000;

/// Pattern of 0.4 V, the lower end of the voltage range.
pub const VOLTAGE_MIN_V: u32 = 0x3ecc_cccd;

/// Pattern of 1.5 V, the upper end of the voltage range.
pub const VOLTAGE_MAX_V: u32 = 0x3fc0_0000;

/// Pattern of 0.5 V, normalized to 0.
pub const VOLTAGE_SCALE_LOW_V: u32 = 0x3f00_0000;

/// Pattern of 1.2 V, normalized to 1.
pub const VOLTAGE_SCALE_HIGH_V: u32 = 0x3f99_999a;

/// Pattern of 3000 MHz, the upper end of the graphics clock range.
pub const GPU_CLOCK_MAX_MHZ: u32 = 0x453b_8000;

/// Pattern of 2500 MHz, normalized to 1.
pub const GPU_CLOCK_SCALE_MHZ: u32 = 0x451c_4000;

/// Pattern of 12000 MHz, the upper end of the memory clock range.
pub const MEM_CLOCK_MAX_MHZ: u32 = 0x463b_8000;

/// Pattern of 10000 MHz, normalized to 1.
pub const MEM_CLOCK_SCALE_MHZ: u32 = 0x461c_4000;

/// Per-signal contract: unit, range, origin, class, normalization, cadence, stale.
#[derive(Debug, Clone, Copy, PartialEq, Eq)]
pub struct SignalSpec {
    /// Signal this contract is for.
    pub id: SignalId,
    /// Canonical snake_case name.
    pub name: &'static str,
    /// Engineering unit.
    pub unit: Unit,
    /// Lower end of the engineering range.
    pub min: Binary32,
    /// Upper end of the engineering range.
    pub max: Binary32,
    /// Measured or derived.
    pub origin: SignalOrigin,
    /// How the signal may be consumed.
    pub class: SignalClass,
    /// Model-input normalization.
    pub normalization: Normalization,
    /// Documented acquisition cadence.
    pub cadence_ms: u64,
    /// Stale threshold at that cadence.
    pub stale_after_ms: u64,
}

impl SignalSpec {
    /// Whether this is the contract of signal `id`.
    pub open spec fn describes(self, id: SignalId) -> bool {
        &&& self.id == id
        &&& self.name@ == id.spec_name()
        &&& self.unit == id.unit()
        &&& self.min == id.lowest()
        &&& self.max == id.highest()
        &&& self.origin == (if id == SignalId::VddcrGfxV {
            SignalOrigin::Derived
        } else {
            SignalOrigin::Measured
        })
        &&& self.class == id.class()
        &&& self.normalization == id.scale()
        &&& self.cadence_ms == DEFAULT_ACQUISITION_CADENCE_MS
        &&& self.stale_after_ms == id.stale_after()
    }
}

fn measured(
    id: SignalId,
    name: &'static str,
    unit: Unit,
    max: u32,
    class: SignalClass,
    scale: u32,
) -> (spec: SignalSpec)
    requires
        id != SignalId::VddcrGfxV,
        name@ == id.spec_name(),
        unit == id.unit(),
        class == id.class(),
        id.highest() == (Binary32 { bits: max }),
        id.scale() == (Normalization::Linear {
            min: Binary32 { bits: ZERO_BITS },
            max: Binary32 { bits: scale },
        }),
    ensures
        spec.describes(id),
{
    SignalSpec {
        id,
        name,
        unit,
        min: Binary32 { bits: ZERO_BITS },
        max: Binary32 { bits: max },
        origin: SignalOrigin::Measured,
        class,
        normalization: Normalization::Linear {
            min: Binary32 { bits: ZERO_BITS },
            max: Binary32 { bits: scale },
        },
        cadence_ms: DEFAULT_ACQUISITION_CADENCE_MS,
        stale_after_ms: if class.includes_safety() {
            SAFETY_STALE_AFTER_MS
        } else {
            OBSERVABILITY_STALE_AFTER_MS
        },
    }
}

/// Look up the static contract for `id`.
pub fn signal_spec(id: SignalId) -> (spec: SignalSpec)
    ensures
        spec.describes(id),
{
    match id {
        SignalId::GpuTempC => measured(
            id,
            "gpu_temp_c",
            Unit::Celsius,
            TEMPERATURE_MAX_C,
            SignalClass::Both,
            HUNDRED,
        ),
        SignalId::VramTempC => measured(
            id,
            "vram_temp_c",
            Unit::Celsius,
            TEMPERATURE_MAX_C,
            SignalClass::ObservabilityOnly,
            HUNDRED,
        ),
        SignalId::PowerW => measured(
            id,
            "power_w",
            Unit::Watt,
            POWER_MAX_W,
            SignalClass::Both,
            POWER_SCALE_W,
        ),
        SignalId::VddcrGfxV => SignalSpec {
            id,
            name: "vddcr_gfx_v",
            unit: Unit::Volt,
            min: Binary32 { bits: VOLTAGE_MIN_V },
            max: Binary32 { bits: VOLTAGE_MAX_V },
            origin: SignalOrigin::Derived,
            class: SignalClass::ObservabilityOnly,
            normalization: Normalization::Linear {
                min: Binary32 { bits: VOLTAGE_SCALE_LOW_V },
                max: Binary32 { bits: VOLTAGE_SCALE_HIGH_V },
            },
            cadence_ms: DEFAULT_ACQUISITION_CADENCE_MS,
            stale_after_ms: OBSERVABILITY_STALE_AFTER_MS,
        },
        SignalId::GpuClockMhz => measured(
            id,
            "gpu_clock_mhz",
            Unit::Megahertz,
            GPU_CLOCK_MAX_MHZ,
            SignalClass::RuntimeInput,
            GPU_CLOCK_SCALE_MHZ,
        ),
        SignalId::MemClockMhz => measured(
            id,
            "mem_clock_mhz",
            Unit::Megahertz,
            MEM_CLOCK_MAX_MHZ,
            SignalClass::ObservabilityOnly,
            MEM_CLOCK_SCALE_MHZ,
        ),
        SignalId::FanSpeedPct => measured(
            id,
            "fan_speed_pct",
            Unit::Percent,
            HUNDRED,
            SignalClass::ObservabilityOnly,
            HUNDRED,
        ),
        SignalId::MemUtilPct => measured(
            id,
            "mem_util_pct",
            Unit::Percent,
            HUNDRED,
            SignalClass::RuntimeInput,
            HUNDRED,
        ),
    }
}

} // verus!
