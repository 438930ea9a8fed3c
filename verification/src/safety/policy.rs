//! Validated, device-independent safety configuration.

use crate::binary32;
use crate::binary32::arithmetic;
use crate::binary32::{Binary32, ZERO_BITS};
use crate::safety::limits::{
    FreshnessLimits, SafetyLimits, BRAKE_FRACTION, RELEASE_OK_STREAK, TEMP_CRITICAL_C,
    TEMP_WARN_C,
};
use crate::telemetry::signal::{POWER_MAX_W, TEMPERATURE_MAX_C};
use crate::telemetry::{
    DEFAULT_ACQUISITION_CADENCE_MS, SAFETY_EVAL_TICKS, SAFETY_STALE_AFTER_MS,
};
use vstd::prelude::*;

verus! {

/// Pattern of 0.85: the warning share of the device default power limit.
pub const WARN_SHARE: u32 = 0x3f59_999a;

/// Operator-selected limits. Resolve once before evaluating real telemetry.
///
/// Power overrides must be supplied together. Otherwise warning/critical are
/// 85%/100% of the reported device default power limit. No device default and
/// no overrides leaves power policy unavailable (real telemetry fails closed).
/// Thermal defaults are operator policy choices, not inferred vendor limits.
#[derive(Debug, Clone, Copy, PartialEq, Eq)]
pub struct SafetyPolicyConfig {
    /// Thermal warning threshold in Celsius (inclusive).
    pub temp_warn_c: Binary32,
    /// Thermal critical threshold in Celsius (exceeded strictly).
    pub temp_critical_c: Binary32,
    /// Explicit power warning threshold in watts (inclusive).
    pub power_warn_w: Option<Binary32>,
    /// Explicit power critical threshold in watts (exceeded strictly).
    pub power_critical_w: Option<Binary32>,
    /// Consecutive healthy real evaluations required to authorize release.
    pub release_ok_streak: u32,
    /// Maximum sample age in milliseconds (age at this limit is stale).
    /// Can tighten, but cannot relax the telemetry contract's limit.
    pub max_sample_age_ms: u64,
    /// Maximum declared acquisition interval in milliseconds (inclusive).
    pub max_acquisition_interval_ms: u64,
}

/// The default configuration.
pub open spec fn default_config() -> SafetyPolicyConfig {
    SafetyPolicyConfig {
        temp_warn_c: Binary32 { bits: TEMP_WARN_C },
        temp_critical_c: Binary32 { bits: TEMP_CRITICAL_C },
        power_warn_w: None,
        power_critical_w: None,
        release_ok_streak: RELEASE_OK_STREAK,
        max_sample_age_ms: SAFETY_STALE_AFTER_MS,
        max_acquisition_interval_ms: DEFAULT_ACQUISITION_CADENCE_MS,
    }
}

impl Default for SafetyPolicyConfig {
    fn default() -> (config: Self)
        ensures
            config == default_config(),
    {
        SafetyPolicyConfig {
            temp_warn_c: Binary32 { bits: TEMP_WARN_C },
            temp_critical_c: Binary32 { bits: TEMP_CRITICAL_C },
            power_warn_w: None,
            power_critical_w: None,
            release_ok_streak: RELEASE_OK_STREAK,
            max_sample_age_ms: SAFETY_STALE_AFTER_MS,
            max_acquisition_interval_ms: DEFAULT_ACQUISITION_CADENCE_MS,
        }
    }
}

/// Invalid operator configuration or invalid reported device capability.
#[derive(Debug, Clone, Copy, PartialEq, Eq)]
pub struct PolicyError(pub &'static str);

impl PolicyError {
    /// The message.
    pub fn message(&self) -> (text: &'static str)
        ensures
            text@ == self.0@,
    {
        self.0
    }
}

/// Finite, positive and strictly ordered.
pub open spec fn ordered_positive(a: Binary32, b: Binary32) -> bool {
    a.finite() && b.finite() && 0 < a.units() < b.units()
}

fn is_ordered_positive(a: Binary32, b: Binary32) -> (answer: bool)
    ensures
        answer == ordered_positive(a, b),
{
    proof {
        binary32::lemma_units_signs(Binary32 { bits: ZERO_BITS });
    }
    a.is_finite() && b.is_finite() && Binary32::from_bits(ZERO_BITS).lt(a) && a.lt(b)
}

/// Effective policy in terms of its settings and power limits.
pub struct PolicyState {
    /// Operator settings.
    pub config: SafetyPolicyConfig,
    /// Warning and critical watts, if there is a power policy.
    pub power: Option<(Binary32, Binary32)>,
    /// Where the power limits came from.
    pub source: Seq<char>,
}

/// Whether a reported device default power limit is usable.
pub open spec fn usable_default(device_default_w: Option<Binary32>) -> bool {
    device_default_w matches Some(w) ==> w.finite() && w.units() > 0 && w.at_most(
        Binary32 { bits: POWER_MAX_W },
    )
}

/// Warning watts derived from a device default.
pub open spec fn derived_warning(w: Binary32) -> Binary32 {
    arithmetic::product(w, Binary32 { bits: WARN_SHARE })
}

/// Power limits and their provenance, or the error.
pub open spec fn power_resolution(
    config: SafetyPolicyConfig,
    device_default_w: Option<Binary32>,
) -> Result<(Option<(Binary32, Binary32)>, Seq<char>), Seq<char>> {
    match (config.power_warn_w, config.power_critical_w) {
        (Some(warn), Some(critical)) => {
            if !ordered_positive(warn, critical) || (Binary32 { bits: POWER_MAX_W }).below(
                critical,
            ) {
                Err("power limits must be finite: 0 < warning < critical <= 2000 W"@)
            } else if device_default_w is Some && device_default_w->0.below(critical) {
                Err("explicit critical power exceeds the device default power limit"@)
            } else {
                Ok((Some((warn, critical)), "operator"@))
            }
        },
        (None, None) => match device_default_w {
            Some(w) => if ordered_positive(derived_warning(w), w) {
                Ok((Some((derived_warning(w), w)), "device_default"@))
            } else {
                Err("device default is too small to derive power limits"@)
            },
            None => Ok((None, "unavailable"@)),
        },
        _ => Err("power warning and critical overrides must be supplied together"@),
    }
}

/// Effective policy of a configuration on a device, or the first error.
pub open spec fn resolution(
    config: SafetyPolicyConfig,
    device_default_w: Option<Binary32>,
) -> Result<PolicyState, Seq<char>> {
    if !ordered_positive(config.temp_warn_c, config.temp_critical_c) || (Binary32 {
        bits: TEMPERATURE_MAX_C,
    }).below(config.temp_critical_c) {
        Err("temperature limits must be finite: 0 < warning < critical <= 125 C"@)
    } else if config.release_ok_streak == 0 {
        Err("release Ok streak must be positive"@)
    } else if config.max_sample_age_ms == 0 || config.max_sample_age_ms > SAFETY_STALE_AFTER_MS {
        Err("maximum sample age must be in 1..=2000 ms"@)
    } else if config.max_acquisition_interval_ms == 0 || config.max_acquisition_interval_ms
        > config.max_sample_age_ms {
        Err(
            "maximum acquisition interval must be positive and no greater than maximum sample age"@,
        )
    } else if !usable_default(device_default_w) {
        Err("device default power limit must be finite and in (0, 2000] W"@)
    } else {
        match power_resolution(config, device_default_w) {
            Ok((power, source)) => Ok(PolicyState { config, power, source }),
            Err(message) => Err(message),
        }
    }
}

/// Effective immutable policy. Construct with [`SafetyPolicyConfig::resolve`].
#[derive(Debug, Clone, Copy, PartialEq, Eq)]
pub struct SafetyPolicy {
    config: SafetyPolicyConfig,
    power_limits_w: Option<(Binary32, Binary32)>,
    power_limit_source: &'static str,
}

impl View for SafetyPolicy {
    type V = PolicyState;

    closed spec fn view(&self) -> PolicyState {
        PolicyState {
            config: self.config,
            power: self.power_limits_w,
            source: self.power_limit_source@,
        }
    }
}

impl SafetyPolicyConfig {
    /// Validate settings and resolve power limits against an optional device
    /// default limit, in watts. Explicit critical power cannot exceed a known
    /// default. Unknown capabilities require explicit paired power limits for
    /// healthy real classification; simulated frames still work without them.
    pub fn resolve(&self, device_default_w: Option<Binary32>) -> (outcome: Result<
        SafetyPolicy,
        PolicyError,
    >)
        ensures
            match outcome {
                Ok(policy) => resolution(*self, device_default_w) == Ok::<PolicyState, Seq<char>>(
                    policy@,
                ),
                Err(e) => resolution(*self, device_default_w) == Err::<PolicyState, Seq<char>>(
                    e.0@,
                ),
            },
    {
        if !is_ordered_positive(self.temp_warn_c, self.temp_critical_c) || Binary32::from_bits(
            TEMPERATURE_MAX_C,
        ).lt(self.temp_critical_c) {
            return Err(
                PolicyError("temperature limits must be finite: 0 < warning < critical <= 125 C"),
            );
        }
        if self.release_ok_streak == 0 {
            return Err(PolicyError("release Ok streak must be positive"));
        }
        if self.max_sample_age_ms == 0 || self.max_sample_age_ms > SAFETY_STALE_AFTER_MS {
            return Err(PolicyError("maximum sample age must be in 1..=2000 ms"));
        }
        if self.max_acquisition_interval_ms == 0 || self.max_acquisition_interval_ms
            > self.max_sample_age_ms {
            return Err(
                PolicyError(
                    "maximum acquisition interval must be positive and no greater than maximum sample age",
                ),
            );
        }
        proof {
            binary32::lemma_units_signs(Binary32 { bits: ZERO_BITS });
        }
        if let Some(w) = device_default_w {
            if !w.is_finite() || w.le(Binary32::from_bits(ZERO_BITS)) || Binary32::from_bits(
                POWER_MAX_W,
            ).lt(w) {
                return Err(
                    PolicyError("device default power limit must be finite and in (0, 2000] W"),
                );
            }
        }
        let (power_limits_w, power_limit_source) = match (self.power_warn_w, self.power_critical_w) {
            (Some(warn), Some(critical)) => {
                if !is_ordered_positive(warn, critical) || Binary32::from_bits(POWER_MAX_W).lt(
                    critical,
                ) {
                    return Err(
                        PolicyError("power limits must be finite: 0 < warning < critical <= 2000 W"),
                    );
                }
                if let Some(cap) = device_default_w {
                    if cap.lt(critical) {
                        return Err(
                            PolicyError(
                                "explicit critical power exceeds the device default power limit",
                            ),
                        );
                    }
                }
                (Some((warn, critical)), "operator")
            },
            (None, None) => match device_default_w {
                Some(w) => {
                    let warn: Binary32 = w.times(Binary32::from_bits(WARN_SHARE));
                    if !is_ordered_positive(warn, w) {
                        return Err(
                            PolicyError("device default is too small to derive power limits"),
                        );
                    }
                    (Some((warn, w)), "device_default")
                },
                None => (None, "unavailable"),
            },
            _ => {
                return Err(
                    PolicyError("power warning and critical overrides must be supplied together"),
                );
            },
        };
        Ok(SafetyPolicy { config: *self, power_limits_w, power_limit_source })
    }
}

impl SafetyPolicy {
    /// What resolving establishes: usable thermal limits, usable power limits
    /// if there are any, and a positive release streak.
    #[verifier::type_invariant]
    closed spec fn resolved(self) -> bool {
        &&& ordered_positive(self.config.temp_warn_c, self.config.temp_critical_c)
        &&& self.power_limits_w matches Some((warn, critical)) ==> ordered_positive(warn, critical)
        &&& self.config.release_ok_streak > 0
    }

    /// Validated operator settings, including thermal and recovery limits.
    pub fn config(&self) -> (config: &SafetyPolicyConfig)
        ensures
            *config == self@.config,
    {
        &self.config
    }

    /// Effective warning/critical watts, or `None` for unavailable power policy.
    pub fn power_limits_w(&self) -> (limits: Option<(Binary32, Binary32)>)
        ensures
            limits == self@.power,
    {
        self.power_limits_w
    }

    /// Stable provenance: `operator`, `device_default`, or `unavailable`.
    pub fn power_limit_source(&self) -> (source: &'static str)
        ensures
            source@ == self@.source,
    {
        self.power_limit_source
    }

    /// Fixed brake strategy, shared with restart detection.
    pub fn brake_fraction(&self) -> (fraction: Binary32)
        ensures
            fraction == (Binary32 { bits: BRAKE_FRACTION }),
    {
        Binary32::from_bits(BRAKE_FRACTION)
    }

    /// Limits that evaluation uses under this policy.
    pub open spec fn spec_limits(self) -> SafetyLimits {
        SafetyLimits {
            temp_warn_c: self@.config.temp_warn_c,
            temp_critical_c: self@.config.temp_critical_c,
            power_w: self@.power,
            freshness: Some(
                FreshnessLimits {
                    max_sample_age_ms: self@.config.max_sample_age_ms,
                    max_acquisition_interval_ms: self@.config.max_acquisition_interval_ms,
                },
            ),
            release_ok_streak: self@.config.release_ok_streak,
        }
    }

    /// Limits that evaluation uses under this policy.
    pub fn limits(&self) -> (limits: SafetyLimits)
        ensures
            limits == self.spec_limits(),
            limits.usable(),
    {
        proof {
            use_type_invariant(self);
        }
        SafetyLimits {
            temp_warn_c: self.config.temp_warn_c,
            temp_critical_c: self.config.temp_critical_c,
            power_w: self.power_limits_w,
            freshness: Some(
                FreshnessLimits {
                    max_sample_age_ms: self.config.max_sample_age_ms,
                    max_acquisition_interval_ms: self.config.max_acquisition_interval_ms,
                },
            ),
            release_ok_streak: self.config.release_ok_streak,
        }
    }

    /// Checks that a supervisor tick interval honours this policy: it is within
    /// the acquisition bound, and a whole evaluation period is within the
    /// sample-age bound.
    pub fn check_step_interval(&self, step_interval_ms: u64) -> (outcome: Result<(), PolicyError>)
        ensures
            outcome is Ok <==> step_interval_ms <= self@.config.max_acquisition_interval_ms
                && SAFETY_EVAL_TICKS * step_interval_ms <= self@.config.max_sample_age_ms,
            outcome matches Err(e) ==> e.0@
                == "step interval exceeds safety acquisition or sample-age limit"@,
    {
        let error: PolicyError = PolicyError(
            "step interval exceeds safety acquisition or sample-age limit",
        );
        if step_interval_ms > self.config.max_acquisition_interval_ms {
            return Err(error);
        }
        match step_interval_ms.checked_mul(SAFETY_EVAL_TICKS) {
            Some(period) => if period <= self.config.max_sample_age_ms {
                Ok(())
            } else {
                Err(error)
            },
            None => Err(error),
        }
    }
}

} // verus!
