//! Thresholds that safety evaluation works with.

use crate::binary32;
use crate::binary32::Binary32;
use vstd::prelude::*;

verus! {

/// Consecutive real Ok evaluations required before a release intent.
pub const RELEASE_OK_STREAK: u32 = 3;

/// Pattern of 0.5: emergency-brake fraction of the device default power limit.
pub const BRAKE_FRACTION: u32 = 0x3f00_0000;

/// Pattern of 75 °C: thermal warning band, inclusive of this threshold.
pub const TEMP_WARN_C: u32 = 0x4296_0000;

/// Pattern of 85 °C: thermal critical threshold.
pub const TEMP_CRITICAL_C: u32 = 0x42aa_0000;

/// Pattern of 300 W: power warning band, inclusive of this threshold.
pub const POWER_WARN_W: u32 = 0x4396_0000;

/// Pattern of 350 W: power critical threshold.
pub const POWER_CRITICAL_W: u32 = 0x43af_0000;

/// Freshness bounds on the safety samples of a frame.
#[derive(Debug, Clone, Copy, PartialEq, Eq)]
pub struct FreshnessLimits {
    /// Sample age at which a sample is stale.
    pub max_sample_age_ms: u64,
    /// Largest acceptable declared acquisition interval.
    pub max_acquisition_interval_ms: u64,
}

/// Thresholds that safety evaluation works with.
#[derive(Debug, Clone, Copy, PartialEq, Eq)]
pub struct SafetyLimits {
    /// Thermal warning threshold (inclusive).
    pub temp_warn_c: Binary32,
    /// Thermal critical threshold (exceeded strictly).
    pub temp_critical_c: Binary32,
    /// Power warning (inclusive) and critical (exceeded strictly) thresholds,
    /// or none if there is no power policy.
    pub power_w: Option<(Binary32, Binary32)>,
    /// Freshness bounds, if there are any beyond the sample contract.
    pub freshness: Option<FreshnessLimits>,
    /// Consecutive real Ok evaluations required before a release intent.
    pub release_ok_streak: u32,
}

impl SafetyLimits {
    /// Thresholds are positive numbers, and a release takes at least one Ok.
    pub open spec fn usable(self) -> bool {
        &&& !self.temp_warn_c.nan() && self.temp_warn_c.units() > 0
        &&& !self.temp_critical_c.nan() && self.temp_critical_c.units() > 0
        &&& self.power_w matches Some((warn, critical)) ==> !warn.nan() && warn.units() > 0
            && !critical.nan() && critical.units() > 0
        &&& self.release_ok_streak > 0
    }

    /// The thresholds of a machine without a resolved policy.
    pub open spec fn documented() -> SafetyLimits {
        SafetyLimits {
            temp_warn_c: Binary32 { bits: TEMP_WARN_C },
            temp_critical_c: Binary32 { bits: TEMP_CRITICAL_C },
            power_w: Some(
                (Binary32 { bits: POWER_WARN_W }, Binary32 { bits: POWER_CRITICAL_W }),
            ),
            freshness: None,
            release_ok_streak: RELEASE_OK_STREAK,
        }
    }

    /// The thresholds of a machine without a resolved policy.
    pub fn default_limits() -> (limits: SafetyLimits)
        ensures
            limits == SafetyLimits::documented(),
            limits.usable(),
    {
        proof {
            binary32::lemma_units_signs(Binary32 { bits: TEMP_WARN_C });
            binary32::lemma_units_signs(Binary32 { bits: TEMP_CRITICAL_C });
            binary32::lemma_units_signs(Binary32 { bits: POWER_WARN_W });
            binary32::lemma_units_signs(Binary32 { bits: POWER_CRITICAL_W });
        }
        SafetyLimits {
            temp_warn_c: Binary32::from_bits(TEMP_WARN_C),
            temp_critical_c: Binary32::from_bits(TEMP_CRITICAL_C),
            power_w: Some(
                (Binary32::from_bits(POWER_WARN_W), Binary32::from_bits(POWER_CRITICAL_W)),
            ),
            freshness: None,
            release_ok_streak: RELEASE_OK_STREAK,
        }
    }
}

} // verus!
