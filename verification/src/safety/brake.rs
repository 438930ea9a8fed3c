//! Power-limit brake targets: which limit is ours, which is not, what to set.
//!
//! A brake is recognised by its wattage alone: the target share of the device
//! default, within a small tolerance. A limit below the default that is not the
//! target belongs to someone else and is left alone.

use crate::binary32;
use crate::binary32::arithmetic;
use crate::binary32::convert;
use crate::binary32::Binary32;
use crate::safety::actuator::{ActuatorError, BrakeMatch};
use vstd::prelude::*;

verus! {

/// Largest distance in watts at which a limit counts as matching.
pub const MATCH_TOLERANCE_W: u32 = 2;

/// Pattern of 0.1: the smallest brake share.
pub const MIN_BRAKE_SHARE: u32 = 0x3dcc_cccd;

/// Pattern of 1: the largest brake share.
pub const MAX_BRAKE_SHARE: u32 = 0x3f80_0000;

/// Brake target in watts: `pct`, limited to `[0.1, 1]`, of the device default.
pub open spec fn target(default_w: u32, pct: Binary32) -> u32 {
    convert::truncated(
        arithmetic::product(
            convert::of_integer(default_w),
            convert::clamp(
                pct,
                Binary32 { bits: MIN_BRAKE_SHARE },
                Binary32 { bits: MAX_BRAKE_SHARE },
            ),
        ),
    )
}

/// Whether two limits match within the tolerance.
pub open spec fn near(a: int, b: int) -> bool {
    -MATCH_TOLERANCE_W <= a - b <= MATCH_TOLERANCE_W
}

/// Whether some limit could match both the target and the default.
pub open spec fn ambiguous(default_w: u32, target_w: u32) -> bool {
    exists|w: int| #[trigger] near(w, target_w as int) && near(w, default_w as int)
}

/// What the current and default power limits say about a leftover brake.
#[derive(Debug, Clone, Copy, PartialEq, Eq, Structural)]
pub enum PowerLimitObservation {
    /// A limit could not be queried.
    Unavailable,
    /// Target and default cannot be told apart within the tolerance.
    AmbiguousTarget,
    /// The current limit matches the brake target.
    RelayBrake,
    /// The current limit is below the default and is not the brake target.
    ForeignSubDefaultCap,
    /// The current limit is the default or above it.
    AtOrAboveDefault,
}

/// Observation for given limits.
pub open spec fn observation(
    current_w: Option<u32>,
    default_w: Option<u32>,
    pct: Binary32,
) -> PowerLimitObservation {
    match (current_w, default_w) {
        (Some(current), Some(default)) => if ambiguous(default, target(default, pct)) {
            PowerLimitObservation::AmbiguousTarget
        } else if near(current as int, target(default, pct) as int) {
            PowerLimitObservation::RelayBrake
        } else if current + MATCH_TOLERANCE_W < default {
            PowerLimitObservation::ForeignSubDefaultCap
        } else {
            PowerLimitObservation::AtOrAboveDefault
        },
        _ => PowerLimitObservation::Unavailable,
    }
}

impl PowerLimitObservation {
    /// Stable label.
    pub open spec fn label(self) -> Seq<char> {
        match self {
            PowerLimitObservation::Unavailable => "unavailable"@,
            PowerLimitObservation::AmbiguousTarget => "ambiguous_target"@,
            PowerLimitObservation::RelayBrake => "relay_brake"@,
            PowerLimitObservation::ForeignSubDefaultCap => "foreign_sub_default_cap"@,
            PowerLimitObservation::AtOrAboveDefault => "at_or_above_default"@,
        }
    }

    /// Stable label.
    pub fn as_str(self) -> (label: &'static str)
        ensures
            label@ == self.label(),
    {
        match self {
            PowerLimitObservation::Unavailable => "unavailable",
            PowerLimitObservation::AmbiguousTarget => "ambiguous_target",
            PowerLimitObservation::RelayBrake => "relay_brake",
            PowerLimitObservation::ForeignSubDefaultCap => "foreign_sub_default_cap",
            PowerLimitObservation::AtOrAboveDefault => "at_or_above_default",
        }
    }

    /// Whether the machine should start with a brake of its own engaged.
    pub fn should_seed_leftover_brake(self) -> (answer: bool)
        ensures
            answer == (self == PowerLimitObservation::RelayBrake),
    {
        matches!(self, PowerLimitObservation::RelayBrake)
    }
}

/// Brake target in watts.
pub fn brake_target_w(default_w: u32, pct: Binary32) -> (target_w: u32)
    ensures
        target_w == target(default_w, pct),
{
    let low: Binary32 = Binary32::from_bits(MIN_BRAKE_SHARE);
    let high: Binary32 = Binary32::from_bits(MAX_BRAKE_SHARE);
    proof {
        binary32::lemma_units_signs(low);
        binary32::lemma_units_signs(high);
        binary32::lemma_magnitude_monotonic(MIN_BRAKE_SHARE as int, MAX_BRAKE_SHARE as int);
    }
    Binary32::from_integer(default_w).times(pct.clamped(low, high)).truncate()
}

fn is_near(a: u32, b: u32) -> (answer: bool)
    ensures
        answer == near(a as int, b as int),
{
    if a >= b {
        a - b <= MATCH_TOLERANCE_W
    } else {
        b - a <= MATCH_TOLERANCE_W
    }
}

fn is_ambiguous(default_w: u32, target_w: u32) -> (answer: bool)
    ensures
        answer == ambiguous(default_w, target_w),
{
    let gap: u32 = if default_w >= target_w {
        default_w - target_w
    } else {
        target_w - default_w
    };
    proof {
        let middle = (default_w + target_w) / 2;
        if gap <= 4 {
            assert(near(middle as int, target_w as int) && near(middle as int, default_w as int));
        }
    }
    gap <= 2 * MATCH_TOLERANCE_W
}

/// Classify the current power limit against the device default and the brake
/// target at `pct` of it.
pub fn classify_power_limit(current_w: Option<u32>, default_w: Option<u32>, pct: Binary32) -> (found:
    PowerLimitObservation)
    ensures
        found == observation(current_w, default_w, pct),
{
    match (current_w, default_w) {
        (Some(current), Some(default)) => {
            let target_w: u32 = brake_target_w(default, pct);
            if is_ambiguous(default, target_w) {
                PowerLimitObservation::AmbiguousTarget
            } else if is_near(current, target_w) {
                PowerLimitObservation::RelayBrake
            } else if current < default && default - current > MATCH_TOLERANCE_W {
                PowerLimitObservation::ForeignSubDefaultCap
            } else {
                PowerLimitObservation::AtOrAboveDefault
            }
        },
        _ => PowerLimitObservation::Unavailable,
    }
}

/// What an actuator should do to the power limit.
#[derive(Debug, Clone, Copy, PartialEq, Eq, Structural)]
pub enum LimitCommand {
    /// Set the limit to this many watts.
    SetWatts(u32),
    /// The limit is already where it should be.
    Keep,
}

/// Refusal of a target that cannot be told from the default.
pub open spec fn ambiguous_refusal() -> Seq<char> {
    "brake target is ambiguous with the device default power limit; refusing"@
}

/// Refusal of a power cap that is not the relay's.
pub open spec fn foreign_refusal() -> Seq<char> {
    "foreign sub-default power cap; refusing to change it"@
}

/// Whether an error is a refused command with the given reason.
pub open spec fn refused(error: ActuatorError, reason: Seq<char>) -> bool {
    error matches ActuatorError::CommandFailed(text) && text@ == reason
}

/// Plan engaging the brake from the queried limits.
///
/// Fails closed without a device default, refuses an ambiguous target and a
/// foreign cap, keeps a brake that is already engaged, and otherwise sets the
/// target: `pct` of the *default*, so restarts cannot compound the throttle.
pub fn plan_apply(current_w: Option<u32>, default_w: Option<u32>, pct: Binary32) -> (plan: Result<
    LimitCommand,
    ActuatorError,
>)
    ensures
        match (default_w, observation(current_w, default_w, pct)) {
            (None, _) => plan == Err::<LimitCommand, ActuatorError>(
                ActuatorError::PowerLimitUnavailable,
            ),
            (Some(default), PowerLimitObservation::Unavailable) => if ambiguous(
                default,
                target(default, pct),
            ) {
                plan matches Err(e) && refused(e, ambiguous_refusal())
            } else {
                plan == Ok::<LimitCommand, ActuatorError>(LimitCommand::SetWatts(target(default, pct)))
            },
            (_, PowerLimitObservation::AmbiguousTarget) => plan matches Err(e) && refused(
                e,
                ambiguous_refusal(),
            ),
            (_, PowerLimitObservation::RelayBrake) => plan == Ok::<LimitCommand, ActuatorError>(
                LimitCommand::Keep,
            ),
            (_, PowerLimitObservation::ForeignSubDefaultCap) => plan matches Err(e) && refused(
                e,
                foreign_refusal(),
            ),
            (Some(default), PowerLimitObservation::AtOrAboveDefault) => plan == Ok::<
                LimitCommand,
                ActuatorError,
            >(LimitCommand::SetWatts(target(default, pct))),
        },
{
    let default: u32 = match default_w {
        Some(default) => default,
        None => return Err(ActuatorError::PowerLimitUnavailable),
    };
    let target_w: u32 = brake_target_w(default, pct);
    match classify_power_limit(current_w, default_w, pct) {
        PowerLimitObservation::Unavailable => if is_ambiguous(default, target_w) {
            Err(refuse_ambiguous())
        } else {
            Ok(LimitCommand::SetWatts(target_w))
        },
        PowerLimitObservation::AmbiguousTarget => Err(refuse_ambiguous()),
        PowerLimitObservation::RelayBrake => Ok(LimitCommand::Keep),
        PowerLimitObservation::ForeignSubDefaultCap => Err(refuse_foreign()),
        PowerLimitObservation::AtOrAboveDefault => Ok(LimitCommand::SetWatts(target_w)),
    }
}

/// Plan releasing the brake from the queried limits.
///
/// Restores the device default only from the brake target; fails closed if a
/// limit cannot be queried, refuses an ambiguous target and a foreign cap, and
/// keeps a limit that is already at or above the default.
pub fn plan_release(current_w: Option<u32>, default_w: Option<u32>, pct: Binary32) -> (plan: Result<
    LimitCommand,
    ActuatorError,
>)
    ensures
        match observation(current_w, default_w, pct) {
            PowerLimitObservation::Unavailable => plan == Err::<LimitCommand, ActuatorError>(
                ActuatorError::PowerLimitUnavailable,
            ),
            PowerLimitObservation::AmbiguousTarget => plan matches Err(e) && refused(
                e,
                ambiguous_refusal(),
            ),
            PowerLimitObservation::ForeignSubDefaultCap => plan matches Err(e) && refused(
                e,
                foreign_refusal(),
            ),
            PowerLimitObservation::RelayBrake => plan == Ok::<LimitCommand, ActuatorError>(
                LimitCommand::SetWatts(default_w->0),
            ),
            PowerLimitObservation::AtOrAboveDefault => plan == Ok::<LimitCommand, ActuatorError>(
                LimitCommand::Keep,
            ),
        },
{
    match (classify_power_limit(current_w, default_w, pct), default_w) {
        (PowerLimitObservation::RelayBrake, Some(default)) => Ok(LimitCommand::SetWatts(default)),
        (PowerLimitObservation::AtOrAboveDefault, _) => Ok(LimitCommand::Keep),
        (PowerLimitObservation::AmbiguousTarget, _) => Err(refuse_ambiguous()),
        (PowerLimitObservation::ForeignSubDefaultCap, _) => Err(refuse_foreign()),
        _ => Err(ActuatorError::PowerLimitUnavailable),
    }
}

fn refuse_ambiguous() -> (error: ActuatorError)
    ensures
        refused(error, ambiguous_refusal()),
{
    ActuatorError::CommandFailed(
        "brake target is ambiguous with the device default power limit; refusing".to_owned(),
    )
}

fn refuse_foreign() -> (error: ActuatorError)
    ensures
        refused(error, foreign_refusal()),
{
    ActuatorError::CommandFailed("foreign sub-default power cap; refusing to change it".to_owned())
}

/// Detect a leftover brake whose current limit matches the brake target.
///
/// A sub-default cap that does not match is not ours to release.
pub fn match_engaged_brake(current_w: Option<u32>, default_w: Option<u32>, pct: Binary32) -> (found:
    Option<BrakeMatch>)
    ensures
        found is Some <==> observation(current_w, default_w, pct)
            == PowerLimitObservation::RelayBrake,
        found matches Some(m) ==> current_w == Some(m.current_w) && default_w == Some(m.default_w)
            && m.expected_w == target(m.default_w, pct),
{
    match (classify_power_limit(current_w, default_w, pct), current_w, default_w) {
        (PowerLimitObservation::RelayBrake, Some(current), Some(default)) => Some(
            BrakeMatch {
                current_w: current,
                default_w: default,
                expected_w: brake_target_w(default, pct),
            },
        ),
        _ => None,
    }
}

} // verus!
