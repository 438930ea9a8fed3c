//! Isolated hardware-safety failure domain.
//!
//! Classification, hysteresis, and brake *intent* are functions of a frame and
//! the machine state. Privileged actuation goes through
//! [`actuator::SafetyActuator`]; sensory publication lives in
//! [`crate::publish`] and is never awaited on this path.

pub use crate::safety::actuator::{ActuatorError, BrakeMatch, FakeActuator, SafetyActuator};
pub use crate::safety::brake::{
    brake_target_w, classify_power_limit, match_engaged_brake, plan_apply, plan_release,
    LimitCommand, PowerLimitObservation,
};
pub use crate::safety::classify::{
    classify_frame, classify_frame_with, instant_status, AssessmentKind, FrameAssessment,
    SafetyStatus,
};
pub use crate::safety::limits::{
    FreshnessLimits, SafetyLimits, BRAKE_FRACTION, POWER_CRITICAL_W, POWER_WARN_W,
    RELEASE_OK_STREAK, TEMP_CRITICAL_C, TEMP_WARN_C,
};
pub use crate::safety::machine::{
    ActuatorOutcome, BrakeIntent, SafetyMachine, SafetySnapshot, SafetyState,
};
pub use crate::safety::policy::{PolicyError, SafetyPolicy, SafetyPolicyConfig};

pub mod actuator;
pub mod brake;
pub mod classify;
pub mod laws;
pub mod limits;
pub mod machine;
pub mod policy;
