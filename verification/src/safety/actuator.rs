//! The privileged hardware-safety actuation boundary.

use crate::binary32::Binary32;
use crate::text::push_text;
use vstd::prelude::*;

verus! {

/// Typed, observable failure of a privileged actuation attempt.
#[derive(Debug, PartialEq, Eq)]
pub enum ActuatorError {
    /// A real power limit could not be queried; refusing an arbitrary fallback.
    PowerLimitUnavailable,
    /// The actuation command failed or was refused.
    CommandFailed(String),
}

impl Clone for ActuatorError {
    fn clone(&self) -> (copy: Self)
        ensures
            copy == *self,
    {
        match self {
            ActuatorError::PowerLimitUnavailable => ActuatorError::PowerLimitUnavailable,
            ActuatorError::CommandFailed(reason) => ActuatorError::CommandFailed(reason.clone()),
        }
    }
}

impl ActuatorError {
    /// Message of the error.
    pub open spec fn wording(self) -> Seq<char> {
        match self {
            ActuatorError::PowerLimitUnavailable =>
                "power limit unavailable via backend; refusing arbitrary fallback"@,
            ActuatorError::CommandFailed(reason) => "actuation command failed: "@ + reason@,
        }
    }

    /// Message of the error.
    pub fn message(&self) -> (text: String)
        ensures
            text@ == self.wording(),
    {
        match self {
            ActuatorError::PowerLimitUnavailable =>
                "power limit unavailable via backend; refusing arbitrary fallback".to_owned(),
            ActuatorError::CommandFailed(reason) => {
                let mut text: String = "actuation command failed: ".to_owned();
                push_text(&mut text, reason.as_str());
                text
            },
        }
    }
}

/// A detected engaged brake: the current, default, and expected-brake limits.
#[derive(Debug, Clone, Copy, PartialEq, Eq, Structural)]
pub struct BrakeMatch {
    /// Current power limit in watts.
    pub current_w: u32,
    /// Device default power limit in watts.
    pub default_w: u32,
    /// Expected emergency-brake target in watts.
    pub expected_w: u32,
}

/// Applies and releases a hardware power-limit brake and detects a leftover
/// brake at startup.
///
/// The machine decides *intent* and never actuates; implementations perform the
/// privileged side effect and report typed errors. They must be `Send + Sync`
/// so that blocking worker tasks can drive them.
pub trait SafetyActuator: Send + Sync {
    /// Engage the emergency brake, throttling to `pct` of the device *default*
    /// power limit. Fails closed rather than inventing a wattage.
    fn apply_emergency_brake(&mut self, pct: Binary32) -> (outcome: Result<(), ActuatorError>);

    /// Release the emergency brake, restoring the device default power limit.
    fn release_emergency_brake(&mut self) -> (outcome: Result<(), ActuatorError>);

    /// Detect a leftover brake matching this relay's `pct` target. `None` when
    /// no matching brake is present or the limits cannot be queried.
    fn detect_engaged_brake(&self, pct: Binary32) -> (found: Option<BrakeMatch>);
}

/// Mathematical state of a [`FakeActuator`].
pub struct FakeState {
    /// Whether the brake is engaged.
    pub engaged: bool,
    /// Apply calls received, limited to what fits.
    pub apply_calls: u32,
    /// Release calls received, limited to what fits.
    pub release_calls: u32,
    /// Error every apply fails with, if any.
    pub fail_apply: Option<ActuatorError>,
    /// Error every release fails with, if any.
    pub fail_release: Option<ActuatorError>,
    /// Brake reported as detected.
    pub detected: Option<BrakeMatch>,
}

/// Deterministic in-memory [`SafetyActuator`] for tests.
///
/// Records apply/release call counts, tracks engaged state, and can be
/// configured to fail apply and/or release to exercise fail-closed paths.
#[derive(Debug)]
pub struct FakeActuator {
    engaged: bool,
    apply_calls: u32,
    release_calls: u32,
    fail_apply: Option<ActuatorError>,
    fail_release: Option<ActuatorError>,
    detected: Option<BrakeMatch>,
}

impl View for FakeActuator {
    type V = FakeState;

    closed spec fn view(&self) -> FakeState {
        FakeState {
            engaged: self.engaged,
            apply_calls: self.apply_calls,
            release_calls: self.release_calls,
            fail_apply: self.fail_apply,
            fail_release: self.fail_release,
            detected: self.detected,
        }
    }
}

/// One more call, limited to what fits.
pub open spec fn one_more(calls: u32) -> u32 {
    if calls == u32::MAX {
        calls
    } else {
        (calls + 1) as u32
    }
}

/// No brake engaged, no calls, no injected failures.
pub open spec fn untouched() -> FakeState {
    FakeState {
        engaged: false,
        apply_calls: 0,
        release_calls: 0,
        fail_apply: None,
        fail_release: None,
        detected: None,
    }
}

impl Default for FakeActuator {
    fn default() -> (fake: Self)
        ensures
            fake@ == untouched(),
    {
        FakeActuator::new()
    }
}

impl FakeActuator {
    /// A fake with no brake engaged and no injected failures.
    pub fn new() -> (fake: Self)
        ensures
            fake@ == untouched(),
    {
        FakeActuator {
            engaged: false,
            apply_calls: 0,
            release_calls: 0,
            fail_apply: None,
            fail_release: None,
            detected: None,
        }
    }

    /// Configure applying to fail with `err`.
    pub fn set_apply_failure(&mut self, err: Option<ActuatorError>)
        ensures
            final(self)@ == (FakeState { fail_apply: err, ..old(self)@ }),
    {
        self.fail_apply = err;
    }

    /// Configure releasing to fail with `err`.
    pub fn set_release_failure(&mut self, err: Option<ActuatorError>)
        ensures
            final(self)@ == (FakeState { fail_release: err, ..old(self)@ }),
    {
        self.fail_release = err;
    }

    /// Configure the brake reported as detected.
    pub fn set_detected_brake(&mut self, detected: Option<BrakeMatch>)
        ensures
            final(self)@ == (FakeState { detected, ..old(self)@ }),
    {
        self.detected = detected;
    }

    /// Whether the fake brake is currently engaged.
    pub fn is_engaged(&self) -> (engaged: bool)
        ensures
            engaged == self@.engaged,
    {
        self.engaged
    }

    /// Number of apply calls received.
    pub fn apply_calls(&self) -> (calls: u32)
        ensures
            calls == self@.apply_calls,
    {
        self.apply_calls
    }

    /// Number of release calls received.
    pub fn release_calls(&self) -> (calls: u32)
        ensures
            calls == self@.release_calls,
    {
        self.release_calls
    }
}

impl SafetyActuator for FakeActuator {
    /// Counts the call; engages unless a failure is configured.
    fn apply_emergency_brake(&mut self, pct: Binary32) -> (outcome: Result<(), ActuatorError>)
        ensures
            outcome == (match old(self)@.fail_apply {
                Some(err) => Err::<(), ActuatorError>(err),
                None => Ok(()),
            }),
            final(self)@ == (FakeState {
                apply_calls: one_more(old(self)@.apply_calls),
                engaged: old(self)@.engaged || outcome is Ok,
                ..old(self)@
            }),
    {
        self.apply_calls = self.apply_calls.saturating_add(1);
        if let Some(err) = &self.fail_apply {
            return Err(err.clone());
        }
        self.engaged = true;
        Ok(())
    }

    /// Counts the call; disengages unless a failure is configured.
    fn release_emergency_brake(&mut self) -> (outcome: Result<(), ActuatorError>)
        ensures
            outcome == (match old(self)@.fail_release {
                Some(err) => Err::<(), ActuatorError>(err),
                None => Ok(()),
            }),
            final(self)@ == (FakeState {
                release_calls: one_more(old(self)@.release_calls),
                engaged: old(self)@.engaged && outcome is Err,
                ..old(self)@
            }),
    {
        self.release_calls = self.release_calls.saturating_add(1);
        if let Some(err) = &self.fail_release {
            return Err(err.clone());
        }
        self.engaged = false;
        Ok(())
    }

    /// The configured brake, whatever `pct` is.
    fn detect_engaged_brake(&self, pct: Binary32) -> (found: Option<BrakeMatch>)
        ensures
            found == self@.detected,
    {
        self.detected
    }
}

} // verus!
