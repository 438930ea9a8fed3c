//! Deterministic safety state machine. Not coupled to IPC or GPU actuation.

use crate::safety::classify;
use crate::safety::classify::{classify_frame_with, AssessmentKind, FrameAssessment};
use crate::safety::limits::SafetyLimits;
use crate::safety::policy::SafetyPolicy;
use crate::telemetry::TelemetryFrame;
use vstd::prelude::*;

verus! {

/// Named relay/safety state. Observable without querying neural runtime state.
#[derive(Debug, Clone, Copy, PartialEq, Eq, Hash, Structural)]
pub enum SafetyState {
    /// Real NVML, valid, below warn, brake not engaged.
    HealthyReal,
    /// Real, valid, warn band. Brake is not newly applied (held if already on).
    Warning,
    /// Thermal/power critical; brake desired (and engaged once actuation succeeds).
    CriticalBraked,
    /// Brake still engaged; consecutive real Ok streak toward release.
    Recovering,
    /// Safety-critical sample missing.
    TelemetryMissing,
    /// Safety-critical sample older than its stale threshold.
    TelemetryStale,
    /// Safety-critical sample non-finite or out of engineering range.
    TelemetryInvalid,
    /// Software fallback.
    SimulatedSoftwareOnly,
    /// Last apply/release command failed. Policy still evaluates underneath.
    ActuatorFailure,
}

impl SafetyState {
    /// All named states, in stable metric-id order.
    pub const ALL: [SafetyState; 9] = [
        SafetyState::HealthyReal,
        SafetyState::Warning,
        SafetyState::CriticalBraked,
        SafetyState::Recovering,
        SafetyState::TelemetryMissing,
        SafetyState::TelemetryStale,
        SafetyState::TelemetryInvalid,
        SafetyState::SimulatedSoftwareOnly,
        SafetyState::ActuatorFailure,
    ];

    /// Position in [`Self::ALL`].
    pub open spec fn id(self) -> int {
        match self {
            SafetyState::HealthyReal => 0,
            SafetyState::Warning => 1,
            SafetyState::CriticalBraked => 2,
            SafetyState::Recovering => 3,
            SafetyState::TelemetryMissing => 4,
            SafetyState::TelemetryStale => 5,
            SafetyState::TelemetryInvalid => 6,
            SafetyState::SimulatedSoftwareOnly => 7,
            SafetyState::ActuatorFailure => 8,
        }
    }

    /// Metric label.
    pub open spec fn label(self) -> Seq<char> {
        match self {
            SafetyState::HealthyReal => "healthy_real"@,
            SafetyState::Warning => "warning"@,
            SafetyState::CriticalBraked => "critical_braked"@,
            SafetyState::Recovering => "recovering"@,
            SafetyState::TelemetryMissing => "telemetry_missing"@,
            SafetyState::TelemetryStale => "telemetry_stale"@,
            SafetyState::TelemetryInvalid => "telemetry_invalid"@,
            SafetyState::SimulatedSoftwareOnly => "simulated_software_only"@,
            SafetyState::ActuatorFailure => "actuator_failure"@,
        }
    }

    /// Stable Prometheus numeric id (0…8): the position in [`Self::ALL`].
    pub fn as_id(self) -> (id: u8)
        ensures
            id == self.id(),
            SafetyState::ALL@[id as int] == self,
    {
        match self {
            SafetyState::HealthyReal => 0,
            SafetyState::Warning => 1,
            SafetyState::CriticalBraked => 2,
            SafetyState::Recovering => 3,
            SafetyState::TelemetryMissing => 4,
            SafetyState::TelemetryStale => 5,
            SafetyState::TelemetryInvalid => 6,
            SafetyState::SimulatedSoftwareOnly => 7,
            SafetyState::ActuatorFailure => 8,
        }
    }

    /// Prometheus `state` label.
    pub fn as_str(self) -> (label: &'static str)
        ensures
            label@ == self.label(),
    {
        match self {
            SafetyState::HealthyReal => "healthy_real",
            SafetyState::Warning => "warning",
            SafetyState::CriticalBraked => "critical_braked",
            SafetyState::Recovering => "recovering",
            SafetyState::TelemetryMissing => "telemetry_missing",
            SafetyState::TelemetryStale => "telemetry_stale",
            SafetyState::TelemetryInvalid => "telemetry_invalid",
            SafetyState::SimulatedSoftwareOnly => "simulated_software_only",
            SafetyState::ActuatorFailure => "actuator_failure",
        }
    }
}

/// Brake command the supervisor may dispatch to an actuator.
#[derive(Debug, Clone, Copy, PartialEq, Eq, Structural)]
pub enum BrakeIntent {
    /// No apply/release this step.
    NoChange,
    /// Supervisor should apply the emergency brake.
    Apply,
    /// Supervisor should release the emergency brake.
    Release,
}

/// Result of a privileged apply/release attempt. Fed back into the machine;
/// the machine never executes the command itself.
#[derive(Debug, PartialEq, Eq)]
pub enum ActuatorOutcome {
    /// Brake apply succeeded.
    Applied,
    /// Brake apply failed; the string is a log-oriented reason.
    ApplyFailed(String),
    /// Brake release succeeded.
    Released,
    /// Brake release failed; the string is a log-oriented reason.
    ReleaseFailed(String),
}

impl Clone for ActuatorOutcome {
    fn clone(&self) -> (copy: Self)
        ensures
            copy == *self,
    {
        match self {
            ActuatorOutcome::Applied => ActuatorOutcome::Applied,
            ActuatorOutcome::ApplyFailed(err) => ActuatorOutcome::ApplyFailed(err.clone()),
            ActuatorOutcome::Released => ActuatorOutcome::Released,
            ActuatorOutcome::ReleaseFailed(err) => ActuatorOutcome::ReleaseFailed(err.clone()),
        }
    }
}

/// Observable snapshot after [`SafetyMachine::evaluate`] or actuator feedback.
#[derive(Debug, PartialEq, Eq)]
pub struct SafetySnapshot {
    /// Reported state (actuator failure overlays policy when the last command failed).
    pub state: SafetyState,
    /// Policy classification ignoring actuator overlay.
    pub policy_state: SafetyState,
    /// Whether the last successful apply is still claimed.
    pub brake_engaged: bool,
    /// Whether policy currently wants the brake on.
    pub desired_brake: bool,
    /// Apply / release / no change derived from desired vs engaged.
    pub intent: BrakeIntent,
    /// Consecutive real Ok evaluations while braked (release hysteresis).
    pub hysteresis_ok_count: u32,
    /// Reason from the latest classification or actuator feedback.
    pub last_reason: String,
    /// Last apply/release error, if the overlay is active.
    pub last_actuator_error: Option<String>,
    /// Named-state change this step, if any.
    pub transition: Option<(SafetyState, SafetyState)>,
    /// True when this step recorded a new actuator failure.
    pub actuator_failed: bool,
}

impl Clone for SafetySnapshot {
    fn clone(&self) -> (copy: Self)
        ensures
            copy == *self,
    {
        SafetySnapshot {
            state: self.state,
            policy_state: self.policy_state,
            brake_engaged: self.brake_engaged,
            desired_brake: self.desired_brake,
            intent: self.intent,
            hysteresis_ok_count: self.hysteresis_ok_count,
            last_reason: self.last_reason.clone(),
            last_actuator_error: cloned_text(&self.last_actuator_error),
            transition: self.transition,
            actuator_failed: self.actuator_failed,
        }
    }
}

/// Command that turns the engaged brake into the desired one.
pub open spec fn intent(desired_brake: bool, brake_engaged: bool) -> BrakeIntent {
    if desired_brake && !brake_engaged {
        BrakeIntent::Apply
    } else if !desired_brake && brake_engaged {
        BrakeIntent::Release
    } else {
        BrakeIntent::NoChange
    }
}

impl SafetySnapshot {
    /// Derive [`BrakeIntent`] from desired vs currently engaged brake.
    pub fn intent_from(desired_brake: bool, brake_engaged: bool) -> (command: BrakeIntent)
        ensures
            command == intent(desired_brake, brake_engaged),
    {
        match (desired_brake, brake_engaged) {
            (true, false) => BrakeIntent::Apply,
            (false, true) => BrakeIntent::Release,
            _ => BrakeIntent::NoChange,
        }
    }
}

/// Mathematical state of a [`SafetyMachine`].
pub struct MachineState {
    /// Thresholds in force.
    pub limits: SafetyLimits,
    /// Whether the last successful apply is still claimed.
    pub brake_engaged: bool,
    /// Consecutive real Ok evaluations while braked.
    pub ok_count: u32,
    /// Whether the last actuator feedback was a successful release that no
    /// frame has been evaluated after.
    pub just_released: bool,
    /// Whether the last evaluation was a warning right after a release, which
    /// asked for the brake again.
    pub reapply_asked: bool,
    /// Whether such a request may still fail: since it was made only warnings
    /// came and no apply succeeded.
    pub reapply_pending: bool,
    /// Error of the last failed command, if not cleared since.
    pub error: Option<Seq<char>>,
    /// Policy classification.
    pub policy_state: SafetyState,
    /// Reported state.
    pub state: SafetyState,
    /// Reason of the latest step.
    pub reason: Seq<char>,
    /// Reported-state changes so far, limited to what fits.
    pub transitions: u64,
    /// Failed commands so far, limited to what fits.
    pub failures: u64,
}

/// One more, limited to what fits.
pub open spec fn counted(n: u64) -> u64 {
    if n == u64::MAX {
        n
    } else {
        (n + 1) as u64
    }
}

/// One more, limited to what fits.
pub open spec fn longer(n: u32) -> u32 {
    if n == u32::MAX {
        n
    } else {
        (n + 1) as u32
    }
}

impl MachineState {
    /// State reported for the policy state and the last error.
    pub open spec fn reported(self) -> SafetyState {
        if self.error is Some {
            SafetyState::ActuatorFailure
        } else {
            self.policy_state
        }
    }

    /// The same state with the reported state brought up to date.
    pub open spec fn settled(self) -> MachineState {
        MachineState {
            state: self.reported(),
            transitions: if self.state != self.reported() {
                counted(self.transitions)
            } else {
                self.transitions
            },
            ..self
        }
    }

    /// Policy state of a frame assessed as `kind`.
    pub open spec fn policy_state_for(self, kind: AssessmentKind) -> SafetyState {
        match kind {
            AssessmentKind::Simulated => SafetyState::SimulatedSoftwareOnly,
            AssessmentKind::Missing => SafetyState::TelemetryMissing,
            AssessmentKind::Invalid => SafetyState::TelemetryInvalid,
            AssessmentKind::Stale => SafetyState::TelemetryStale,
            AssessmentKind::Critical => SafetyState::CriticalBraked,
            AssessmentKind::Warn => SafetyState::Warning,
            AssessmentKind::Okay => if self.brake_engaged {
                SafetyState::Recovering
            } else {
                SafetyState::HealthyReal
            },
        }
    }

    /// Ok streak after a frame assessed as `kind`: it grows only on a real Ok
    /// while braked, and anything else starts it over.
    pub open spec fn streak_after(self, kind: AssessmentKind) -> u32 {
        if kind == AssessmentKind::Okay && self.brake_engaged {
            longer(self.ok_count)
        } else {
            0
        }
    }

    /// Whether policy wants the brake on after a frame assessed as `kind`.
    pub open spec fn desired_for(self, kind: AssessmentKind) -> bool {
        match kind {
            AssessmentKind::Simulated => self.brake_engaged,
            AssessmentKind::Warn => self.brake_engaged || self.just_released,
            AssessmentKind::Okay => self.brake_engaged && self.streak_after(kind)
                < self.limits.release_ok_streak,
            _ => true,
        }
    }

    /// Whether a frame assessed as `kind` asks for a just released brake again.
    pub open spec fn asks_again(self, kind: AssessmentKind) -> bool {
        kind == AssessmentKind::Warn && !self.brake_engaged && self.just_released
    }

    /// Whether a request for the brake again may still fail after a frame
    /// assessed as `kind`: a new one, or an earlier one that only warnings
    /// followed.
    pub open spec fn pending_after(self, kind: AssessmentKind) -> bool {
        kind == AssessmentKind::Warn && !self.brake_engaged && (self.just_released
            || self.reapply_pending)
    }

    /// State after evaluating a frame assessed as `found`.
    pub open spec fn evaluated(self, found: (AssessmentKind, Seq<char>)) -> MachineState {
        let policy_state = self.policy_state_for(found.0);
        let cleared = policy_state == SafetyState::HealthyReal && !self.desired_for(found.0);
        MachineState {
            ok_count: self.streak_after(found.0),
            just_released: false,
            reapply_asked: self.asks_again(found.0),
            reapply_pending: self.pending_after(found.0),
            error: if cleared {
                None
            } else {
                self.error
            },
            policy_state,
            reason: found.1,
            ..self
        }.settled()
    }

    /// Whether policy wants the brake on, going by the last policy state.
    pub open spec fn desired(self) -> bool {
        match self.policy_state {
            SafetyState::HealthyReal => false,
            SafetyState::SimulatedSoftwareOnly => self.brake_engaged,
            SafetyState::Warning => self.brake_engaged || self.just_released || self.reapply_asked,
            SafetyState::Recovering => self.ok_count < self.limits.release_ok_streak,
            _ => true,
        }
    }

    /// State at process start with a leftover brake detected.
    pub open spec fn seeded(self) -> MachineState {
        MachineState {
            brake_engaged: true,
            ok_count: 0,
            just_released: false,
            reapply_asked: false,
            reapply_pending: false,
            policy_state: SafetyState::Recovering,
            state: SafetyState::Recovering,
            reason: "leftover emergency brake detected at startup"@,
            ..self
        }
    }

    /// State after the feedback of a brake command. A failed apply that was to
    /// follow a release leaves the brake just released, so that the next warning
    /// asks for it again.
    pub open spec fn after(self, outcome: ActuatorOutcome) -> MachineState {
        match outcome {
            ActuatorOutcome::Applied => MachineState {
                brake_engaged: true,
                error: None,
                just_released: false,
                reapply_asked: false,
                reapply_pending: false,
                ..self
            },
            ActuatorOutcome::ApplyFailed(err) => MachineState {
                brake_engaged: false,
                just_released: self.just_released || self.reapply_pending,
                error: Some(err@),
                failures: counted(self.failures),
                ..self
            },
            ActuatorOutcome::Released => MachineState {
                brake_engaged: false,
                ok_count: 0,
                just_released: true,
                reapply_asked: false,
                reapply_pending: false,
                error: None,
                policy_state: SafetyState::HealthyReal,
                reason: "brake released"@,
                ..self
            },
            ActuatorOutcome::ReleaseFailed(err) => MachineState {
                error: Some(err@),
                failures: counted(self.failures),
                ..self
            },
        }.settled()
    }
}

/// Whether `snapshot` shows machine state `m` with the given step results.
pub open spec fn shows(
    snapshot: SafetySnapshot,
    m: MachineState,
    desired: bool,
    transition: Option<(SafetyState, SafetyState)>,
    actuator_failed: bool,
) -> bool {
    &&& snapshot.state == m.state
    &&& snapshot.policy_state == m.policy_state
    &&& snapshot.brake_engaged == m.brake_engaged
    &&& snapshot.desired_brake == desired
    &&& snapshot.intent == intent(desired, m.brake_engaged)
    &&& snapshot.hysteresis_ok_count == m.ok_count
    &&& snapshot.last_reason@ == m.reason
    &&& (snapshot.last_actuator_error is Some) == (m.error is Some)
    &&& snapshot.last_actuator_error matches Some(text) ==> m.error == Some(text@)
    &&& snapshot.transition == transition
    &&& snapshot.actuator_failed == actuator_failed
}

/// The reported-state change from `before` to `after`, if there is one.
pub open spec fn change(before: MachineState, after: MachineState) -> Option<
    (SafetyState, SafetyState),
> {
    if before.state != after.state {
        Some((before.state, after.state))
    } else {
        None
    }
}

/// Deterministic safety state machine.
#[derive(Debug)]
pub struct SafetyMachine {
    limits: SafetyLimits,
    brake_engaged: bool,
    ok_count: u32,
    just_released: bool,
    reapply_asked: bool,
    reapply_pending: bool,
    last_actuator_error: Option<String>,
    last_policy_state: SafetyState,
    state: SafetyState,
    last_reason: String,
    transitions_total: u64,
    actuator_failures_total: u64,
}

impl View for SafetyMachine {
    type V = MachineState;

    closed spec fn view(&self) -> MachineState {
        MachineState {
            limits: self.limits,
            brake_engaged: self.brake_engaged,
            ok_count: self.ok_count,
            just_released: self.just_released,
            reapply_asked: self.reapply_asked,
            reapply_pending: self.reapply_pending,
            error: match self.last_actuator_error {
                Some(text) => Some(text@),
                None => None,
            },
            policy_state: self.last_policy_state,
            state: self.state,
            reason: self.last_reason@,
            transitions: self.transitions_total,
            failures: self.actuator_failures_total,
        }
    }
}

impl Clone for SafetyMachine {
    fn clone(&self) -> (copy: Self)
        ensures
            copy@ == self@,
    {
        proof {
            use_type_invariant(self);
        }
        SafetyMachine {
            limits: self.limits,
            brake_engaged: self.brake_engaged,
            ok_count: self.ok_count,
            just_released: self.just_released,
            reapply_asked: self.reapply_asked,
            reapply_pending: self.reapply_pending,
            last_actuator_error: cloned_text(&self.last_actuator_error),
            last_policy_state: self.last_policy_state,
            state: self.state,
            last_reason: self.last_reason.clone(),
            transitions_total: self.transitions_total,
            actuator_failures_total: self.actuator_failures_total,
        }
    }
}

fn cloned_text(text: &Option<String>) -> (copy: Option<String>)
    ensures
        copy == *text,
{
    match text {
        Some(t) => Some(t.clone()),
        None => None,
    }
}

/// State of a machine before its first frame: fail closed, telemetry missing.
pub open spec fn initial(limits: SafetyLimits) -> MachineState {
    MachineState {
        limits,
        brake_engaged: false,
        ok_count: 0,
        just_released: false,
        reapply_asked: false,
        reapply_pending: false,
        error: None,
        policy_state: SafetyState::TelemetryMissing,
        state: SafetyState::TelemetryMissing,
        reason: "no telemetry evaluated yet"@,
        transitions: 0,
        failures: 0,
    }
}

impl Default for SafetyMachine {
    /// Same as [`Self::new`]: fail closed until the first frame.
    fn default() -> (machine: Self)
        ensures
            machine@ == initial(SafetyLimits::documented()),
    {
        SafetyMachine::new()
    }
}

impl SafetyMachine {
    /// The thresholds of a machine are usable.
    #[verifier::type_invariant]
    closed spec fn sound(self) -> bool {
        self.limits.usable()
    }

    fn with_limits(limits: SafetyLimits) -> (machine: Self)
        requires
            limits.usable(),
        ensures
            machine@ == initial(limits),
    {
        SafetyMachine {
            limits,
            brake_engaged: false,
            ok_count: 0,
            just_released: false,
            reapply_asked: false,
            reapply_pending: false,
            last_actuator_error: None,
            last_policy_state: SafetyState::TelemetryMissing,
            state: SafetyState::TelemetryMissing,
            last_reason: "no telemetry evaluated yet".to_owned(),
            transitions_total: 0,
            actuator_failures_total: 0,
        }
    }

    /// Documented thresholds. Fail closed until the first frame is evaluated.
    pub fn new() -> (machine: Self)
        ensures
            machine@ == initial(SafetyLimits::documented()),
    {
        SafetyMachine::with_limits(SafetyLimits::default_limits())
    }

    /// Thresholds of a resolved policy. Fail closed until the first frame is
    /// evaluated.
    pub fn with_policy(policy: SafetyPolicy) -> (machine: Self)
        ensures
            machine@ == initial(policy.spec_limits()),
    {
        SafetyMachine::with_limits(policy.limits())
    }

    /// Named-state changes observed by this machine.
    pub fn transitions_total(&self) -> (n: u64)
        ensures
            n == self@.transitions,
    {
        self.transitions_total
    }

    /// Actuator apply/release failures recorded by this machine.
    pub fn actuator_failures_total(&self) -> (n: u64)
        ensures
            n == self@.failures,
    {
        self.actuator_failures_total
    }

    /// Seed leftover hardware throttle detected at process start.
    pub fn seed_brake_applied(&mut self)
        ensures
            final(self)@ == old(self)@.seeded(),
            final(self)@.limits.usable(),
    {
        proof {
            use_type_invariant(&*self);
        }
        self.brake_engaged = true;
        self.ok_count = 0;
        self.just_released = false;
        self.reapply_asked = false;
        self.reapply_pending = false;
        self.last_policy_state = SafetyState::Recovering;
        self.state = SafetyState::Recovering;
        self.last_reason = "leftover emergency brake detected at startup".to_owned();
    }

    /// Current snapshot without advancing hysteresis.
    pub fn snapshot(&self) -> (snapshot: SafetySnapshot)
        ensures
            shows(snapshot, self@, self@.desired(), None, false),
            self@.limits.usable(),
    {
        proof {
            use_type_invariant(self);
        }
        self.compose(self.desired_from_last_policy(), None, false)
    }

    /// Evaluate one telemetry frame. Does not publish, sleep, or actuate.
    pub fn evaluate(&mut self, frame: &TelemetryFrame) -> (snapshot: SafetySnapshot)
        ensures
            ({
                let found = classify::assessment(*frame, old(self)@.limits);
                &&& final(self)@ == old(self)@.evaluated(found)
                &&& shows(
                    snapshot,
                    final(self)@,
                    old(self)@.desired_for(found.0),
                    change(old(self)@, final(self)@),
                    false,
                )
            }),
            final(self)@.limits.usable(),
    {
        proof {
            use_type_invariant(&*self);
        }
        let found: FrameAssessment = classify_frame_with(frame, &self.limits);
        let just_released: bool = self.just_released;
        self.just_released = false;
        let unbraked_warning: bool = matches!(found.kind, AssessmentKind::Warn)
            && !self.brake_engaged;
        self.reapply_asked = unbraked_warning && just_released;
        self.reapply_pending = unbraked_warning && (just_released || self.reapply_pending);
        let (policy_state, desired_brake) = self.policy_for(found.kind, just_released);
        if policy_state == SafetyState::HealthyReal && !desired_brake {
            // A healthy frame must not keep a stale failure overlay forever.
            self.last_actuator_error = None;
        }
        self.last_policy_state = policy_state;
        self.last_reason = found.reason;
        self.compose_and_store(desired_brake, false)
    }

    /// Record a completed actuator attempt. Does not re-read telemetry.
    pub fn record_actuator(&mut self, outcome: ActuatorOutcome) -> (snapshot: SafetySnapshot)
        ensures
            final(self)@ == old(self)@.after(outcome),
            shows(
                snapshot,
                final(self)@,
                final(self)@.desired(),
                change(old(self)@, final(self)@),
                outcome is ApplyFailed || outcome is ReleaseFailed,
            ),
            final(self)@.limits.usable(),
    {
        proof {
            use_type_invariant(&*self);
        }
        let mut actuator_failed: bool = false;
        match outcome {
            ActuatorOutcome::Applied => {
                self.brake_engaged = true;
                self.last_actuator_error = None;
                self.just_released = false;
                self.reapply_asked = false;
                self.reapply_pending = false;
            },
            ActuatorOutcome::ApplyFailed(err) => {
                self.brake_engaged = false;
                self.just_released = self.just_released || self.reapply_pending;
                self.last_actuator_error = Some(err);
                self.actuator_failures_total = self.actuator_failures_total.saturating_add(1);
                actuator_failed = true;
            },
            ActuatorOutcome::Released => {
                self.brake_engaged = false;
                self.ok_count = 0;
                self.just_released = true;
                self.reapply_asked = false;
                self.reapply_pending = false;
                self.last_actuator_error = None;
                // Optimistic until the supervisor evaluates post-release
                // telemetry. Warn or critical on that frame re-applies.
                self.last_policy_state = SafetyState::HealthyReal;
                self.last_reason = "brake released".to_owned();
            },
            ActuatorOutcome::ReleaseFailed(err) => {
                self.last_actuator_error = Some(err);
                self.actuator_failures_total = self.actuator_failures_total.saturating_add(1);
                actuator_failed = true;
            },
        }
        let desired: bool = self.desired_from_last_policy();
        self.compose_and_store(desired, actuator_failed)
    }

    fn policy_for(&mut self, kind: AssessmentKind, just_released: bool) -> (policy: (
        SafetyState,
        bool,
    ))
        ensures
            ({
                let before = MachineState { just_released, ..old(self)@ };
                &&& policy.0 == before.policy_state_for(kind)
                &&& policy.1 == before.desired_for(kind)
                &&& final(self)@ == (MachineState {
                    ok_count: before.streak_after(kind),
                    ..old(self)@
                })
            }),
    {
        proof {
            use_type_invariant(&*self);
        }
        match kind {
            AssessmentKind::Simulated => {
                self.ok_count = 0;
                (SafetyState::SimulatedSoftwareOnly, self.brake_engaged)
            },
            AssessmentKind::Missing => self.fail_closed(SafetyState::TelemetryMissing),
            AssessmentKind::Invalid => self.fail_closed(SafetyState::TelemetryInvalid),
            AssessmentKind::Stale => self.fail_closed(SafetyState::TelemetryStale),
            AssessmentKind::Critical => self.fail_closed(SafetyState::CriticalBraked),
            AssessmentKind::Warn => {
                self.ok_count = 0;
                (SafetyState::Warning, self.brake_engaged || just_released)
            },
            AssessmentKind::Okay => if self.brake_engaged {
                self.ok_count = self.ok_count.saturating_add(1);
                (SafetyState::Recovering, self.ok_count < self.limits.release_ok_streak)
            } else {
                self.ok_count = 0;
                (SafetyState::HealthyReal, false)
            },
        }
    }

    fn fail_closed(&mut self, state: SafetyState) -> (policy: (SafetyState, bool))
        ensures
            policy == (state, true),
            final(self)@ == (MachineState { ok_count: 0, ..old(self)@ }),
    {
        proof {
            use_type_invariant(&*self);
        }
        self.ok_count = 0;
        (state, true)
    }

    fn desired_from_last_policy(&self) -> (desired: bool)
        ensures
            desired == self@.desired(),
    {
        match self.last_policy_state {
            SafetyState::HealthyReal => false,
            SafetyState::SimulatedSoftwareOnly => self.brake_engaged,
            SafetyState::Warning => self.brake_engaged || self.just_released || self.reapply_asked,
            SafetyState::Recovering => self.ok_count < self.limits.release_ok_streak,
            SafetyState::CriticalBraked
            | SafetyState::TelemetryMissing
            | SafetyState::TelemetryStale
            | SafetyState::TelemetryInvalid
            | SafetyState::ActuatorFailure => true,
        }
    }

    fn compose_and_store(&mut self, desired_brake: bool, actuator_failed: bool) -> (snapshot:
        SafetySnapshot)
        ensures
            final(self)@ == old(self)@.settled(),
            shows(
                snapshot,
                final(self)@,
                desired_brake,
                change(old(self)@, final(self)@),
                actuator_failed,
            ),
    {
        proof {
            use_type_invariant(&*self);
        }
        let prev: SafetyState = self.state;
        let reported: SafetyState = if self.last_actuator_error.is_some() {
            SafetyState::ActuatorFailure
        } else {
            self.last_policy_state
        };
        let transition: Option<(SafetyState, SafetyState)> = if prev != reported {
            self.transitions_total = self.transitions_total.saturating_add(1);
            Some((prev, reported))
        } else {
            None
        };
        self.state = reported;
        self.compose(desired_brake, transition, actuator_failed)
    }

    fn compose(
        &self,
        desired_brake: bool,
        transition: Option<(SafetyState, SafetyState)>,
        actuator_failed: bool,
    ) -> (snapshot: SafetySnapshot)
        ensures
            shows(snapshot, self@, desired_brake, transition, actuator_failed),
    {
        SafetySnapshot {
            state: self.state,
            policy_state: self.last_policy_state,
            brake_engaged: self.brake_engaged,
            desired_brake,
            intent: SafetySnapshot::intent_from(desired_brake, self.brake_engaged),
            hysteresis_ok_count: self.ok_count,
            last_reason: self.last_reason.clone(),
            last_actuator_error: cloned_text(&self.last_actuator_error),
            transition,
            actuator_failed,
        }
    }
}

} // verus!
