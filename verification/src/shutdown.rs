//! Fail-closed orderly shutdown and restart-recovery policy.
//!
//! A termination signal must not restore the device default power limit just
//! because the process is exiting. A persistent brake is released only through
//! the same hysteresis used during normal operation.

use crate::safety::{SafetySnapshot, SafetyState};
use vstd::prelude::*;

verus! {

/// Longest wait, in seconds, for an in-flight brake command.
pub const SHUTDOWN_ACTUATOR_TIMEOUT_SECS: u64 = 8;

/// Longest wait, in seconds, for the metrics collector before it is aborted.
pub const SHUTDOWN_METRICS_TIMEOUT_SECS: u64 = 2;

/// Why the supervisor is leaving the run loop.
#[derive(Debug, Clone, Copy, PartialEq, Eq, Structural)]
pub enum ShutdownReason {
    /// Interrupt.
    Sigint,
    /// Termination request.
    Sigterm,
}

impl ShutdownReason {
    /// Metric label.
    pub open spec fn label(self) -> Seq<char> {
        match self {
            ShutdownReason::Sigint => "sigint"@,
            ShutdownReason::Sigterm => "sigterm"@,
        }
    }

    /// Metric label.
    pub fn as_str(self) -> (label: &'static str)
        ensures
            label@ == self.label(),
    {
        match self {
            ShutdownReason::Sigint => "sigint",
            ShutdownReason::Sigterm => "sigterm",
        }
    }
}

/// In-flight privileged actuation, if any, when the signal arrives.
#[derive(Debug, Clone, Copy, PartialEq, Eq, Structural)]
pub enum InFlightActuation {
    /// No command is running.
    Nothing,
    /// An apply is running.
    Apply,
    /// A release is running.
    Release,
}

impl InFlightActuation {
    /// Which command counts as in flight; an apply wins over a release.
    pub fn from_tasks(apply: bool, release: bool) -> (in_flight: Self)
        ensures
            in_flight == (if apply {
                InFlightActuation::Apply
            } else if release {
                InFlightActuation::Release
            } else {
                InFlightActuation::Nothing
            }),
    {
        match (apply, release) {
            (true, _) => InFlightActuation::Apply,
            (false, true) => InFlightActuation::Release,
            (false, false) => InFlightActuation::Nothing,
        }
    }

    /// Log label.
    pub open spec fn label(self) -> Seq<char> {
        match self {
            InFlightActuation::Nothing => "none"@,
            InFlightActuation::Apply => "apply"@,
            InFlightActuation::Release => "release"@,
        }
    }

    /// Log label.
    pub fn as_str(self) -> (label: &'static str)
        ensures
            label@ == self.label(),
    {
        match self {
            InFlightActuation::Nothing => "none",
            InFlightActuation::Apply => "apply",
            InFlightActuation::Release => "release",
        }
    }
}

/// What to do with already-dispatched actuation. Never "dispatch a new one".
#[derive(Debug, Clone, Copy, PartialEq, Eq, Structural)]
pub enum ShutdownActuation {
    /// No in-flight work. Do not start apply or release on the way out.
    Idle,
    /// Wait (bounded) for an in-flight apply.
    AwaitApply,
    /// Wait (bounded) for a release that was already authorized in the loop.
    AwaitAuthorizedRelease,
}

impl ShutdownActuation {
    /// Log label.
    pub open spec fn label(self) -> Seq<char> {
        match self {
            ShutdownActuation::Idle => "idle"@,
            ShutdownActuation::AwaitApply => "await_apply"@,
            ShutdownActuation::AwaitAuthorizedRelease => "await_authorized_release"@,
        }
    }

    /// Log label.
    pub fn as_str(self) -> (label: &'static str)
        ensures
            label@ == self.label(),
    {
        match self {
            ShutdownActuation::Idle => "idle",
            ShutdownActuation::AwaitApply => "await_apply",
            ShutdownActuation::AwaitAuthorizedRelease => "await_authorized_release",
        }
    }
}

/// Observable shutdown decision. There is no "restore default limit" action.
#[derive(Debug, Clone, Copy, PartialEq, Eq)]
pub struct ShutdownPlan {
    /// Why the supervisor leaves.
    pub reason: ShutdownReason,
    /// What to wait for.
    pub actuation: ShutdownActuation,
    /// Whether the brake stays on.
    pub leave_brake_engaged: bool,
    /// Whether a brake is on, wanted or on its way.
    pub unresolved_brake: bool,
    /// Whether the last brake command failed.
    pub unresolved_actuator: bool,
    /// The decision in words.
    pub summary: &'static str,
}

/// The decision in words.
pub open spec fn summary_text(snap: SafetySnapshot, in_flight: InFlightActuation) -> Seq<char> {
    if in_flight == InFlightActuation::Apply {
        "await in-flight apply; do not restore default power limit"@
    } else if in_flight == InFlightActuation::Release {
        "await already-authorized in-flight release; no new actuation"@
    } else if snap.last_actuator_error is Some || snap.actuator_failed {
        "actuator failed; do not retry on the way out; leave unresolved for restart"@
    } else {
        match snap.state {
            SafetyState::HealthyReal => if snap.brake_engaged {
                "brake still claimed; leave engaged; no restore on exit"@
            } else {
                "healthy; leave hardware unchanged; release process lock"@
            },
            SafetyState::Warning => if snap.brake_engaged {
                "warned with brake held; leave brake engaged"@
            } else {
                "warned, brake not engaged; do not apply or restore on exit"@
            },
            SafetyState::CriticalBraked => if snap.brake_engaged {
                "critical, brake active; leave brake engaged"@
            } else {
                "critical, brake requested but not yet applied; do not restore; next start will apply"@
            },
            SafetyState::Recovering =>
                "recovering; abandon undispatched release; leave brake engaged for hysteresis on restart"@,
            SafetyState::TelemetryMissing
            | SafetyState::TelemetryStale
            | SafetyState::TelemetryInvalid =>
                "telemetry unverified; leave hardware unchanged (fail closed)"@,
            SafetyState::SimulatedSoftwareOnly => if snap.brake_engaged {
                "simulated telemetry cannot authorize release of a real brake; leave engaged"@
            } else {
                "software-only; leave hardware unchanged"@
            },
            SafetyState::ActuatorFailure =>
                "actuator failed; do not retry on the way out; leave unresolved for restart"@,
        }
    }
}

/// Whether `plan` is the shutdown plan for a snapshot and in-flight command.
pub open spec fn plans(
    plan: ShutdownPlan,
    reason: ShutdownReason,
    snap: SafetySnapshot,
    in_flight: InFlightActuation,
) -> bool {
    &&& plan.reason == reason
    &&& plan.actuation == (match in_flight {
        InFlightActuation::Apply => ShutdownActuation::AwaitApply,
        InFlightActuation::Release => ShutdownActuation::AwaitAuthorizedRelease,
        InFlightActuation::Nothing => ShutdownActuation::Idle,
    })
    &&& plan.leave_brake_engaged == (snap.brake_engaged || in_flight == InFlightActuation::Apply)
    &&& plan.unresolved_brake == (snap.brake_engaged || snap.desired_brake || in_flight
        == InFlightActuation::Apply)
    &&& plan.unresolved_actuator == (snap.last_actuator_error is Some || snap.actuator_failed)
    &&& plan.summary@ == summary_text(snap, in_flight)
}

/// Decide shutdown behavior from the current snapshot and in-flight commands.
///
/// Never dispatches a new apply or release. An undispatched release intent is
/// abandoned: the brake stays on and restart runs the hysteresis again.
pub fn plan_shutdown(
    reason: ShutdownReason,
    snap: &SafetySnapshot,
    in_flight: InFlightActuation,
) -> (plan: ShutdownPlan)
    ensures
        plans(plan, reason, *snap, in_flight),
{
    let applying: bool = matches!(in_flight, InFlightActuation::Apply);
    let actuation: ShutdownActuation = match in_flight {
        InFlightActuation::Apply => ShutdownActuation::AwaitApply,
        InFlightActuation::Release => ShutdownActuation::AwaitAuthorizedRelease,
        InFlightActuation::Nothing => ShutdownActuation::Idle,
    };
    ShutdownPlan {
        reason,
        actuation,
        leave_brake_engaged: snap.brake_engaged || applying,
        unresolved_brake: snap.brake_engaged || snap.desired_brake || applying,
        unresolved_actuator: snap.last_actuator_error.is_some() || snap.actuator_failed,
        summary: shutdown_summary(snap, in_flight),
    }
}

fn shutdown_summary(snap: &SafetySnapshot, in_flight: InFlightActuation) -> (summary: &'static str)
    ensures
        summary@ == summary_text(*snap, in_flight),
{
    match in_flight {
        InFlightActuation::Apply => {
            return "await in-flight apply; do not restore default power limit";
        },
        InFlightActuation::Release => {
            return "await already-authorized in-flight release; no new actuation";
        },
        InFlightActuation::Nothing => {},
    }
    if snap.last_actuator_error.is_some() || snap.actuator_failed {
        return "actuator failed; do not retry on the way out; leave unresolved for restart";
    }
    match snap.state {
        SafetyState::HealthyReal => if snap.brake_engaged {
            "brake still claimed; leave engaged; no restore on exit"
        } else {
            "healthy; leave hardware unchanged; release process lock"
        },
        SafetyState::Warning => if snap.brake_engaged {
            "warned with brake held; leave brake engaged"
        } else {
            "warned, brake not engaged; do not apply or restore on exit"
        },
        SafetyState::CriticalBraked => if snap.brake_engaged {
            "critical, brake active; leave brake engaged"
        } else {
            "critical, brake requested but not yet applied; do not restore; next start will apply"
        },
        SafetyState::Recovering =>
            "recovering; abandon undispatched release; leave brake engaged for hysteresis on restart",
        SafetyState::TelemetryMissing
        | SafetyState::TelemetryStale
        | SafetyState::TelemetryInvalid =>
            "telemetry unverified; leave hardware unchanged (fail closed)",
        SafetyState::SimulatedSoftwareOnly => if snap.brake_engaged {
            "simulated telemetry cannot authorize release of a real brake; leave engaged"
        } else {
            "software-only; leave hardware unchanged"
        },
        SafetyState::ActuatorFailure =>
            "actuator failed; do not retry on the way out; leave unresolved for restart",
    }
}

/// How a brake command awaited at shutdown ended.
#[derive(Debug, PartialEq, Eq)]
pub enum TaskEnd {
    /// It ran to completion with this result.
    Finished(Result<(), String>),
    /// It panicked or was cancelled.
    Panicked(String),
    /// It did not end in time.
    TimedOut,
}

/// Result of waiting on an in-flight apply/release during shutdown.
#[derive(Debug, PartialEq, Eq)]
pub enum InFlightJoin {
    /// The command succeeded.
    Succeeded,
    /// The command failed.
    Failed(String),
    /// The task panicked.
    Panicked(String),
    /// The task did not end in time.
    TimedOut,
}

/// Result of an awaited command, and whether its task is to be aborted: only
/// one that did not end in time is.
pub fn conclude_join(end: TaskEnd) -> (conclusion: (InFlightJoin, bool))
    ensures
        conclusion.1 == (end is TimedOut),
        match end {
            TaskEnd::Finished(Ok(())) => conclusion.0 == InFlightJoin::Succeeded,
            TaskEnd::Finished(Err(e)) => conclusion.0 == InFlightJoin::Failed(e),
            TaskEnd::Panicked(e) => conclusion.0 == InFlightJoin::Panicked(e),
            TaskEnd::TimedOut => conclusion.0 == InFlightJoin::TimedOut,
        },
{
    match end {
        TaskEnd::Finished(Ok(())) => (InFlightJoin::Succeeded, false),
        TaskEnd::Finished(Err(e)) => (InFlightJoin::Failed(e), false),
        TaskEnd::Panicked(e) => (InFlightJoin::Panicked(e), false),
        TaskEnd::TimedOut => (InFlightJoin::TimedOut, true),
    }
}

/// Shutdown waits for a release only if one was already running, and an engaged
/// brake is never planned to be lifted by anything else.
pub proof fn lemma_shutdown_never_releases(
    plan: ShutdownPlan,
    reason: ShutdownReason,
    snap: SafetySnapshot,
    in_flight: InFlightActuation,
)
    requires
        plans(plan, reason, snap, in_flight),
    ensures
        plan.actuation == ShutdownActuation::AwaitAuthorizedRelease <==> in_flight
            == InFlightActuation::Release,
        plan.actuation == ShutdownActuation::AwaitApply <==> in_flight == InFlightActuation::Apply,
        snap.brake_engaged ==> plan.leave_brake_engaged && plan.unresolved_brake,
        snap.desired_brake ==> plan.unresolved_brake,
{
}

/// What a shutdown plan says, flag by flag: the brake stays on exactly if it is
/// on or an apply is under way, it is unresolved exactly if it is on, wanted or
/// under way, and the actuator is unresolved exactly if its last command failed.
pub proof fn lemma_shutdown_flags(
    plan: ShutdownPlan,
    reason: ShutdownReason,
    snap: SafetySnapshot,
    in_flight: InFlightActuation,
)
    requires
        call_ensures(plan_shutdown, (reason, &snap, in_flight), plan),
    ensures
        plan.reason == reason,
        plan.leave_brake_engaged <==> snap.brake_engaged || in_flight == InFlightActuation::Apply,
        plan.unresolved_brake <==> snap.brake_engaged || snap.desired_brake || in_flight
            == InFlightActuation::Apply,
        plan.unresolved_actuator <==> snap.last_actuator_error is Some || snap.actuator_failed,
        plan.actuation == ShutdownActuation::Idle <==> in_flight == InFlightActuation::Nothing,
        plan.actuation == ShutdownActuation::AwaitApply <==> in_flight == InFlightActuation::Apply,
        plan.actuation == ShutdownActuation::AwaitAuthorizedRelease <==> in_flight
            == InFlightActuation::Release,
{
}

/// Which command is in flight: an apply whenever one runs, a release only where
/// no apply runs, and nothing only where neither does.
pub proof fn lemma_what_is_in_flight(apply: bool, release: bool, in_flight: InFlightActuation)
    requires
        call_ensures(InFlightActuation::from_tasks, (apply, release), in_flight),
    ensures
        in_flight == InFlightActuation::Apply <==> apply,
        in_flight == InFlightActuation::Release <==> release && !apply,
        in_flight == InFlightActuation::Nothing <==> !apply && !release,
{
}

/// Only a command that did not end in time is aborted, and only one that ran to
/// completion without an error succeeded.
pub proof fn lemma_join_conclusions(end: TaskEnd, conclusion: (InFlightJoin, bool))
    requires
        call_ensures(conclude_join, (end,), conclusion),
    ensures
        conclusion.1 <==> end is TimedOut,
        conclusion.0 is TimedOut <==> end is TimedOut,
        conclusion.0 is Panicked <==> end is Panicked,
        conclusion.0 is Succeeded <==> end is Finished && end->Finished_0 is Ok,
        conclusion.0 is Failed <==> end is Finished && end->Finished_0 is Err,
{
}

/// What a shutdown plan says in words. A running command comes first, then a
/// failed one, and otherwise the state with the brake.
pub proof fn lemma_shutdown_words(
    plan: ShutdownPlan,
    reason: ShutdownReason,
    snap: SafetySnapshot,
    in_flight: InFlightActuation,
)
    requires
        call_ensures(plan_shutdown, (reason, &snap, in_flight), plan),
    ensures
        ({
            let words = plan.summary@;
            let idle = in_flight == InFlightActuation::Nothing;
            let failed = snap.last_actuator_error is Some || snap.actuator_failed || snap.state
                == SafetyState::ActuatorFailure;
            let held = idle && !failed && snap.brake_engaged;
            let free = idle && !failed && !snap.brake_engaged;
            &&& in_flight == InFlightActuation::Apply ==> words
                == "await in-flight apply; do not restore default power limit"@
            &&& in_flight == InFlightActuation::Release ==> words
                == "await already-authorized in-flight release; no new actuation"@
            &&& idle && failed ==> words
                == "actuator failed; do not retry on the way out; leave unresolved for restart"@
            &&& held && snap.state == SafetyState::HealthyReal ==> words
                == "brake still claimed; leave engaged; no restore on exit"@
            &&& free && snap.state == SafetyState::HealthyReal ==> words
                == "healthy; leave hardware unchanged; release process lock"@
            &&& held && snap.state == SafetyState::Warning ==> words
                == "warned with brake held; leave brake engaged"@
            &&& free && snap.state == SafetyState::Warning ==> words
                == "warned, brake not engaged; do not apply or restore on exit"@
            &&& held && snap.state == SafetyState::CriticalBraked ==> words
                == "critical, brake active; leave brake engaged"@
            &&& free && snap.state == SafetyState::CriticalBraked ==> words
                == "critical, brake requested but not yet applied; do not restore; next start will apply"@
            &&& idle && !failed && snap.state == SafetyState::Recovering ==> words
                == "recovering; abandon undispatched release; leave brake engaged for hysteresis on restart"@
            &&& idle && !failed && (snap.state == SafetyState::TelemetryMissing || snap.state
                == SafetyState::TelemetryStale || snap.state == SafetyState::TelemetryInvalid)
                ==> words == "telemetry unverified; leave hardware unchanged (fail closed)"@
            &&& held && snap.state == SafetyState::SimulatedSoftwareOnly ==> words
                == "simulated telemetry cannot authorize release of a real brake; leave engaged"@
            &&& free && snap.state == SafetyState::SimulatedSoftwareOnly ==> words
                == "software-only; leave hardware unchanged"@
        }),
{
}

/// Labels of reasons, running commands and plans.
pub proof fn lemma_shutdown_labels(
    reason: ShutdownReason,
    in_flight: InFlightActuation,
    actuation: ShutdownActuation,
    why: &'static str,
    what: &'static str,
    plan: &'static str,
)
    requires
        call_ensures(ShutdownReason::as_str, (reason,), why),
        call_ensures(InFlightActuation::as_str, (in_flight,), what),
        call_ensures(ShutdownActuation::as_str, (actuation,), plan),
    ensures
        reason == ShutdownReason::Sigint ==> why@ == "sigint"@,
        reason == ShutdownReason::Sigterm ==> why@ == "sigterm"@,
        in_flight == InFlightActuation::Nothing ==> what@ == "none"@,
        in_flight == InFlightActuation::Apply ==> what@ == "apply"@,
        in_flight == InFlightActuation::Release ==> what@ == "release"@,
        actuation == ShutdownActuation::Idle ==> plan@ == "idle"@,
        actuation == ShutdownActuation::AwaitApply ==> plan@ == "await_apply"@,
        actuation == ShutdownActuation::AwaitAuthorizedRelease ==> plan@
            == "await_authorized_release"@,
{
}

} // verus!
