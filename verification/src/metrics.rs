//! Metric values of the supervisor, as plain updates for an exporter.

use crate::safety::{SafetySnapshot, SafetyState};
use crate::shutdown::ShutdownPlan;
use crate::telemetry::UnixMillis;
use vstd::prelude::*;

verus! {

/// Shared telemetry and safety state populated by the main loop.
#[derive(Debug, Clone, Copy, PartialEq, Eq)]
pub struct RelayMetrics {
    /// Receive time of the last assessed frame, if any.
    pub telemetry_acquired_at: Option<UnixMillis>,
    /// Receive time of that frame on the monotonic clock, in nanoseconds from
    /// a fixed origin of the process.
    pub telemetry_received_instant: Option<u128>,
    /// Reported safety state (actuator-failure overlay included).
    pub safety_state: SafetyState,
    /// Policy classification before the actuator-failure overlay.
    pub policy_state: SafetyState,
    /// Last successful brake apply still claimed by the machine.
    pub brake_engaged: bool,
    /// Consecutive real Ok evaluations while the brake is engaged.
    pub hysteresis_ok_count: u32,
    /// Label of the shutdown reason, once shutting down.
    pub shutdown_reason: Option<&'static str>,
    /// Whether a brake was unresolved at shutdown.
    pub shutdown_unresolved_brake: bool,
    /// Whether the actuator was unresolved at shutdown.
    pub shutdown_unresolved_actuator: bool,
}

/// Metrics before the first frame: fail closed.
pub open spec fn initial_metrics() -> RelayMetrics {
    RelayMetrics {
        telemetry_acquired_at: None,
        telemetry_received_instant: None,
        safety_state: SafetyState::TelemetryMissing,
        policy_state: SafetyState::TelemetryMissing,
        brake_engaged: false,
        hysteresis_ok_count: 0,
        shutdown_reason: None,
        shutdown_unresolved_brake: false,
        shutdown_unresolved_actuator: false,
    }
}

impl Default for RelayMetrics {
    fn default() -> (metrics: Self)
        ensures
            metrics == initial_metrics(),
    {
        RelayMetrics {
            telemetry_acquired_at: None,
            telemetry_received_instant: None,
            safety_state: SafetyState::TelemetryMissing,
            policy_state: SafetyState::TelemetryMissing,
            brake_engaged: false,
            hysteresis_ok_count: 0,
            shutdown_reason: None,
            shutdown_unresolved_brake: false,
            shutdown_unresolved_actuator: false,
        }
    }
}

/// What an exporter should do to one series.
#[derive(Debug, Clone, Copy, PartialEq, Eq)]
pub enum MetricUpdate {
    /// Set a gauge.
    Gauge {
        /// Series name.
        name: &'static str,
        /// `state` label, if the series has one.
        state: Option<&'static str>,
        /// New value.
        value: u32,
    },
    /// Add one to a counter.
    Counter {
        /// Series name.
        name: &'static str,
        /// `reason` label, if the series has one.
        reason: Option<&'static str>,
    },
}

/// An update by its texts.
pub enum Update {
    /// Set a gauge.
    Gauge(Seq<char>, Option<Seq<char>>, int),
    /// Add one to a counter.
    Counter(Seq<char>, Option<Seq<char>>),
}

impl View for MetricUpdate {
    type V = Update;

    open spec fn view(&self) -> Update {
        match *self {
            MetricUpdate::Gauge { name, state, value } => Update::Gauge(
                name@,
                match state {
                    Some(s) => Some(s@),
                    None => None,
                },
                value as int,
            ),
            MetricUpdate::Counter { name, reason } => Update::Counter(
                name@,
                match reason {
                    Some(r) => Some(r@),
                    None => None,
                },
            ),
        }
    }
}

/// Updates by their texts.
pub open spec fn shown(updates: Seq<MetricUpdate>) -> Seq<Update> {
    Seq::new(updates.len(), |i: int| updates[i]@)
}

/// One or zero.
pub open spec fn flag(on: bool) -> int {
    if on {
        1
    } else {
        0
    }
}

/// One-hot gauges of the first `n` states.
pub open spec fn one_hot(state: SafetyState, policy_state: SafetyState, n: int) -> Seq<Update>
    decreases n,
{
    if n <= 0 {
        Seq::empty()
    } else {
        let s = SafetyState::ALL@[n - 1];
        one_hot(state, policy_state, n - 1).push(
            Update::Gauge("safety_state"@, Some(s.label()), flag(s == state)),
        ).push(Update::Gauge("safety_policy_state"@, Some(s.label()), flag(s == policy_state)))
    }
}

/// Safety gauges: one-hot per state, then ids, brake and streak.
pub open spec fn safety_gauges(
    state: SafetyState,
    policy_state: SafetyState,
    brake_engaged: bool,
    hysteresis_ok_count: u32,
) -> Seq<Update> {
    one_hot(state, policy_state, 9).push(
        Update::Gauge("safety_state_id"@, None, state.id()),
    ).push(Update::Gauge("safety_policy_state_id"@, None, policy_state.id())).push(
        Update::Gauge("safety_brake_engaged"@, None, flag(brake_engaged)),
    ).push(Update::Gauge("safety_hysteresis_ok_count"@, None, hysteresis_ok_count as int))
}

fn bit(on: bool) -> (value: u32)
    ensures
        value == flag(on),
{
    if on {
        1
    } else {
        0
    }
}

fn push_update(updates: &mut Vec<MetricUpdate>, update: MetricUpdate)
    ensures
        shown(final(updates)@) == shown(old(updates)@).push(update@),
{
    updates.push(update);
    proof {
        assert(shown(updates@) =~= shown(old(updates)@).push(update@));
    }
}

/// One-hot and numeric safety gauges.
pub fn export_safety_gauges(
    state: SafetyState,
    policy_state: SafetyState,
    brake_engaged: bool,
    hysteresis_ok_count: u32,
) -> (updates: Vec<MetricUpdate>)
    ensures
        shown(updates@) == safety_gauges(state, policy_state, brake_engaged, hysteresis_ok_count),
{
    let all: [SafetyState; 9] = SafetyState::ALL;
    let mut updates: Vec<MetricUpdate> = Vec::new();
    let mut i: usize = 0;
    proof {
        assert(shown(updates@) =~= one_hot(state, policy_state, 0));
    }
    while i < 9
        invariant
            i <= 9,
            all@ == SafetyState::ALL@,
            shown(updates@) == one_hot(state, policy_state, i as int),
        decreases 9 - i,
    {
        let s: SafetyState = all[i];
        push_update(
            &mut updates,
            MetricUpdate::Gauge {
                name: "safety_state",
                state: Some(s.as_str()),
                value: bit(s == state),
            },
        );
        push_update(
            &mut updates,
            MetricUpdate::Gauge {
                name: "safety_policy_state",
                state: Some(s.as_str()),
                value: bit(s == policy_state),
            },
        );
        i = i + 1;
    }
    push_update(
        &mut updates,
        MetricUpdate::Gauge { name: "safety_state_id", state: None, value: state.as_id() as u32 },
    );
    push_update(
        &mut updates,
        MetricUpdate::Gauge {
            name: "safety_policy_state_id",
            state: None,
            value: policy_state.as_id() as u32,
        },
    );
    push_update(
        &mut updates,
        MetricUpdate::Gauge {
            name: "safety_brake_engaged",
            state: None,
            value: bit(brake_engaged),
        },
    );
    push_update(
        &mut updates,
        MetricUpdate::Gauge {
            name: "safety_hysteresis_ok_count",
            state: None,
            value: hysteresis_ok_count,
        },
    );
    updates
}

/// Gauges of the metrics as they stand, for a periodic refresh.
pub fn refresh(metrics: &RelayMetrics) -> (updates: Vec<MetricUpdate>)
    ensures
        shown(updates@) == safety_gauges(
            metrics.safety_state,
            metrics.policy_state,
            metrics.brake_engaged,
            metrics.hysteresis_ok_count,
        ),
{
    export_safety_gauges(
        metrics.safety_state,
        metrics.policy_state,
        metrics.brake_engaged,
        metrics.hysteresis_ok_count,
    )
}

/// Updates for a safety snapshot: the gauges, and the counters of what happened.
pub open spec fn snapshot_updates(snap: SafetySnapshot) -> Seq<Update> {
    let gauges = safety_gauges(
        snap.state,
        snap.policy_state,
        snap.brake_engaged,
        snap.hysteresis_ok_count,
    );
    let changed = if snap.transition is Some {
        gauges.push(Update::Counter("safety_transitions_total"@, None))
    } else {
        gauges
    };
    if snap.actuator_failed {
        changed.push(Update::Counter("safety_actuator_failures_total"@, None))
    } else {
        changed
    }
}

/// Copy a safety snapshot into shared metrics; returns the series updates.
pub fn record_safety_snapshot(metrics: &mut RelayMetrics, snap: &SafetySnapshot) -> (updates: Vec<
    MetricUpdate,
>)
    ensures
        *final(metrics) == (RelayMetrics {
            safety_state: snap.state,
            policy_state: snap.policy_state,
            brake_engaged: snap.brake_engaged,
            hysteresis_ok_count: snap.hysteresis_ok_count,
            ..*old(metrics)
        }),
        shown(updates@) == snapshot_updates(*snap),
{
    metrics.safety_state = snap.state;
    metrics.policy_state = snap.policy_state;
    metrics.brake_engaged = snap.brake_engaged;
    metrics.hysteresis_ok_count = snap.hysteresis_ok_count;
    let mut updates: Vec<MetricUpdate> = export_safety_gauges(
        snap.state,
        snap.policy_state,
        snap.brake_engaged,
        snap.hysteresis_ok_count,
    );
    if snap.transition.is_some() {
        push_update(
            &mut updates,
            MetricUpdate::Counter { name: "safety_transitions_total", reason: None },
        );
    }
    if snap.actuator_failed {
        push_update(
            &mut updates,
            MetricUpdate::Counter { name: "safety_actuator_failures_total", reason: None },
        );
    }
    updates
}

/// Updates for a shutdown plan.
pub open spec fn shutdown_updates(plan: ShutdownPlan) -> Seq<Update> {
    seq![
        Update::Counter("shutdown_total"@, Some(plan.reason.label())),
        Update::Gauge("shutdown_unresolved_brake"@, None, flag(plan.unresolved_brake)),
        Update::Gauge("shutdown_unresolved_actuator"@, None, flag(plan.unresolved_actuator)),
        Update::Gauge("shutdown_brake_left_engaged"@, None, flag(plan.leave_brake_engaged)),
    ]
}

/// Record shutdown reason and unresolved brake/actuator; returns the series
/// updates.
pub fn record_shutdown(metrics: &mut RelayMetrics, plan: &ShutdownPlan) -> (updates: Vec<
    MetricUpdate,
>)
    ensures
        final(metrics).shutdown_reason is Some,
        final(metrics).shutdown_reason->0@ == plan.reason.label(),
        *final(metrics) == (RelayMetrics {
            shutdown_reason: final(metrics).shutdown_reason,
            shutdown_unresolved_brake: plan.unresolved_brake,
            shutdown_unresolved_actuator: plan.unresolved_actuator,
            ..*old(metrics)
        }),
        shown(updates@) == shutdown_updates(*plan),
{
    metrics.shutdown_reason = Some(plan.reason.as_str());
    metrics.shutdown_unresolved_brake = plan.unresolved_brake;
    metrics.shutdown_unresolved_actuator = plan.unresolved_actuator;
    let mut updates: Vec<MetricUpdate> = Vec::new();
    updates.push(
        MetricUpdate::Counter { name: "shutdown_total", reason: Some(plan.reason.as_str()) },
    );
    updates.push(
        MetricUpdate::Gauge {
            name: "shutdown_unresolved_brake",
            state: None,
            value: bit(plan.unresolved_brake),
        },
    );
    updates.push(
        MetricUpdate::Gauge {
            name: "shutdown_unresolved_actuator",
            state: None,
            value: bit(plan.unresolved_actuator),
        },
    );
    updates.push(
        MetricUpdate::Gauge {
            name: "shutdown_brake_left_engaged",
            state: None,
            value: bit(plan.leave_brake_engaged),
        },
    );
    proof {
        assert(shown(updates@) =~= shutdown_updates(*plan));
    }
    updates
}

/// The exported gauges: for each state, in the order of the state ids, a reported
/// and a policy gauge that are one exactly for the state that holds, then the
/// two ids, the brake and the streak.
pub proof fn lemma_one_state_is_hot(
    state: SafetyState,
    policy_state: SafetyState,
    brake_engaged: bool,
    hysteresis_ok_count: u32,
    updates: Vec<MetricUpdate>,
    s: SafetyState,
)
    requires
        call_ensures(
            export_safety_gauges,
            (state, policy_state, brake_engaged, hysteresis_ok_count),
            updates,
        ),
    ensures
        ({
            let all = shown(updates@);
            &&& all.len() == 22
            &&& all[2 * s.id()] == Update::Gauge(
                "safety_state"@,
                Some(s.label()),
                if s == state {
                    1
                } else {
                    0
                },
            )
            &&& all[2 * s.id() + 1] == Update::Gauge(
                "safety_policy_state"@,
                Some(s.label()),
                if s == policy_state {
                    1
                } else {
                    0
                },
            )
            &&& all[18] == Update::Gauge("safety_state_id"@, None, state.id())
            &&& all[19] == Update::Gauge("safety_policy_state_id"@, None, policy_state.id())
            &&& all[20] == Update::Gauge(
                "safety_brake_engaged"@,
                None,
                if brake_engaged {
                    1
                } else {
                    0
                },
            )
            &&& all[21] == Update::Gauge(
                "safety_hysteresis_ok_count"@,
                None,
                hysteresis_ok_count as int,
            )
        }),
{
    let hot = one_hot(state, policy_state, 9);
    assert(SafetyState::ALL@[s.id()] == s);
    lemma_hot_pair(state, policy_state, 9, s.id());
    let all = safety_gauges(state, policy_state, brake_engaged, hysteresis_ok_count);
    assert(all[2 * s.id()] == hot[2 * s.id()]);
    assert(all[2 * s.id() + 1] == hot[2 * s.id() + 1]);
}

/// The two gauges of the state at position `k`.
proof fn lemma_hot_pair(state: SafetyState, policy_state: SafetyState, n: int, k: int)
    requires
        0 <= k < n,
    ensures
        ({
            let s = SafetyState::ALL@[k];
            let hot = one_hot(state, policy_state, n);
            &&& hot.len() == 2 * n
            &&& hot[2 * k] == Update::Gauge("safety_state"@, Some(s.label()), flag(s == state))
            &&& hot[2 * k + 1] == Update::Gauge(
                "safety_policy_state"@,
                Some(s.label()),
                flag(s == policy_state),
            )
        }),
    decreases n,
{
    if n == 1 {
        assert(one_hot(state, policy_state, 0).len() == 0);
    } else {
        lemma_hot_pair(
            state,
            policy_state,
            n - 1,
            if k == n - 1 {
                0
            } else {
                k
            },
        );
    }
}

/// Counters go up exactly with what happened: one for a transition, one for a
/// failed command, behind the gauges.
pub proof fn lemma_snapshot_counters(snap: SafetySnapshot)
    ensures
        ({
            let all = snapshot_updates(snap);
            let gauges = safety_gauges(
                snap.state,
                snap.policy_state,
                snap.brake_engaged,
                snap.hysteresis_ok_count,
            );
            &&& all.take(gauges.len() as int) == gauges
            &&& all.len() == gauges.len() + (if snap.transition is Some {
                1int
            } else {
                0
            }) + (if snap.actuator_failed {
                1int
            } else {
                0
            })
            &&& snap.transition is Some ==> all[gauges.len() as int] == Update::Counter(
                "safety_transitions_total"@,
                None,
            )
            &&& snap.actuator_failed ==> all.last() == Update::Counter(
                "safety_actuator_failures_total"@,
                None,
            )
        }),
{
    let gauges = safety_gauges(
        snap.state,
        snap.policy_state,
        snap.brake_engaged,
        snap.hysteresis_ok_count,
    );
    assert(snapshot_updates(snap).take(gauges.len() as int) =~= gauges);
}

/// A refresh exports what the metrics hold.
pub proof fn lemma_refresh_shows_the_metrics(
    metrics: RelayMetrics,
    updates: Vec<MetricUpdate>,
    exported: Vec<MetricUpdate>,
)
    requires
        call_ensures(refresh, (&metrics,), updates),
        call_ensures(
            export_safety_gauges,
            (
                metrics.safety_state,
                metrics.policy_state,
                metrics.brake_engaged,
                metrics.hysteresis_ok_count,
            ),
            exported,
        ),
    ensures
        shown(updates@) == shown(exported@),
{
}

/// Before the first frame the metrics fail closed.
pub proof fn lemma_initial_metrics_fail_closed()
    ensures
        initial_metrics().safety_state == SafetyState::TelemetryMissing,
        initial_metrics().policy_state == SafetyState::TelemetryMissing,
        !initial_metrics().brake_engaged,
        initial_metrics().hysteresis_ok_count == 0,
        initial_metrics().telemetry_acquired_at is None,
        initial_metrics().telemetry_received_instant is None,
        initial_metrics().shutdown_reason is None,
{
}

/// Recording a snapshot copies what it shows into the metrics and leaves the
/// rest; the updates start with its gauges.
pub proof fn lemma_snapshot_is_recorded(
    metrics: &mut RelayMetrics,
    snap: SafetySnapshot,
    updates: Vec<MetricUpdate>,
)
    requires
        call_ensures(record_safety_snapshot, (metrics, &snap), updates),
    ensures
        final(metrics).safety_state == snap.state,
        final(metrics).policy_state == snap.policy_state,
        final(metrics).brake_engaged == snap.brake_engaged,
        final(metrics).hysteresis_ok_count == snap.hysteresis_ok_count,
        final(metrics).telemetry_acquired_at == old(metrics).telemetry_acquired_at,
        final(metrics).telemetry_received_instant == old(metrics).telemetry_received_instant,
        final(metrics).shutdown_reason == old(metrics).shutdown_reason,
        final(metrics).shutdown_unresolved_brake == old(metrics).shutdown_unresolved_brake,
        final(metrics).shutdown_unresolved_actuator == old(metrics).shutdown_unresolved_actuator,
        shown(updates@) == snapshot_updates(snap),
{
}

/// Recording a shutdown sets the reason and the flags of the plan, and exports
/// exactly those.
pub proof fn lemma_shutdown_is_recorded(
    metrics: &mut RelayMetrics,
    plan: ShutdownPlan,
    updates: Vec<MetricUpdate>,
)
    requires
        call_ensures(record_shutdown, (metrics, &plan), updates),
    ensures
        ({
            let all = shown(updates@);
            &&& final(metrics).shutdown_reason is Some
            &&& final(metrics).shutdown_reason->0@ == plan.reason.label()
            &&& final(metrics).shutdown_unresolved_brake == plan.unresolved_brake
            &&& final(metrics).shutdown_unresolved_actuator == plan.unresolved_actuator
            &&& final(metrics).safety_state == old(metrics).safety_state
            &&& final(metrics).brake_engaged == old(metrics).brake_engaged
            &&& all.len() == 4
            &&& all[0] == Update::Counter("shutdown_total"@, Some(plan.reason.label()))
            &&& all[1] == Update::Gauge(
                "shutdown_unresolved_brake"@,
                None,
                if plan.unresolved_brake {
                    1
                } else {
                    0
                },
            )
            &&& all[2] == Update::Gauge(
                "shutdown_unresolved_actuator"@,
                None,
                if plan.unresolved_actuator {
                    1
                } else {
                    0
                },
            )
            &&& all[3] == Update::Gauge(
                "shutdown_brake_left_engaged"@,
                None,
                if plan.leave_brake_engaged {
                    1
                } else {
                    0
                },
            )
        }),
{
}

} // verus!
