//! Scheduling rules of the supervisor loop.
//!
//! The loop itself (sleeping, acquiring, running the privileged command) is the
//! executable's. When it evaluates safety and when it may start a command is
//! decided here.

use crate::safety::BrakeIntent;
use crate::shutdown::InFlightActuation;
use crate::telemetry::SAFETY_EVAL_TICKS;
use vstd::prelude::*;

verus! {

/// Whether the frame of a tick is evaluated: the first frame, every tenth tick
/// after it, and the first frame after a command has ended.
pub fn evaluation_due(tick: u64, command_ended: bool) -> (due: bool)
    ensures
        due == (tick as int % SAFETY_EVAL_TICKS as int == 0 || command_ended),
{
    tick % SAFETY_EVAL_TICKS == 0 || command_ended
}

/// Command to start for an evaluated frame: the intent's, unless a command is
/// still running.
pub fn command_to_start(intent: BrakeIntent, running: InFlightActuation) -> (start: InFlightActuation)
    ensures
        start == (if running != InFlightActuation::Nothing {
            InFlightActuation::Nothing
        } else {
            match intent {
                BrakeIntent::NoChange => InFlightActuation::Nothing,
                BrakeIntent::Apply => InFlightActuation::Apply,
                BrakeIntent::Release => InFlightActuation::Release,
            }
        }),
{
    match (running, intent) {
        (InFlightActuation::Nothing, BrakeIntent::Apply) => InFlightActuation::Apply,
        (InFlightActuation::Nothing, BrakeIntent::Release) => InFlightActuation::Release,
        _ => InFlightActuation::Nothing,
    }
}

/// Safety is evaluated on the first tick, on every tick after a command ended,
/// and otherwise on every tenth tick and on none of the nine in between.
pub proof fn lemma_evaluation_schedule(
    tick: u64,
    later: u64,
    due: bool,
    due_later: bool,
    due_after_command: bool,
)
    requires
        call_ensures(evaluation_due, (tick, false), due),
        call_ensures(evaluation_due, (later, false), due_later),
        call_ensures(evaluation_due, (tick, true), due_after_command),
    ensures
        tick == 0 ==> due,
        later == tick + 10 ==> due == due_later,
        due && tick < later < tick + 10 ==> !due_later,
        due <==> tick as int % 10 == 0,
        due_after_command,
{
}

/// A command starts only where none runs, and it is the one that was asked for.
pub proof fn lemma_one_command_at_a_time(
    intent: BrakeIntent,
    running: InFlightActuation,
    start: InFlightActuation,
)
    requires
        call_ensures(command_to_start, (intent, running), start),
    ensures
        start == InFlightActuation::Apply <==> intent == BrakeIntent::Apply && running
            == InFlightActuation::Nothing,
        start == InFlightActuation::Release <==> intent == BrakeIntent::Release && running
            == InFlightActuation::Nothing,
        running != InFlightActuation::Nothing ==> start == InFlightActuation::Nothing,
{
}

} // verus!
