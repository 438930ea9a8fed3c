//! What holds of stamped sessions, source times and ages.

use crate::text;
use crate::time;
use crate::time::{
    ClockState, FrameTiming, SampleClock, SessionSeed, SessionSeeds, SourceTimeStatus,
    TimestampOrigin, UnixMillis,
};
use vstd::prelude::*;

verus! {

/// The last source time a session remembers is the last one that was given:
/// frames without a source time in between change nothing.
proof fn lemma_last_source_is_kept(
    clock: ClockState,
    sources: Seq<Option<UnixMillis>>,
    last: int,
    prev: UnixMillis,
)
    requires
        0 <= last < sources.len(),
        sources[last] == Some(prev),
        forall|j: int| last < j < sources.len() ==> #[trigger] sources[j] is None,
    ensures
        time::advanced_all(clock, sources).last_source == Some(prev),
    decreases sources.len(),
{
    if last < sources.len() - 1 {
        assert(sources[sources.len() - 1] is None);
        lemma_last_source_is_kept(clock, sources.drop_last(), last, prev);
    }
}

proof fn lemma_no_source_is_kept(clock: ClockState, sources: Seq<Option<UnixMillis>>)
    requires
        forall|j: int| 0 <= j < sources.len() ==> #[trigger] sources[j] is None,
    ensures
        time::advanced_all(clock, sources).last_source == clock.last_source,
    decreases sources.len(),
{
    if sources.len() > 0 {
        assert(sources[sources.len() - 1] is None);
        lemma_no_source_is_kept(clock, sources.drop_last());
    }
}

/// A frame stamped after others is judged by the last source time given before
/// it, however many frames without one came in between: missing without a source
/// time, future beyond the receive time, and otherwise backward, duplicate or in
/// order as it is earlier than, equal to or later than that one.
pub proof fn lemma_source_time_is_classified(
    clock: ClockState,
    sources: Seq<Option<UnixMillis>>,
    last: int,
    prev: UnixMillis,
    timing: FrameTiming,
    source: Option<UnixMillis>,
    received: UnixMillis,
    origin: TimestampOrigin,
)
    requires
        0 <= last < sources.len(),
        sources[last] == Some(prev),
        forall|j: int| last < j < sources.len() ==> #[trigger] sources[j] is None,
        time::stamped(timing, time::advanced_all(clock, sources), source, received, origin),
    ensures
        ({
            let status = timing.source_time_status;
            let late = source matches Some(src) && src > received;
            &&& status == SourceTimeStatus::Missing <==> source is None
            &&& status == SourceTimeStatus::Future <==> late
            &&& status == SourceTimeStatus::Backward <==> source is Some && !late && source->0
                < prev
            &&& status == SourceTimeStatus::Duplicate <==> source is Some && !late && source->0
                == prev
            &&& status == SourceTimeStatus::InOrder <==> source is Some && !late && source->0
                > prev
            &&& timing.source_unix_ms == source
            &&& timing.received_at_unix_ms == received
            &&& timing.timestamp_origin == origin
            &&& timing.batch_id == clock.next + sources.len()
            &&& timing.session_id@ == clock.session
        }),
{
    lemma_last_source_is_kept(clock, sources, last, prev);
    lemma_counts(clock, sources);
}

proof fn lemma_counts(clock: ClockState, sources: Seq<Option<UnixMillis>>)
    ensures
        time::advanced_all(clock, sources).next == clock.next + sources.len(),
        time::advanced_all(clock, sources).session == clock.session,
    decreases sources.len(),
{
    if sources.len() > 0 {
        lemma_counts(clock, sources.drop_last());
    }
}

/// The first source time of a session is in order unless it is in the future.
pub proof fn lemma_first_source_time_is_in_order(
    session: Seq<char>,
    sources: Seq<Option<UnixMillis>>,
    timing: FrameTiming,
    source: UnixMillis,
    received: UnixMillis,
    origin: TimestampOrigin,
)
    requires
        forall|j: int| 0 <= j < sources.len() ==> #[trigger] sources[j] is None,
        time::stamped(
            timing,
            time::advanced_all(ClockState { session, next: 0, last_source: None }, sources),
            Some(source),
            received,
            origin,
        ),
    ensures
        timing.source_time_status == (if source > received {
            SourceTimeStatus::Future
        } else {
            SourceTimeStatus::InOrder
        }),
        timing.batch_id == sources.len(),
{
    let clock = ClockState { session, next: 0, last_source: None };
    lemma_no_source_is_kept(clock, sources);
    lemma_counts(clock, sources);
}

/// Which statuses count as a regression of the source time.
pub proof fn lemma_what_regresses(
    source: Option<UnixMillis>,
    received: UnixMillis,
    last: Option<UnixMillis>,
    status: SourceTimeStatus,
    regression: bool,
)
    requires
        call_ensures(SourceTimeStatus::classify, (source, received, last), status),
        call_ensures(SourceTimeStatus::is_source_regression, (status,), regression),
    ensures
        regression <==> source is Some && last is Some && source->0 <= received && source->0
            <= last->0,
{
}

/// A blank source-timestamp cell is a missing time, digits are their number, and
/// whitespace round them does not matter. A cell with anything else is an error.
pub proof fn lemma_timestamp_cells(
    field: &str,
    before: Seq<char>,
    cell: Seq<char>,
    after: Seq<char>,
    n: u64,
    outcome: Result<Option<UnixMillis>, String>,
)
    requires
        call_ensures(time::parse_source_timestamp_field, (field,), outcome),
        field@ == before + cell + after,
        text::laws::blank(before),
        text::laws::blank(after),
        text::laws::visible_ends(cell),
    ensures
        outcome == Ok::<Option<UnixMillis>, String>(None) <==> cell.len() == 0,
        cell == text::decimal(n as nat) ==> outcome == Ok::<Option<UnixMillis>, String>(Some(n)),
        outcome is Err <==> cell.len() > 0 && text::number_outcome(cell) is Err,
        outcome matches Ok(Some(time)) ==> text::number_outcome(cell) == Ok::<
            u64,
            text::NumberError,
        >(time),
{
    text::laws::lemma_trimming(before, cell, after);
    text::lemma_number_round_trip(n);
    text::lemma_decimal_shape(n as nat);
}

/// An age is counted from the receipt: zero at the receipt, before it and
/// without one, and growing with the clock from then on.
pub proof fn lemma_age_grows_from_the_receipt(
    received: UnixMillis,
    now: UnixMillis,
    later: UnixMillis,
    age: u64,
    age_later: u64,
    age_unknown: u64,
)
    requires
        call_ensures(time::freshness_millis, (Some(received), now), age),
        call_ensures(time::freshness_millis, (Some(received), later), age_later),
        call_ensures(time::freshness_millis, (None::<UnixMillis>, now), age_unknown),
        now <= later,
    ensures
        now <= received ==> age == 0,
        received <= now ==> received + age == now && age_later - age == later - now,
        age <= age_later,
        age_unknown == 0,
{
}

/// The same of the monotonic clock.
pub proof fn lemma_monotonic_age_grows_from_the_receipt(
    received: u128,
    now: u128,
    later: u128,
    age: u128,
    age_later: u128,
    age_unknown: u128,
)
    requires
        call_ensures(time::freshness_nanos, (Some(received), now), age),
        call_ensures(time::freshness_nanos, (Some(received), later), age_later),
        call_ensures(time::freshness_nanos, (None::<u128>, now), age_unknown),
        now <= later,
    ensures
        now <= received ==> age == 0,
        received <= now ==> received + age == now && age_later - age == later - now,
        age <= age_later,
        age_unknown == 0,
{
}

/// Wall-clock milliseconds are exact as long as they fit, and never run back.
pub proof fn lemma_millis_saturate(
    ms: u128,
    more: u128,
    now: UnixMillis,
    later: UnixMillis,
    unset: UnixMillis,
)
    requires
        call_ensures(time::saturated_millis, (Some(ms),), now),
        call_ensures(time::saturated_millis, (Some(more),), later),
        call_ensures(time::saturated_millis, (None::<u128>,), unset),
        ms <= more,
    ensures
        ms <= u64::MAX ==> now == ms,
        now <= ms,
        now <= later,
        more > u64::MAX ==> later == u64::MAX,
        unset == 0,
{
}

/// Stamping gives a frame the session's next number and moves the session on by
/// one, whatever the source time is.
pub proof fn lemma_stamping_moves_on(
    clock: &mut SampleClock,
    source: Option<UnixMillis>,
    received: UnixMillis,
    origin: TimestampOrigin,
    timing: FrameTiming,
)
    requires
        call_ensures(SampleClock::stamp, (clock, source, received, origin), timing),
    ensures
        timing.batch_id == old(clock)@.next,
        timing.session_id@ == old(clock)@.session,
        timing.source_unix_ms == source,
        timing.received_at_unix_ms == received,
        timing.timestamp_origin == origin,
        final(clock)@.next == old(clock)@.next + 1,
        final(clock)@.session == old(clock)@.session,
        source is Some ==> final(clock)@.last_source == source,
        source is None ==> final(clock)@.last_source == old(clock)@.last_source,
{
}

/// Seeds of a process carry its id and the instant given, and are numbered in
/// order until the counter goes round.
pub proof fn lemma_seeds_are_numbered(seeds: &mut SessionSeeds, nanos: u128, seed: SessionSeed)
    requires
        call_ensures(SessionSeeds::draw, (seeds, nanos), seed),
    ensures
        seed.pid == old(seeds)@.pid,
        seed.nanos == nanos,
        seed.discriminator == old(seeds)@.next,
        final(seeds)@.pid == old(seeds)@.pid,
        old(seeds)@.next < u64::MAX ==> final(seeds)@.next == old(seeds)@.next + 1,
        old(seeds)@.next == u64::MAX ==> final(seeds)@.next == 0,
{
}

} // verus!
