//! Process-local monotonic sample clock and timestamp provenance.
//!
//! Wall-clock source timestamps can jump, repeat, or arrive out of order.
//! Frames are therefore ordered by a session-scoped [`SampleClock`]: a stable
//! session id plus a strictly increasing `batch_id`. Source wall time is kept
//! separately and classified; duplicate, backward, missing and future source
//! times are flagged and never move the sequence back.
//!
//! A new clock is a new session whose sequence starts at zero. Consumers key
//! frames by `(session_id, batch_id)`.

use crate::text;
use crate::text::{describe_cell, parse_number, push_decimal, push_text, quote, trim};
use vstd::prelude::*;

pub mod laws;

verus! {

/// Unix-epoch timestamp in milliseconds (UTC).
pub type UnixMillis = u64;

/// `std::time::SystemTime`: a reading of the wall clock.
#[verifier::external_type_specification]
#[verifier::external_body]
pub struct ExSystemTime(std::time::SystemTime);

/// `std::time::SystemTimeError`: the clock reads before the reference point.
#[verifier::external_type_specification]
#[verifier::external_body]
pub struct ExSystemTimeError(std::time::SystemTimeError);

/// `SystemTime::now`: the current reading. Nothing is claimed of it.
#[verifier::external_body]
fn wall_clock() -> std::time::SystemTime {
    std::time::SystemTime::now()
}

/// `SystemTime::duration_since` the Unix epoch. Nothing is claimed of the span,
/// nor of whether the reading is before the epoch.
#[verifier::external_body]
fn since_epoch(reading: std::time::SystemTime) -> Result<
    std::time::Duration,
    std::time::SystemTimeError,
> {
    reading.duration_since(std::time::UNIX_EPOCH)
}

/// `Duration::as_millis`: whole milliseconds in the span. The span depends on
/// the machine's clock, so nothing is claimed of the number.
#[verifier::external_body]
fn whole_millis(span: std::time::Duration) -> u128 {
    span.as_millis()
}

/// Wall-clock now as unix milliseconds, 0 if the clock is before the epoch.
///
/// The reading is the machine's; [`saturated_millis`] fixes what becomes of it.
pub fn unix_now_ms() -> UnixMillis {
    match since_epoch(wall_clock()) {
        Ok(span) => saturated_millis(Some(whole_millis(span))),
        Err(_) => saturated_millis(None),
    }
}

/// Milliseconds since the epoch as a timestamp: 0 before the epoch, and the
/// largest timestamp where the count does not fit.
pub fn saturated_millis(since_epoch_ms: Option<u128>) -> (now: UnixMillis)
    ensures
        since_epoch_ms is None ==> now == 0,
        since_epoch_ms matches Some(ms) ==> now == (if ms > u64::MAX {
            u64::MAX as int
        } else {
            ms as int
        }),
{
    match since_epoch_ms {
        None => 0,
        Some(ms) => if ms > u64::MAX as u128 {
            u64::MAX
        } else {
            ms as u64
        },
    }
}

/// Where a frame's source timestamp came from.
#[derive(Debug, Clone, Copy, PartialEq, Eq, Hash, Structural)]
pub enum TimestampOrigin {
    /// Wall clock taken at live hardware acquisition.
    LiveAcquire,
    /// Timestamp supplied by a CSV / replay row.
    CsvSource,
    /// Software-fallback / simulated path.
    Simulated,
}

/// Source wall timestamp relative to receive time and to the previous source
/// time of the session.
#[derive(Debug, Clone, Copy, PartialEq, Eq, Hash, Structural)]
pub enum SourceTimeStatus {
    /// Present, not in the future, and strictly after the previous source time
    /// (or the first source time in the session).
    InOrder,
    /// Same source timestamp as the previous stamped frame.
    Duplicate,
    /// Source timestamp earlier than the previous stamped frame.
    Backward,
    /// Source timestamp after receive time.
    Future,
    /// Producer omitted a source timestamp.
    Missing,
}

/// How a source timestamp stands to the receive time and the last source time.
pub open spec fn source_status(
    source: Option<UnixMillis>,
    received: UnixMillis,
    last: Option<UnixMillis>,
) -> SourceTimeStatus {
    match source {
        None => SourceTimeStatus::Missing,
        Some(src) => if src > received {
            SourceTimeStatus::Future
        } else {
            match last {
                Some(prev) => if src < prev {
                    SourceTimeStatus::Backward
                } else if src == prev {
                    SourceTimeStatus::Duplicate
                } else {
                    SourceTimeStatus::InOrder
                },
                None => SourceTimeStatus::InOrder,
            }
        },
    }
}

impl SourceTimeStatus {
    /// Classify `source` against receive time and the last seen source time.
    pub fn classify(
        source_unix_ms: Option<UnixMillis>,
        received_at_unix_ms: UnixMillis,
        last_source_unix_ms: Option<UnixMillis>,
    ) -> (status: Self)
        ensures
            status == source_status(source_unix_ms, received_at_unix_ms, last_source_unix_ms),
    {
        let src: UnixMillis = match source_unix_ms {
            None => return SourceTimeStatus::Missing,
            Some(src) => src,
        };
        if src > received_at_unix_ms {
            return SourceTimeStatus::Future;
        }
        match last_source_unix_ms {
            Some(prev) if src < prev => SourceTimeStatus::Backward,
            Some(prev) if src == prev => SourceTimeStatus::Duplicate,
            _ => SourceTimeStatus::InOrder,
        }
    }

    /// Duplicate or backward source time (the sample clock still advances).
    pub fn is_source_regression(self) -> (answer: bool)
        ensures
            answer == (self == SourceTimeStatus::Duplicate || self == SourceTimeStatus::Backward),
    {
        matches!(self, SourceTimeStatus::Duplicate | SourceTimeStatus::Backward)
    }
}

/// Per-frame timing stamped by [`SampleClock`].
#[derive(Debug, PartialEq, Eq)]
pub struct FrameTiming {
    /// Stable session identifier. A new clock is a new id.
    pub session_id: String,
    /// Strictly increasing sample sequence within `session_id` (first frame is 0).
    pub batch_id: u64,
    /// Original source wall time, if the producer supplied one.
    pub source_unix_ms: Option<UnixMillis>,
    /// Receive/assess time at the relay (unix ms). Distinct from source time.
    pub received_at_unix_ms: UnixMillis,
    /// Where the source timestamp came from.
    pub timestamp_origin: TimestampOrigin,
    /// How the source timestamp stands to receive time and to the session.
    pub source_time_status: SourceTimeStatus,
}

impl Clone for FrameTiming {
    fn clone(&self) -> (copy: Self)
        ensures
            copy == *self,
    {
        FrameTiming {
            session_id: self.session_id.clone(),
            batch_id: self.batch_id,
            source_unix_ms: self.source_unix_ms,
            received_at_unix_ms: self.received_at_unix_ms,
            timestamp_origin: self.timestamp_origin,
            source_time_status: self.source_time_status,
        }
    }
}

/// What makes a session id unique: the process, the boot time and a counter
/// that tells apart two clocks built in the same instant.
#[derive(Debug, Clone, Copy, PartialEq, Eq, Structural)]
pub struct SessionSeed {
    /// Process id.
    pub pid: u32,
    /// Nanoseconds since the Unix epoch when the session began.
    pub nanos: u128,
    /// Process-wide counter, different for every clock.
    pub discriminator: u64,
}

/// Session id of a seed: `thalamic-{pid}-{nanos}-{discriminator}`.
pub open spec fn session_text(seed: SessionSeed) -> Seq<char> {
    "thalamic-"@ + text::decimal(seed.pid as nat) + "-"@ + text::decimal(seed.nanos as nat) + "-"@
        + text::decimal(seed.discriminator as nat)
}

/// Session id of a seed.
pub fn generate_session_id(seed: SessionSeed) -> (id: String)
    ensures
        id@ == session_text(seed),
{
    let mut id: String = String::new();
    push_text(&mut id, "thalamic-");
    push_decimal(&mut id, seed.pid as u128);
    push_text(&mut id, "-");
    push_decimal(&mut id, seed.nanos);
    push_text(&mut id, "-");
    push_decimal(&mut id, seed.discriminator as u128);
    proof {
        assert(id@ =~= session_text(seed));
    }
    id
}

/// Mathematical state of a [`SessionSeeds`].
pub struct SeedState {
    /// Process id.
    pub pid: u32,
    /// Counter of the next seed.
    pub next: u64,
}

impl SeedState {
    /// Seed handed out at `nanos`.
    pub open spec fn seed(self, nanos: u128) -> SessionSeed {
        SessionSeed { pid: self.pid, nanos, discriminator: self.next }
    }

    /// State after `n` seeds: the counter goes on, and starts over at its end.
    pub open spec fn after(self, n: nat) -> SeedState {
        SeedState {
            pid: self.pid,
            next: ((self.next + n) % (u64::MAX + 1)) as u64,
        }
    }
}

/// Hands out the session seeds of one process.
#[derive(Debug)]
pub struct SessionSeeds {
    pid: u32,
    next: u64,
}

impl View for SessionSeeds {
    type V = SeedState;

    closed spec fn view(&self) -> SeedState {
        SeedState { pid: self.pid, next: self.next }
    }
}

impl SessionSeeds {
    /// Seeds of the process `pid`, counted from 0.
    pub fn new(pid: u32) -> (seeds: Self)
        ensures
            seeds@ == (SeedState { pid, next: 0 }),
    {
        SessionSeeds { pid, next: 0 }
    }

    /// The next seed, for a session that begins `nanos` nanoseconds after the
    /// Unix epoch.
    pub fn draw(&mut self, nanos: u128) -> (seed: SessionSeed)
        ensures
            seed == old(self)@.seed(nanos),
            final(self)@ == old(self)@.after(1),
    {
        let seed: SessionSeed = SessionSeed { pid: self.pid, nanos, discriminator: self.next };
        self.next = self.next.wrapping_add(1);
        seed
    }
}

/// Mathematical state of a [`SampleClock`].
pub struct ClockState {
    /// Session id.
    pub session: Seq<char>,
    /// Next sequence number.
    pub next: int,
    /// Last source time stamped, if any.
    pub last_source: Option<UnixMillis>,
}

/// Process-local monotonic sample sequence plus session identity.
#[derive(Debug)]
pub struct SampleClock {
    session_id: String,
    next_batch_id: u64,
    last_source_unix_ms: Option<UnixMillis>,
}

impl View for SampleClock {
    type V = ClockState;

    closed spec fn view(&self) -> ClockState {
        ClockState {
            session: self.session_id@,
            next: self.next_batch_id as int,
            last_source: self.last_source_unix_ms,
        }
    }
}

impl Clone for SampleClock {
    fn clone(&self) -> (copy: Self)
        ensures
            copy@ == self@,
    {
        SampleClock {
            session_id: self.session_id.clone(),
            next_batch_id: self.next_batch_id,
            last_source_unix_ms: self.last_source_unix_ms,
        }
    }
}

/// Clock state after stamping a frame with source time `source`.
pub open spec fn advanced(clock: ClockState, source: Option<UnixMillis>) -> ClockState {
    ClockState {
        session: clock.session,
        next: clock.next + 1,
        last_source: if source is Some {
            source
        } else {
            clock.last_source
        },
    }
}

/// Timing that a clock gives to a frame.
pub open spec fn stamped(
    timing: FrameTiming,
    clock: ClockState,
    source: Option<UnixMillis>,
    received: UnixMillis,
    origin: TimestampOrigin,
) -> bool {
    &&& timing.session_id@ == clock.session
    &&& timing.batch_id == clock.next
    &&& timing.source_unix_ms == source
    &&& timing.received_at_unix_ms == received
    &&& timing.timestamp_origin == origin
    &&& timing.source_time_status == source_status(source, received, clock.last_source)
}

/// State of a clock that begins a session from `seed`.
pub open spec fn fresh_session(seed: SessionSeed) -> ClockState {
    ClockState { session: session_text(seed), next: 0, last_source: None }
}

impl SampleClock {
    /// New session: unique id from `seed`, `batch_id` starts at 0.
    pub fn new(seed: SessionSeed) -> (clock: Self)
        ensures
            clock@ == fresh_session(seed),
    {
        SampleClock {
            session_id: generate_session_id(seed),
            next_batch_id: 0,
            last_source_unix_ms: None,
        }
    }

    /// Clock with an explicit session id, for tests and replay. The sequence
    /// still starts at 0.
    pub fn with_session_id(session_id: &str) -> (clock: Self)
        ensures
            clock@ == (ClockState { session: session_id@, next: 0, last_source: None }),
    {
        SampleClock {
            session_id: session_id.to_owned(),
            next_batch_id: 0,
            last_source_unix_ms: None,
        }
    }

    /// Id of this session.
    pub fn session_id(&self) -> (id: &str)
        ensures
            id@ == self@.session,
    {
        self.session_id.as_str()
    }

    /// Next `batch_id` that [`Self::stamp`] will assign (not yet consumed).
    pub fn peek_batch_id(&self) -> (id: u64)
        ensures
            id == self@.next,
    {
        self.next_batch_id
    }

    /// Stamp one emitted frame. Always advances `batch_id`, even when the
    /// source timestamp is missing, duplicate, backward, future, or huge.
    pub fn stamp(
        &mut self,
        source_unix_ms: Option<UnixMillis>,
        received_at_unix_ms: UnixMillis,
        timestamp_origin: TimestampOrigin,
    ) -> (timing: FrameTiming)
        requires
            old(self)@.next < u64::MAX,
        ensures
            stamped(
                timing,
                old(self)@,
                source_unix_ms,
                received_at_unix_ms,
                timestamp_origin,
            ),
            final(self)@ == advanced(old(self)@, source_unix_ms),
    {
        let source_time_status: SourceTimeStatus = SourceTimeStatus::classify(
            source_unix_ms,
            received_at_unix_ms,
            self.last_source_unix_ms,
        );
        let batch_id: u64 = self.next_batch_id;
        self.next_batch_id = self.next_batch_id + 1;
        if source_unix_ms.is_some() {
            self.last_source_unix_ms = source_unix_ms;
        }
        FrameTiming {
            session_id: self.session_id.clone(),
            batch_id,
            source_unix_ms,
            received_at_unix_ms,
            timestamp_origin,
            source_time_status,
        }
    }
}

/// Age of the last received sample in milliseconds; 0 before the first sample.
///
/// Receive time is the freshness basis, never source wall time. A clock that
/// moved back gives age 0.
pub fn freshness_millis(received_at: Option<UnixMillis>, now: UnixMillis) -> (age: u64)
    ensures
        received_at is None ==> age == 0,
        received_at matches Some(ts) ==> age == (if now >= ts {
            now - ts
        } else {
            0
        }),
{
    match received_at {
        None => 0,
        Some(ts) => now.saturating_sub(ts),
    }
}

/// Age of the last received sample on the monotonic clock, in nanoseconds; 0
/// before the first sample.
///
/// Both times count from the same origin. Immune to wall-clock jumps.
pub fn freshness_nanos(received_at: Option<u128>, now: u128) -> (age: u128)
    ensures
        received_at is None ==> age == 0,
        received_at matches Some(ts) ==> age == (if now >= ts {
            now - ts
        } else {
            0
        }),
{
    match received_at {
        None => 0,
        Some(ts) => now.saturating_sub(ts),
    }
}

/// Outcome of reading a source-timestamp cell: nothing for a blank cell, the
/// number, or a message naming the cell and the number error.
pub open spec fn timestamp_field_outcome(field: Seq<char>) -> Result<Option<UnixMillis>, Seq<char>> {
    let cell = text::trimmed(field);
    if cell.len() == 0 {
        Ok(None)
    } else {
        match text::number_outcome(cell) {
            Ok(n) => Ok(Some(n)),
            Err(e) => Err(
                text::cell_message("source timestamp"@, text::quoted(cell), e.wording()),
            ),
        }
    }
}

/// Parse a CSV source-timestamp cell. Empty / whitespace is missing.
///
/// Accepts decimal unix milliseconds. Values that overflow `u64` fail to parse;
/// the largest `u64` is a valid timestamp.
pub fn parse_source_timestamp_field(field: &str) -> (outcome: Result<Option<UnixMillis>, String>)
    ensures
        match outcome {
            Ok(time) => timestamp_field_outcome(field@) == Ok::<Option<UnixMillis>, Seq<char>>(
                time,
            ),
            Err(message) => timestamp_field_outcome(field@) == Err::<
                Option<UnixMillis>,
                Seq<char>,
            >(message@),
        },
{
    let cell: String = trim(field);
    if cell.as_str().is_empty() {
        return Ok(None);
    }
    match parse_number(cell.as_str()) {
        Ok(n) => Ok(Some(n)),
        Err(e) => {
            let quoted_cell: String = quote(cell.as_str());
            Err(describe_cell("source timestamp", quoted_cell.as_str(), e.as_str()))
        },
    }
}

/// Clock state after stamping frames with the given source times, in order.
pub open spec fn advanced_all(clock: ClockState, sources: Seq<Option<UnixMillis>>) -> ClockState
    decreases sources.len(),
{
    if sources.len() == 0 {
        clock
    } else {
        advanced(advanced_all(clock, sources.drop_last()), sources.last())
    }
}

/// Whatever the source times are, a session keeps its id and numbers its
/// frames consecutively: a later frame has a strictly larger `batch_id`.
pub proof fn lemma_sequence_never_regresses(
    clock: ClockState,
    sources: Seq<Option<UnixMillis>>,
    i: int,
    j: int,
)
    requires
        0 <= i < j <= sources.len(),
    ensures
        advanced_all(clock, sources.take(i)).session == clock.session,
        advanced_all(clock, sources.take(j)).session == clock.session,
        advanced_all(clock, sources.take(i)).next == clock.next + i,
        advanced_all(clock, sources.take(i)).next < advanced_all(clock, sources.take(j)).next,
{
    lemma_sequence_counts(clock, sources.take(i));
    lemma_sequence_counts(clock, sources.take(j));
}

proof fn lemma_sequence_counts(clock: ClockState, sources: Seq<Option<UnixMillis>>)
    ensures
        advanced_all(clock, sources).session == clock.session,
        advanced_all(clock, sources).next == clock.next + sources.len(),
    decreases sources.len(),
{
    if sources.len() > 0 {
        lemma_sequence_counts(clock, sources.drop_last());
    }
}

/// Different seeds give different session ids, so a restart is told apart.
pub proof fn lemma_session_ids_distinct(a: SessionSeed, b: SessionSeed)
    requires
        a != b,
    ensures
        session_text(a) != session_text(b),
{
    if session_text(a) == session_text(b) {
        reveal_strlit("thalamic-");
        reveal_strlit("-");
        let (pa, na, da) = (
            text::decimal(a.pid as nat),
            text::decimal(a.nanos as nat),
            text::decimal(a.discriminator as nat),
        );
        let (pb, nb, db) = (
            text::decimal(b.pid as nat),
            text::decimal(b.nanos as nat),
            text::decimal(b.discriminator as nat),
        );
        text::lemma_decimal_shape(a.pid as nat);
        text::lemma_decimal_shape(b.pid as nat);
        text::lemma_decimal_shape(a.nanos as nat);
        text::lemma_decimal_shape(b.nanos as nat);
        let ra = na.push('-') + da;
        let rb = nb.push('-') + db;
        assert(session_text(a).skip(9) =~= pa.push('-') + ra);
        assert(session_text(b).skip(9) =~= pb.push('-') + rb);
        lemma_dash_separates(pa, ra, pb, rb);
        lemma_dash_separates(na, da, nb, db);
        text::lemma_decimal_injective(a.pid as nat, b.pid as nat);
        text::lemma_decimal_injective(a.nanos as nat, b.nanos as nat);
        text::lemma_decimal_injective(a.discriminator as nat, b.discriminator as nat);
    }
}

/// Clocks made from different seeds of one process are different sessions, each
/// starting its sequence at zero, even if they begin in the same instant. Left
/// out is only a counter that went round in full within that instant.
pub proof fn lemma_sessions_of_a_process_are_distinct(
    seeds: SeedState,
    i: nat,
    j: nat,
    nanos_i: u128,
    nanos_j: u128,
)
    requires
        i < j,
        nanos_i != nanos_j || (j - i) % (u64::MAX + 1) != 0,
    ensures
        ({
            let a = fresh_session(seeds.after(i).seed(nanos_i));
            let b = fresh_session(seeds.after(j).seed(nanos_j));
            a.session != b.session && a.next == 0 && b.next == 0
        }),
        seeds.after(i).after(1) == seeds.after(i + 1),
{
    lemma_session_ids_distinct(seeds.after(i).seed(nanos_i), seeds.after(j).seed(nanos_j));
}

/// A run of digits up to a dash is determined by the text.
proof fn lemma_dash_separates(x: Seq<char>, r: Seq<char>, y: Seq<char>, s: Seq<char>)
    requires
        x.push('-') + r == y.push('-') + s,
        forall|i: int| 0 <= i < x.len() ==> '0' <= #[trigger] x[i] <= '9',
        forall|i: int| 0 <= i < y.len() ==> '0' <= #[trigger] y[i] <= '9',
    ensures
        x == y,
        r == s,
{
    let whole = x.push('-') + r;
    assert(whole[x.len() as int] == '-');
    assert(whole[y.len() as int] == (y.push('-') + s)[y.len() as int]);
    if x.len() < y.len() {
        assert(whole[x.len() as int] == y[x.len() as int]);
    } else if y.len() < x.len() {
        assert(whole[y.len() as int] == x[y.len() as int]);
    }
    assert(x =~= whole.take(x.len() as int));
    assert(y =~= whole.take(y.len() as int));
    assert(r =~= whole.skip((x.len() + 1) as int));
    assert(s =~= whole.skip((y.len() + 1) as int));
}

} // verus!
