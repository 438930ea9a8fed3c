//! Writing rows and reading them back.

use crate::binary32::Binary32;
use crate::telemetry_csv;
use crate::telemetry_csv::{
    LoadResult, ParseDataLine, TelemetryCsvError, TelemetryCsvRow, HEADER,
};
use crate::text;
use vstd::prelude::*;

verus! {

/// A text that can stand as a CSV field: not empty, no comma, no whitespace.
pub open spec fn plain(s: Seq<char>) -> bool {
    &&& s.len() > 0
    &&& forall|i: int| 0 <= i < s.len() ==> #[trigger] s[i] != ',' && !text::whitespace(s[i])
}

/// Whether `read` and `write` agree: what `write` makes of a finite value can
/// stand as a field, and `read` gives that value back.
pub open spec fn agree<F: Fn(&str) -> Option<Binary32>, G: Fn(Binary32) -> String>(
    read: F,
    write: G,
) -> bool {
    &&& forall|v: Binary32, s: Seq<char>| #[trigger]
        telemetry_csv::writes(write, v, s) && v.finite() ==> plain(s)
    &&& forall|v: Binary32, s: Seq<char>, r: Option<Binary32>|
        #![trigger telemetry_csv::writes(write, v, s), text::reads(read, s, r)]
        telemetry_csv::writes(write, v, s) && v.finite() && text::reads(read, s, r) ==> r == Some(v)
}

/// Rows of finite values, written as a CSV text and parsed back, come out as
/// they went in: no error, no row skipped.
pub proof fn lemma_round_trip<F: Fn(&str) -> Option<Binary32>, G: Fn(Binary32) -> String>(
    read: F,
    write: G,
    rows: Seq<TelemetryCsvRow>,
    contents: Seq<char>,
    outcome: Result<LoadResult, TelemetryCsvError>,
)
    requires
        agree(read, write),
        forall|i: int| 0 <= i < rows.len() ==> (#[trigger] rows[i]).finite(),
        telemetry_csv::writes_csv(write, rows, contents),
        telemetry_csv::csv_outcome(read, contents, outcome),
    ensures
        outcome matches Ok(result) && result.rows@ == rows && result.skipped == 0,
{
    let lines = choose|lines: Seq<Seq<char>>| #[trigger]
        telemetry_csv::writes_rows(write, rows, lines) && contents == HEADER@.push('\n')
            + telemetry_csv::joined_lines(lines);
    assert forall|i: int| 0 <= i < lines.len() implies unbroken(#[trigger] lines[i]) by {
        lemma_row_line(read, write, rows[i], lines[i], ParseDataLine::Empty);
    }
    reveal_strlit("timestamp_ms,gpu_temp_c,gpu_power_w,cpu_tctl_c,cpu_package_power_w");
    assert(unbroken(HEADER@));
    lemma_lines_cons(HEADER@, telemetry_csv::joined_lines(lines));
    lemma_lines_of_joined(lines);
    let all = text::lines(contents);
    assert(all =~= seq![HEADER@] + lines);
    assert(all[0] == HEADER@);
    assert(all.skip(1) =~= lines);
    lemma_trimmed(HEADER@);
    assert(outcome is Ok);
    let result = outcome->Ok_0;
    let outcomes = choose|outcomes: Seq<ParseDataLine>| #[trigger]
        telemetry_csv::line_outcomes(read, lines, outcomes) && result.rows@
            == telemetry_csv::rows_of(outcomes) && result.skipped == telemetry_csv::malformed_in(
            outcomes,
        );
    assert forall|i: int| 0 <= i < rows.len() implies #[trigger] outcomes[i] == ParseDataLine::Row(
        rows[i],
    ) by {
        assert(telemetry_csv::writes_row(write, rows[i], lines[i]));
        lemma_row_line(read, write, rows[i], lines[i], outcomes[i]);
    }
    lemma_all_rows(outcomes, rows);
}

/// A text without line feeds that starts and ends with visible characters.
spec fn unbroken(s: Seq<char>) -> bool {
    &&& s.len() > 0
    &&& !text::whitespace(s[0])
    &&& !text::whitespace(s.last())
    &&& forall|i: int| 0 <= i < s.len() ==> #[trigger] s[i] != '\n'
}

proof fn lemma_trimmed(s: Seq<char>)
    requires
        unbroken(s),
    ensures
        text::trimmed(s) == s,
{
}

/// A line, a line feed and the rest.
proof fn lemma_lines_cons(line: Seq<char>, rest: Seq<char>)
    requires
        unbroken(line),
    ensures
        text::lines(line.push('\n') + rest) == seq![line] + text::lines(rest),
{
    let s = line.push('\n') + rest;
    let n = line.len() as int;
    assert(s[n] == '\n');
    text::lemma_find_from_is(s, '\n', 0, n);
    assert(s.take(n) =~= line);
    assert(s.skip(n + 1) =~= rest);
    assert(text::without_return(line) == line);
}

/// Joined lines begin with the first line.
proof fn lemma_joined_front(lines: Seq<Seq<char>>)
    requires
        lines.len() > 0,
    ensures
        telemetry_csv::joined_lines(lines) == lines[0].push('\n') + telemetry_csv::joined_lines(
            lines.skip(1),
        ),
    decreases lines.len(),
{
    if lines.len() == 1 {
        reveal_with_fuel(telemetry_csv::joined_lines, 2);
        assert(lines.drop_last() =~= Seq::<Seq<char>>::empty());
        assert(lines.skip(1) =~= Seq::<Seq<char>>::empty());
        assert(telemetry_csv::joined_lines(lines) =~= lines[0].push('\n'));
        assert(lines[0].push('\n') + telemetry_csv::joined_lines(lines.skip(1))
            =~= lines[0].push('\n'));
    } else {
        let front = lines.drop_last();
        lemma_joined_front(front);
        assert(front.skip(1) =~= lines.skip(1).drop_last());
        assert(lines.skip(1).last() == lines.last());
        assert(telemetry_csv::joined_lines(lines) =~= lines[0].push('\n')
            + telemetry_csv::joined_lines(lines.skip(1)));
    }
}

/// Splitting joined lines gives the lines.
proof fn lemma_lines_of_joined(lines: Seq<Seq<char>>)
    requires
        forall|i: int| 0 <= i < lines.len() ==> unbroken(#[trigger] lines[i]),
    ensures
        text::lines(telemetry_csv::joined_lines(lines)) == lines,
    decreases lines.len(),
{
    if lines.len() > 0 {
        lemma_joined_front(lines);
        assert forall|i: int| 0 <= i < lines.skip(1).len() implies unbroken(
            #[trigger] lines.skip(1)[i],
        ) by {
            assert(lines.skip(1)[i] == lines[i + 1]);
        }
        lemma_lines_of_joined(lines.skip(1));
        lemma_lines_cons(lines[0], telemetry_csv::joined_lines(lines.skip(1)));
        assert(seq![lines[0]] + lines.skip(1) =~= lines);
    } else {
        assert(lines =~= Seq::<Seq<char>>::empty());
    }
}

/// A field, a comma and the rest.
proof fn lemma_split_cons(field: Seq<char>, rest: Seq<char>)
    requires
        plain(field),
    ensures
        text::split_commas(field.push(',') + rest) == seq![field] + text::split_commas(rest),
{
    let s = field.push(',') + rest;
    let n = field.len() as int;
    assert(s[n] == ',');
    text::lemma_find_from_is(s, ',', 0, n);
    assert(s.take(n) =~= field);
    assert(s.skip(n + 1) =~= rest);
}

/// A single field.
proof fn lemma_split_one(field: Seq<char>)
    requires
        plain(field),
    ensures
        text::split_commas(field) == seq![field],
{
    text::lemma_find_from_is(field, ',', 0, field.len() as int);
}

/// Five plain fields joined by commas make an unbroken line that splits into
/// those fields.
proof fn lemma_five_fields(fields: Seq<Seq<char>>)
    requires
        fields.len() == 5,
        forall|i: int| 0 <= i < 5 ==> plain(#[trigger] fields[i]),
    ensures
        unbroken(text::join_commas(fields)),
        text::split_commas(text::join_commas(fields)) == fields,
{
    let line = text::join_commas(fields);
    telemetry_csv::lemma_join_five(fields);
    let r4 = fields[4];
    let r3 = fields[3].push(',') + r4;
    let r2 = fields[2].push(',') + r3;
    let r1 = fields[1].push(',') + r2;
    assert(line =~= fields[0].push(',') + r1);
    lemma_split_one(r4);
    lemma_split_cons(fields[3], r4);
    lemma_split_cons(fields[2], r3);
    lemma_split_cons(fields[1], r2);
    lemma_split_cons(fields[0], r1);
    assert(text::split_commas(line) =~= fields);
    lemma_joined_visible(fields[3], r4);
    lemma_joined_visible(fields[2], r3);
    lemma_joined_visible(fields[1], r2);
    lemma_joined_visible(fields[0], r1);
}

/// Decimal notations can stand as fields.
proof fn lemma_decimal_plain(n: nat)
    ensures
        plain(text::decimal(n)),
{
    text::lemma_decimal_shape(n);
}

/// A written row is one unbroken line, and every outcome of parsing it is that
/// row.
proof fn lemma_row_line<F: Fn(&str) -> Option<Binary32>, G: Fn(Binary32) -> String>(
    read: F,
    write: G,
    row: TelemetryCsvRow,
    line: Seq<char>,
    outcome: ParseDataLine,
)
    requires
        agree(read, write),
        row.finite(),
        telemetry_csv::writes_row(write, row, line),
    ensures
        unbroken(line),
        telemetry_csv::line_outcome(read, line, outcome) ==> outcome == ParseDataLine::Row(row),
{
    let fields = choose|fields: Seq<Seq<char>>| #[trigger]
        telemetry_csv::written_fields(write, row, fields) && line == text::join_commas(fields);
    lemma_decimal_plain(row.timestamp_ms as nat);
    assert(forall|i: int| 0 <= i < 5 ==> plain(#[trigger] fields[i]));
    lemma_five_fields(fields);
    lemma_trimmed(line);
    text::lemma_number_round_trip(row.timestamp_ms);
    lemma_reads_back(read, write, row.gpu_temp_c, fields[1]);
    lemma_reads_back(read, write, row.gpu_power_w, fields[2]);
    lemma_reads_back(read, write, row.cpu_tctl_c, fields[3]);
    lemma_reads_back(read, write, row.cpu_package_power_w, fields[4]);
}

/// A written finite value is always read, and only as itself.
proof fn lemma_reads_back<F: Fn(&str) -> Option<Binary32>, G: Fn(Binary32) -> String>(
    read: F,
    write: G,
    value: Binary32,
    s: Seq<char>,
)
    requires
        agree(read, write),
        value.finite(),
        telemetry_csv::writes(write, value, s),
    ensures
        !telemetry_csv::reads_nothing(read, s),
        forall|v: Binary32| #[trigger] telemetry_csv::reads_finite(read, s, v) ==> v == value,
{
}

/// A plain field put before an unbroken text with a comma between stays unbroken.
proof fn lemma_joined_visible(field: Seq<char>, rest: Seq<char>)
    requires
        plain(field),
        plain(rest) || unbroken(rest),
    ensures
        unbroken(field.push(',') + rest),
{
    let s = field.push(',') + rest;
    assert(s.last() == rest.last());
    assert forall|i: int| 0 <= i < s.len() implies #[trigger] s[i] != '\n' by {
        if i < field.len() {
            assert(s[i] == field[i]);
        } else if i > field.len() {
            assert(s[i] == rest[i - field.len() - 1]);
        }
    }
}

/// Outcomes that are all rows collect to those rows with nothing skipped.
proof fn lemma_all_rows(outcomes: Seq<ParseDataLine>, rows: Seq<TelemetryCsvRow>)
    requires
        outcomes.len() == rows.len(),
        forall|i: int| 0 <= i < rows.len() ==> #[trigger] outcomes[i] == ParseDataLine::Row(rows[i]),
    ensures
        telemetry_csv::rows_of(outcomes) == rows,
        telemetry_csv::malformed_in(outcomes) == 0,
    decreases rows.len(),
{
    if rows.len() > 0 {
        lemma_all_rows(outcomes.drop_last(), rows.drop_last());
        assert(outcomes.last() == ParseDataLine::Row(rows.last()));
        assert(rows.drop_last().push(rows.last()) =~= rows);
    } else {
        assert(rows =~= Seq::<TelemetryCsvRow>::empty());
    }
}

/// Whether `read` may give the finite number `value` for the text `s`.
pub open spec fn may_give<F: Fn(&str) -> Option<Binary32>>(
    read: F,
    s: Seq<char>,
    value: Binary32,
) -> bool {
    value.finite() && exists|t: &str| t@ == s && #[trigger] call_ensures(read, (t,), Some(value))
}

/// Whether `read` gives no finite number for the text `s`, whatever it answers.
pub open spec fn gives_none<F: Fn(&str) -> Option<Binary32>>(read: F, s: Seq<char>) -> bool {
    forall|t: &str, value: Binary32|
        t@ == s && #[trigger] call_ensures(read, (t,), Some(value)) ==> !value.finite()
}

/// Whether `read` gives a finite number for the text `s`, whatever it answers.
pub open spec fn always_gives<F: Fn(&str) -> Option<Binary32>>(read: F, s: Seq<char>) -> bool {
    forall|t: &str, answer: Option<Binary32>|
        t@ == s && #[trigger] call_ensures(read, (t,), answer) ==> (answer matches Some(value)
            && value.finite())
}

/// A data line is decided by its fields as they stand, empty ones included. A
/// row has five fields; its timestamp is the number in the first, and each of
/// its sensor values is one that `read` gave for exactly its own field. If one
/// of those fields has no finite number to give the line is malformed, and so is
/// every line with another number of fields or without a timestamp; if all have
/// one, the line is a row.
pub proof fn lemma_line_is_decided_by_its_fields<F: Fn(&str) -> Option<Binary32>>(
    read: F,
    raw_line: &str,
    before: Seq<char>,
    fields: Seq<Seq<char>>,
    after: Seq<char>,
    outcome: ParseDataLine,
)
    requires
        call_ensures(telemetry_csv::parse_data_line::<F>, (raw_line, &read), outcome),
        fields.len() > 0,
        forall|i: int| 0 <= i < fields.len() ==> text::laws::without_comma(#[trigger] fields[i]),
        raw_line@ == before + text::join_commas(fields) + after,
        text::laws::blank(before),
        text::laws::blank(after),
        text::join_commas(fields).len() > 0,
        text::laws::visible_ends(text::join_commas(fields)),
    ensures
        outcome != ParseDataLine::Empty,
        fields.len() != 5 ==> outcome == ParseDataLine::Malformed,
        fields.len() == 5 ==> {
            &&& outcome matches ParseDataLine::Row(row) ==> {
                &&& text::number_outcome(fields[0]) == Ok::<u64, text::NumberError>(
                    row.timestamp_ms,
                )
                &&& may_give(read, fields[1], row.gpu_temp_c)
                &&& may_give(read, fields[2], row.gpu_power_w)
                &&& may_give(read, fields[3], row.cpu_tctl_c)
                &&& may_give(read, fields[4], row.cpu_package_power_w)
            }
            &&& text::number_outcome(fields[0]) is Err ==> outcome == ParseDataLine::Malformed
            &&& forall|i: int|
                1 <= i < 5 && gives_none(read, #[trigger] fields[i]) ==> outcome
                    == ParseDataLine::Malformed
            &&& text::number_outcome(fields[0]) is Ok && always_gives(read, fields[1])
                && always_gives(read, fields[2]) && always_gives(read, fields[3])
                && always_gives(read, fields[4]) ==> outcome is Row
        },
{
    text::laws::lemma_trimming(before, text::join_commas(fields), after);
    text::laws::lemma_split_undoes_join(fields);
}

/// A line is blank exactly when it holds whitespace alone; it is never counted
/// as malformed, and no other line is taken for blank.
pub proof fn lemma_blank_lines_are_empty<F: Fn(&str) -> Option<Binary32>>(
    read: F,
    raw_line: &str,
    outcome: ParseDataLine,
)
    requires
        call_ensures(telemetry_csv::parse_data_line::<F>, (raw_line, &read), outcome),
    ensures
        outcome == ParseDataLine::Empty <==> text::laws::blank(raw_line@),
{
    let line = raw_line@;
    if text::laws::blank(line) {
        let nothing = Seq::<char>::empty();
        text::laws::lemma_trimming(line, nothing, nothing);
        assert(line + nothing + nothing =~= line);
    } else {
        lemma_not_blank(line);
    }
}

/// Only the canonical header is accepted, with or without whitespace round it,
/// and a refusal shows what stood in its place.
pub proof fn lemma_header_is_exact(
    line: &str,
    before: Seq<char>,
    header: Seq<char>,
    after: Seq<char>,
    outcome: Result<(), TelemetryCsvError>,
    absent: Result<(), TelemetryCsvError>,
)
    requires
        call_ensures(telemetry_csv::validate_header, (Some(line),), outcome),
        call_ensures(telemetry_csv::validate_header, (None::<&str>,), absent),
        line@ == before + header + after,
        text::laws::blank(before),
        text::laws::blank(after),
        text::laws::visible_ends(header),
    ensures
        outcome is Ok <==> header
            == "timestamp_ms,gpu_temp_c,gpu_power_w,cpu_tctl_c,cpu_package_power_w"@,
        outcome matches Err(e) ==> (e matches TelemetryCsvError::HeaderMismatch { path, actual }
            && path is None && actual@ == header),
        absent == Err::<(), TelemetryCsvError>(TelemetryCsvError::Empty { path: None }),
{
    text::laws::lemma_trimming(before, header, after);
}

/// Rows come out in the order of their lines, one for each line that is a row,
/// and every malformed line is counted once: what two stretches of lines give is
/// what the first gives followed by what the second gives.
pub proof fn lemma_rows_follow_the_lines(first: Seq<ParseDataLine>, second: Seq<ParseDataLine>)
    ensures
        telemetry_csv::rows_of(first + second) == telemetry_csv::rows_of(first)
            + telemetry_csv::rows_of(second),
        telemetry_csv::malformed_in(first + second) == telemetry_csv::malformed_in(first)
            + telemetry_csv::malformed_in(second),
    decreases second.len(),
{
    let all = first + second;
    if second.len() == 0 {
        assert(all =~= first);
        assert(telemetry_csv::rows_of(first) + telemetry_csv::rows_of(second)
            =~= telemetry_csv::rows_of(first));
    } else {
        assert(all.last() == second.last());
        assert(all.drop_last() =~= first + second.drop_last());
        lemma_rows_follow_the_lines(first, second.drop_last());
        assert(telemetry_csv::rows_of(all) =~= telemetry_csv::rows_of(first)
            + telemetry_csv::rows_of(second));
    }
}

/// What a single line gives: its row if it is one, a count if it is malformed,
/// and nothing if it is blank.
pub proof fn lemma_single_line(outcome: ParseDataLine)
    ensures
        outcome matches ParseDataLine::Row(row) ==> telemetry_csv::rows_of(seq![outcome])
            == seq![row],
        outcome !is Row ==> telemetry_csv::rows_of(seq![outcome]).len() == 0,
        telemetry_csv::malformed_in(seq![outcome]) == (if outcome == ParseDataLine::Malformed {
            1nat
        } else {
            0
        }),
        telemetry_csv::rows_of(Seq::empty()).len() == 0,
        telemetry_csv::malformed_in(Seq::empty()) == 0,
{
    reveal_with_fuel(telemetry_csv::rows_of, 2);
    reveal_with_fuel(telemetry_csv::malformed_in, 2);
    let one = seq![outcome];
    assert(one.drop_last() =~= Seq::<ParseDataLine>::empty());
    assert(one.last() == outcome);
}

/// How many of some texts are blank.
pub open spec fn blanks(lines: Seq<Seq<char>>) -> nat
    decreases lines.len(),
{
    if lines.len() == 0 {
        0
    } else {
        blanks(lines.drop_last()) + (if text::laws::blank(lines.last()) {
            1nat
        } else {
            0
        })
    }
}

/// Nothing is lost in parsing: behind the header every line is a row, a skipped
/// line or blank.
pub proof fn lemma_every_line_is_accounted_for<F: Fn(&str) -> Option<Binary32>>(
    read: F,
    contents: &str,
    result: LoadResult,
)
    requires
        call_ensures(telemetry_csv::parse_csv::<F>, (contents, &read), Ok(result)),
    ensures
        text::lines(contents@).len() > 0,
        result.rows@.len() + result.skipped + blanks(text::lines(contents@).skip(1)) + 1
            == text::lines(contents@).len(),
{
    let lines = text::lines(contents@).skip(1);
    let outcomes = choose|outcomes: Seq<ParseDataLine>| #[trigger]
        telemetry_csv::line_outcomes(read, lines, outcomes) && result.rows@
            == telemetry_csv::rows_of(outcomes) && result.skipped == telemetry_csv::malformed_in(
            outcomes,
        );
    lemma_lines_counted(read, lines, outcomes);
}

proof fn lemma_lines_counted<F: Fn(&str) -> Option<Binary32>>(
    read: F,
    lines: Seq<Seq<char>>,
    outcomes: Seq<ParseDataLine>,
)
    requires
        telemetry_csv::line_outcomes(read, lines, outcomes),
    ensures
        telemetry_csv::rows_of(outcomes).len() + telemetry_csv::malformed_in(outcomes) + blanks(
            lines,
        ) == lines.len(),
    decreases lines.len(),
{
    if lines.len() > 0 {
        let n = lines.len() - 1;
        let line = lines.last();
        assert forall|i: int| 0 <= i < n implies telemetry_csv::line_outcome(
            read,
            lines.drop_last()[i],
            #[trigger] outcomes.drop_last()[i],
        ) by {
            assert(outcomes.drop_last()[i] == outcomes[i]);
        }
        lemma_lines_counted(read, lines.drop_last(), outcomes.drop_last());
        assert(telemetry_csv::line_outcome(read, line, outcomes[n]));
        assert(outcomes.last() == outcomes[n]);
        let nothing = Seq::<char>::empty();
        if text::laws::blank(line) {
            text::laws::lemma_trimming(line, nothing, nothing);
            assert(line + nothing + nothing =~= line);
        } else {
            lemma_not_blank(line);
        }
    }
}

proof fn lemma_not_blank(line: Seq<char>)
    requires
        !text::laws::blank(line),
    ensures
        text::trimmed(line).len() > 0,
{
    text::laws::lemma_trimmed_is_inside(line);
    let (before, after) = choose|before: Seq<char>, after: Seq<char>| #[trigger]
        text::laws::blank(before) && #[trigger] text::laws::blank(after) && line == before
            + text::trimmed(line) + after;
    if text::trimmed(line).len() == 0 {
        assert forall|i: int| 0 <= i < line.len() implies text::whitespace(#[trigger] line[i]) by {
            if i < before.len() {
                assert(line[i] == before[i]);
            } else {
                assert(line[i] == after[i - before.len()]);
            }
        }
    }
}

/// Replay goes through the rows in order and starts over at the end: the first
/// round gives each row at its own tick, and a full round later the sensors are
/// the same. The timestamp is the tick counted from one.
pub proof fn lemma_replay_goes_round(
    rows: &[TelemetryCsvRow],
    tick: usize,
    later: usize,
    row: Option<TelemetryCsvRow>,
    again: Option<TelemetryCsvRow>,
)
    requires
        call_ensures(telemetry_csv::row_for_tick, (tick, rows), row),
        call_ensures(telemetry_csv::row_for_tick, (later, rows), again),
        rows@.len() > 0,
        later == tick + rows@.len(),
    ensures
        row is Some && again is Some,
        tick < rows@.len() ==> row == Some(
            TelemetryCsvRow { timestamp_ms: (tick + 1) as u64, ..rows@[tick as int] },
        ),
        again->0 == (TelemetryCsvRow { timestamp_ms: again->0.timestamp_ms, ..row->0 }),
        later < u64::MAX ==> row->0.timestamp_ms == tick + 1 && again->0.timestamp_ms == later + 1,
{
    let n = rows@.len() as int;
    vstd::arithmetic::div_mod::lemma_mod_add_multiples_vanish(tick as int, n);
    if tick < n {
        vstd::arithmetic::div_mod::lemma_small_mod(tick as nat, n as nat);
    }
}

/// Loading a file parses what was read and names the file in every error: a read
/// failure with its own words, a missing or wrong header with the path added.
pub proof fn lemma_load_errors_name_the_file<F: Fn(&str) -> Option<Binary32>>(
    read: F,
    path: &str,
    contents: Result<String, String>,
    outcome: Result<LoadResult, TelemetryCsvError>,
)
    requires
        call_ensures(telemetry_csv::load_csv::<F>, (path, contents, &read), outcome),
    ensures
        contents matches Err(words) ==> (outcome matches Err(
            TelemetryCsvError::Io { path: at, source },
        ) && at@ == path@ && source@ == words@),
        contents matches Ok(text) ==> {
            &&& text::lines(text@).len() == 0 ==> (outcome matches Err(
                TelemetryCsvError::Empty { path: at },
            ) && at is Some && at->0@ == path@)
            &&& text::lines(text@).len() > 0 && text::trimmed(text::lines(text@)[0])
                != "timestamp_ms,gpu_temp_c,gpu_power_w,cpu_tctl_c,cpu_package_power_w"@ ==> (
            outcome matches Err(TelemetryCsvError::HeaderMismatch { path: at, actual }) && at is Some
                && at->0@ == path@ && actual@ == text::trimmed(text::lines(text@)[0]))
            &&& text::lines(text@).len() > 0 && text::trimmed(text::lines(text@)[0])
                == "timestamp_ms,gpu_temp_c,gpu_power_w,cpu_tctl_c,cpu_package_power_w"@
                ==> outcome is Ok
        },
{
}

/// A file is usable exactly if it has a row.
pub proof fn lemma_usable_files_have_rows(result: LoadResult, usable: bool)
    requires
        call_ensures(LoadResult::has_usable_rows, (&result,), usable),
    ensures
        usable <==> result.rows@.len() >= 1,
{
}

} // verus!
