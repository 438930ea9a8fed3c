//! Canonical hardware-telemetry CSV interchange contract.
//!
//! The schema is frozen: no column is added, removed, or renamed. Unlike live
//! samples, CSV fields are required finite numbers: a missing sensor is a
//! malformed row, not an absent value.
//!
//! The text form of a number is the caller's: readers take a function from text
//! to value, writers one from value to text.

use crate::binary32::Binary32;
use crate::text;
use crate::text::{comma_parts, parse_number, push_decimal, push_text, text_lines, trim};
use vstd::prelude::*;

pub mod laws;

verus! {

/// Frozen CSV header. Exact match after trim; extra columns fail.
pub const HEADER: &'static str =
    "timestamp_ms,gpu_temp_c,gpu_power_w,cpu_tctl_c,cpu_package_power_w";

/// Number of comma-separated fields in a valid data row.
pub const FIELD_COUNT: usize = 5;

/// One validated hardware-telemetry CSV row.
#[derive(Debug, Clone, Copy, PartialEq, Eq, Structural)]
pub struct TelemetryCsvRow {
    /// Timestamp in milliseconds.
    pub timestamp_ms: u64,
    /// GPU die temperature (°C).
    pub gpu_temp_c: Binary32,
    /// GPU power usage (W).
    pub gpu_power_w: Binary32,
    /// CPU Tctl temperature (°C).
    pub cpu_tctl_c: Binary32,
    /// CPU package power usage (W).
    pub cpu_package_power_w: Binary32,
}

impl TelemetryCsvRow {
    /// Whether every sensor value is a finite number.
    pub open spec fn finite(self) -> bool {
        self.gpu_temp_c.finite() && self.gpu_power_w.finite() && self.cpu_tctl_c.finite()
            && self.cpu_package_power_w.finite()
    }
}

/// Whether `write` may write `value` as the text `s`.
pub open spec fn writes<G: Fn(Binary32) -> String>(write: G, value: Binary32, s: Seq<char>) -> bool {
    exists|t: String| t@ == s && #[trigger] call_ensures(write, (value,), t)
}

/// The fields of a row, as texts: the timestamp, then the sensors as written.
pub open spec fn written_fields<G: Fn(Binary32) -> String>(
    write: G,
    row: TelemetryCsvRow,
    fields: Seq<Seq<char>>,
) -> bool {
    &&& fields.len() == 5
    &&& fields[0] == text::decimal(row.timestamp_ms as nat)
    &&& writes(write, row.gpu_temp_c, fields[1])
    &&& writes(write, row.gpu_power_w, fields[2])
    &&& writes(write, row.cpu_tctl_c, fields[3])
    &&& writes(write, row.cpu_package_power_w, fields[4])
}

/// Whether `line` is a text form of `row`: its fields joined by commas.
pub open spec fn writes_row<G: Fn(Binary32) -> String>(
    write: G,
    row: TelemetryCsvRow,
    line: Seq<char>,
) -> bool {
    exists|fields: Seq<Seq<char>>| #[trigger]
        written_fields(write, row, fields) && line == text::join_commas(fields)
}

fn write_value<G: Fn(Binary32) -> String>(write: &G, value: Binary32) -> (text: String)
    requires
        forall|v: Binary32| call_requires(write, (v,)),
    ensures
        writes(*write, value, text@),
{
    write(value)
}

impl TelemetryCsvRow {
    /// Format this row as a single CSV data line (no trailing newline).
    pub fn to_csv_line<G: Fn(Binary32) -> String>(self, write: &G) -> (line: String)
        requires
            forall|v: Binary32| call_requires(write, (v,)),
        ensures
            writes_row(*write, self, line@),
    {
        let gpu_temp: String = write_value(write, self.gpu_temp_c);
        let gpu_power: String = write_value(write, self.gpu_power_w);
        let cpu_tctl: String = write_value(write, self.cpu_tctl_c);
        let cpu_power: String = write_value(write, self.cpu_package_power_w);
        let mut line: String = String::new();
        push_decimal(&mut line, self.timestamp_ms as u128);
        line.push(',');
        push_text(&mut line, gpu_temp.as_str());
        line.push(',');
        push_text(&mut line, gpu_power.as_str());
        line.push(',');
        push_text(&mut line, cpu_tctl.as_str());
        line.push(',');
        push_text(&mut line, cpu_power.as_str());
        proof {
            let fields = seq![
                text::decimal(self.timestamp_ms as nat),
                gpu_temp@,
                gpu_power@,
                cpu_tctl@,
                cpu_power@,
            ];
            assert(written_fields(*write, self, fields));
            lemma_join_five(fields);
            assert(line@ =~= text::join_commas(fields));
        }
        line
    }
}

/// Five parts joined by commas.
pub proof fn lemma_join_five(fields: Seq<Seq<char>>)
    requires
        fields.len() == 5,
    ensures
        text::join_commas(fields) == fields[0].push(',') + fields[1].push(',') + fields[2].push(',')
            + fields[3].push(',') + fields[4],
{
    reveal_with_fuel(text::join_commas, 6);
    let f4 = fields.drop_last();
    let f3 = f4.drop_last();
    let f2 = f3.drop_last();
    let f1 = f2.drop_last();
    assert(text::join_commas(f1) == fields[0]);
    assert(text::join_commas(f2) == fields[0].push(',') + fields[1]);
    assert(text::join_commas(f3) == (fields[0].push(',') + fields[1]).push(',') + fields[2]);
    assert(text::join_commas(fields) =~= fields[0].push(',') + fields[1].push(',')
        + fields[2].push(',') + fields[3].push(',') + fields[4]);
}

/// Outcome of parsing one physical line after the header.
#[derive(Debug, Clone, Copy, PartialEq, Eq, Structural)]
pub enum ParseDataLine {
    /// Blank or whitespace-only. Not counted as skipped.
    Empty,
    /// Five fields, `u64` timestamp, four finite sensors.
    Row(TelemetryCsvRow),
    /// Wrong field count, non-numeric, or non-finite. Counted as skipped.
    Malformed,
}

/// Whether `read` may read the text `s` as the finite number `value`.
pub open spec fn reads_finite<F: Fn(&str) -> Option<Binary32>>(
    read: F,
    s: Seq<char>,
    value: Binary32,
) -> bool {
    text::reads(read, s, Some(value)) && value.finite()
}

/// Whether `read` may fail to read the text `s` as a finite number.
pub open spec fn reads_nothing<F: Fn(&str) -> Option<Binary32>>(read: F, s: Seq<char>) -> bool {
    exists|value: Option<Binary32>| #[trigger]
        text::reads(read, s, value) && (value matches Some(v) ==> !v.finite())
}

/// Outcomes of parsing one line, given how `read` reads texts. The whole line
/// is trimmed; individual fields are not.
pub open spec fn line_outcome<F: Fn(&str) -> Option<Binary32>>(
    read: F,
    raw_line: Seq<char>,
    outcome: ParseDataLine,
) -> bool {
    let line = text::trimmed(raw_line);
    let fields = text::split_commas(line);
    match outcome {
        ParseDataLine::Empty => line.len() == 0,
        ParseDataLine::Row(row) => {
            &&& line.len() > 0
            &&& fields.len() == FIELD_COUNT
            &&& text::number_outcome(fields[0]) == Ok::<u64, text::NumberError>(row.timestamp_ms)
            &&& reads_finite(read, fields[1], row.gpu_temp_c)
            &&& reads_finite(read, fields[2], row.gpu_power_w)
            &&& reads_finite(read, fields[3], row.cpu_tctl_c)
            &&& reads_finite(read, fields[4], row.cpu_package_power_w)
        },
        ParseDataLine::Malformed => {
            &&& line.len() > 0
            &&& {
                ||| fields.len() != FIELD_COUNT
                ||| text::number_outcome(fields[0]) is Err
                ||| reads_nothing(read, fields[1])
                ||| reads_nothing(read, fields[2])
                ||| reads_nothing(read, fields[3])
                ||| reads_nothing(read, fields[4])
            }
        },
    }
}

fn parse_finite<F: Fn(&str) -> Option<Binary32>>(value: &str, read: &F) -> (parsed: Option<Binary32>)
    requires
        forall|t: &str| call_requires(read, (t,)),
    ensures
        match parsed {
            Some(v) => reads_finite(*read, value@, v),
            None => reads_nothing(*read, value@),
        },
{
    let parsed: Option<Binary32> = text::read_value(value, read);
    match parsed {
        Some(v) => if v.is_finite() {
            Some(v)
        } else {
            None
        },
        None => None,
    }
}

/// Parse one data line.
pub fn parse_data_line<F: Fn(&str) -> Option<Binary32>>(raw_line: &str, read: &F) -> (outcome:
    ParseDataLine)
    requires
        forall|t: &str| call_requires(read, (t,)),
    ensures
        line_outcome(*read, raw_line@, outcome),
{
    let line: String = trim(raw_line);
    if line.as_str().is_empty() {
        return ParseDataLine::Empty;
    }
    let fields: Vec<String> = comma_parts(line.as_str());
    proof {
        assert(text::views(fields@).len() == fields.len());
    }
    if fields.len() != FIELD_COUNT {
        return ParseDataLine::Malformed;
    }
    proof {
        assert(forall|i: int| 0 <= i < 5 ==> text::views(fields@)[i] == (#[trigger] fields@[i])@);
    }
    let timestamp_ms: u64 = match parse_number(fields[0].as_str()) {
        Ok(n) => n,
        Err(_) => return ParseDataLine::Malformed,
    };
    let gpu_temp_c: Binary32 = match parse_finite(fields[1].as_str(), read) {
        Some(v) => v,
        None => return ParseDataLine::Malformed,
    };
    let gpu_power_w: Binary32 = match parse_finite(fields[2].as_str(), read) {
        Some(v) => v,
        None => return ParseDataLine::Malformed,
    };
    let cpu_tctl_c: Binary32 = match parse_finite(fields[3].as_str(), read) {
        Some(v) => v,
        None => return ParseDataLine::Malformed,
    };
    let cpu_package_power_w: Binary32 = match parse_finite(fields[4].as_str(), read) {
        Some(v) => v,
        None => return ParseDataLine::Malformed,
    };
    ParseDataLine::Row(
        TelemetryCsvRow { timestamp_ms, gpu_temp_c, gpu_power_w, cpu_tctl_c, cpu_package_power_w },
    )
}

/// Header or read failure. Malformed *data* rows are skipped, not this error.
#[derive(Debug, PartialEq, Eq)]
#[allow(inconsistent_fields)]
pub enum TelemetryCsvError {
    /// The file could not be read.
    Io {
        /// Path to the CSV file.
        path: String,
        /// Underlying failure, in words.
        source: String,
    },
    /// No header line (empty input).
    Empty {
        /// Path to the CSV file, if there is one.
        path: Option<String>,
    },
    /// Trimmed header is not exactly [`HEADER`].
    HeaderMismatch {
        /// Path to the CSV file, if there is one.
        path: Option<String>,
        /// Actual header encountered.
        actual: String,
    },
}

/// Path as it stands in a message.
pub open spec fn path_text(path: Option<String>) -> Seq<char> {
    match path {
        Some(p) => " '"@ + p@ + "'"@,
        None => Seq::empty(),
    }
}

impl TelemetryCsvError {
    /// Message of the error.
    pub open spec fn wording(self) -> Seq<char> {
        match self {
            TelemetryCsvError::Io { path, source } => "telemetry CSV '"@ + path@
                + "' could not be read: "@ + source@,
            TelemetryCsvError::Empty { path } => "telemetry CSV"@ + path_text(path) + " is empty"@,
            TelemetryCsvError::HeaderMismatch { path, actual } => "telemetry CSV"@ + path_text(path)
                + " header mismatch: expected '"@ + HEADER@ + "', got '"@ + actual@ + "'"@,
        }
    }

    /// The same error with the path it is about. A read failure keeps its own.
    pub open spec fn located(self, at: String) -> TelemetryCsvError {
        match self {
            TelemetryCsvError::Io { path, source } => TelemetryCsvError::Io { path, source },
            TelemetryCsvError::Empty { path } => TelemetryCsvError::Empty { path: Some(at) },
            TelemetryCsvError::HeaderMismatch { path, actual } => TelemetryCsvError::HeaderMismatch {
                path: Some(at),
                actual,
            },
        }
    }

    fn with_path(self, at: String) -> (error: Self)
        ensures
            error == self.located(at),
    {
        match self {
            TelemetryCsvError::Empty { path: _ } => TelemetryCsvError::Empty { path: Some(at) },
            TelemetryCsvError::HeaderMismatch { path: _, actual } => {
                TelemetryCsvError::HeaderMismatch { path: Some(at), actual }
            },
            TelemetryCsvError::Io { path, source } => TelemetryCsvError::Io { path, source },
        }
    }

    /// Message of the error.
    pub fn message(&self) -> (text: String)
        ensures
            text@ == self.wording(),
    {
        let mut text: String = String::new();
        match self {
            TelemetryCsvError::Io { path, source } => {
                push_text(&mut text, "telemetry CSV '");
                push_text(&mut text, path.as_str());
                push_text(&mut text, "' could not be read: ");
                push_text(&mut text, source.as_str());
            },
            TelemetryCsvError::Empty { path } => {
                push_text(&mut text, "telemetry CSV");
                push_path(&mut text, path);
                push_text(&mut text, " is empty");
            },
            TelemetryCsvError::HeaderMismatch { path, actual } => {
                push_text(&mut text, "telemetry CSV");
                push_path(&mut text, path);
                push_text(&mut text, " header mismatch: expected '");
                push_text(&mut text, HEADER);
                push_text(&mut text, "', got '");
                push_text(&mut text, actual.as_str());
                push_text(&mut text, "'");
            },
        }
        proof {
            assert(text@ =~= self.wording());
        }
        text
    }
}

fn push_path(out: &mut String, path: &Option<String>)
    ensures
        final(out)@ == old(out)@ + path_text(*path),
{
    if let Some(p) = path {
        push_text(out, " '");
        push_text(out, p.as_str());
        push_text(out, "'");
    }
    proof {
        assert(out@ =~= old(out)@ + path_text(*path));
    }
}

/// Rows accepted from a CSV plus how many malformed data lines were skipped.
#[derive(Debug, PartialEq, Eq)]
pub struct LoadResult {
    /// Valid telemetry CSV rows parsed.
    pub rows: Vec<TelemetryCsvRow>,
    /// Number of malformed data rows skipped.
    pub skipped: usize,
}

impl LoadResult {
    /// True when the file is ingestible (canonical header and at least one row).
    pub fn has_usable_rows(&self) -> (answer: bool)
        ensures
            answer == (self.rows@.len() > 0),
    {
        self.rows.len() > 0
    }
}

/// Whether `outcome` is that of validating an optional header line.
pub open spec fn header_outcome(
    header_line: Option<Seq<char>>,
    outcome: Result<(), TelemetryCsvError>,
) -> bool {
    match header_line {
        None => outcome == Err::<(), TelemetryCsvError>(TelemetryCsvError::Empty { path: None }),
        Some(line) => if text::trimmed(line) == HEADER@ {
            outcome is Ok
        } else {
            outcome matches Err(TelemetryCsvError::HeaderMismatch { path, actual }) && path is None
                && actual@ == text::trimmed(line)
        },
    }
}

/// Fail fast on a missing or non-canonical header.
pub fn validate_header(header_line: Option<&str>) -> (outcome: Result<(), TelemetryCsvError>)
    ensures
        header_outcome(
            match header_line {
                Some(line) => Some(line@),
                None => None,
            },
            outcome,
        ),
{
    match header_line {
        None => Err(TelemetryCsvError::Empty { path: None }),
        Some(line) => {
            let header: String = trim(line);
            if header == HEADER.to_owned() {
                Ok(())
            } else {
                Err(TelemetryCsvError::HeaderMismatch { path: None, actual: header })
            }
        },
    }
}

/// The rows among line outcomes, in order.
pub open spec fn rows_of(outcomes: Seq<ParseDataLine>) -> Seq<TelemetryCsvRow>
    decreases outcomes.len(),
{
    if outcomes.len() == 0 {
        Seq::empty()
    } else {
        match outcomes.last() {
            ParseDataLine::Row(row) => rows_of(outcomes.drop_last()).push(row),
            _ => rows_of(outcomes.drop_last()),
        }
    }
}

/// How many of the outcomes are malformed.
pub open spec fn malformed_in(outcomes: Seq<ParseDataLine>) -> nat
    decreases outcomes.len(),
{
    if outcomes.len() == 0 {
        0
    } else if outcomes.last() == ParseDataLine::Malformed {
        malformed_in(outcomes.drop_last()) + 1
    } else {
        malformed_in(outcomes.drop_last())
    }
}

/// Whether `outcomes` are outcomes of the given lines.
pub open spec fn line_outcomes<F: Fn(&str) -> Option<Binary32>>(
    read: F,
    lines: Seq<Seq<char>>,
    outcomes: Seq<ParseDataLine>,
) -> bool {
    &&& outcomes.len() == lines.len()
    &&& forall|i: int|
        0 <= i < lines.len() ==> line_outcome(read, lines[i], #[trigger] outcomes[i])
}

/// Whether `result` collects the rows and counts the malformed lines.
pub open spec fn collects<F: Fn(&str) -> Option<Binary32>>(
    read: F,
    lines: Seq<Seq<char>>,
    result: LoadResult,
) -> bool {
    exists|outcomes: Seq<ParseDataLine>| #[trigger]
        line_outcomes(read, lines, outcomes) && result.rows@ == rows_of(outcomes) && result.skipped
            == malformed_in(outcomes)
}

/// Outcomes of parsing a CSV text: header failure, or the rows of the other
/// lines.
pub open spec fn csv_outcome<F: Fn(&str) -> Option<Binary32>>(
    read: F,
    contents: Seq<char>,
    outcome: Result<LoadResult, TelemetryCsvError>,
) -> bool {
    let lines = text::lines(contents);
    let header = if lines.len() > 0 {
        Some(lines[0])
    } else {
        None
    };
    match outcome {
        Ok(result) => header_outcome(header, Ok(())) && collects(read, lines.skip(1), result),
        Err(e) => header_outcome(header, Err(e)),
    }
}

fn collect_rows<F: Fn(&str) -> Option<Binary32>>(lines: &Vec<String>, read: &F) -> (result:
    LoadResult)
    requires
        lines.len() > 0,
        forall|t: &str| call_requires(read, (t,)),
    ensures
        collects(*read, text::views(lines@).skip(1), result),
{
    let mut rows: Vec<TelemetryCsvRow> = Vec::new();
    let mut skipped: usize = 0;
    let ghost data = text::views(lines@).skip(1);
    let ghost mut outcomes: Seq<ParseDataLine> = Seq::empty();
    let mut i: usize = 1;
    while i < lines.len()
        invariant
            1 <= i <= lines.len(),
            data == text::views(lines@).skip(1),
            outcomes.len() == i - 1,
            skipped < i,
            rows@ == rows_of(outcomes),
            skipped == malformed_in(outcomes),
            forall|t: &str| call_requires(read, (t,)),
            forall|j: int|
                0 <= j < outcomes.len() ==> line_outcome(*read, data[j], #[trigger] outcomes[j]),
        decreases lines.len() - i,
    {
        proof {
            assert(data[i - 1] == lines@[i as int]@);
        }
        let outcome: ParseDataLine = parse_data_line(lines[i].as_str(), read);
        match outcome {
            ParseDataLine::Empty => {},
            ParseDataLine::Row(row) => {
                rows.push(row);
            },
            ParseDataLine::Malformed => {
                skipped = skipped + 1;
            },
        }
        proof {
            let longer = outcomes.push(outcome);
            assert(longer.drop_last() =~= outcomes);
            outcomes = longer;
        }
        i = i + 1;
    }
    proof {
        assert(line_outcomes(*read, data, outcomes));
    }
    LoadResult { rows, skipped }
}

/// Parse an in-memory CSV: fail on header mismatch; skip malformed data rows.
pub fn parse_csv<F: Fn(&str) -> Option<Binary32>>(contents: &str, read: &F) -> (outcome: Result<
    LoadResult,
    TelemetryCsvError,
>)
    requires
        forall|t: &str| call_requires(read, (t,)),
    ensures
        csv_outcome(*read, contents@, outcome),
{
    let lines: Vec<String> = text_lines(contents);
    proof {
        assert(text::views(lines@).len() == lines.len());
    }
    let header: Option<&str> = if lines.len() > 0 {
        proof {
            assert(text::views(lines@)[0] == lines@[0]@);
        }
        Some(lines[0].as_str())
    } else {
        None
    };
    match validate_header(header) {
        Err(e) => Err(e),
        Ok(()) => Ok(collect_rows(&lines, read)),
    }
}

/// Apply [`parse_csv`] to what reading the file at `path` gave: its contents,
/// or the failure in words.
pub fn load_csv<F: Fn(&str) -> Option<Binary32>>(
    path: &str,
    contents: Result<String, String>,
    read: &F,
) -> (outcome: Result<LoadResult, TelemetryCsvError>)
    requires
        forall|t: &str| call_requires(read, (t,)),
    ensures
        match contents {
            Err(source) => outcome matches Err(TelemetryCsvError::Io { path: p, source: s }) && p@
                == path@ && s@ == source@,
            Ok(read_text) => match outcome {
                Ok(result) => csv_outcome(*read, read_text@, Ok(result)),
                Err(e) => exists|inner: TelemetryCsvError, at: String|
                    at@ == path@ && e == #[trigger] inner.located(at) && csv_outcome(
                        *read,
                        read_text@,
                        Err(inner),
                    ),
            },
        },
{
    match contents {
        Err(source) => Err(TelemetryCsvError::Io { path: path.to_owned(), source }),
        Ok(read_text) => match parse_csv(read_text.as_str(), read) {
            Ok(result) => Ok(result),
            Err(e) => Err(e.with_path(path.to_owned())),
        },
    }
}

/// Replay wrap-around: `rows[tick % len]`, with `timestamp_ms` rewritten to
/// `tick + 1` so a 1-to-1 join against tick-indexed consumers stays stable
/// regardless of the CSV's absolute timestamps. Empty `rows` gives `None`.
pub fn row_for_tick(tick: usize, rows: &[TelemetryCsvRow]) -> (row: Option<TelemetryCsvRow>)
    ensures
        rows@.len() == 0 ==> row is None,
        rows@.len() > 0 ==> row == Some(
            TelemetryCsvRow {
                timestamp_ms: if tick as int >= u64::MAX {
                    u64::MAX
                } else {
                    (tick + 1) as u64
                },
                ..rows@[tick as int % rows@.len() as int]
            },
        ),
{
    if rows.len() == 0 {
        return None;
    }
    let mut row: TelemetryCsvRow = rows[tick % rows.len()];
    row.timestamp_ms = (tick as u64).saturating_add(1);
    Some(row)
}

/// Texts followed by a line feed each, one after the other.
pub open spec fn joined_lines(lines: Seq<Seq<char>>) -> Seq<char>
    decreases lines.len(),
{
    if lines.len() == 0 {
        Seq::empty()
    } else {
        joined_lines(lines.drop_last()) + lines.last().push('\n')
    }
}

/// Whether `lines` are text forms of `rows`.
pub open spec fn writes_rows<G: Fn(Binary32) -> String>(
    write: G,
    rows: Seq<TelemetryCsvRow>,
    lines: Seq<Seq<char>>,
) -> bool {
    &&& lines.len() == rows.len()
    &&& forall|i: int| 0 <= i < rows.len() ==> writes_row(write, rows[i], #[trigger] lines[i])
}

/// Whether `contents` is a CSV text of `rows`: the header, then their lines.
pub open spec fn writes_csv<G: Fn(Binary32) -> String>(
    write: G,
    rows: Seq<TelemetryCsvRow>,
    contents: Seq<char>,
) -> bool {
    exists|lines: Seq<Seq<char>>| #[trigger]
        writes_rows(write, rows, lines) && contents == HEADER@.push('\n') + joined_lines(lines)
}

/// Serialize rows with the canonical header.
pub fn format_csv<G: Fn(Binary32) -> String>(rows: &[TelemetryCsvRow], write: &G) -> (contents:
    String)
    requires
        forall|v: Binary32| call_requires(write, (v,)),
    ensures
        writes_csv(*write, rows@, contents@),
{
    let mut contents: String = HEADER.to_owned();
    contents.push('\n');
    let ghost mut lines: Seq<Seq<char>> = Seq::empty();
    let mut i: usize = 0;
    proof {
        assert(HEADER@.push('\n') + joined_lines(lines) =~= contents@);
    }
    while i < rows.len()
        invariant
            i <= rows.len(),
            lines.len() == i,
            forall|v: Binary32| call_requires(write, (v,)),
            forall|j: int| 0 <= j < i ==> writes_row(*write, rows@[j], #[trigger] lines[j]),
            contents@ == HEADER@.push('\n') + joined_lines(lines),
        decreases rows.len() - i,
    {
        let line: String = rows[i].to_csv_line(write);
        push_text(&mut contents, line.as_str());
        contents.push('\n');
        proof {
            let longer = lines.push(line@);
            assert(longer.drop_last() =~= lines);
            assert(contents@ =~= HEADER@.push('\n') + joined_lines(longer));
            lines = longer;
        }
        i = i + 1;
    }
    proof {
        assert(writes_rows(*write, rows@, lines));
    }
    contents
}

} // verus!
