//! Deterministic fixtures for the telemetry contract.

use crate::binary32;
use crate::binary32::laws;
use crate::binary32::{Binary32, NOT_A_NUMBER_BITS};
use crate::telemetry::{RawTelemetry, TelemetrySource};
use crate::text;
use crate::text::{comma_parts, describe_cell, push_decimal, push_text, quote, text_lines, trim};
use crate::time;
use crate::time::{parse_source_timestamp_field, TimestampOrigin, UnixMillis};
use vstd::arithmetic::power2::*;
use vstd::prelude::*;

verus! {

/// Fixed timestamp so tests do not depend on wall clock.
pub const NOW: UnixMillis = 1_700_000_000_000;

/// CSV header shared by replay fixtures: source time then two safety signals.
pub const CSV_HEADER: &'static str = "source_unix_ms,gpu_temp_c,power_w";

/// Duplicate, backward, missing, and very large source timestamps.
pub const CSV_SOURCE_TIME_FIXTURE: &'static str = "source_unix_ms,gpu_temp_c,power_w\n1700000000000,65,200\n1700000000000,66,201\n1699999990000,64,190\n,65,200\n18446744073709551615,65,200\n";

/// Healthy NVML-like readings: 65 °C, 72 °C video memory, 200 W, 0.91 V,
/// 1500 MHz, 6000 MHz memory, 40 % fan and a legitimate 0 % utilization.
pub open spec fn healthy_at(source_unix_ms: Option<UnixMillis>) -> RawTelemetry {
    RawTelemetry {
        source_unix_ms,
        timestamp_origin: TimestampOrigin::LiveAcquire,
        source: TelemetrySource::Nvml,
        gpu_temp_c: Some(Binary32 { bits: 0x4282_0000 }),
        vram_temp_c: Some(Binary32 { bits: 0x4290_0000 }),
        power_w: Some(Binary32 { bits: 0x4348_0000 }),
        vddcr_gfx_v: Some(Binary32 { bits: 0x3f68_f5c3 }),
        gpu_clock_mhz: Some(Binary32 { bits: 0x44bb_8000 }),
        mem_clock_mhz: Some(Binary32 { bits: 0x45bb_8000 }),
        fan_speed_pct: Some(Binary32 { bits: 0x4220_0000 }),
        mem_util_pct: Some(Binary32 { bits: 0 }),
    }
}

fn nvml_at(source_unix_ms: Option<UnixMillis>) -> (raw: RawTelemetry)
    ensures
        raw == healthy_at(source_unix_ms),
{
    RawTelemetry {
        source_unix_ms,
        timestamp_origin: TimestampOrigin::LiveAcquire,
        source: TelemetrySource::Nvml,
        gpu_temp_c: Some(Binary32 { bits: 0x4282_0000 }),
        vram_temp_c: Some(Binary32 { bits: 0x4290_0000 }),
        power_w: Some(Binary32 { bits: 0x4348_0000 }),
        vddcr_gfx_v: Some(Binary32 { bits: 0x3f68_f5c3 }),
        gpu_clock_mhz: Some(Binary32 { bits: 0x44bb_8000 }),
        mem_clock_mhz: Some(Binary32 { bits: 0x45bb_8000 }),
        fan_speed_pct: Some(Binary32 { bits: 0x4220_0000 }),
        mem_util_pct: Some(Binary32 { bits: 0 }),
    }
}

/// Healthy NVML-like readings, including a legitimate utilization of zero.
pub fn healthy_real() -> (raw: RawTelemetry)
    ensures
        raw == healthy_at(Some(NOW)),
{
    nvml_at(Some(NOW))
}

/// Software-only idle estimates (explicit fallback provenance).
pub fn software_fallback() -> (raw: RawTelemetry)
    ensures
        raw == RawTelemetry::idle_estimates(NOW),
{
    RawTelemetry::software_fallback(NOW)
}

/// NVML unavailable: all channels missing, fail-closed safety path.
pub fn nvml_unavailable() -> (raw: RawTelemetry)
    ensures
        raw == RawTelemetry::unavailable(NOW),
{
    RawTelemetry::nvml_unavailable(NOW)
}

/// Same engineering values as [`healthy_real`] but observed 10 s ago.
pub fn stale() -> (raw: RawTelemetry)
    ensures
        raw == healthy_at(Some((NOW - 10_000) as u64)),
{
    nvml_at(Some(NOW - 10_000))
}

/// NVML path with power sensor dropout (absent, not zero).
pub fn sensor_dropout() -> (raw: RawTelemetry)
    ensures
        raw == (RawTelemetry {
            power_w: None,
            vddcr_gfx_v: None,
            fan_speed_pct: None,
            ..healthy_at(Some(NOW))
        }),
{
    let mut raw: RawTelemetry = healthy_real();
    raw.power_w = None;
    raw.vddcr_gfx_v = None;
    raw.fan_speed_pct = None;
    raw
}

/// Power that is not a number; temperature still present.
pub fn non_finite() -> (raw: RawTelemetry)
    ensures
        raw == (RawTelemetry {
            power_w: Some(Binary32 { bits: NOT_A_NUMBER_BITS }),
            ..healthy_at(Some(NOW))
        }),
{
    let mut raw: RawTelemetry = healthy_real();
    raw.power_w = Some(Binary32 { bits: NOT_A_NUMBER_BITS });
    raw
}

/// GPU temperature of 200 °C, far outside the engineering range.
pub fn out_of_range() -> (raw: RawTelemetry)
    ensures
        raw == (RawTelemetry {
            gpu_temp_c: Some(Binary32 { bits: 0x4348_0000 }),
            ..healthy_at(Some(NOW))
        }),
{
    let mut raw: RawTelemetry = healthy_real();
    raw.gpu_temp_c = Some(Binary32 { bits: 0x4348_0000 });
    raw
}

/// NVML readings of 0 °C and 25 W. These are real, not simulated.
pub fn nvml_looks_like_old_magic() -> (raw: RawTelemetry)
    ensures
        raw == (RawTelemetry {
            timestamp_origin: TimestampOrigin::LiveAcquire,
            source: TelemetrySource::Nvml,
            gpu_temp_c: Some(Binary32 { bits: 0 }),
            ..RawTelemetry::idle_estimates(NOW)
        }),
{
    let mut raw: RawTelemetry = RawTelemetry::software_fallback(NOW);
    raw.timestamp_origin = TimestampOrigin::LiveAcquire;
    raw.source = TelemetrySource::Nvml;
    raw.gpu_temp_c = Some(Binary32 { bits: 0 });
    raw
}

/// CSV replay of a row with the given source timestamp.
pub open spec fn replayed(source_unix_ms: Option<UnixMillis>) -> RawTelemetry {
    RawTelemetry { timestamp_origin: TimestampOrigin::CsvSource, ..healthy_at(source_unix_ms) }
}

fn csv_at(source_unix_ms: Option<UnixMillis>) -> (raw: RawTelemetry)
    ensures
        raw == replayed(source_unix_ms),
{
    let mut raw: RawTelemetry = nvml_at(source_unix_ms);
    raw.timestamp_origin = TimestampOrigin::CsvSource;
    raw
}

/// Duplicate of [`healthy_real`]'s source timestamp (a repeated CSV row).
pub fn duplicate_source_timestamp() -> (raw: RawTelemetry)
    ensures
        raw == replayed(Some(NOW)),
{
    csv_at(Some(NOW))
}

/// Source timestamp earlier than [`NOW`] (a CSV row out of order).
pub fn backward_source_timestamp() -> (raw: RawTelemetry)
    ensures
        raw == replayed(Some((NOW - 1_000) as u64)),
{
    csv_at(Some(NOW - 1_000))
}

/// CSV cell left blank: no source wall time.
pub fn missing_source_timestamp() -> (raw: RawTelemetry)
    ensures
        raw == replayed(None),
{
    csv_at(None)
}

/// Source timestamp of `u64::MAX`.
pub fn very_large_source_timestamp() -> (raw: RawTelemetry)
    ensures
        raw == replayed(Some(u64::MAX)),
{
    csv_at(Some(u64::MAX))
}

/// Message for a cell that is no number.
pub open spec fn unreadable(name: Seq<char>, cell: Seq<char>) -> Seq<char> {
    text::cell_message(name, text::quoted(cell), "invalid float literal"@)
}

/// Outcomes of an optional number cell, given how `read` reads texts: blank is
/// absent, a readable text is its value, any other text is an error.
pub open spec fn optional_cell<F: Fn(&str) -> Option<Binary32>>(
    read: F,
    field: Seq<char>,
    name: Seq<char>,
    outcome: Result<Option<Binary32>, Seq<char>>,
) -> bool {
    let cell = text::trimmed(field);
    match outcome {
        Ok(None) => cell.len() == 0,
        Ok(Some(v)) => cell.len() > 0 && text::reads(read, cell, Some(v)),
        Err(message) => cell.len() > 0 && text::reads(read, cell, None) && message == unreadable(
            name,
            cell,
        ),
    }
}

fn parse_optional<F: Fn(&str) -> Option<Binary32>>(field: &str, name: &str, read: &F) -> (outcome:
    Result<Option<Binary32>, String>)
    requires
        forall|t: &str| call_requires(read, (t,)),
    ensures
        match outcome {
            Ok(value) => optional_cell(*read, field@, name@, Ok(value)),
            Err(message) => optional_cell(*read, field@, name@, Err(message@)),
        },
{
    let cell: String = trim(field);
    if cell.as_str().is_empty() {
        return Ok(None);
    }
    match text::read_value(cell.as_str(), read) {
        Some(v) => Ok(Some(v)),
        None => {
            let quoted_cell: String = quote(cell.as_str());
            Err(describe_cell(name, quoted_cell.as_str(), "invalid float literal"))
        },
    }
}

/// Message for a row that does not have three columns.
pub open spec fn wrong_columns(line: Seq<char>) -> Seq<char> {
    "expected 3 CSV columns (source_unix_ms,gpu_temp_c,power_w), got "@ + text::decimal(
        text::split_commas(line).len(),
    ) + ": "@ + line
}

/// Outcomes of reading one `source_unix_ms,gpu_temp_c,power_w` row, given how
/// `read` reads texts. The first column that fails decides the error.
pub open spec fn row_outcome<F: Fn(&str) -> Option<Binary32>>(
    read: F,
    line: Seq<char>,
    outcome: Result<RawTelemetry, Seq<char>>,
) -> bool {
    let cols = text::split_commas(line);
    match outcome {
        Ok(raw) => {
            &&& cols.len() == 3
            &&& time::timestamp_field_outcome(cols[0]) == Ok::<Option<UnixMillis>, Seq<char>>(
                raw.source_unix_ms,
            )
            &&& optional_cell(read, cols[1], "gpu_temp_c"@, Ok(raw.gpu_temp_c))
            &&& optional_cell(read, cols[2], "power_w"@, Ok(raw.power_w))
            &&& raw == (RawTelemetry {
                source_unix_ms: raw.source_unix_ms,
                timestamp_origin: TimestampOrigin::CsvSource,
                source: TelemetrySource::SoftwareFallback,
                gpu_temp_c: raw.gpu_temp_c,
                vram_temp_c: None,
                power_w: raw.power_w,
                vddcr_gfx_v: None,
                gpu_clock_mhz: None,
                mem_clock_mhz: None,
                fan_speed_pct: None,
                mem_util_pct: None,
            })
        },
        Err(message) => {
            ||| cols.len() != 3 && message == wrong_columns(line)
            ||| cols.len() == 3 && time::timestamp_field_outcome(cols[0]) == Err::<
                Option<UnixMillis>,
                Seq<char>,
            >(message)
            ||| cols.len() == 3 && time::timestamp_field_outcome(cols[0]) is Ok && optional_cell(
                read,
                cols[1],
                "gpu_temp_c"@,
                Err(message),
            )
            ||| cols.len() == 3 && time::timestamp_field_outcome(cols[0]) is Ok && (exists|
                v: Option<Binary32>,
            | #[trigger]
                optional_cell(read, cols[1], "gpu_temp_c"@, Ok(v))) && optional_cell(
                read,
                cols[2],
                "power_w"@,
                Err(message),
            )
        },
    }
}

/// Parse one `source_unix_ms,gpu_temp_c,power_w` CSV row into a raw bag.
///
/// An empty source cell is a missing source time. `read` turns the text of a
/// number into its value, or none if it is no number.
pub fn raw_from_csv_row<F: Fn(&str) -> Option<Binary32>>(line: &str, read: &F) -> (outcome: Result<
    RawTelemetry,
    String,
>)
    requires
        forall|t: &str| call_requires(read, (t,)),
    ensures
        match outcome {
            Ok(raw) => row_outcome(*read, line@, Ok(raw)),
            Err(message) => row_outcome(*read, line@, Err(message@)),
        },
{
    let cols: Vec<String> = comma_parts(line);
    proof {
        assert(text::views(cols@).len() == cols.len());
    }
    if cols.len() != 3 {
        let mut message: String = String::new();
        push_text(
            &mut message,
            "expected 3 CSV columns (source_unix_ms,gpu_temp_c,power_w), got ",
        );
        push_decimal(&mut message, cols.len() as u128);
        push_text(&mut message, ": ");
        push_text(&mut message, line);
        proof {
            assert(message@ =~= wrong_columns(line@));
        }
        return Err(message);
    }
    proof {
        assert(text::views(cols@)[0] == cols@[0]@);
        assert(text::views(cols@)[1] == cols@[1]@);
        assert(text::views(cols@)[2] == cols@[2]@);
    }
    let source_unix_ms: Option<UnixMillis> = match parse_source_timestamp_field(cols[0].as_str()) {
        Ok(time) => time,
        Err(message) => return Err(message),
    };
    let gpu_temp_c: Option<Binary32> = match parse_optional(cols[1].as_str(), "gpu_temp_c", read) {
        Ok(value) => value,
        Err(message) => return Err(message),
    };
    let power_w: Option<Binary32> = match parse_optional(cols[2].as_str(), "power_w", read) {
        Ok(value) => value,
        Err(message) => return Err(message),
    };
    Ok(
        RawTelemetry {
            source_unix_ms,
            timestamp_origin: TimestampOrigin::CsvSource,
            source: TelemetrySource::SoftwareFallback,
            gpu_temp_c,
            vram_temp_c: None,
            power_w,
            vddcr_gfx_v: None,
            gpu_clock_mhz: None,
            mem_clock_mhz: None,
            fan_speed_pct: None,
            mem_util_pct: None,
        },
    )
}

/// The non-empty ones of the first `n` lines.
pub open spec fn non_empty(lines: Seq<Seq<char>>, n: int) -> Seq<Seq<char>>
    decreases n,
{
    if n <= 0 {
        Seq::empty()
    } else if lines[n - 1].len() == 0 {
        non_empty(lines, n - 1)
    } else {
        non_empty(lines, n - 1).push(lines[n - 1])
    }
}

/// Data rows of a CSV text: its non-empty lines after the first.
pub open spec fn data_rows(contents: Seq<char>) -> Seq<Seq<char>> {
    let lines = text::lines(contents);
    let rows = non_empty(lines, lines.len() as int);
    if rows.len() == 0 {
        rows
    } else {
        rows.skip(1)
    }
}

/// Data rows of [`CSV_SOURCE_TIME_FIXTURE`] (header skipped), each parsed.
pub fn csv_source_time_rows<F: Fn(&str) -> Option<Binary32>>(read: &F) -> (rows: Vec<
    Result<RawTelemetry, String>,
>)
    requires
        forall|t: &str| call_requires(read, (t,)),
    ensures
        rows.len() == data_rows(CSV_SOURCE_TIME_FIXTURE@).len(),
        forall|i: int|
            0 <= i < rows.len() ==> match #[trigger] rows@[i] {
                Ok(raw) => row_outcome(*read, data_rows(CSV_SOURCE_TIME_FIXTURE@)[i], Ok(raw)),
                Err(message) => row_outcome(
                    *read,
                    data_rows(CSV_SOURCE_TIME_FIXTURE@)[i],
                    Err(message@),
                ),
            },
{
    let lines: Vec<String> = text_lines(CSV_SOURCE_TIME_FIXTURE);
    let ghost all = text::lines(CSV_SOURCE_TIME_FIXTURE@);
    let mut rows: Vec<Result<RawTelemetry, String>> = Vec::new();
    let mut seen: usize = 0;
    let mut i: usize = 0;
    while i < lines.len()
        invariant
            i <= lines.len(),
            seen <= i,
            text::views(lines@) == all,
            seen == non_empty(all, i as int).len(),
            rows.len() == (if seen > 0 {
                seen - 1
            } else {
                0
            }),
            forall|t: &str| call_requires(read, (t,)),
            forall|j: int|
                0 <= j < rows.len() ==> match #[trigger] rows@[j] {
                    Ok(raw) => row_outcome(*read, non_empty(all, i as int)[j + 1], Ok(raw)),
                    Err(message) => row_outcome(
                        *read,
                        non_empty(all, i as int)[j + 1],
                        Err(message@),
                    ),
                },
        decreases lines.len() - i,
    {
        proof {
            assert(all[i as int] == lines@[i as int]@);
        }
        let line: &str = lines[i].as_str();
        if !line.is_empty() {
            if seen > 0 {
                rows.push(raw_from_csv_row(line, read));
            }
            seen = seen + 1;
        }
        i = i + 1;
    }
    proof {
        assert(all.len() == lines.len());
    }
    rows
}

/// Whether `value` is what an optional cell may hold: nothing for a blank cell,
/// and otherwise what `read` may give for exactly the text between the
/// whitespace.
pub open spec fn holds<F: Fn(&str) -> Option<Binary32>>(
    read: F,
    cell: Seq<char>,
    value: Option<Binary32>,
) -> bool {
    &&& value is None <==> cell.len() == 0
    &&& value is Some ==> exists|t: &str| t@ == cell && #[trigger] call_ensures(read, (t,), value)
}

/// A replayed row is decided by its three columns, with or without whitespace
/// round their cells. A row has the time of its first cell, if that is not
/// blank, and the readings of the other two; it has no other reading and never
/// claims to come from a device. A cell that cannot be read is an error, and so
/// is every other number of columns.
pub proof fn lemma_replayed_row<F: Fn(&str) -> Option<Binary32>>(
    read: F,
    line: &str,
    before: Seq<Seq<char>>,
    cells: Seq<Seq<char>>,
    after: Seq<Seq<char>>,
    cols: Seq<Seq<char>>,
    outcome: Result<RawTelemetry, String>,
)
    requires
        call_ensures(raw_from_csv_row::<F>, (line, &read), outcome),
        cols.len() > 0,
        before.len() == cols.len() && cells.len() == cols.len() && after.len() == cols.len(),
        forall|i: int|
            0 <= i < cols.len() ==> {
                &&& #[trigger] cols[i] == before[i] + cells[i] + after[i]
                &&& text::laws::without_comma(cols[i])
                &&& text::laws::blank(before[i])
                &&& text::laws::blank(after[i])
                &&& text::laws::visible_ends(cells[i])
            },
        line@ == text::join_commas(cols),
    ensures
        cols.len() != 3 ==> outcome is Err,
        cols.len() == 3 ==> {
            &&& outcome matches Ok(raw) ==> {
                &&& raw.source_unix_ms is None <==> cells[0].len() == 0
                &&& raw.source_unix_ms matches Some(at) ==> text::number_outcome(cells[0]) == Ok::<
                    u64,
                    text::NumberError,
                >(at)
                &&& holds(read, cells[1], raw.gpu_temp_c)
                &&& holds(read, cells[2], raw.power_w)
                &&& raw.source == TelemetrySource::SoftwareFallback
                &&& raw.timestamp_origin == TimestampOrigin::CsvSource
                &&& raw.vram_temp_c is None && raw.vddcr_gfx_v is None && raw.gpu_clock_mhz is None
                &&& raw.mem_clock_mhz is None && raw.fan_speed_pct is None && raw.mem_util_pct is None
            }
            &&& cells[0].len() > 0 && text::number_outcome(cells[0]) is Err ==> outcome is Err
            &&& cells[0].len() == 0 && cells[1].len() == 0 && cells[2].len() == 0 ==> outcome is Ok
        },
{
    text::laws::lemma_split_undoes_join(cols);
    if cols.len() == 3 {
        assert(cols[0] == before[0] + cells[0] + after[0]);
        assert(cols[1] == before[1] + cells[1] + after[1]);
        assert(cols[2] == before[2] + cells[2] + after[2]);
        text::laws::lemma_trimming(before[0], cells[0], after[0]);
        text::laws::lemma_trimming(before[1], cells[1], after[1]);
        text::laws::lemma_trimming(before[2], cells[2], after[2]);
    }
}

/// The healthy readings: 65 and 72 degrees, 200 W, 0.91 V, 1500 and 6000 MHz,
/// 40% fan and a utilization of zero; the replayed ones differ only in where
/// their time comes from.
pub proof fn lemma_healthy_readings(at: Option<UnixMillis>)
    ensures
        ({
            let one = binary32::one_in_units();
            let raw = healthy_at(at);
            &&& raw.gpu_temp_c is Some && raw.gpu_temp_c->0.units() == 65 * one
            &&& raw.vram_temp_c is Some && raw.vram_temp_c->0.units() == 72 * one
            &&& raw.power_w is Some && raw.power_w->0.units() == 200 * one
            &&& raw.vddcr_gfx_v is Some && binary32::is_nearest(
                91 * one,
                100,
                raw.vddcr_gfx_v->0.bits as int,
            )
            &&& raw.gpu_clock_mhz is Some && raw.gpu_clock_mhz->0.units() == 1500 * one
            &&& raw.mem_clock_mhz is Some && raw.mem_clock_mhz->0.units() == 6000 * one
            &&& raw.fan_speed_pct is Some && raw.fan_speed_pct->0.units() == 40 * one
            &&& raw.mem_util_pct is Some && raw.mem_util_pct->0.units() == 0
            &&& raw.source == TelemetrySource::Nvml
            &&& raw.source_unix_ms == at
            &&& raw.timestamp_origin == TimestampOrigin::LiveAcquire
            &&& replayed(at).timestamp_origin == TimestampOrigin::CsvSource
            &&& replayed(at) == (RawTelemetry {
                timestamp_origin: TimestampOrigin::CsvSource,
                ..raw
            })
        }),
{
    lemma2_to64();
    laws::lemma_whole(0x4282_0000, 0x82_0000, 132, 65, 17);
    laws::lemma_whole(0x4290_0000, 0x90_0000, 132, 72, 17);
    laws::lemma_whole(0x4348_0000, 0xc8_0000, 133, 200, 16);
    laws::lemma_share(0x3f68_f5c3, 0xe8_f5c3, 125, 24, 91, 100);
    laws::lemma_whole(0x44bb_8000, 0xbb_8000, 136, 1500, 13);
    laws::lemma_whole(0x45bb_8000, 0xbb_8000, 138, 6000, 11);
    laws::lemma_whole(0x4220_0000, 0xa0_0000, 131, 40, 18);
    binary32::lemma_units_signs(Binary32 { bits: 0 });
}

} // verus!
