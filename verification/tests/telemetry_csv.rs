use thalamic_relay::binary32::Binary32;
use thalamic_relay::telemetry_csv::{
    format_csv, load_csv, parse_csv, parse_data_line, row_for_tick, validate_header,
    ParseDataLine, TelemetryCsvError, TelemetryCsvRow, FIELD_COUNT, HEADER,
};

fn b(value: f32) -> Binary32 {
    Binary32::from_bits(value.to_bits())
}

fn f(value: Binary32) -> f32 {
    f32::from_bits(value.bits)
}

fn read(text: &str) -> Option<Binary32> {
    text.parse::<f32>().ok().map(b)
}

fn write(value: Binary32) -> String {
    format!("{}", f(value))
}

#[test]
fn header_is_the_frozen_five_column_string() {
    assert_eq!(
        HEADER,
        "timestamp_ms,gpu_temp_c,gpu_power_w,cpu_tctl_c,cpu_package_power_w"
    );
    assert_eq!(HEADER.split(',').count(), FIELD_COUNT);
}

#[test]
fn load_csv_accepts_canonical_header_and_parses_rows() {
    let csv = "timestamp_ms,gpu_temp_c,gpu_power_w,cpu_tctl_c,cpu_package_power_w\n\
               1000,60.5,250.0,70.0,120.0\n\
               2000,61.0,252.5,70.5,121.5\n";
    let path = "canonical.csv";
    let loaded = load_csv(path, Ok(csv.to_string()), &read).unwrap();
    assert_eq!(loaded.rows.len(), 2);
    assert_eq!(loaded.skipped, 0);
    assert_eq!(loaded.rows[0].timestamp_ms, 1000);
    assert!((f(loaded.rows[0].gpu_temp_c) - 60.5).abs() < 1e-6);
    assert_eq!(loaded.rows[1].timestamp_ms, 2000);
}

#[test]
fn load_csv_rejects_bad_header() {
    let csv = "t,gpu,gpuw,cpu,cpuw\n1000,60,250,70,120\n";
    let path = "bad_header.csv";
    let err = load_csv(path, Ok(csv.to_string()), &read).unwrap_err();
    assert!(err.message().contains("header mismatch"));
}

#[test]
fn load_csv_rejects_session_label_extension_as_header_mismatch() {
    // gaming-telemetry currently appends session_label; that is not this
    // frozen schema. Exact-match header validation must fail closed.
    let csv = "timestamp_ms,gpu_temp_c,gpu_power_w,cpu_tctl_c,cpu_package_power_w,session_label\n\
               1000,60.5,250.0,70.0,120.0,kcd2\n";
    let err = parse_csv(csv, &read).unwrap_err();
    assert!(err.message().contains("header mismatch"));
}

#[test]
fn load_csv_skips_malformed_short_rows() {
    let csv = "timestamp_ms,gpu_temp_c,gpu_power_w,cpu_tctl_c,cpu_package_power_w\n\
               1000,60.5,250.0,70.0,120.0\n\
               malformed,row\n\
               2000,NaN,250.0,70.0,120.0\n\
               3000,61.0,252.5,70.5,121.5\n";
    let path = "skip_bad.csv";
    let loaded = load_csv(path, Ok(csv.to_string()), &read).unwrap();
    assert_eq!(
        loaded.rows.len(),
        2,
        "expected only the two fully-valid rows"
    );
    assert_eq!(loaded.skipped, 2);
    assert_eq!(loaded.rows[0].timestamp_ms, 1000);
    assert_eq!(loaded.rows[1].timestamp_ms, 3000);
}

#[test]
fn load_csv_skips_non_numeric_fields() {
    let csv = "timestamp_ms,gpu_temp_c,gpu_power_w,cpu_tctl_c,cpu_package_power_w\n\
               1000,abc,250.0,70.0,120.0\n\
               not_a_ts,60.5,250.0,70.0,120.0\n\
               2000,61.0,252.5,70.5,121.5\n";
    let loaded = parse_csv(csv, &read).unwrap();
    assert_eq!(loaded.rows.len(), 1);
    assert_eq!(loaded.skipped, 2);
    assert_eq!(loaded.rows[0].timestamp_ms, 2000);
}

#[test]
fn load_csv_skips_non_finite_and_extra_columns() {
    let csv = "timestamp_ms,gpu_temp_c,gpu_power_w,cpu_tctl_c,cpu_package_power_w\n\
               1000,inf,250.0,70.0,120.0\n\
               1100,-inf,250.0,70.0,120.0\n\
               1200,60.5,250.0,70.0,120.0,extra\n\
               1300,60.5,250.0,70.0,120.0\n";
    let loaded = parse_csv(csv, &read).unwrap();
    assert_eq!(loaded.rows.len(), 1);
    assert_eq!(loaded.skipped, 3);
    assert_eq!(loaded.rows[0].timestamp_ms, 1300);
}

#[test]
fn empty_lines_are_not_counted_as_skipped() {
    let csv = "timestamp_ms,gpu_temp_c,gpu_power_w,cpu_tctl_c,cpu_package_power_w\n\
               \n\
               1000,60.5,250.0,70.0,120.0\n\
               \n";
    let loaded = parse_csv(csv, &read).unwrap();
    assert_eq!(loaded.rows.len(), 1);
    assert_eq!(loaded.skipped, 0);
}

#[test]
fn empty_file_is_an_error() {
    let err = parse_csv("", &read).unwrap_err();
    assert!(err.message().contains("is empty"));
}

#[test]
fn header_only_is_valid_but_has_no_usable_rows() {
    let loaded = parse_csv(HEADER, &read).unwrap();
    assert!(loaded.rows.is_empty());
    assert!(!loaded.has_usable_rows());
    assert_eq!(loaded.skipped, 0);
}

#[test]
fn missing_file_is_io_error() {
    let path = "thalamic_relay_telemetry_csv_does_not_exist.csv";
    let err = load_csv(path, Err("No such file or directory (os error 2)".to_string()), &read)
        .unwrap_err();
    assert!(err.message().contains("could not be read"));
}

#[test]
fn row_for_tick_wraps_around_and_rewrites_timestamp() {
    let rows = vec![
        TelemetryCsvRow {
            timestamp_ms: 111,
            gpu_temp_c: b(10.0),
            gpu_power_w: b(100.0),
            cpu_tctl_c: b(20.0),
            cpu_package_power_w: b(200.0),
        },
        TelemetryCsvRow {
            timestamp_ms: 222,
            gpu_temp_c: b(30.0),
            gpu_power_w: b(300.0),
            cpu_tctl_c: b(40.0),
            cpu_package_power_w: b(400.0),
        },
    ];
    let snap0 = row_for_tick(0, &rows).unwrap();
    let snap3 = row_for_tick(3, &rows).unwrap();
    assert!((f(snap0.gpu_temp_c) - 10.0).abs() < 1e-6);
    assert!((f(snap3.gpu_temp_c) - 30.0).abs() < 1e-6);
    assert_eq!(snap0.timestamp_ms, 1);
    assert_eq!(snap3.timestamp_ms, 4);
}

#[test]
fn row_for_tick_empty_is_none() {
    assert!(row_for_tick(0, &[]).is_none());
}

#[test]
fn format_csv_round_trips_through_parse() {
    let rows = [TelemetryCsvRow {
        timestamp_ms: 1000,
        gpu_temp_c: b(60.5),
        gpu_power_w: b(250.0),
        cpu_tctl_c: b(70.0),
        cpu_package_power_w: b(120.0),
    }];
    let loaded = parse_csv(&format_csv(&rows, &write), &read).unwrap();
    assert_eq!(loaded.skipped, 0);
    assert_eq!(loaded.rows[0].timestamp_ms, 1000);
    assert!((f(loaded.rows[0].gpu_temp_c) - 60.5).abs() < 1e-6);
    assert!((f(loaded.rows[0].gpu_power_w) - 250.0).abs() < 1e-6);
}

#[test]
fn trimmed_header_whitespace_is_accepted() {
    let csv = "  timestamp_ms,gpu_temp_c,gpu_power_w,cpu_tctl_c,cpu_package_power_w  \n\
                1000,60.5,250.0,70.0,120.0\n";
    let loaded = parse_csv(csv, &read).unwrap();
    assert_eq!(loaded.rows.len(), 1);
}

#[test]
fn messages_name_the_file_and_the_headers() {
    let io = load_csv("a.csv", Err("denied".to_string()), &read).unwrap_err();
    assert_eq!(io, TelemetryCsvError::Io { path: "a.csv".into(), source: "denied".into() });
    assert_eq!(io.message(), "telemetry CSV 'a.csv' could not be read: denied");
    let empty = load_csv("a.csv", Ok(String::new()), &read).unwrap_err();
    assert_eq!(empty.message(), "telemetry CSV 'a.csv' is empty");
    let header = load_csv("a.csv", Ok("x\n".to_string()), &read).unwrap_err();
    assert_eq!(
        header.message(),
        format!("telemetry CSV 'a.csv' header mismatch: expected '{HEADER}', got 'x'")
    );
    assert_eq!(validate_header(None).unwrap_err().message(), "telemetry CSV is empty");
    assert!(validate_header(Some(HEADER)).is_ok());
}

#[test]
fn fields_are_not_trimmed_one_by_one() {
    assert_eq!(parse_data_line("1000, 60.5,250,70,120", &read), ParseDataLine::Malformed);
    assert_eq!(parse_data_line(" \t ", &read), ParseDataLine::Empty);
    assert_eq!(
        parse_data_line(" 1000,60.5,250,70,120 ", &read),
        ParseDataLine::Row(TelemetryCsvRow {
            timestamp_ms: 1000,
            gpu_temp_c: b(60.5),
            gpu_power_w: b(250.0),
            cpu_tctl_c: b(70.0),
            cpu_package_power_w: b(120.0),
        })
    );
}

#[test]
fn written_rows_read_back_bit_for_bit() {
    let rows: Vec<TelemetryCsvRow> = [0.1f32, -0.0, 1e-40, 3.4e38, 65.55]
        .iter()
        .enumerate()
        .map(|(i, v)| TelemetryCsvRow {
            timestamp_ms: u64::MAX - i as u64,
            gpu_temp_c: b(*v),
            gpu_power_w: b(v / 3.0),
            cpu_tctl_c: b(v * 0.5),
            cpu_package_power_w: b(-v),
        })
        .collect();
    let text = format_csv(&rows, &write);
    let loaded = parse_csv(&text, &read).unwrap();
    assert_eq!(loaded.rows, rows);
    assert_eq!(loaded.skipped, 0);
    assert!(text.starts_with(HEADER));
    assert_eq!(
        rows[0].to_csv_line(&write),
        format!("{},0.1,{},0.05,-0.1", u64::MAX, 0.1f32 / 3.0)
    );
}
