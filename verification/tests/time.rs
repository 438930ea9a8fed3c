use thalamic_relay::time::{
    freshness_millis, freshness_nanos, generate_session_id, parse_source_timestamp_field,
    saturated_millis, unix_now_ms, SampleClock, SessionSeed, SessionSeeds, SourceTimeStatus,
    TimestampOrigin, UnixMillis,
};

const NOW: UnixMillis = 1_700_000_000_000;

fn freshness_seconds(received_at: Option<UnixMillis>, now: UnixMillis) -> f64 {
    freshness_millis(received_at, now) as f64 / 1000.0
}

fn freshness_seconds_monotonic(received_at: Option<u128>, now: u128) -> f64 {
    freshness_nanos(received_at, now) as f64 / 1e9
}

fn seed(discriminator: u64) -> SessionSeed {
    SessionSeed { pid: 7, nanos: 1_700_000_000_000_000_000, discriminator }
}

#[test]
fn sample_clock_is_strictly_increasing_within_one_session() {
    let mut clock = SampleClock::with_session_id("sess-a");
    let mut prev = None;
    for i in 0_u64..8 {
        let t = clock.stamp(
            Some(NOW + i * 100),
            NOW + 1_000,
            TimestampOrigin::LiveAcquire,
        );
        assert_eq!(t.session_id, "sess-a");
        assert_eq!(t.batch_id, i);
        if let Some(p) = prev {
            assert!(t.batch_id > p, "batch_id must be strictly increasing");
        }
        prev = Some(t.batch_id);
    }
    assert_eq!(clock.peek_batch_id(), 8);
}

#[test]
fn duplicate_source_timestamps_do_not_regress_the_sample_clock() {
    let mut clock = SampleClock::with_session_id("sess-dup");
    let a = clock.stamp(Some(NOW), NOW + 10, TimestampOrigin::CsvSource);
    let b = clock.stamp(Some(NOW), NOW + 20, TimestampOrigin::CsvSource);
    assert_eq!(a.source_time_status, SourceTimeStatus::InOrder);
    assert_eq!(b.source_time_status, SourceTimeStatus::Duplicate);
    assert!(b.source_time_status.is_source_regression());
    assert_eq!(a.batch_id, 0);
    assert_eq!(b.batch_id, 1);
    assert_eq!(a.source_unix_ms, b.source_unix_ms);
    assert!(b.received_at_unix_ms > a.received_at_unix_ms);
    assert_eq!(a.session_id, b.session_id);
}

#[test]
fn backward_source_timestamps_do_not_regress_the_sample_clock() {
    let mut clock = SampleClock::with_session_id("sess-back");
    let a = clock.stamp(Some(NOW + 5_000), NOW + 5_000, TimestampOrigin::CsvSource);
    let b = clock.stamp(Some(NOW), NOW + 5_100, TimestampOrigin::CsvSource);
    assert_eq!(a.source_time_status, SourceTimeStatus::InOrder);
    assert_eq!(b.source_time_status, SourceTimeStatus::Backward);
    assert!(b.source_time_status.is_source_regression());
    assert!(b.batch_id > a.batch_id);
    assert!(b.source_unix_ms.unwrap() < a.source_unix_ms.unwrap());
}

#[test]
fn missing_source_timestamp_is_flagged_and_clock_still_advances() {
    let mut clock = SampleClock::with_session_id("sess-miss");
    let a = clock.stamp(Some(NOW), NOW, TimestampOrigin::CsvSource);
    let b = clock.stamp(None, NOW + 100, TimestampOrigin::CsvSource);
    let c = clock.stamp(Some(NOW + 200), NOW + 200, TimestampOrigin::CsvSource);
    assert_eq!(b.source_time_status, SourceTimeStatus::Missing);
    assert_eq!(b.source_unix_ms, None);
    assert_eq!(a.batch_id, 0);
    assert_eq!(b.batch_id, 1);
    assert_eq!(c.batch_id, 2);
    assert_eq!(c.source_time_status, SourceTimeStatus::InOrder);
}

#[test]
fn very_large_source_timestamp_is_future_and_does_not_regress_clock() {
    let mut clock = SampleClock::with_session_id("sess-huge");
    let a = clock.stamp(Some(NOW), NOW, TimestampOrigin::CsvSource);
    let huge = clock.stamp(Some(u64::MAX), NOW, TimestampOrigin::CsvSource);
    let after = clock.stamp(Some(NOW + 1), NOW + 1, TimestampOrigin::CsvSource);
    assert_eq!(huge.source_time_status, SourceTimeStatus::Future);
    assert_eq!(huge.source_unix_ms, Some(u64::MAX));
    assert!(huge.batch_id > a.batch_id);
    assert!(after.batch_id > huge.batch_id);
    // Last seen source is u64::MAX, so NOW+1 is a backward regression of
    // the source clock but the sample sequence still advances.
    assert_eq!(after.source_time_status, SourceTimeStatus::Backward);
}

#[test]
fn future_source_time_relative_to_receive_is_flagged() {
    let mut clock = SampleClock::with_session_id("sess-fut");
    let t = clock.stamp(Some(NOW + 5_000), NOW, TimestampOrigin::LiveAcquire);
    assert_eq!(t.source_time_status, SourceTimeStatus::Future);
    assert_eq!(t.batch_id, 0);
}

#[test]
fn restart_resets_are_distinguishable_by_session_id() {
    let mut boot1 = SampleClock::new(seed(0));
    let mut boot2 = SampleClock::new(seed(1));
    assert_ne!(
        boot1.session_id(),
        boot2.session_id(),
        "each SampleClock construction is a new boot/session"
    );
    let a = boot1.stamp(Some(NOW), NOW, TimestampOrigin::LiveAcquire);
    let b = boot2.stamp(Some(NOW), NOW, TimestampOrigin::LiveAcquire);
    assert_eq!(a.batch_id, 0);
    assert_eq!(b.batch_id, 0);
    assert_ne!(a.session_id, b.session_id);
    // Same process, second stamp on boot1 continues that session only.
    let a2 = boot1.stamp(Some(NOW + 1), NOW + 1, TimestampOrigin::LiveAcquire);
    assert_eq!(a2.batch_id, 1);
    assert_eq!(a2.session_id, a.session_id);
}

#[test]
fn csv_and_live_origins_share_the_same_sample_clock_contract() {
    let mut clock = SampleClock::with_session_id("shared-session");
    let live = clock.stamp(Some(NOW), NOW, TimestampOrigin::LiveAcquire);
    let csv = clock.stamp(Some(NOW), NOW + 5, TimestampOrigin::CsvSource);
    let sim = clock.stamp(Some(NOW), NOW + 10, TimestampOrigin::Simulated);
    assert_eq!(live.session_id, csv.session_id);
    assert_eq!(csv.session_id, sim.session_id);
    assert_eq!(live.batch_id, 0);
    assert_eq!(csv.batch_id, 1);
    assert_eq!(sim.batch_id, 2);
    assert_eq!(live.timestamp_origin, TimestampOrigin::LiveAcquire);
    assert_eq!(csv.timestamp_origin, TimestampOrigin::CsvSource);
    assert_eq!(sim.timestamp_origin, TimestampOrigin::Simulated);
    assert_eq!(csv.source_time_status, SourceTimeStatus::Duplicate);
    assert_eq!(sim.source_time_status, SourceTimeStatus::Duplicate);
}

#[test]
fn parse_source_timestamp_field_covers_missing_and_very_large() {
    assert_eq!(parse_source_timestamp_field("").unwrap(), None);
    assert_eq!(parse_source_timestamp_field("   ").unwrap(), None);
    assert_eq!(
        parse_source_timestamp_field("1700000000000").unwrap(),
        Some(1_700_000_000_000)
    );
    assert_eq!(
        parse_source_timestamp_field("18446744073709551615").unwrap(),
        Some(u64::MAX)
    );
    assert!(parse_source_timestamp_field("not-a-time").is_err());
    assert!(parse_source_timestamp_field("-1").is_err());
}

#[test]
fn freshness_seconds_uses_receive_time_not_source_time() {
    // Source is 10s old / duplicate; receive is recent. Freshness follows receive.
    let received = Some(NOW);
    assert!((freshness_seconds(received, NOW) - 0.0).abs() < f64::EPSILON);
    assert!((freshness_seconds(received, NOW + 2_500) - 2.5).abs() < f64::EPSILON);
    // Source regression must not be passed as the freshness instant.
    let source_regressed = Some(NOW - 10_000);
    let from_source = freshness_seconds(source_regressed, NOW);
    let from_receive = freshness_seconds(received, NOW);
    assert!(from_source > from_receive);
    assert!((from_receive - 0.0).abs() < f64::EPSILON);
}

#[test]
fn freshness_seconds_boundaries() {
    assert_eq!(freshness_seconds(None, NOW), 0.0);
    assert_eq!(freshness_seconds(Some(NOW), NOW), 0.0);
    // Wall clock jumped backward relative to receive time.
    assert_eq!(freshness_seconds(Some(NOW + 5_000), NOW), 0.0);
    // Very large receive vs now: saturating age.
    let age = freshness_seconds(Some(0), u64::MAX);
    assert!(age > 0.0);
    assert!((age - (u64::MAX as f64 / 1000.0)).abs() < 1e-3);
}

#[test]
fn freshness_seconds_monotonic_grows_and_saturates() {
    let t0: u128 = 10_000_000_000;
    let later: u128 = t0 + 1_500 * 1_000_000;
    let early = freshness_seconds_monotonic(Some(t0), later);
    assert!((early - 1.5).abs() < 1e-6);
    assert_eq!(freshness_seconds_monotonic(None, later), 0.0);
    assert_eq!(freshness_seconds_monotonic(Some(t0), t0), 0.0);
    // now before received (should not happen on a monotonic clock; saturates).
    assert_eq!(freshness_seconds_monotonic(Some(later), t0), 0.0);
}

#[test]
fn source_and_receive_times_are_distinguishable_on_frame_timing() {
    let mut clock = SampleClock::with_session_id("sess-split");
    let t = clock.stamp(Some(NOW - 10_000), NOW, TimestampOrigin::CsvSource);
    assert_eq!(t.source_unix_ms, Some(NOW - 10_000));
    assert_eq!(t.received_at_unix_ms, NOW);
    assert_ne!(t.source_unix_ms.unwrap(), t.received_at_unix_ms);
}

#[test]
fn unreadable_timestamps_name_the_cell_and_the_reason() {
    assert_eq!(
        parse_source_timestamp_field(" no\"t ").unwrap_err(),
        "invalid source timestamp \"no\\\"t\": invalid digit found in string"
    );
    assert_eq!(
        parse_source_timestamp_field("18446744073709551616").unwrap_err(),
        "invalid source timestamp \"18446744073709551616\": number too large to fit in target type"
    );
}

#[test]
fn wall_clock_reads_milliseconds_since_the_epoch() {
    let from_std = std::time::SystemTime::now()
        .duration_since(std::time::UNIX_EPOCH)
        .unwrap()
        .as_millis() as u64;
    let now = unix_now_ms();
    assert!(now >= from_std);
    assert!(now - from_std < 60_000);
}

#[test]
fn wall_clock_saturates_at_both_ends() {
    assert_eq!(saturated_millis(None), 0);
    assert_eq!(saturated_millis(Some(5)), 5);
    assert_eq!(saturated_millis(Some(u64::MAX as u128)), u64::MAX);
    assert_eq!(saturated_millis(Some(u128::MAX)), u64::MAX);
}

#[test]
fn session_ids_spell_out_the_seed() {
    let id = generate_session_id(SessionSeed { pid: 42, nanos: 7, discriminator: 3 });
    assert_eq!(id, "thalamic-42-7-3");
    assert_eq!(SampleClock::new(SessionSeed { pid: 42, nanos: 7, discriminator: 3 }).session_id(), id);
}

#[test]
fn source_status_follows_receive_time_then_the_previous_source_time() {
    assert_eq!(SourceTimeStatus::classify(None, 5, Some(9)), SourceTimeStatus::Missing);
    assert_eq!(SourceTimeStatus::classify(Some(6), 5, Some(9)), SourceTimeStatus::Future);
    assert_eq!(SourceTimeStatus::classify(Some(5), 5, None), SourceTimeStatus::InOrder);
    assert_eq!(SourceTimeStatus::classify(Some(4), 5, Some(5)), SourceTimeStatus::Backward);
    assert_eq!(SourceTimeStatus::classify(Some(5), 9, Some(5)), SourceTimeStatus::Duplicate);
    assert!(!SourceTimeStatus::InOrder.is_source_regression());
    assert!(!SourceTimeStatus::Future.is_source_regression());
    assert!(!SourceTimeStatus::Missing.is_source_regression());
}

#[test]
fn clocks_of_one_process_begin_different_sessions() {
    let mut seeds = SessionSeeds::new(42);
    let first = SampleClock::new(seeds.draw(7));
    let second = SampleClock::new(seeds.draw(7));
    assert_eq!(first.session_id(), "thalamic-42-7-0");
    assert_eq!(second.session_id(), "thalamic-42-7-1");
    assert_eq!(first.peek_batch_id(), 0);
    assert_eq!(second.peek_batch_id(), 0);
}
