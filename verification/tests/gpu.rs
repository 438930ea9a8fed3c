use thalamic_relay::binary32::Binary32;
use thalamic_relay::gpu::{
    derive_vddcr_gfx_v, whole_watts, DeviceReadings, HardwareBridge, OutageLog,
};
use thalamic_relay::safety::{
    match_engaged_brake, plan_apply, plan_release, ActuatorError, SafetyStatus,
};
use thalamic_relay::telemetry;
use thalamic_relay::telemetry::{
    fixtures, software_fallback, unix_now_ms, RawTelemetry, SampleClock, SampleValidity,
    SessionSeed, TelemetryFrame, TelemetrySource, TimestampOrigin, UnixMillis,
};

fn b(value: f32) -> Binary32 {
    Binary32::from_bits(value.to_bits())
}

fn f(value: Binary32) -> f32 {
    f32::from_bits(value.bits)
}

fn seed() -> SessionSeed {
    SessionSeed { pid: 7, nanos: 1_700_000_000_000_000_000, discriminator: 0 }
}

fn assess(raw: &RawTelemetry, now: UnixMillis) -> TelemetryFrame {
    telemetry::assess(raw, now, seed())
}

fn read_telemetry_force(force_software_only: bool) -> TelemetryFrame {
    let observed_at = unix_now_ms();
    HardwareBridge::read_telemetry_force(
        force_software_only,
        None,
        observed_at,
        unix_now_ms(),
        seed(),
    )
}

fn read_telemetry_with(force_software_only: bool, cadence_ms: u64) -> TelemetryFrame {
    let observed_at = unix_now_ms();
    HardwareBridge::read_telemetry_with(
        force_software_only,
        None,
        observed_at,
        unix_now_ms(),
        cadence_ms,
        seed(),
    )
}

fn read_telemetry_with_clock(
    force_software_only: bool,
    cadence_ms: u64,
    clock: &mut SampleClock,
) -> TelemetryFrame {
    let observed_at = unix_now_ms();
    HardwareBridge::read_telemetry_with_clock(
        force_software_only,
        None,
        observed_at,
        unix_now_ms(),
        cadence_ms,
        clock,
    )
}

fn nvml_temp_power(temp_c: f32, power_w: f32) -> TelemetryFrame {
    let mut raw = fixtures::healthy_real();
    raw.gpu_temp_c = Some(b(temp_c));
    raw.power_w = Some(b(power_w));
    assess(&raw, fixtures::NOW)
}

#[test]
fn test_raw_software_fallback_never_uses_silent_zero_for_missing_vram() {
    let raw = RawTelemetry::software_fallback(fixtures::NOW);
    assert_eq!(raw.source, TelemetrySource::SoftwareFallback);
    assert_eq!(raw.vram_temp_c, None);
    assert_eq!(raw.mem_util_pct, Some(b(0.0)));
    assert_eq!(raw.gpu_temp_c, Some(Binary32::from_bits(software_fallback::GPU_TEMP_C)));
}

#[test]
fn test_safety_ok_on_simulated_values() {
    let frame = assess(&fixtures::software_fallback(), fixtures::NOW);
    let (status, is_sim) = HardwareBridge::check_safety(&frame);
    assert_eq!(status, SafetyStatus::Okay);
    assert!(is_sim);
}

#[test]
fn test_safety_does_not_infer_simulation_from_old_magic_values() {
    let frame = assess(&fixtures::nvml_looks_like_old_magic(), fixtures::NOW);
    let (status, is_sim) = HardwareBridge::check_safety(&frame);
    assert_eq!(status, SafetyStatus::Okay);
    assert!(!is_sim);
    assert_eq!(frame.source, TelemetrySource::Nvml);
    assert_eq!(frame.gpu_temp_c.value, Some(b(0.0)));
    assert_eq!(frame.power_w.value, Some(b(25.0)));
}

#[test]
fn test_safety_warn_on_elevated_temp() {
    let frame = nvml_temp_power(78.0, 200.0);
    let (status, is_sim) = HardwareBridge::check_safety(&frame);
    assert!(matches!(status, SafetyStatus::Warn(_)));
    assert!(!is_sim);
}

#[test]
fn test_safety_warn_on_elevated_power() {
    let frame = nvml_temp_power(70.0, 320.0);
    let (status, is_sim) = HardwareBridge::check_safety(&frame);
    assert!(matches!(status, SafetyStatus::Warn(_)));
    assert!(!is_sim);
}

#[test]
fn test_safety_critical_on_high_temp() {
    let frame = nvml_temp_power(90.0, 200.0);
    let (status, is_sim) = HardwareBridge::check_safety(&frame);
    assert!(matches!(status, SafetyStatus::Critical(_)));
    assert!(!is_sim);
}

#[test]
fn test_safety_critical_on_high_power() {
    let frame = nvml_temp_power(70.0, 360.0);
    let (status, is_sim) = HardwareBridge::check_safety(&frame);
    assert!(matches!(status, SafetyStatus::Critical(_)));
    assert!(!is_sim);
}

#[test]
fn test_safety_ok_on_normal_telemetry() {
    let frame = nvml_temp_power(65.0, 200.0);
    let (status, is_sim) = HardwareBridge::check_safety(&frame);
    assert_eq!(status, SafetyStatus::Okay);
    assert!(!is_sim);
}

#[test]
fn test_safety_critical_on_unknown_power_with_real_temperature() {
    let frame = assess(&fixtures::sensor_dropout(), fixtures::NOW);
    let (status, is_sim) = HardwareBridge::check_safety(&frame);
    assert!(matches!(status, SafetyStatus::Critical(ref msg) if msg.contains("power_w")));
    assert!(!is_sim);
    assert_eq!(frame.power_w.validity, SampleValidity::Missing);
    assert_eq!(frame.power_w.value, None);
}

#[test]
fn test_check_safety_fail_closes_on_missing_temp_or_power() {
    let mut raw = fixtures::healthy_real();
    raw.gpu_temp_c = None;
    let frame = assess(&raw, fixtures::NOW);
    let (status, is_sim) = HardwareBridge::check_safety(&frame);
    assert!(matches!(status, SafetyStatus::Critical(ref msg) if msg.contains("gpu_temp_c")));
    assert!(!is_sim);

    let mut raw = fixtures::healthy_real();
    raw.power_w = None;
    let frame = assess(&raw, fixtures::NOW);
    let (status, is_sim) = HardwareBridge::check_safety(&frame);
    assert!(matches!(status, SafetyStatus::Critical(ref msg) if msg.contains("power_w")));
    assert!(!is_sim);

    // Warn-band temperature with missing power must not become Warn or Ok.
    let mut frame = nvml_temp_power(78.0, 200.0);
    frame.power_w.value = None;
    frame.power_w.validity = SampleValidity::Missing;
    let (status, is_sim) = HardwareBridge::check_safety(&frame);
    assert!(matches!(status, SafetyStatus::Critical(_)));
    assert!(!matches!(status, SafetyStatus::Warn(_)));
    assert!(!is_sim);

    let mut frame = nvml_temp_power(78.0, 200.0);
    frame.gpu_temp_c.value = None;
    assert_eq!(frame.gpu_temp_c.validity, SampleValidity::Valid);
    let (status, _) = HardwareBridge::check_safety(&frame);
    assert!(matches!(status, SafetyStatus::Critical(ref msg) if msg.contains("gpu_temp_c")));
}

#[test]
fn test_safety_critical_on_non_finite_telemetry() {
    let frame = assess(&fixtures::non_finite(), fixtures::NOW);
    let (status, is_sim) = HardwareBridge::check_safety(&frame);
    assert!(matches!(status, SafetyStatus::Critical(_)));
    assert!(!is_sim);

    let mut raw = fixtures::healthy_real();
    raw.gpu_temp_c = Some(b(f32::NAN));
    let frame = assess(&raw, fixtures::NOW);
    let (status, is_sim) = HardwareBridge::check_safety(&frame);
    assert!(matches!(status, SafetyStatus::Critical(_)));
    assert!(!is_sim);

    let mut raw = fixtures::healthy_real();
    raw.power_w = Some(b(f32::INFINITY));
    let frame = assess(&raw, fixtures::NOW);
    let (status, is_sim) = HardwareBridge::check_safety(&frame);
    assert!(matches!(status, SafetyStatus::Critical(_)));
    assert!(!is_sim);
}

#[test]
fn test_safety_critical_on_stale_and_out_of_range() {
    let stale = assess(&fixtures::stale(), fixtures::NOW);
    let (status, is_sim) = HardwareBridge::check_safety(&stale);
    assert!(matches!(status, SafetyStatus::Critical(ref msg) if msg.contains("stale")));
    assert!(!is_sim);

    let oor = assess(&fixtures::out_of_range(), fixtures::NOW);
    let (status, is_sim) = HardwareBridge::check_safety(&oor);
    assert!(matches!(status, SafetyStatus::Critical(ref msg) if msg.contains("invalid")));
    assert!(!is_sim);
}

#[test]
fn test_acquire_raw_force_software_is_fallback_not_unavailable() {
    let raw = HardwareBridge::acquire_raw(true, None, unix_now_ms());
    assert_eq!(raw.source, TelemetrySource::SoftwareFallback);
    let unavail = HardwareBridge::acquire_raw(false, None, unix_now_ms());
    assert!(
        matches!(
            unavail.source,
            TelemetrySource::Nvml | TelemetrySource::NvmlUnavailable
        ),
        "acquire_raw(false) must not be SoftwareFallback, got {:?}",
        unavail.source
    );
    assert_ne!(unavail.source, TelemetrySource::SoftwareFallback);
}

#[test]
fn test_nvml_unavailable_fail_closes_safety() {
    let frame = assess(&fixtures::nvml_unavailable(), fixtures::NOW);
    let (status, is_sim) = HardwareBridge::check_safety(&frame);
    assert!(matches!(status, SafetyStatus::Critical(ref msg) if msg.contains("missing")));
    assert!(!is_sim);
    assert_eq!(frame.source, TelemetrySource::NvmlUnavailable);
    assert_eq!(frame.gpu_temp_c.value, None);
    assert_eq!(frame.power_w.value, None);
}

#[test]
fn test_read_telemetry_with_records_configured_cadence() {
    let frame = read_telemetry_with(true, 50);
    assert_eq!(frame.acquisition_cadence_ms, 50);
    assert_eq!(frame.source, TelemetrySource::SoftwareFallback);
}

#[test]
fn test_read_telemetry_force_software_only() {
    let frame = read_telemetry_force(true);
    assert_eq!(frame.source, TelemetrySource::SoftwareFallback);
    assert_eq!(frame.power_w.value, Some(Binary32::from_bits(software_fallback::POWER_W)));
    assert_eq!(frame.gpu_temp_c.value, Some(Binary32::from_bits(software_fallback::GPU_TEMP_C)));
    assert_eq!(
        frame.gpu_clock_mhz.value,
        Some(Binary32::from_bits(software_fallback::GPU_CLOCK_MHZ))
    );
    assert_eq!(
        frame.mem_clock_mhz.value,
        Some(Binary32::from_bits(software_fallback::MEM_CLOCK_MHZ))
    );
    assert_eq!(
        frame.fan_speed_pct.value,
        Some(Binary32::from_bits(software_fallback::FAN_SPEED_PCT))
    );
    assert_eq!(
        frame.mem_util_pct.value,
        Some(Binary32::from_bits(software_fallback::MEM_UTIL_PCT))
    );
    assert_eq!(frame.vram_temp_c.value, None);
    assert_eq!(frame.vram_temp_c.validity, SampleValidity::Missing);
    let (status, is_sim) = HardwareBridge::check_safety(&frame);
    assert_eq!(status, SafetyStatus::Okay);
    assert!(is_sim);
}


/// Without a real GPU (no NVML), actuation must fail closed with a typed
/// [`ActuatorError`] rather than inventing a wattage or panicking.
#[test]
fn test_nvml_actuator_fails_closed_without_gpu() {
    // No device: both limit queries come back empty.
    assert_eq!(plan_apply(None, None, b(0.5)), Err(ActuatorError::PowerLimitUnavailable));
    assert_eq!(plan_release(None, None, b(0.5)), Err(ActuatorError::PowerLimitUnavailable));
    assert_eq!(match_engaged_brake(None, None, b(0.5)), None);
}

#[test]
fn test_sensory_mapping_from_software_fallback_carries_provenance() {
    let frame = read_telemetry_force(true);
    let mapping = frame.to_sensory_mapping();
    assert_eq!(
        mapping.acquisition_source,
        TelemetrySource::SoftwareFallback
    );
    assert!(
        mapping
            .stimuli
            .iter()
            .all(|s| s.source == TelemetrySource::SoftwareFallback)
    );
    let util = mapping
        .stimuli
        .iter()
        .find(|s| s.name == "mem_util_pct")
        .unwrap();
    assert_eq!(util.raw, Some(b(0.0)));
    assert_eq!(util.normalized, Some(b(0.0)));
    assert_eq!(util.validity, SampleValidity::Valid);
    assert_eq!(mapping.timestamp_origin, TimestampOrigin::Simulated);
    assert_eq!(mapping.batch_id, 0);
    assert!(!mapping.session_id.is_empty());
    assert!(mapping.source_unix_ms.is_some());
    assert!(
        mapping.received_at_unix_ms >= mapping.source_unix_ms.unwrap(),
        "receive time is at or after source time on the live simulated path"
    );
}

#[test]
fn test_software_fallback_frames_share_sample_clock_sequence() {
    let mut clock = SampleClock::with_session_id("hw-session");
    let a = read_telemetry_with_clock(true, 50, &mut clock);
    let b = read_telemetry_with_clock(true, 50, &mut clock);
    assert_eq!(a.session_id, "hw-session");
    assert_eq!(a.session_id, b.session_id);
    assert_eq!(a.batch_id, 0);
    assert_eq!(b.batch_id, 1);
    assert_eq!(a.timestamp_origin, TimestampOrigin::Simulated);
    assert_eq!(b.timestamp_origin, TimestampOrigin::Simulated);
    assert!(b.received_at_unix_ms >= a.received_at_unix_ms);
}

#[test]
fn test_derive_vddcr_gfx_v_is_deterministic() {
    assert!((f(derive_vddcr_gfx_v(b(50.0))) - 0.70).abs() < 1e-6);
    assert!((f(derive_vddcr_gfx_v(b(0.0))) - 0.70).abs() < 1e-6);
    assert!((f(derive_vddcr_gfx_v(b(300.0))) - 1.05).abs() < 1e-6);
    assert!((f(derive_vddcr_gfx_v(b(400.0))) - 1.05).abs() < 1e-6);
    let mid = f(derive_vddcr_gfx_v(b(175.0)));
    assert!((mid - 0.875).abs() < 1e-6);
}

#[test]
fn test_read_telemetry_without_force_is_never_software_fallback() {
    let frame = read_telemetry_force(false);
    assert_ne!(frame.source, TelemetrySource::SoftwareFallback);
    assert!(matches!(
        frame.source,
        TelemetrySource::Nvml | TelemetrySource::NvmlUnavailable
    ));
}

#[test]
fn device_integers_become_engineering_values() {
    let readings = DeviceReadings {
        temperature_c: Some(65),
        power_mw: Some(200_500),
        graphics_clock_mhz: Some(2_400),
        memory_clock_mhz: Some(10_501),
        fan_speed_pct: None,
        memory_util_pct: Some(0),
    };
    let raw = HardwareBridge::acquire_raw(false, Some(readings), fixtures::NOW);
    assert_eq!(raw.source, TelemetrySource::Nvml);
    assert_eq!(raw.timestamp_origin, TimestampOrigin::LiveAcquire);
    assert_eq!(raw.source_unix_ms, Some(fixtures::NOW));
    assert_eq!(raw.gpu_temp_c, Some(b(65.0)));
    assert_eq!(raw.power_w, Some(b(200.5)));
    let share = ((200.5f32 - 50.0) / (300.0 - 50.0)).clamp(0.0, 1.0);
    assert_eq!(raw.vddcr_gfx_v, Some(b(0.70 + share * (1.05f32 - 0.70))));
    assert_eq!(raw.gpu_clock_mhz, Some(b(2400.0)));
    assert_eq!(raw.mem_clock_mhz, Some(b(10_501.0)));
    assert_eq!(raw.fan_speed_pct, None);
    assert_eq!(raw.mem_util_pct, Some(b(0.0)));
    assert_eq!(raw.vram_temp_c, None);
    assert_eq!(HardwareBridge::acquire_raw(true, Some(readings), 5).source, TelemetrySource::SoftwareFallback);
    assert_eq!(HardwareBridge::read_nvml(&readings, fixtures::NOW), raw);
}

#[test]
fn milliwatt_limits_are_cut_to_whole_watts() {
    assert_eq!(whole_watts(299_999), 299);
    assert_eq!(whole_watts(300_000), 300);
}

#[test]
fn an_outage_is_reported_once() {
    let mut log = OutageLog { unhealthy: false };
    let reports: Vec<bool> =
        [true, false, false, true, false].iter().map(|healthy| log.note(*healthy)).collect();
    assert_eq!(reports, [false, true, false, false, true]);
}
