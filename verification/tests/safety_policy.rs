use thalamic_relay::binary32::Binary32;
use thalamic_relay::safety::{
    ActuatorOutcome, BrakeIntent, SafetyMachine, SafetyPolicyConfig, SafetyState,
};
use thalamic_relay::telemetry;
use thalamic_relay::telemetry::{fixtures, RawTelemetry, SessionSeed, TelemetryFrame, UnixMillis};

fn b(value: f32) -> Binary32 {
    Binary32::from_bits(value.to_bits())
}

fn seed() -> SessionSeed {
    SessionSeed { pid: 7, nanos: 1_700_000_000_000_000_000, discriminator: 0 }
}

fn assess(raw: &RawTelemetry, now: UnixMillis) -> TelemetryFrame {
    telemetry::assess(raw, now, seed())
}

fn frame(power: f32) -> TelemetryFrame {
    let mut raw = fixtures::healthy_real();
    raw.gpu_temp_c = Some(b(60.0));
    raw.power_w = Some(b(power));
    assess(&raw, fixtures::NOW)
}

#[test]
fn device_envelopes_change_actual_safety_decisions() {
    for (default_w, power, expected) in [
        (100.0, 80.0, SafetyState::HealthyReal),
        (100.0, 90.0, SafetyState::Warning),
        (100.0, 101.0, SafetyState::CriticalBraked),
        (600.0, 400.0, SafetyState::HealthyReal),
        (600.0, 520.0, SafetyState::Warning),
        (600.0, 601.0, SafetyState::CriticalBraked),
    ] {
        let policy = SafetyPolicyConfig::default()
            .resolve(Some(b(default_w)))
            .unwrap();
        let mut machine = SafetyMachine::with_policy(policy);
        assert_eq!(machine.evaluate(&frame(power)).state, expected);
    }
}

#[test]
fn unknown_envelope_cannot_authorize_real_health_or_release() {
    let mut machine =
        SafetyMachine::with_policy(SafetyPolicyConfig::default().resolve(None).unwrap());
    assert_eq!(machine.evaluate(&frame(10.0)).intent, BrakeIntent::Apply);
    machine.seed_brake_applied();
    for _ in 0..10 {
        assert_eq!(machine.evaluate(&frame(10.0)).intent, BrakeIntent::NoChange);
        assert!(machine.snapshot().desired_brake);
    }
    let simulated = assess(&fixtures::software_fallback(), fixtures::NOW);
    assert_eq!(
        machine.evaluate(&simulated).state,
        SafetyState::SimulatedSoftwareOnly
    );
    assert!(machine.snapshot().desired_brake);
}

#[test]
fn explicit_limits_work_without_capabilities_and_control_recovery() {
    let config = SafetyPolicyConfig {
        power_warn_w: Some(b(40.0)),
        power_critical_w: Some(b(50.0)),
        release_ok_streak: 5,
        ..Default::default()
    };
    let mut machine = SafetyMachine::with_policy(config.resolve(None).unwrap());
    assert_eq!(machine.evaluate(&frame(51.0)).intent, BrakeIntent::Apply);
    let _ = machine.record_actuator(ActuatorOutcome::Applied);
    for _ in 0..4 {
        assert_eq!(machine.evaluate(&frame(30.0)).intent, BrakeIntent::NoChange);
    }
    assert_eq!(machine.evaluate(&frame(30.0)).intent, BrakeIntent::Release);
}

#[test]
fn malformed_or_device_exceeding_policy_is_rejected() {
    for (warn, critical) in [
        (0.0, 20.0),
        (20.0, 20.0),
        (30.0, 20.0),
        (f32::NAN, 20.0),
        (20.0, f32::INFINITY),
    ] {
        let c = SafetyPolicyConfig {
            power_warn_w: Some(b(warn)),
            power_critical_w: Some(b(critical)),
            ..Default::default()
        };
        assert!(c.resolve(None).is_err());
    }
    assert!(
        SafetyPolicyConfig {
            power_warn_w: Some(b(20.0)),
            ..Default::default()
        }
        .resolve(None)
        .is_err()
    );
    assert!(
        SafetyPolicyConfig {
            power_warn_w: Some(b(90.0)),
            power_critical_w: Some(b(110.0)),
            ..Default::default()
        }
        .resolve(Some(b(100.0)))
        .is_err()
    );
    assert!(
        SafetyPolicyConfig {
            temp_warn_c: b(90.0),
            temp_critical_c: b(80.0),
            ..Default::default()
        }
        .resolve(None)
        .is_err()
    );
    assert!(
        SafetyPolicyConfig {
            release_ok_streak: 0,
            ..Default::default()
        }
        .resolve(None)
        .is_err()
    );
    for cap in [0.0, -1.0, f32::NAN, f32::INFINITY] {
        assert!(SafetyPolicyConfig::default().resolve(Some(b(cap))).is_err());
    }
}

#[test]
fn policy_can_tighten_freshness_and_acquisition_cadence() {
    let config = SafetyPolicyConfig {
        max_sample_age_ms: 50,
        max_acquisition_interval_ms: 20,
        ..Default::default()
    };
    let mut machine = SafetyMachine::with_policy(config.resolve(Some(b(100.0))).unwrap());
    assert_eq!(
        machine.evaluate(&frame(20.0)).state,
        SafetyState::TelemetryStale
    );
    let mut fresh = frame(20.0);
    fresh.acquisition_cadence_ms = 20;
    assert_eq!(machine.evaluate(&fresh).state, SafetyState::HealthyReal);
    fresh.gpu_temp_c.observed_at -= 50;
    assert_eq!(machine.evaluate(&fresh).state, SafetyState::TelemetryStale);
}



#[test]
fn explicit_temperature_and_power_override_the_derived_policy() {
    let config = SafetyPolicyConfig {
        temp_warn_c: b(50.0),
        temp_critical_c: b(65.0),
        power_warn_w: Some(b(40.0)),
        power_critical_w: Some(b(50.0)),
        ..Default::default()
    };
    let policy = config.resolve(Some(b(100.0))).unwrap();
    let mut machine = SafetyMachine::with_policy(policy);
    let mut sample = frame(20.0); // 60 C is warning under explicit 50/65 policy.
    assert_eq!(machine.evaluate(&sample).state, SafetyState::Warning);
    sample.gpu_temp_c.value = Some(b(66.0));
    assert_eq!(machine.evaluate(&sample).state, SafetyState::CriticalBraked);
    sample.gpu_temp_c.value = Some(b(40.0));
    sample.power_w.value = Some(b(51.0));
    assert_eq!(machine.evaluate(&sample).state, SafetyState::CriticalBraked);
}

#[test]
fn invalid_freshness_and_engineering_bounds_are_rejected() {
    for c in [
        SafetyPolicyConfig {
            max_sample_age_ms: 0,
            ..Default::default()
        },
        SafetyPolicyConfig {
            max_sample_age_ms: 2001,
            ..Default::default()
        },
        SafetyPolicyConfig {
            max_acquisition_interval_ms: 0,
            ..Default::default()
        },
        SafetyPolicyConfig {
            max_acquisition_interval_ms: 2001,
            ..Default::default()
        },
        SafetyPolicyConfig {
            temp_critical_c: b(126.0),
            ..Default::default()
        },
        SafetyPolicyConfig {
            temp_warn_c: b(f32::NAN),
            ..Default::default()
        },
        SafetyPolicyConfig {
            power_warn_w: Some(b(100.0)),
            power_critical_w: Some(b(2001.0)),
            ..Default::default()
        },
    ] {
        assert!(c.resolve(None).is_err());
    }
    assert!(SafetyPolicyConfig::default().resolve(Some(b(2001.0))).is_err());
}

fn refusal(config: SafetyPolicyConfig, device_default_w: Option<Binary32>) -> &'static str {
    config.resolve(device_default_w).unwrap_err().message()
}

#[test]
fn each_refused_policy_says_why() {
    let base = SafetyPolicyConfig::default();
    assert_eq!(
        refusal(SafetyPolicyConfig { temp_warn_c: b(90.0), temp_critical_c: b(80.0), ..base }, None),
        "temperature limits must be finite: 0 < warning < critical <= 125 C"
    );
    assert_eq!(
        refusal(SafetyPolicyConfig { release_ok_streak: 0, ..base }, None),
        "release Ok streak must be positive"
    );
    assert_eq!(
        refusal(SafetyPolicyConfig { max_sample_age_ms: 2001, ..base }, None),
        "maximum sample age must be in 1..=2000 ms"
    );
    assert_eq!(
        refusal(SafetyPolicyConfig { max_acquisition_interval_ms: 0, ..base }, None),
        "maximum acquisition interval must be positive and no greater than maximum sample age"
    );
    assert_eq!(
        refusal(base, Some(b(0.0))),
        "device default power limit must be finite and in (0, 2000] W"
    );
    assert_eq!(
        refusal(SafetyPolicyConfig { power_warn_w: Some(b(20.0)), ..base }, None),
        "power warning and critical overrides must be supplied together"
    );
    let explicit = |warn: f32, critical: f32| SafetyPolicyConfig {
        power_warn_w: Some(b(warn)),
        power_critical_w: Some(b(critical)),
        ..base
    };
    assert_eq!(
        refusal(explicit(40.0, 30.0), None),
        "power limits must be finite: 0 < warning < critical <= 2000 W"
    );
    assert_eq!(
        refusal(explicit(90.0, 110.0), Some(b(100.0))),
        "explicit critical power exceeds the device default power limit"
    );
    assert_eq!(
        refusal(base, Some(b(1e-45))),
        "device default is too small to derive power limits"
    );
}

#[test]
fn effective_limits_tell_where_they_come_from() {
    let base = SafetyPolicyConfig::default();
    let unknown = base.resolve(None).unwrap();
    assert_eq!(unknown.power_limits_w(), None);
    assert_eq!(unknown.power_limit_source(), "unavailable");
    let device = base.resolve(Some(b(100.0))).unwrap();
    assert_eq!(device.power_limits_w(), Some((b(100.0 * 0.85), b(100.0))));
    assert_eq!(device.power_limit_source(), "device_default");
    assert_eq!(device.brake_fraction(), b(0.5));
    assert_eq!(device.limits().release_ok_streak, 3);
    let explicit = SafetyPolicyConfig {
        power_warn_w: Some(b(40.0)),
        power_critical_w: Some(b(50.0)),
        ..base
    };
    let operator = explicit.resolve(Some(b(100.0))).unwrap();
    assert_eq!(operator.power_limit_source(), "operator");
    assert_eq!(*operator.config(), explicit);
}

#[test]
fn step_intervals_stay_within_the_policy() {
    let base = SafetyPolicyConfig::default();
    let policy = base.resolve(None).unwrap();
    assert!(policy.check_step_interval(100).is_ok());
    let refused = "step interval exceeds safety acquisition or sample-age limit";
    assert_eq!(policy.check_step_interval(101).unwrap_err().message(), refused);
    let wide =
        SafetyPolicyConfig { max_acquisition_interval_ms: 300, ..base }.resolve(None).unwrap();
    assert!(wide.check_step_interval(200).is_ok());
    assert_eq!(wide.check_step_interval(201).unwrap_err().message(), refused);
    assert!(wide.check_step_interval(u64::MAX).is_err());
}
