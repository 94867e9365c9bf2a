use kde_fan_control::config::{
    state_directory_from_env, AppConfig, AppliedConfig, AppliedFanEntry, DraftConfig,
    DraftFanEntry, CONFIG_VERSION,
};
use kde_fan_control::control::{ActuatorPolicy, AggregationFn, ControlCadence, PidGains, PidLimits};
use kde_fan_control::inventory::{
    ControlMode, FanChannel, HwmonDevice, InventorySnapshot, SupportState, TemperatureSensor,
};
use kde_fan_control::strmap::StrMap;
use kde_fan_control::validation::{apply_draft, validate_draft, ValidationError};

const FAN1: &str = "hwmon-test-0000000000000001-fan1";
const TEMP1: &str = "hwmon-test-0000000000000001-temp1";

fn managed_draft_entry() -> DraftFanEntry {
    DraftFanEntry {
        managed: true,
        control_mode: Some(ControlMode::Pwm),
        temp_sources: vec![TEMP1.to_string()],
        target_temp_millidegrees: Some(65_000),
        aggregation: None,
        pid_gains: None,
        cadence: None,
        deadband_millidegrees: None,
        actuator_policy: None,
        pid_limits: None,
    }
}

fn test_snapshot() -> InventorySnapshot {
    InventorySnapshot {
        devices: vec![HwmonDevice {
            id: "hwmon-test-0000000000000001".to_string(),
            name: "testchip".to_string(),
            sysfs_path: "/sys/class/hwmon/hwmon0".to_string(),
            stable_identity: "/sys/devices/platform/testchip".to_string(),
            temperatures: vec![TemperatureSensor {
                id: TEMP1.to_string(),
                channel: 1,
                label: Some("CPU".to_string()),
                friendly_name: None,
                input_millidegrees_celsius: Some(45000),
            }],
            fans: vec![FanChannel {
                id: FAN1.to_string(),
                channel: 1,
                label: Some("CPU Fan".to_string()),
                friendly_name: None,
                rpm_feedback: true,
                current_rpm: Some(1200),
                control_modes: vec![ControlMode::Pwm],
                support_state: SupportState::Available,
                support_reason: None,
            }],
        }],
    }
}

fn draft_with(id: &str, entry: DraftFanEntry) -> DraftConfig {
    let mut draft = DraftConfig::default();
    draft.fans.insert(id.to_string(), entry);
    draft
}

fn bits(x: f64) -> u64 {
    x.to_bits()
}

#[test]
fn validation_accepts_valid_draft() {
    let snapshot = test_snapshot();
    let draft = draft_with(FAN1, managed_draft_entry());
    let result = validate_draft(&draft, &snapshot);
    assert!(result.all_passed());
    assert!(result.enrollable.contains(&FAN1.to_string()));
    assert!(result.rejected.is_empty());
}

#[test]
fn validation_rejects_invalid_control_mode() {
    let snapshot = test_snapshot();
    let draft = draft_with(
        FAN1,
        DraftFanEntry {
            control_mode: Some(ControlMode::Voltage),
            temp_sources: vec![TEMP1.to_string()],
            ..managed_draft_entry()
        },
    );
    let result = validate_draft(&draft, &snapshot);
    assert!(!result.all_passed());
    assert!(matches!(
        &result.rejected[0].1,
        ValidationError::UnsupportedControlMode { .. }
    ));
}

#[test]
fn validation_rejects_stale_fan_id() {
    let snapshot = test_snapshot();
    let draft = draft_with("hwmon-nonexistent-fan99", managed_draft_entry());
    let result = validate_draft(&draft, &snapshot);
    assert!(!result.all_passed());
    assert!(matches!(
        &result.rejected[0].1,
        ValidationError::FanNotFound { .. }
    ));
}

#[test]
fn validation_rejects_unsupported_fan() {
    let mut snapshot = test_snapshot();
    snapshot.devices[0].fans[0].support_state = SupportState::Partial;
    snapshot.devices[0].fans[0].support_reason = Some("pwm not writable".to_string());
    snapshot.devices[0].fans[0].control_modes.clear();

    let draft = draft_with(FAN1, managed_draft_entry());
    let result = validate_draft(&draft, &snapshot);
    assert!(!result.all_passed());
    assert!(matches!(
        &result.rejected[0].1,
        ValidationError::FanNotEnrollable { .. }
    ));
}

#[test]
fn validation_rejects_missing_temp_source() {
    let snapshot = test_snapshot();
    let draft = draft_with(
        FAN1,
        DraftFanEntry {
            temp_sources: vec!["nonexistent-temp".to_string()],
            ..managed_draft_entry()
        },
    );
    let result = validate_draft(&draft, &snapshot);
    assert!(!result.all_passed());
    assert!(matches!(
        &result.rejected[0].1,
        ValidationError::TempSourceNotFound { .. }
    ));
}

#[test]
fn validation_skips_unmanaged_entries() {
    let snapshot = test_snapshot();
    let draft = draft_with(FAN1, DraftFanEntry::default());
    let result = validate_draft(&draft, &snapshot);
    assert!(result.all_passed());
    assert!(result.enrollable.is_empty());
    assert!(result.rejected.is_empty());
}

#[test]
fn apply_draft_best_effort_partial() {
    let snapshot = test_snapshot();
    let mut draft = DraftConfig::default();
    draft.fans.insert(FAN1.to_string(), managed_draft_entry());
    draft.fans.insert("ghost-fan".to_string(), managed_draft_entry());

    let (applied, result) = apply_draft(&draft, &snapshot, "2026-04-11T12:00:00Z".to_string(), None);

    assert!(applied.fans.contains_key(FAN1));
    assert!(!applied.fans.contains_key("ghost-fan"));
    assert_eq!(result.rejected.len(), 1);
}

#[test]
fn validation_rejects_missing_target_temperature() {
    let snapshot = test_snapshot();
    let draft = draft_with(
        FAN1,
        DraftFanEntry {
            target_temp_millidegrees: None,
            ..managed_draft_entry()
        },
    );
    let result = validate_draft(&draft, &snapshot);
    assert!(matches!(
        &result.rejected[0].1,
        ValidationError::MissingTargetTemp { .. }
    ));
}

#[test]
fn validation_rejects_managed_fan_without_sensor_sources() {
    let snapshot = test_snapshot();
    let draft = draft_with(
        FAN1,
        DraftFanEntry {
            temp_sources: vec![],
            ..managed_draft_entry()
        },
    );
    let result = validate_draft(&draft, &snapshot);
    assert!(matches!(
        &result.rejected[0].1,
        ValidationError::NoSensorForManagedFan { .. }
    ));
}

#[test]
fn apply_draft_preserves_resolved_control_profile() {
    let snapshot = test_snapshot();
    let draft = draft_with(
        FAN1,
        DraftFanEntry {
            target_temp_millidegrees: Some(72_000),
            aggregation: Some(AggregationFn::Median),
            pid_gains: Some(PidGains { kp: bits(2.0), ki: bits(0.2), kd: bits(0.7) }),
            cadence: Some(ControlCadence {
                sample_interval_ms: 500,
                control_interval_ms: 1_500,
                write_interval_ms: 2_000,
            }),
            deadband_millidegrees: Some(2_500),
            actuator_policy: Some(ActuatorPolicy {
                output_min_percent: bits(10.0),
                output_max_percent: bits(95.0),
                pwm_min: 20,
                pwm_max: 240,
                startup_kick_percent: bits(40.0),
                startup_kick_ms: 1_800,
            }),
            pid_limits: Some(PidLimits {
                integral_min: bits(-20.0),
                integral_max: bits(30.0),
                derivative_min: bits(-5.0),
                derivative_max: bits(8.0),
            }),
            ..managed_draft_entry()
        },
    );

    let (applied, result) = apply_draft(&draft, &snapshot, "2026-04-11T12:00:00Z".to_string(), None);
    assert!(result.all_passed());

    let entry = applied.fans.get(FAN1).expect("fan should be applied");
    assert_eq!(entry.target_temp_millidegrees, 72_000);
    assert_eq!(entry.aggregation, AggregationFn::Median);
    assert_eq!(f64::from_bits(entry.pid_gains.kp), 2.0);
    assert_eq!(f64::from_bits(entry.pid_gains.ki), 0.2);
    assert_eq!(f64::from_bits(entry.pid_gains.kd), 0.7);
    assert_eq!(
        entry.cadence,
        ControlCadence {
            sample_interval_ms: 500,
            control_interval_ms: 1_500,
            write_interval_ms: 2_000,
        }
    );
    assert_eq!(entry.deadband_millidegrees, 2_500);
    assert_eq!(entry.actuator_policy.pwm_min, 20);
    assert_eq!(entry.actuator_policy.pwm_max, 240);
    assert_eq!(f64::from_bits(entry.actuator_policy.startup_kick_percent), 40.0);
    assert_eq!(f64::from_bits(entry.pid_limits.integral_min), -20.0);
    assert_eq!(f64::from_bits(entry.pid_limits.derivative_max), 8.0);
}

#[test]
fn default_config_has_version_1() {
    let config = AppConfig::default();
    assert_eq!(config.version, CONFIG_VERSION);
}

#[test]
fn state_directory_env_uses_first_path() {
    let path = state_directory_from_env(Some("/var/lib/kde-fan-control:/var/lib/ignored".to_string()))
        .expect("state directory env should resolve");
    assert_eq!(path, "/var/lib/kde-fan-control".to_string());
}

#[test]
fn state_directory_env_ignores_empty_values() {
    assert!(state_directory_from_env(Some("   ".to_string())).is_none());
    assert!(state_directory_from_env(None).is_none());
}

#[test]
fn validation_rejects_non_finite_pid_gains() {
    let snapshot = test_snapshot();
    let cases = [
        PidGains { kp: bits(f64::NAN), ki: bits(1.0), kd: bits(0.5) },
        PidGains { kp: bits(1.0), ki: bits(f64::INFINITY), kd: bits(0.5) },
        PidGains { kp: bits(1.0), ki: bits(1.0), kd: bits(f64::NEG_INFINITY) },
    ];
    for gains in cases {
        let draft = draft_with(
            FAN1,
            DraftFanEntry { pid_gains: Some(gains), ..managed_draft_entry() },
        );
        let result = validate_draft(&draft, &snapshot);
        assert!(!result.all_passed());
        assert!(matches!(
            &result.rejected[0].1,
            ValidationError::InvalidPidGains { .. }
        ));
    }
}

#[test]
fn validation_accepts_finite_pid_gains() {
    let snapshot = test_snapshot();
    let draft = draft_with(
        FAN1,
        DraftFanEntry {
            pid_gains: Some(PidGains { kp: bits(2.0), ki: bits(-0.5), kd: bits(10.0) }),
            ..managed_draft_entry()
        },
    );
    let result = validate_draft(&draft, &snapshot);
    assert!(result.all_passed());
}

#[test]
fn validation_rejects_target_temp_out_of_bounds() {
    let snapshot = test_snapshot();
    for target in [0i64, -1000, 200_000] {
        let draft = draft_with(
            FAN1,
            DraftFanEntry { target_temp_millidegrees: Some(target), ..managed_draft_entry() },
        );
        let result = validate_draft(&draft, &snapshot);
        assert!(!result.all_passed());
        assert!(matches!(
            &result.rejected[0].1,
            ValidationError::InvalidTargetTemperature { .. }
        ));
    }
}

#[test]
fn validation_accepts_target_temp_in_bounds() {
    let snapshot = test_snapshot();
    for target in [1i64, 150_000] {
        let draft = draft_with(
            FAN1,
            DraftFanEntry { target_temp_millidegrees: Some(target), ..managed_draft_entry() },
        );
        let result = validate_draft(&draft, &snapshot);
        assert!(result.all_passed());
    }
}

#[test]
fn pid_gains_is_finite_method() {
    assert!(PidGains { kp: bits(1.0), ki: bits(0.5), kd: bits(0.1) }.is_finite());
    assert!(PidGains { kp: bits(-1.0), ki: bits(0.0), kd: bits(100.0) }.is_finite());
    assert!(!PidGains { kp: bits(f64::NAN), ki: bits(1.0), kd: bits(1.0) }.is_finite());
    assert!(!PidGains { kp: bits(1.0), ki: bits(f64::INFINITY), kd: bits(1.0) }.is_finite());
    assert!(!PidGains { kp: bits(1.0), ki: bits(1.0), kd: bits(f64::NEG_INFINITY) }.is_finite());
}

#[test]
fn pid_limits_is_finite_method() {
    let limits = |a: f64, b: f64, c: f64, d: f64| PidLimits {
        integral_min: bits(a),
        integral_max: bits(b),
        derivative_min: bits(c),
        derivative_max: bits(d),
    };
    assert!(limits(-500.0, 500.0, -5.0, 5.0).is_finite());
    assert!(!limits(f64::NAN, 500.0, -5.0, 5.0).is_finite());
    assert!(!limits(-500.0, f64::INFINITY, -5.0, 5.0).is_finite());
    assert!(!limits(-500.0, 500.0, f64::NEG_INFINITY, 5.0).is_finite());
}

#[test]
fn validation_rejects_non_finite_pid_limits() {
    let snapshot = test_snapshot();
    let draft = draft_with(
        FAN1,
        DraftFanEntry {
            pid_limits: Some(PidLimits {
                integral_min: bits(f64::NAN),
                integral_max: bits(500.0),
                derivative_min: bits(-5.0),
                derivative_max: bits(5.0),
            }),
            ..managed_draft_entry()
        },
    );
    let result = validate_draft(&draft, &snapshot);
    assert!(!result.all_passed());
    assert!(matches!(
        &result.rejected[0].1,
        ValidationError::InvalidPidLimits { .. }
    ));
}

// ---- apply_draft preservation (daemon-side scenarios) ----

fn applied_entry() -> AppliedFanEntry {
    AppliedFanEntry {
        control_mode: ControlMode::Pwm,
        temp_sources: vec![TEMP1.to_string()],
        target_temp_millidegrees: 65_000,
        aggregation: AggregationFn::Average,
        pid_gains: PidGains::default(),
        cadence: ControlCadence::default(),
        deadband_millidegrees: 1_000,
        actuator_policy: ActuatorPolicy::default(),
        pid_limits: PidLimits::default(),
    }
}

fn previous_with(ids: &[&str]) -> AppliedConfig {
    let mut fans = StrMap::new();
    for id in ids {
        fans.insert(id.to_string(), applied_entry());
    }
    AppliedConfig { fans, applied_at: Some("2026-04-10T00:00:00Z".to_string()) }
}

#[test]
fn apply_draft_keeps_previous_fans_absent_from_draft() {
    let snapshot = test_snapshot();
    let draft = draft_with(FAN1, managed_draft_entry());
    let previous = previous_with(&["hwmon-other-fan2"]);
    let (applied, result) = apply_draft(&draft, &snapshot, "t".to_string(), Some(&previous));
    assert!(result.all_passed());
    assert!(applied.fans.contains_key(FAN1));
    assert!(applied.fans.contains_key("hwmon-other-fan2"));
    assert_eq!(applied.fans.len(), 2);
    assert_eq!(applied.applied_at, Some("t".to_string()));
}

#[test]
fn apply_draft_drops_previous_fan_marked_unmanaged_in_draft() {
    let snapshot = test_snapshot();
    let draft = draft_with(FAN1, DraftFanEntry::default());
    let previous = previous_with(&[FAN1]);
    let (applied, result) = apply_draft(&draft, &snapshot, "t".to_string(), Some(&previous));
    assert!(result.all_passed());
    assert!(result.enrollable.is_empty());
    assert!(applied.fans.is_empty());
}

#[test]
fn apply_draft_drops_previous_fan_rejected_in_draft() {
    let snapshot = test_snapshot();
    let draft = draft_with(
        FAN1,
        DraftFanEntry { target_temp_millidegrees: Some(0), ..managed_draft_entry() },
    );
    let previous = previous_with(&[FAN1]);
    let (applied, result) = apply_draft(&draft, &snapshot, "t".to_string(), Some(&previous));
    assert_eq!(result.rejected.len(), 1);
    assert!(!applied.fans.contains_key(FAN1));
}

#[test]
fn validation_error_messages_name_the_fan() {
    let snapshot = test_snapshot();
    let draft = draft_with("ghost", managed_draft_entry());
    let result = validate_draft(&draft, &snapshot);
    assert_eq!(result.rejected[0].1.message(), "fan 'ghost' not found in current inventory");
}

#[test]
fn validation_rejects_missing_control_mode() {
    let snapshot = test_snapshot();
    let draft = draft_with(FAN1, DraftFanEntry { control_mode: None, ..managed_draft_entry() });
    let result = validate_draft(&draft, &snapshot);
    assert!(matches!(&result.rejected[0].1, ValidationError::MissingControlMode { .. }));
}

#[test]
fn validation_rejects_bad_cadence_policy_and_limits() {
    let snapshot = test_snapshot();
    let draft = draft_with(
        FAN1,
        DraftFanEntry {
            cadence: Some(ControlCadence { sample_interval_ms: 0, control_interval_ms: 1, write_interval_ms: 1 }),
            ..managed_draft_entry()
        },
    );
    let result = validate_draft(&draft, &snapshot);
    assert!(matches!(&result.rejected[0].1, ValidationError::InvalidCadence { .. }));

    let draft = draft_with(
        FAN1,
        DraftFanEntry {
            actuator_policy: Some(ActuatorPolicy { pwm_min: 200, pwm_max: 100, ..ActuatorPolicy::default() }),
            ..managed_draft_entry()
        },
    );
    let result = validate_draft(&draft, &snapshot);
    assert!(matches!(&result.rejected[0].1, ValidationError::InvalidActuatorPolicy { .. }));

    let draft = draft_with(
        FAN1,
        DraftFanEntry {
            pid_limits: Some(PidLimits { integral_min: bits(5.0), integral_max: bits(1.0), ..PidLimits::default() }),
            ..managed_draft_entry()
        },
    );
    let result = validate_draft(&draft, &snapshot);
    assert!(matches!(&result.rejected[0].1, ValidationError::InvalidPidLimits { .. }));
}

// ---- apply_draft against a multi-fan inventory ----

fn test_applied_entry() -> AppliedFanEntry {
    AppliedFanEntry {
        control_mode: ControlMode::Pwm,
        temp_sources: vec!["hwmon-test-0000000000000001-temp1".to_string()],
        target_temp_millidegrees: 50_000,
        aggregation: AggregationFn::Average,
        pid_gains: PidGains { kp: bits(1.0), ki: bits(0.0), kd: bits(0.0) },
        cadence: ControlCadence { sample_interval_ms: 500, control_interval_ms: 1000, write_interval_ms: 2000 },
        deadband_millidegrees: 1000,
        actuator_policy: ActuatorPolicy {
            output_min_percent: bits(0.0),
            output_max_percent: bits(100.0),
            pwm_min: 0,
            pwm_max: 255,
            startup_kick_percent: bits(35.0),
            startup_kick_ms: 1000,
        },
        pid_limits: PidLimits::default(),
    }
}

fn multi_fan(id: &str, channel: u32, label: &str, rpm: u64) -> FanChannel {
    FanChannel {
        id: id.to_string(),
        channel,
        label: Some(label.to_string()),
        friendly_name: None,
        rpm_feedback: true,
        current_rpm: Some(rpm),
        control_modes: vec![ControlMode::Pwm],
        support_state: SupportState::Available,
        support_reason: None,
    }
}

fn multi_fan_snapshot() -> InventorySnapshot {
    InventorySnapshot {
        devices: vec![HwmonDevice {
            id: "hwmon-test-0000000000000001".to_string(),
            name: "testchip".to_string(),
            sysfs_path: "/sys/class/hwmon/hwmon0".to_string(),
            stable_identity: "/sys/devices/platform/testchip".to_string(),
            temperatures: vec![TemperatureSensor {
                id: "hwmon-test-0000000000000001-temp1".to_string(),
                channel: 1,
                label: Some("CPU".to_string()),
                friendly_name: None,
                input_millidegrees_celsius: Some(45_000),
            }],
            fans: vec![
                multi_fan("hwmon-test-0000000000000001-fan1", 1, "CPU Fan", 1200),
                multi_fan("hwmon-test-0000000000000001-fan2", 2, "Case Fan", 800),
                multi_fan("hwmon-test-0000000000000001-fan3", 3, "GPU Fan", 900),
            ],
        }],
    }
}

fn managed_draft(_fan_id: &str) -> DraftFanEntry {
    DraftFanEntry {
        managed: true,
        control_mode: Some(ControlMode::Pwm),
        temp_sources: vec!["hwmon-test-0000000000000001-temp1".to_string()],
        target_temp_millidegrees: Some(60_000),
        aggregation: None,
        pid_gains: None,
        cadence: None,
        deadband_millidegrees: None,
        actuator_policy: None,
        pid_limits: None,
    }
}

fn previous_applied(ids: &[&str]) -> AppliedConfig {
    let mut fans = StrMap::new();
    for id in ids {
        fans.insert(id.to_string(), test_applied_entry());
    }
    AppliedConfig { fans, applied_at: Some("2026-04-10T12:00:00Z".to_string()) }
}

#[test]
fn apply_draft_preserves_previous_applied_fans_absent_from_draft() {
    let snapshot = multi_fan_snapshot();

    let mut draft = DraftConfig::default();
    draft.fans.insert(
        "hwmon-test-0000000000000001-fan1".to_string(),
        managed_draft("hwmon-test-0000000000000001-fan1"),
    );

    let previous = previous_applied(&[
        "hwmon-test-0000000000000001-fan1",
        "hwmon-test-0000000000000001-fan2",
        "hwmon-test-0000000000000001-fan3",
    ]);

    let (applied, result) = apply_draft(&draft, &snapshot, "2026-04-15T12:00:00Z".to_string(), Some(&previous));

    assert!(result.all_passed(), "draft validation should pass");
    assert_eq!(applied.fans.len(), 3, "applied config should contain all 3 fans (1 from draft + 2 preserved)");
    assert!(applied.fans.contains_key("hwmon-test-0000000000000001-fan1"), "fan1 from draft should be in applied");
    assert!(
        applied.fans.contains_key("hwmon-test-0000000000000001-fan2"),
        "fan2 preserved from previous should be in applied"
    );
    assert!(
        applied.fans.contains_key("hwmon-test-0000000000000001-fan3"),
        "fan3 preserved from previous should be in applied"
    );

    let draft_entry = applied.fans.get("hwmon-test-0000000000000001-fan1").unwrap();
    assert_eq!(draft_entry.target_temp_millidegrees, 60_000, "fan1 should use draft target temp");

    let preserved_entry = applied.fans.get("hwmon-test-0000000000000001-fan2").unwrap();
    assert_eq!(preserved_entry.target_temp_millidegrees, 50_000, "fan2 should use previous applied target temp");
}

#[test]
fn apply_draft_enrollable_only_lists_draft_fans_not_preserved() {
    let snapshot = multi_fan_snapshot();

    let mut draft = DraftConfig::default();
    draft.fans.insert(
        "hwmon-test-0000000000000001-fan1".to_string(),
        managed_draft("hwmon-test-0000000000000001-fan1"),
    );

    let previous = previous_applied(&["hwmon-test-0000000000000001-fan2", "hwmon-test-0000000000000001-fan3"]);

    let (_, result) = apply_draft(&draft, &snapshot, "2026-04-15T12:00:00Z".to_string(), Some(&previous));

    assert!(result.all_passed());
    assert_eq!(result.enrollable.len(), 1, "enrollable should only contain draft-validated fans, not preserved ones");
    assert_eq!(
        result.enrollable[0], "hwmon-test-0000000000000001-fan1",
        "enrollable should contain the draft fan"
    );
}

#[test]
fn apply_draft_does_not_preserve_fans_present_in_draft_as_unmanaged() {
    let snapshot = multi_fan_snapshot();

    let mut draft = DraftConfig::default();
    draft.fans.insert(
        "hwmon-test-0000000000000001-fan1".to_string(),
        managed_draft("hwmon-test-0000000000000001-fan1"),
    );
    draft.fans.insert(
        "hwmon-test-0000000000000001-fan2".to_string(),
        DraftFanEntry { managed: false, ..Default::default() },
    );

    let previous = previous_applied(&["hwmon-test-0000000000000001-fan1", "hwmon-test-0000000000000001-fan2"]);

    let (applied, _) = apply_draft(&draft, &snapshot, "2026-04-15T12:00:00Z".to_string(), Some(&previous));

    assert!(applied.fans.contains_key("hwmon-test-0000000000000001-fan1"), "managed draft fan should be in applied");
    assert!(
        !applied.fans.contains_key("hwmon-test-0000000000000001-fan2"),
        "fan explicitly unmanaged in draft should NOT be preserved"
    );
}
