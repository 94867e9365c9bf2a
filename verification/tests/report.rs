use kde_fan_control::config::{AppliedConfig, AppliedFanEntry, DraftConfig, DraftFanEntry};
use kde_fan_control::control::{ActuatorPolicy, AggregationFn, ControlCadence, PidGains, PidLimits};
use kde_fan_control::inventory::{ControlMode, SupportState};
use kde_fan_control::lifecycle::runtime::{ControlRuntimeSnapshot, FanRuntimeStatus};
use kde_fan_control::lifecycle::state::{DegradedReason, DegradedState, LifecycleEvent, LifecycleEventLog};
use kde_fan_control::report::{
    applied_config_lines, degraded_summary_lines, draft_config_lines, lifecycle_event_lines, runtime_detail_lines,
    validation_report_lines,
};
use kde_fan_control::strmap::StrMap;
use kde_fan_control::validation::{ValidationError, ValidationResult};

fn mixed_result() -> ValidationResult {
    ValidationResult {
        enrollable: vec!["hwmon0/fan1".to_string()],
        rejected: vec![
            ("hwmon0/fan2".to_string(), ValidationError::FanNotFound { fan_id: "hwmon0/fan2".to_string() }),
            (
                "hwmon0/fan3".to_string(),
                ValidationError::FanNotEnrollable {
                    fan_id: "hwmon0/fan3".to_string(),
                    support_state: SupportState::Partial,
                    reason: "no pwm".to_string(),
                },
            ),
            (
                "hwmon0/fan4".to_string(),
                ValidationError::UnsupportedControlMode {
                    fan_id: "hwmon0/fan4".to_string(),
                    requested: ControlMode::Voltage,
                    available: vec![ControlMode::Pwm],
                },
            ),
            ("hwmon0/fan5".to_string(), ValidationError::MissingControlMode { fan_id: "hwmon0/fan5".to_string() }),
            (
                "hwmon0/fan6".to_string(),
                ValidationError::TempSourceNotFound {
                    fan_id: "hwmon0/fan6".to_string(),
                    temp_id: "hwmon0/temp9".to_string(),
                },
            ),
            (
                "hwmon0/fan7".to_string(),
                ValidationError::InvalidCadence {
                    fan_id: "hwmon0/fan7".to_string(),
                    reason: "sample interval must be positive".to_string(),
                },
            ),
        ],
    }
}

#[test]
fn validation_report_names_each_rejection_kind() {
    let lines = validation_report_lines(&mixed_result(), "validate");
    assert_eq!(
        lines,
        vec![
            "=== DRAFT VALIDATION RESULTS ===",
            "Enrollable (would be promoted on apply):",
            "  ✓ hwmon0/fan1",
            "Rejected (would block promotion on apply):",
            "  ✗ hwmon0/fan2: fan not found in current hardware inventory",
            "  ✗ hwmon0/fan3: fan is not enrollable (support state: partial)",
            "  ✗ hwmon0/fan4: requested control mode not supported by this fan",
            "  ✗ hwmon0/fan5: no control mode selected for managed fan",
            "  ✗ hwmon0/fan6: referenced temperature source not found",
            "  ✗ hwmon0/fan7: managed fan 'hwmon0/fan7' has invalid cadence: sample interval must be positive",
            "",
            "Use 'apply' to promote the enrollable fans. Rejected fans will remain in draft.",
        ]
    );
}

#[test]
fn apply_report_says_changes_are_live() {
    let result = ValidationResult { enrollable: vec!["hwmon0/fan1".to_string()], rejected: vec![] };
    let lines = validation_report_lines(&result, "apply");
    assert_eq!(
        lines,
        vec![
            "=== APPLY RESULTS ===",
            "Promoted to APPLIED configuration (now live):",
            "  ✓ hwmon0/fan1",
            "",
            "Changes are now LIVE. Use 'state' to see current fan statuses.",
        ]
    );
}

#[test]
fn apply_report_without_promotions_points_at_degraded() {
    let result = ValidationResult {
        enrollable: vec![],
        rejected: vec![(
            "hwmon0/fan2".to_string(),
            ValidationError::MissingTargetTemp { fan_id: "hwmon0/fan2".to_string() },
        )],
    };
    let lines = validation_report_lines(&result, "apply");
    assert_eq!(
        lines,
        vec![
            "=== APPLY RESULTS ===",
            "Rejected (NOT promoted, still in draft):",
            "  ✗ hwmon0/fan2: managed fan 'hwmon0/fan2' has no target temperature configured",
            "",
            "No fans were promoted. Fix the issues above and re-try, or use 'degraded' to inspect.",
        ]
    );
}

#[test]
fn empty_draft_report_is_one_line() {
    let result = ValidationResult { enrollable: vec![], rejected: vec![] };
    assert_eq!(validation_report_lines(&result, "apply"), vec!["Draft is empty — nothing to apply."]);
    assert_eq!(validation_report_lines(&result, "validate"), vec!["Draft is empty — nothing to validate."]);
}

#[test]
fn validation_report_without_rejections_has_no_hint() {
    let result = ValidationResult { enrollable: vec!["a".to_string(), "b".to_string()], rejected: vec![] };
    assert_eq!(
        validation_report_lines(&result, "validate"),
        vec!["=== DRAFT VALIDATION RESULTS ===", "Enrollable (would be promoted on apply):", "  ✓ a", "  ✓ b"]
    );
}

#[test]
fn draft_report_lists_fans_in_id_order() {
    let mut draft = DraftConfig::default();
    draft.fans.insert(
        "hwmon1/fan1".to_string(),
        DraftFanEntry {
            managed: true,
            control_mode: Some(ControlMode::Pwm),
            temp_sources: vec!["hwmon0/temp1".to_string(), "hwmon0/temp2".to_string()],
            ..DraftFanEntry::default()
        },
    );
    draft.fans.insert("hwmon0/fan2".to_string(), DraftFanEntry { managed: false, ..DraftFanEntry::default() });
    assert_eq!(
        draft_config_lines(&draft),
        vec![
            "=== DRAFT CONFIGURATION (staged, NOT yet applied) ===",
            "  hwmon0/fan2 [UNMANAGED] no mode set",
            "  hwmon1/fan1 [MANAGED] mode=pwm | temp_sources=[hwmon0/temp1, hwmon0/temp2]",
            "",
            "Changes above are STAGED. Run 'apply' to promote to the live configuration.",
        ]
    );
}

#[test]
fn empty_draft_report_points_at_enroll() {
    assert_eq!(
        draft_config_lines(&DraftConfig::default()),
        vec![
            "Draft configuration is empty.",
            "Use 'enroll' to stage fan enrollment changes, then 'apply' to make them live.",
        ]
    );
}

fn applied_entry(mode: ControlMode, temps: &[&str]) -> AppliedFanEntry {
    AppliedFanEntry {
        control_mode: mode,
        temp_sources: temps.iter().map(|t| t.to_string()).collect(),
        target_temp_millidegrees: 65_000,
        aggregation: AggregationFn::Average,
        pid_gains: PidGains::default(),
        cadence: ControlCadence::default(),
        deadband_millidegrees: 1_000,
        actuator_policy: ActuatorPolicy::default(),
        pid_limits: PidLimits::default(),
    }
}

#[test]
fn applied_report_shows_time_mode_and_sensors() {
    let mut fans = StrMap::new();
    fans.insert("hwmon2/fan1".to_string(), applied_entry(ControlMode::Voltage, &[]));
    fans.insert("hwmon0/fan3".to_string(), applied_entry(ControlMode::Pwm, &["hwmon0/temp1"]));
    let applied = AppliedConfig { fans, applied_at: Some("2026-04-11T10:00:00Z".to_string()) };
    assert_eq!(
        applied_config_lines(Some(&applied)),
        vec![
            "=== APPLIED CONFIGURATION (live, applied at 2026-04-11T10:00:00Z) ===",
            "  hwmon0/fan3 [MANAGED, mode=pwm] | temp_sources=[hwmon0/temp1]",
            "  hwmon2/fan1 [MANAGED, mode=voltage]",
        ]
    );
}

#[test]
fn applied_report_covers_missing_and_empty_configurations() {
    assert_eq!(
        applied_config_lines(None),
        vec![
            "No applied configuration — no fans are currently managed.",
            "Use 'enroll' to stage changes, then 'apply' to make them live.",
        ]
    );
    let empty = AppliedConfig { fans: StrMap::new(), applied_at: None };
    assert_eq!(
        applied_config_lines(Some(&empty)),
        vec!["=== APPLIED CONFIGURATION (live) ===", "  No fans are currently managed."]
    );
    let mut fans = StrMap::new();
    fans.insert("a".to_string(), applied_entry(ControlMode::Pwm, &[]));
    let untimed = AppliedConfig { fans, applied_at: None };
    assert_eq!(
        applied_config_lines(Some(&untimed)),
        vec!["=== APPLIED CONFIGURATION (live, applied at unknown) ===", "  a [MANAGED, mode=pwm]"]
    );
}

#[test]
fn degraded_report_joins_reasons_per_fan() {
    let mut degraded = DegradedState::new();
    assert_eq!(degraded_summary_lines(&degraded), vec!["No degraded fans — all enrolled fans are healthy."]);
    degraded.mark_degraded(
        "hwmon1/fan1".to_string(),
        vec![
            DegradedReason::FanMissing { fan_id: "hwmon1/fan1".to_string() },
            DegradedReason::TempSourceMissing {
                fan_id: "hwmon1/fan1".to_string(),
                temp_id: "hwmon1/temp2".to_string(),
            },
        ],
    );
    degraded.mark_degraded(
        "hwmon0/fan1".to_string(),
        vec![DegradedReason::ControlModeUnavailable { fan_id: "hwmon0/fan1".to_string(), mode: ControlMode::Voltage }],
    );
    assert_eq!(
        degraded_summary_lines(&degraded),
        vec![
            "=== DEGRADED FANS ===",
            "  ⚠ hwmon0/fan1: hwmon0/fan1 — configured control mode 'voltage' no longer supported",
            "  ⚠ hwmon1/fan1: fan missing from hardware (was: hwmon1/fan1); hwmon1/fan1 — temperature source 'hwmon1/temp2' missing",
        ]
    );
}

#[test]
fn event_report_lists_events_oldest_first_with_details() {
    let mut log = LifecycleEventLog::new();
    assert_eq!(lifecycle_event_lines(&log), vec!["No lifecycle events recorded."]);
    log.push(LifecycleEvent {
        timestamp: "2026-04-11T10:00:00Z".to_string(),
        reason: DegradedReason::FanMissing { fan_id: "hwmon0/fan1".to_string() },
        detail: Some("boot".to_string()),
    });
    log.push(LifecycleEvent {
        timestamp: "2026-04-11T10:00:05Z".to_string(),
        reason: DegradedReason::PartialBootRecovery { failed_count: 1, recovered_count: 2 },
        detail: Some(String::new()),
    });
    log.push(LifecycleEvent {
        timestamp: "2026-04-11T10:00:09Z".to_string(),
        reason: DegradedReason::FallbackActive { affected_fans: vec!["a".to_string(), "b".to_string()] },
        detail: None,
    });
    assert_eq!(
        lifecycle_event_lines(&log),
        vec![
            "=== LIFECYCLE EVENTS (most recent last) ===",
            "  [2026-04-11T10:00:00Z] fan missing from hardware (was: hwmon0/fan1) — boot",
            "  [2026-04-11T10:00:05Z] partial boot recovery: 2 recovered, 1 failed",
            "  [2026-04-11T10:00:09Z] fallback active for fans: a, b",
        ]
    );
}

#[test]
fn runtime_detail_shows_control_profile_and_reasons() {
    let status = FanRuntimeStatus::Managed {
        control_mode: ControlMode::Pwm,
        control: ControlRuntimeSnapshot {
            sensor_ids: vec!["temp0".to_string(), "temp1".to_string()],
            aggregation: AggregationFn::Max,
            target_temp_millidegrees: 60_000,
            aggregated_temp_millidegrees: Some(55_250),
            logical_output_percent: Some(42.5f64.to_bits()),
            mapped_pwm: Some(108),
            auto_tuning: false,
            alert_high_temp: false,
            last_error_millidegrees: Some(-4_750),
        },
    };
    let profile = AppliedFanEntry {
        cadence: ControlCadence { sample_interval_ms: 1000, control_interval_ms: 2000, write_interval_ms: 2000 },
        deadband_millidegrees: 1000,
        ..applied_entry(ControlMode::Pwm, &["temp0", "temp1"])
    };
    assert_eq!(
        runtime_detail_lines(&status, Some(&profile), "1.000", "0.200", "0.500"),
        vec![
            "      sensors: temp0, temp1",
            "      aggregation: max",
            "      high-temp alert: no",
            "      gains: kp=1.000 ki=0.200 kd=0.500",
            "      cadence: sample=1000 ms, control=2000 ms, write=2000 ms",
            "      deadband: 1000 millidegrees",
        ]
    );
}

#[test]
fn runtime_detail_of_degraded_fan_lists_reasons_only() {
    let status = FanRuntimeStatus::Degraded {
        reasons: vec![
            DegradedReason::FanMissing { fan_id: "fan0".to_string() },
            DegradedReason::PartialBootRecovery { failed_count: 2, recovered_count: 0 },
        ],
    };
    assert_eq!(
        runtime_detail_lines(&status, None, "", "", ""),
        vec![
            "      degraded: fan missing from hardware (was: fan0)",
            "      degraded: partial boot recovery: 0 recovered, 2 failed",
        ]
    );
    let negative = AppliedFanEntry { deadband_millidegrees: -250, ..applied_entry(ControlMode::Pwm, &[]) };
    assert_eq!(
        runtime_detail_lines(&FanRuntimeStatus::Fallback, Some(&negative), "0.100", "0.010", "0.000")[2],
        "      deadband: -250 millidegrees"
    );
}
