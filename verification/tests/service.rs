use kde_fan_control::service::fan_loop::{
    fan_loop_step, startup_kick_required, FanLoopAction, FanLoopEvent, FanLoopState,
};
use kde_fan_control::config::{
    app_state_dir_from, config_path, AppConfig, AppliedConfig, AppliedFanEntry, DraftFanEntry, FriendlyNames,
};
use kde_fan_control::control::{ActuatorPolicy, AggregationFn, ControlCadence, PidGains, PidLimits};
use kde_fan_control::inventory::{
    ControlMode, FanChannel, HwmonDevice, InventorySnapshot, SupportState, TemperatureSensor,
};
use kde_fan_control::lifecycle::fallback::FallbackResult;
use kde_fan_control::lifecycle::owned::OwnedFanSet;
use kde_fan_control::lifecycle::state::{DegradedReason, DegradedState, LifecycleEventLog};
use kde_fan_control::service::apply::{
    claim_enrolled_fans, record_apply_rejections, record_release_failures, release_after_fallback,
    removed_owned_fans,
};
use kde_fan_control::service::autotune::{
    auto_tune_acceptance_error, auto_tune_lag_time_ms, auto_tune_phase_after_sample, auto_tune_record_sample,
    auto_tune_start_error, AutoTunePhase, AutoTuneRun, AutoTuneSample,
};
use kde_fan_control::service::helpers::{
    control_snapshot_from_applied, draft_entry_from_applied, owned_fans_path, parse_control_mode,
    validation_error_to_degraded_reason, DaemonTuningSettings,
};
use kde_fan_control::service::panic_mirror::{sync_panic_fallback_mirror_from_owned, PanicFallbackMirror};
use kde_fan_control::service::profile::{
    accept_auto_tune_gains, set_draft_fan_control_profile, DraftFanControlProfilePayload, ProfileError,
};
use kde_fan_control::service::recovery::{
    record_fallback_incident, recover_degraded_fans, sample_is_stale, stale_tick, StaleCheck,
};
use kde_fan_control::service::sampling::{
    apply_friendly_names, resolve_fan_rpm_path, resolve_temp_sources, rpm_poll_paths,
};
use kde_fan_control::strmap::StrMap;
use kde_fan_control::validation::{apply_draft, ValidationError};

const FAN1: &str = "hwmon-test-0000000000000001-fan1";
const TEMP1: &str = "hwmon-test-0000000000000001-temp1";

fn test_snapshot() -> InventorySnapshot {
    InventorySnapshot {
        devices: vec![HwmonDevice {
            id: "hwmon-test-0000000000000001".to_string(),
            name: "testchip".to_string(),
            sysfs_path: "/sys/class/hwmon/hwmon0".to_string(),
            stable_identity: "/sys/devices/platform/testchip".to_string(),
            temperatures: vec![TemperatureSensor {
                id: TEMP1.to_string(),
                channel: 1,
                label: Some("CPU".to_string()),
                friendly_name: None,
                input_millidegrees_celsius: Some(45000),
            }],
            fans: vec![FanChannel {
                id: FAN1.to_string(),
                channel: 1,
                label: Some("CPU Fan".to_string()),
                friendly_name: None,
                rpm_feedback: true,
                current_rpm: Some(1200),
                control_modes: vec![ControlMode::Pwm],
                support_state: SupportState::Available,
                support_reason: None,
            }],
        }],
    }
}

fn applied_entry() -> AppliedFanEntry {
    AppliedFanEntry {
        control_mode: ControlMode::Pwm,
        temp_sources: vec![TEMP1.to_string()],
        target_temp_millidegrees: 65_000,
        aggregation: AggregationFn::Average,
        pid_gains: PidGains::default(),
        cadence: ControlCadence::default(),
        deadband_millidegrees: 1_000,
        actuator_policy: ActuatorPolicy::default(),
        pid_limits: PidLimits::default(),
    }
}

fn applied_config() -> AppliedConfig {
    let mut fans = StrMap::new();
    fans.insert(FAN1.to_string(), applied_entry());
    AppliedConfig { fans, applied_at: Some("t0".to_string()) }
}

// ---------------------------------------------------------------------------
// helpers
// ---------------------------------------------------------------------------

#[test]
fn parse_control_mode_accepts_known_names() {
    assert_eq!(parse_control_mode("").unwrap(), None);
    assert_eq!(parse_control_mode("none").unwrap(), None);
    assert_eq!(parse_control_mode("pwm").unwrap(), Some(ControlMode::Pwm));
    assert_eq!(parse_control_mode("voltage").unwrap(), Some(ControlMode::Voltage));
    assert_eq!(
        parse_control_mode("PWM").unwrap_err(),
        "unknown control mode 'PWM'; expected 'pwm', 'voltage', or empty"
    );
}

#[test]
fn validation_errors_map_to_degraded_reasons() {
    let r = validation_error_to_degraded_reason(&ValidationError::FanNotFound { fan_id: "f".into() });
    assert!(matches!(r, DegradedReason::FanMissing { fan_id } if fan_id == "f"));
    let r = validation_error_to_degraded_reason(&ValidationError::UnsupportedControlMode {
        fan_id: "f".into(),
        requested: ControlMode::Voltage,
        available: vec![ControlMode::Pwm],
    });
    assert!(matches!(r, DegradedReason::ControlModeUnavailable { mode: ControlMode::Voltage, .. }));
    let r = validation_error_to_degraded_reason(&ValidationError::MissingControlMode { fan_id: "f".into() });
    assert!(matches!(r, DegradedReason::FanNoLongerEnrollable { reason, support_state: SupportState::Unavailable, .. } if reason == "no control mode selected"));
    let r = validation_error_to_degraded_reason(&ValidationError::MissingTargetTemp { fan_id: "f".into() });
    assert!(matches!(r, DegradedReason::FanNoLongerEnrollable { reason, .. } if reason == "managed fan 'f' has no target temperature configured"));
    let r = validation_error_to_degraded_reason(&ValidationError::TempSourceNotFound {
        fan_id: "f".into(),
        temp_id: "t".into(),
    });
    assert!(matches!(r, DegradedReason::TempSourceMissing { temp_id, .. } if temp_id == "t"));
}

#[test]
fn draft_entry_from_applied_keeps_every_setting() {
    let entry = draft_entry_from_applied(&applied_entry());
    assert!(entry.managed);
    assert_eq!(entry.control_mode, Some(ControlMode::Pwm));
    assert_eq!(entry.temp_sources, vec![TEMP1.to_string()]);
    assert_eq!(entry.target_temp_millidegrees, Some(65_000));
    assert_eq!(entry.aggregation, Some(AggregationFn::Average));
    assert_eq!(entry.pid_gains, Some(PidGains::default()));
    assert_eq!(entry.deadband_millidegrees, Some(1_000));
    let snap = control_snapshot_from_applied(&applied_entry());
    assert_eq!(snap.sensor_ids, vec![TEMP1.to_string()]);
    assert_eq!(snap.target_temp_millidegrees, 65_000);
    assert!(!snap.auto_tuning);
}

#[test]
fn state_paths_join_directory_and_file() {
    assert_eq!(owned_fans_path("/var/lib/kde-fan-control"), "/var/lib/kde-fan-control/owned-fans.json");
    assert_eq!(owned_fans_path("/state/"), "/state/owned-fans.json");
    assert_eq!(config_path("/state"), "/state/config.toml");
    assert_eq!(app_state_dir_from(Some("/run/a:/run/b".into()), None), "/run/a");
    assert_eq!(app_state_dir_from(None, Some("/home/u/.local/state".into())), "/home/u/.local/state/kde-fan-control");
    assert_eq!(app_state_dir_from(Some("  ".into()), None), "/var/lib/kde-fan-control");
}

#[test]
fn tuning_settings_default_window() {
    assert_eq!(DaemonTuningSettings::default().auto_tune_observation_window_ms, 30_000);
}

// ---------------------------------------------------------------------------
// auto-tune
// ---------------------------------------------------------------------------

fn sample(elapsed_ms: u64, t: i64) -> AutoTuneSample {
    AutoTuneSample { elapsed_ms, aggregated_temp_millidegrees: t }
}

#[test]
fn auto_tune_lag_is_first_half_degree_move() {
    let samples = vec![sample(0, 60_000), sample(15, 59_800), sample(30, 59_400), sample(45, 57_500)];
    assert_eq!(auto_tune_lag_time_ms(40, &samples), Ok(30));
    let flat = vec![sample(0, 60_000), sample(10, 60_100)];
    assert_eq!(auto_tune_lag_time_ms(40, &flat), Ok(10));
    assert_eq!(auto_tune_lag_time_ms(2, &flat), Ok(1));
    let instant = vec![sample(0, 60_000), sample(0, 61_000)];
    assert_eq!(auto_tune_lag_time_ms(40, &instant), Ok(1));
    assert_eq!(
        auto_tune_lag_time_ms(40, &[sample(0, 1)]),
        Err("auto-tune needs at least two temperature samples".to_string())
    );
}

#[test]
fn auto_tune_start_checks_in_order() {
    assert_eq!(
        auto_tune_start_error("f", false, false, false, AutoTunePhase::Idle).as_deref(),
        Some("fan 'f' is not managed by the applied config")
    );
    assert_eq!(
        auto_tune_start_error("f", true, false, true, AutoTunePhase::Idle).as_deref(),
        Some("fan 'f' is not currently owned by the daemon")
    );
    assert_eq!(
        auto_tune_start_error("f", true, true, false, AutoTunePhase::Idle).as_deref(),
        Some("fan 'f' is missing live control state")
    );
    assert_eq!(
        auto_tune_start_error("f", true, true, true, AutoTunePhase::Running).as_deref(),
        Some("fan 'f' is already auto-tuning")
    );
    assert_eq!(auto_tune_start_error("f", true, true, true, AutoTunePhase::Completed), None);
}

#[test]
fn auto_tune_acceptance_needs_completed_run() {
    assert_eq!(auto_tune_acceptance_error("f", AutoTunePhase::Completed, ""), None);
    assert_eq!(
        auto_tune_acceptance_error("f", AutoTunePhase::Failed, "boom").as_deref(),
        Some("auto-tune failed for 'f': boom")
    );
    assert_eq!(
        auto_tune_acceptance_error("f", AutoTunePhase::Running, "").as_deref(),
        Some("auto-tune is still running for 'f'")
    );
    assert_eq!(
        auto_tune_acceptance_error("f", AutoTunePhase::Idle, "").as_deref(),
        Some("no auto-tune result is available for 'f'")
    );
}

// ---------------------------------------------------------------------------
// profile edits
// ---------------------------------------------------------------------------

fn config_with_applied() -> AppConfig {
    let mut config = AppConfig::default();
    config.set_applied(applied_config());
    config
}

#[test]
fn profile_edit_starts_from_applied_settings() {
    let mut config = config_with_applied();
    let patch = DraftFanControlProfilePayload {
        target_temp_millidegrees: Some(Some(70_000)),
        aggregation: Some(Some(AggregationFn::Max)),
        ..DraftFanControlProfilePayload::default()
    };
    assert!(set_draft_fan_control_profile(&mut config, FAN1, patch).is_ok());
    let entry = config.draft_fan(FAN1).expect("draft entry");
    assert!(entry.managed);
    assert_eq!(entry.target_temp_millidegrees, Some(70_000));
    assert_eq!(entry.aggregation, Some(AggregationFn::Max));
    assert_eq!(entry.temp_sources, vec![TEMP1.to_string()]);
}

#[test]
fn profile_edit_refuses_unknown_fan() {
    let mut config = AppConfig::default();
    let err = set_draft_fan_control_profile(&mut config, "ghost", DraftFanControlProfilePayload::default())
        .unwrap_err();
    assert!(matches!(err, ProfileError::NoProfile(m) if m == "fan 'ghost' has no existing draft or applied control profile"));
    assert!(config.draft_fan("ghost").is_none());
}

#[test]
fn profile_edit_rejects_bad_values_after_applying_earlier_fields() {
    let mut config = config_with_applied();
    let patch = DraftFanControlProfilePayload {
        temp_sources: Some(vec!["other".into()]),
        target_temp_millidegrees: Some(Some(200_000)),
        ..DraftFanControlProfilePayload::default()
    };
    let err = set_draft_fan_control_profile(&mut config, FAN1, patch).unwrap_err();
    assert!(matches!(err, ProfileError::InvalidArgs(m) if m == "target_temp_millidegrees 200000 is out of bounds (must be 1..=150000)"));
    let entry = config.draft_fan(FAN1).expect("draft entry");
    assert_eq!(entry.temp_sources, vec!["other".to_string()]);
    assert_eq!(entry.target_temp_millidegrees, Some(65_000));

    let patch = DraftFanControlProfilePayload {
        pid_gains: Some(Some(PidGains { kp: f64::NAN.to_bits(), ki: 0, kd: 0 })),
        ..DraftFanControlProfilePayload::default()
    };
    let err = set_draft_fan_control_profile(&mut config, FAN1, patch).unwrap_err();
    assert!(matches!(err, ProfileError::InvalidArgs(m) if m == "pid_gains contains non-finite values (NaN or Infinity)"));

    let patch = DraftFanControlProfilePayload {
        pid_limits: Some(Some(PidLimits { integral_max: f64::INFINITY.to_bits(), ..PidLimits::default() })),
        ..DraftFanControlProfilePayload::default()
    };
    let err = set_draft_fan_control_profile(&mut config, FAN1, patch).unwrap_err();
    assert!(matches!(err, ProfileError::InvalidArgs(m) if m == "pid_limits contains non-finite values (NaN or Infinity)"));
}

#[test]
fn profile_edit_can_clear_a_setting() {
    let mut config = AppConfig::default();
    config.set_draft_fan(
        FAN1,
        DraftFanEntry { managed: true, deadband_millidegrees: Some(5), ..DraftFanEntry::default() },
    );
    let patch = DraftFanControlProfilePayload {
        deadband_millidegrees: Some(None),
        ..DraftFanControlProfilePayload::default()
    };
    assert!(set_draft_fan_control_profile(&mut config, FAN1, patch).is_ok());
    assert_eq!(config.draft_fan(FAN1).unwrap().deadband_millidegrees, None);
}

#[test]
fn accepting_auto_tune_stages_gains() {
    let mut config = config_with_applied();
    let gains = PidGains { kp: 2.0f64.to_bits(), ki: 0.5f64.to_bits(), kd: 0.25f64.to_bits() };
    assert!(accept_auto_tune_gains(&mut config, FAN1, gains).is_ok());
    assert_eq!(config.draft_fan(FAN1).unwrap().pid_gains, Some(gains));
    assert_eq!(config.applied().unwrap().fans.get(FAN1).unwrap().pid_gains, PidGains::default());
    let mut empty = AppConfig::default();
    assert_eq!(
        accept_auto_tune_gains(&mut empty, FAN1, gains).unwrap_err(),
        format!("fan '{FAN1}' is not managed by the applied config")
    );
}

// ---------------------------------------------------------------------------
// apply bookkeeping
// ---------------------------------------------------------------------------

#[test]
fn apply_rejections_mark_degraded_and_log() {
    let snapshot = test_snapshot();
    let mut draft = kde_fan_control::config::DraftConfig::default();
    draft.fans.insert(
        FAN1.to_string(),
        DraftFanEntry {
            managed: true,
            control_mode: Some(ControlMode::Pwm),
            temp_sources: vec![TEMP1.into()],
            target_temp_millidegrees: Some(65_000),
            ..DraftFanEntry::default()
        },
    );
    draft.fans.insert(
        "ghost".to_string(),
        DraftFanEntry { managed: true, control_mode: Some(ControlMode::Pwm), ..DraftFanEntry::default() },
    );
    let (_, result) = apply_draft(&draft, &snapshot, "t".into(), None);
    let mut degraded = DegradedState::new();
    let mut events = LifecycleEventLog::new();
    record_apply_rejections(&result, &mut degraded, &mut events, "ts".into());
    assert_eq!(degraded.degraded_fan_ids(), vec!["ghost".to_string()]);
    assert_eq!(events.len(), 2);
    assert_eq!(
        events.events()[0].detail.as_deref(),
        Some("draft apply rejected fan ghost: fan 'ghost' not found in current inventory")
    );
    assert!(matches!(
        events.events()[1].reason,
        DegradedReason::PartialBootRecovery { failed_count: 1, recovered_count: 1 }
    ));
}

#[test]
fn release_removed_owned_fans_drops_fans_not_in_next_applied_set() {
    let mut owned = OwnedFanSet::new();
    owned.claim_fan("fan-a", ControlMode::Pwm, "/tmp/pwm1");
    owned.claim_fan("fan-b", ControlMode::Pwm, "/sys/class/hwmon/hwmon0/pwm2");
    let removed = removed_owned_fans(&owned, &vec!["fan-b".to_string()]);
    assert_eq!(removed, vec!["fan-a".to_string()]);
    let failures = release_after_fallback(&mut owned, &vec![("fan-a".to_string(), None)]);
    assert!(failures.is_empty());
    assert!(!owned.owns("fan-a"));
    assert!(owned.owns("fan-b"));
}

#[test]
fn release_removed_owned_fans_keeps_ownership_on_fallback_failure() {
    let mut owned = OwnedFanSet::new();
    owned.claim_fan("fan-a", ControlMode::Pwm, "/definitely/missing/pwm1");
    let removed = removed_owned_fans(&owned, &Vec::new());
    assert_eq!(removed, vec!["fan-a".to_string()]);
    let failures =
        release_after_fallback(&mut owned, &vec![("fan-a".to_string(), Some("pwm write failed".to_string()))]);
    assert_eq!(failures.len(), 1);
    assert!(owned.owns("fan-a"));

    let mut degraded = DegradedState::new();
    let mut events = LifecycleEventLog::new();
    record_release_failures(&failures, &mut degraded, &mut events, "ts".into());
    assert!(degraded.has_degraded());
    assert_eq!(
        events.events()[0].detail.as_deref(),
        Some("apply draft could not release fan-a safely; ownership retained")
    );
    assert!(matches!(&events.events()[0].reason, DegradedReason::FanNoLongerEnrollable { reason, .. } if reason == "failed to release fan safely: pwm write failed"));
}

#[test]
fn enrolled_fans_are_claimed_at_their_pwm_node() {
    let mut owned = OwnedFanSet::new();
    let mut degraded = DegradedState::new();
    degraded.mark_degraded(FAN1.into(), vec![DegradedReason::FanMissing { fan_id: FAN1.into() }]);
    claim_enrolled_fans(
        &mut owned,
        &mut degraded,
        &vec![FAN1.to_string(), "ghost".to_string()],
        &applied_config(),
        &test_snapshot(),
    );
    assert_eq!(owned.sysfs_path(FAN1), Some("/sys/class/hwmon/hwmon0/pwm1"));
    assert!(!owned.owns("ghost"));
    assert!(!degraded.has_degraded());
}

// ---------------------------------------------------------------------------
// recovery, watchdog, fallback record
// ---------------------------------------------------------------------------

#[test]
fn recoverable_degraded_fan_is_taken_back() {
    let mut degraded = DegradedState::new();
    degraded.mark_degraded(
        FAN1.into(),
        vec![DegradedReason::TempSourceMissing { fan_id: FAN1.into(), temp_id: TEMP1.into() }],
    );
    degraded.mark_degraded("gone".into(), vec![DegradedReason::FanMissing { fan_id: "gone".into() }]);
    let mut owned = OwnedFanSet::new();
    let mut events = LifecycleEventLog::new();
    let applied = applied_config();
    let recovered =
        recover_degraded_fans(&mut degraded, &mut owned, &mut events, Some(&applied), &test_snapshot(), "ts".into());
    assert_eq!(recovered, vec![FAN1.to_string()]);
    assert_eq!(owned.sysfs_path(FAN1), Some("/sys/class/hwmon/hwmon0/pwm1"));
    assert_eq!(degraded.degraded_fan_ids(), vec!["gone".to_string()]);
    assert_eq!(events.len(), 1);
    assert_eq!(
        events.events()[0].detail.as_deref(),
        Some("fan hwmon-test-0000000000000001-fan1 recovered from degraded state via re-assessment")
    );
}

#[test]
fn degraded_fan_stays_degraded_while_hardware_is_missing() {
    let mut snapshot = test_snapshot();
    snapshot.devices[0].temperatures.clear();
    let mut degraded = DegradedState::new();
    degraded.mark_degraded(
        FAN1.into(),
        vec![DegradedReason::TempSourceMissing { fan_id: FAN1.into(), temp_id: TEMP1.into() }],
    );
    let mut owned = OwnedFanSet::new();
    let mut events = LifecycleEventLog::new();
    let applied = applied_config();
    let recovered =
        recover_degraded_fans(&mut degraded, &mut owned, &mut events, Some(&applied), &snapshot, "ts".into());
    assert!(recovered.is_empty());
    assert!(degraded.has_degraded());
    assert!(owned.is_empty());
    let none = recover_degraded_fans(&mut degraded, &mut owned, &mut events, None, &snapshot, "ts".into());
    assert!(none.is_empty());
}

#[test]
fn stale_watchdog_counts_warns_and_degrades() {
    assert!(sample_is_stale(None));
    assert!(sample_is_stale(Some(0)));
    assert!(!sample_is_stale(Some(41_000)));
    assert_eq!(stale_tick(48, true), StaleCheck { count: 49, warn: false, degrade: false });
    assert_eq!(stale_tick(49, true), StaleCheck { count: 50, warn: true, degrade: false });
    assert_eq!(stale_tick(99, true), StaleCheck { count: 100, warn: false, degrade: true });
    assert_eq!(stale_tick(70, false), StaleCheck { count: 0, warn: false, degrade: false });
}

#[test]
fn shared_fallback_recorder_persists_incident_for_graceful_shutdown() {
    let mut owned = OwnedFanSet::new();
    owned.claim_fan("fan-1", ControlMode::Pwm, "/definitely/missing/pwm1");
    let mut config = AppConfig::default();
    let mut events = LifecycleEventLog::new();
    let mut fallback_fan_ids: Vec<String> = Vec::new();
    let result = FallbackResult {
        succeeded: vec![],
        failed: vec![("fan-1".to_string(), "pwm write failed for fan-1: No such file or directory".to_string())],
    };

    record_fallback_incident(
        &owned,
        &result,
        &mut config,
        &mut events,
        &mut fallback_fan_ids,
        "ctrl-c shutdown",
        "2026-04-11T16:30:00Z".to_string(),
    );

    assert_eq!(result.failed.len(), 1);
    let incident = config.fallback_incident.as_ref().expect("fallback incident");
    assert_eq!(incident.affected_fans, vec!["fan-1"]);
    assert_eq!(incident.detail.as_deref(), Some("ctrl-c shutdown; 0 write(s) succeeded, 1 failed"));
    assert!(fallback_fan_ids.contains(&"fan-1".to_string()));
    assert!(matches!(
        events.events().last().map(|event| &event.reason),
        Some(DegradedReason::FallbackActive { affected_fans }) if affected_fans == &vec!["fan-1".to_string()]
    ));
}

#[test]
fn fallback_recorder_with_no_owned_fans_clears_incident() {
    let owned = OwnedFanSet::new();
    let mut config = AppConfig::default();
    let mut events = LifecycleEventLog::new();
    let mut ids = vec!["stale".to_string()];
    let result = FallbackResult { succeeded: vec![], failed: vec![] };
    record_fallback_incident(&owned, &result, &mut config, &mut events, &mut ids, "x", "ts".into());
    assert!(config.fallback_incident.is_none());
    assert!(events.is_empty());
    assert!(ids.is_empty());
}

// ---------------------------------------------------------------------------
// sysfs nodes and inventory updates
// ---------------------------------------------------------------------------

#[test]
fn sensor_and_tach_nodes_resolve_from_inventory() {
    let snapshot = test_snapshot();
    assert_eq!(
        resolve_temp_sources(&snapshot, &vec![TEMP1.to_string(), "missing".to_string()]),
        vec![(TEMP1.to_string(), "/sys/class/hwmon/hwmon0/temp1_input".to_string())]
    );
    assert_eq!(resolve_fan_rpm_path(&snapshot, FAN1), Some("/sys/class/hwmon/hwmon0/fan1_input".to_string()));
    let mut no_tach = snapshot.clone();
    no_tach.devices[0].fans[0].rpm_feedback = false;
    assert_eq!(resolve_fan_rpm_path(&no_tach, FAN1), None);
    assert_eq!(
        rpm_poll_paths(&snapshot),
        vec![(FAN1.to_string(), "/sys/class/hwmon/hwmon0/fan1_input".to_string())]
    );
    assert!(rpm_poll_paths(&no_tach).is_empty());
}

#[test]
fn friendly_names_and_rpm_updates_apply_to_inventory() {
    let mut names = FriendlyNames::default();
    names.fans.insert(FAN1.to_string(), "Front".to_string());
    names.sensors.insert(TEMP1.to_string(), "Package".to_string());
    let mut snapshot = test_snapshot();
    snapshot.devices[0].fans[0].friendly_name = Some("Old".into());
    let named = apply_friendly_names(&snapshot, &names);
    assert_eq!(named.devices[0].fans[0].friendly_name.as_deref(), Some("Front"));
    assert_eq!(named.devices[0].temperatures[0].friendly_name.as_deref(), Some("Package"));
    let unnamed = apply_friendly_names(&snapshot, &FriendlyNames::default());
    assert_eq!(unnamed.devices[0].fans[0].friendly_name, None);

    let mut updated = named;
    updated.update_fan_rpm(FAN1, Some(900));
    assert_eq!(updated.devices[0].fans[0].current_rpm, Some(900));
    updated.update_fan_rpm("other", None);
    assert_eq!(updated.devices[0].fans[0].current_rpm, Some(900));
}

// ---------------------------------------------------------------------------
// control loops and supervision
// ---------------------------------------------------------------------------

use kde_fan_control::lifecycle::reconcile::reconcile_applied_config;
use kde_fan_control::lifecycle::runtime::{ControlRuntimeSnapshot, FanRuntimeStatus, RuntimeState};
use kde_fan_control::service::supervision::{
    adopt_boot_result, aggregate_source_readings, control_plan, high_temp_alert, runtime_state_with_live,
    sample_failure_action, write_tick_gate, write_tick_output, SampleFailureAction, WriteTickGate,
};

#[test]
fn sample_aggregates_present_readings() {
    let sources = vec!["t1".to_string(), "t2".to_string()];
    let resolved = vec![("t1".to_string(), Some(40_000)), ("t2".to_string(), Some(50_000))];
    assert_eq!(aggregate_source_readings("f", &sources, &resolved, AggregationFn::Average).unwrap(), 45_000);
    assert_eq!(aggregate_source_readings("f", &sources, &resolved, AggregationFn::Max).unwrap(), 50_000);
    let partial = vec![("t1".to_string(), None), ("t2".to_string(), Some(41_000))];
    assert_eq!(aggregate_source_readings("f", &sources, &partial, AggregationFn::Min).unwrap(), 41_000);
}

#[test]
fn sample_without_readings_reports_missing_sensor() {
    let sources = vec!["t1".to_string(), "t2".to_string()];
    let unreadable = vec![("t1".to_string(), None), ("t2".to_string(), None)];
    let err = aggregate_source_readings("f", &sources, &unreadable, AggregationFn::Average).unwrap_err();
    assert!(matches!(err, DegradedReason::TempSourceMissing { fan_id, temp_id } if fan_id == "f" && temp_id == "t2"));
    let err = aggregate_source_readings("f", &sources, &Vec::new(), AggregationFn::Average).unwrap_err();
    assert!(matches!(err, DegradedReason::TempSourceMissing { temp_id, .. } if temp_id == "t1"));
    let err = aggregate_source_readings("f", &Vec::new(), &Vec::new(), AggregationFn::Average).unwrap_err();
    assert!(matches!(err, DegradedReason::TempSourceMissing { temp_id, .. } if temp_id == "unknown-temp"));
}

#[test]
fn aggregation_fit_check_detects_overflow() {
    assert!(AggregationFn::Average.fits(&[1, 2, 3]));
    assert!(!AggregationFn::Average.fits(&[i64::MAX, 1]));
    assert!(AggregationFn::Average.fits(&[i64::MAX, 1, -5][..0]));
    assert!(!AggregationFn::Median.fits(&[i64::MAX, i64::MAX]));
    assert!(AggregationFn::Median.fits(&[i64::MAX, i64::MAX, 0]));
    assert!(AggregationFn::Max.fits(&[i64::MAX, i64::MAX]));
    assert_eq!(AggregationFn::Median.compute_millidegrees(&[5, 1, 4, 2]), Some(3));
    assert_eq!(AggregationFn::Average.compute_millidegrees(&[-3, -4]), Some(-3));
    assert_eq!(AggregationFn::Average.compute_millidegrees(&[]), None);
}

#[test]
fn high_temperature_alert_at_five_degrees_over_target() {
    assert!(!high_temp_alert(69_999, 65_000));
    assert!(high_temp_alert(70_000, 65_000));
}

#[test]
fn control_plan_covers_owned_applied_fans() {
    let mut owned = OwnedFanSet::new();
    let applied = applied_config();
    let plan = control_plan(Some(&applied), &owned);
    assert!(plan.fans.is_empty());
    assert_eq!(plan.publish_cadence_ms, 250);
    owned.claim_fan(FAN1, ControlMode::Pwm, "/p");
    let plan = control_plan(Some(&applied), &owned);
    assert_eq!(plan.fans, vec![FAN1.to_string()]);
    assert_eq!(plan.publish_cadence_ms, 2_000);
    assert!(control_plan(None, &owned).fans.is_empty());
}

#[test]
fn boot_result_replaces_applied_config_only_when_fans_were_restored() {
    let mut config = config_with_applied();
    config.fallback_incident = Some(kde_fan_control::config::FallbackIncident {
        timestamp: "t".into(),
        affected_fans: vec![FAN1.into()],
        failed: vec![],
        detail: None,
    });
    let result = reconcile_applied_config(&applied_config(), &test_snapshot());
    assert!(adopt_boot_result(&mut config, result));
    assert!(config.fallback_incident.is_none());
    assert!(config.applied().unwrap().fans.contains_key(FAN1));

    let mut other = config_with_applied();
    let empty = InventorySnapshot { devices: vec![] };
    let result = reconcile_applied_config(&applied_config(), &empty);
    assert!(!adopt_boot_result(&mut other, result));
    assert!(other.applied().unwrap().fans.contains_key(FAN1));
}

#[test]
fn live_control_data_replaces_managed_snapshots() {
    let mut owned = OwnedFanSet::new();
    owned.claim_fan(FAN1, ControlMode::Pwm, "/p");
    let applied = applied_config();
    let state = RuntimeState::build(&owned, Some(&applied), &DegradedState::new(), &Vec::new(), &test_snapshot());
    let mut live = StrMap::new();
    let mut snap = ControlRuntimeSnapshot::default();
    snap.aggregated_temp_millidegrees = Some(61_000);
    live.insert(FAN1.to_string(), snap);
    live.insert("other".to_string(), ControlRuntimeSnapshot::default());
    let state = runtime_state_with_live(state, &live);
    match state.fan_statuses.get(FAN1) {
        Some(FanRuntimeStatus::Managed { control, .. }) => {
            assert_eq!(control.aggregated_temp_millidegrees, Some(61_000))
        },
        other => panic!("expected managed, got {other:?}"),
    }
    assert!(!state.fan_statuses.contains_key("other"));
}

#[test]
fn panic_mirror_lists_owned_pwm_nodes_in_claim_order() {
    let mut owned = OwnedFanSet::new();
    owned.claim_fan("hwmon1/fan2", ControlMode::Pwm, "/sys/class/hwmon/hwmon1/pwm2");
    owned.claim_fan("hwmon0/fan1", ControlMode::Voltage, "/sys/class/hwmon/hwmon0/pwm1");
    let mut mirror = PanicFallbackMirror::default();
    assert!(mirror.owned_pwm_paths.is_empty());

    sync_panic_fallback_mirror_from_owned(&mut mirror, &owned);
    assert_eq!(
        mirror.owned_pwm_paths,
        vec![
            ("hwmon1/fan2".to_string(), "/sys/class/hwmon/hwmon1/pwm2".to_string()),
            ("hwmon0/fan1".to_string(), "/sys/class/hwmon/hwmon0/pwm1".to_string()),
        ]
    );

    owned.release_fan("hwmon1/fan2");
    sync_panic_fallback_mirror_from_owned(&mut mirror, &owned);
    assert_eq!(
        mirror.owned_pwm_paths,
        vec![("hwmon0/fan1".to_string(), "/sys/class/hwmon/hwmon0/pwm1".to_string())]
    );

    owned.release_all();
    sync_panic_fallback_mirror_from_owned(&mut mirror, &owned);
    assert!(mirror.owned_pwm_paths.is_empty());
}

#[test]
fn auto_tune_run_ends_once_the_window_is_reached() {
    let mut run = AutoTuneRun::new(30_000);
    assert!(run.samples.is_empty());
    assert!(!auto_tune_record_sample(&mut run, 0, 40_000));
    assert!(!auto_tune_record_sample(&mut run, 29_999, 41_000));
    assert!(auto_tune_record_sample(&mut run, 30_000, 42_500));
    assert_eq!(run.observation_window_ms, 30_000);
    assert_eq!(
        run.samples,
        vec![
            AutoTuneSample { elapsed_ms: 0, aggregated_temp_millidegrees: 40_000 },
            AutoTuneSample { elapsed_ms: 29_999, aggregated_temp_millidegrees: 41_000 },
            AutoTuneSample { elapsed_ms: 30_000, aggregated_temp_millidegrees: 42_500 },
        ]
    );
    assert_eq!(auto_tune_lag_time_ms(run.observation_window_ms, &run.samples), Ok(29_999));
}

#[test]
fn auto_tune_phase_follows_window_and_proposal() {
    assert_eq!(auto_tune_phase_after_sample(false, true), AutoTunePhase::Running);
    assert_eq!(auto_tune_phase_after_sample(false, false), AutoTunePhase::Running);
    assert_eq!(auto_tune_phase_after_sample(true, true), AutoTunePhase::Completed);
    assert_eq!(auto_tune_phase_after_sample(true, false), AutoTunePhase::Failed);
}

#[test]
fn fan_loop_ticks_decide_stop_degrade_and_output() {
    assert_eq!(sample_failure_action(true), SampleFailureAction::FailAutoTune);
    assert_eq!(sample_failure_action(false), SampleFailureAction::DegradeAndStop);
    assert_eq!(write_tick_gate(false, false), WriteTickGate::ClearAndStop);
    assert_eq!(write_tick_gate(false, true), WriteTickGate::ClearAndStop);
    assert_eq!(write_tick_gate(true, true), WriteTickGate::Stop);
    assert_eq!(write_tick_gate(true, false), WriteTickGate::Proceed);
    assert_eq!(write_tick_output(true, None).map(f64::from_bits), Some(100.0));
    assert_eq!(write_tick_output(true, Some(42.5f64.to_bits())).map(f64::from_bits), Some(100.0));
    assert_eq!(write_tick_output(false, Some(42.5f64.to_bits())).map(f64::from_bits), Some(42.5));
    assert_eq!(write_tick_output(false, None), None);
}

#[test]
fn aggregation_stays_within_readings_and_ignores_order() {
    let readings = [41_000, 39_500, 47_250, 44_000, 40_125];
    let reordered = [47_250, 40_125, 44_000, 41_000, 39_500];
    for f in [AggregationFn::Average, AggregationFn::Max, AggregationFn::Min, AggregationFn::Median] {
        let v = f.compute_millidegrees(&readings).unwrap();
        assert!((39_500..=47_250).contains(&v));
        assert_eq!(f.compute_millidegrees(&reordered), Some(v));
    }
    assert_eq!(AggregationFn::Max.compute_millidegrees(&readings), Some(47_250));
    assert_eq!(AggregationFn::Min.compute_millidegrees(&readings), Some(39_500));
    assert_eq!(AggregationFn::Median.compute_millidegrees(&readings), Some(41_000));
    assert_eq!(AggregationFn::Average.compute_millidegrees(&readings), Some(42_375));
}

#[test]
fn fan_loop_step_follows_sample_control_and_write_ticks() {
    let s0 = FanLoopState::new();
    let (s1, a1) = fan_loop_step(s0, FanLoopEvent::ControlTick { auto_tuning: false });
    assert_eq!((s1, a1), (s0, FanLoopAction::Continue));
    let (s2, a2) = fan_loop_step(s1, FanLoopEvent::SampleRead { temp: 55_000 });
    assert_eq!(a2, FanLoopAction::RecordSample { temp: 55_000 });
    assert_eq!(s2.latest_aggregated_temp, Some(55_000));
    let (s3, a3) = fan_loop_step(s2, FanLoopEvent::ControlTick { auto_tuning: false });
    assert_eq!(a3, FanLoopAction::RunController { temp: 55_000 });
    let (s4, _) = fan_loop_step(s3, FanLoopEvent::ControllerOutput { output_percent: 40.0f64.to_bits() });
    let (s5, a5) = fan_loop_step(s4, FanLoopEvent::WriteTick { auto_tuning: false, owned: true, degraded: false });
    assert_eq!(a5, FanLoopAction::Write { output_percent: 40.0f64.to_bits(), startup_kick: true });
    let (s6, _) = fan_loop_step(s5, FanLoopEvent::Written { output_percent: 40.0f64.to_bits() });
    assert_eq!(s6.last_written_percent, Some(40.0f64.to_bits()));
    let (_, a7) = fan_loop_step(s6, FanLoopEvent::WriteTick { auto_tuning: false, owned: true, degraded: false });
    assert_eq!(a7, FanLoopAction::Write { output_percent: 40.0f64.to_bits(), startup_kick: false });
    let (_, a8) = fan_loop_step(s6, FanLoopEvent::WriteTick { auto_tuning: true, owned: true, degraded: false });
    assert_eq!(a8, FanLoopAction::Write { output_percent: 100.0f64.to_bits(), startup_kick: false });
    assert_eq!(
        fan_loop_step(s6, FanLoopEvent::WriteTick { auto_tuning: false, owned: false, degraded: false }).1,
        FanLoopAction::ClearAndStop
    );
    assert_eq!(
        fan_loop_step(s6, FanLoopEvent::WriteTick { auto_tuning: false, owned: true, degraded: true }).1,
        FanLoopAction::Stop
    );
    assert_eq!(fan_loop_step(s6, FanLoopEvent::SampleFailed { auto_tuning: false }).1, FanLoopAction::DegradeAndStop);
    let (s9, a9) = fan_loop_step(s6, FanLoopEvent::SampleFailed { auto_tuning: true });
    assert_eq!((s9.latest_output_percent, a9), (None, FanLoopAction::FailAutoTune));
    assert_eq!(fan_loop_step(s6, FanLoopEvent::WriteFailed).1, FanLoopAction::StopAfterWriteFailure);

    assert!(startup_kick_required(None, 10.0f64.to_bits()));
    assert!(startup_kick_required(Some(0.0f64.to_bits()), 10.0f64.to_bits()));
    assert!(!startup_kick_required(Some(5.0f64.to_bits()), 10.0f64.to_bits()));
    assert!(!startup_kick_required(None, 0.0f64.to_bits()));
}
