use kde_fan_control::config::{AppliedConfig, AppliedFanEntry, FallbackIncident};
use kde_fan_control::control::{ActuatorPolicy, AggregationFn, ControlCadence, PidGains, PidLimits};
use kde_fan_control::inventory::{
    ControlMode, FanChannel, HwmonDevice, InventorySnapshot, SupportState, TemperatureSensor,
};
use kde_fan_control::lifecycle::fallback::{
    fallback_result_from_outcomes, fallback_write_plan, lifecycle_event_from_fallback_incident, FallbackResult,
};
use kde_fan_control::lifecycle::owned::OwnedFanSet;
use kde_fan_control::lifecycle::reassess::{reassess_single_fan, ReassessOutcome};
use kde_fan_control::lifecycle::reconcile::{
    perform_boot_reconciliation, perform_boot_reconciliation_at, pwm_node_path,
    reconcile_applied_config, ReconcileOutcome,
};
use kde_fan_control::lifecycle::runtime::{FanRuntimeStatus, RuntimeState};
use kde_fan_control::lifecycle::state::{
    DegradedReason, DegradedState, LifecycleEvent, LifecycleEventLog, MAX_LIFECYCLE_EVENTS,
};
use kde_fan_control::lifecycle::time::{civil_from_days, format_iso8601_utc};
use kde_fan_control::strmap::StrMap;

const FAN1: &str = "hwmon-test-0000000000000001-fan1";
const TEMP1: &str = "hwmon-test-0000000000000001-temp1";

fn test_snapshot() -> InventorySnapshot {
    InventorySnapshot {
        devices: vec![HwmonDevice {
            id: "hwmon-test-0000000000000001".to_string(),
            name: "testchip".to_string(),
            sysfs_path: "/sys/class/hwmon/hwmon0".to_string(),
            stable_identity: "/sys/devices/platform/testchip".to_string(),
            temperatures: vec![TemperatureSensor {
                id: TEMP1.to_string(),
                channel: 1,
                label: Some("CPU".to_string()),
                friendly_name: None,
                input_millidegrees_celsius: Some(45000),
            }],
            fans: vec![FanChannel {
                id: FAN1.to_string(),
                channel: 1,
                label: Some("CPU Fan".to_string()),
                friendly_name: None,
                rpm_feedback: true,
                current_rpm: Some(1200),
                control_modes: vec![ControlMode::Pwm],
                support_state: SupportState::Available,
                support_reason: None,
            }],
        }],
    }
}

fn empty_device_snapshot(with_temp: bool) -> InventorySnapshot {
    let mut snapshot = test_snapshot();
    snapshot.devices[0].fans.clear();
    if !with_temp {
        snapshot.devices[0].temperatures.clear();
    }
    snapshot
}

fn test_snapshot_with_second_device() -> InventorySnapshot {
    let mut snapshot = test_snapshot();
    snapshot.devices.push(HwmonDevice {
        id: "hwmon-other-0000000000000002".to_string(),
        name: "otherchip".to_string(),
        sysfs_path: "/sys/class/hwmon/hwmon1".to_string(),
        stable_identity: "/sys/devices/platform/otherchip".to_string(),
        temperatures: vec![],
        fans: vec![FanChannel {
            id: "hwmon-other-0000000000000002-fan1".to_string(),
            channel: 1,
            label: Some("Case Fan".to_string()),
            friendly_name: None,
            rpm_feedback: false,
            current_rpm: None,
            control_modes: vec![ControlMode::Pwm],
            support_state: SupportState::Available,
            support_reason: None,
        }],
    });
    snapshot
}

fn applied_fan_entry(temp_sources: Vec<String>) -> AppliedFanEntry {
    AppliedFanEntry {
        control_mode: ControlMode::Pwm,
        temp_sources,
        target_temp_millidegrees: 65_000,
        aggregation: AggregationFn::Average,
        pid_gains: PidGains::default(),
        cadence: ControlCadence::default(),
        deadband_millidegrees: 1_000,
        actuator_policy: ActuatorPolicy::default(),
        pid_limits: PidLimits::default(),
    }
}

fn applied_config_single_fan() -> AppliedConfig {
    let mut fans = StrMap::new();
    fans.insert(FAN1.to_string(), applied_fan_entry(vec![TEMP1.to_string()]));
    AppliedConfig { fans, applied_at: Some("2026-04-11T12:00:00Z".to_string()) }
}

// ---------------------------------------------------------------------------
// state
// ---------------------------------------------------------------------------

#[test]
fn lifecycle_event_log_bounds() {
    let mut log = LifecycleEventLog::new();
    for i in 0..MAX_LIFECYCLE_EVENTS + 10 {
        log.push(LifecycleEvent {
            timestamp: format!("2026-04-11T12:{i:02}:00Z"),
            reason: DegradedReason::FanMissing { fan_id: format!("fan-{i}") },
            detail: None,
        });
    }
    assert_eq!(log.len(), MAX_LIFECYCLE_EVENTS);
    let first = &log.events()[0];
    assert!(first.timestamp.contains("10"));
}

#[test]
fn degraded_reason_display() {
    let reason = DegradedReason::FanMissing { fan_id: "fan-1".to_string() };
    assert!(reason.message().contains("fan-1"));

    let reason = DegradedReason::PartialBootRecovery { failed_count: 2, recovered_count: 3 };
    let text = reason.message();
    assert!(text.contains("3 recovered"));
    assert!(text.contains("2 failed"));
}

#[test]
fn is_recoverable_classifies_degraded_reasons() {
    assert!(DegradedReason::TempSourceMissing { fan_id: "f1".into(), temp_id: "t1".into() }.is_recoverable());
    assert!(DegradedReason::StaleSensorData { fan_id: "f1".into() }.is_recoverable());
    assert!(DegradedReason::ControlModeUnavailable { fan_id: "f1".into(), mode: ControlMode::Pwm }.is_recoverable());
    assert!(!DegradedReason::FanMissing { fan_id: "f1".into() }.is_recoverable());
    assert!(!DegradedReason::FanNoLongerEnrollable {
        fan_id: "f1".into(),
        support_state: SupportState::Unavailable,
        reason: "test".into(),
    }
    .is_recoverable());
    assert!(!DegradedReason::FanRecovered { fan_id: "f1".into() }.is_recoverable());
}

#[test]
fn degraded_state_is_fan_recoverable() {
    let mut state = DegradedState::new();
    state.mark_degraded(
        "f1".into(),
        vec![
            DegradedReason::TempSourceMissing { fan_id: "f1".into(), temp_id: "t1".into() },
            DegradedReason::FanMissing { fan_id: "f1".into() },
        ],
    );
    assert!(state.is_fan_recoverable("f1"));

    let mut state_no_recovery = DegradedState::new();
    state_no_recovery.mark_degraded("f1".into(), vec![DegradedReason::FanMissing { fan_id: "f1".into() }]);
    assert!(!state_no_recovery.is_fan_recoverable("f1"));
}

#[test]
fn degraded_reason_messages_are_exact() {
    assert_eq!(
        DegradedReason::BootReconciled { restored_count: 2 }.message(),
        "boot reconciliation restored 2 managed fan(s)"
    );
    assert_eq!(
        DegradedReason::FallbackActive { affected_fans: vec!["a".into(), "b".into()] }.message(),
        "fallback active for fans: a, b"
    );
    assert_eq!(
        DegradedReason::TempSourceMissing { fan_id: "f".into(), temp_id: "t".into() }.message(),
        "temperature source 't' for fan 'f' missing"
    );
}

#[test]
fn degraded_state_mark_clear_and_list() {
    let mut state = DegradedState::new();
    assert!(!state.has_degraded());
    state.mark_degraded("b".into(), vec![DegradedReason::FanMissing { fan_id: "b".into() }]);
    state.mark_degraded("a".into(), vec![DegradedReason::StaleSensorData { fan_id: "a".into() }]);
    assert_eq!(state.degraded_fan_ids(), vec!["b".to_string(), "a".to_string()]);
    state.clear_fan("b");
    assert_eq!(state.degraded_fan_ids(), vec!["a".to_string()]);
    assert!(!state.is_fan_recoverable("b"));
    state.clear_all();
    assert!(!state.has_degraded());
}

#[test]
fn lifecycle_event_log_clear_and_default() {
    let mut log = LifecycleEventLog::default();
    assert!(log.is_empty());
    log.push(LifecycleEvent {
        timestamp: "t".into(),
        reason: DegradedReason::FanRecovered { fan_id: "f".into() },
        detail: Some("d".into()),
    });
    assert_eq!(log.len(), 1);
    log.clear();
    assert!(log.is_empty());
}

// ---------------------------------------------------------------------------
// fallback
// ---------------------------------------------------------------------------

#[test]
fn fallback_incident_records_only_owned_fans() {
    let mut owned = OwnedFanSet::new();
    owned.claim_fan(FAN1, ControlMode::Pwm, "/sys/class/hwmon/hwmon0/pwm1");

    let incident = FallbackIncident::from_owned_and_result(
        "2026-04-11T16:30:00Z".to_string(),
        &owned,
        &FallbackResult { succeeded: vec![FAN1.to_string()], failed: vec![] },
        Some("ctrl-c fallback".to_string()),
    );

    assert_eq!(incident.affected_fans, vec![FAN1]);
    assert!(!incident.affected_fans.iter().any(|fan| fan == "fan-unmanaged"));
}

#[test]
fn fallback_incident_sorts_fans_and_keeps_failures() {
    let mut owned = OwnedFanSet::new();
    owned.claim_fan("fan-b", ControlMode::Pwm, "/p/b");
    owned.claim_fan("fan-a", ControlMode::Pwm, "/p/a");
    let result = FallbackResult {
        succeeded: vec!["fan-a".into()],
        failed: vec![("fan-b".into(), "permission denied".into())],
    };
    assert!(!result.all_succeeded());
    let incident = FallbackIncident::from_owned_and_result("ts".into(), &owned, &result, None);
    assert_eq!(incident.affected_fans, vec!["fan-a".to_string(), "fan-b".to_string()]);
    assert_eq!(incident.failed.len(), 1);
    assert_eq!(incident.failed[0].fan_id, "fan-b");
    assert_eq!(incident.failed[0].error, "permission denied");
    assert_eq!(incident.fallback_fan_ids(), vec!["fan-a".to_string(), "fan-b".to_string()]);

    let event = lifecycle_event_from_fallback_incident(&incident);
    assert_eq!(event.timestamp, "ts");
    assert_eq!(event.reason.message(), "fallback active for fans: fan-a, fan-b");
}

// ---------------------------------------------------------------------------
// reconcile
// ---------------------------------------------------------------------------

fn check_reconcile_exact_match_restore() {
    let result = reconcile_applied_config(&applied_config_single_fan(), &test_snapshot());
    assert_eq!(result.restored.len(), 1);
    assert!(result.skipped.is_empty());
    assert!(result.degraded_reasons.is_empty());
    match &result.restored[0] {
        ReconcileOutcome::Restored { fan_id, control_mode, temp_sources } => {
            assert_eq!(fan_id, FAN1);
            assert_eq!(*control_mode, ControlMode::Pwm);
            assert_eq!(temp_sources, &[TEMP1.to_string()]);
        },
        _ => panic!("expected Restored outcome"),
    }
    assert!(result.reconciled_config.fans.contains_key(FAN1));
}

fn check_reconcile_missing_fan_id() {
    let result = reconcile_applied_config(&applied_config_single_fan(), &empty_device_snapshot(false));
    assert!(result.restored.is_empty());
    assert_eq!(result.skipped.len(), 1);
    assert_eq!(result.degraded_reasons.len(), 1);
    match &result.skipped[0] {
        ReconcileOutcome::Missing { fan_id } => assert_eq!(fan_id, FAN1),
        _ => panic!("expected Missing outcome"),
    }
    match &result.degraded_reasons[0] {
        (fid, DegradedReason::FanMissing { fan_id }) => {
            assert_eq!(fid, FAN1);
            assert_eq!(fan_id, FAN1);
        },
        _ => panic!("expected FanMissing degraded reason"),
    }
    assert!(result.reconciled_config.fans.is_empty());
}

fn check_reconcile_changed_support_state() {
    let mut snapshot = test_snapshot();
    snapshot.devices[0].fans[0].support_state = SupportState::Partial;
    snapshot.devices[0].fans[0].support_reason = Some("pwm node not writable".to_string());
    snapshot.devices[0].fans[0].control_modes.clear();
    let result = reconcile_applied_config(&applied_config_single_fan(), &snapshot);
    assert!(result.restored.is_empty());
    assert_eq!(result.skipped.len(), 1);
    match &result.skipped[0] {
        ReconcileOutcome::NotEnrollable { fan_id, support_state, reason } => {
            assert_eq!(fan_id, FAN1);
            assert_eq!(*support_state, SupportState::Partial);
            assert!(reason.contains("pwm"));
        },
        _ => panic!("expected NotEnrollable outcome"),
    }
}

fn check_reconcile_changed_control_mode() {
    let mut snapshot = test_snapshot();
    snapshot.devices[0].fans[0].support_state = SupportState::Available;
    snapshot.devices[0].fans[0].control_modes = vec![ControlMode::Voltage];
    let result = reconcile_applied_config(&applied_config_single_fan(), &snapshot);
    assert!(result.restored.is_empty());
    assert_eq!(result.skipped.len(), 1);
    match &result.skipped[0] {
        ReconcileOutcome::ControlModeUnavailable { fan_id, configured_mode, available_modes } => {
            assert_eq!(fan_id, FAN1);
            assert_eq!(*configured_mode, ControlMode::Pwm);
            assert_eq!(*available_modes, vec![ControlMode::Voltage]);
        },
        _ => panic!("expected ControlModeUnavailable outcome"),
    }
}

fn check_reconcile_missing_temp_source() {
    let mut snapshot = test_snapshot();
    snapshot.devices[0].temperatures.clear();
    let result = reconcile_applied_config(&applied_config_single_fan(), &snapshot);
    assert!(result.restored.is_empty());
    assert_eq!(result.skipped.len(), 1);
    match &result.skipped[0] {
        ReconcileOutcome::TempSourceMissing { fan_id, missing_temp_id } => {
            assert_eq!(fan_id, FAN1);
            assert_eq!(missing_temp_id, TEMP1);
        },
        _ => panic!("expected TempSourceMissing outcome"),
    }
}

fn check_reconcile_partial_restore() {
    let snapshot = test_snapshot_with_second_device();
    let mut fans = StrMap::new();
    fans.insert(FAN1.to_string(), applied_fan_entry(vec![TEMP1.to_string()]));
    fans.insert("hwmon-ghost-0000000000000003-fan1".to_string(), applied_fan_entry(vec![]));
    let applied = AppliedConfig { fans, applied_at: Some("2026-04-11T12:00:00Z".to_string()) };
    let result = reconcile_applied_config(&applied, &snapshot);
    assert_eq!(result.restored.len(), 1);
    assert_eq!(result.skipped.len(), 1);
    assert_eq!(result.degraded_reasons.len(), 1);
    assert!(result.reconciled_config.fans.contains_key(FAN1));
    assert!(!result.reconciled_config.fans.contains_key("hwmon-ghost-0000000000000003-fan1"));
}

fn check_boot_reconciliation_restores_matching_fans() {
    let snapshot = test_snapshot();
    let applied = applied_config_single_fan();
    let mut owned = OwnedFanSet::new();
    let mut degraded = DegradedState::new();
    let mut events = LifecycleEventLog::new();
    let result = perform_boot_reconciliation(Some(&applied), &snapshot, &mut owned, &mut degraded, &mut events);
    assert_eq!(result.restored.len(), 1);
    assert!(result.skipped.is_empty());
    assert!(owned.owns(FAN1));
    assert!(!degraded.has_degraded());
    assert!(!events.is_empty());
    assert!(matches!(
        events.events().last().map(|event| &event.reason),
        Some(DegradedReason::BootReconciled { restored_count: 1 })
    ));
}

fn check_boot_reconciliation_skips_missing_fans() {
    let snapshot = empty_device_snapshot(false);
    let applied = applied_config_single_fan();
    let mut owned = OwnedFanSet::new();
    let mut degraded = DegradedState::new();
    let mut events = LifecycleEventLog::new();
    let result = perform_boot_reconciliation(Some(&applied), &snapshot, &mut owned, &mut degraded, &mut events);
    assert!(result.restored.is_empty());
    assert_eq!(result.skipped.len(), 1);
    assert!(!owned.owns(FAN1));
    assert!(degraded.has_degraded());
    assert!(!events.is_empty());
}

fn check_boot_reconciliation_no_applied_config() {
    let snapshot = test_snapshot();
    let mut owned = OwnedFanSet::new();
    let mut degraded = DegradedState::new();
    let mut events = LifecycleEventLog::new();
    let result = perform_boot_reconciliation(None, &snapshot, &mut owned, &mut degraded, &mut events);
    assert!(result.restored.is_empty());
    assert!(result.skipped.is_empty());
    assert!(owned.is_empty());
}

fn check_boot_reconciliation_empty_applied_config() {
    let snapshot = test_snapshot();
    let applied = AppliedConfig { fans: StrMap::new(), applied_at: Some("2026-04-11T12:00:00Z".to_string()) };
    let mut owned = OwnedFanSet::new();
    let mut degraded = DegradedState::new();
    let mut events = LifecycleEventLog::new();
    let result = perform_boot_reconciliation(Some(&applied), &snapshot, &mut owned, &mut degraded, &mut events);
    assert!(result.restored.is_empty());
    assert!(result.skipped.is_empty());
    assert!(owned.is_empty());
}

#[test]
fn reconcile_reconcile_exact_match_restore() {
    check_reconcile_exact_match_restore();
}

#[test]
fn lifecycle_reconcile_exact_match_restore() {
    check_reconcile_exact_match_restore();
}

#[test]
fn reconcile_reconcile_missing_fan_id() {
    check_reconcile_missing_fan_id();
}

#[test]
fn lifecycle_reconcile_missing_fan_id() {
    check_reconcile_missing_fan_id();
}

#[test]
fn reconcile_reconcile_changed_support_state() {
    check_reconcile_changed_support_state();
}

#[test]
fn lifecycle_reconcile_changed_support_state() {
    check_reconcile_changed_support_state();
}

#[test]
fn reconcile_reconcile_changed_control_mode() {
    check_reconcile_changed_control_mode();
}

#[test]
fn lifecycle_reconcile_changed_control_mode() {
    check_reconcile_changed_control_mode();
}

#[test]
fn reconcile_reconcile_missing_temp_source() {
    check_reconcile_missing_temp_source();
}

#[test]
fn lifecycle_reconcile_missing_temp_source() {
    check_reconcile_missing_temp_source();
}

#[test]
fn reconcile_reconcile_partial_restore() {
    check_reconcile_partial_restore();
}

#[test]
fn lifecycle_reconcile_partial_restore() {
    check_reconcile_partial_restore();
}

#[test]
fn reconcile_boot_reconciliation_restores_matching_fans() {
    check_boot_reconciliation_restores_matching_fans();
}

#[test]
fn lifecycle_boot_reconciliation_restores_matching_fans() {
    check_boot_reconciliation_restores_matching_fans();
}

#[test]
fn reconcile_boot_reconciliation_skips_missing_fans() {
    check_boot_reconciliation_skips_missing_fans();
}

#[test]
fn lifecycle_boot_reconciliation_skips_missing_fans() {
    check_boot_reconciliation_skips_missing_fans();
}

#[test]
fn reconcile_boot_reconciliation_no_applied_config() {
    check_boot_reconciliation_no_applied_config();
}

#[test]
fn lifecycle_boot_reconciliation_no_applied_config() {
    check_boot_reconciliation_no_applied_config();
}

#[test]
fn reconcile_boot_reconciliation_empty_applied_config() {
    check_boot_reconciliation_empty_applied_config();
}

#[test]
fn lifecycle_boot_reconciliation_empty_applied_config() {
    check_boot_reconciliation_empty_applied_config();
}

#[test]
fn boot_reconciliation_at_stamps_events_and_claims_pwm_node() {
    let snapshot = test_snapshot();
    let applied = applied_config_single_fan();
    let mut owned = OwnedFanSet::new();
    owned.claim_fan("stale-fan", ControlMode::Pwm, "/old");
    let mut degraded = DegradedState::new();
    degraded.mark_degraded("stale".into(), vec![DegradedReason::FanMissing { fan_id: "stale".into() }]);
    let mut events = LifecycleEventLog::new();
    let result = perform_boot_reconciliation_at(
        Some(&applied),
        &snapshot,
        &mut owned,
        &mut degraded,
        &mut events,
        "2026-01-01T00:00:00Z".to_string(),
    );
    assert_eq!(result.restored.len(), 1);
    assert!(!owned.owns("stale-fan"));
    assert_eq!(owned.sysfs_path(FAN1), Some("/sys/class/hwmon/hwmon0/pwm1"));
    assert!(!degraded.has_degraded());
    assert_eq!(events.len(), 2);
    assert!(events.events().iter().all(|e| e.timestamp == "2026-01-01T00:00:00Z"));
    assert!(matches!(&events.events()[0].reason, DegradedReason::BootRestored { fan_id } if fan_id == FAN1));
}

#[test]
fn pwm_node_path_joins_device_path_and_channel() {
    assert_eq!(pwm_node_path(&test_snapshot(), FAN1), "/sys/class/hwmon/hwmon0/pwm1");
}

// ---------------------------------------------------------------------------
// reassess
// ---------------------------------------------------------------------------

#[test]
fn reassess_single_fan_recovers_when_temp_source_returns() {
    let entry = applied_fan_entry(vec![TEMP1.to_string()]);
    let mut snapshot_no_temp = test_snapshot();
    snapshot_no_temp.devices[0].temperatures.clear();
    match reassess_single_fan(FAN1, &entry, &snapshot_no_temp) {
        ReassessOutcome::StillDegraded { fan_id, reason: DegradedReason::TempSourceMissing { .. } } => {
            assert_eq!(fan_id, FAN1);
        },
        other => panic!("expected StillDegraded(TempSourceMissing), got {other:?}"),
    }
    match reassess_single_fan(FAN1, &entry, &test_snapshot()) {
        ReassessOutcome::Recoverable { fan_id, control_mode, temp_sources } => {
            assert_eq!(fan_id, FAN1);
            assert_eq!(control_mode, ControlMode::Pwm);
            assert_eq!(temp_sources, vec![TEMP1.to_string()]);
        },
        other => panic!("expected Recoverable, got {other:?}"),
    }
}

#[test]
fn reassess_single_fan_still_degraded_when_fan_missing() {
    let entry = applied_fan_entry(vec![TEMP1.to_string()]);
    match reassess_single_fan(FAN1, &entry, &empty_device_snapshot(true)) {
        ReassessOutcome::StillDegraded { fan_id, reason: DegradedReason::FanMissing { .. } } => {
            assert_eq!(fan_id, FAN1);
        },
        other => panic!("expected StillDegraded(FanMissing), got {other:?}"),
    }
}

#[test]
fn reassess_single_fan_recovers_when_control_mode_available() {
    let entry = applied_fan_entry(vec![TEMP1.to_string()]);
    let mut snapshot_no_pwm = test_snapshot();
    snapshot_no_pwm.devices[0].fans[0].control_modes.clear();
    match reassess_single_fan(FAN1, &entry, &snapshot_no_pwm) {
        ReassessOutcome::StillDegraded { fan_id, reason: DegradedReason::ControlModeUnavailable { mode, .. } } => {
            assert_eq!(fan_id, FAN1);
            assert_eq!(mode, ControlMode::Pwm);
        },
        other => panic!("expected StillDegraded(ControlModeUnavailable), got {other:?}"),
    }
    match reassess_single_fan(FAN1, &entry, &test_snapshot()) {
        ReassessOutcome::Recoverable { fan_id, .. } => assert_eq!(fan_id, FAN1),
        other => panic!("expected Recoverable, got {other:?}"),
    }
}

// ---------------------------------------------------------------------------
// runtime
// ---------------------------------------------------------------------------

fn check_runtime_state_build_managed_and_unmanaged() {
    let snapshot = test_snapshot();
    let applied = applied_config_single_fan();
    let mut owned = OwnedFanSet::new();
    owned.claim_fan(FAN1, ControlMode::Pwm, "/sys/class/hwmon/hwmon0/pwm1");
    let degraded = DegradedState::new();
    let fallback: Vec<String> = Vec::new();
    let state = RuntimeState::build(&owned, Some(&applied), &degraded, &fallback, &snapshot);
    match state.fan_statuses.get(FAN1) {
        Some(FanRuntimeStatus::Managed { control_mode, control }) => {
            assert_eq!(*control_mode, ControlMode::Pwm);
            assert_eq!(control.sensor_ids, vec![TEMP1.to_string()]);
            assert_eq!(control.target_temp_millidegrees, 65_000);
        },
        _ => panic!("expected Managed status for fan1"),
    }
    assert!(state.owned_fans.contains(&FAN1.to_string()));
}

fn check_runtime_state_build_degraded_fan() {
    let snapshot = test_snapshot();
    let applied = applied_config_single_fan();
    let owned = OwnedFanSet::new();
    let mut degraded = DegradedState::new();
    degraded.mark_degraded(FAN1.to_string(), vec![DegradedReason::FanMissing { fan_id: FAN1.to_string() }]);
    let fallback: Vec<String> = Vec::new();
    let state = RuntimeState::build(&owned, Some(&applied), &degraded, &fallback, &snapshot);
    match state.fan_statuses.get(FAN1) {
        Some(FanRuntimeStatus::Degraded { reasons }) => assert!(!reasons.is_empty()),
        _ => panic!("expected Degraded status for fan1"),
    }
}

fn check_runtime_state_build_fallback_fan() {
    let snapshot = test_snapshot();
    let applied = applied_config_single_fan();
    let owned = OwnedFanSet::new();
    let degraded = DegradedState::new();
    let fallback = vec![FAN1.to_string()];
    let state = RuntimeState::build(&owned, Some(&applied), &degraded, &fallback, &snapshot);
    match state.fan_statuses.get(FAN1) {
        Some(FanRuntimeStatus::Fallback) => {},
        _ => panic!("expected Fallback status for fan1"),
    }
}

fn check_runtime_state_all_unmanaged_by_default() {
    let snapshot = test_snapshot_with_second_device();
    let owned = OwnedFanSet::new();
    let degraded = DegradedState::new();
    let fallback: Vec<String> = Vec::new();
    let state = RuntimeState::build(&owned, None, &degraded, &fallback, &snapshot);
    assert_eq!(state.fan_statuses.len(), 2);
    for (fan_id, status) in state.fan_statuses.entries() {
        assert!(
            matches!(status, FanRuntimeStatus::Unmanaged),
            "fan {fan_id} should be Unmanaged, got {status:?}"
        );
    }
}

#[test]
fn runtime_runtime_state_build_managed_and_unmanaged() {
    check_runtime_state_build_managed_and_unmanaged();
}

#[test]
fn lifecycle_runtime_state_build_managed_and_unmanaged() {
    check_runtime_state_build_managed_and_unmanaged();
}

#[test]
fn runtime_runtime_state_build_degraded_fan() {
    check_runtime_state_build_degraded_fan();
}

#[test]
fn lifecycle_runtime_state_build_degraded_fan() {
    check_runtime_state_build_degraded_fan();
}

#[test]
fn runtime_runtime_state_build_fallback_fan() {
    check_runtime_state_build_fallback_fan();
}

#[test]
fn lifecycle_runtime_state_build_fallback_fan() {
    check_runtime_state_build_fallback_fan();
}

#[test]
fn runtime_runtime_state_all_unmanaged_by_default() {
    check_runtime_state_all_unmanaged_by_default();
}

#[test]
fn lifecycle_runtime_state_all_unmanaged_by_default() {
    check_runtime_state_all_unmanaged_by_default();
}

#[test]
fn runtime_state_rebuild_marks_persisted_fallback_after_restart() {
    let snapshot = test_snapshot();
    let applied = applied_config_single_fan();
    let mut owned = OwnedFanSet::new();
    owned.claim_fan(FAN1, ControlMode::Pwm, "/sys/class/hwmon/hwmon0/pwm1");
    let degraded = DegradedState::new();
    let fallback = FallbackIncident {
        timestamp: "2026-04-11T16:30:00Z".to_string(),
        affected_fans: vec![FAN1.to_string()],
        failed: vec![],
        detail: Some("persisted after panic".to_string()),
    };
    let state = RuntimeState::build(&owned, Some(&applied), &degraded, &fallback.fallback_fan_ids(), &snapshot);
    match state.fan_statuses.get(FAN1) {
        Some(FanRuntimeStatus::Fallback) => {},
        other => panic!("expected Fallback after restart, got {other:?}"),
    }
}

#[test]
fn runtime_state_fallback_overrides_degraded() {
    let snapshot = test_snapshot();
    let applied = applied_config_single_fan();
    let mut owned = OwnedFanSet::new();
    owned.claim_fan(FAN1, ControlMode::Pwm, "/p");
    let mut degraded = DegradedState::new();
    degraded.mark_degraded(FAN1.to_string(), vec![DegradedReason::FanMissing { fan_id: FAN1.to_string() }]);
    let fallback = vec![FAN1.to_string()];
    let state = RuntimeState::build(&owned, Some(&applied), &degraded, &fallback, &snapshot);
    assert!(matches!(state.fan_statuses.get(FAN1), Some(FanRuntimeStatus::Fallback)));
}

// ---------------------------------------------------------------------------
// time
// ---------------------------------------------------------------------------

#[test]
fn iso8601_formats_epoch_and_known_instants() {
    assert_eq!(format_iso8601_utc(0), "1970-01-01T00:00:00Z");
    assert_eq!(format_iso8601_utc(951_782_400), "2000-02-29T00:00:00Z");
    assert_eq!(format_iso8601_utc(1_775_908_800), "2026-04-11T12:00:00Z");
    assert_eq!(civil_from_days(0), (1970, 1, 1));
    assert_eq!(civil_from_days(-1), (1969, 12, 31));
}

#[test]
fn boot_records_modes_paths_reasons_and_events_in_order() {
    let snapshot = test_snapshot_with_second_device();
    let mut fans = StrMap::new();
    fans.insert("hwmon-gone-fan9".to_string(), applied_fan_entry(vec![]));
    fans.insert(FAN1.to_string(), applied_fan_entry(vec![TEMP1.to_string()]));
    fans.insert("hwmon-other-0000000000000002-fan1".to_string(), applied_fan_entry(vec!["missing-temp".to_string()]));
    let applied = AppliedConfig { fans, applied_at: None };
    let mut owned = OwnedFanSet::new();
    let mut degraded = DegradedState::new();
    let mut events = LifecycleEventLog::new();
    let result = perform_boot_reconciliation_at(
        Some(&applied),
        &snapshot,
        &mut owned,
        &mut degraded,
        &mut events,
        "2026-02-02T02:02:02Z".to_string(),
    );
    assert_eq!(owned.owned_fan_ids(), vec![FAN1.to_string()]);
    assert_eq!(owned.control_mode(FAN1), Some(ControlMode::Pwm));
    assert_eq!(owned.sysfs_path(FAN1), Some("/sys/class/hwmon/hwmon0/pwm1"));
    assert_eq!(
        degraded.degraded_fan_ids(),
        vec!["hwmon-gone-fan9".to_string(), "hwmon-other-0000000000000002-fan1".to_string()]
    );
    for (fan_id, reason) in &result.degraded_reasons {
        let recorded = degraded.entries.get(fan_id).expect("skipped fan is degraded");
        assert_eq!(recorded.len(), 1);
        assert_eq!(recorded[0].message(), reason.message());
    }
    let reasons: Vec<String> = events.events().iter().map(|e| e.reason.message()).collect();
    assert_eq!(
        reasons,
        vec![
            DegradedReason::BootRestored { fan_id: FAN1.to_string() }.message(),
            DegradedReason::FanMissing { fan_id: "hwmon-gone-fan9".to_string() }.message(),
            DegradedReason::TempSourceMissing {
                fan_id: "hwmon-other-0000000000000002-fan1".to_string(),
                temp_id: "missing-temp".to_string(),
            }
            .message(),
            DegradedReason::PartialBootRecovery { failed_count: 2, recovered_count: 1 }.message(),
        ]
    );
    assert!(events.events().iter().all(|e| e.timestamp == "2026-02-02T02:02:02Z"));
}

#[test]
fn fallback_plan_covers_every_owned_fan_once_and_outcomes_are_classified() {
    let mut owned = OwnedFanSet::new();
    owned.claim_fan("fan-b", ControlMode::Pwm, "/sys/class/hwmon/hwmon1/pwm2");
    owned.claim_fan("fan-a", ControlMode::Voltage, "/sys/class/hwmon/hwmon0/pwm1");
    let plan = fallback_write_plan(&owned);
    let rows: Vec<(&str, &str, &str)> =
        plan.iter().map(|w| (w.fan_id.as_str(), w.pwm_path.as_str(), w.enable_path.as_str())).collect();
    assert_eq!(
        rows,
        vec![
            ("fan-b", "/sys/class/hwmon/hwmon1/pwm2", "/sys/class/hwmon/hwmon1/pwm2_enable"),
            ("fan-a", "/sys/class/hwmon/hwmon0/pwm1", "/sys/class/hwmon/hwmon0/pwm1_enable"),
        ]
    );
    assert!(fallback_write_plan(&OwnedFanSet::new()).is_empty());

    let result = fallback_result_from_outcomes(&vec![
        ("fan-b".to_string(), None),
        ("fan-a".to_string(), Some("pwm write failed: permission denied".to_string())),
        ("fan-c".to_string(), None),
    ]);
    assert_eq!(result.succeeded, vec!["fan-b".to_string(), "fan-c".to_string()]);
    assert_eq!(result.failed, vec![("fan-a".to_string(), "pwm write failed: permission denied".to_string())]);
    assert!(!result.all_succeeded());
}
