use kde_fan_control::config::AppConfig;
use kde_fan_control::control::AggregationFn;
use kde_fan_control::inventory::{
    ControlMode, FanChannel, HwmonDevice, InventorySnapshot, SupportState, TemperatureSensor,
};
use kde_fan_control::lifecycle::runtime::{ControlRuntimeSnapshot, FanRuntimeStatus, RuntimeState};
use kde_fan_control::lifecycle::state::DegradedReason;
use kde_fan_control::overview::{
    bucket_sort_key, fan_display_name, format_rpm, telemetry_facts, OverviewStructureSnapshot,
};
use kde_fan_control::strmap::StrMap;

const FAN1: &str = "hwmon-test-0000000000000001-fan1";

fn test_device() -> HwmonDevice {
    HwmonDevice {
        id: "hwmon-test-0000000000000001".into(),
        name: "testchip".into(),
        sysfs_path: "/sys/class/hwmon/hwmon0".into(),
        stable_identity: "/sys/devices/platform/testchip".into(),
        temperatures: vec![TemperatureSensor {
            id: "hwmon-test-0000000000000001-temp1".into(),
            channel: 1,
            label: Some("CPU".into()),
            friendly_name: None,
            input_millidegrees_celsius: Some(45000),
        }],
        fans: vec![FanChannel {
            id: FAN1.into(),
            channel: 1,
            label: Some("fan1".into()),
            friendly_name: Some("CPU Fan".into()),
            rpm_feedback: true,
            current_rpm: Some(1240),
            control_modes: vec![ControlMode::Pwm],
            support_state: SupportState::Available,
            support_reason: None,
        }],
    }
}

fn control(aggregated: Option<i64>, output: Option<f64>, hot: bool) -> ControlRuntimeSnapshot {
    ControlRuntimeSnapshot {
        sensor_ids: vec!["hwmon-test-0000000000000001-temp1".into()],
        aggregation: AggregationFn::Average,
        target_temp_millidegrees: 50000,
        aggregated_temp_millidegrees: aggregated,
        logical_output_percent: output.map(f64::to_bits),
        mapped_pwm: None,
        auto_tuning: false,
        alert_high_temp: hot,
        last_error_millidegrees: None,
    }
}

fn runtime_with(status: FanRuntimeStatus, owned: Vec<String>) -> RuntimeState {
    let mut fan_statuses = StrMap::new();
    fan_statuses.insert(FAN1.to_string(), status);
    RuntimeState { fan_statuses, owned_fans: owned }
}

fn managed_runtime(hot: bool) -> RuntimeState {
    runtime_with(
        FanRuntimeStatus::Managed { control_mode: ControlMode::Pwm, control: control(Some(55250), Some(31.4), hot) },
        vec![FAN1.into()],
    )
}

#[test]
fn structure_row_has_correct_static_fields() {
    let snapshot = InventorySnapshot { devices: vec![test_device()] };
    let runtime = runtime_with(FanRuntimeStatus::Unmanaged, vec![]);
    let structure = OverviewStructureSnapshot::build(&snapshot, &runtime, &AppConfig::default());
    assert_eq!(structure.rows.len(), 1);
    let row = &structure.rows[0];
    assert_eq!(row.fan_id, FAN1);
    assert_eq!(row.display_name, "CPU Fan");
    assert_eq!(row.ordering_bucket, "unmanaged");
    assert_eq!(row.state_text, "Unmanaged");
    assert!(row.has_tach);
}

#[test]
fn structure_orders_fallback_first() {
    let mut snapshot = InventorySnapshot { devices: vec![test_device()] };
    let mut fan2 = snapshot.devices[0].fans[0].clone();
    fan2.id = "hwmon-test-0000000000000001-fan2".into();
    fan2.friendly_name = None;
    fan2.label = Some("fan2".into());
    snapshot.devices[0].fans.push(fan2);

    let mut fan_statuses = StrMap::new();
    fan_statuses.insert(
        FAN1.to_string(),
        FanRuntimeStatus::Managed { control_mode: ControlMode::Pwm, control: control(Some(55000), Some(50.0), false) },
    );
    fan_statuses.insert("hwmon-test-0000000000000001-fan2".to_string(), FanRuntimeStatus::Fallback);
    let runtime = RuntimeState { fan_statuses, owned_fans: vec![FAN1.into()] };

    let structure = OverviewStructureSnapshot::build(&snapshot, &runtime, &AppConfig::default());
    assert_eq!(structure.rows[0].ordering_bucket, "fallback");
    assert_eq!(structure.rows[1].ordering_bucket, "managed");
}

#[test]
fn structure_orders_by_display_name_within_bucket_and_keeps_ties() {
    let mut device = test_device();
    let base = device.fans[0].clone();
    let mk = |id: &str, name: Option<&str>, label: Option<&str>| {
        let mut f = base.clone();
        f.id = id.into();
        f.friendly_name = name.map(Into::into);
        f.label = label.map(Into::into);
        f
    };
    device.fans = vec![
        mk("c", Some("Zeta"), None),
        mk("a", None, Some("Alpha")),
        mk("b", Some(""), Some("")),
        mk("d", Some("Alpha"), None),
    ];
    let snapshot = InventorySnapshot { devices: vec![device] };
    let runtime = RuntimeState { fan_statuses: StrMap::new(), owned_fans: vec![] };
    let structure = OverviewStructureSnapshot::build(&snapshot, &runtime, &AppConfig::default());
    let names: Vec<(&str, &str)> =
        structure.rows.iter().map(|r| (r.fan_id.as_str(), r.display_name.as_str())).collect();
    assert_eq!(names, vec![("a", "Alpha"), ("d", "Alpha"), ("c", "Zeta"), ("b", "b")]);
    assert!(structure.rows.iter().all(|r| r.ordering_bucket == "unmanaged"));
}

#[test]
fn high_temp_managed_row_uses_hot_bucket_and_alert_colour() {
    let snapshot = InventorySnapshot { devices: vec![test_device()] };
    let structure = OverviewStructureSnapshot::build(&snapshot, &managed_runtime(true), &AppConfig::default());
    let row = &structure.rows[0];
    assert_eq!(row.ordering_bucket, "managed_hot");
    assert_eq!(row.state_color, "#e53935");
    assert_eq!(row.state_icon_name, "emblem-ok-symbolic");
    assert_eq!(row.control_mode.as_deref(), Some("pwm"));
    assert_eq!(row.support_state, "available");
}

#[test]
fn degraded_row_shows_support_reason() {
    let mut device = test_device();
    device.fans[0].support_reason = Some("gone".into());
    let snapshot = InventorySnapshot { devices: vec![device] };
    let runtime = runtime_with(
        FanRuntimeStatus::Degraded { reasons: vec![DegradedReason::FanMissing { fan_id: FAN1.into() }] },
        vec![],
    );
    let structure = OverviewStructureSnapshot::build(&snapshot, &runtime, &AppConfig::default());
    let row = &structure.rows[0];
    assert!(row.show_support_reason);
    assert_eq!(row.state_text, "Degraded");
    assert_eq!(row.state_color, "#ff9800");
    assert_eq!(row.control_mode, None);
}

#[test]
fn bucket_keys_rank_buckets() {
    assert_eq!(bucket_sort_key("fallback"), 0);
    assert_eq!(bucket_sort_key("degraded"), 1);
    assert_eq!(bucket_sort_key("managed_hot"), 2);
    assert_eq!(bucket_sort_key("managed"), 3);
    assert_eq!(bucket_sort_key("unmanaged"), 4);
    assert_eq!(bucket_sort_key("other"), 5);
}

#[test]
fn display_name_prefers_friendly_then_label_then_id() {
    let mut fan = test_device().fans[0].clone();
    assert_eq!(fan_display_name(&fan), "CPU Fan");
    fan.friendly_name = None;
    assert_eq!(fan_display_name(&fan), "fan1");
    fan.label = Some(String::new());
    assert_eq!(fan_display_name(&fan), FAN1);
}

#[test]
fn rpm_text_formats_positive_speeds() {
    assert_eq!(format_rpm(1240), "1240 RPM");
    assert_eq!(format_rpm(0), "0 RPM");
    assert_eq!(format_rpm(-5), "0 RPM");
}

#[test]
fn telemetry_managed_fan_shows_readings() {
    let facts = telemetry_facts(&test_device().fans[0], &managed_runtime(false));
    assert_eq!(facts.fan_id, FAN1);
    assert_eq!(facts.temperature_millidegrees, 55250);
    assert_eq!(facts.rpm, 1240);
    assert_eq!(facts.rpm_text, "1240 RPM");
    assert!((f64::from_bits(facts.output_percent) - 31.4).abs() < 0.01);
    assert!(facts.show_rpm);
    assert!(facts.show_output);
    assert_eq!(facts.visual_state, "managed");
    assert!(!facts.high_temp_alert);
}

#[test]
fn telemetry_unmanaged_fan_shows_nothing() {
    let facts = telemetry_facts(&test_device().fans[0], &runtime_with(FanRuntimeStatus::Unmanaged, vec![]));
    assert_eq!(facts.temperature_millidegrees, 0);
    assert!(!facts.show_rpm);
    assert!(!facts.show_output);
    assert_eq!(facts.rpm_text, "No RPM feedback");
    assert_eq!(facts.visual_state, "unmanaged");
}

#[test]
fn telemetry_hot_fan_is_managed_hot() {
    let facts = telemetry_facts(&test_device().fans[0], &managed_runtime(true));
    assert!(facts.high_temp_alert);
    assert_eq!(facts.visual_state, "managed_hot");
}

#[test]
fn telemetry_degraded_fan_shows_full_output() {
    let runtime = runtime_with(
        FanRuntimeStatus::Degraded { reasons: vec![DegradedReason::FanMissing { fan_id: FAN1.into() }] },
        vec![],
    );
    let facts = telemetry_facts(&test_device().fans[0], &runtime);
    assert_eq!(facts.visual_state, "degraded");
    assert!(facts.show_output);
    assert_eq!(f64::from_bits(facts.output_percent), 100.0);
}

#[test]
fn high_temp_alert_produces_managed_hot_bucket() {
    let snapshot = InventorySnapshot { devices: vec![test_device()] };
    let runtime = managed_runtime(true);

    let structure = OverviewStructureSnapshot::build(&snapshot, &runtime, &AppConfig::default());
    let telemetry = telemetry_facts(&snapshot.devices[0].fans[0], &runtime);

    assert_eq!(structure.rows[0].ordering_bucket, "managed_hot");
    assert!(telemetry.high_temp_alert);
    assert_eq!(telemetry.visual_state, "managed_hot");
}

#[test]
fn degraded_shows_full_output() {
    let snapshot = InventorySnapshot { devices: vec![test_device()] };
    let runtime = runtime_with(
        FanRuntimeStatus::Degraded {
            reasons: vec![DegradedReason::FanMissing { fan_id: "hwmon-test-0000000000000001-fan1".into() }],
        },
        vec![],
    );

    let row = telemetry_facts(&snapshot.devices[0].fans[0], &runtime);
    assert_eq!(row.visual_state, "degraded");
    assert!(row.show_output);
    assert_eq!(f64::from_bits(row.output_percent), 100.0);
}
