use kde_fan_control::discovery::{
    build_fan_channel, build_temperature_sensor, device_name_or_unknown, merge_channels, parse_i64_value,
    parse_u64_value, sort_devices_by_id, trimmed_value, FanProbe,
};
use kde_fan_control::inventory::{
    collect_channel_numbers, device_id, fan_support, fnv1a64, sanitize, ControlMode, HwmonDevice, SupportState,
};
use kde_fan_control::lifecycle::state::DegradedReason;
use kde_fan_control::presentation::{
    auto_tune_state_label, degraded_reason_summary, state_label, AggregationArg,
};

fn probe(rpm: bool, pwm: bool, writable: bool, enable: bool, enable_writable: bool) -> FanProbe {
    FanProbe {
        rpm_feedback: rpm,
        has_pwm_node: pwm,
        pwm_writable: writable,
        pwm_enable_exists: enable,
        pwm_enable_writable: enable_writable,
        label: None,
        current_rpm: None,
    }
}

#[test]
fn fan_channels_classify_support() {
    let f = build_fan_channel("hwmon-x-00", 2, FanProbe { label: Some("CPU".into()), current_rpm: Some(800), ..probe(true, true, true, true, true) });
    assert_eq!(f.id, "hwmon-x-00-fan2");
    assert_eq!(f.channel, 2);
    assert_eq!(f.control_modes, vec![ControlMode::Pwm]);
    assert_eq!(f.support_state, SupportState::Available);
    assert_eq!(f.support_reason, None);
    assert_eq!(f.label.as_deref(), Some("CPU"));
    assert_eq!(f.current_rpm, Some(800));

    let f = build_fan_channel("d", 1, probe(false, true, false, true, false));
    assert_eq!(f.support_state, SupportState::Partial);
    assert_eq!(f.support_reason.as_deref(), Some("pwm control exists but mode switching is not writable"));
    let f = build_fan_channel("d", 1, probe(false, true, false, false, false));
    assert_eq!(f.support_reason.as_deref(), Some("pwm control node exists but is not writable"));
    let f = build_fan_channel("d", 1, probe(true, false, false, false, false));
    assert_eq!(f.support_reason.as_deref(), Some("tach feedback exists but no writable control node was detected"));
    let f = build_fan_channel("d", 1, probe(false, false, false, false, false));
    assert_eq!(f.support_state, SupportState::Unavailable);
    assert_eq!(f.support_reason.as_deref(), Some("no tach feedback or controllable output node was detected"));
    let (modes, state, _) = fan_support(false, true, true, false, false);
    assert_eq!((modes, state), (vec![ControlMode::Pwm], SupportState::Available));
}

#[test]
fn sensors_are_named_after_device_and_channel() {
    let s = build_temperature_sensor("hwmon-k10temp-0a", 3, Some("Tctl".into()), Some(41_250));
    assert_eq!(s.id, "hwmon-k10temp-0a-temp3");
    assert_eq!(s.label.as_deref(), Some("Tctl"));
    assert_eq!(s.input_millidegrees_celsius, Some(41_250));
    assert_eq!(s.friendly_name, None);
}

#[test]
fn device_ids_hash_the_stable_identity() {
    assert_eq!(fnv1a64(""), 0xcbf29ce484222325);
    assert_eq!(fnv1a64("a"), 0xaf63dc4c8601ec8c);
    assert_eq!(sanitize("  NCT6775 fan!"), "nct6775_fan");
    assert_eq!(device_id("k10temp", ""), "hwmon-k10temp-cbf29ce484222325");
    assert_eq!(device_name_or_unknown(None), "unknown");
    assert_eq!(device_name_or_unknown(Some("it87".into())), "it87");
}

#[test]
fn channel_numbers_merge_ascending() {
    let entries: Vec<String> =
        vec!["fan3_input", "pwm1", "pwm1_enable", "fan1_input", "temp2_input", "pwm3", "fanx_input"]
            .into_iter()
            .map(String::from)
            .collect();
    let fans = collect_channel_numbers(&entries, "fan", Some("_input"));
    let pwms = collect_channel_numbers(&entries, "pwm", None);
    assert_eq!(fans, vec![1, 3]);
    assert_eq!(pwms, vec![1, 3]);
    assert_eq!(merge_channels(&fans, &vec![5, 2, 1]), vec![1, 2, 3, 5]);
    assert_eq!(collect_channel_numbers(&entries, "temp", Some("_input")), vec![2]);
}

#[test]
fn sysfs_numbers_parse_like_from_str() {
    assert_eq!(trimmed_value("  42000\n"), "42000");
    assert_eq!(parse_i64_value("42000\n"), Some(42000));
    assert_eq!(parse_i64_value("-5"), Some(-5));
    assert_eq!(parse_i64_value("+7"), Some(7));
    assert_eq!(parse_i64_value("-9223372036854775808"), Some(i64::MIN));
    assert_eq!(parse_i64_value("9223372036854775808"), None);
    assert_eq!(parse_i64_value("12a"), None);
    assert_eq!(parse_i64_value(""), None);
    assert_eq!(parse_u64_value(" 1200 "), Some(1200));
    assert_eq!(parse_u64_value("-1"), None);
    assert_eq!(parse_u64_value("18446744073709551615"), Some(u64::MAX));
    assert_eq!(parse_u64_value("18446744073709551616"), None);
    assert_eq!(parse_u64_value("+"), None);
}

fn device(id: &str) -> HwmonDevice {
    HwmonDevice {
        id: id.into(),
        name: "n".into(),
        sysfs_path: format!("/sys/class/hwmon/{id}"),
        stable_identity: String::new(),
        temperatures: vec![],
        fans: vec![],
    }
}

#[test]
fn devices_sort_by_id() {
    let sorted = sort_devices_by_id(vec![device("hwmon-b"), device("hwmon-a"), device("hwmon-c"), device("hwmon-a")]);
    let ids: Vec<&str> = sorted.iter().map(|d| d.id.as_str()).collect();
    assert_eq!(ids, vec!["hwmon-a", "hwmon-a", "hwmon-b", "hwmon-c"]);
    assert_eq!(sorted[0].sysfs_path, "/sys/class/hwmon/hwmon-a");
}

#[test]
fn client_labels_and_wire_names() {
    assert_eq!(state_label("managed"), "managed");
    assert_eq!(state_label("degraded"), "DEGRADED");
    assert_eq!(state_label("fallback"), "FALLBACK");
    assert_eq!(state_label("unmanaged"), "unmanaged");
    assert_eq!(state_label("weird"), "unknown");
    assert_eq!(AggregationArg::Average.as_wire_value(), "average");
    assert_eq!(AggregationArg::Max.as_wire_value(), "max");
    assert_eq!(AggregationArg::Min.as_wire_value(), "min");
    assert_eq!(AggregationArg::Median.as_wire_value(), "median");
    assert_eq!(auto_tune_state_label(Some("still_running"), None), "still-running");
    assert_eq!(auto_tune_state_label(None, Some(true)), "running");
    assert_eq!(auto_tune_state_label(None, None), "idle");
}

#[test]
fn client_reason_summaries() {
    assert_eq!(
        degraded_reason_summary(&DegradedReason::FanMissing { fan_id: "f".into() }),
        "fan missing from hardware (was: f)"
    );
    assert_eq!(
        degraded_reason_summary(&DegradedReason::FanNoLongerEnrollable {
            fan_id: "f".into(),
            support_state: SupportState::Partial,
            reason: "r".into()
        }),
        "no longer enrollable — f (state: partial, reason: r)"
    );
    assert_eq!(
        degraded_reason_summary(&DegradedReason::ControlModeUnavailable { fan_id: "f".into(), mode: ControlMode::Pwm }),
        "f — configured control mode 'pwm' no longer supported"
    );
    assert_eq!(
        degraded_reason_summary(&DegradedReason::PartialBootRecovery { failed_count: 1, recovered_count: 2 }),
        "partial boot recovery: 2 recovered, 1 failed"
    );
    assert_eq!(
        degraded_reason_summary(&DegradedReason::StaleSensorData { fan_id: "f".into() }),
        "unknown degraded reason: stale_sensor_data"
    );
}
