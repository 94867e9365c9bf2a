use kde_fan_control::inventory::ControlMode;
use kde_fan_control::lifecycle::owned::OwnedFanSet;

#[test]
fn owned_owned_fan_set_claim_and_release() {
    let mut owned = OwnedFanSet::new();

    owned.claim_fan("fan-1", ControlMode::Pwm, "/sys/class/hwmon/hwmon0/pwm1");
    assert!(owned.owns("fan-1"));
    assert_eq!(owned.control_mode("fan-1"), Some(ControlMode::Pwm));
    assert_eq!(owned.sysfs_path("fan-1"), Some("/sys/class/hwmon/hwmon0/pwm1"));
    assert_eq!(owned.len(), 1);

    owned.release_fan("fan-1");
    assert!(!owned.owns("fan-1"));
    assert!(owned.is_empty());
}

#[test]
fn owned_owned_fan_set_never_contains_unmanaged() {
    let mut owned = OwnedFanSet::new();
    owned.claim_fan("fan-1", ControlMode::Pwm, "/sys/class/hwmon/hwmon0/pwm1");

    assert!(!owned.owns("fan-unmanaged"));
    assert_eq!(owned.len(), 1);
}

#[test]
fn owned_owned_fan_set_release_all() {
    let mut owned = OwnedFanSet::new();
    owned.claim_fan("fan-1", ControlMode::Pwm, "/sys/class/hwmon/hwmon0/pwm1");
    owned.claim_fan("fan-2", ControlMode::Voltage, "/sys/class/hwmon/hwmon0/pwm2");

    owned.release_all();
    assert!(owned.is_empty());
    assert!(!owned.owns("fan-1"));
    assert!(!owned.owns("fan-2"));
}

#[test]
fn lifecycle_owned_fan_set_claim_and_release() {
    let mut owned = OwnedFanSet::new();

    owned.claim_fan("fan-1", ControlMode::Pwm, "/sys/class/hwmon/hwmon0/pwm1");
    assert!(owned.owns("fan-1"));
    assert_eq!(owned.control_mode("fan-1"), Some(ControlMode::Pwm));
    assert_eq!(owned.sysfs_path("fan-1"), Some("/sys/class/hwmon/hwmon0/pwm1"));
    assert_eq!(owned.len(), 1);

    owned.release_fan("fan-1");
    assert!(!owned.owns("fan-1"));
    assert!(owned.is_empty());
}

#[test]
fn lifecycle_owned_fan_set_never_contains_unmanaged() {
    let mut owned = OwnedFanSet::new();
    owned.claim_fan("fan-1", ControlMode::Pwm, "/sys/class/hwmon/hwmon0/pwm1");

    assert!(!owned.owns("fan-unmanaged"));
    assert_eq!(owned.len(), 1);
}

#[test]
fn lifecycle_owned_fan_set_release_all() {
    let mut owned = OwnedFanSet::new();
    owned.claim_fan("fan-1", ControlMode::Pwm, "/sys/class/hwmon/hwmon0/pwm1");
    owned.claim_fan("fan-2", ControlMode::Voltage, "/sys/class/hwmon/hwmon0/pwm2");

    owned.release_all();
    assert!(owned.is_empty());
    assert!(!owned.owns("fan-1"));
    assert!(!owned.owns("fan-2"));
}
