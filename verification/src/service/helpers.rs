//! Conversions shared by the service's request handlers.

use vstd::prelude::*;

use crate::config::{AppliedFanEntry, AppliedFanEntryView, DraftFanEntry, DraftFanEntryView};
use crate::inventory::{ControlMode, SupportState};
use crate::lifecycle::runtime::{initial_control_snapshot, ControlRuntimeSnapshot};
use crate::lifecycle::state::{DegradedReason, DegradedReasonView};
use crate::text::{copy_strings, join_path, join_path_str};
use crate::validation::{validation_error_text, ValidationError, ValidationErrorView};

verus! {

/// What a control-mode argument names: nothing for `""` or `"none"`, the
/// mode for `"pwm"` or `"voltage"`, and an error for anything else.
pub open spec fn parse_control_mode_spec(mode: Seq<char>) -> Result<Option<ControlMode>, Seq<char>> {
    if mode == ""@ || mode == "none"@ {
        Ok(None)
    } else if mode == "pwm"@ {
        Ok(Some(ControlMode::Pwm))
    } else if mode == "voltage"@ {
        Ok(Some(ControlMode::Voltage))
    } else {
        Err("unknown control mode '"@ + mode + "'; expected 'pwm', 'voltage', or empty"@)
    }
}

/// Parses a control-mode argument of a client request.
pub fn parse_control_mode(mode: &str) -> (r: Result<Option<ControlMode>, String>)
    ensures
        match (r, parse_control_mode_spec(mode@)) {
            (Ok(m), Ok(n)) => m == n,
            (Err(e), Err(f)) => e@ == f,
            _ => false,
        },
{
    if crate::text::str_eq(mode, "") || crate::text::str_eq(mode, "none") {
        Ok(None)
    } else if crate::text::str_eq(mode, "pwm") {
        Ok(Some(ControlMode::Pwm))
    } else if crate::text::str_eq(mode, "voltage") {
        Ok(Some(ControlMode::Voltage))
    } else {
        Err("unknown control mode '".to_owned().concat(mode).concat("'; expected 'pwm', 'voltage', or empty"))
    }
}

/// The degraded reason recorded for a fan that a draft apply rejected:
/// a missing fan is missing, an unsupported mode is an unavailable mode, a
/// missing sensor is a missing sensor, a non-enrollable fan keeps its
/// support state and reason, and every other rejection marks the fan no
/// longer enrollable (unavailable) with the error's text as the reason.
pub open spec fn degraded_from_validation(e: ValidationErrorView) -> DegradedReasonView {
    match e {
        ValidationErrorView::FanNotFound { fan_id } => DegradedReasonView::FanMissing { fan_id },
        ValidationErrorView::FanNotEnrollable { fan_id, support_state, reason } =>
            DegradedReasonView::FanNoLongerEnrollable { fan_id, support_state, reason },
        ValidationErrorView::UnsupportedControlMode { fan_id, requested, .. } =>
            DegradedReasonView::ControlModeUnavailable { fan_id, mode: requested },
        ValidationErrorView::MissingControlMode { fan_id } => DegradedReasonView::FanNoLongerEnrollable {
            fan_id,
            support_state: SupportState::Unavailable,
            reason: "no control mode selected"@,
        },
        ValidationErrorView::TempSourceNotFound { fan_id, temp_id } =>
            DegradedReasonView::TempSourceMissing { fan_id, temp_id },
        ValidationErrorView::MissingTargetTemp { fan_id }
        | ValidationErrorView::NoSensorForManagedFan { fan_id }
        | ValidationErrorView::InvalidCadence { fan_id, .. }
        | ValidationErrorView::InvalidActuatorPolicy { fan_id, .. }
        | ValidationErrorView::InvalidPidLimits { fan_id, .. }
        | ValidationErrorView::InvalidPidGains { fan_id, .. }
        | ValidationErrorView::InvalidTargetTemperature { fan_id, .. } =>
            DegradedReasonView::FanNoLongerEnrollable {
                fan_id,
                support_state: SupportState::Unavailable,
                reason: validation_error_text(e),
            },
    }
}

/// Maps a validation error to the degraded reason tracked for the fan.
pub fn validation_error_to_degraded_reason(error: &ValidationError) -> (r: DegradedReason)
    ensures
        r@ == degraded_from_validation(error@),
{
    match error {
        ValidationError::FanNotFound { fan_id } => DegradedReason::FanMissing { fan_id: fan_id.clone() },
        ValidationError::FanNotEnrollable { fan_id, support_state, reason } =>
            DegradedReason::FanNoLongerEnrollable {
                fan_id: fan_id.clone(),
                support_state: *support_state,
                reason: reason.clone(),
            },
        ValidationError::UnsupportedControlMode { fan_id, requested, .. } =>
            DegradedReason::ControlModeUnavailable { fan_id: fan_id.clone(), mode: *requested },
        ValidationError::MissingControlMode { fan_id } => DegradedReason::FanNoLongerEnrollable {
            fan_id: fan_id.clone(),
            support_state: SupportState::Unavailable,
            reason: "no control mode selected".to_owned(),
        },
        ValidationError::TempSourceNotFound { fan_id, temp_id } =>
            DegradedReason::TempSourceMissing { fan_id: fan_id.clone(), temp_id: temp_id.clone() },
        ValidationError::MissingTargetTemp { fan_id }
        | ValidationError::NoSensorForManagedFan { fan_id }
        | ValidationError::InvalidCadence { fan_id, .. }
        | ValidationError::InvalidActuatorPolicy { fan_id, .. }
        | ValidationError::InvalidPidLimits { fan_id, .. }
        | ValidationError::InvalidPidGains { fan_id, .. }
        | ValidationError::InvalidTargetTemperature { fan_id, .. } =>
            DegradedReason::FanNoLongerEnrollable {
                fan_id: fan_id.clone(),
                support_state: SupportState::Unavailable,
                reason: error.message(),
            },
    }
}

/// The initial live-control snapshot of an applied entry.
pub fn control_snapshot_from_applied(entry: &AppliedFanEntry) -> (r: ControlRuntimeSnapshot)
    ensures
        r@ == initial_control_snapshot(entry@),
{
    ControlRuntimeSnapshot::from_applied_entry(entry)
}

/// The managed draft entry that reproduces an applied entry, every setting
/// given explicitly.
pub open spec fn draft_from_applied(e: AppliedFanEntryView) -> DraftFanEntryView {
    DraftFanEntryView {
        managed: true,
        control_mode: Some(e.control_mode),
        temp_sources: e.temp_sources,
        target_temp_millidegrees: Some(e.target_temp_millidegrees),
        aggregation: Some(e.aggregation),
        pid_gains: Some(e.pid_gains),
        cadence: Some(e.cadence),
        deadband_millidegrees: Some(e.deadband_millidegrees),
        actuator_policy: Some(e.actuator_policy),
        pid_limits: Some(e.pid_limits),
    }
}

/// A draft entry that starts from the applied settings of a fan.
pub fn draft_entry_from_applied(entry: &AppliedFanEntry) -> (r: DraftFanEntry)
    ensures
        r@ == draft_from_applied(entry@),
{
    DraftFanEntry {
        managed: true,
        control_mode: Some(entry.control_mode),
        temp_sources: copy_strings(&entry.temp_sources),
        target_temp_millidegrees: Some(entry.target_temp_millidegrees),
        aggregation: Some(entry.aggregation),
        pid_gains: Some(entry.pid_gains),
        cadence: Some(entry.cadence),
        deadband_millidegrees: Some(entry.deadband_millidegrees),
        actuator_policy: Some(entry.actuator_policy),
        pid_limits: Some(entry.pid_limits),
    }
}

/// The file that records the owned fans, in state directory `state_dir`.
pub fn owned_fans_path(state_dir: &str) -> (r: String)
    ensures
        r@ == join_path(state_dir@, "owned-fans.json"@),
{
    join_path_str(state_dir, "owned-fans.json")
}

/// Runtime-adjustable settings of the service.
#[derive(Clone, Copy, Debug, PartialEq, Eq, Structural)]
pub struct DaemonTuningSettings {
    pub auto_tune_observation_window_ms: u64,
}

/// Default auto-tune observation window (30 s).
pub const DEFAULT_AUTO_TUNE_OBSERVATION_WINDOW_MS: u64 = 30_000;

impl Default for DaemonTuningSettings {
    fn default() -> (r: Self)
        ensures
            r.auto_tune_observation_window_ms == DEFAULT_AUTO_TUNE_OBSERVATION_WINDOW_MS,
    {
        DaemonTuningSettings { auto_tune_observation_window_ms: DEFAULT_AUTO_TUNE_OBSERVATION_WINDOW_MS }
    }
}

} // verus!
