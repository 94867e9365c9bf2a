//! Validation of the staged draft against live hardware, and promotion of
//! the valid part of the draft into a new applied configuration.

use vstd::prelude::*;
use vstd::string::*;

use crate::config::{
    AppliedConfig, AppliedConfigView, AppliedFanEntry, AppliedFanEntryView, DraftConfig,
    DraftFanEntry, DraftFanEntryView,
};
use crate::control::{ActuatorPolicy, ControlCadence, PidGains, PidLimits};
use crate::fbits;
use crate::inventory::{
    control_mode_name, copy_modes, support_state_name,
    find_fan, find_fan_by_id, has_temp_source, modes_contain, temp_source_exists, ControlMode,
    FanChannel, FanChannelView, HwmonDeviceView, InventorySnapshot, SupportState,
};
use crate::strmap::{
    group_strmap, has_key, insert_entry, keys_distinct, keys_of, law_insert_then_lookup, lookup, value_at_key, StrMap,
};
use crate::text::{join, signed_decimal};

verus! {

broadcast use group_strmap;

/// Why a managed draft entry cannot be applied.
#[derive(Debug)]
pub enum ValidationError {
    FanNotFound { fan_id: String },
    FanNotEnrollable { fan_id: String, support_state: SupportState, reason: String },
    UnsupportedControlMode { fan_id: String, requested: ControlMode, available: Vec<ControlMode> },
    MissingControlMode { fan_id: String },
    TempSourceNotFound { fan_id: String, temp_id: String },
    MissingTargetTemp { fan_id: String },
    NoSensorForManagedFan { fan_id: String },
    InvalidCadence { fan_id: String, reason: String },
    InvalidActuatorPolicy { fan_id: String, reason: String },
    InvalidPidLimits { fan_id: String, reason: String },
    InvalidPidGains { fan_id: String, detail: String },
    InvalidTargetTemperature { fan_id: String, value: i64 },
}

pub enum ValidationErrorView {
    FanNotFound { fan_id: Seq<char> },
    FanNotEnrollable { fan_id: Seq<char>, support_state: SupportState, reason: Seq<char> },
    UnsupportedControlMode { fan_id: Seq<char>, requested: ControlMode, available: Seq<ControlMode> },
    MissingControlMode { fan_id: Seq<char> },
    TempSourceNotFound { fan_id: Seq<char>, temp_id: Seq<char> },
    MissingTargetTemp { fan_id: Seq<char> },
    NoSensorForManagedFan { fan_id: Seq<char> },
    InvalidCadence { fan_id: Seq<char>, reason: Seq<char> },
    InvalidActuatorPolicy { fan_id: Seq<char>, reason: Seq<char> },
    InvalidPidLimits { fan_id: Seq<char>, reason: Seq<char> },
    InvalidPidGains { fan_id: Seq<char>, detail: Seq<char> },
    InvalidTargetTemperature { fan_id: Seq<char>, value: i64 },
}

impl View for ValidationError {
    type V = ValidationErrorView;

    open spec fn view(&self) -> ValidationErrorView {
        match self {
            ValidationError::FanNotFound { fan_id } => ValidationErrorView::FanNotFound { fan_id: fan_id@ },
            ValidationError::FanNotEnrollable { fan_id, support_state, reason } =>
                ValidationErrorView::FanNotEnrollable {
                    fan_id: fan_id@,
                    support_state: *support_state,
                    reason: reason@,
                },
            ValidationError::UnsupportedControlMode { fan_id, requested, available } =>
                ValidationErrorView::UnsupportedControlMode {
                    fan_id: fan_id@,
                    requested: *requested,
                    available: available@,
                },
            ValidationError::MissingControlMode { fan_id } =>
                ValidationErrorView::MissingControlMode { fan_id: fan_id@ },
            ValidationError::TempSourceNotFound { fan_id, temp_id } =>
                ValidationErrorView::TempSourceNotFound { fan_id: fan_id@, temp_id: temp_id@ },
            ValidationError::MissingTargetTemp { fan_id } =>
                ValidationErrorView::MissingTargetTemp { fan_id: fan_id@ },
            ValidationError::NoSensorForManagedFan { fan_id } =>
                ValidationErrorView::NoSensorForManagedFan { fan_id: fan_id@ },
            ValidationError::InvalidCadence { fan_id, reason } =>
                ValidationErrorView::InvalidCadence { fan_id: fan_id@, reason: reason@ },
            ValidationError::InvalidActuatorPolicy { fan_id, reason } =>
                ValidationErrorView::InvalidActuatorPolicy { fan_id: fan_id@, reason: reason@ },
            ValidationError::InvalidPidLimits { fan_id, reason } =>
                ValidationErrorView::InvalidPidLimits { fan_id: fan_id@, reason: reason@ },
            ValidationError::InvalidPidGains { fan_id, detail } =>
                ValidationErrorView::InvalidPidGains { fan_id: fan_id@, detail: detail@ },
            ValidationError::InvalidTargetTemperature { fan_id, value } =>
                ValidationErrorView::InvalidTargetTemperature { fan_id: fan_id@, value: *value },
        }
    }
}

impl DeepView for ValidationError {
    type V = ValidationErrorView;

    open spec fn deep_view(&self) -> ValidationErrorView {
        self@
    }
}

/// The modes' names joined by `, `.
pub open spec fn mode_list_text(modes: Seq<ControlMode>) -> Seq<char> {
    join(modes.map_values(|m: ControlMode| control_mode_name(m)), ", "@)
}

/// The human-readable text of a validation error.
pub open spec fn validation_error_text(e: ValidationErrorView) -> Seq<char> {
    match e {
        ValidationErrorView::FanNotFound { fan_id } => "fan '"@ + fan_id + "' not found in current inventory"@,
        ValidationErrorView::FanNotEnrollable { fan_id, support_state, reason } =>
            "fan '"@ + fan_id + "' is not enrollable (support: "@ + support_state_name(support_state) + "): "@ + reason,
        ValidationErrorView::UnsupportedControlMode { fan_id, requested, available } =>
            "fan '"@ + fan_id + "' does not support control mode "@ + control_mode_name(requested) + " (available: "@
                + mode_list_text(available) + ")"@,
        ValidationErrorView::MissingControlMode { fan_id } =>
            "managed fan '"@ + fan_id + "' has no control mode selected"@,
        ValidationErrorView::TempSourceNotFound { fan_id, temp_id } =>
            "temperature source '"@ + temp_id + "' for fan '"@ + fan_id + "' not found in current inventory"@,
        ValidationErrorView::MissingTargetTemp { fan_id } =>
            "managed fan '"@ + fan_id + "' has no target temperature configured"@,
        ValidationErrorView::NoSensorForManagedFan { fan_id } =>
            "managed fan '"@ + fan_id + "' has no temperature source configured"@,
        ValidationErrorView::InvalidCadence { fan_id, reason } =>
            "managed fan '"@ + fan_id + "' has invalid cadence: "@ + reason,
        ValidationErrorView::InvalidActuatorPolicy { fan_id, reason } =>
            "managed fan '"@ + fan_id + "' has invalid actuator policy: "@ + reason,
        ValidationErrorView::InvalidPidLimits { fan_id, reason } =>
            "managed fan '"@ + fan_id + "' has invalid PID limits: "@ + reason,
        ValidationErrorView::InvalidPidGains { fan_id, detail } =>
            "managed fan '"@ + fan_id + "' has invalid PID gains: "@ + detail,
        ValidationErrorView::InvalidTargetTemperature { fan_id, value } =>
            "managed fan '"@ + fan_id + "' has invalid target temperature: "@ + signed_decimal(value as int)
                + " m°C (must be 1..=150000)"@,
    }
}

fn mode_list(modes: &Vec<ControlMode>) -> (r: String)
    ensures
        r@ == mode_list_text(modes@),
{
    let mut names: Vec<String> = Vec::new();
    let mut i: usize = 0;
    while i < modes.len()
        invariant
            i <= modes@.len(),
            names.deep_view() == modes@.take(i as int).map_values(|m: ControlMode| control_mode_name(m)),
        decreases modes.len() - i,
    {
        let ghost before = names.deep_view();
        let n = modes[i].debug_name().to_owned();
        names.push(n);
        assert(names.deep_view() =~= before.push(n@));
        assert(modes@.take(i + 1).map_values(|m: ControlMode| control_mode_name(m)) =~= modes@.take(
            i as int,
        ).map_values(|m: ControlMode| control_mode_name(m)).push(control_mode_name(modes@[i as int])));
        i = i + 1;
    }
    assert(modes@.take(i as int) =~= modes@);
    crate::text::join_strings(&names, ", ")
}

impl ValidationError {
    /// The human-readable text of the error (what `Display` writes).
    pub fn message(&self) -> (r: String)
        ensures
            r@ == validation_error_text(self@),
    {
        match self {
            ValidationError::FanNotFound { fan_id } =>
                "fan '".to_owned().concat(fan_id.as_str()).concat("' not found in current inventory"),
            ValidationError::FanNotEnrollable { fan_id, support_state, reason } =>
                "fan '".to_owned().concat(fan_id.as_str()).concat("' is not enrollable (support: ").concat(
                    support_state.debug_name(),
                ).concat("): ").concat(reason.as_str()),
            ValidationError::UnsupportedControlMode { fan_id, requested, available } => {
                let list = mode_list(available);
                "fan '".to_owned().concat(fan_id.as_str()).concat("' does not support control mode ").concat(
                    requested.debug_name(),
                ).concat(" (available: ").concat(list.as_str()).concat(")")
            },
            ValidationError::MissingControlMode { fan_id } =>
                "managed fan '".to_owned().concat(fan_id.as_str()).concat("' has no control mode selected"),
            ValidationError::TempSourceNotFound { fan_id, temp_id } =>
                "temperature source '".to_owned().concat(temp_id.as_str()).concat("' for fan '").concat(
                    fan_id.as_str(),
                ).concat("' not found in current inventory"),
            ValidationError::MissingTargetTemp { fan_id } =>
                "managed fan '".to_owned().concat(fan_id.as_str()).concat("' has no target temperature configured"),
            ValidationError::NoSensorForManagedFan { fan_id } =>
                "managed fan '".to_owned().concat(fan_id.as_str()).concat("' has no temperature source configured"),
            ValidationError::InvalidCadence { fan_id, reason } =>
                "managed fan '".to_owned().concat(fan_id.as_str()).concat("' has invalid cadence: ").concat(
                    reason.as_str(),
                ),
            ValidationError::InvalidActuatorPolicy { fan_id, reason } =>
                "managed fan '".to_owned().concat(fan_id.as_str()).concat("' has invalid actuator policy: ").concat(
                    reason.as_str(),
                ),
            ValidationError::InvalidPidLimits { fan_id, reason } =>
                "managed fan '".to_owned().concat(fan_id.as_str()).concat("' has invalid PID limits: ").concat(
                    reason.as_str(),
                ),
            ValidationError::InvalidPidGains { fan_id, detail } =>
                "managed fan '".to_owned().concat(fan_id.as_str()).concat("' has invalid PID gains: ").concat(
                    detail.as_str(),
                ),
            ValidationError::InvalidTargetTemperature { fan_id, value } => {
                let mut s = "managed fan '".to_owned().concat(fan_id.as_str()).concat(
                    "' has invalid target temperature: ",
                );
                crate::text::push_signed_decimal(&mut s, *value);
                s.concat(" m°C (must be 1..=150000)")
            },
        }
    }
}

// ---------------------------------------------------------------------------
// Setting checks
// ---------------------------------------------------------------------------

/// Lowest accepted cadence interval.
pub const MIN_CADENCE_INTERVAL_MS: u64 = 100;

/// Highest accepted target temperature (150 °C).
pub const MAX_TARGET_TEMP_MILLIDEGREES: i64 = 150_000;

/// What is wrong with a cadence, if anything.
pub open spec fn cadence_error(fan_id: Seq<char>, c: ControlCadence) -> Option<ValidationErrorView> {
    if c.sample_interval_ms < MIN_CADENCE_INTERVAL_MS || c.control_interval_ms < MIN_CADENCE_INTERVAL_MS
        || c.write_interval_ms < MIN_CADENCE_INTERVAL_MS {
        Some(ValidationErrorView::InvalidCadence {
            fan_id,
            reason: "sample, control, and write cadences must each be at least 100ms"@,
        })
    } else if c.sample_interval_ms > c.control_interval_ms || c.control_interval_ms > c.write_interval_ms {
        Some(ValidationErrorView::InvalidCadence {
            fan_id,
            reason: "cadence must satisfy sample <= control <= write"@,
        })
    } else {
        None
    }
}

/// What is wrong with an actuator policy, if anything.
pub open spec fn actuator_policy_error(fan_id: Seq<char>, p: ActuatorPolicy) -> Option<ValidationErrorView> {
    if !fbits::spec_is_percent(p.output_min_percent) || !fbits::spec_is_percent(p.output_max_percent)
        || !fbits::spec_is_percent(p.startup_kick_percent) {
        Some(ValidationErrorView::InvalidActuatorPolicy {
            fan_id,
            reason: "all actuator percentages must be within 0.0..=100.0"@,
        })
    } else if fbits::spec_gt(p.output_min_percent, p.output_max_percent) {
        Some(ValidationErrorView::InvalidActuatorPolicy {
            fan_id,
            reason: "output_min_percent must be <= output_max_percent"@,
        })
    } else if p.pwm_min > p.pwm_max {
        Some(ValidationErrorView::InvalidActuatorPolicy {
            fan_id,
            reason: "pwm_min must be <= pwm_max"@,
        })
    } else {
        None
    }
}

/// What is wrong with PID limits, if anything.
pub open spec fn pid_limits_error(fan_id: Seq<char>, l: PidLimits) -> Option<ValidationErrorView> {
    if !l.spec_is_finite() {
        Some(ValidationErrorView::InvalidPidLimits {
            fan_id,
            reason: "PID limits contain non-finite values (NaN or Infinity)"@,
        })
    } else if fbits::spec_gt(l.integral_min, l.integral_max) {
        Some(ValidationErrorView::InvalidPidLimits {
            fan_id,
            reason: "integral_min must be <= integral_max"@,
        })
    } else if fbits::spec_gt(l.derivative_min, l.derivative_max) {
        Some(ValidationErrorView::InvalidPidLimits {
            fan_id,
            reason: "derivative_min must be <= derivative_max"@,
        })
    } else {
        None
    }
}

/// How `f64`'s `Display` writes a non-finite value.
pub open spec fn non_finite_text(bits: u64) -> Seq<char> {
    if fbits::spec_is_nan(bits) {
        "NaN"@
    } else if fbits::sign_set(bits) {
        "-inf"@
    } else {
        "inf"@
    }
}

/// `name=value` for a gain, or nothing when the gain is finite.
pub open spec fn gain_parts(name: Seq<char>, bits: u64) -> Seq<Seq<char>> {
    if fbits::spec_is_finite(bits) {
        Seq::empty()
    } else {
        seq![name + "="@ + non_finite_text(bits)]
    }
}

/// The detail text of non-finite gains.
pub open spec fn gains_detail(g: PidGains) -> Seq<char> {
    "non-finite PID gains: "@ + join(
        gain_parts("kp"@, g.kp) + gain_parts("ki"@, g.ki) + gain_parts("kd"@, g.kd),
        ", "@,
    )
}

/// The first temperature source that the snapshot lacks.
pub open spec fn first_missing_temp(sources: Seq<Seq<char>>, devices: Seq<HwmonDeviceView>) -> Option<Seq<char>>
    decreases sources.len(),
{
    if sources.len() == 0 {
        None
    } else {
        match first_missing_temp(sources.drop_last(), devices) {
            Some(t) => Some(t),
            None => if !has_temp_source(devices, sources.last()) {
                Some(sources.last())
            } else {
                None
            },
        }
    }
}

/// The checks on the fan's hardware, in order.
pub open spec fn hardware_error(fan_id: Seq<char>, e: DraftFanEntryView, f: FanChannelView) -> Option<ValidationErrorView> {
    if f.support_state != SupportState::Available {
        Some(ValidationErrorView::FanNotEnrollable {
            fan_id,
            support_state: f.support_state,
            reason: match f.support_reason {
                Some(r) => r,
                None => "unsupported hardware"@,
            },
        })
    } else if e.control_mode is None {
        Some(ValidationErrorView::MissingControlMode { fan_id })
    } else if !f.control_modes.contains(e.control_mode->0) {
        Some(ValidationErrorView::UnsupportedControlMode {
            fan_id,
            requested: e.control_mode->0,
            available: f.control_modes,
        })
    } else {
        None
    }
}

/// The checks on the entry's own settings, in order.
pub open spec fn settings_error(fan_id: Seq<char>, e: DraftFanEntryView) -> Option<ValidationErrorView> {
    if e.target_temp_millidegrees is None {
        Some(ValidationErrorView::MissingTargetTemp { fan_id })
    } else if e.temp_sources.len() == 0 {
        Some(ValidationErrorView::NoSensorForManagedFan { fan_id })
    } else if cadence_error(fan_id, e.resolved_cadence()) is Some {
        cadence_error(fan_id, e.resolved_cadence())
    } else if actuator_policy_error(fan_id, e.resolved_actuator_policy()) is Some {
        actuator_policy_error(fan_id, e.resolved_actuator_policy())
    } else if pid_limits_error(fan_id, e.resolved_pid_limits()) is Some {
        pid_limits_error(fan_id, e.resolved_pid_limits())
    } else if !e.resolved_pid_gains().spec_is_finite() {
        Some(ValidationErrorView::InvalidPidGains { fan_id, detail: gains_detail(e.resolved_pid_gains()) })
    } else if e.target_temp_millidegrees->0 <= 0 || e.target_temp_millidegrees->0 > MAX_TARGET_TEMP_MILLIDEGREES {
        Some(ValidationErrorView::InvalidTargetTemperature { fan_id, value: e.target_temp_millidegrees->0 })
    } else {
        None
    }
}

/// Why a managed entry is rejected, or `None` when it is enrollable.
pub open spec fn entry_error(fan_id: Seq<char>, e: DraftFanEntryView, devices: Seq<HwmonDeviceView>) -> Option<ValidationErrorView> {
    match find_fan(devices, fan_id) {
        None => Some(ValidationErrorView::FanNotFound { fan_id }),
        Some(f) => if hardware_error(fan_id, e, f) is Some {
            hardware_error(fan_id, e, f)
        } else if settings_error(fan_id, e) is Some {
            settings_error(fan_id, e)
        } else {
            match first_missing_temp(e.temp_sources, devices) {
                Some(t) => Some(ValidationErrorView::TempSourceNotFound { fan_id, temp_id: t }),
                None => None,
            }
        },
    }
}

/// The enrollable fan ids and the rejected ones with their errors, in the
/// draft's order; unmanaged entries are skipped.
pub open spec fn validation_outcome(
    draft: Seq<(Seq<char>, DraftFanEntryView)>,
    devices: Seq<HwmonDeviceView>,
) -> (Seq<Seq<char>>, Seq<(Seq<char>, ValidationErrorView)>)
    decreases draft.len(),
{
    if draft.len() == 0 {
        (Seq::empty(), Seq::empty())
    } else {
        let prev = validation_outcome(draft.drop_last(), devices);
        let k = draft.last().0;
        let e = draft.last().1;
        if !e.managed {
            prev
        } else {
            match entry_error(k, e, devices) {
                None => (prev.0.push(k), prev.1),
                Some(err) => (prev.0, prev.1.push((k, err))),
            }
        }
    }
}

fn invalid_cadence(fan_id: &str, reason: &str) -> (r: ValidationError)
    ensures
        r@ == (ValidationErrorView::InvalidCadence { fan_id: fan_id@, reason: reason@ }),
{
    ValidationError::InvalidCadence { fan_id: fan_id.to_owned(), reason: reason.to_owned() }
}

fn invalid_policy(fan_id: &str, reason: &str) -> (r: ValidationError)
    ensures
        r@ == (ValidationErrorView::InvalidActuatorPolicy { fan_id: fan_id@, reason: reason@ }),
{
    ValidationError::InvalidActuatorPolicy { fan_id: fan_id.to_owned(), reason: reason.to_owned() }
}

fn invalid_limits(fan_id: &str, reason: &str) -> (r: ValidationError)
    ensures
        r@ == (ValidationErrorView::InvalidPidLimits { fan_id: fan_id@, reason: reason@ }),
{
    ValidationError::InvalidPidLimits { fan_id: fan_id.to_owned(), reason: reason.to_owned() }
}

/// Checks that every interval is at least 100 ms and that
/// sample <= control <= write.
pub fn validate_cadence(fan_id: &str, cadence: ControlCadence) -> (r: Result<(), ValidationError>)
    ensures
        match r {
            Ok(()) => cadence_error(fan_id@, cadence) is None,
            Err(e) => cadence_error(fan_id@, cadence) == Some(e@),
        },
        r is Ok <==> (100 <= cadence.sample_interval_ms <= cadence.control_interval_ms <= cadence.write_interval_ms
            && cadence.write_interval_ms >= 100 && cadence.control_interval_ms >= 100),
{
    if cadence.sample_interval_ms < MIN_CADENCE_INTERVAL_MS || cadence.control_interval_ms
        < MIN_CADENCE_INTERVAL_MS || cadence.write_interval_ms < MIN_CADENCE_INTERVAL_MS {
        return Err(
            invalid_cadence(fan_id, "sample, control, and write cadences must each be at least 100ms"),
        );
    }
    if cadence.sample_interval_ms > cadence.control_interval_ms || cadence.control_interval_ms
        > cadence.write_interval_ms {
        return Err(invalid_cadence(fan_id, "cadence must satisfy sample <= control <= write"));
    }
    Ok(())
}

/// Checks that the percentages lie in 0..=100, that the output range is
/// ordered and that the PWM range is ordered.
pub fn validate_actuator_policy(fan_id: &str, policy: ActuatorPolicy) -> (r: Result<(), ValidationError>)
    ensures
        match r {
            Ok(()) => actuator_policy_error(fan_id@, policy) is None,
            Err(e) => actuator_policy_error(fan_id@, policy) == Some(e@),
        },
{
    if !fbits::is_percent(policy.output_min_percent) || !fbits::is_percent(policy.output_max_percent)
        || !fbits::is_percent(policy.startup_kick_percent) {
        return Err(invalid_policy(fan_id, "all actuator percentages must be within 0.0..=100.0"));
    }
    if fbits::gt(policy.output_min_percent, policy.output_max_percent) {
        return Err(invalid_policy(fan_id, "output_min_percent must be <= output_max_percent"));
    }
    if policy.pwm_min > policy.pwm_max {
        return Err(invalid_policy(fan_id, "pwm_min must be <= pwm_max"));
    }
    Ok(())
}

/// Checks that the limits are finite and that each range is ordered.
pub fn validate_pid_limits(fan_id: &str, limits: PidLimits) -> (r: Result<(), ValidationError>)
    ensures
        match r {
            Ok(()) => pid_limits_error(fan_id@, limits) is None,
            Err(e) => pid_limits_error(fan_id@, limits) == Some(e@),
        },
{
    if !limits.is_finite() {
        return Err(invalid_limits(fan_id, "PID limits contain non-finite values (NaN or Infinity)"));
    }
    if fbits::gt(limits.integral_min, limits.integral_max) {
        return Err(invalid_limits(fan_id, "integral_min must be <= integral_max"));
    }
    if fbits::gt(limits.derivative_min, limits.derivative_max) {
        return Err(invalid_limits(fan_id, "derivative_min must be <= derivative_max"));
    }
    Ok(())
}

fn non_finite_str(bits: u64) -> (r: &'static str)
    ensures
        r@ == non_finite_text(bits),
{
    if fbits::is_nan(bits) {
        "NaN"
    } else if fbits::is_sign_negative(bits) {
        "-inf"
    } else {
        "inf"
    }
}

/// Appends `name=value` for a non-finite gain to the parts written so far.
fn append_gain_part(
    detail: &mut String,
    count: &mut usize,
    name: &str,
    bits: u64,
    Ghost(parts): Ghost<Seq<Seq<char>>>,
)
    requires
        old(detail)@ == join(parts, ", "@),
        *old(count) == parts.len(),
        *old(count) < 3,
    ensures
        final(detail)@ == join(parts + gain_parts(name@, bits), ", "@),
        *final(count) == (parts + gain_parts(name@, bits)).len(),
{
    if !fbits::is_finite(bits) {
        let ghost part = name@ + "="@ + non_finite_text(bits);
        let ghost next = parts + gain_parts(name@, bits);
        assert(next =~= parts.push(part));
        assert(next.drop_last() =~= parts);
        if *count > 0 {
            detail.append(", ");
        }
        detail.append(name);
        detail.append("=");
        detail.append(non_finite_str(bits));
        assert(detail@ =~= join(next, ", "@));
        *count = *count + 1;
    } else {
        assert(parts + gain_parts(name@, bits) =~= parts);
    }
}

/// The detail text listing the non-finite gains.
pub fn pid_gains_detail(gains: PidGains) -> (r: String)
    ensures
        r@ == gains_detail(gains),
{
    let mut list = String::new();
    let mut count: usize = 0;
    let ghost p0 = Seq::<Seq<char>>::empty();
    assert(list@ =~= join(p0, ", "@));
    append_gain_part(&mut list, &mut count, "kp", gains.kp, Ghost(p0));
    let ghost p1 = p0 + gain_parts("kp"@, gains.kp);
    append_gain_part(&mut list, &mut count, "ki", gains.ki, Ghost(p1));
    let ghost p2 = p1 + gain_parts("ki"@, gains.ki);
    append_gain_part(&mut list, &mut count, "kd", gains.kd, Ghost(p2));
    assert(p2 + gain_parts("kd"@, gains.kd) =~= gain_parts("kp"@, gains.kp) + gain_parts("ki"@, gains.ki)
        + gain_parts("kd"@, gains.kd));
    let prefix = "non-finite PID gains: ".to_owned();
    prefix.concat(list.as_str())
}


/// The first of `sources` that no sensor of the snapshot has.
pub(crate) fn find_missing_temp<'a>(sources: &'a Vec<String>, snapshot: &InventorySnapshot) -> (r: Option<&'a String>)
    ensures
        r.deep_view() == first_missing_temp(sources.deep_view(), snapshot@),
{
    let ghost sv = sources.deep_view();
    let mut i: usize = 0;
    while i < sources.len()
        invariant
            sv == sources.deep_view(),
            i <= sv.len(),
            first_missing_temp(sv.take(i as int), snapshot@) is None,
        decreases sources.len() - i,
    {
        assert(sv.take(i + 1).drop_last() =~= sv.take(i as int));
        if !temp_source_exists(snapshot, sources[i].as_str()) {
            proof {
                lemma_first_missing_prefix(sv, i as int, snapshot@);
            }
            return Some(&sources[i]);
        }
        i = i + 1;
    }
    assert(sv.take(i as int) =~= sv);
    None
}

proof fn lemma_first_missing_prefix(sv: Seq<Seq<char>>, i: int, devices: Seq<HwmonDeviceView>)
    requires
        0 <= i < sv.len(),
        first_missing_temp(sv.take(i), devices) is None,
        !has_temp_source(devices, sv[i]),
    ensures
        first_missing_temp(sv, devices) == Some(sv[i]),
    decreases sv.len(),
{
    assert(sv.take(i + 1).drop_last() =~= sv.take(i));
    assert(first_missing_temp(sv.take(i + 1), devices) == Some(sv[i]));
    if sv.len() == i + 1 {
        assert(sv.take(i + 1) =~= sv);
    } else {
        assert(sv.drop_last().take(i) =~= sv.take(i));
        lemma_first_missing_prefix(sv.drop_last(), i, devices);
    }
}

/// The hardware checks of a managed entry against its fan.
fn check_hardware(fan_id: &str, entry: &DraftFanEntry, fan: &FanChannel) -> (r: Option<ValidationError>)
    ensures
        r.deep_view() == hardware_error(fan_id@, entry@, fan@),
{
    if fan.support_state != SupportState::Available {
        let reason = match &fan.support_reason {
            Some(r) => r.clone(),
            None => "unsupported hardware".to_owned(),
        };
        return Some(
            ValidationError::FanNotEnrollable {
                fan_id: fan_id.to_owned(),
                support_state: fan.support_state,
                reason,
            },
        );
    }
    match entry.control_mode {
        None => Some(ValidationError::MissingControlMode { fan_id: fan_id.to_owned() }),
        Some(requested) => {
            if !modes_contain(&fan.control_modes, requested) {
                Some(
                    ValidationError::UnsupportedControlMode {
                        fan_id: fan_id.to_owned(),
                        requested,
                        available: copy_modes(&fan.control_modes),
                    },
                )
            } else {
                None
            }
        },
    }
}

/// The checks of a managed entry's own settings.
fn check_settings(fan_id: &str, entry: &DraftFanEntry) -> (r: Option<ValidationError>)
    ensures
        r.deep_view() == settings_error(fan_id@, entry@),
{
    let target = match entry.resolved_target_temp_millidegrees() {
        None => {
            return Some(ValidationError::MissingTargetTemp { fan_id: fan_id.to_owned() });
        },
        Some(t) => t,
    };
    if entry.temp_sources.len() == 0 {
        return Some(ValidationError::NoSensorForManagedFan { fan_id: fan_id.to_owned() });
    }
    if let Err(e) = validate_cadence(fan_id, entry.resolved_cadence()) {
        return Some(e);
    }
    if let Err(e) = validate_actuator_policy(fan_id, entry.resolved_actuator_policy()) {
        return Some(e);
    }
    if let Err(e) = validate_pid_limits(fan_id, entry.resolved_pid_limits()) {
        return Some(e);
    }
    let gains = entry.resolved_pid_gains();
    if !gains.is_finite() {
        return Some(
            ValidationError::InvalidPidGains { fan_id: fan_id.to_owned(), detail: pid_gains_detail(gains) },
        );
    }
    if target <= 0 || target > MAX_TARGET_TEMP_MILLIDEGREES {
        return Some(ValidationError::InvalidTargetTemperature { fan_id: fan_id.to_owned(), value: target });
    }
    None
}

/// Why a managed draft entry is rejected, or `None` when it can be applied.
pub fn check_draft_entry(fan_id: &str, entry: &DraftFanEntry, snapshot: &InventorySnapshot) -> (r: Option<ValidationError>)
    ensures
        r.deep_view() == entry_error(fan_id@, entry@, snapshot@),
{
    let fan = match find_fan_by_id(snapshot, fan_id) {
        None => {
            return Some(ValidationError::FanNotFound { fan_id: fan_id.to_owned() });
        },
        Some(f) => f,
    };
    let hw = check_hardware(fan_id, entry, fan);
    if hw.is_some() {
        return hw;
    }
    let settings = check_settings(fan_id, entry);
    if settings.is_some() {
        return settings;
    }
    match find_missing_temp(&entry.temp_sources, snapshot) {
        Some(t) => Some(ValidationError::TempSourceNotFound { fan_id: fan_id.to_owned(), temp_id: t.clone() }),
        None => None,
    }
}

/// Fans that can be applied, and fans rejected with the reason.
#[derive(Debug)]
pub struct ValidationResult {
    pub enrollable: Vec<String>,
    pub rejected: Vec<(String, ValidationError)>,
}

impl View for ValidationResult {
    type V = (Seq<Seq<char>>, Seq<(Seq<char>, ValidationErrorView)>);

    open spec fn view(&self) -> (Seq<Seq<char>>, Seq<(Seq<char>, ValidationErrorView)>) {
        (self.enrollable.deep_view(), self.rejected.deep_view())
    }
}

impl ValidationResult {
    /// Whether no fan was rejected.
    pub fn all_passed(&self) -> (r: bool)
        ensures
            r == (self@.1.len() == 0),
    {
        self.rejected.len() == 0
    }
}

/// Checks every managed entry of the draft against the snapshot: the fan
/// exists and is available, its control mode is set and supported, it has a
/// target temperature and sensors, its cadence, actuator policy, PID limits
/// and gains are valid, its target lies in 1..=150000 m°C and its sensors
/// exist. Unmanaged entries are skipped.
pub fn validate_draft(draft: &DraftConfig, snapshot: &InventorySnapshot) -> (r: ValidationResult)
    ensures
        r@ == validation_outcome(draft@, snapshot@),
{
    let entries = draft.fans.entries();
    let ghost dv = draft@;
    let mut enrollable: Vec<String> = Vec::new();
    let mut rejected: Vec<(String, ValidationError)> = Vec::new();
    let mut i: usize = 0;
    while i < entries.len()
        invariant
            dv == draft@,
            entries.deep_view() == dv,
            i <= dv.len(),
            (enrollable.deep_view(), rejected.deep_view()) == validation_outcome(dv.take(i as int), snapshot@),
        decreases entries.len() - i,
    {
        let ghost before = (enrollable.deep_view(), rejected.deep_view());
        assert(dv.take(i + 1).drop_last() =~= dv.take(i as int));
        assert(dv.take(i + 1).last() == dv[i as int]);
        let fan_id = &entries[i].0;
        let entry = &entries[i].1;
        if entry.managed {
            match check_draft_entry(fan_id.as_str(), entry, snapshot) {
                None => {
                    enrollable.push(fan_id.clone());
                    assert(enrollable.deep_view() =~= before.0.push(fan_id@));
                },
                Some(e) => {
                    let ghost ev = e@;
                    rejected.push((fan_id.clone(), e));
                    assert(rejected.deep_view() =~= before.1.push((fan_id@, ev)));
                },
            }
        }
        i = i + 1;
    }
    assert(dv.take(i as int) =~= dv);
    ValidationResult { enrollable, rejected }
}

/// The applied entry built from a validated draft entry.
pub open spec fn applied_from_draft(e: DraftFanEntryView) -> AppliedFanEntryView {
    AppliedFanEntryView {
        control_mode: e.control_mode->0,
        temp_sources: e.temp_sources,
        target_temp_millidegrees: e.target_temp_millidegrees->0,
        aggregation: e.resolved_aggregation(),
        pid_gains: e.resolved_pid_gains(),
        cadence: e.resolved_cadence(),
        deadband_millidegrees: e.resolved_deadband_millidegrees(),
        actuator_policy: e.resolved_actuator_policy(),
        pid_limits: e.resolved_pid_limits(),
    }
}

/// The applied entries of the enrollable fans, in the order they were found
/// enrollable.
pub open spec fn promoted_entries(
    enrollable: Seq<Seq<char>>,
    draft: Seq<(Seq<char>, DraftFanEntryView)>,
) -> Seq<(Seq<char>, AppliedFanEntryView)>
    decreases enrollable.len(),
{
    if enrollable.len() == 0 {
        Seq::empty()
    } else {
        let acc = promoted_entries(enrollable.drop_last(), draft);
        let k = enrollable.last();
        match lookup(draft, k) {
            Some(e) => if e.control_mode is Some && e.target_temp_millidegrees is Some {
                insert_entry(acc, k, applied_from_draft(e))
            } else {
                acc
            },
            None => acc,
        }
    }
}

/// `acc` extended with the previously applied fans that neither `acc` nor
/// the draft mentions.
pub open spec fn preserved_entries(
    acc: Seq<(Seq<char>, AppliedFanEntryView)>,
    previous: Seq<(Seq<char>, AppliedFanEntryView)>,
    draft: Seq<(Seq<char>, DraftFanEntryView)>,
) -> Seq<(Seq<char>, AppliedFanEntryView)>
    decreases previous.len(),
{
    if previous.len() == 0 {
        acc
    } else {
        let a = preserved_entries(acc, previous.drop_last(), draft);
        let k = previous.last().0;
        if !has_key(a, k) && !has_key(draft, k) {
            insert_entry(a, k, previous.last().1)
        } else {
            a
        }
    }
}

/// The applied configuration that promoting the draft produces.
pub open spec fn promoted_config(
    draft: Seq<(Seq<char>, DraftFanEntryView)>,
    devices: Seq<HwmonDeviceView>,
    applied_at: Seq<char>,
    previous: Option<AppliedConfigView>,
) -> AppliedConfigView {
    let promoted = promoted_entries(validation_outcome(draft, devices).0, draft);
    AppliedConfigView {
        fans: match previous {
            Some(p) => preserved_entries(promoted, p.fans, draft),
            None => promoted,
        },
        applied_at: Some(applied_at),
    }
}

/// Validates the draft and builds the new applied configuration from the
/// enrollable entries, keeping previously applied fans that the draft does
/// not mention at all. Returns it with the validation result.
pub fn apply_draft(
    draft: &DraftConfig,
    snapshot: &InventorySnapshot,
    applied_at: String,
    previous_applied: Option<&AppliedConfig>,
) -> (r: (AppliedConfig, ValidationResult))
    ensures
        r.1@ == validation_outcome(draft@, snapshot@),
        r.0@ == promoted_config(draft@, snapshot@, applied_at@, previous_applied.deep_view()),
{
    let result = validate_draft(draft, snapshot);
    let ghost en = result@.0;
    let mut fans: StrMap<AppliedFanEntry> = StrMap::new();
    let mut i: usize = 0;
    while i < result.enrollable.len()
        invariant
            en == result@.0,
            i <= en.len(),
            fans@ == promoted_entries(en.take(i as int), draft@),
        decreases result.enrollable.len() - i,
    {
        assert(en.take(i + 1).drop_last() =~= en.take(i as int));
        assert(en.take(i + 1).last() == en[i as int]);
        let fan_id = &result.enrollable[i];
        match draft.fans.get(fan_id.as_str()) {
            Some(entry) => {
                match (entry.control_mode, entry.resolved_target_temp_millidegrees()) {
                    (Some(control_mode), Some(target)) => {
                        let applied_entry = AppliedFanEntry {
                            control_mode,
                            temp_sources: crate::text::copy_strings(&entry.temp_sources),
                            target_temp_millidegrees: target,
                            aggregation: entry.resolved_aggregation(),
                            pid_gains: entry.resolved_pid_gains(),
                            cadence: entry.resolved_cadence(),
                            deadband_millidegrees: entry.resolved_deadband_millidegrees(),
                            actuator_policy: entry.resolved_actuator_policy(),
                            pid_limits: entry.resolved_pid_limits(),
                        };
                        fans.insert(fan_id.clone(), applied_entry);
                    },
                    _ => {},
                }
            },
            None => {},
        }
        i = i + 1;
    }
    assert(en.take(i as int) =~= en);
    match previous_applied {
        Some(prev) => {
            let ghost promoted = fans@;
            let prev_entries = prev.fans.entries();
            let ghost pv = prev.fans@;
            let mut j: usize = 0;
            while j < prev_entries.len()
                invariant
                    pv == prev.fans@,
                    prev_entries.deep_view() == pv,
                    j <= pv.len(),
                    fans@ == preserved_entries(promoted, pv.take(j as int), draft@),
                decreases prev_entries.len() - j,
            {
                assert(pv.take(j + 1).drop_last() =~= pv.take(j as int));
                assert(pv.take(j + 1).last() == pv[j as int]);
                let fan_id = &prev_entries[j].0;
                if !fans.contains_key(fan_id.as_str()) && !draft.fans.contains_key(fan_id.as_str()) {
                    fans.insert(fan_id.clone(), prev_entries[j].1.copy());
                }
                j = j + 1;
            }
            assert(pv.take(j as int) =~= pv);
        },
        None => {},
    }
    (AppliedConfig { fans, applied_at: Some(applied_at) }, result)
}

proof fn lemma_push_contains<T>(s: Seq<T>, x: T, y: T)
    ensures
        s.push(x).contains(y) <==> (s.contains(y) || x == y),
{
    if s.contains(y) {
        let j = choose|j: int| 0 <= j < s.len() && s[j] == y;
        assert(s.push(x)[j] == y);
    }
    if x == y {
        assert(s.push(x)[s.len() as int] == y);
    }
    if s.push(x).contains(y) && x != y {
        let j = choose|j: int| 0 <= j < s.len() + 1 && s.push(x)[j] == y;
        assert(s[j] == y);
    }
}

proof fn lemma_outcome_membership(
    draft: Seq<(Seq<char>, DraftFanEntryView)>,
    devices: Seq<HwmonDeviceView>,
    k: Seq<char>,
)
    requires
        keys_distinct(draft),
    ensures
        validation_outcome(draft, devices).0.contains(k) <==> has_key(draft, k) && value_at_key(draft, k).managed
            && entry_error(k, value_at_key(draft, k), devices) is None,
        keys_of(validation_outcome(draft, devices).1).contains(k) <==> has_key(draft, k) && value_at_key(
            draft,
            k,
        ).managed && entry_error(k, value_at_key(draft, k), devices) is Some,
    decreases draft.len(),
{
    if draft.len() == 0 {
        assert(!has_key(draft, k));
        assert(keys_of(validation_outcome(draft, devices).1) =~= Seq::<Seq<char>>::empty());
    } else {
        let d = draft.drop_last();
        assert(keys_distinct(d));
        lemma_outcome_membership(d, devices, k);
        let prev = validation_outcome(d, devices);
        let out = validation_outcome(draft, devices);
        let k0 = draft.last().0;
        let e0 = draft.last().1;
        if k == k0 {
            assert(!has_key(d, k)) by {
                crate::strmap::lemma_index_of_key(d, k);
                if has_key(d, k) {
                    let j = crate::strmap::index_of_key(d, k);
                    assert(draft[j].0 == draft[draft.len() - 1].0);
                }
            }
            assert(has_key(draft, k) && value_at_key(draft, k) == e0);
        } else {
            assert(has_key(draft, k) == has_key(d, k));
            if has_key(d, k) {
                assert(value_at_key(draft, k) == value_at_key(d, k));
            }
        }
        if e0.managed {
            match entry_error(k0, e0, devices) {
                None => {
                    lemma_push_contains(prev.0, k0, k);
                },
                Some(err) => {
                    assert(keys_of(prev.1.push((k0, err))) =~= keys_of(prev.1).push(k0));
                    lemma_push_contains(keys_of(prev.1), k0, k);
                },
            }
        }
    }
}

/// Validation law: a draft fan is found enrollable exactly when its entry is
/// managed and passes every check, and rejected exactly when its entry is
/// managed and fails one; so every managed entry lands in exactly one of the
/// two lists, unmanaged entries in neither, and no other fan in either.
pub proof fn law_validation_partitions_managed_entries(
    draft: Seq<(Seq<char>, DraftFanEntryView)>,
    devices: Seq<HwmonDeviceView>,
    k: Seq<char>,
)
    requires
        keys_distinct(draft),
    ensures
        validation_outcome(draft, devices).0.contains(k) <==> has_key(draft, k) && value_at_key(draft, k).managed
            && entry_error(k, value_at_key(draft, k), devices) is None,
        keys_of(validation_outcome(draft, devices).1).contains(k) <==> has_key(draft, k) && value_at_key(
            draft,
            k,
        ).managed && entry_error(k, value_at_key(draft, k), devices) is Some,
        !(validation_outcome(draft, devices).0.contains(k) && keys_of(validation_outcome(draft, devices).1).contains(
            k,
        )),
{
    lemma_outcome_membership(draft, devices, k);
}

proof fn lemma_promoted_entries(
    enrollable: Seq<Seq<char>>,
    draft: Seq<(Seq<char>, DraftFanEntryView)>,
    k: Seq<char>,
)
    ensures
        keys_distinct(promoted_entries(enrollable, draft)),
        lookup(promoted_entries(enrollable, draft), k) == if enrollable.contains(k) && has_key(draft, k)
            && value_at_key(draft, k).control_mode is Some && value_at_key(draft, k).target_temp_millidegrees is Some {
            Some(applied_from_draft(value_at_key(draft, k)))
        } else {
            None::<AppliedFanEntryView>
        },
    decreases enrollable.len(),
{
    if enrollable.len() > 0 {
        let en = enrollable.drop_last();
        lemma_promoted_entries(en, draft, k);
        let acc = promoted_entries(en, draft);
        let k0 = enrollable.last();
        match lookup(draft, k0) {
            Some(e) => if e.control_mode is Some && e.target_temp_millidegrees is Some {
                law_insert_then_lookup(acc, k0, applied_from_draft(e));
            },
            None => {},
        }
        assert(enrollable =~= en.push(k0));
        assert(enrollable.contains(k) <==> en.contains(k) || k == k0) by {
            if en.contains(k) {
                let j = choose|j: int| 0 <= j < en.len() && en[j] == k;
                assert(enrollable[j] == k);
            }
            if enrollable.contains(k) && k != k0 {
                let j = choose|j: int| 0 <= j < enrollable.len() && enrollable[j] == k;
                assert(en[j] == k);
            }
            if k == k0 {
                assert(enrollable[enrollable.len() - 1] == k);
            }
        }
    }
}

proof fn lemma_preserved_entries(
    acc: Seq<(Seq<char>, AppliedFanEntryView)>,
    previous: Seq<(Seq<char>, AppliedFanEntryView)>,
    draft: Seq<(Seq<char>, DraftFanEntryView)>,
    k: Seq<char>,
)
    requires
        keys_distinct(acc),
        keys_distinct(previous),
    ensures
        keys_distinct(preserved_entries(acc, previous, draft)),
        lookup(preserved_entries(acc, previous, draft), k) == if has_key(acc, k) {
            lookup(acc, k)
        } else if !has_key(draft, k) {
            lookup(previous, k)
        } else {
            None
        },
    decreases previous.len(),
{
    if previous.len() > 0 {
        let p = previous.drop_last();
        assert(keys_distinct(p));
        let k0 = previous.last().0;
        lemma_preserved_entries(acc, p, draft, k);
        lemma_preserved_entries(acc, p, draft, k0);
        let a = preserved_entries(acc, p, draft);
        assert(!has_key(p, k0)) by {
            crate::strmap::lemma_index_of_key(p, k0);
            if has_key(p, k0) {
                let j = crate::strmap::index_of_key(p, k0);
                assert(previous[j].0 == previous[previous.len() - 1].0);
            }
        }
        if !has_key(a, k0) && !has_key(draft, k0) {
            law_insert_then_lookup(a, k0, previous.last().1);
        }
    }
}

/// Apply law: a fan is in the new applied configuration exactly when
/// validation found it enrollable, or it was applied before and the draft
/// does not mention it. An enrollable fan gets the entry resolved from its
/// draft entry; a kept fan keeps its previous entry. In particular a fan
/// that the draft marks unmanaged, or that validation rejects, is dropped.
pub proof fn law_apply_draft_membership(
    draft: Seq<(Seq<char>, DraftFanEntryView)>,
    devices: Seq<HwmonDeviceView>,
    applied_at: Seq<char>,
    previous: Option<AppliedConfigView>,
    k: Seq<char>,
)
    requires
        keys_distinct(draft),
        previous is Some ==> keys_distinct(previous->0.fans),
    ensures
        lookup(promoted_config(draft, devices, applied_at, previous).fans, k) == if validation_outcome(
            draft,
            devices,
        ).0.contains(k) {
            Some(applied_from_draft(value_at_key(draft, k)))
        } else if previous is Some && !has_key(draft, k) {
            lookup(previous->0.fans, k)
        } else {
            None
        },
{
    let en = validation_outcome(draft, devices).0;
    lemma_outcome_membership(draft, devices, k);
    lemma_promoted_entries(en, draft, k);
    let promoted = promoted_entries(en, draft);
    if en.contains(k) {
        let e = value_at_key(draft, k);
        let f = find_fan(devices, k)->0;
        assert(hardware_error(k, e, f) is None);
        assert(settings_error(k, e) is None);
    }
    match previous {
        Some(p) => {
            lemma_preserved_entries(promoted, p.fans, draft, k);
        },
        None => {},
    }
}

/// No configured sensor is missing exactly when every one of them is in the
/// inventory.
pub proof fn lemma_no_missing_temp(sources: Seq<Seq<char>>, devices: Seq<HwmonDeviceView>)
    ensures
        first_missing_temp(sources, devices) is None <==> forall|i: int|
            0 <= i < sources.len() ==> has_temp_source(devices, #[trigger] sources[i]),
        first_missing_temp(sources, devices) matches Some(t) ==> sources.contains(t) && !has_temp_source(
            devices,
            t,
        ),
    decreases sources.len(),
{
    if sources.len() > 0 {
        let d = sources.drop_last();
        lemma_no_missing_temp(d, devices);
        assert forall|i: int| 0 <= i < d.len() implies d[i] == sources[i] by {}
        if first_missing_temp(d, devices) is None && has_temp_source(devices, sources.last()) {
            assert forall|i: int| 0 <= i < sources.len() implies has_temp_source(devices, #[trigger] sources[i]) by {
                if i < d.len() {
                    assert(d[i] == sources[i]);
                }
            }
        }
        if let Some(t) = first_missing_temp(d, devices) {
            let j = choose|j: int| 0 <= j < d.len() && d[j] == t;
            assert(sources[j] == t);
        }
        assert(sources[sources.len() - 1] == sources.last());
    }
}

/// Cadence law: a cadence is accepted exactly when every interval is at
/// least 100 ms and sample <= control <= write; a refused cadence is
/// reported as an invalid cadence of that fan.
pub proof fn law_cadence_accepted_iff_ordered(fan_id: Seq<char>, c: ControlCadence)
    ensures
        cadence_error(fan_id, c) is None <==> (100 <= c.sample_interval_ms && 100 <= c.control_interval_ms && 100
            <= c.write_interval_ms && c.sample_interval_ms <= c.control_interval_ms && c.control_interval_ms
            <= c.write_interval_ms),
        cadence_error(fan_id, c) is Some ==> (cadence_error(fan_id, c) matches Some(
            ValidationErrorView::InvalidCadence { fan_id: f, .. },
        ) && f == fan_id),
{
}

/// Enrollment law: a fan that validation finds enrollable is a managed draft
/// fan that the inventory has, available and supporting its chosen control
/// mode; it has a target temperature within 1..=150000 m°C, at least one
/// sensor and every one of its sensors in the inventory, and a cadence whose
/// intervals are each at least 100 ms with sample <= control <= write. When
/// the draft is applied it is promoted with exactly that cadence.
pub proof fn law_enrollable_fans_pass_every_check(
    draft: Seq<(Seq<char>, DraftFanEntryView)>,
    devices: Seq<HwmonDeviceView>,
    applied_at: Seq<char>,
    previous: Option<AppliedConfigView>,
    k: Seq<char>,
)
    requires
        keys_distinct(draft),
        previous is Some ==> keys_distinct(previous->0.fans),
    ensures
        validation_outcome(draft, devices).0.contains(k) ==> {
            let e = value_at_key(draft, k);
            let c = e.resolved_cadence();
            &&& has_key(draft, k)
            &&& e.managed
            &&& find_fan(devices, k) is Some
            &&& find_fan(devices, k)->0.support_state == SupportState::Available
            &&& e.control_mode is Some
            &&& find_fan(devices, k)->0.control_modes.contains(e.control_mode->0)
            &&& e.target_temp_millidegrees is Some
            &&& 0 < e.target_temp_millidegrees->0 <= 150_000
            &&& e.temp_sources.len() > 0
            &&& forall|i: int| 0 <= i < e.temp_sources.len() ==> has_temp_source(devices, #[trigger] e.temp_sources[i])
            &&& 100 <= c.sample_interval_ms <= c.control_interval_ms <= c.write_interval_ms
            &&& lookup(promoted_config(draft, devices, applied_at, previous).fans, k) is Some
            &&& lookup(promoted_config(draft, devices, applied_at, previous).fans, k)->0.cadence == c
        },
{
    law_validation_partitions_managed_entries(draft, devices, k);
    law_apply_draft_membership(draft, devices, applied_at, previous, k);
    if validation_outcome(draft, devices).0.contains(k) {
        let e = value_at_key(draft, k);
        lemma_no_missing_temp(e.temp_sources, devices);
        law_cadence_accepted_iff_ordered(k, e.resolved_cadence());
    }
}

} // verus!
