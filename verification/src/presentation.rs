//! Short texts of the command-line client: status labels, wire names of
//! options and one-line descriptions of degraded reasons.

use vstd::prelude::*;

use crate::control::AggregationFn;
use crate::inventory::{control_mode_name, ControlMode, SupportState};
use crate::lifecycle::state::{DegradedReason, DegradedReasonView};
use crate::text::{decimal, join, join_strings, push_char, push_decimal, str_eq};

verus! {

/// The label of a fan status as the client prints it: problems in capitals.
pub open spec fn state_label_spec(status: Seq<char>) -> Seq<char> {
    if status == "managed"@ {
        "managed"@
    } else if status == "degraded"@ {
        "DEGRADED"@
    } else if status == "fallback"@ {
        "FALLBACK"@
    } else if status == "unmanaged"@ {
        "unmanaged"@
    } else {
        "unknown"@
    }
}

/// The label printed for a fan status.
pub fn state_label(status: &str) -> (r: &'static str)
    ensures
        r@ == state_label_spec(status@),
{
    proof {
        reveal_strlit("managed");
        reveal_strlit("DEGRADED");
        reveal_strlit("FALLBACK");
        reveal_strlit("unmanaged");
        reveal_strlit("unknown");
    }
    if str_eq(status, "managed") {
        "managed"
    } else if str_eq(status, "degraded") {
        "DEGRADED"
    } else if str_eq(status, "fallback") {
        "FALLBACK"
    } else if str_eq(status, "unmanaged") {
        "unmanaged"
    } else {
        "unknown"
    }
}

/// The aggregation choices of the client's command line.
#[derive(Clone, Copy, Debug, PartialEq, Eq, Structural)]
pub enum AggregationArg {
    Average,
    Max,
    Min,
    Median,
}

pub open spec fn aggregation_wire_name(a: AggregationArg) -> Seq<char> {
    match a {
        AggregationArg::Average => "average"@,
        AggregationArg::Max => "max"@,
        AggregationArg::Min => "min"@,
        AggregationArg::Median => "median"@,
    }
}

impl AggregationArg {
    /// The name the service expects for the choice.
    pub fn as_wire_value(self) -> (r: &'static str)
        ensures
            r@ == aggregation_wire_name(self),
    {
        proof {
            reveal_strlit("average");
            reveal_strlit("max");
            reveal_strlit("min");
            reveal_strlit("median");
        }
        match self {
            AggregationArg::Average => "average",
            AggregationArg::Max => "max",
            AggregationArg::Min => "min",
            AggregationArg::Median => "median",
        }
    }

    /// The aggregation the choice selects.
    pub fn to_aggregation(self) -> (r: AggregationFn)
        ensures
            r == match self {
                AggregationArg::Average => AggregationFn::Average,
                AggregationArg::Max => AggregationFn::Max,
                AggregationArg::Min => AggregationFn::Min,
                AggregationArg::Median => AggregationFn::Median,
            },
    {
        match self {
            AggregationArg::Average => AggregationFn::Average,
            AggregationArg::Max => AggregationFn::Max,
            AggregationArg::Min => AggregationFn::Min,
            AggregationArg::Median => AggregationFn::Median,
        }
    }
}

/// `s` with every `_` turned into `-`.
pub open spec fn dashed(s: Seq<char>) -> Seq<char> {
    s.map_values(|c: char| if c == '_' { '-' } else { c })
}

/// The auto-tune column of the status table: the reported auto-tune status
/// with dashes for underscores; without one, `running` while the fan is
/// auto-tuning and `idle` otherwise.
pub open spec fn auto_tune_label_spec(status: Option<Seq<char>>, auto_tuning: Option<bool>) -> Seq<char> {
    match status {
        Some(s) => dashed(s),
        None => if auto_tuning == Some(true) { "running"@ } else { "idle"@ },
    }
}

/// The auto-tune label of a fan.
pub fn auto_tune_state_label(status: Option<&str>, auto_tuning: Option<bool>) -> (r: String)
    ensures
        r@ == auto_tune_label_spec(status.deep_view(), auto_tuning),
{
    match status {
        Some(s) => {
            let chars = crate::inventory::chars_of(s);
            let mut out = String::new();
            let mut i: usize = 0;
            while i < chars.len()
                invariant
                    i <= chars@.len(),
                    chars@ == s@,
                    out@ == dashed(chars@.take(i as int)),
                decreases chars.len() - i,
            {
                let c = chars[i];
                push_char(&mut out, if c == '_' { '-' } else { c });
                assert(dashed(chars@.take(i + 1)) =~= dashed(chars@.take(i as int)).push(
                    if c == '_' { '-' } else { c },
                ));
                i = i + 1;
            }
            assert(chars@.take(i as int) =~= chars@);
            out
        },
        None => match auto_tuning {
            Some(true) => "running".to_owned(),
            _ => "idle".to_owned(),
        },
    }
}

/// The snake-case kind of a degraded reason, as the service reports it.
pub open spec fn reason_kind(r: DegradedReasonView) -> Seq<char> {
    match r {
        DegradedReasonView::BootRestored { .. } => "boot_restored"@,
        DegradedReasonView::BootReconciled { .. } => "boot_reconciled"@,
        DegradedReasonView::FanMissing { .. } => "fan_missing"@,
        DegradedReasonView::FanNoLongerEnrollable { .. } => "fan_no_longer_enrollable"@,
        DegradedReasonView::ControlModeUnavailable { .. } => "control_mode_unavailable"@,
        DegradedReasonView::TempSourceMissing { .. } => "temp_source_missing"@,
        DegradedReasonView::PartialBootRecovery { .. } => "partial_boot_recovery"@,
        DegradedReasonView::FallbackActive { .. } => "fallback_active"@,
        DegradedReasonView::StaleSensorData { .. } => "stale_sensor_data"@,
        DegradedReasonView::FanRecovered { .. } => "fan_recovered"@,
    }
}

pub open spec fn support_state_snake(s: SupportState) -> Seq<char> {
    match s {
        SupportState::Available => "available"@,
        SupportState::Partial => "partial"@,
        SupportState::Unavailable => "unavailable"@,
    }
}

pub open spec fn control_mode_snake(m: ControlMode) -> Seq<char> {
    match m {
        ControlMode::Pwm => "pwm"@,
        ControlMode::Voltage => "voltage"@,
    }
}

/// The client's one-line description of a degraded reason; kinds it has no
/// wording for are named as unknown.
pub open spec fn reason_summary_spec(r: DegradedReasonView) -> Seq<char> {
    match r {
        DegradedReasonView::FanMissing { fan_id } => "fan missing from hardware (was: "@ + fan_id + ")"@,
        DegradedReasonView::FanNoLongerEnrollable { fan_id, support_state, reason } =>
            "no longer enrollable — "@ + fan_id + " (state: "@ + support_state_snake(support_state) + ", reason: "@
                + reason + ")"@,
        DegradedReasonView::ControlModeUnavailable { fan_id, mode } =>
            fan_id + " — configured control mode '"@ + control_mode_snake(mode) + "' no longer supported"@,
        DegradedReasonView::TempSourceMissing { fan_id, temp_id } =>
            fan_id + " — temperature source '"@ + temp_id + "' missing"@,
        DegradedReasonView::PartialBootRecovery { failed_count, recovered_count } =>
            "partial boot recovery: "@ + decimal(recovered_count as nat) + " recovered, "@ + decimal(failed_count as nat)
                + " failed"@,
        DegradedReasonView::FallbackActive { affected_fans } => "fallback active for fans: "@ + join(affected_fans, ", "@),
        _ => "unknown degraded reason: "@ + reason_kind(r),
    }
}

pub(crate) fn support_state_word(s: SupportState) -> (r: &'static str)
    ensures
        r@ == support_state_snake(s),
{
    proof {
        reveal_strlit("available");
        reveal_strlit("partial");
        reveal_strlit("unavailable");
    }
    match s {
        SupportState::Available => "available",
        SupportState::Partial => "partial",
        SupportState::Unavailable => "unavailable",
    }
}

pub(crate) fn control_mode_word(m: ControlMode) -> (r: &'static str)
    ensures
        r@ == control_mode_snake(m),
{
    proof {
        reveal_strlit("pwm");
        reveal_strlit("voltage");
    }
    match m {
        ControlMode::Pwm => "pwm",
        ControlMode::Voltage => "voltage",
    }
}

/// The client's one-line description of a degraded reason.
pub fn degraded_reason_summary(reason: &DegradedReason) -> (r: String)
    ensures
        r@ == reason_summary_spec(reason@),
{
    match reason {
        DegradedReason::FanMissing { fan_id } =>
            "fan missing from hardware (was: ".to_owned().concat(fan_id.as_str()).concat(")"),
        DegradedReason::FanNoLongerEnrollable { fan_id, support_state, reason } =>
            "no longer enrollable — ".to_owned().concat(fan_id.as_str()).concat(" (state: ").concat(
                support_state_word(*support_state),
            ).concat(", reason: ").concat(reason.as_str()).concat(")"),
        DegradedReason::ControlModeUnavailable { fan_id, mode } =>
            fan_id.clone().concat(" — configured control mode '").concat(control_mode_word(*mode)).concat(
                "' no longer supported",
            ),
        DegradedReason::TempSourceMissing { fan_id, temp_id } =>
            fan_id.clone().concat(" — temperature source '").concat(temp_id.as_str()).concat("' missing"),
        DegradedReason::PartialBootRecovery { failed_count, recovered_count } => {
            let mut s = "partial boot recovery: ".to_owned();
            push_decimal(&mut s, *recovered_count as u64);
            s.append(" recovered, ");
            push_decimal(&mut s, *failed_count as u64);
            s.concat(" failed")
        },
        DegradedReason::FallbackActive { affected_fans } => {
            let list = join_strings(affected_fans, ", ");
            "fallback active for fans: ".to_owned().concat(list.as_str())
        },
        DegradedReason::BootRestored { .. } => "unknown degraded reason: ".to_owned().concat("boot_restored"),
        DegradedReason::BootReconciled { .. } => "unknown degraded reason: ".to_owned().concat("boot_reconciled"),
        DegradedReason::StaleSensorData { .. } => "unknown degraded reason: ".to_owned().concat("stale_sensor_data"),
        DegradedReason::FanRecovered { .. } => "unknown degraded reason: ".to_owned().concat("fan_recovered"),
    }
}

} // verus!
