//! Re-assessment of degraded fans against the current inventory.

use vstd::prelude::*;

use crate::config::{AppliedConfigView, AppliedFanEntry, AppliedFanEntryView};
use crate::inventory::{ControlMode, HwmonDeviceView, InventorySnapshot};
use crate::text::copy_strings;

use super::reconcile::{check_applied_entry, reconcile_spec, skip_reason};
use super::state::{DegradedReason, DegradedReasonView};

verus! {

/// Whether a degraded fan can be brought back under control.
#[derive(Debug)]
pub enum ReassessOutcome {
    Recoverable { fan_id: String, control_mode: ControlMode, temp_sources: Vec<String> },
    StillDegraded { fan_id: String, reason: DegradedReason },
}

pub enum ReassessOutcomeView {
    Recoverable { fan_id: Seq<char>, control_mode: ControlMode, temp_sources: Seq<Seq<char>> },
    StillDegraded { fan_id: Seq<char>, reason: DegradedReasonView },
}

impl View for ReassessOutcome {
    type V = ReassessOutcomeView;

    open spec fn view(&self) -> ReassessOutcomeView {
        match self {
            ReassessOutcome::Recoverable { fan_id, control_mode, temp_sources } =>
                ReassessOutcomeView::Recoverable {
                    fan_id: fan_id@,
                    control_mode: *control_mode,
                    temp_sources: temp_sources.deep_view(),
                },
            ReassessOutcome::StillDegraded { fan_id, reason } =>
                ReassessOutcomeView::StillDegraded { fan_id: fan_id@, reason: reason@ },
        }
    }
}

/// The re-assessment of fan `fan_id`: still degraded for the first failed
/// check (fan missing, not available, control mode gone, sensor missing),
/// recoverable otherwise.
pub open spec fn reassess_spec(
    fan_id: Seq<char>,
    e: AppliedFanEntryView,
    devices: Seq<HwmonDeviceView>,
) -> ReassessOutcomeView {
    match skip_reason(fan_id, e, devices) {
        Some((_, d)) => ReassessOutcomeView::StillDegraded { fan_id, reason: d },
        None => ReassessOutcomeView::Recoverable {
            fan_id,
            control_mode: e.control_mode,
            temp_sources: e.temp_sources,
        },
    }
}

/// Re-checks a degraded fan's applied entry against the snapshot with the
/// same checks as boot reconciliation.
pub fn reassess_single_fan(
    fan_id: &str,
    applied_entry: &AppliedFanEntry,
    snapshot: &InventorySnapshot,
) -> (r: ReassessOutcome)
    ensures
        r@ == reassess_spec(fan_id@, applied_entry@, snapshot@),
{
    match check_applied_entry(fan_id, applied_entry, snapshot) {
        Some((_, reason)) => ReassessOutcome::StillDegraded { fan_id: fan_id.to_owned(), reason },
        None => ReassessOutcome::Recoverable {
            fan_id: fan_id.to_owned(),
            control_mode: applied_entry.control_mode,
            temp_sources: copy_strings(&applied_entry.temp_sources),
        },
    }
}

/// Re-assessment law: a degraded fan is recoverable exactly when boot
/// reconciliation of an applied configuration holding just that fan would
/// restore it, and otherwise stays degraded for the reason reconciliation
/// would record.
pub proof fn law_reassess_agrees_with_reconcile(fan_id: Seq<char>, e: AppliedFanEntryView, devices: Seq<HwmonDeviceView>)
    ensures
        ({
            let r = reconcile_spec(AppliedConfigView { fans: seq![(fan_id, e)], applied_at: None }, devices);
            match reassess_spec(fan_id, e, devices) {
                ReassessOutcomeView::Recoverable { .. } => r.restored.len() == 1 && r.skipped.len() == 0,
                ReassessOutcomeView::StillDegraded { reason, .. } => r.restored.len() == 0 && r.degraded_reasons
                    == seq![(fan_id, reason)],
            }
        }),
{
    let fans = seq![(fan_id, e)];
    let empty = Seq::<(Seq<char>, AppliedFanEntryView)>::empty();
    assert(fans.drop_last() =~= empty);
    assert(fans.last() == (fan_id, e));
    let p = super::reconcile::reconcile_entries(empty, devices);
    assert(p.0.len() == 0 && p.1.len() == 0 && p.3.len() == 0);
    let r = super::reconcile::reconcile_entries(fans, devices);
    match skip_reason(fan_id, e, devices) {
        Some((o, d)) => {
            assert(r.3 =~= seq![(fan_id, d)]);
        },
        None => {},
    }
}

} // verus!
