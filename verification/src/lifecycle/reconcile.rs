//! Boot reconciliation of the persisted applied configuration against the
//! live hardware inventory.

use vstd::prelude::*;
use vstd::string::*;

use crate::config::{AppliedConfig, AppliedConfigView, AppliedFanEntry, AppliedFanEntryView};
use crate::inventory::{
    copy_modes, device_index_of_fan, find_fan, find_fan_by_id, locate_fan, modes_contain, temp_source_exists,
    ControlMode, FanChannel, HwmonDeviceView, InventorySnapshot, SupportState,
};
use crate::strmap::{
    group_strmap, has_key, insert_entry, keys_distinct, keys_of, law_insert_then_lookup, lookup, value_at_key, StrMap,
};
use crate::text::{copy_opt_string, copy_strings, decimal, push_decimal};
use crate::validation::{find_missing_temp, first_missing_temp, lemma_no_missing_temp};

use super::owned::OwnedFanSet;
use super::time::{format_iso8601_now, iso8601_text};
use super::state::{
    log_push, log_push_all, lemma_log_push_all_append, DegradedReason, DegradedReasonView, DegradedState, LifecycleEvent, LifecycleEventLog,
    LifecycleEventView,
};

verus! {

broadcast use group_strmap;

/// What reconciliation decided for one applied fan.
#[derive(Debug)]
pub enum ReconcileOutcome {
    Restored { fan_id: String, control_mode: ControlMode, temp_sources: Vec<String> },
    Missing { fan_id: String },
    NotEnrollable { fan_id: String, support_state: SupportState, reason: String },
    ControlModeUnavailable {
        fan_id: String,
        configured_mode: ControlMode,
        available_modes: Vec<ControlMode>,
    },
    TempSourceMissing { fan_id: String, missing_temp_id: String },
}

pub enum ReconcileOutcomeView {
    Restored { fan_id: Seq<char>, control_mode: ControlMode, temp_sources: Seq<Seq<char>> },
    Missing { fan_id: Seq<char> },
    NotEnrollable { fan_id: Seq<char>, support_state: SupportState, reason: Seq<char> },
    ControlModeUnavailable {
        fan_id: Seq<char>,
        configured_mode: ControlMode,
        available_modes: Seq<ControlMode>,
    },
    TempSourceMissing { fan_id: Seq<char>, missing_temp_id: Seq<char> },
}

impl View for ReconcileOutcome {
    type V = ReconcileOutcomeView;

    open spec fn view(&self) -> ReconcileOutcomeView {
        match self {
            ReconcileOutcome::Restored { fan_id, control_mode, temp_sources } =>
                ReconcileOutcomeView::Restored {
                    fan_id: fan_id@,
                    control_mode: *control_mode,
                    temp_sources: temp_sources.deep_view(),
                },
            ReconcileOutcome::Missing { fan_id } => ReconcileOutcomeView::Missing { fan_id: fan_id@ },
            ReconcileOutcome::NotEnrollable { fan_id, support_state, reason } =>
                ReconcileOutcomeView::NotEnrollable {
                    fan_id: fan_id@,
                    support_state: *support_state,
                    reason: reason@,
                },
            ReconcileOutcome::ControlModeUnavailable { fan_id, configured_mode, available_modes } =>
                ReconcileOutcomeView::ControlModeUnavailable {
                    fan_id: fan_id@,
                    configured_mode: *configured_mode,
                    available_modes: available_modes@,
                },
            ReconcileOutcome::TempSourceMissing { fan_id, missing_temp_id } =>
                ReconcileOutcomeView::TempSourceMissing {
                    fan_id: fan_id@,
                    missing_temp_id: missing_temp_id@,
                },
        }
    }
}

impl DeepView for ReconcileOutcome {
    type V = ReconcileOutcomeView;

    open spec fn deep_view(&self) -> ReconcileOutcomeView {
        self@
    }
}

impl ReconcileOutcomeView {
    pub open spec fn fan_id(self) -> Seq<char> {
        match self {
            ReconcileOutcomeView::Restored { fan_id, .. } => fan_id,
            ReconcileOutcomeView::Missing { fan_id } => fan_id,
            ReconcileOutcomeView::NotEnrollable { fan_id, .. } => fan_id,
            ReconcileOutcomeView::ControlModeUnavailable { fan_id, .. } => fan_id,
            ReconcileOutcomeView::TempSourceMissing { fan_id, .. } => fan_id,
        }
    }
}

/// The outcome of reconciling every applied fan.
#[derive(Debug)]
pub struct ReconcileResult {
    pub restored: Vec<ReconcileOutcome>,
    pub skipped: Vec<ReconcileOutcome>,
    pub reconciled_config: AppliedConfig,
    pub degraded_reasons: Vec<(String, DegradedReason)>,
}

pub struct ReconcileResultView {
    pub restored: Seq<ReconcileOutcomeView>,
    pub skipped: Seq<ReconcileOutcomeView>,
    pub reconciled_config: AppliedConfigView,
    pub degraded_reasons: Seq<(Seq<char>, DegradedReasonView)>,
}

impl View for ReconcileResult {
    type V = ReconcileResultView;

    open spec fn view(&self) -> ReconcileResultView {
        ReconcileResultView {
            restored: self.restored.deep_view(),
            skipped: self.skipped.deep_view(),
            reconciled_config: self.reconciled_config@,
            degraded_reasons: self.degraded_reasons.deep_view(),
        }
    }
}

/// Why an applied fan cannot be restored: the skipped outcome with the
/// degraded reason, or `None` when it can be restored.
pub open spec fn skip_reason(
    fan_id: Seq<char>,
    e: AppliedFanEntryView,
    devices: Seq<HwmonDeviceView>,
) -> Option<(ReconcileOutcomeView, DegradedReasonView)> {
    match find_fan(devices, fan_id) {
        None => Some((ReconcileOutcomeView::Missing { fan_id }, DegradedReasonView::FanMissing { fan_id })),
        Some(f) => if f.support_state != SupportState::Available {
            let reason = match f.support_reason {
                Some(r) => r,
                None => "unsupported hardware"@,
            };
            Some((
                ReconcileOutcomeView::NotEnrollable { fan_id, support_state: f.support_state, reason },
                DegradedReasonView::FanNoLongerEnrollable { fan_id, support_state: f.support_state, reason },
            ))
        } else if !f.control_modes.contains(e.control_mode) {
            Some((
                ReconcileOutcomeView::ControlModeUnavailable {
                    fan_id,
                    configured_mode: e.control_mode,
                    available_modes: f.control_modes,
                },
                DegradedReasonView::ControlModeUnavailable { fan_id, mode: e.control_mode },
            ))
        } else {
            match first_missing_temp(e.temp_sources, devices) {
                Some(t) => Some((
                    ReconcileOutcomeView::TempSourceMissing { fan_id, missing_temp_id: t },
                    DegradedReasonView::TempSourceMissing { fan_id, temp_id: t },
                )),
                None => None,
            }
        },
    }
}

/// Reconciliation of the applied entries, in order.
pub open spec fn reconcile_entries(
    fans: Seq<(Seq<char>, AppliedFanEntryView)>,
    devices: Seq<HwmonDeviceView>,
) -> (Seq<ReconcileOutcomeView>, Seq<ReconcileOutcomeView>, Seq<(Seq<char>, AppliedFanEntryView)>, Seq<(Seq<char>, DegradedReasonView)>)
    decreases fans.len(),
{
    if fans.len() == 0 {
        (Seq::empty(), Seq::empty(), Seq::empty(), Seq::empty())
    } else {
        let p = reconcile_entries(fans.drop_last(), devices);
        let k = fans.last().0;
        let e = fans.last().1;
        match skip_reason(k, e, devices) {
            Some((o, d)) => (p.0, p.1.push(o), p.2, p.3.push((k, d))),
            None => (
                p.0.push(ReconcileOutcomeView::Restored { fan_id: k, control_mode: e.control_mode, temp_sources: e.temp_sources }),
                p.1,
                insert_entry(p.2, k, e),
                p.3,
            ),
        }
    }
}

/// The result of reconciling an applied configuration.
pub open spec fn reconcile_spec(applied: AppliedConfigView, devices: Seq<HwmonDeviceView>) -> ReconcileResultView {
    let r = reconcile_entries(applied.fans, devices);
    ReconcileResultView {
        restored: r.0,
        skipped: r.1,
        reconciled_config: AppliedConfigView { fans: r.2, applied_at: applied.applied_at },
        degraded_reasons: r.3,
    }
}

/// The first fan with id `fan_id`.
pub fn find_fan_in_snapshot<'a>(snapshot: &'a InventorySnapshot, fan_id: &str) -> (r: Option<&'a FanChannel>)
    ensures
        match r {
            Some(f) => find_fan(snapshot@, fan_id@) == Some(f@),
            None => find_fan(snapshot@, fan_id@) is None,
        },
{
    find_fan_by_id(snapshot, fan_id)
}

/// Whether a temperature sensor with id `temp_id` exists.
pub fn temp_source_in_snapshot(snapshot: &InventorySnapshot, temp_id: &str) -> (r: bool)
    ensures
        r == crate::inventory::has_temp_source(snapshot@, temp_id@),
{
    temp_source_exists(snapshot, temp_id)
}

/// The PWM node of fan `id`: its device's sysfs path, `/pwm` and its channel,
/// or empty when no device has the fan.
pub open spec fn pwm_path(devices: Seq<HwmonDeviceView>, id: Seq<char>) -> Seq<char> {
    match find_fan(devices, id) {
        Some(f) => devices[device_index_of_fan(devices, id)].sysfs_path + "/pwm"@ + decimal(f.channel as nat),
        None => Seq::empty(),
    }
}

/// The PWM node path of fan `fan_id` in the snapshot.
pub fn pwm_node_path(snapshot: &InventorySnapshot, fan_id: &str) -> (r: String)
    ensures
        r@ == pwm_path(snapshot@, fan_id@),
{
    match locate_fan(snapshot, fan_id) {
        Some((d, j)) => {
            let device = &snapshot.devices[d];
            let mut path = device.sysfs_path.clone();
            path.append("/pwm");
            push_decimal(&mut path, device.fans[j].channel as u64);
            path
        },
        None => String::new(),
    }
}



/// Why applied fan `fan_id` cannot be restored, if it cannot.
pub(crate) fn check_applied_entry(fan_id: &str, entry: &AppliedFanEntry, snapshot: &InventorySnapshot) -> (r: Option<(ReconcileOutcome, DegradedReason)>)
    ensures
        match r {
            Some((o, d)) => skip_reason(fan_id@, entry@, snapshot@) == Some((o@, d@)),
            None => skip_reason(fan_id@, entry@, snapshot@) is None,
        },
        r is None <==> runnable_as_applied(fan_id@, entry@, snapshot@),
{
    proof {
        lemma_no_missing_temp(entry@.temp_sources, snapshot@);
    }
    let fan = match find_fan_in_snapshot(snapshot, fan_id) {
        None => {
            return Some((
                ReconcileOutcome::Missing { fan_id: fan_id.to_owned() },
                DegradedReason::FanMissing { fan_id: fan_id.to_owned() },
            ));
        },
        Some(f) => f,
    };
    if fan.support_state != SupportState::Available {
        let reason = match &fan.support_reason {
            Some(r) => r.clone(),
            None => "unsupported hardware".to_owned(),
        };
        return Some((
            ReconcileOutcome::NotEnrollable {
                fan_id: fan_id.to_owned(),
                support_state: fan.support_state,
                reason: reason.clone(),
            },
            DegradedReason::FanNoLongerEnrollable {
                fan_id: fan_id.to_owned(),
                support_state: fan.support_state,
                reason,
            },
        ));
    }
    if !modes_contain(&fan.control_modes, entry.control_mode) {
        return Some((
            ReconcileOutcome::ControlModeUnavailable {
                fan_id: fan_id.to_owned(),
                configured_mode: entry.control_mode,
                available_modes: copy_modes(&fan.control_modes),
            },
            DegradedReason::ControlModeUnavailable { fan_id: fan_id.to_owned(), mode: entry.control_mode },
        ));
    }
    match find_missing_temp(&entry.temp_sources, snapshot) {
        Some(t) => Some((
            ReconcileOutcome::TempSourceMissing { fan_id: fan_id.to_owned(), missing_temp_id: t.clone() },
            DegradedReason::TempSourceMissing { fan_id: fan_id.to_owned(), temp_id: t.clone() },
        )),
        None => None,
    }
}

/// Checks every applied fan against the snapshot: it must exist, be
/// available, still support its control mode and have all its sensors.
/// Fans that pass are restored into the reconciled configuration; the
/// others are skipped with a degraded reason.
pub fn reconcile_applied_config(applied: &AppliedConfig, snapshot: &InventorySnapshot) -> (r: ReconcileResult)
    ensures
        r@ == reconcile_spec(applied@, snapshot@),
{
    let entries = applied.fans.entries();
    let ghost fv = applied.fans@;
    let mut restored: Vec<ReconcileOutcome> = Vec::new();
    let mut skipped: Vec<ReconcileOutcome> = Vec::new();
    let mut fans: StrMap<AppliedFanEntry> = StrMap::new();
    let mut degraded_reasons: Vec<(String, DegradedReason)> = Vec::new();
    let mut i: usize = 0;
    while i < entries.len()
        invariant
            fv == applied.fans@,
            entries.deep_view() == fv,
            i <= fv.len(),
            (restored.deep_view(), skipped.deep_view(), fans@, degraded_reasons.deep_view())
                == reconcile_entries(fv.take(i as int), snapshot@),
        decreases entries.len() - i,
    {
        assert(fv.take(i + 1).drop_last() =~= fv.take(i as int));
        assert(fv.take(i + 1).last() == fv[i as int]);
        let ghost r0 = restored.deep_view();
        let ghost s0 = skipped.deep_view();
        let ghost d0 = degraded_reasons.deep_view();
        let fan_id = &entries[i].0;
        let entry = &entries[i].1;
        match check_applied_entry(fan_id.as_str(), entry, snapshot) {
            Some((outcome, reason)) => {
                let ghost ov = outcome@;
                let ghost rv = reason@;
                skipped.push(outcome);
                degraded_reasons.push((fan_id.clone(), reason));
                assert(skipped.deep_view() =~= s0.push(ov));
                assert(degraded_reasons.deep_view() =~= d0.push((fan_id@, rv)));
            },
            None => {
                let o = ReconcileOutcome::Restored {
                    fan_id: fan_id.clone(),
                    control_mode: entry.control_mode,
                    temp_sources: copy_strings(&entry.temp_sources),
                };
                let ghost ov = o@;
                restored.push(o);
                assert(restored.deep_view() =~= r0.push(ov));
                fans.insert(fan_id.clone(), entry.copy());
            },
        }
        i = i + 1;
    }
    assert(fv.take(i as int) =~= fv);
    ReconcileResult {
        restored,
        skipped,
        reconciled_config: AppliedConfig { fans, applied_at: copy_opt_string(&applied.applied_at) },
        degraded_reasons,
    }
}

/// Whether a skipped outcome concerns fan `fid`.
pub open spec fn outcome_is_for(o: ReconcileOutcomeView, fid: Seq<char>) -> bool {
    !(o is Restored) && o.fan_id() == fid
}

/// The first degraded reason recorded for the fan of skipped outcome `o`,
/// or a placeholder for an unknown fan.
pub open spec fn reason_for_outcome(
    reasons: Seq<(Seq<char>, DegradedReasonView)>,
    o: ReconcileOutcomeView,
) -> (Seq<char>, DegradedReasonView)
    decreases reasons.len(),
{
    if reasons.len() == 0 {
        ("unknown"@, DegradedReasonView::FanMissing { fan_id: "unknown"@ })
    } else if outcome_is_for(o, reasons[0].0) {
        reasons[0]
    } else {
        reason_for_outcome(reasons.drop_first(), o)
    }
}

/// Boot events for the restored fans.
pub open spec fn restored_events(restored: Seq<ReconcileOutcomeView>, ts: Seq<char>) -> Seq<LifecycleEventView>
    decreases restored.len(),
{
    if restored.len() == 0 {
        Seq::empty()
    } else {
        let prev = restored_events(restored.drop_last(), ts);
        match restored.last() {
            ReconcileOutcomeView::Restored { fan_id, .. } => prev.push(LifecycleEventView {
                timestamp: ts,
                reason: DegradedReasonView::BootRestored { fan_id },
                detail: Some("fan "@ + fan_id + " restored as managed on boot"@),
            }),
            _ => prev,
        }
    }
}

/// Boot events for the skipped fans.
pub open spec fn skipped_events(
    skipped: Seq<ReconcileOutcomeView>,
    reasons: Seq<(Seq<char>, DegradedReasonView)>,
    ts: Seq<char>,
) -> Seq<LifecycleEventView>
    decreases skipped.len(),
{
    if skipped.len() == 0 {
        Seq::empty()
    } else {
        let fr = reason_for_outcome(reasons, skipped.last());
        skipped_events(skipped.drop_last(), reasons, ts).push(LifecycleEventView {
            timestamp: ts,
            reason: fr.1,
            detail: Some("fan "@ + fr.0 + " skipped during boot reconciliation"@),
        })
    }
}

/// The closing summary event: partial recovery when something was skipped,
/// full recovery when everything was restored.
pub open spec fn summary_events(r: ReconcileResultView, ts: Seq<char>) -> Seq<LifecycleEventView> {
    if r.skipped.len() > 0 {
        seq![LifecycleEventView {
            timestamp: ts,
            reason: DegradedReasonView::PartialBootRecovery {
                failed_count: r.skipped.len() as u32,
                recovered_count: r.restored.len() as u32,
            },
            detail: Some("boot reconciliation completed with partial recovery"@),
        }]
    } else if r.restored.len() > 0 {
        seq![LifecycleEventView {
            timestamp: ts,
            reason: DegradedReasonView::BootReconciled { restored_count: r.restored.len() as u32 },
            detail: Some("all "@ + decimal(r.restored.len()) + " managed fans restored successfully on boot"@),
        }]
    } else {
        Seq::empty()
    }
}

/// All events that boot reconciliation appends, in order.
pub open spec fn boot_events(r: ReconcileResultView, ts: Seq<char>) -> Seq<LifecycleEventView> {
    restored_events(r.restored, ts) + skipped_events(r.skipped, r.degraded_reasons, ts) + summary_events(r, ts)
}

/// The owned set after claiming every restored fan at its PWM node.
pub open spec fn claimed_fans(
    restored: Seq<ReconcileOutcomeView>,
    devices: Seq<HwmonDeviceView>,
) -> Seq<(Seq<char>, (ControlMode, Seq<char>))>
    decreases restored.len(),
{
    if restored.len() == 0 {
        Seq::empty()
    } else {
        let prev = claimed_fans(restored.drop_last(), devices);
        match restored.last() {
            ReconcileOutcomeView::Restored { fan_id, control_mode, .. } =>
                insert_entry(prev, fan_id, (control_mode, pwm_path(devices, fan_id))),
            _ => prev,
        }
    }
}

/// The degraded state after marking every skipped fan with its reason.
pub open spec fn marked_degraded(
    reasons: Seq<(Seq<char>, DegradedReasonView)>,
) -> Seq<(Seq<char>, Seq<DegradedReasonView>)>
    decreases reasons.len(),
{
    if reasons.len() == 0 {
        Seq::empty()
    } else {
        insert_entry(marked_degraded(reasons.drop_last()), reasons.last().0, seq![reasons.last().1])
    }
}

/// The result of boot reconciliation with no usable applied configuration.
pub open spec fn empty_result(applied_at: Option<Seq<char>>) -> ReconcileResultView {
    ReconcileResultView {
        restored: Seq::empty(),
        skipped: Seq::empty(),
        reconciled_config: AppliedConfigView { fans: Seq::empty(), applied_at },
        degraded_reasons: Seq::empty(),
    }
}

fn empty_reconcile_result(applied_at: Option<String>) -> (r: ReconcileResult)
    ensures
        r@ == empty_result(applied_at.deep_view()),
{
    let r = ReconcileResult {
        restored: Vec::new(),
        skipped: Vec::new(),
        reconciled_config: AppliedConfig { fans: StrMap::new(), applied_at },
        degraded_reasons: Vec::new(),
    };
    assert(r.restored.deep_view() =~= Seq::<ReconcileOutcomeView>::empty());
    assert(r.skipped.deep_view() =~= Seq::<ReconcileOutcomeView>::empty());
    assert(r.degraded_reasons.deep_view() =~= Seq::<(Seq<char>, DegradedReasonView)>::empty());
    r
}

/// The degraded reason recorded for skipped outcome `o`.
fn find_reason_for_outcome(reasons: &Vec<(String, DegradedReason)>, o: &ReconcileOutcome) -> (r: (String, DegradedReason))
    ensures
        (r.0@, r.1@) == reason_for_outcome(reasons.deep_view(), o@),
{
    let ghost rv = reasons.deep_view();
    let mut i: usize = 0;
    assert(rv.skip(0) =~= rv);
    while i < reasons.len()
        invariant
            rv == reasons.deep_view(),
            i <= rv.len(),
            reason_for_outcome(rv, o@) == reason_for_outcome(rv.skip(i as int), o@),
        decreases reasons.len() - i,
    {
        let fid = reasons[i].0.as_str();
        let is_for = match o {
            ReconcileOutcome::Missing { fan_id } => crate::text::str_eq(fid, fan_id.as_str()),
            ReconcileOutcome::NotEnrollable { fan_id, .. } => crate::text::str_eq(fid, fan_id.as_str()),
            ReconcileOutcome::ControlModeUnavailable { fan_id, .. } => crate::text::str_eq(
                fid,
                fan_id.as_str(),
            ),
            ReconcileOutcome::TempSourceMissing { fan_id, .. } => crate::text::str_eq(fid, fan_id.as_str()),
            ReconcileOutcome::Restored { .. } => false,
        };
        assert(rv.skip(i as int)[0] == rv[i as int]);
        if is_for {
            return (reasons[i].0.clone(), reasons[i].1.copy());
        }
        assert(rv.skip(i as int).drop_first() =~= rv.skip(i + 1));
        i = i + 1;
    }
    ("unknown".to_owned(), DegradedReason::FanMissing { fan_id: "unknown".to_owned() })
}

fn event(timestamp: &String, reason: DegradedReason, detail: String) -> (r: LifecycleEvent)
    ensures
        r@ == (LifecycleEventView { timestamp: timestamp@, reason: reason@, detail: Some(detail@) }),
{
    LifecycleEvent { timestamp: timestamp.clone(), reason, detail: Some(detail) }
}

/// Boot reconciliation at the given timestamp: releases every owned fan and
/// clears the degraded state, reconciles the applied configuration (if any
/// and non-empty) against the snapshot, claims each restored fan at its PWM
/// node, marks each skipped fan degraded and appends the boot events.
pub fn perform_boot_reconciliation_at(
    applied_config: Option<&AppliedConfig>,
    snapshot: &InventorySnapshot,
    owned: &mut OwnedFanSet,
    degraded: &mut DegradedState,
    events: &mut LifecycleEventLog,
    timestamp: String,
) -> (r: ReconcileResult)
    ensures
        match applied_config {
            None => {
                &&& r@ == empty_result(None)
                &&& final(events)@ == old(events)@
            },
            Some(a) => if a@.fans.len() == 0 {
                &&& r@ == empty_result(a@.applied_at)
                &&& final(events)@ == old(events)@
            } else {
                &&& r@ == reconcile_spec(a@, snapshot@)
                &&& final(events)@ == log_push_all(old(events)@, boot_events(r@, timestamp@))
            },
        },
        final(owned)@ == claimed_fans(r@.restored, snapshot@),
        final(degraded)@ == marked_degraded(r@.degraded_reasons),
{
    owned.release_all();
    degraded.clear_all();
    let applied = match applied_config {
        None => {
            let r = empty_reconcile_result(None);
            assert(final(owned)@ =~= claimed_fans(r@.restored, snapshot@));
            assert(final(degraded)@ =~= marked_degraded(r@.degraded_reasons));
            return r;
        },
        Some(a) => a,
    };
    if applied.fans.is_empty() {
        let r = empty_reconcile_result(copy_opt_string(&applied.applied_at));
        assert(final(owned)@ =~= claimed_fans(r@.restored, snapshot@));
        assert(final(degraded)@ =~= marked_degraded(r@.degraded_reasons));
        return r;
    }
    let result = reconcile_applied_config(applied, snapshot);
    let ghost rv = result@;
    assert(owned@ =~= claimed_fans(rv.restored.take(0), snapshot@));
    let mut i: usize = 0;
    while i < result.restored.len()
        invariant
            rv == result@,
            i <= rv.restored.len(),
            owned@ == claimed_fans(rv.restored.take(i as int), snapshot@),
        decreases result.restored.len() - i,
    {
        assert(rv.restored.take(i + 1).drop_last() =~= rv.restored.take(i as int));
        assert(rv.restored.take(i + 1).last() == rv.restored[i as int]);
        match &result.restored[i] {
            ReconcileOutcome::Restored { fan_id, control_mode, .. } => {
                let path = pwm_node_path(snapshot, fan_id.as_str());
                owned.claim_fan(fan_id.as_str(), *control_mode, path.as_str());
            },
            _ => {},
        }
        i = i + 1;
    }
    assert(rv.restored.take(i as int) =~= rv.restored);
    assert(degraded@ =~= marked_degraded(rv.degraded_reasons.take(0)));
    let mut j: usize = 0;
    while j < result.degraded_reasons.len()
        invariant
            rv == result@,
            j <= rv.degraded_reasons.len(),
            degraded@ == marked_degraded(rv.degraded_reasons.take(j as int)),
        decreases result.degraded_reasons.len() - j,
    {
        assert(rv.degraded_reasons.take(j + 1).drop_last() =~= rv.degraded_reasons.take(j as int));
        assert(rv.degraded_reasons.take(j + 1).last() == rv.degraded_reasons[j as int]);
        let reason = result.degraded_reasons[j].1.copy();
        let ghost rsv = reason@;
        let mut reasons: Vec<DegradedReason> = Vec::new();
        reasons.push(reason);
        assert(reasons.deep_view() =~= seq![rsv]);
        degraded.mark_degraded(result.degraded_reasons[j].0.clone(), reasons);
        j = j + 1;
    }
    assert(rv.degraded_reasons.take(j as int) =~= rv.degraded_reasons);
    let ghost start = events@;
    let ghost restored_ev = restored_events(rv.restored, timestamp@);
    assert(events@ == log_push_all(start, restored_events(rv.restored.take(0), timestamp@)));
    let mut k: usize = 0;
    while k < result.restored.len()
        invariant
            rv == result@,
            k <= rv.restored.len(),
            events@ == log_push_all(start, restored_events(rv.restored.take(k as int), timestamp@)),
        decreases result.restored.len() - k,
    {
        assert(rv.restored.take(k + 1).drop_last() =~= rv.restored.take(k as int));
        assert(rv.restored.take(k + 1).last() == rv.restored[k as int]);
        match &result.restored[k] {
            ReconcileOutcome::Restored { fan_id, .. } => {
                let detail = "fan ".to_owned().concat(fan_id.as_str()).concat(" restored as managed on boot");
                let e = event(&timestamp, DegradedReason::BootRestored { fan_id: fan_id.clone() }, detail);
                let ghost ev = e@;
                events.push(e);
                let ghost prev_ev = restored_events(rv.restored.take(k as int), timestamp@);
                assert(restored_events(rv.restored.take(k + 1), timestamp@) =~= prev_ev.push(ev));
                assert(prev_ev.push(ev).drop_last() =~= prev_ev);
            },
            _ => {},
        }
        k = k + 1;
    }
    assert(rv.restored.take(k as int) =~= rv.restored);
    let ghost after_restored = events@;
    assert(events@ == log_push_all(after_restored, skipped_events(rv.skipped.take(0), rv.degraded_reasons, timestamp@)));
    let mut m: usize = 0;
    while m < result.skipped.len()
        invariant
            rv == result@,
            m <= rv.skipped.len(),
            events@ == log_push_all(after_restored, skipped_events(rv.skipped.take(m as int), rv.degraded_reasons, timestamp@)),
        decreases result.skipped.len() - m,
    {
        assert(rv.skipped.take(m + 1).drop_last() =~= rv.skipped.take(m as int));
        assert(rv.skipped.take(m + 1).last() == rv.skipped[m as int]);
        let (fid, reason) = find_reason_for_outcome(&result.degraded_reasons, &result.skipped[m]);
        let detail = "fan ".to_owned().concat(fid.as_str()).concat(" skipped during boot reconciliation");
        let e = event(&timestamp, reason, detail);
        let ghost ev = e@;
        events.push(e);
        let ghost prev_ev = skipped_events(rv.skipped.take(m as int), rv.degraded_reasons, timestamp@);
        assert(skipped_events(rv.skipped.take(m + 1), rv.degraded_reasons, timestamp@) =~= prev_ev.push(ev));
        assert(prev_ev.push(ev).drop_last() =~= prev_ev);
        m = m + 1;
    }
    assert(rv.skipped.take(m as int) =~= rv.skipped);
    let ghost after_skipped = events@;
    let n_restored = result.restored.len();
    let n_skipped = result.skipped.len();
    if n_skipped > 0 {
        let e = event(
            &timestamp,
            DegradedReason::PartialBootRecovery {
                failed_count: #[verifier::truncate] (n_skipped as u32),
                recovered_count: #[verifier::truncate] (n_restored as u32),
            },
            "boot reconciliation completed with partial recovery".to_owned(),
        );
        events.push(e);
    } else if n_restored > 0 {
        let mut detail = "all ".to_owned();
        push_decimal(&mut detail, n_restored as u64);
        detail.append(" managed fans restored successfully on boot");
        let e = event(&timestamp, DegradedReason::BootReconciled { restored_count: #[verifier::truncate] (n_restored as u32) }, detail);
        events.push(e);
    }
    proof {
        lemma_log_push_all_append(start, restored_ev, skipped_events(rv.skipped, rv.degraded_reasons, timestamp@));
        lemma_log_push_all_append(
            start,
            restored_ev + skipped_events(rv.skipped, rv.degraded_reasons, timestamp@),
            summary_events(rv, timestamp@),
        );
        assert(summary_events(rv, timestamp@).len() <= 1);
        if summary_events(rv, timestamp@).len() == 1 {
            assert(log_push_all(after_skipped, summary_events(rv, timestamp@)) == log_push(
                log_push_all(after_skipped, summary_events(rv, timestamp@).drop_last()),
                summary_events(rv, timestamp@)[0],
            ));
            assert(summary_events(rv, timestamp@).drop_last() =~= Seq::<LifecycleEventView>::empty());
        } else {
            assert(summary_events(rv, timestamp@) =~= Seq::<LifecycleEventView>::empty());
        }
    }
    result
}

/// Boot reconciliation stamped with the current time; see
/// `perform_boot_reconciliation_at`. The events carry one timestamp of the
/// system clock.
pub fn perform_boot_reconciliation(
    applied_config: Option<&AppliedConfig>,
    snapshot: &InventorySnapshot,
    owned: &mut OwnedFanSet,
    degraded: &mut DegradedState,
    events: &mut LifecycleEventLog,
) -> (r: ReconcileResult)
    ensures
        match applied_config {
            None => {
                &&& r@ == empty_result(None)
                &&& final(events)@ == old(events)@
            },
            Some(a) => if a@.fans.len() == 0 {
                &&& r@ == empty_result(a@.applied_at)
                &&& final(events)@ == old(events)@
            } else {
                &&& r@ == reconcile_spec(a@, snapshot@)
                &&& exists|secs: nat| final(events)@ == log_push_all(old(events)@, boot_events(r@, iso8601_text(secs)))
            },
        },
        final(owned)@ == claimed_fans(r@.restored, snapshot@),
        final(degraded)@ == marked_degraded(r@.degraded_reasons),
{
    let timestamp = format_iso8601_now();
    let ghost ts = timestamp@;
    let r = perform_boot_reconciliation_at(applied_config, snapshot, owned, degraded, events, timestamp);
    r
}

/// The fan ids of a sequence of outcomes, in order.
pub open spec fn outcome_ids(s: Seq<ReconcileOutcomeView>) -> Seq<Seq<char>> {
    s.map_values(|o: ReconcileOutcomeView| o.fan_id())
}

proof fn lemma_push_contains<T>(s: Seq<T>, x: T, y: T)
    ensures
        s.push(x).contains(y) <==> (s.contains(y) || x == y),
{
    if s.contains(y) {
        let j = choose|j: int| 0 <= j < s.len() && s[j] == y;
        assert(s.push(x)[j] == y);
    }
    if x == y {
        assert(s.push(x)[s.len() as int] == y);
    }
    if s.push(x).contains(y) && x != y {
        let j = choose|j: int| 0 <= j < s.len() + 1 && s.push(x)[j] == y;
        assert(s[j] == y);
    }
}

proof fn lemma_reconcile_entries(
    fans: Seq<(Seq<char>, AppliedFanEntryView)>,
    devices: Seq<HwmonDeviceView>,
    k: Seq<char>,
)
    requires
        keys_distinct(fans),
    ensures
        ({
            let r = reconcile_entries(fans, devices);
            let kept = has_key(fans, k) && skip_reason(k, value_at_key(fans, k), devices) is None;
            let dropped = has_key(fans, k) && skip_reason(k, value_at_key(fans, k), devices) is Some;
            &&& keys_distinct(r.2)
            &&& lookup(r.2, k) == if kept { Some(value_at_key(fans, k)) } else { None }
            &&& (outcome_ids(r.0).contains(k) <==> kept)
            &&& (outcome_ids(r.1).contains(k) <==> dropped)
            &&& (keys_of(r.3).contains(k) <==> dropped)
            &&& forall|i: int| 0 <= i < r.0.len() ==> (#[trigger] r.0[i]) is Restored
        }),
    decreases fans.len(),
{
    if fans.len() == 0 {
        let r = reconcile_entries(fans, devices);
        assert(outcome_ids(r.0) =~= Seq::<Seq<char>>::empty());
        assert(outcome_ids(r.1) =~= Seq::<Seq<char>>::empty());
        assert(keys_of(r.3) =~= Seq::<Seq<char>>::empty());
    } else {
        let f = fans.drop_last();
        assert(keys_distinct(f));
        lemma_reconcile_entries(f, devices, k);
        let p = reconcile_entries(f, devices);
        let k0 = fans.last().0;
        let e0 = fans.last().1;
        if k == k0 {
            assert(!has_key(f, k)) by {
                crate::strmap::lemma_index_of_key(f, k);
                if has_key(f, k) {
                    let j = crate::strmap::index_of_key(f, k);
                    assert(fans[j].0 == fans[fans.len() - 1].0);
                }
            }
            assert(has_key(fans, k) && value_at_key(fans, k) == e0);
        } else {
            assert(has_key(fans, k) == has_key(f, k));
            if has_key(f, k) {
                assert(value_at_key(fans, k) == value_at_key(f, k));
            }
        }
        match skip_reason(k0, e0, devices) {
            Some((o, d)) => {
                assert(o.fan_id() == k0);
                assert(outcome_ids(p.1.push(o)) =~= outcome_ids(p.1).push(k0));
                lemma_push_contains(outcome_ids(p.1), k0, k);
                assert(keys_of(p.3.push((k0, d))) =~= keys_of(p.3).push(k0));
                lemma_push_contains(keys_of(p.3), k0, k);
            },
            None => {
                let o = ReconcileOutcomeView::Restored {
                    fan_id: k0,
                    control_mode: e0.control_mode,
                    temp_sources: e0.temp_sources,
                };
                assert(outcome_ids(p.0.push(o)) =~= outcome_ids(p.0).push(k0));
                lemma_push_contains(outcome_ids(p.0), k0, k);
                law_insert_then_lookup(p.2, k0, e0);
                let r = reconcile_entries(fans, devices);
                assert forall|i: int| 0 <= i < r.0.len() implies (#[trigger] r.0[i]) is Restored by {
                    if i < p.0.len() {
                        assert(r.0[i] == p.0[i]);
                    }
                }
            },
        }
    }
}

/// Reconciliation law: each applied fan is either restored, when it passes
/// every check against the inventory, or skipped with a degraded reason,
/// when one fails; the reconciled configuration holds exactly the restored
/// fans with their applied entries unchanged, and no other fan appears.
pub proof fn law_reconcile_partitions_applied_fans(
    applied: AppliedConfigView,
    devices: Seq<HwmonDeviceView>,
    k: Seq<char>,
)
    requires
        keys_distinct(applied.fans),
    ensures
        ({
            let r = reconcile_spec(applied, devices);
            let passes = has_key(applied.fans, k) && skip_reason(k, value_at_key(applied.fans, k), devices) is None;
            let fails = has_key(applied.fans, k) && skip_reason(k, value_at_key(applied.fans, k), devices) is Some;
            &&& (outcome_ids(r.restored).contains(k) <==> passes)
            &&& (outcome_ids(r.skipped).contains(k) <==> fails)
            &&& (keys_of(r.degraded_reasons).contains(k) <==> fails)
            &&& lookup(r.reconciled_config.fans, k) == if passes { Some(value_at_key(applied.fans, k)) } else { None }
        }),
{
    lemma_reconcile_entries(applied.fans, devices, k);
}

proof fn lemma_claimed_fans(restored: Seq<ReconcileOutcomeView>, devices: Seq<HwmonDeviceView>, k: Seq<char>)
    requires
        forall|i: int| 0 <= i < restored.len() ==> (#[trigger] restored[i]) is Restored,
    ensures
        keys_distinct(claimed_fans(restored, devices)),
        has_key(claimed_fans(restored, devices), k) <==> outcome_ids(restored).contains(k),
    decreases restored.len(),
{
    if restored.len() == 0 {
        assert(outcome_ids(restored) =~= Seq::<Seq<char>>::empty());
    } else {
        let r = restored.drop_last();
        assert forall|i: int| 0 <= i < r.len() implies (#[trigger] r[i]) is Restored by {
            assert(r[i] == restored[i]);
        }
        lemma_claimed_fans(r, devices, k);
        let last = restored.last();
        assert(last is Restored);
        let prev = claimed_fans(r, devices);
        match last {
            ReconcileOutcomeView::Restored { fan_id, control_mode, .. } => {
                assert(claimed_fans(restored, devices) == insert_entry(
                    prev,
                    fan_id,
                    (control_mode, pwm_path(devices, fan_id)),
                ));
                law_insert_then_lookup(prev, fan_id, (control_mode, pwm_path(devices, fan_id)));
                assert(has_key(claimed_fans(restored, devices), k) == (lookup(claimed_fans(restored, devices), k) is Some));
                assert(has_key(prev, k) == (lookup(prev, k) is Some));
            },
            _ => {},
        }
        assert(outcome_ids(restored) =~= outcome_ids(r).push(last.fan_id()));
        lemma_push_contains(outcome_ids(r), last.fan_id(), k);
    }
}

proof fn lemma_marked_degraded(reasons: Seq<(Seq<char>, DegradedReasonView)>, k: Seq<char>)
    ensures
        keys_distinct(marked_degraded(reasons)),
        has_key(marked_degraded(reasons), k) <==> keys_of(reasons).contains(k),
    decreases reasons.len(),
{
    if reasons.len() == 0 {
        assert(keys_of(reasons) =~= Seq::<Seq<char>>::empty());
    } else {
        lemma_marked_degraded(reasons.drop_last(), k);
        law_insert_then_lookup(marked_degraded(reasons.drop_last()), reasons.last().0, seq![reasons.last().1]);
        assert(has_key(marked_degraded(reasons), k) == lookup(marked_degraded(reasons), k) is Some);
        assert(has_key(marked_degraded(reasons.drop_last()), k) == lookup(marked_degraded(reasons.drop_last()), k) is Some);
        assert(keys_of(reasons) =~= keys_of(reasons.drop_last()).push(reasons.last().0));
        lemma_push_contains(keys_of(reasons.drop_last()), reasons.last().0, k);
    }
}

/// Boot law: after boot reconciliation of a non-empty applied configuration
/// the daemon owns exactly the applied fans that pass every check, and
/// exactly the applied fans that fail one are degraded.
pub proof fn law_boot_owns_exactly_restored_fans(
    applied: AppliedConfigView,
    devices: Seq<HwmonDeviceView>,
    k: Seq<char>,
)
    requires
        keys_distinct(applied.fans),
    ensures
        ({
            let r = reconcile_spec(applied, devices);
            let passes = has_key(applied.fans, k) && skip_reason(k, value_at_key(applied.fans, k), devices) is None;
            let fails = has_key(applied.fans, k) && skip_reason(k, value_at_key(applied.fans, k), devices) is Some;
            &&& (has_key(claimed_fans(r.restored, devices), k) <==> passes)
            &&& (has_key(marked_degraded(r.degraded_reasons), k) <==> fails)
        }),
{
    lemma_reconcile_entries(applied.fans, devices, k);
    let r = reconcile_spec(applied, devices);
    lemma_claimed_fans(r.restored, devices, k);
    lemma_marked_degraded(r.degraded_reasons, k);
}

/// Skipped outcomes and degraded reasons line up one to one, in order: the
/// `i`-th reason is for the fan of the `i`-th skipped outcome, both are what
/// `skip_reason` gives for that applied fan, and no fan is listed twice.
proof fn lemma_skips_aligned(fans: Seq<(Seq<char>, AppliedFanEntryView)>, devices: Seq<HwmonDeviceView>)
    requires
        keys_distinct(fans),
    ensures
        ({
            let r = reconcile_entries(fans, devices);
            &&& r.1.len() == r.3.len()
            &&& keys_distinct(r.3)
            &&& forall|i: int|
                0 <= i < r.3.len() ==> {
                    &&& has_key(fans, (#[trigger] r.3[i]).0)
                    &&& r.1[i].fan_id() == r.3[i].0
                    &&& !(r.1[i] is Restored)
                    &&& skip_reason(r.3[i].0, value_at_key(fans, r.3[i].0), devices) == Some((r.1[i], r.3[i].1))
                }
        }),
    decreases fans.len(),
{
    if fans.len() > 0 {
        let f = fans.drop_last();
        assert(keys_distinct(f));
        lemma_skips_aligned(f, devices);
        let p = reconcile_entries(f, devices);
        let r = reconcile_entries(fans, devices);
        let k0 = fans.last().0;
        let e0 = fans.last().1;
        assert(has_key(fans, k0) && value_at_key(fans, k0) == e0) by {
            crate::strmap::lemma_index_of_key(fans, k0);
            assert(fans[fans.len() - 1].0 == k0);
        }
        assert forall|i: int| 0 <= i < p.3.len() implies has_key(fans, (#[trigger] p.3[i]).0) && p.3[i].0 != k0
            && value_at_key(fans, p.3[i].0) == value_at_key(f, p.3[i].0) by {
            let k = p.3[i].0;
            crate::strmap::lemma_index_of_key(f, k);
            crate::strmap::lemma_index_of_key(fans, k);
            let j = crate::strmap::index_of_key(f, k);
            assert(fans[j] == f[j]);
            if k == k0 {
                assert(fans[j].0 == fans[fans.len() - 1].0);
            }
        }
        match skip_reason(k0, e0, devices) {
            Some((o, d)) => {
                assert(o.fan_id() == k0);
                assert(!(o is Restored));
                assert forall|i: int| 0 <= i < r.3.len() implies {
                    &&& has_key(fans, (#[trigger] r.3[i]).0)
                    &&& r.1[i].fan_id() == r.3[i].0
                    &&& !(r.1[i] is Restored)
                    &&& skip_reason(r.3[i].0, value_at_key(fans, r.3[i].0), devices) == Some((r.1[i], r.3[i].1))
                } by {
                    if i < p.3.len() {
                        assert(r.3[i] == p.3[i]);
                        assert(r.1[i] == p.1[i]);
                    }
                }
                assert(keys_distinct(r.3)) by {
                    assert forall|a: int, b: int| 0 <= a < r.3.len() && 0 <= b < r.3.len() && a != b implies r.3[a].0
                        != r.3[b].0 by {
                        if a < p.3.len() && b < p.3.len() {
                            assert(r.3[a] == p.3[a] && r.3[b] == p.3[b]);
                        } else if a < p.3.len() {
                            assert(r.3[a] == p.3[a]);
                        } else if b < p.3.len() {
                            assert(r.3[b] == p.3[b]);
                        }
                    }
                }
            },
            None => {},
        }
    }
}

/// The degraded reason of a fan that fails a check.
pub open spec fn skip_degraded(k: Seq<char>, e: AppliedFanEntryView, devices: Seq<HwmonDeviceView>) -> Option<
    DegradedReasonView,
> {
    match skip_reason(k, e, devices) {
        Some((_, d)) => Some(d),
        None => None,
    }
}

/// What boot reconciliation records for one fan: in the owned set its
/// applied mode and PWM node when it passes, and in the degraded state its
/// one reason when it fails.
proof fn lemma_boot_lookups(fans: Seq<(Seq<char>, AppliedFanEntryView)>, devices: Seq<HwmonDeviceView>, k: Seq<char>)
    requires
        keys_distinct(fans),
    ensures
        ({
            let r = reconcile_entries(fans, devices);
            let passes = has_key(fans, k) && skip_reason(k, value_at_key(fans, k), devices) is None;
            let fails = has_key(fans, k) && skip_reason(k, value_at_key(fans, k), devices) is Some;
            &&& keys_distinct(claimed_fans(r.0, devices))
            &&& keys_distinct(marked_degraded(r.3))
            &&& lookup(claimed_fans(r.0, devices), k) == if passes {
                Some((value_at_key(fans, k).control_mode, pwm_path(devices, k)))
            } else {
                None
            }
            &&& lookup(marked_degraded(r.3), k) == if fails {
                Some(seq![skip_degraded(k, value_at_key(fans, k), devices).unwrap()])
            } else {
                None
            }
        }),
    decreases fans.len(),
{
    let r = reconcile_entries(fans, devices);
    if fans.len() == 0 {
        assert(!has_key(fans, k));
    } else {
        let f = fans.drop_last();
        assert(keys_distinct(f));
        let p = reconcile_entries(f, devices);
        let k0 = fans.last().0;
        let e0 = fans.last().1;
        assert forall|k2: Seq<char>| #![trigger has_key(fans, k2)]
            k2 != k0 ==> has_key(fans, k2) == has_key(f, k2) && (has_key(f, k2) ==> value_at_key(fans, k2)
                == value_at_key(f, k2)) by {
            if k2 != k0 {
                crate::strmap::lemma_index_of_key(f, k2);
                crate::strmap::lemma_index_of_key(fans, k2);
                if has_key(f, k2) {
                    let j = crate::strmap::index_of_key(f, k2);
                    assert(fans[j] == f[j]);
                }
            }
        }
        assert(has_key(fans, k0) && value_at_key(fans, k0) == e0) by {
            crate::strmap::lemma_index_of_key(fans, k0);
            assert(fans[fans.len() - 1].0 == k0);
        }
        lemma_boot_lookups(f, devices, k);
        lemma_boot_lookups(f, devices, k0);
        match skip_reason(k0, e0, devices) {
            Some((o, d)) => {
                assert(r.0 == p.0);
                assert(r.3 == p.3.push((k0, d)));
                assert(r.3.drop_last() =~= p.3);
                law_insert_then_lookup(marked_degraded(p.3), k0, seq![d]);
                assert(has_key(fans, k) == has_key(f, k) || k == k0);
            },
            None => {
                let o = ReconcileOutcomeView::Restored {
                    fan_id: k0,
                    control_mode: e0.control_mode,
                    temp_sources: e0.temp_sources,
                };
                assert(r.0 == p.0.push(o));
                assert(r.0.drop_last() =~= p.0);
                assert(r.3 == p.3);
                law_insert_then_lookup(claimed_fans(p.0, devices), k0, (e0.control_mode, pwm_path(devices, k0)));
            },
        }
    }
}

/// The first reason recorded for the fan of a skipped outcome is the one at
/// the first position whose fan it is.
proof fn lemma_reason_for_outcome(reasons: Seq<(Seq<char>, DegradedReasonView)>, o: ReconcileOutcomeView, i: int)
    requires
        0 <= i < reasons.len(),
        outcome_is_for(o, reasons[i].0),
        forall|j: int| 0 <= j < i ==> !outcome_is_for(o, #[trigger] reasons[j].0),
    ensures
        reason_for_outcome(reasons, o) == reasons[i],
    decreases i,
{
    if i > 0 {
        assert(!outcome_is_for(o, reasons[0].0));
        let rest = reasons.drop_first();
        assert forall|j: int| 0 <= j < i - 1 implies !outcome_is_for(o, #[trigger] rest[j].0) by {
            assert(rest[j] == reasons[j + 1]);
        }
        lemma_reason_for_outcome(rest, o, i - 1);
    }
}

/// The event logged for a fan restored on boot.
pub open spec fn restored_event(o: ReconcileOutcomeView, ts: Seq<char>) -> LifecycleEventView {
    LifecycleEventView {
        timestamp: ts,
        reason: DegradedReasonView::BootRestored { fan_id: o.fan_id() },
        detail: Some("fan "@ + o.fan_id() + " restored as managed on boot"@),
    }
}

/// The event logged for a fan skipped on boot, with its degraded reason.
pub open spec fn skipped_event(p: (Seq<char>, DegradedReasonView), ts: Seq<char>) -> LifecycleEventView {
    LifecycleEventView {
        timestamp: ts,
        reason: p.1,
        detail: Some("fan "@ + p.0 + " skipped during boot reconciliation"@),
    }
}

proof fn lemma_restored_events(restored: Seq<ReconcileOutcomeView>, ts: Seq<char>)
    requires
        forall|i: int| 0 <= i < restored.len() ==> (#[trigger] restored[i]) is Restored,
    ensures
        restored_events(restored, ts) == restored.map_values(|o: ReconcileOutcomeView| restored_event(o, ts)),
    decreases restored.len(),
{
    if restored.len() > 0 {
        let d = restored.drop_last();
        assert forall|i: int| 0 <= i < d.len() implies (#[trigger] d[i]) is Restored by {
            assert(d[i] == restored[i]);
        }
        lemma_restored_events(d, ts);
        assert(restored[restored.len() - 1] is Restored);
        assert(restored.map_values(|o: ReconcileOutcomeView| restored_event(o, ts)) =~= d.map_values(
            |o: ReconcileOutcomeView| restored_event(o, ts),
        ).push(restored_event(restored.last(), ts)));
    } else {
        assert(restored.map_values(|o: ReconcileOutcomeView| restored_event(o, ts)) =~= Seq::<LifecycleEventView>::empty());
    }
}

proof fn lemma_skipped_events(
    skipped: Seq<ReconcileOutcomeView>,
    reasons: Seq<(Seq<char>, DegradedReasonView)>,
    ts: Seq<char>,
    n: int,
)
    requires
        skipped.len() == reasons.len(),
        0 <= n <= skipped.len(),
        keys_distinct(reasons),
        forall|i: int|
            0 <= i < reasons.len() ==> (#[trigger] skipped[i]).fan_id() == reasons[i].0 && !(skipped[i] is Restored),
    ensures
        skipped_events(skipped.take(n), reasons, ts) == reasons.take(n).map_values(
            |p: (Seq<char>, DegradedReasonView)| skipped_event(p, ts),
        ),
    decreases n,
{
    if n == 0 {
        assert(skipped.take(0) =~= Seq::<ReconcileOutcomeView>::empty());
        assert(reasons.take(0).map_values(|p: (Seq<char>, DegradedReasonView)| skipped_event(p, ts))
            =~= Seq::<LifecycleEventView>::empty());
    } else {
        lemma_skipped_events(skipped, reasons, ts, n - 1);
        assert(skipped.take(n).drop_last() =~= skipped.take(n - 1));
        assert(skipped.take(n).last() == skipped[n - 1]);
        assert forall|j: int| 0 <= j < n - 1 implies !outcome_is_for(skipped[n - 1], #[trigger] reasons[j].0) by {
            assert(reasons[j].0 != reasons[n - 1].0);
        }
        lemma_reason_for_outcome(reasons, skipped[n - 1], n - 1);
        assert(reasons.take(n).map_values(|p: (Seq<char>, DegradedReasonView)| skipped_event(p, ts))
            =~= reasons.take(n - 1).map_values(|p: (Seq<char>, DegradedReasonView)| skipped_event(p, ts)).push(
            skipped_event(reasons[n - 1], ts),
        ));
    }
}

/// Boot bookkeeping law: after boot reconciliation the owned set records each
/// fan that passes every check with its applied control mode and its PWM node
/// and holds no other fan; the degraded state records each fan that fails a
/// check with exactly its one reason and holds no other fan; every
/// `(fan, reason)` pair of the result is what the degraded state records.
pub proof fn law_boot_records_restored_and_skipped_fans(
    applied: AppliedConfigView,
    devices: Seq<HwmonDeviceView>,
    k: Seq<char>,
)
    requires
        keys_distinct(applied.fans),
    ensures
        ({
            let r = reconcile_spec(applied, devices);
            let passes = has_key(applied.fans, k) && skip_reason(k, value_at_key(applied.fans, k), devices) is None;
            let fails = has_key(applied.fans, k) && skip_reason(k, value_at_key(applied.fans, k), devices) is Some;
            &&& lookup(claimed_fans(r.restored, devices), k) == if passes {
                Some((value_at_key(applied.fans, k).control_mode, pwm_path(devices, k)))
            } else {
                None
            }
            &&& lookup(marked_degraded(r.degraded_reasons), k) == if fails {
                Some(seq![skip_degraded(k, value_at_key(applied.fans, k), devices).unwrap()])
            } else {
                None
            }
            &&& (has_key(claimed_fans(r.restored, devices), k) <==> outcome_ids(r.restored).contains(k))
            &&& (has_key(marked_degraded(r.degraded_reasons), k) <==> outcome_ids(r.skipped).contains(k))
            &&& forall|i: int|
                0 <= i < r.degraded_reasons.len() ==> lookup(marked_degraded(r.degraded_reasons), (
                #[trigger] r.degraded_reasons[i]).0) == Some(seq![r.degraded_reasons[i].1])
        }),
{
    let r = reconcile_spec(applied, devices);
    lemma_boot_lookups(applied.fans, devices, k);
    lemma_reconcile_entries(applied.fans, devices, k);
    lemma_skips_aligned(applied.fans, devices);
    assert forall|i: int| 0 <= i < r.degraded_reasons.len() implies lookup(marked_degraded(r.degraded_reasons), (
    #[trigger] r.degraded_reasons[i]).0) == Some(seq![r.degraded_reasons[i].1]) by {
        let k2 = r.degraded_reasons[i].0;
        lemma_boot_lookups(applied.fans, devices, k2);
    }
}

/// Boot event law: boot reconciliation logs, all with one timestamp, one
/// event per restored fan in order, then one event per skipped fan carrying
/// its degraded reason in the order of the result's reasons, then the
/// summary (partial recovery when anything was skipped, else full recovery
/// when anything was restored).
pub proof fn law_boot_event_order(applied: AppliedConfigView, devices: Seq<HwmonDeviceView>, ts: Seq<char>)
    requires
        keys_distinct(applied.fans),
    ensures
        ({
            let r = reconcile_spec(applied, devices);
            boot_events(r, ts) == r.restored.map_values(|o: ReconcileOutcomeView| restored_event(o, ts))
                + r.degraded_reasons.map_values(|p: (Seq<char>, DegradedReasonView)| skipped_event(p, ts))
                + summary_events(r, ts)
        }),
{
    let r = reconcile_spec(applied, devices);
    lemma_reconcile_entries(applied.fans, devices, Seq::empty());
    lemma_skips_aligned(applied.fans, devices);
    lemma_restored_events(r.restored, ts);
    assert forall|i: int| 0 <= i < r.degraded_reasons.len() implies (#[trigger] r.skipped[i]).fan_id()
        == r.degraded_reasons[i].0 && !(r.skipped[i] is Restored) by {
        assert(r.degraded_reasons[i] == r.degraded_reasons[i]);
    }
    lemma_skipped_events(r.skipped, r.degraded_reasons, ts, r.skipped.len() as int);
    assert(r.skipped.take(r.skipped.len() as int) =~= r.skipped);
    assert(r.degraded_reasons.take(r.degraded_reasons.len() as int) =~= r.degraded_reasons);
}

/// Whether the inventory can run applied fan `k` as configured: it has the
/// fan, available, supporting the applied control mode, and every one of the
/// configured temperature sources.
pub open spec fn runnable_as_applied(k: Seq<char>, e: AppliedFanEntryView, devices: Seq<HwmonDeviceView>) -> bool {
    &&& find_fan(devices, k) is Some
    &&& find_fan(devices, k)->0.support_state == SupportState::Available
    &&& find_fan(devices, k)->0.control_modes.contains(e.control_mode)
    &&& forall|i: int| 0 <= i < e.temp_sources.len() ==> crate::inventory::has_temp_source(
        devices,
        #[trigger] e.temp_sources[i],
    )
}

/// Restore law: boot reconciliation restores (and the reconciled
/// configuration keeps, with its applied entry) exactly the applied fans that
/// the inventory can run as configured, with every configured sensor
/// present; every other applied fan is skipped, and a fan skipped for a
/// missing sensor names a configured sensor that the inventory lacks.
pub proof fn law_restored_fans_are_runnable(applied: AppliedConfigView, devices: Seq<HwmonDeviceView>, k: Seq<char>)
    requires
        keys_distinct(applied.fans),
    ensures
        ({
            let r = reconcile_spec(applied, devices);
            let runnable = has_key(applied.fans, k) && runnable_as_applied(k, value_at_key(applied.fans, k), devices);
            &&& (outcome_ids(r.restored).contains(k) <==> runnable)
            &&& (lookup(r.reconciled_config.fans, k) is Some <==> runnable)
            &&& (outcome_ids(r.skipped).contains(k) <==> has_key(applied.fans, k) && !runnable)
            &&& forall|i: int|
                0 <= i < r.skipped.len() ==> ((#[trigger] r.skipped[i]) matches ReconcileOutcomeView::TempSourceMissing {
                    fan_id,
                    missing_temp_id,
                } ==> value_at_key(applied.fans, fan_id).temp_sources.contains(missing_temp_id)
                    && !crate::inventory::has_temp_source(devices, missing_temp_id))
        }),
{
    let r = reconcile_spec(applied, devices);
    lemma_reconcile_entries(applied.fans, devices, k);
    if has_key(applied.fans, k) {
        let e = value_at_key(applied.fans, k);
        lemma_no_missing_temp(e.temp_sources, devices);
    }
    lemma_skips_aligned(applied.fans, devices);
    assert forall|i: int| 0 <= i < r.skipped.len() implies ((#[trigger] r.skipped[i])
        matches ReconcileOutcomeView::TempSourceMissing { fan_id, missing_temp_id } ==> value_at_key(
        applied.fans,
        fan_id,
    ).temp_sources.contains(missing_temp_id) && !crate::inventory::has_temp_source(devices, missing_temp_id)) by {
        let k2 = r.degraded_reasons[i].0;
        let e2 = value_at_key(applied.fans, k2);
        lemma_no_missing_temp(e2.temp_sources, devices);
    }
}

} // verus!
