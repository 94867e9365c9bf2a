//! Bookkeeping of a draft apply: what the rejected fans record, which owned
//! fans are given back, and which fans are taken over.

use vstd::prelude::*;

use crate::config::{AppliedConfig, AppliedConfigView};
use crate::inventory::{find_fan, ControlMode, HwmonDeviceView, InventorySnapshot, SupportState};
use crate::lifecycle::fallback::failed_writes;
use crate::lifecycle::owned::OwnedFanSet;
use crate::lifecycle::reconcile::{
    claimed_fans, law_boot_records_restored_and_skipped_fans, pwm_node_path, pwm_path, reconcile_spec,
};
use crate::lifecycle::state::{
    log_push_all, DegradedReason, DegradedReasonView, DegradedState,
    LifecycleEvent, LifecycleEventLog, LifecycleEventView,
};
use crate::strmap::{group_strmap, has_key, insert_entry, keys_of, lookup, remove_entry};
use crate::text::{decimal, strings_contain};
use crate::validation::{validation_error_text, ValidationErrorView, ValidationResult};

use super::helpers::{degraded_from_validation, validation_error_to_degraded_reason};

verus! {

broadcast use group_strmap;

/// The degraded state after marking each rejected fan with the reason its
/// rejection maps to.
pub open spec fn marked_rejections(
    degraded: Seq<(Seq<char>, Seq<DegradedReasonView>)>,
    rejected: Seq<(Seq<char>, ValidationErrorView)>,
) -> Seq<(Seq<char>, Seq<DegradedReasonView>)>
    decreases rejected.len(),
{
    if rejected.len() == 0 {
        degraded
    } else {
        let last = rejected.last();
        insert_entry(marked_rejections(degraded, rejected.drop_last()), last.0, seq![degraded_from_validation(last.1)])
    }
}

/// One event per rejected fan, then a partial-apply summary when some fans
/// were promoted too.
pub open spec fn rejection_events(
    enrollable_count: nat,
    rejected: Seq<(Seq<char>, ValidationErrorView)>,
    ts: Seq<char>,
) -> Seq<LifecycleEventView> {
    let per_fan = rejected.map_values(
        |p: (Seq<char>, ValidationErrorView)|
            LifecycleEventView {
                timestamp: ts,
                reason: degraded_from_validation(p.1),
                detail: Some("draft apply rejected fan "@ + p.0 + ": "@ + validation_error_text(p.1)),
            },
    );
    if enrollable_count > 0 && rejected.len() > 0 {
        per_fan.push(
            LifecycleEventView {
                timestamp: ts,
                reason: DegradedReasonView::PartialBootRecovery {
                    failed_count: rejected.len() as u32,
                    recovered_count: enrollable_count as u32,
                },
                detail: Some("partial apply during draft promotion"@),
            },
        )
    } else {
        per_fan
    }
}

/// Records the fans a draft apply rejected: each is marked degraded for the
/// reason its rejection maps to, and the rejections are logged, followed by
/// a partial-apply event when some fans were promoted as well.
pub fn record_apply_rejections(
    result: &ValidationResult,
    degraded: &mut DegradedState,
    events: &mut LifecycleEventLog,
    timestamp: String,
)
    ensures
        final(degraded)@ == marked_rejections(old(degraded)@, result@.1),
        final(events)@ == log_push_all(old(events)@, rejection_events(result@.0.len(), result@.1, timestamp@)),
{
    let ghost rv = result@.1;
    let ghost start_d = degraded@;
    let ghost start_e = events@;
    let ghost ts = timestamp@;
    let ghost f = |p: (Seq<char>, ValidationErrorView)|
        LifecycleEventView {
            timestamp: ts,
            reason: degraded_from_validation(p.1),
            detail: Some("draft apply rejected fan "@ + p.0 + ": "@ + validation_error_text(p.1)),
        };
    let mut i: usize = 0;
    while i < result.rejected.len()
        invariant
            rv == result@.1,
            ts == timestamp@,
            i <= rv.len(),
            degraded@ == marked_rejections(start_d, rv.take(i as int)),
            events@ == log_push_all(start_e, rv.take(i as int).map_values(f)),
            f == (|p: (Seq<char>, ValidationErrorView)|
                LifecycleEventView {
                    timestamp: ts,
                    reason: degraded_from_validation(p.1),
                    detail: Some("draft apply rejected fan "@ + p.0 + ": "@ + validation_error_text(p.1)),
                }),
        decreases result.rejected.len() - i,
    {
        let fan_id = &result.rejected[i].0;
        let error = &result.rejected[i].1;
        assert(rv.take(i + 1).drop_last() =~= rv.take(i as int));
        assert(rv.take(i + 1).last() == rv[i as int]);
        let reason = validation_error_to_degraded_reason(error);
        let mut reasons: Vec<DegradedReason> = Vec::new();
        let ghost rsn = reason@;
        reasons.push(reason);
        assert(reasons.deep_view() =~= seq![rsn]);
        degraded.mark_degraded(fan_id.clone(), reasons);
        let detail = "draft apply rejected fan ".to_owned().concat(fan_id.as_str()).concat(": ").concat(
            error.message().as_str(),
        );
        let event = LifecycleEvent {
            timestamp: timestamp.clone(),
            reason: validation_error_to_degraded_reason(error),
            detail: Some(detail),
        };
        assert(event@ == f(rv[i as int]));
        events.push(event);
        proof {
            let prevs = rv.take(i as int).map_values(f);
            assert(rv.take(i + 1).map_values(f) =~= prevs.push(f(rv[i as int])));
            assert(prevs.push(f(rv[i as int])).drop_last() =~= prevs);
        }
        i = i + 1;
    }
    assert(rv.take(i as int) =~= rv);
    if result.enrollable.len() > 0 && result.rejected.len() > 0 {
        let event = LifecycleEvent {
            timestamp: timestamp.clone(),
            reason: DegradedReason::PartialBootRecovery {
                failed_count: result.rejected.len() as u32,
                recovered_count: result.enrollable.len() as u32,
            },
            detail: Some("partial apply during draft promotion".to_owned()),
        };
        let ghost ev = event@;
        let ghost before = events@;
        events.push(event);
        proof {
            let per_fan = rv.map_values(f);
            assert(per_fan.push(ev).drop_last() =~= per_fan);
        }
    }
}

/// The owned fans, in claim order, that `next_owned` does not list.
pub open spec fn removed_fans(owned: Seq<(Seq<char>, (ControlMode, Seq<char>))>, next_owned: Seq<Seq<char>>) -> Seq<Seq<char>> {
    keys_of(owned).filter(|k: Seq<char>| !next_owned.contains(k))
}

/// The owned fans that will not stay owned after an apply: each must be
/// driven to safe maximum before it is released.
pub fn removed_owned_fans(owned: &OwnedFanSet, next_owned: &Vec<String>) -> (r: Vec<String>)
    ensures
        r.deep_view() == removed_fans(owned@, next_owned.deep_view()),
{
    let ids = owned.owned_fan_ids();
    let ghost keys = keys_of(owned@);
    let ghost pred = |k: Seq<char>| !next_owned.deep_view().contains(k);
    let mut r: Vec<String> = Vec::new();
    proof {
        reveal(Seq::filter);
        assert(keys.take(0).filter(pred) =~= Seq::<Seq<char>>::empty());
    }
    let mut i: usize = 0;
    while i < ids.len()
        invariant
            ids.deep_view() == keys,
            keys == keys_of(owned@),
            i <= keys.len(),
            pred == (|k: Seq<char>| !next_owned.deep_view().contains(k)),
            r.deep_view() == keys.take(i as int).filter(pred),
        decreases ids.len() - i,
    {
        assert(keys.take(i + 1).drop_last() =~= keys.take(i as int));
        let keep = !strings_contain(next_owned, ids[i].as_str());
        if keep {
            let ghost before = r.deep_view();
            r.push(ids[i].clone());
            assert(r.deep_view() =~= before.push(keys[i as int]));
        }
        proof {
            reveal(Seq::filter);
            assert(keys.take(i + 1).last() == keys[i as int]);
        }
        i = i + 1;
    }
    assert(keys.take(i as int) =~= keys);
    r
}

/// The owned set after releasing every fan whose fallback write succeeded.
pub open spec fn released_after_fallback(
    owned: Seq<(Seq<char>, (ControlMode, Seq<char>))>,
    outcomes: Seq<(Seq<char>, Option<Seq<char>>)>,
) -> Seq<(Seq<char>, (ControlMode, Seq<char>))>
    decreases outcomes.len(),
{
    if outcomes.len() == 0 {
        owned
    } else {
        let prev = released_after_fallback(owned, outcomes.drop_last());
        match outcomes.last().1 {
            None => remove_entry(prev, outcomes.last().0),
            Some(_) => prev,
        }
    }
}

/// Releases each fan whose safe-maximum write succeeded (`None`); a fan
/// whose write failed stays owned and is returned with the error.
pub fn release_after_fallback(owned: &mut OwnedFanSet, outcomes: &Vec<(String, Option<String>)>) -> (r: Vec<(String, String)>)
    ensures
        final(owned)@ == released_after_fallback(old(owned)@, outcomes.deep_view()),
        r.deep_view() == failed_writes(outcomes.deep_view()),
{
    let ghost ov = outcomes.deep_view();
    let ghost start = owned@;
    let mut failures: Vec<(String, String)> = Vec::new();
    let mut i: usize = 0;
    while i < outcomes.len()
        invariant
            ov == outcomes.deep_view(),
            i <= ov.len(),
            owned@ == released_after_fallback(start, ov.take(i as int)),
            failures.deep_view() == failed_writes(ov.take(i as int)),
        decreases outcomes.len() - i,
    {
        assert(ov.take(i + 1).drop_last() =~= ov.take(i as int));
        assert(ov.take(i + 1).last() == ov[i as int]);
        match &outcomes[i].1 {
            None => {
                owned.release_fan(outcomes[i].0.as_str());
            },
            Some(e) => {
                let ghost before = failures.deep_view();
                failures.push((outcomes[i].0.clone(), e.clone()));
                assert(failures.deep_view() =~= before.push((ov[i as int].0, e@)));
            },
        }
        i = i + 1;
    }
    assert(ov.take(i as int) =~= ov);
    failures
}

/// The reason recorded for a fan that could not be released safely.
pub open spec fn release_failure_reason(fan_id: Seq<char>, error: Seq<char>) -> DegradedReasonView {
    DegradedReasonView::FanNoLongerEnrollable {
        fan_id,
        support_state: SupportState::Unavailable,
        reason: "failed to release fan safely: "@ + error,
    }
}

/// The degraded state after marking each fan that could not be released.
pub open spec fn marked_release_failures(
    degraded: Seq<(Seq<char>, Seq<DegradedReasonView>)>,
    failures: Seq<(Seq<char>, Seq<char>)>,
) -> Seq<(Seq<char>, Seq<DegradedReasonView>)>
    decreases failures.len(),
{
    if failures.len() == 0 {
        degraded
    } else {
        let last = failures.last();
        insert_entry(
            marked_release_failures(degraded, failures.drop_last()),
            last.0,
            seq![release_failure_reason(last.0, last.1)],
        )
    }
}

/// One event per fan that could not be released.
pub open spec fn release_failure_events(failures: Seq<(Seq<char>, Seq<char>)>, ts: Seq<char>) -> Seq<LifecycleEventView> {
    failures.map_values(
        |p: (Seq<char>, Seq<char>)|
            LifecycleEventView {
                timestamp: ts,
                reason: release_failure_reason(p.0, p.1),
                detail: Some("apply draft could not release "@ + p.0 + " safely; ownership retained"@),
            },
    )
}

/// Records the fans that an apply could not release safely: each is marked
/// degraded (no longer enrollable) and logged; they stay owned.
pub fn record_release_failures(
    failures: &Vec<(String, String)>,
    degraded: &mut DegradedState,
    events: &mut LifecycleEventLog,
    timestamp: String,
)
    ensures
        final(degraded)@ == marked_release_failures(old(degraded)@, failures.deep_view()),
        final(events)@ == log_push_all(old(events)@, release_failure_events(failures.deep_view(), timestamp@)),
{
    let ghost fv = failures.deep_view();
    let ghost start_d = degraded@;
    let ghost start_e = events@;
    let ghost ts = timestamp@;
    let ghost f = |p: (Seq<char>, Seq<char>)|
        LifecycleEventView {
            timestamp: ts,
            reason: release_failure_reason(p.0, p.1),
            detail: Some("apply draft could not release "@ + p.0 + " safely; ownership retained"@),
        };
    let mut i: usize = 0;
    while i < failures.len()
        invariant
            fv == failures.deep_view(),
            ts == timestamp@,
            i <= fv.len(),
            degraded@ == marked_release_failures(start_d, fv.take(i as int)),
            events@ == log_push_all(start_e, fv.take(i as int).map_values(f)),
            f == (|p: (Seq<char>, Seq<char>)|
                LifecycleEventView {
                    timestamp: ts,
                    reason: release_failure_reason(p.0, p.1),
                    detail: Some("apply draft could not release "@ + p.0 + " safely; ownership retained"@),
                }),
        decreases failures.len() - i,
    {
        let fan_id = &failures[i].0;
        let error = &failures[i].1;
        assert(fv.take(i + 1).drop_last() =~= fv.take(i as int));
        assert(fv.take(i + 1).last() == fv[i as int]);
        let reason_text = "failed to release fan safely: ".to_owned().concat(error.as_str());
        let mut reasons: Vec<DegradedReason> = Vec::new();
        reasons.push(
            DegradedReason::FanNoLongerEnrollable {
                fan_id: fan_id.clone(),
                support_state: SupportState::Unavailable,
                reason: reason_text.clone(),
            },
        );
        assert(reasons.deep_view() =~= seq![release_failure_reason(fan_id@, error@)]);
        degraded.mark_degraded(fan_id.clone(), reasons);
        let event = LifecycleEvent {
            timestamp: timestamp.clone(),
            reason: DegradedReason::FanNoLongerEnrollable {
                fan_id: fan_id.clone(),
                support_state: SupportState::Unavailable,
                reason: reason_text,
            },
            detail: Some(
                "apply draft could not release ".to_owned().concat(fan_id.as_str()).concat(
                    " safely; ownership retained",
                ),
            ),
        };
        assert(event@ == f(fv[i as int]));
        events.push(event);
        proof {
            let prevs = fv.take(i as int).map_values(f);
            assert(fv.take(i + 1).map_values(f) =~= prevs.push(f(fv[i as int])));
            assert(prevs.push(f(fv[i as int])).drop_last() =~= prevs);
        }
        i = i + 1;
    }
    assert(fv.take(i as int) =~= fv);
}

/// The owned set after taking over each promoted fan that the inventory
/// still has and the applied configuration lists, at its PWM node in its
/// applied control mode.
pub open spec fn claimed_enrolled(
    owned: Seq<(Seq<char>, (ControlMode, Seq<char>))>,
    enrollable: Seq<Seq<char>>,
    applied: AppliedConfigView,
    devices: Seq<HwmonDeviceView>,
) -> Seq<(Seq<char>, (ControlMode, Seq<char>))>
    decreases enrollable.len(),
{
    if enrollable.len() == 0 {
        owned
    } else {
        let prev = claimed_enrolled(owned, enrollable.drop_last(), applied, devices);
        let k = enrollable.last();
        if find_fan(devices, k) is Some && has_key(applied.fans, k) {
            insert_entry(prev, k, (lookup(applied.fans, k)->0.control_mode, pwm_path(devices, k)))
        } else {
            prev
        }
    }
}

/// The degraded state after clearing each promoted fan.
pub open spec fn cleared_enrolled(
    degraded: Seq<(Seq<char>, Seq<DegradedReasonView>)>,
    enrollable: Seq<Seq<char>>,
) -> Seq<(Seq<char>, Seq<DegradedReasonView>)>
    decreases enrollable.len(),
{
    if enrollable.len() == 0 {
        degraded
    } else {
        remove_entry(cleared_enrolled(degraded, enrollable.drop_last()), enrollable.last())
    }
}

/// Takes over the promoted fans: each one that the inventory still has and
/// the applied configuration lists is claimed at its PWM node in its
/// applied mode; every promoted fan stops being degraded.
pub fn claim_enrolled_fans(
    owned: &mut OwnedFanSet,
    degraded: &mut DegradedState,
    enrollable: &Vec<String>,
    applied: &AppliedConfig,
    snapshot: &InventorySnapshot,
)
    ensures
        final(owned)@ == claimed_enrolled(old(owned)@, enrollable.deep_view(), applied@, snapshot@),
        final(degraded)@ == cleared_enrolled(old(degraded)@, enrollable.deep_view()),
{
    let ghost ev = enrollable.deep_view();
    let ghost start_o = owned@;
    let ghost start_d = degraded@;
    let mut i: usize = 0;
    while i < enrollable.len()
        invariant
            ev == enrollable.deep_view(),
            i <= ev.len(),
            owned@ == claimed_enrolled(start_o, ev.take(i as int), applied@, snapshot@),
            degraded@ == cleared_enrolled(start_d, ev.take(i as int)),
        decreases enrollable.len() - i,
    {
        assert(ev.take(i + 1).drop_last() =~= ev.take(i as int));
        assert(ev.take(i + 1).last() == ev[i as int]);
        let fan_id = enrollable[i].as_str();
        if crate::inventory::find_fan_by_id(snapshot, fan_id).is_some() {
            match applied.fans.get(fan_id) {
                Some(entry) => {
                    let path = pwm_node_path(snapshot, fan_id);
                    owned.claim_fan(fan_id, entry.control_mode, path.as_str());
                },
                None => {},
            }
        }
        degraded.clear_fan(fan_id);
        i = i + 1;
    }
    assert(ev.take(i as int) =~= ev);
}

/// Take-over law of an apply: a fan is owned afterwards only if it was
/// owned before or is one of the promoted fans and in the applied
/// configuration, and every promoted fan that
/// the inventory has and the applied configuration lists is owned, in its
/// applied mode. (Fans nobody enrolled are never taken over.)
pub proof fn law_only_enrolled_fans_are_claimed(
    owned: Seq<(Seq<char>, (ControlMode, Seq<char>))>,
    enrollable: Seq<Seq<char>>,
    applied: AppliedConfigView,
    devices: Seq<HwmonDeviceView>,
    k: Seq<char>,
)
    requires
        crate::strmap::keys_distinct(owned),
    ensures
        has_key(claimed_enrolled(owned, enrollable, applied, devices), k) ==> has_key(owned, k) || (enrollable.contains(
            k,
        ) && has_key(applied.fans, k)),
        enrollable.contains(k) && find_fan(devices, k) is Some && has_key(applied.fans, k) ==> lookup(
            claimed_enrolled(owned, enrollable, applied, devices),
            k,
        ) == Some((lookup(applied.fans, k)->0.control_mode, pwm_path(devices, k))),
    decreases enrollable.len(),
{
    if enrollable.len() > 0 {
        let en = enrollable.drop_last();
        law_only_enrolled_fans_are_claimed(owned, en, applied, devices, k);
        lemma_claimed_distinct(owned, en, applied, devices);
        let prev = claimed_enrolled(owned, en, applied, devices);
        let k0 = enrollable.last();
        if find_fan(devices, k0) is Some && has_key(applied.fans, k0) {
            crate::strmap::law_insert_then_lookup(prev, k0, (lookup(applied.fans, k0)->0.control_mode, pwm_path(devices, k0)));
        }
        assert(has_key(prev, k) == lookup(prev, k) is Some);
        assert(has_key(claimed_enrolled(owned, enrollable, applied, devices), k) == lookup(
            claimed_enrolled(owned, enrollable, applied, devices),
            k,
        ) is Some);
        if en.contains(k) {
            let j = choose|j: int| 0 <= j < en.len() && en[j] == k;
            assert(enrollable[j] == k);
        }
        if enrollable.contains(k) && k != k0 {
            let j = choose|j: int| 0 <= j < enrollable.len() && enrollable[j] == k;
            assert(en[j] == k);
        }
        assert(enrollable[enrollable.len() - 1] == k0);
    }
}

proof fn lemma_claimed_distinct(
    owned: Seq<(Seq<char>, (ControlMode, Seq<char>))>,
    enrollable: Seq<Seq<char>>,
    applied: AppliedConfigView,
    devices: Seq<HwmonDeviceView>,
)
    requires
        crate::strmap::keys_distinct(owned),
    ensures
        crate::strmap::keys_distinct(claimed_enrolled(owned, enrollable, applied, devices)),
    decreases enrollable.len(),
{
    if enrollable.len() > 0 {
        lemma_claimed_distinct(owned, enrollable.drop_last(), applied, devices);
        let prev = claimed_enrolled(owned, enrollable.drop_last(), applied, devices);
        let k0 = enrollable.last();
        if find_fan(devices, k0) is Some && has_key(applied.fans, k0) {
            crate::strmap::law_insert_then_lookup(prev, k0, (lookup(applied.fans, k0)->0.control_mode, pwm_path(devices, k0)));
        }
    }
}

/// Only enrolled fans are taken over: boot reconciliation owns only fans of
/// the applied configuration, and an apply adds to the fans already owned
/// only promoted fans of the new applied configuration; so a fan that, if
/// owned before, is in the new applied configuration is, if owned after the
/// apply, in it too.
pub proof fn law_only_applied_fans_are_owned(
    applied: AppliedConfigView,
    devices: Seq<HwmonDeviceView>,
    owned: Seq<(Seq<char>, (ControlMode, Seq<char>))>,
    enrollable: Seq<Seq<char>>,
    new_applied: AppliedConfigView,
    k: Seq<char>,
)
    requires
        crate::strmap::keys_distinct(applied.fans),
        crate::strmap::keys_distinct(owned),
    ensures
        has_key(claimed_fans(reconcile_spec(applied, devices).restored, devices), k) ==> has_key(applied.fans, k),
        has_key(claimed_enrolled(owned, enrollable, new_applied, devices), k) ==> has_key(owned, k) || (
        enrollable.contains(k) && has_key(new_applied.fans, k)),
        (has_key(owned, k) ==> has_key(new_applied.fans, k)) ==> (has_key(
            claimed_enrolled(owned, enrollable, new_applied, devices),
            k,
        ) ==> has_key(new_applied.fans, k)),
{
    law_boot_records_restored_and_skipped_fans(applied, devices, k);
    law_only_enrolled_fans_are_claimed(owned, enrollable, new_applied, devices, k);
}

} // verus!
