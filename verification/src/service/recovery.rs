//! Recovery of degraded fans, the stale-data watchdog and the fallback record.

use vstd::prelude::*;

use crate::config::{AppConfig, AppConfigView, AppliedConfig, AppliedConfigView, FallbackIncident, FallbackIncidentView};
use crate::inventory::{ControlMode, HwmonDeviceView, InventorySnapshot};
use crate::lifecycle::fallback::{lifecycle_event_from_fallback_incident, FallbackResult};
use crate::lifecycle::owned::OwnedFanSet;
use crate::lifecycle::reassess::{reassess_single_fan, reassess_spec, ReassessOutcome, ReassessOutcomeView};
use crate::lifecycle::reconcile::{pwm_node_path, pwm_path};
use crate::lifecycle::state::{
    any_recoverable, log_push, log_push_all, DegradedReason, DegradedReasonView, DegradedState, LifecycleEvent,
    LifecycleEventLog, LifecycleEventView,
};
use crate::strmap::{group_strmap, has_key, insert_entry, keys_of, lookup, remove_entry, value_at_key};
use crate::text::{decimal, push_decimal, sorted_strings, strings_sorted};

verus! {

broadcast use group_strmap;

/// Whether the degraded fan `k` has a recoverable reason.
pub open spec fn recoverable_in(degraded: Seq<(Seq<char>, Seq<DegradedReasonView>)>, k: Seq<char>) -> bool {
    match lookup(degraded, k) {
        Some(reasons) => any_recoverable(reasons),
        None => false,
    }
}

/// The degraded fans, in the order they were marked, that re-assessment
/// may recover.
pub open spec fn recoverable_ids(degraded: Seq<(Seq<char>, Seq<DegradedReasonView>)>) -> Seq<Seq<char>> {
    keys_of(degraded).filter(|k: Seq<char>| recoverable_in(degraded, k))
}

/// The event logged for a fan that re-assessment recovered.
pub open spec fn recovered_event(fan_id: Seq<char>, ts: Seq<char>) -> LifecycleEventView {
    LifecycleEventView {
        timestamp: ts,
        reason: DegradedReasonView::FanRecovered { fan_id },
        detail: Some("fan "@ + fan_id + " recovered from degraded state via re-assessment"@),
    }
}

/// The effect of re-assessing the fans `ids` in order: the owned set, the
/// degraded state, the new events and the recovered fans. An applied fan
/// that re-assessment finds recoverable is cleared, claimed at its PWM node
/// in its recovered mode and logged; other fans are left alone.
pub open spec fn recovery_steps(
    ids: Seq<Seq<char>>,
    applied: AppliedConfigView,
    devices: Seq<HwmonDeviceView>,
    ts: Seq<char>,
    owned: Seq<(Seq<char>, (ControlMode, Seq<char>))>,
    degraded: Seq<(Seq<char>, Seq<DegradedReasonView>)>,
) -> (
    Seq<(Seq<char>, (ControlMode, Seq<char>))>,
    Seq<(Seq<char>, Seq<DegradedReasonView>)>,
    Seq<LifecycleEventView>,
    Seq<Seq<char>>,
)
    decreases ids.len(),
{
    if ids.len() == 0 {
        (owned, degraded, Seq::empty(), Seq::empty())
    } else {
        let p = recovery_steps(ids.drop_last(), applied, devices, ts, owned, degraded);
        let k = ids.last();
        match lookup(applied.fans, k) {
            Some(e) => match reassess_spec(k, e, devices) {
                ReassessOutcomeView::Recoverable { control_mode, .. } => (
                    insert_entry(p.0, k, (control_mode, pwm_path(devices, k))),
                    remove_entry(p.1, k),
                    p.2.push(recovered_event(k, ts)),
                    p.3.push(k),
                ),
                _ => p,
            },
            None => p,
        }
    }
}

fn recoverable_fan_ids(degraded: &DegradedState) -> (r: Vec<String>)
    ensures
        r.deep_view() == recoverable_ids(degraded@),
{
    let ids = degraded.degraded_fan_ids();
    let ghost keys = keys_of(degraded@);
    let ghost pred = |k: Seq<char>| recoverable_in(degraded@, k);
    let mut r: Vec<String> = Vec::new();
    proof {
        reveal(Seq::filter);
        assert(keys.take(0).filter(pred) =~= Seq::<Seq<char>>::empty());
    }
    let mut i: usize = 0;
    while i < ids.len()
        invariant
            ids.deep_view() == keys,
            keys == keys_of(degraded@),
            i <= keys.len(),
            pred == (|k: Seq<char>| recoverable_in(degraded@, k)),
            r.deep_view() == keys.take(i as int).filter(pred),
        decreases ids.len() - i,
    {
        assert(keys.take(i + 1).drop_last() =~= keys.take(i as int));
        if degraded.is_fan_recoverable(ids[i].as_str()) {
            let ghost before = r.deep_view();
            r.push(ids[i].clone());
            assert(r.deep_view() =~= before.push(keys[i as int]));
        }
        proof {
            reveal(Seq::filter);
            assert(keys.take(i + 1).last() == keys[i as int]);
        }
        i = i + 1;
    }
    assert(keys.take(i as int) =~= keys);
    r
}

/// Re-assesses every degraded fan with a recoverable reason against the
/// snapshot and takes back control of those whose hardware has returned:
/// each is cleared from the degraded state, claimed at its PWM node and
/// logged as recovered. Returns the recovered fans in order. Nothing
/// happens without an applied configuration.
pub fn recover_degraded_fans(
    degraded: &mut DegradedState,
    owned: &mut OwnedFanSet,
    events: &mut LifecycleEventLog,
    applied: Option<&AppliedConfig>,
    snapshot: &InventorySnapshot,
    timestamp: String,
) -> (r: Vec<String>)
    ensures
        match applied {
            None => {
                &&& r.deep_view().len() == 0
                &&& final(degraded)@ == old(degraded)@
                &&& final(owned)@ == old(owned)@
                &&& final(events)@ == old(events)@
            },
            Some(a) => {
                let s = recovery_steps(
                    recoverable_ids(old(degraded)@),
                    a@,
                    snapshot@,
                    timestamp@,
                    old(owned)@,
                    old(degraded)@,
                );
                &&& final(owned)@ == s.0
                &&& final(degraded)@ == s.1
                &&& final(events)@ == log_push_all(old(events)@, s.2)
                &&& r.deep_view() == s.3
            },
        },
{
    let ids = recoverable_fan_ids(degraded);
    let mut recovered: Vec<String> = Vec::new();
    let a = match applied {
        None => {
            assert(recovered.deep_view() =~= Seq::<Seq<char>>::empty());
            return recovered;
        },
        Some(a) => a,
    };
    let ghost iv = ids.deep_view();
    let ghost o0 = owned@;
    let ghost d0 = degraded@;
    let ghost e0 = events@;
    let ghost ts = timestamp@;
    let mut i: usize = 0;
    while i < ids.len()
        invariant
            iv == ids.deep_view(),
            ts == timestamp@,
            i <= iv.len(),
            ({
                let s = recovery_steps(iv.take(i as int), a@, snapshot@, ts, o0, d0);
                &&& owned@ == s.0
                &&& degraded@ == s.1
                &&& events@ == log_push_all(e0, s.2)
                &&& recovered.deep_view() == s.3
            }),
        decreases ids.len() - i,
    {
        assert(iv.take(i + 1).drop_last() =~= iv.take(i as int));
        assert(iv.take(i + 1).last() == iv[i as int]);
        let ghost prev = recovery_steps(iv.take(i as int), a@, snapshot@, ts, o0, d0);
        let fan_id = &ids[i];
        match a.fans.get(fan_id.as_str()) {
            Some(entry) => {
                match reassess_single_fan(fan_id.as_str(), entry, snapshot) {
                    ReassessOutcome::Recoverable { control_mode, .. } => {
                        let path = pwm_node_path(snapshot, fan_id.as_str());
                        degraded.clear_fan(fan_id.as_str());
                        owned.claim_fan(fan_id.as_str(), control_mode, path.as_str());
                        let event = LifecycleEvent {
                            timestamp: timestamp.clone(),
                            reason: DegradedReason::FanRecovered { fan_id: fan_id.clone() },
                            detail: Some(
                                "fan ".to_owned().concat(fan_id.as_str()).concat(
                                    " recovered from degraded state via re-assessment",
                                ),
                            ),
                        };
                        assert(event@ == recovered_event(fan_id@, ts));
                        events.push(event);
                        let ghost before = recovered.deep_view();
                        recovered.push(fan_id.clone());
                        assert(recovered.deep_view() =~= before.push(fan_id@));
                        assert(prev.2.push(recovered_event(fan_id@, ts)).drop_last() =~= prev.2);
                    },
                    ReassessOutcome::StillDegraded { .. } => {},
                }
            },
            None => {},
        }
        i = i + 1;
    }
    assert(iv.take(i as int) =~= iv);
    recovered
}

/// Ticks at which the watchdog warns about, and degrades, a managed fan
/// without valid sensor data.
pub const STALE_WARN_TICKS: u32 = 50;

pub const STALE_THRESHOLD: u32 = 100;

/// The watchdog's decision for one managed fan on one tick.
#[derive(Clone, Copy, Debug, PartialEq, Eq, Structural)]
pub struct StaleCheck {
    pub count: u32,
    pub warn: bool,
    pub degrade: bool,
}

/// Whether a fan's live data counts as stale: no aggregated temperature,
/// or a reading of exactly 0 m°C.
pub fn sample_is_stale(aggregated_temp_millidegrees: Option<i64>) -> (r: bool)
    ensures
        r == match aggregated_temp_millidegrees {
            Some(t) => t == 0,
            None => true,
        },
{
    match aggregated_temp_millidegrees {
        Some(t) => t == 0,
        None => true,
    }
}

/// One watchdog tick for a managed fan: a stale tick counts up, warning at
/// `STALE_WARN_TICKS` and degrading the fan from `STALE_THRESHOLD` on; a
/// fresh tick resets the count.
pub fn stale_tick(count: u32, is_stale: bool) -> (r: StaleCheck)
    requires
        count < u32::MAX,
    ensures
        is_stale ==> r == (StaleCheck {
            count: (count + 1) as u32,
            warn: count + 1 == STALE_WARN_TICKS,
            degrade: count + 1 >= STALE_THRESHOLD,
        }),
        !is_stale ==> r == (StaleCheck { count: 0, warn: false, degrade: false }),
{
    if is_stale {
        let c = count + 1;
        StaleCheck { count: c, warn: c == STALE_WARN_TICKS, degrade: c >= STALE_THRESHOLD }
    } else {
        StaleCheck { count: 0, warn: false, degrade: false }
    }
}

/// The detail recorded with a fallback incident.
pub open spec fn fallback_detail(trigger: Seq<char>, succeeded: nat, failed: nat) -> Seq<char> {
    trigger + "; "@ + decimal(succeeded) + " write(s) succeeded, "@ + decimal(failed) + " failed"@
}

/// Records a fallback pass over the owned fans, after the caller drove
/// them to safe maximum with outcome `result`: the incident (every owned
/// fan, in lexicographic order, with the failed writes and a detail naming the trigger and
/// the counts) replaces the persisted one and is logged, and the fallback
/// fans become exactly the owned ones. With no owned fan the persisted
/// incident is cleared and nothing is logged.
pub fn record_fallback_incident(
    owned: &OwnedFanSet,
    result: &FallbackResult,
    config: &mut AppConfig,
    events: &mut LifecycleEventLog,
    fallback_fan_ids: &mut Vec<String>,
    trigger: &str,
    timestamp: String,
)
    ensures
        final(fallback_fan_ids).deep_view().no_duplicates(),
        final(fallback_fan_ids).deep_view().to_set() == keys_of(owned@).to_set(),
        owned@.len() == 0 ==> {
            &&& final(config)@ == (AppConfigView { fallback_incident: None, ..old(config)@ })
            &&& final(events)@ == old(events)@
        },
        owned@.len() > 0 ==> {
            &&& final(config)@.fallback_incident matches Some(inc)
            &&& final(config)@ == (AppConfigView { fallback_incident: Some(inc), ..old(config)@ })
            &&& inc.timestamp == timestamp@
            &&& inc.affected_fans == sorted_strings(keys_of(owned@))
            &&& strings_sorted(inc.affected_fans)
            &&& inc.affected_fans.to_multiset() == keys_of(owned@).to_multiset()
            &&& inc.failed == result@.1
            &&& inc.detail == Some(fallback_detail(trigger@, result@.0.len(), result@.1.len()))
            &&& final(events)@ == log_push(
                old(events)@,
                LifecycleEventView {
                    timestamp: inc.timestamp,
                    reason: DegradedReasonView::FallbackActive { affected_fans: inc.affected_fans },
                    detail: inc.detail,
                },
            )
        },
{
    broadcast use vstd::seq_lib::group_to_multiset_ensures;
    broadcast use vstd::multiset::group_multiset_axioms;

    let mut detail = trigger.to_owned().concat("; ");
    push_decimal(&mut detail, result.succeeded.len() as u64);
    detail.append(" write(s) succeeded, ");
    push_decimal(&mut detail, result.failed.len() as u64);
    let detail = detail.concat(" failed");
    let incident = FallbackIncident::from_owned_and_result(timestamp, owned, result, Some(detail));
    let ids = incident.fallback_fan_ids();
    proof {
        let a = incident@.affected_fans;
        let k = keys_of(owned@);
        assert forall|x: Seq<char>| a.contains(x) <==> k.contains(x) by {
            assert(a.to_multiset().count(x) == k.to_multiset().count(x));
        }
        assert(a.to_set() =~= k.to_set());
        assert(a.len() == a.to_multiset().len());
        assert(k.len() == k.to_multiset().len());
    }
    *fallback_fan_ids = ids;
    if incident.affected_fans.len() == 0 {
        config.clear_fallback_incident();
        return;
    }
    let event = lifecycle_event_from_fallback_incident(&incident);
    events.push(event);
    config.set_fallback_incident(incident);
}

proof fn lemma_recovery_steps(
    ids: Seq<Seq<char>>,
    applied: AppliedConfigView,
    devices: Seq<HwmonDeviceView>,
    ts: Seq<char>,
    owned: Seq<(Seq<char>, (ControlMode, Seq<char>))>,
    degraded: Seq<(Seq<char>, Seq<DegradedReasonView>)>,
    k: Seq<char>,
)
    requires
        crate::strmap::keys_distinct(owned),
        crate::strmap::keys_distinct(degraded),
    ensures
        ({
            let s = recovery_steps(ids, applied, devices, ts, owned, degraded);
            &&& crate::strmap::keys_distinct(s.0)
            &&& crate::strmap::keys_distinct(s.1)
            &&& s.3.contains(k) ==> ids.contains(k) && has_key(applied.fans, k) && has_key(s.0, k) && !has_key(s.1, k)
            &&& !ids.contains(k) ==> lookup(s.0, k) == lookup(owned, k) && lookup(s.1, k) == lookup(degraded, k)
        }),
    decreases ids.len(),
{
    if ids.len() > 0 {
        let prefix = ids.drop_last();
        lemma_recovery_steps(prefix, applied, devices, ts, owned, degraded, k);
        let p = recovery_steps(prefix, applied, devices, ts, owned, degraded);
        let k0 = ids.last();
        let s = recovery_steps(ids, applied, devices, ts, owned, degraded);
        match lookup(applied.fans, k0) {
            Some(e) => match reassess_spec(k0, e, devices) {
                ReassessOutcomeView::Recoverable { control_mode, .. } => {
                    crate::strmap::law_insert_then_lookup(p.0, k0, (control_mode, pwm_path(devices, k0)));
                    crate::strmap::law_remove_then_lookup(p.1, k0);
                    assert(has_key(s.0, k) == lookup(s.0, k) is Some);
                    assert(has_key(s.1, k) == lookup(s.1, k) is Some);
                    assert(has_key(p.0, k) == lookup(p.0, k) is Some);
                    assert(has_key(p.1, k) == lookup(p.1, k) is Some);
                    if s.3.contains(k) && k != k0 {
                        let j = choose|j: int| 0 <= j < s.3.len() && s.3[j] == k;
                        assert(p.3[j] == k);
                    }
                },
                _ => {},
            },
            None => {},
        }
        if prefix.contains(k) {
            let j = choose|j: int| 0 <= j < prefix.len() && prefix[j] == k;
            assert(ids[j] == k);
        }
        if ids.contains(k) && k != k0 {
            let j = choose|j: int| 0 <= j < ids.len() && ids[j] == k;
            assert(prefix[j] == k);
        }
        assert(ids[ids.len() - 1] == k0);
    }
}

/// Recovery law: re-assessment takes back only fans that were degraded for
/// a recoverable reason and are in the applied configuration; each fan it
/// takes back ends up owned and no longer degraded; every other fan keeps
/// its ownership and degraded record.
pub proof fn law_recovery_takes_back_only_recoverable_fans(
    applied: AppliedConfigView,
    devices: Seq<HwmonDeviceView>,
    ts: Seq<char>,
    owned: Seq<(Seq<char>, (ControlMode, Seq<char>))>,
    degraded: Seq<(Seq<char>, Seq<DegradedReasonView>)>,
    k: Seq<char>,
)
    requires
        crate::strmap::keys_distinct(owned),
        crate::strmap::keys_distinct(degraded),
    ensures
        ({
            let s = recovery_steps(recoverable_ids(degraded), applied, devices, ts, owned, degraded);
            &&& s.3.contains(k) ==> recoverable_in(degraded, k) && has_key(applied.fans, k) && has_key(s.0, k)
                && !has_key(s.1, k)
            &&& !recoverable_in(degraded, k) ==> lookup(s.0, k) == lookup(owned, k) && lookup(s.1, k) == lookup(
                degraded,
                k,
            )
        }),
{
    let ids = recoverable_ids(degraded);
    let pred = |x: Seq<char>| recoverable_in(degraded, x);
    lemma_recovery_steps(ids, applied, devices, ts, owned, degraded, k);
    broadcast use vstd::seq_lib::group_filter_ensures;
    if ids.contains(k) {
        let j = choose|j: int| 0 <= j < ids.len() && ids[j] == k;
        assert(pred(ids[j]));
    }
}

} // verus!
