//! Decisions of the per-fan control loops and of their supervisor: which
//! fans get a loop, how a sample is aggregated or why it failed, when a fan
//! runs hot, and what boot reconciliation changes in the configuration.

use vstd::prelude::*;

use crate::config::{AppConfig, AppConfigView, AppliedConfig, AppliedFanEntryView};
use crate::control::{aggregate, aggregation_fits, AggregationFn};
use crate::lifecycle::owned::OwnedFanSet;
use crate::overview::FULL_OUTPUT_PERCENT_BITS;
use crate::lifecycle::reconcile::ReconcileResult;
use crate::lifecycle::runtime::{ControlRuntimeSnapshot, ControlRuntimeSnapshotView, FanRuntimeStatus, FanRuntimeStatusView, RuntimeState, RuntimeStateView};
use crate::lifecycle::state::{DegradedReason, DegradedReasonView};
use crate::strmap::{group_strmap, has_key, insert_entry, lookup, StrMap};

verus! {

broadcast use group_strmap;

// ---------------------------------------------------------------------------
// Sampling
// ---------------------------------------------------------------------------

/// The readings that could be taken, in source order.
pub open spec fn present_readings(resolved: Seq<(Seq<char>, Option<i64>)>) -> Seq<i64>
    decreases resolved.len(),
{
    if resolved.len() == 0 {
        Seq::empty()
    } else {
        let prev = present_readings(resolved.drop_last());
        match resolved.last().1 {
            Some(v) => prev.push(v),
            None => prev,
        }
    }
}

/// The sensor named when no reading could be taken: the last resolved
/// source, else the first configured one, else `unknown-temp`.
pub open spec fn missing_sensor(temp_sources: Seq<Seq<char>>, resolved: Seq<(Seq<char>, Option<i64>)>) -> Seq<char> {
    if resolved.len() > 0 {
        resolved.last().0
    } else if temp_sources.len() > 0 {
        temp_sources[0]
    } else {
        "unknown-temp"@
    }
}

/// Aggregates one sample of a fan's sensors: `resolved` holds each resolved
/// source with its reading, or `None` when it could not be read. Without any
/// reading the fan's sensor is reported missing.
pub fn aggregate_source_readings(
    fan_id: &str,
    temp_sources: &Vec<String>,
    resolved: &Vec<(String, Option<i64>)>,
    aggregation: AggregationFn,
) -> (r: Result<i64, DegradedReason>)
    requires
        resolved@.len() <= i64::MAX,
        aggregation_fits(aggregation, present_readings(resolved.deep_view())),
    ensures
        present_readings(resolved.deep_view()).len() == 0 ==> (r matches Err(e) && e@
            == (DegradedReasonView::TempSourceMissing {
            fan_id: fan_id@,
            temp_id: missing_sensor(temp_sources.deep_view(), resolved.deep_view()),
        })),
        present_readings(resolved.deep_view()).len() > 0 ==> r == Ok::<i64, DegradedReason>(
            aggregate(aggregation, present_readings(resolved.deep_view())) as i64,
        ),
{
    let ghost rv = resolved.deep_view();
    let mut readings: Vec<i64> = Vec::new();
    let mut i: usize = 0;
    while i < resolved.len()
        invariant
            rv == resolved.deep_view(),
            i <= rv.len(),
            readings@ == present_readings(rv.take(i as int)),
            readings@.len() <= i,
            resolved@.len() <= i64::MAX,
        decreases resolved.len() - i,
    {
        assert(rv.take(i + 1).drop_last() =~= rv.take(i as int));
        assert(rv.take(i + 1).last() == rv[i as int]);
        match resolved[i].1 {
            Some(v) => {
                readings.push(v);
            },
            None => {},
        }
        i = i + 1;
    }
    assert(rv.take(i as int) =~= rv);
    match aggregation.compute_millidegrees(readings.as_slice()) {
        Some(v) => Ok(v),
        None => {
            let temp_id = if resolved.len() > 0 {
                resolved[resolved.len() - 1].0.clone()
            } else if temp_sources.len() > 0 {
                temp_sources[0].clone()
            } else {
                "unknown-temp".to_owned()
            };
            Err(DegradedReason::TempSourceMissing { fan_id: fan_id.to_owned(), temp_id })
        },
    }
}

/// How far above its target a managed fan's temperature must be to raise
/// the high-temperature alert (5 °C).
pub const HIGH_TEMP_ALERT_MARGIN_MILLIDEGREES: i64 = 5_000;

/// Whether an aggregated reading raises the high-temperature alert.
pub fn high_temp_alert(aggregated_temp_millidegrees: i64, target_temp_millidegrees: i64) -> (r: bool)
    requires
        target_temp_millidegrees <= i64::MAX - HIGH_TEMP_ALERT_MARGIN_MILLIDEGREES,
    ensures
        r == (aggregated_temp_millidegrees >= target_temp_millidegrees + HIGH_TEMP_ALERT_MARGIN_MILLIDEGREES),
{
    aggregated_temp_millidegrees >= target_temp_millidegrees + HIGH_TEMP_ALERT_MARGIN_MILLIDEGREES
}

// ---------------------------------------------------------------------------
// Supervision
// ---------------------------------------------------------------------------

/// The applied fans that are owned, in applied order.
pub open spec fn controlled_entries(
    fans: Seq<(Seq<char>, AppliedFanEntryView)>,
    owned: Seq<(Seq<char>, (crate::inventory::ControlMode, Seq<char>))>,
) -> Seq<(Seq<char>, AppliedFanEntryView)>
    decreases fans.len(),
{
    if fans.len() == 0 {
        Seq::empty()
    } else {
        let prev = controlled_entries(fans.drop_last(), owned);
        if has_key(owned, fans.last().0) {
            prev.push(fans.last())
        } else {
            prev
        }
    }
}

/// Fallback publish cadence when no fan is controlled.
pub const IDLE_PUBLISH_CADENCE_MS: u64 = 250;

/// Shortest publish cadence.
pub const MIN_PUBLISH_CADENCE_MS: u64 = 100;

/// Which fans get a control loop, and how often their status is published.
#[derive(Debug)]
pub struct ControlPlan {
    pub fans: Vec<String>,
    pub publish_cadence_ms: u64,
}

/// The fans to control (the applied fans that are owned, in applied order)
/// and the publish cadence: the first such fan's control interval, at
/// least 100 ms, or 250 ms when there is none.
pub fn control_plan(applied: Option<&AppliedConfig>, owned: &OwnedFanSet) -> (r: ControlPlan)
    ensures
        ({
            let entries = match applied {
                Some(a) => controlled_entries(a@.fans, owned@),
                None => Seq::empty(),
            };
            &&& r.fans.deep_view() == entries.map_values(|e: (Seq<char>, AppliedFanEntryView)| e.0)
            &&& forall|k: Seq<char>|
                #![trigger r.fans.deep_view().contains(k)]
                r.fans.deep_view().contains(k) <==> (applied matches Some(a) && has_key(a@.fans, k) && has_key(
                    owned@,
                    k,
                ))
            &&& r.publish_cadence_ms == if entries.len() > 0 {
                let c = entries[0].1.cadence.control_interval_ms;
                if c >= MIN_PUBLISH_CADENCE_MS { c } else { MIN_PUBLISH_CADENCE_MS }
            } else {
                IDLE_PUBLISH_CADENCE_MS
            }
        }),
{
    let mut fans: Vec<String> = Vec::new();
    let mut cadence: u64 = IDLE_PUBLISH_CADENCE_MS;
    match applied {
        None => {
            assert(fans.deep_view() =~= Seq::<(Seq<char>, AppliedFanEntryView)>::empty().map_values(
                |e: (Seq<char>, AppliedFanEntryView)| e.0,
            ));
        },
        Some(a) => {
            let entries = a.fans.entries();
            let ghost ev = a@.fans;
            let mut i: usize = 0;
            while i < entries.len()
                invariant
                    entries.deep_view() == ev,
                    ev == a@.fans,
                    i <= ev.len(),
                    fans.deep_view() == controlled_entries(ev.take(i as int), owned@).map_values(
                        |e: (Seq<char>, AppliedFanEntryView)| e.0,
                    ),
                    cadence == if controlled_entries(ev.take(i as int), owned@).len() > 0 {
                        let c = controlled_entries(ev.take(i as int), owned@)[0].1.cadence.control_interval_ms;
                        if c >= MIN_PUBLISH_CADENCE_MS { c } else { MIN_PUBLISH_CADENCE_MS }
                    } else {
                        IDLE_PUBLISH_CADENCE_MS
                    },
                decreases entries.len() - i,
            {
                assert(ev.take(i + 1).drop_last() =~= ev.take(i as int));
                assert(ev.take(i + 1).last() == ev[i as int]);
                let ghost prev = controlled_entries(ev.take(i as int), owned@);
                if owned.owns(entries[i].0.as_str()) {
                    if fans.len() == 0 {
                        let c = entries[i].1.cadence.control_interval_ms;
                        cadence = if c >= MIN_PUBLISH_CADENCE_MS { c } else { MIN_PUBLISH_CADENCE_MS };
                    }
                    let ghost before = fans.deep_view();
                    fans.push(entries[i].0.clone());
                    assert(fans.deep_view() =~= before.push(ev[i as int].0));
                    assert(prev.push(ev[i as int]).map_values(|e: (Seq<char>, AppliedFanEntryView)| e.0)
                        =~= prev.map_values(|e: (Seq<char>, AppliedFanEntryView)| e.0).push(ev[i as int].0));
                    assert(prev.len() == 0 ==> prev.push(ev[i as int])[0] == ev[i as int]);
                    assert(prev.len() > 0 ==> prev.push(ev[i as int])[0] == prev[0]);
                }
                i = i + 1;
            }
            assert(ev.take(i as int) =~= ev);
            proof {
                assert forall|k: Seq<char>| #![trigger fans.deep_view().contains(k)]
                    fans.deep_view().contains(k) <==> (has_key(a@.fans, k) && has_key(owned@, k)) by {
                    law_every_owned_applied_fan_is_controlled(a@.fans, owned@, k);
                }
            }
        },
    }
    ControlPlan { fans, publish_cadence_ms: cadence }
}

/// Control law: a fan gets a control loop exactly when it is in the applied
/// configuration and owned, every such fan exactly once, in applied order.
pub proof fn law_every_owned_applied_fan_is_controlled(
    fans: Seq<(Seq<char>, AppliedFanEntryView)>,
    owned: Seq<(Seq<char>, (crate::inventory::ControlMode, Seq<char>))>,
    k: Seq<char>,
)
    requires
        crate::strmap::keys_distinct(fans),
    ensures
        controlled_entries(fans, owned).map_values(|e: (Seq<char>, AppliedFanEntryView)| e.0).contains(k) <==> (
        has_key(fans, k) && has_key(owned, k)),
        crate::strmap::keys_distinct(controlled_entries(fans, owned)),
        forall|i: int|
            0 <= i < controlled_entries(fans, owned).len() ==> has_key(
                owned,
                (#[trigger] controlled_entries(fans, owned)[i]).0,
            ) && fans.contains(controlled_entries(fans, owned)[i]),
    decreases fans.len(),
{
    let c = controlled_entries(fans, owned);
    let ids = c.map_values(|e: (Seq<char>, AppliedFanEntryView)| e.0);
    if fans.len() > 0 {
        let d = fans.drop_last();
        assert(crate::strmap::keys_distinct(d));
        law_every_owned_applied_fan_is_controlled(d, owned, k);
        let p = controlled_entries(d, owned);
        let pids = p.map_values(|e: (Seq<char>, AppliedFanEntryView)| e.0);
        let last = fans.last();
        assert(fans[fans.len() - 1] == last);
        crate::strmap::lemma_index_of_key(fans, k);
        crate::strmap::lemma_index_of_key(d, k);
        assert(has_key(fans, k) <==> (has_key(d, k) || last.0 == k)) by {
            if has_key(d, k) {
                let j = crate::strmap::index_of_key(d, k);
                assert(fans[j] == d[j]);
            }
            if has_key(fans, k) && last.0 != k {
                let j = crate::strmap::index_of_key(fans, k);
                assert(d[j] == fans[j]);
            }
        }
        assert forall|i: int| 0 <= i < p.len() implies fans.contains(#[trigger] p[i]) by {
            let j = choose|j: int| 0 <= j < d.len() && d[j] == p[i];
            assert(fans[j] == d[j]);
        }
        if has_key(owned, last.0) {
            assert(c == p.push(last));
            assert(ids =~= pids.push(last.0));
            assert(!has_key(d, last.0)) by {
                if has_key(d, last.0) {
                    let j = crate::strmap::index_of_key(d, last.0);
                    assert(fans[j].0 == fans[fans.len() - 1].0);
                }
            }
            assert forall|i: int| 0 <= i < p.len() implies (#[trigger] p[i]).0 != last.0 by {
                let j = choose|j: int| 0 <= j < d.len() && d[j] == p[i];
                crate::strmap::lemma_index_of_key(d, last.0);
            }
            if pids.contains(k) && k != last.0 {
            }
            assert(pids.contains(k) ==> ids.contains(k)) by {
                if pids.contains(k) {
                    let j = choose|j: int| 0 <= j < pids.len() && pids[j] == k;
                    assert(ids[j] == k);
                }
            }
            assert(ids.contains(k) ==> pids.contains(k) || k == last.0) by {
                if ids.contains(k) {
                    let j = choose|j: int| 0 <= j < ids.len() && ids[j] == k;
                    if j < pids.len() {
                        assert(pids[j] == k);
                    }
                }
            }
            assert(ids[ids.len() - 1] == last.0);
            assert forall|a: int, b: int| 0 <= a < c.len() && 0 <= b < c.len() && a != b implies c[a].0 != c[b].0 by {
                if a < p.len() && b < p.len() {
                    assert(c[a] == p[a] && c[b] == p[b]);
                } else if a < p.len() {
                    assert(c[a] == p[a]);
                } else if b < p.len() {
                    assert(c[b] == p[b]);
                }
            }
            assert forall|i: int| 0 <= i < c.len() implies has_key(owned, (#[trigger] c[i]).0) && fans.contains(c[i]) by {
                if i < p.len() {
                    assert(c[i] == p[i]);
                }
            }
        } else {
            assert(c == p);
        }
    } else {
        assert(ids =~= Seq::<Seq<char>>::empty());
    }
}

/// Adopts what boot reconciliation found: when it restored any fan, the
/// reconciled configuration (the restored fans only) becomes the applied
/// one and the persisted fallback incident is cleared. Returns whether the
/// configuration changed.
pub fn adopt_boot_result(config: &mut AppConfig, result: ReconcileResult) -> (r: bool)
    ensures
        r == (result@.restored.len() > 0),
        r ==> final(config)@ == (AppConfigView {
            applied: Some(result@.reconciled_config),
            fallback_incident: None,
            ..old(config)@
        }),
        !r ==> final(config)@ == old(config)@,
{
    if result.restored.len() > 0 {
        let ReconcileResult { reconciled_config, .. } = result;
        config.set_applied(reconciled_config);
        config.clear_fallback_incident();
        true
    } else {
        false
    }
}

/// The statuses after replacing the control data of every managed fan that
/// has live data.
pub open spec fn with_live_controls(
    statuses: Seq<(Seq<char>, FanRuntimeStatusView)>,
    live: Seq<(Seq<char>, ControlRuntimeSnapshotView)>,
) -> Seq<(Seq<char>, FanRuntimeStatusView)>
    decreases live.len(),
{
    if live.len() == 0 {
        statuses
    } else {
        let prev = with_live_controls(statuses, live.drop_last());
        let k = live.last().0;
        match lookup(prev, k) {
            Some(FanRuntimeStatusView::Managed { control_mode, .. }) => insert_entry(
                prev,
                k,
                FanRuntimeStatusView::Managed { control_mode, control: live.last().1 },
            ),
            _ => prev,
        }
    }
}

/// The runtime state with the live control data of the running loops in
/// place of the initial data of managed fans; other fans are unchanged.
pub fn runtime_state_with_live(state: RuntimeState, live: &StrMap<ControlRuntimeSnapshot>) -> (r: RuntimeState)
    ensures
        r@ == (RuntimeStateView {
            fan_statuses: with_live_controls(state@.fan_statuses, live@),
            owned_fans: state@.owned_fans,
        }),
{
    let RuntimeState { mut fan_statuses, owned_fans } = state;
    let ghost start = fan_statuses@;
    let entries = live.entries();
    let ghost lv = live@;
    let mut i: usize = 0;
    while i < entries.len()
        invariant
            entries.deep_view() == lv,
            lv == live@,
            i <= lv.len(),
            fan_statuses@ == with_live_controls(start, lv.take(i as int)),
        decreases entries.len() - i,
    {
        assert(lv.take(i + 1).drop_last() =~= lv.take(i as int));
        assert(lv.take(i + 1).last() == lv[i as int]);
        let fan_id = &entries[i].0;
        let mode = match fan_statuses.get(fan_id.as_str()) {
            Some(FanRuntimeStatus::Managed { control_mode, .. }) => Some(*control_mode),
            _ => None,
        };
        match mode {
            Some(control_mode) => {
                let control = entries[i].1.copy();
                fan_statuses.insert(fan_id.clone(), FanRuntimeStatus::Managed { control_mode, control });
            },
            None => {},
        }
        i = i + 1;
    }
    assert(lv.take(i as int) =~= lv);
    RuntimeState { fan_statuses, owned_fans }
}

/// What a fan's control loop does when reading its sensors fails.
#[derive(Clone, Copy, Debug, PartialEq, Eq, Structural)]
pub enum SampleFailureAction {
    /// End the running auto-tune with the failure and keep the loop going.
    FailAutoTune,
    /// Mark the fan degraded and stop its loop.
    DegradeAndStop,
}

/// On a failed sensor read, an auto-tuning fan fails its auto-tune and keeps
/// its loop; any other fan is degraded and its loop stops.
pub fn sample_failure_action(auto_tuning: bool) -> (r: SampleFailureAction)
    ensures
        r == if auto_tuning {
            SampleFailureAction::FailAutoTune
        } else {
            SampleFailureAction::DegradeAndStop
        },
{
    if auto_tuning {
        SampleFailureAction::FailAutoTune
    } else {
        SampleFailureAction::DegradeAndStop
    }
}

/// What a fan's control loop does at a write tick, before writing.
#[derive(Clone, Copy, Debug, PartialEq, Eq, Structural)]
pub enum WriteTickGate {
    /// The fan is no longer owned: clear its live status and stop.
    ClearAndStop,
    /// The fan is degraded: stop.
    Stop,
    /// Go on to write the output.
    Proceed,
}

/// At a write tick the loop stops, clearing the live status, once the fan is
/// no longer owned; otherwise it stops once the fan is degraded; otherwise
/// it writes.
pub fn write_tick_gate(owned: bool, degraded: bool) -> (r: WriteTickGate)
    ensures
        r == if !owned {
            WriteTickGate::ClearAndStop
        } else if degraded {
            WriteTickGate::Stop
        } else {
            WriteTickGate::Proceed
        },
{
    if !owned {
        WriteTickGate::ClearAndStop
    } else if degraded {
        WriteTickGate::Stop
    } else {
        WriteTickGate::Proceed
    }
}

/// The output (bit pattern of a percentage) to write at a write tick: full
/// output while auto-tuning, else the latest controller output, or none yet.
pub fn write_tick_output(auto_tuning: bool, latest_output_percent: Option<u64>) -> (r: Option<u64>)
    ensures
        r == if auto_tuning {
            Some(FULL_OUTPUT_PERCENT_BITS)
        } else {
            latest_output_percent
        },
{
    if auto_tuning {
        Some(FULL_OUTPUT_PERCENT_BITS)
    } else {
        latest_output_percent
    }
}

} // verus!
