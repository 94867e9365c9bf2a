//! Safe-maximum fallback records.
//!
//! Every owned fan must have a fallback attempted (PWM enable set to manual
//! and PWM set to 255) before the daemon stops. The writes themselves are
//! I/O; this module turns their outcome into the persisted incident and the
//! lifecycle event.

use vstd::prelude::*;

use crate::config::{FallbackFailure, FallbackIncident, FallbackIncidentView};
use crate::inventory::ControlMode;
use crate::strmap::{group_strmap, keys_of, lookup};
use crate::text::{copy_opt_string, copy_strings, sort_strings, sorted_strings, strings_sorted};

use super::owned::OwnedFanSet;
use super::state::{DegradedReason, DegradedReasonView, LifecycleEvent, LifecycleEventView};

verus! {

broadcast use group_strmap;

/// PWM value of the safe maximum.
pub const PWM_SAFE_MAX: u32 = 255;

/// `pwm_enable` value that selects manual control.
pub const PWM_ENABLE_MANUAL: u32 = 1;

/// Outcome of a fallback pass: fans driven to safe maximum, and fans whose
/// write failed with the error text.
#[derive(Debug)]
pub struct FallbackResult {
    pub succeeded: Vec<String>,
    pub failed: Vec<(String, String)>,
}

impl View for FallbackResult {
    type V = (Seq<Seq<char>>, Seq<(Seq<char>, Seq<char>)>);

    open spec fn view(&self) -> (Seq<Seq<char>>, Seq<(Seq<char>, Seq<char>)>) {
        (self.succeeded.deep_view(), self.failed.deep_view())
    }
}

impl FallbackResult {
    /// Whether every write succeeded.
    pub fn all_succeeded(&self) -> (r: bool)
        ensures
            r == (self@.1.len() == 0),
    {
        self.failed.len() == 0
    }
}

fn copy_failures(failed: &Vec<(String, String)>) -> (r: Vec<FallbackFailure>)
    ensures
        r.deep_view() == failed.deep_view(),
{
    let mut r: Vec<FallbackFailure> = Vec::new();
    let mut i: usize = 0;
    while i < failed.len()
        invariant
            i <= failed@.len(),
            r.deep_view() == failed.deep_view().take(i as int),
        decreases failed.len() - i,
    {
        let f = FallbackFailure { fan_id: failed[i].0.clone(), error: failed[i].1.clone() };
        let ghost before = r.deep_view();
        let ghost fv = f@;
        r.push(f);
        assert(r.deep_view() =~= before.push(fv));
        assert(r.deep_view() =~= failed.deep_view().take(i + 1));
        i = i + 1;
    }
    assert(failed.deep_view().take(i as int) =~= failed.deep_view());
    r
}

impl FallbackIncident {
    /// The incident of a fallback pass: every owned fan, in lexicographic
    /// order, as affected, and every failed write as a failure.
    pub fn from_owned_and_result(
        timestamp: String,
        owned: &OwnedFanSet,
        result: &FallbackResult,
        detail: Option<String>,
    ) -> (r: Self)
        ensures
            r@.timestamp == timestamp@,
            r@.affected_fans == sorted_strings(keys_of(owned@)),
            strings_sorted(r@.affected_fans),
            r@.affected_fans.to_multiset() == keys_of(owned@).to_multiset(),
            r@.failed == result@.1,
            r@.detail == detail.deep_view(),
    {
        let affected_fans = sort_strings(owned.owned_fan_ids());
        FallbackIncident { timestamp, affected_fans, failed: copy_failures(&result.failed), detail }
    }
}

/// The lifecycle event that records an incident: fallback active for the
/// affected fans, with the incident's timestamp and detail.
pub fn lifecycle_event_from_fallback_incident(incident: &FallbackIncident) -> (r: LifecycleEvent)
    ensures
        r@ == (LifecycleEventView {
            timestamp: incident@.timestamp,
            reason: DegradedReasonView::FallbackActive { affected_fans: incident@.affected_fans },
            detail: incident@.detail,
        }),
{
    LifecycleEvent {
        timestamp: incident.timestamp.clone(),
        reason: DegradedReason::FallbackActive { affected_fans: copy_strings(&incident.affected_fans) },
        detail: copy_opt_string(&incident.detail),
    }
}

/// The fans whose fallback write failed, with the error.
pub open spec fn failed_writes(outcomes: Seq<(Seq<char>, Option<Seq<char>>)>) -> Seq<(Seq<char>, Seq<char>)>
    decreases outcomes.len(),
{
    if outcomes.len() == 0 {
        Seq::empty()
    } else {
        let prev = failed_writes(outcomes.drop_last());
        match outcomes.last().1 {
            None => prev,
            Some(e) => prev.push((outcomes.last().0, e)),
        }
    }
}

/// The fans whose fallback write succeeded, in order.
pub open spec fn succeeded_writes(outcomes: Seq<(Seq<char>, Option<Seq<char>>)>) -> Seq<Seq<char>>
    decreases outcomes.len(),
{
    if outcomes.len() == 0 {
        Seq::empty()
    } else {
        let prev = succeeded_writes(outcomes.drop_last());
        match outcomes.last().1 {
            None => prev.push(outcomes.last().0),
            Some(_) => prev,
        }
    }
}

/// One safe-maximum write: the fan, its PWM node, and the node that
/// selects manual control.
#[derive(Debug)]
pub struct FallbackWrite {
    pub fan_id: String,
    pub pwm_path: String,
    pub enable_path: String,
}

impl View for FallbackWrite {
    type V = (Seq<char>, Seq<char>, Seq<char>);

    open spec fn view(&self) -> (Seq<char>, Seq<char>, Seq<char>) {
        (self.fan_id@, self.pwm_path@, self.enable_path@)
    }
}

impl DeepView for FallbackWrite {
    type V = (Seq<char>, Seq<char>, Seq<char>);

    open spec fn deep_view(&self) -> (Seq<char>, Seq<char>, Seq<char>) {
        self@
    }
}

/// The writes of a fallback pass: every owned fan once, in claim order, at
/// its PWM node and that node's `_enable` node.
pub open spec fn fallback_plan(
    owned: Seq<(Seq<char>, (ControlMode, Seq<char>))>,
) -> Seq<(Seq<char>, Seq<char>, Seq<char>)> {
    owned.map_values(|e: (Seq<char>, (ControlMode, Seq<char>))| (e.0, e.1.1, e.1.1 + "_enable"@))
}

/// The writes that drive every owned fan to safe maximum: each owned fan
/// once, with `PWM_ENABLE_MANUAL` for its `_enable` node and
/// `PWM_SAFE_MAX` for its PWM node.
pub fn fallback_write_plan(owned: &OwnedFanSet) -> (r: Vec<FallbackWrite>)
    ensures
        r.deep_view() == fallback_plan(owned@),
{
    let ids = owned.owned_fan_ids();
    let ghost ov = owned@;
    assert(ids.deep_view().len() == ids@.len());
    let mut plan: Vec<FallbackWrite> = Vec::new();
    let mut i: usize = 0;
    while i < ids.len()
        invariant
            ov == owned@,
            ids.deep_view() == keys_of(ov),
            crate::strmap::keys_distinct(ov),
            ids@.len() == ov.len(),
            i <= ov.len(),
            plan.deep_view() == fallback_plan(ov.take(i as int)),
        decreases ids.len() - i,
    {
        assert(ids.deep_view()[i as int] == ov[i as int].0);
        assert(lookup(ov, ov[i as int].0) == Some(ov[i as int].1));
        let ghost before = plan.deep_view();
        match owned.sysfs_path(ids[i].as_str()) {
            Some(path) => {
                let w = FallbackWrite {
                    fan_id: ids[i].clone(),
                    pwm_path: path.to_string(),
                    enable_path: path.to_string().concat("_enable"),
                };
                let ghost wv = w@;
                plan.push(w);
                assert(plan.deep_view() =~= before.push(wv));
            },
            None => {},
        }
        assert(ov.take(i + 1) =~= ov.take(i as int).push(ov[i as int]));
        assert(fallback_plan(ov.take(i + 1)) =~= before.push(
            (ov[i as int].0, ov[i as int].1.1, ov[i as int].1.1 + "_enable"@),
        ));
        i = i + 1;
    }
    assert(ov.take(i as int) =~= ov);
    plan
}

/// The outcome of a fallback pass from each write's outcome (`None` when the
/// safe-maximum write succeeded, else the error): the fans that succeeded and
/// the fans that failed with their error, both in order.
pub fn fallback_result_from_outcomes(outcomes: &Vec<(String, Option<String>)>) -> (r: FallbackResult)
    ensures
        r@ == (succeeded_writes(outcomes.deep_view()), failed_writes(outcomes.deep_view())),
{
    let ghost ov = outcomes.deep_view();
    let mut succeeded: Vec<String> = Vec::new();
    let mut failed: Vec<(String, String)> = Vec::new();
    let mut i: usize = 0;
    while i < outcomes.len()
        invariant
            ov == outcomes.deep_view(),
            i <= ov.len(),
            succeeded.deep_view() == succeeded_writes(ov.take(i as int)),
            failed.deep_view() == failed_writes(ov.take(i as int)),
        decreases outcomes.len() - i,
    {
        assert(ov.take(i + 1).drop_last() =~= ov.take(i as int));
        assert(ov.take(i + 1).last() == ov[i as int]);
        match &outcomes[i].1 {
            None => {
                let ghost before = succeeded.deep_view();
                succeeded.push(outcomes[i].0.clone());
                assert(succeeded.deep_view() =~= before.push(ov[i as int].0));
            },
            Some(e) => {
                let ghost before = failed.deep_view();
                failed.push((outcomes[i].0.clone(), e.clone()));
                assert(failed.deep_view() =~= before.push((ov[i as int].0, e@)));
            },
        }
        i = i + 1;
    }
    assert(ov.take(i as int) =~= ov);
    FallbackResult { succeeded, failed }
}

} // verus!
