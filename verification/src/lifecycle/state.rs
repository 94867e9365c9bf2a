//! Degraded reasons, the degraded-fan state and the bounded lifecycle log.

use vstd::prelude::*;

use vstd::string::*;

use crate::inventory::{control_mode_name, support_state_name, ControlMode, SupportState};
use crate::text::{decimal, join, join_strings, push_decimal};
use crate::strmap::{
    group_strmap, has_key, insert_entry, keys_distinct, law_insert_then_lookup, law_remove_then_lookup, lookup,
    remove_entry, StrMap,
};

verus! {

broadcast use group_strmap;

/// Most events the lifecycle log keeps; older ones are dropped first.
pub const MAX_LIFECYCLE_EVENTS: usize = 64;

/// Why a fan is degraded, or what lifecycle step happened.
#[derive(Debug)]
pub enum DegradedReason {
    BootRestored { fan_id: String },
    BootReconciled { restored_count: u32 },
    FanMissing { fan_id: String },
    FanNoLongerEnrollable { fan_id: String, support_state: SupportState, reason: String },
    ControlModeUnavailable { fan_id: String, mode: ControlMode },
    TempSourceMissing { fan_id: String, temp_id: String },
    PartialBootRecovery { failed_count: u32, recovered_count: u32 },
    FallbackActive { affected_fans: Vec<String> },
    StaleSensorData { fan_id: String },
    FanRecovered { fan_id: String },
}

pub enum DegradedReasonView {
    BootRestored { fan_id: Seq<char> },
    BootReconciled { restored_count: u32 },
    FanMissing { fan_id: Seq<char> },
    FanNoLongerEnrollable { fan_id: Seq<char>, support_state: SupportState, reason: Seq<char> },
    ControlModeUnavailable { fan_id: Seq<char>, mode: ControlMode },
    TempSourceMissing { fan_id: Seq<char>, temp_id: Seq<char> },
    PartialBootRecovery { failed_count: u32, recovered_count: u32 },
    FallbackActive { affected_fans: Seq<Seq<char>> },
    StaleSensorData { fan_id: Seq<char> },
    FanRecovered { fan_id: Seq<char> },
}

impl View for DegradedReason {
    type V = DegradedReasonView;

    open spec fn view(&self) -> DegradedReasonView {
        match self {
            DegradedReason::BootRestored { fan_id } => DegradedReasonView::BootRestored { fan_id: fan_id@ },
            DegradedReason::BootReconciled { restored_count } =>
                DegradedReasonView::BootReconciled { restored_count: *restored_count },
            DegradedReason::FanMissing { fan_id } => DegradedReasonView::FanMissing { fan_id: fan_id@ },
            DegradedReason::FanNoLongerEnrollable { fan_id, support_state, reason } =>
                DegradedReasonView::FanNoLongerEnrollable {
                    fan_id: fan_id@,
                    support_state: *support_state,
                    reason: reason@,
                },
            DegradedReason::ControlModeUnavailable { fan_id, mode } =>
                DegradedReasonView::ControlModeUnavailable { fan_id: fan_id@, mode: *mode },
            DegradedReason::TempSourceMissing { fan_id, temp_id } =>
                DegradedReasonView::TempSourceMissing { fan_id: fan_id@, temp_id: temp_id@ },
            DegradedReason::PartialBootRecovery { failed_count, recovered_count } =>
                DegradedReasonView::PartialBootRecovery {
                    failed_count: *failed_count,
                    recovered_count: *recovered_count,
                },
            DegradedReason::FallbackActive { affected_fans } =>
                DegradedReasonView::FallbackActive { affected_fans: affected_fans.deep_view() },
            DegradedReason::StaleSensorData { fan_id } =>
                DegradedReasonView::StaleSensorData { fan_id: fan_id@ },
            DegradedReason::FanRecovered { fan_id } => DegradedReasonView::FanRecovered { fan_id: fan_id@ },
        }
    }
}

impl DeepView for DegradedReason {
    type V = DegradedReasonView;

    open spec fn deep_view(&self) -> DegradedReasonView {
        self@
    }
}

impl DegradedReasonView {
    /// Reasons that re-assessment can clear once the hardware returns.
    pub open spec fn is_recoverable(self) -> bool {
        match self {
            DegradedReasonView::TempSourceMissing { .. } => true,
            DegradedReasonView::StaleSensorData { .. } => true,
            DegradedReasonView::ControlModeUnavailable { .. } => true,
            _ => false,
        }
    }
}

impl DegradedReason {
    /// Whether re-assessment can recover a fan degraded for this reason: a
    /// missing sensor, stale sensor data or an unavailable control mode.
    pub fn is_recoverable(&self) -> (r: bool)
        ensures
            r == self@.is_recoverable(),
    {
        match self {
            DegradedReason::TempSourceMissing { .. } | DegradedReason::StaleSensorData { .. }
            | DegradedReason::ControlModeUnavailable { .. } => true,
            DegradedReason::FanMissing { .. } | DegradedReason::FanNoLongerEnrollable { .. }
            | DegradedReason::BootRestored { .. } | DegradedReason::BootReconciled { .. }
            | DegradedReason::PartialBootRecovery { .. } | DegradedReason::FallbackActive { .. }
            | DegradedReason::FanRecovered { .. } => false,
        }
    }

    /// A copy of the reason.
    pub fn copy(&self) -> (r: Self)
        ensures
            r@ == self@,
    {
        match self {
            DegradedReason::BootRestored { fan_id } => DegradedReason::BootRestored { fan_id: fan_id.clone() },
            DegradedReason::BootReconciled { restored_count } =>
                DegradedReason::BootReconciled { restored_count: *restored_count },
            DegradedReason::FanMissing { fan_id } => DegradedReason::FanMissing { fan_id: fan_id.clone() },
            DegradedReason::FanNoLongerEnrollable { fan_id, support_state, reason } =>
                DegradedReason::FanNoLongerEnrollable {
                    fan_id: fan_id.clone(),
                    support_state: *support_state,
                    reason: reason.clone(),
                },
            DegradedReason::ControlModeUnavailable { fan_id, mode } =>
                DegradedReason::ControlModeUnavailable { fan_id: fan_id.clone(), mode: *mode },
            DegradedReason::TempSourceMissing { fan_id, temp_id } =>
                DegradedReason::TempSourceMissing { fan_id: fan_id.clone(), temp_id: temp_id.clone() },
            DegradedReason::PartialBootRecovery { failed_count, recovered_count } =>
                DegradedReason::PartialBootRecovery {
                    failed_count: *failed_count,
                    recovered_count: *recovered_count,
                },
            DegradedReason::FallbackActive { affected_fans } =>
                DegradedReason::FallbackActive { affected_fans: crate::text::copy_strings(affected_fans) },
            DegradedReason::StaleSensorData { fan_id } =>
                DegradedReason::StaleSensorData { fan_id: fan_id.clone() },
            DegradedReason::FanRecovered { fan_id } => DegradedReason::FanRecovered { fan_id: fan_id.clone() },
        }
    }
}

/// The human-readable text of a degraded reason.
pub open spec fn degraded_reason_text(r: DegradedReasonView) -> Seq<char> {
    match r {
        DegradedReasonView::BootRestored { fan_id } => "fan '"@ + fan_id + "' restored as managed on boot"@,
        DegradedReasonView::BootReconciled { restored_count } =>
            "boot reconciliation restored "@ + decimal(restored_count as nat) + " managed fan(s)"@,
        DegradedReasonView::FanMissing { fan_id } => "fan '"@ + fan_id + "' missing from hardware"@,
        DegradedReasonView::FanNoLongerEnrollable { fan_id, support_state, reason } =>
            "fan '"@ + fan_id + "' no longer enrollable ("@ + support_state_name(support_state) + "): "@ + reason,
        DegradedReasonView::ControlModeUnavailable { fan_id, mode } =>
            "fan '"@ + fan_id + "' no longer supports control mode "@ + control_mode_name(mode),
        DegradedReasonView::TempSourceMissing { fan_id, temp_id } =>
            "temperature source '"@ + temp_id + "' for fan '"@ + fan_id + "' missing"@,
        DegradedReasonView::PartialBootRecovery { failed_count, recovered_count } =>
            "partial boot recovery: "@ + decimal(recovered_count as nat) + " recovered, "@ + decimal(
                failed_count as nat,
            ) + " failed"@,
        DegradedReasonView::FallbackActive { affected_fans } =>
            "fallback active for fans: "@ + join(affected_fans, ", "@),
        DegradedReasonView::StaleSensorData { fan_id } =>
            "fan '"@ + fan_id + "' produced no valid sensor data for an extended period"@,
        DegradedReasonView::FanRecovered { fan_id } => "fan '"@ + fan_id + "' recovered from degraded state"@,
    }
}

impl DegradedReason {
    /// The human-readable text of the reason (what `Display` writes).
    pub fn message(&self) -> (r: String)
        ensures
            r@ == degraded_reason_text(self@),
    {
        match self {
            DegradedReason::BootRestored { fan_id } =>
                "fan '".to_owned().concat(fan_id.as_str()).concat("' restored as managed on boot"),
            DegradedReason::BootReconciled { restored_count } => {
                let mut s = "boot reconciliation restored ".to_owned();
                push_decimal(&mut s, *restored_count as u64);
                s.concat(" managed fan(s)")
            },
            DegradedReason::FanMissing { fan_id } =>
                "fan '".to_owned().concat(fan_id.as_str()).concat("' missing from hardware"),
            DegradedReason::FanNoLongerEnrollable { fan_id, support_state, reason } =>
                "fan '".to_owned().concat(fan_id.as_str()).concat("' no longer enrollable (").concat(
                    support_state.debug_name(),
                ).concat("): ").concat(reason.as_str()),
            DegradedReason::ControlModeUnavailable { fan_id, mode } =>
                "fan '".to_owned().concat(fan_id.as_str()).concat("' no longer supports control mode ").concat(
                    mode.debug_name(),
                ),
            DegradedReason::TempSourceMissing { fan_id, temp_id } =>
                "temperature source '".to_owned().concat(temp_id.as_str()).concat("' for fan '").concat(
                    fan_id.as_str(),
                ).concat("' missing"),
            DegradedReason::PartialBootRecovery { failed_count, recovered_count } => {
                let mut s = "partial boot recovery: ".to_owned();
                push_decimal(&mut s, *recovered_count as u64);
                s.append(" recovered, ");
                push_decimal(&mut s, *failed_count as u64);
                s.concat(" failed")
            },
            DegradedReason::FallbackActive { affected_fans } => {
                let list = join_strings(affected_fans, ", ");
                "fallback active for fans: ".to_owned().concat(list.as_str())
            },
            DegradedReason::StaleSensorData { fan_id } =>
                "fan '".to_owned().concat(fan_id.as_str()).concat(
                    "' produced no valid sensor data for an extended period",
                ),
            DegradedReason::FanRecovered { fan_id } =>
                "fan '".to_owned().concat(fan_id.as_str()).concat("' recovered from degraded state"),
        }
    }
}

/// A copy of a list of reasons.
pub fn copy_reasons(v: &Vec<DegradedReason>) -> (r: Vec<DegradedReason>)
    ensures
        r.deep_view() == v.deep_view(),
{
    let mut r: Vec<DegradedReason> = Vec::new();
    let mut i: usize = 0;
    while i < v.len()
        invariant
            i <= v@.len(),
            r.deep_view() == v.deep_view().take(i as int),
        decreases v.len() - i,
    {
        let c = v[i].copy();
        let ghost before = r.deep_view();
        r.push(c);
        assert(r.deep_view() =~= before.push(c@));
        assert(r.deep_view() =~= v.deep_view().take(i + 1));
        i = i + 1;
    }
    assert(v.deep_view().take(i as int) =~= v.deep_view());
    r
}

/// A timestamped lifecycle event.
#[derive(Debug)]
pub struct LifecycleEvent {
    pub timestamp: String,
    pub reason: DegradedReason,
    pub detail: Option<String>,
}

pub struct LifecycleEventView {
    pub timestamp: Seq<char>,
    pub reason: DegradedReasonView,
    pub detail: Option<Seq<char>>,
}

impl View for LifecycleEvent {
    type V = LifecycleEventView;

    open spec fn view(&self) -> LifecycleEventView {
        LifecycleEventView { timestamp: self.timestamp@, reason: self.reason@, detail: self.detail.deep_view() }
    }
}

impl DeepView for LifecycleEvent {
    type V = LifecycleEventView;

    open spec fn deep_view(&self) -> LifecycleEventView {
        self@
    }
}

/// The events a log holds after appending `e`: the oldest event goes when
/// the log is full.
pub open spec fn log_push(events: Seq<LifecycleEventView>, e: LifecycleEventView) -> Seq<LifecycleEventView> {
    if events.len() >= MAX_LIFECYCLE_EVENTS {
        events.drop_first().push(e)
    } else {
        events.push(e)
    }
}

/// The lifecycle log after appending `new` events one by one.
pub open spec fn log_push_all(events: Seq<LifecycleEventView>, new: Seq<LifecycleEventView>) -> Seq<LifecycleEventView>
    decreases new.len(),
{
    if new.len() == 0 {
        events
    } else {
        log_push(log_push_all(events, new.drop_last()), new.last())
    }
}

/// Appending two batches of events is appending their concatenation.
pub proof fn lemma_log_push_all_append(
    events: Seq<LifecycleEventView>,
    a: Seq<LifecycleEventView>,
    b: Seq<LifecycleEventView>,
)
    ensures
        log_push_all(log_push_all(events, a), b) == log_push_all(events, a + b),
    decreases b.len(),
{
    if b.len() == 0 {
        assert(a + b =~= a);
    } else {
        lemma_log_push_all_append(events, a, b.drop_last());
        assert((a + b).drop_last() =~= a + b.drop_last());
        assert((a + b).last() == b.last());
    }
}

/// The log after appending `new` events of a full or partly full log: the
/// most recent `MAX_LIFECYCLE_EVENTS` of the old events followed by the new.
pub open spec fn keep_latest(s: Seq<LifecycleEventView>) -> Seq<LifecycleEventView> {
    if s.len() > MAX_LIFECYCLE_EVENTS {
        s.skip(s.len() - MAX_LIFECYCLE_EVENTS)
    } else {
        s
    }
}

/// Log law: appending events one by one to a log that holds at most
/// `MAX_LIFECYCLE_EVENTS` events leaves exactly the latest
/// `MAX_LIFECYCLE_EVENTS` of the old and new events, oldest first; the
/// oldest events are the ones dropped.
pub proof fn law_log_keeps_latest(events: Seq<LifecycleEventView>, new: Seq<LifecycleEventView>)
    requires
        events.len() <= MAX_LIFECYCLE_EVENTS,
    ensures
        log_push_all(events, new) == keep_latest(events + new),
        log_push_all(events, new).len() <= MAX_LIFECYCLE_EVENTS,
    decreases new.len(),
{
    if new.len() == 0 {
        assert(events + new =~= events);
    } else {
        law_log_keeps_latest(events, new.drop_last());
        let prev = events + new.drop_last();
        assert(events + new =~= prev.push(new.last()));
        if prev.len() >= MAX_LIFECYCLE_EVENTS {
            assert(keep_latest(prev).drop_first().push(new.last()) =~= keep_latest(prev.push(new.last())));
        } else {
            assert(keep_latest(prev).push(new.last()) =~= keep_latest(prev.push(new.last())));
        }
    }
}

/// Append-only lifecycle log holding at most `MAX_LIFECYCLE_EVENTS` events.
#[derive(Debug)]
pub struct LifecycleEventLog {
    events: Vec<LifecycleEvent>,
}

impl View for LifecycleEventLog {
    type V = Seq<LifecycleEventView>;

    closed spec fn view(&self) -> Seq<LifecycleEventView> {
        self.events.deep_view()
    }
}

impl Default for LifecycleEventLog {
    fn default() -> (r: Self)
        ensures
            r@ == Seq::<LifecycleEventView>::empty(),
    {
        LifecycleEventLog::new()
    }
}

impl LifecycleEventLog {
    #[verifier::type_invariant]
    closed spec fn bounded(self) -> bool {
        self.events@.len() <= MAX_LIFECYCLE_EVENTS
    }

    /// An empty log.
    pub fn new() -> (r: Self)
        ensures
            r@ == Seq::<LifecycleEventView>::empty(),
    {
        let r = LifecycleEventLog { events: Vec::new() };
        assert(r.events.deep_view() =~= Seq::<LifecycleEventView>::empty());
        r
    }

    /// Appends an event, dropping the oldest one when the log is full.
    pub fn push(&mut self, event: LifecycleEvent)
        ensures
            final(self)@ == log_push(old(self)@, event@),
            final(self)@.len() <= MAX_LIFECYCLE_EVENTS,
    {
        proof {
            use_type_invariant(&*self);
        }
        let ghost before = self@;
        let mut events: Vec<LifecycleEvent> = Vec::new();
        std::mem::swap(&mut events, &mut self.events);
        assert(events.deep_view() == before);
        if events.len() >= MAX_LIFECYCLE_EVENTS {
            events.remove(0);
            assert(events.deep_view() =~= before.drop_first());
        }
        let ghost mid = events.deep_view();
        let ghost ev = event@;
        events.push(event);
        assert(events.deep_view() =~= mid.push(ev));
        self.events = events;
    }

    /// The events, oldest first.
    pub fn events(&self) -> (r: &[LifecycleEvent])
        ensures
            r.deep_view() == self@,
    {
        self.events.as_slice()
    }

    /// Removes every event.
    pub fn clear(&mut self)
        ensures
            final(self)@ == Seq::<LifecycleEventView>::empty(),
    {
        self.events = Vec::new();
        assert(self.events.deep_view() =~= Seq::<LifecycleEventView>::empty());
    }

    /// Number of events held.
    pub fn len(&self) -> (r: usize)
        ensures
            r == self@.len(),
            r <= MAX_LIFECYCLE_EVENTS,
    {
        proof {
            use_type_invariant(self);
        }
        self.events.len()
    }

    /// Whether the log holds no event.
    pub fn is_empty(&self) -> (r: bool)
        ensures
            r == (self@.len() == 0),
    {
        self.events.len() == 0
    }
}

/// Degraded fans with the reasons each one is degraded.
#[derive(Debug)]
pub struct DegradedState {
    pub entries: StrMap<Vec<DegradedReason>>,
}

impl View for DegradedState {
    type V = Seq<(Seq<char>, Seq<DegradedReasonView>)>;

    open spec fn view(&self) -> Seq<(Seq<char>, Seq<DegradedReasonView>)> {
        self.entries@
    }
}

impl Default for DegradedState {
    fn default() -> (r: Self)
        ensures
            r@ == Seq::<(Seq<char>, Seq<DegradedReasonView>)>::empty(),
    {
        DegradedState::new()
    }
}

/// Whether some reason in `reasons` is recoverable.
pub open spec fn any_recoverable(reasons: Seq<DegradedReasonView>) -> bool {
    exists|i: int| 0 <= i < reasons.len() && #[trigger] reasons[i].is_recoverable()
}

impl DegradedState {
    /// No fan degraded.
    pub fn new() -> (r: Self)
        ensures
            r@ == Seq::<(Seq<char>, Seq<DegradedReasonView>)>::empty(),
    {
        DegradedState { entries: StrMap::new() }
    }

    /// Records fan `fan_id` as degraded for `reasons`, replacing earlier reasons.
    pub fn mark_degraded(&mut self, fan_id: String, reasons: Vec<DegradedReason>)
        ensures
            final(self)@ == insert_entry(old(self)@, fan_id@, reasons.deep_view()),
    {
        self.entries.insert(fan_id, reasons);
    }

    /// Clears fan `fan_id`.
    pub fn clear_fan(&mut self, fan_id: &str)
        ensures
            final(self)@ == remove_entry(old(self)@, fan_id@),
    {
        self.entries.remove(fan_id);
    }

    /// Clears every fan.
    pub fn clear_all(&mut self)
        ensures
            final(self)@ == Seq::<(Seq<char>, Seq<DegradedReasonView>)>::empty(),
    {
        self.entries.clear();
    }

    /// Whether any fan is degraded.
    pub fn has_degraded(&self) -> (r: bool)
        ensures
            r == (self@.len() > 0),
    {
        !self.entries.is_empty()
    }

    /// The degraded fans' ids, in the order they were marked.
    pub fn degraded_fan_ids(&self) -> (r: Vec<String>)
        ensures
            r.deep_view() == crate::strmap::keys_of(self@),
    {
        let entries = self.entries.entries();
        let mut r: Vec<String> = Vec::new();
        let mut i: usize = 0;
        while i < entries.len()
            invariant
                entries.deep_view() == self@,
                i <= self@.len(),
                r.deep_view() == crate::strmap::keys_of(self@.take(i as int)),
            decreases entries.len() - i,
        {
            let ghost before = r.deep_view();
            let c = entries[i].0.clone();
            r.push(c);
            assert(r.deep_view() =~= before.push(c@));
            assert(crate::strmap::keys_of(self@.take(i + 1)) =~= crate::strmap::keys_of(self@.take(i as int)).push(self@[i as int].0));
            assert(r.deep_view() =~= crate::strmap::keys_of(self@.take(i + 1)));
            i = i + 1;
        }
        assert(self@.take(i as int) =~= self@);
        r
    }

    /// Whether fan `fan_id` is degraded for at least one recoverable reason.
    pub fn is_fan_recoverable(&self, fan_id: &str) -> (r: bool)
        ensures
            r == match lookup(self@, fan_id@) {
                Some(reasons) => any_recoverable(reasons),
                None => false,
            },
    {
        match self.entries.get(fan_id) {
            None => false,
            Some(reasons) => {
                assert(lookup(self@, fan_id@) == Some(reasons.deep_view()));
                let mut i: usize = 0;
                while i < reasons.len()
                    invariant
                        i <= reasons@.len(),
                        lookup(self@, fan_id@) == Some(reasons.deep_view()),
                        forall|j: int| 0 <= j < i ==> !(#[trigger] reasons.deep_view()[j]).is_recoverable(),
                    decreases reasons.len() - i,
                {
                    if reasons[i].is_recoverable() {
                        assert(reasons.deep_view()[i as int].is_recoverable());
                        assert(any_recoverable(reasons.deep_view()));
                        return true;
                    }
                    i = i + 1;
                }
                false
            },
        }
    }
}

/// Degraded-state law: after marking a fan degraded its recorded reasons are
/// exactly the given ones; after clearing it, it is not degraded; neither
/// step changes what is recorded for any other fan.
pub proof fn law_mark_then_clear_degraded(
    degraded: Seq<(Seq<char>, Seq<DegradedReasonView>)>,
    fan_id: Seq<char>,
    reasons: Seq<DegradedReasonView>,
    other: Seq<char>,
)
    requires
        keys_distinct(degraded),
        other != fan_id,
    ensures
        lookup(insert_entry(degraded, fan_id, reasons), fan_id) == Some(reasons),
        !has_key(remove_entry(insert_entry(degraded, fan_id, reasons), fan_id), fan_id),
        lookup(insert_entry(degraded, fan_id, reasons), other) == lookup(degraded, other),
        lookup(remove_entry(degraded, fan_id), other) == lookup(degraded, other),
{
    law_insert_then_lookup(degraded, fan_id, reasons);
    law_remove_then_lookup(insert_entry(degraded, fan_id, reasons), fan_id);
    law_remove_then_lookup(degraded, fan_id);
}

} // verus!
