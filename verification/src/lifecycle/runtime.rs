//! Per-fan runtime status: unmanaged, managed (with live control data),
//! degraded or in fallback.

use vstd::prelude::*;

use crate::config::{AppliedConfig, AppliedConfigView, AppliedFanEntry, AppliedFanEntryView};
use crate::control::AggregationFn;
use crate::inventory::{find_fan, first_fan_in, ControlMode, FanChannelView, HwmonDeviceView, InventorySnapshot};
use crate::strmap::{group_strmap, has_key, insert_entry, keys_distinct, keys_of, law_insert_then_lookup, lookup, value_at_key, StrMap};
use crate::text::copy_strings;

use super::owned::OwnedFanSet;
use super::state::{copy_reasons, DegradedReasonView, DegradedState};

verus! {

broadcast use group_strmap;

/// Live control data of a managed fan. `logical_output_percent` is the bit
/// pattern of an `f64`.
#[derive(Debug)]
pub struct ControlRuntimeSnapshot {
    pub sensor_ids: Vec<String>,
    pub aggregation: AggregationFn,
    pub target_temp_millidegrees: i64,
    pub aggregated_temp_millidegrees: Option<i64>,
    pub logical_output_percent: Option<u64>,
    pub mapped_pwm: Option<u16>,
    pub auto_tuning: bool,
    pub alert_high_temp: bool,
    pub last_error_millidegrees: Option<i64>,
}

pub struct ControlRuntimeSnapshotView {
    pub sensor_ids: Seq<Seq<char>>,
    pub aggregation: AggregationFn,
    pub target_temp_millidegrees: i64,
    pub aggregated_temp_millidegrees: Option<i64>,
    pub logical_output_percent: Option<u64>,
    pub mapped_pwm: Option<u16>,
    pub auto_tuning: bool,
    pub alert_high_temp: bool,
    pub last_error_millidegrees: Option<i64>,
}

impl View for ControlRuntimeSnapshot {
    type V = ControlRuntimeSnapshotView;

    open spec fn view(&self) -> ControlRuntimeSnapshotView {
        ControlRuntimeSnapshotView {
            sensor_ids: self.sensor_ids.deep_view(),
            aggregation: self.aggregation,
            target_temp_millidegrees: self.target_temp_millidegrees,
            aggregated_temp_millidegrees: self.aggregated_temp_millidegrees,
            logical_output_percent: self.logical_output_percent,
            mapped_pwm: self.mapped_pwm,
            auto_tuning: self.auto_tuning,
            alert_high_temp: self.alert_high_temp,
            last_error_millidegrees: self.last_error_millidegrees,
        }
    }
}

impl DeepView for ControlRuntimeSnapshot {
    type V = ControlRuntimeSnapshotView;

    open spec fn deep_view(&self) -> ControlRuntimeSnapshotView {
        self@
    }
}

/// The control snapshot of a fan with no applied entry.
pub open spec fn default_control_snapshot() -> ControlRuntimeSnapshotView {
    ControlRuntimeSnapshotView {
        sensor_ids: Seq::empty(),
        aggregation: AggregationFn::Average,
        target_temp_millidegrees: 0,
        aggregated_temp_millidegrees: None,
        logical_output_percent: None,
        mapped_pwm: None,
        auto_tuning: false,
        alert_high_temp: false,
        last_error_millidegrees: None,
    }
}

/// The initial control snapshot of an applied entry: its sensors,
/// aggregation and target, with no reading yet.
pub open spec fn initial_control_snapshot(e: AppliedFanEntryView) -> ControlRuntimeSnapshotView {
    ControlRuntimeSnapshotView {
        sensor_ids: e.temp_sources,
        aggregation: e.aggregation,
        target_temp_millidegrees: e.target_temp_millidegrees,
        ..default_control_snapshot()
    }
}

impl Default for ControlRuntimeSnapshot {
    fn default() -> (r: Self)
        ensures
            r@ == default_control_snapshot(),
    {
        let r = ControlRuntimeSnapshot {
            sensor_ids: Vec::new(),
            aggregation: AggregationFn::Average,
            target_temp_millidegrees: 0,
            aggregated_temp_millidegrees: None,
            logical_output_percent: None,
            mapped_pwm: None,
            auto_tuning: false,
            alert_high_temp: false,
            last_error_millidegrees: None,
        };
        assert(r.sensor_ids.deep_view() =~= Seq::<Seq<char>>::empty());
        r
    }
}

impl ControlRuntimeSnapshot {
    /// A copy of the snapshot.
    pub fn copy(&self) -> (r: Self)
        ensures
            r@ == self@,
    {
        ControlRuntimeSnapshot {
            sensor_ids: copy_strings(&self.sensor_ids),
            aggregation: self.aggregation,
            target_temp_millidegrees: self.target_temp_millidegrees,
            aggregated_temp_millidegrees: self.aggregated_temp_millidegrees,
            logical_output_percent: self.logical_output_percent,
            mapped_pwm: self.mapped_pwm,
            auto_tuning: self.auto_tuning,
            alert_high_temp: self.alert_high_temp,
            last_error_millidegrees: self.last_error_millidegrees,
        }
    }

    /// The initial snapshot of a managed fan's applied entry.
    pub fn from_applied_entry(entry: &AppliedFanEntry) -> (r: Self)
        ensures
            r@ == initial_control_snapshot(entry@),
    {
        ControlRuntimeSnapshot {
            sensor_ids: copy_strings(&entry.temp_sources),
            aggregation: entry.aggregation,
            target_temp_millidegrees: entry.target_temp_millidegrees,
            aggregated_temp_millidegrees: None,
            logical_output_percent: None,
            mapped_pwm: None,
            auto_tuning: false,
            alert_high_temp: false,
            last_error_millidegrees: None,
        }
    }
}

/// A fan's runtime status.
#[derive(Debug)]
pub enum FanRuntimeStatus {
    Unmanaged,
    Managed { control_mode: ControlMode, control: ControlRuntimeSnapshot },
    Degraded { reasons: Vec<crate::lifecycle::state::DegradedReason> },
    Fallback,
}

pub enum FanRuntimeStatusView {
    Unmanaged,
    Managed { control_mode: ControlMode, control: ControlRuntimeSnapshotView },
    Degraded { reasons: Seq<DegradedReasonView> },
    Fallback,
}

impl View for FanRuntimeStatus {
    type V = FanRuntimeStatusView;

    open spec fn view(&self) -> FanRuntimeStatusView {
        match self {
            FanRuntimeStatus::Unmanaged => FanRuntimeStatusView::Unmanaged,
            FanRuntimeStatus::Managed { control_mode, control } =>
                FanRuntimeStatusView::Managed { control_mode: *control_mode, control: control@ },
            FanRuntimeStatus::Degraded { reasons } =>
                FanRuntimeStatusView::Degraded { reasons: reasons.deep_view() },
            FanRuntimeStatus::Fallback => FanRuntimeStatusView::Fallback,
        }
    }
}

impl DeepView for FanRuntimeStatus {
    type V = FanRuntimeStatusView;

    open spec fn deep_view(&self) -> FanRuntimeStatusView {
        self@
    }
}

/// Runtime status of every fan, and the owned fans.
#[derive(Debug)]
pub struct RuntimeState {
    pub fan_statuses: StrMap<FanRuntimeStatus>,
    pub owned_fans: Vec<String>,
}

pub struct RuntimeStateView {
    pub fan_statuses: Seq<(Seq<char>, FanRuntimeStatusView)>,
    pub owned_fans: Seq<Seq<char>>,
}

impl View for RuntimeState {
    type V = RuntimeStateView;

    open spec fn view(&self) -> RuntimeStateView {
        RuntimeStateView { fan_statuses: self.fan_statuses@, owned_fans: self.owned_fans.deep_view() }
    }
}

impl Default for RuntimeState {
    fn default() -> (r: Self)
        ensures
            r@.fan_statuses.len() == 0,
            r@.owned_fans.len() == 0,
    {
        RuntimeState::new()
    }
}

/// Every fan of the inventory, unmanaged.
pub open spec fn unmanaged_statuses(devices: Seq<HwmonDeviceView>) -> Seq<(Seq<char>, FanRuntimeStatusView)>
    decreases devices.len(),
{
    if devices.len() == 0 {
        Seq::empty()
    } else {
        unmanaged_fans(unmanaged_statuses(devices.drop_last()), devices.last().fans)
    }
}

/// `acc` with every fan of `fans` set unmanaged.
pub open spec fn unmanaged_fans(
    acc: Seq<(Seq<char>, FanRuntimeStatusView)>,
    fans: Seq<crate::inventory::FanChannelView>,
) -> Seq<(Seq<char>, FanRuntimeStatusView)>
    decreases fans.len(),
{
    if fans.len() == 0 {
        acc
    } else {
        insert_entry(unmanaged_fans(acc, fans.drop_last()), fans.last().id, FanRuntimeStatusView::Unmanaged)
    }
}

/// `acc` with every owned fan set managed, with the control snapshot of its
/// applied entry (or the default snapshot).
pub open spec fn managed_statuses(
    acc: Seq<(Seq<char>, FanRuntimeStatusView)>,
    owned: Seq<(Seq<char>, (ControlMode, Seq<char>))>,
    applied: Option<AppliedConfigView>,
) -> Seq<(Seq<char>, FanRuntimeStatusView)>
    decreases owned.len(),
{
    if owned.len() == 0 {
        acc
    } else {
        let k = owned.last().0;
        insert_entry(
            managed_statuses(acc, owned.drop_last(), applied),
            k,
            FanRuntimeStatusView::Managed { control_mode: owned.last().1.0, control: managed_control(applied, k) },
        )
    }
}

/// The control snapshot of managed fan `k`: that of its applied entry, or
/// the default one.
pub open spec fn managed_control(applied: Option<AppliedConfigView>, k: Seq<char>) -> ControlRuntimeSnapshotView {
    match applied {
        Some(a) => match lookup(a.fans, k) {
            Some(e) => initial_control_snapshot(e),
            None => default_control_snapshot(),
        },
        None => default_control_snapshot(),
    }
}

/// `acc` with every degraded fan set degraded with its reasons.
pub open spec fn degraded_statuses(
    acc: Seq<(Seq<char>, FanRuntimeStatusView)>,
    degraded: Seq<(Seq<char>, Seq<DegradedReasonView>)>,
) -> Seq<(Seq<char>, FanRuntimeStatusView)>
    decreases degraded.len(),
{
    if degraded.len() == 0 {
        acc
    } else {
        insert_entry(
            degraded_statuses(acc, degraded.drop_last()),
            degraded.last().0,
            FanRuntimeStatusView::Degraded { reasons: degraded.last().1 },
        )
    }
}

/// `acc` with every fallback fan set to fallback.
pub open spec fn fallback_statuses(
    acc: Seq<(Seq<char>, FanRuntimeStatusView)>,
    ids: Seq<Seq<char>>,
) -> Seq<(Seq<char>, FanRuntimeStatusView)>
    decreases ids.len(),
{
    if ids.len() == 0 {
        acc
    } else {
        insert_entry(fallback_statuses(acc, ids.drop_last()), ids.last(), FanRuntimeStatusView::Fallback)
    }
}

/// The runtime state: every inventory fan unmanaged, then owned fans
/// managed, then degraded fans degraded, then fallback fans in fallback;
/// a later step overrides an earlier one.
pub open spec fn build_spec(
    owned: Seq<(Seq<char>, (ControlMode, Seq<char>))>,
    applied: Option<AppliedConfigView>,
    degraded: Seq<(Seq<char>, Seq<DegradedReasonView>)>,
    fallback: Seq<Seq<char>>,
    devices: Seq<HwmonDeviceView>,
) -> RuntimeStateView {
    RuntimeStateView {
        fan_statuses: fallback_statuses(
            degraded_statuses(managed_statuses(unmanaged_statuses(devices), owned, applied), degraded),
            fallback,
        ),
        owned_fans: keys_of(owned),
    }
}

impl RuntimeState {
    /// No status and no owned fan.
    pub fn new() -> (r: Self)
        ensures
            r@.fan_statuses.len() == 0,
            r@.owned_fans.len() == 0,
    {
        RuntimeState { fan_statuses: StrMap::new(), owned_fans: Vec::new() }
    }

    /// Builds the runtime state from the inventory, the owned set, the
    /// applied configuration, the degraded state and the fallback fans.
    pub fn build(
        owned: &OwnedFanSet,
        applied: Option<&AppliedConfig>,
        degraded: &DegradedState,
        fallback_fan_ids: &Vec<String>,
        snapshot: &InventorySnapshot,
    ) -> (r: Self)
        ensures
            r@ == build_spec(owned@, applied.deep_view(), degraded@, fallback_fan_ids.deep_view(), snapshot@),
    {
        let mut statuses: StrMap<FanRuntimeStatus> = StrMap::new();
        let ghost dv = snapshot@;
        let mut d: usize = 0;
        while d < snapshot.devices.len()
            invariant
                dv == snapshot@,
                d <= dv.len(),
                statuses@ == unmanaged_statuses(dv.take(d as int)),
            decreases snapshot.devices.len() - d,
        {
            assert(dv.take(d + 1).drop_last() =~= dv.take(d as int));
            assert(dv.take(d + 1).last() == dv[d as int]);
            let fans = &snapshot.devices[d].fans;
            let ghost base = statuses@;
            let ghost fv = fans.deep_view();
            let mut j: usize = 0;
            while j < fans.len()
                invariant
                    fv == fans.deep_view(),
                    j <= fv.len(),
                    statuses@ == unmanaged_fans(base, fv.take(j as int)),
                decreases fans.len() - j,
            {
                assert(fv.take(j + 1).drop_last() =~= fv.take(j as int));
                statuses.insert(fans[j].id.clone(), FanRuntimeStatus::Unmanaged);
                j = j + 1;
            }
            assert(fv.take(j as int) =~= fv);
            d = d + 1;
        }
        assert(dv.take(d as int) =~= dv);
        let owned_ids = owned.owned_fan_ids();
        let ghost ov = owned@;
        let ghost after_unmanaged = statuses@;
        assert(owned_ids@.len() == ov.len()) by {
            assert(owned_ids.deep_view().len() == owned_ids@.len());
        }
        let mut i: usize = 0;
        while i < owned_ids.len()
            invariant
                ov == owned@,
                owned_ids.deep_view() == keys_of(ov),
                owned_ids@.len() == ov.len(),
                crate::strmap::keys_distinct(ov),
                i <= ov.len(),
                statuses@ == managed_statuses(after_unmanaged, ov.take(i as int), applied.deep_view()),
            decreases owned_ids.len() - i,
        {
            assert(ov.take(i + 1).drop_last() =~= ov.take(i as int));
            assert(ov.take(i + 1).last() == ov[i as int]);
            let fan_id = &owned_ids[i];
            assert(keys_of(ov)[i as int] == ov[i as int].0);
            assert(owned_ids.deep_view()[i as int] == fan_id@);
            assert(fan_id@ == ov[i as int].0);
            proof {
                crate::strmap::lemma_index_of_key(ov, fan_id@);
                assert(lookup(ov, fan_id@) == Some(ov[i as int].1));
            }
            match owned.control_mode(fan_id.as_str()) {
                Some(mode) => {
                    let control = match applied {
                        Some(config) => match config.fans.get(fan_id.as_str()) {
                            Some(entry) => ControlRuntimeSnapshot::from_applied_entry(entry),
                            None => ControlRuntimeSnapshot::default(),
                        },
                        None => ControlRuntimeSnapshot::default(),
                    };
                    statuses.insert(fan_id.clone(), FanRuntimeStatus::Managed { control_mode: mode, control });
                },
                None => {},
            }
            i = i + 1;
        }
        assert(ov.take(i as int) =~= ov);
        let entries = degraded.entries.entries();
        let ghost gv = degraded@;
        let ghost after_managed = statuses@;
        let mut k: usize = 0;
        while k < entries.len()
            invariant
                gv == degraded@,
                entries.deep_view() == gv,
                k <= gv.len(),
                statuses@ == degraded_statuses(after_managed, gv.take(k as int)),
            decreases entries.len() - k,
        {
            assert(gv.take(k + 1).drop_last() =~= gv.take(k as int));
            assert(gv.take(k + 1).last() == gv[k as int]);
            statuses.insert(entries[k].0.clone(), FanRuntimeStatus::Degraded { reasons: copy_reasons(&entries[k].1) });
            k = k + 1;
        }
        assert(gv.take(k as int) =~= gv);
        let ghost fb = fallback_fan_ids.deep_view();
        let ghost after_degraded = statuses@;
        let mut m: usize = 0;
        while m < fallback_fan_ids.len()
            invariant
                fb == fallback_fan_ids.deep_view(),
                m <= fb.len(),
                statuses@ == fallback_statuses(after_degraded, fb.take(m as int)),
            decreases fallback_fan_ids.len() - m,
        {
            assert(fb.take(m + 1).drop_last() =~= fb.take(m as int));
            statuses.insert(fallback_fan_ids[m].clone(), FanRuntimeStatus::Fallback);
            m = m + 1;
        }
        assert(fb.take(m as int) =~= fb);
        RuntimeState { fan_statuses: statuses, owned_fans: owned_ids }
    }
}

proof fn lemma_unmanaged_fans(acc: Seq<(Seq<char>, FanRuntimeStatusView)>, fans: Seq<FanChannelView>, k: Seq<char>)
    requires
        keys_distinct(acc),
    ensures
        keys_distinct(unmanaged_fans(acc, fans)),
        lookup(unmanaged_fans(acc, fans), k) == if first_fan_in(fans, k) is Some {
            Some(FanRuntimeStatusView::Unmanaged)
        } else {
            lookup(acc, k)
        },
    decreases fans.len(),
{
    if fans.len() > 0 {
        lemma_unmanaged_fans(acc, fans.drop_last(), k);
        law_insert_then_lookup(unmanaged_fans(acc, fans.drop_last()), fans.last().id, FanRuntimeStatusView::Unmanaged);
    }
}

proof fn lemma_unmanaged_statuses(devices: Seq<HwmonDeviceView>, k: Seq<char>)
    ensures
        keys_distinct(unmanaged_statuses(devices)),
        lookup(unmanaged_statuses(devices), k) == if find_fan(devices, k) is Some {
            Some(FanRuntimeStatusView::Unmanaged)
        } else {
            None
        },
    decreases devices.len(),
{
    if devices.len() > 0 {
        lemma_unmanaged_statuses(devices.drop_last(), k);
        lemma_unmanaged_fans(unmanaged_statuses(devices.drop_last()), devices.last().fans, k);
    }
}

proof fn lemma_managed_statuses(
    acc: Seq<(Seq<char>, FanRuntimeStatusView)>,
    owned: Seq<(Seq<char>, (ControlMode, Seq<char>))>,
    applied: Option<AppliedConfigView>,
    k: Seq<char>,
)
    requires
        keys_distinct(acc),
    ensures
        keys_distinct(managed_statuses(acc, owned, applied)),
        lookup(managed_statuses(acc, owned, applied), k) == if has_key(owned, k) {
            Some(FanRuntimeStatusView::Managed {
                control_mode: value_at_key(owned, k).0,
                control: managed_control(applied, k),
            })
        } else {
            lookup(acc, k)
        },
    decreases owned.len(),
{
    if owned.len() > 0 {
        lemma_managed_statuses(acc, owned.drop_last(), applied, k);
        let last = owned.last();
        law_insert_then_lookup(
            managed_statuses(acc, owned.drop_last(), applied),
            last.0,
            FanRuntimeStatusView::Managed { control_mode: last.1.0, control: managed_control(applied, last.0) },
        );
    }
}

proof fn lemma_degraded_statuses(
    acc: Seq<(Seq<char>, FanRuntimeStatusView)>,
    degraded: Seq<(Seq<char>, Seq<DegradedReasonView>)>,
    k: Seq<char>,
)
    requires
        keys_distinct(acc),
    ensures
        keys_distinct(degraded_statuses(acc, degraded)),
        lookup(degraded_statuses(acc, degraded), k) == if has_key(degraded, k) {
            Some(FanRuntimeStatusView::Degraded { reasons: value_at_key(degraded, k) })
        } else {
            lookup(acc, k)
        },
    decreases degraded.len(),
{
    if degraded.len() > 0 {
        lemma_degraded_statuses(acc, degraded.drop_last(), k);
        law_insert_then_lookup(
            degraded_statuses(acc, degraded.drop_last()),
            degraded.last().0,
            FanRuntimeStatusView::Degraded { reasons: degraded.last().1 },
        );
    }
}

proof fn lemma_fallback_statuses(acc: Seq<(Seq<char>, FanRuntimeStatusView)>, ids: Seq<Seq<char>>, k: Seq<char>)
    requires
        keys_distinct(acc),
    ensures
        keys_distinct(fallback_statuses(acc, ids)),
        lookup(fallback_statuses(acc, ids), k) == if ids.contains(k) {
            Some(FanRuntimeStatusView::Fallback)
        } else {
            lookup(acc, k)
        },
    decreases ids.len(),
{
    if ids.len() > 0 {
        lemma_fallback_statuses(acc, ids.drop_last(), k);
        law_insert_then_lookup(fallback_statuses(acc, ids.drop_last()), ids.last(), FanRuntimeStatusView::Fallback);
        if ids.drop_last().contains(k) {
            let j = choose|j: int| 0 <= j < ids.drop_last().len() && ids.drop_last()[j] == k;
            assert(ids[j] == k);
        }
        if ids.contains(k) && ids.last() != k {
            let j = choose|j: int| 0 <= j < ids.len() && ids[j] == k;
            assert(ids.drop_last()[j] == k);
        }
    }
}

/// Status precedence of the runtime state: a fallback fan is in fallback;
/// otherwise a degraded fan is degraded with its recorded reasons; otherwise
/// an owned fan is managed in its owned control mode with the control data of
/// its applied entry; otherwise a fan of the inventory is unmanaged; any other
/// id has no status.
pub proof fn law_runtime_status_precedence(
    owned: Seq<(Seq<char>, (ControlMode, Seq<char>))>,
    applied: Option<AppliedConfigView>,
    degraded: Seq<(Seq<char>, Seq<DegradedReasonView>)>,
    fallback: Seq<Seq<char>>,
    devices: Seq<HwmonDeviceView>,
    k: Seq<char>,
)
    ensures
        lookup(build_spec(owned, applied, degraded, fallback, devices).fan_statuses, k) == if fallback.contains(k) {
            Some(FanRuntimeStatusView::Fallback)
        } else if has_key(degraded, k) {
            Some(FanRuntimeStatusView::Degraded { reasons: value_at_key(degraded, k) })
        } else if has_key(owned, k) {
            Some(FanRuntimeStatusView::Managed {
                control_mode: value_at_key(owned, k).0,
                control: managed_control(applied, k),
            })
        } else if find_fan(devices, k) is Some {
            Some(FanRuntimeStatusView::Unmanaged)
        } else {
            None
        },
{
    let u = unmanaged_statuses(devices);
    lemma_unmanaged_statuses(devices, k);
    let m = managed_statuses(u, owned, applied);
    lemma_managed_statuses(u, owned, applied, k);
    let d = degraded_statuses(m, degraded);
    lemma_degraded_statuses(m, degraded, k);
    lemma_fallback_statuses(d, fallback, k);
}

} // verus!
