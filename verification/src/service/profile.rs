//! Client edits of a fan's staged control profile.

use vstd::prelude::*;

use crate::config::{AppConfig, AppConfigView, AppliedConfigView, DraftFanEntry, DraftFanEntryView};
use crate::control::{ActuatorPolicy, AggregationFn, ControlCadence, PidGains, PidLimits};
use crate::strmap::{group_strmap, has_key, insert_entry, lookup, value_at_key};
use crate::text::{copy_strings, signed_decimal};
use crate::validation::MAX_TARGET_TEMP_MILLIDEGREES;

use super::helpers::{draft_entry_from_applied, draft_from_applied};

verus! {

broadcast use group_strmap;

/// A partial update of a staged control profile. An outer `None` leaves a
/// setting alone; `Some(None)` clears it back to its default.
#[derive(Debug)]
pub struct DraftFanControlProfilePayload {
    pub temp_sources: Option<Vec<String>>,
    pub target_temp_millidegrees: Option<Option<i64>>,
    pub aggregation: Option<Option<AggregationFn>>,
    pub pid_gains: Option<Option<PidGains>>,
    pub cadence: Option<Option<ControlCadence>>,
    pub deadband_millidegrees: Option<Option<i64>>,
    pub actuator_policy: Option<Option<ActuatorPolicy>>,
    pub pid_limits: Option<Option<PidLimits>>,
}

pub struct DraftFanControlProfilePayloadView {
    pub temp_sources: Option<Seq<Seq<char>>>,
    pub target_temp_millidegrees: Option<Option<i64>>,
    pub aggregation: Option<Option<AggregationFn>>,
    pub pid_gains: Option<Option<PidGains>>,
    pub cadence: Option<Option<ControlCadence>>,
    pub deadband_millidegrees: Option<Option<i64>>,
    pub actuator_policy: Option<Option<ActuatorPolicy>>,
    pub pid_limits: Option<Option<PidLimits>>,
}

impl View for DraftFanControlProfilePayload {
    type V = DraftFanControlProfilePayloadView;

    open spec fn view(&self) -> DraftFanControlProfilePayloadView {
        DraftFanControlProfilePayloadView {
            temp_sources: self.temp_sources.deep_view(),
            target_temp_millidegrees: self.target_temp_millidegrees,
            aggregation: self.aggregation,
            pid_gains: self.pid_gains,
            cadence: self.cadence,
            deadband_millidegrees: self.deadband_millidegrees,
            actuator_policy: self.actuator_policy,
            pid_limits: self.pid_limits,
        }
    }
}

impl Default for DraftFanControlProfilePayload {
    fn default() -> (r: Self)
        ensures
            r@ == (DraftFanControlProfilePayloadView {
                temp_sources: None,
                target_temp_millidegrees: None,
                aggregation: None,
                pid_gains: None,
                cadence: None,
                deadband_millidegrees: None,
                actuator_policy: None,
                pid_limits: None,
            }),
    {
        DraftFanControlProfilePayload {
            temp_sources: None,
            target_temp_millidegrees: None,
            aggregation: None,
            pid_gains: None,
            cadence: None,
            deadband_millidegrees: None,
            actuator_policy: None,
            pid_limits: None,
        }
    }
}

/// Why a profile edit was refused: the fan has nothing to edit, or an
/// argument is invalid.
#[derive(Debug)]
pub enum ProfileError {
    NoProfile(String),
    InvalidArgs(String),
}

pub enum ProfileErrorView {
    NoProfile(Seq<char>),
    InvalidArgs(Seq<char>),
}

impl View for ProfileError {
    type V = ProfileErrorView;

    open spec fn view(&self) -> ProfileErrorView {
        match self {
            ProfileError::NoProfile(m) => ProfileErrorView::NoProfile(m@),
            ProfileError::InvalidArgs(m) => ProfileErrorView::InvalidArgs(m@),
        }
    }
}

pub open spec fn target_error_text(t: i64) -> Seq<char> {
    "target_temp_millidegrees "@ + signed_decimal(t as int) + " is out of bounds (must be 1..=150000)"@
}

/// The entry after applying the patch field by field in declaration order,
/// and the error of the first invalid field, if any (the fields before it
/// are applied, the rest are not): a target outside 1..=150000 m°C, or
/// gains or limits that are not all finite.
pub open spec fn patch_spec(e: DraftFanEntryView, p: DraftFanControlProfilePayloadView) -> (DraftFanEntryView, Option<Seq<char>>) {
    let e1 = match p.temp_sources {
        Some(v) => DraftFanEntryView { temp_sources: v, ..e },
        None => e,
    };
    match p.target_temp_millidegrees {
        Some(Some(t)) if t <= 0 || t > MAX_TARGET_TEMP_MILLIDEGREES => (e1, Some(target_error_text(t))),
        _ => {
            let e2 = match p.target_temp_millidegrees {
                Some(v) => DraftFanEntryView { target_temp_millidegrees: v, ..e1 },
                None => e1,
            };
            let e3 = match p.aggregation {
                Some(v) => DraftFanEntryView { aggregation: v, ..e2 },
                None => e2,
            };
            match p.pid_gains {
                Some(Some(g)) if !g.spec_is_finite() => (e3, Some(
                    "pid_gains contains non-finite values (NaN or Infinity)"@,
                )),
                _ => {
                    let e4 = match p.pid_gains {
                        Some(v) => DraftFanEntryView { pid_gains: v, ..e3 },
                        None => e3,
                    };
                    let e5 = match p.cadence {
                        Some(v) => DraftFanEntryView { cadence: v, ..e4 },
                        None => e4,
                    };
                    let e6 = match p.deadband_millidegrees {
                        Some(v) => DraftFanEntryView { deadband_millidegrees: v, ..e5 },
                        None => e5,
                    };
                    let e7 = match p.actuator_policy {
                        Some(v) => DraftFanEntryView { actuator_policy: v, ..e6 },
                        None => e6,
                    };
                    match p.pid_limits {
                        Some(Some(l)) if !l.spec_is_finite() => (e7, Some(
                            "pid_limits contains non-finite values (NaN or Infinity)"@,
                        )),
                        _ => (
                            match p.pid_limits {
                                Some(v) => DraftFanEntryView { pid_limits: v, ..e7 },
                                None => e7,
                            },
                            None,
                        ),
                    }
                },
            }
        },
    }
}

/// Applies a patch to an entry; see `patch_spec`.
pub fn apply_profile_patch(entry: &mut DraftFanEntry, patch: DraftFanControlProfilePayload) -> (r: Option<String>)
    ensures
        (final(entry)@, r.deep_view()) == patch_spec(old(entry)@, patch@),
{
    let ghost p = patch@;
    let DraftFanControlProfilePayload {
        temp_sources,
        target_temp_millidegrees,
        aggregation,
        pid_gains,
        cadence,
        deadband_millidegrees,
        actuator_policy,
        pid_limits,
    } = patch;
    if let Some(v) = temp_sources {
        entry.temp_sources = v;
    }
    if let Some(value) = target_temp_millidegrees {
        if let Some(t) = value {
            if t <= 0 || t > MAX_TARGET_TEMP_MILLIDEGREES {
                let mut s = "target_temp_millidegrees ".to_owned();
                crate::text::push_signed_decimal(&mut s, t);
                return Some(s.concat(" is out of bounds (must be 1..=150000)"));
            }
        }
        entry.target_temp_millidegrees = value;
    }
    if let Some(value) = aggregation {
        entry.aggregation = value;
    }
    if let Some(value) = pid_gains {
        if let Some(g) = value {
            if !g.is_finite() {
                return Some("pid_gains contains non-finite values (NaN or Infinity)".to_owned());
            }
        }
        entry.pid_gains = value;
    }
    if let Some(value) = cadence {
        entry.cadence = value;
    }
    if let Some(value) = deadband_millidegrees {
        entry.deadband_millidegrees = value;
    }
    if let Some(value) = actuator_policy {
        entry.actuator_policy = value;
    }
    if let Some(value) = pid_limits {
        if let Some(l) = value {
            if !l.is_finite() {
                return Some("pid_limits contains non-finite values (NaN or Infinity)".to_owned());
            }
        }
        entry.pid_limits = value;
    }
    None
}

/// The staged entry a profile edit of `fan_id` starts from: the staged one,
/// else one built from the applied entry, else none.
pub open spec fn profile_base(c: AppConfigView, fan_id: Seq<char>) -> Option<DraftFanEntryView> {
    if has_key(c.draft, fan_id) {
        Some(value_at_key(c.draft, fan_id))
    } else {
        match c.applied {
            Some(a) => match lookup(a.fans, fan_id) {
                Some(e) => Some(draft_from_applied(e)),
                None => None,
            },
            None => None,
        }
    }
}

/// The staged entry to edit for `fan_id`, if the fan has one or is applied.
fn profile_base_entry(config: &AppConfig, fan_id: &str) -> (r: Option<DraftFanEntry>)
    ensures
        r.deep_view() == profile_base(config@, fan_id@),
{
    match config.draft.fans.get(fan_id) {
        Some(e) => Some(e.copy()),
        None => match &config.applied {
            Some(a) => match a.fans.get(fan_id) {
                Some(e) => Some(draft_entry_from_applied(e)),
                None => None,
            },
            None => None,
        },
    }
}

/// Edits the staged control profile of `fan_id`: starting from its staged
/// entry, or from its applied settings when it has none, applies the patch
/// (see `patch_spec`) and stores the result in the draft. The fields before
/// an invalid one stay applied and stored. A fan with neither a staged nor
/// an applied entry is refused and nothing changes.
pub fn set_draft_fan_control_profile(
    config: &mut AppConfig,
    fan_id: &str,
    patch: DraftFanControlProfilePayload,
) -> (r: Result<(), ProfileError>)
    ensures
        match profile_base(old(config)@, fan_id@) {
            None => {
                &&& r matches Err(ProfileError::NoProfile(m))
                    && m@ == "fan '"@ + fan_id@ + "' has no existing draft or applied control profile"@
                &&& final(config)@ == old(config)@
            },
            Some(base) => {
                let (e, err) = patch_spec(base, patch@);
                &&& final(config)@ == (AppConfigView { draft: insert_entry(old(config)@.draft, fan_id@, e), ..old(config)@ })
                &&& match err {
                    None => r is Ok,
                    Some(m) => r matches Err(ProfileError::InvalidArgs(n)) && n@ == m,
                }
            },
        },
{
    match profile_base_entry(config, fan_id) {
        None => Err(
            ProfileError::NoProfile(
                "fan '".to_owned().concat(fan_id).concat("' has no existing draft or applied control profile"),
            ),
        ),
        Some(mut entry) => {
            let err = apply_profile_patch(&mut entry, patch);
            config.set_draft_fan(fan_id, entry);
            match err {
                None => Ok(()),
                Some(m) => Err(ProfileError::InvalidArgs(m)),
            }
        },
    }
}

/// Stages accepted auto-tune gains for applied fan `fan_id`: its staged
/// entry (created from the applied settings when missing) takes the gains.
/// A fan that is not applied is refused and nothing changes.
pub fn accept_auto_tune_gains(config: &mut AppConfig, fan_id: &str, gains: PidGains) -> (r: Result<(), String>)
    ensures
        match old(config)@.applied {
            Some(a) if has_key(a.fans, fan_id@) => {
                let base = if has_key(old(config)@.draft, fan_id@) {
                    value_at_key(old(config)@.draft, fan_id@)
                } else {
                    draft_from_applied(value_at_key(a.fans, fan_id@))
                };
                &&& r is Ok
                &&& final(config)@ == (AppConfigView {
                    draft: insert_entry(old(config)@.draft, fan_id@, DraftFanEntryView { pid_gains: Some(gains), ..base }),
                    ..old(config)@
                })
            },
            _ => {
                &&& r matches Err(m) && m@ == "fan '"@ + fan_id@ + "' is not managed by the applied config"@
                &&& final(config)@ == old(config)@
            },
        },
{
    let base = match &config.applied {
        Some(a) => match a.fans.get(fan_id) {
            Some(applied_entry) => match config.draft.fans.get(fan_id) {
                Some(e) => Some(e.copy()),
                None => Some(draft_entry_from_applied(applied_entry)),
            },
            None => None,
        },
        None => None,
    };
    match base {
        None => Err("fan '".to_owned().concat(fan_id).concat("' is not managed by the applied config")),
        Some(mut entry) => {
            entry.pid_gains = Some(gains);
            config.set_draft_fan(fan_id, entry);
            Ok(())
        },
    }
}

/// Profile-edit law: a patch is refused exactly when it sets a target
/// outside 1..=150000 m°C, or gains or limits that are not all finite. A
/// patch that is not refused sets every field it names to the value it
/// names and leaves every other field as it was.
pub proof fn law_patch_sets_requested_fields(e: DraftFanEntryView, p: DraftFanControlProfilePayloadView)
    ensures
        patch_spec(e, p).1 is Some <==> ((p.target_temp_millidegrees matches Some(Some(t)) && (t <= 0 || t > 150_000))
            || (p.pid_gains matches Some(Some(g)) && !g.spec_is_finite()) || (p.pid_limits matches Some(Some(l))
            && !l.spec_is_finite())),
        patch_spec(e, p).1 is None ==> {
            let r = patch_spec(e, p).0;
            &&& r.managed == e.managed
            &&& r.control_mode == e.control_mode
            &&& r.temp_sources == match p.temp_sources {
                Some(v) => v,
                None => e.temp_sources,
            }
            &&& r.target_temp_millidegrees == match p.target_temp_millidegrees {
                Some(v) => v,
                None => e.target_temp_millidegrees,
            }
            &&& r.aggregation == match p.aggregation {
                Some(v) => v,
                None => e.aggregation,
            }
            &&& r.pid_gains == match p.pid_gains {
                Some(v) => v,
                None => e.pid_gains,
            }
            &&& r.cadence == match p.cadence {
                Some(v) => v,
                None => e.cadence,
            }
            &&& r.deadband_millidegrees == match p.deadband_millidegrees {
                Some(v) => v,
                None => e.deadband_millidegrees,
            }
            &&& r.actuator_policy == match p.actuator_policy {
                Some(v) => v,
                None => e.actuator_policy,
            }
            &&& r.pid_limits == match p.pid_limits {
                Some(v) => v,
                None => e.pid_limits,
            }
        },
{
}

/// The same at the level of the configuration: after an edit that is not
/// refused, the staged entry of the fan carries every field the patch names
/// with the value it names, and its other fields from the entry it started
/// from.
pub proof fn law_profile_edit_stages_requested_fields(
    c: AppConfigView,
    fan_id: Seq<char>,
    p: DraftFanControlProfilePayloadView,
)
    requires
        crate::strmap::keys_distinct(c.draft),
    ensures
        profile_base(c, fan_id) matches Some(base) ==> (patch_spec(base, p).1 is None ==> {
            let staged = lookup(insert_entry(c.draft, fan_id, patch_spec(base, p).0), fan_id);
            &&& staged is Some
            &&& staged->0.cadence == match p.cadence {
                Some(v) => v,
                None => base.cadence,
            }
            &&& staged->0.pid_gains == match p.pid_gains {
                Some(v) => v,
                None => base.pid_gains,
            }
            &&& staged->0.target_temp_millidegrees == match p.target_temp_millidegrees {
                Some(v) => v,
                None => base.target_temp_millidegrees,
            }
            &&& staged->0.temp_sources == match p.temp_sources {
                Some(v) => v,
                None => base.temp_sources,
            }
        }),
{
    if let Some(base) = profile_base(c, fan_id) {
        law_patch_sets_requested_fields(base, p);
        crate::strmap::law_insert_then_lookup(c.draft, fan_id, patch_spec(base, p).0);
    }
}

} // verus!
