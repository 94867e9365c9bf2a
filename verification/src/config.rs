//! Daemon-owned configuration: friendly names, the staged draft, the applied
//! (live) configuration and the persisted fallback incident.

use vstd::prelude::*;
use vstd::string::*;

use crate::control::{
    default_actuator_policy, default_cadence, default_pid_gains, default_pid_limits,
    ActuatorPolicy, AggregationFn, ControlCadence, PidGains, PidLimits,
};
use crate::inventory::ControlMode;
use crate::strmap::{group_strmap, insert_entry, lookup, remove_entry, StrMap};
use crate::inventory::chars_of;
use crate::text::{copy_opt_string, copy_strings, join_path, join_path_str, strings_contain, trim_range, trim_spec};

verus! {

broadcast use group_strmap;

/// Current schema version of the configuration file.
pub const CONFIG_VERSION: u32 = 1;

/// Default interval between re-assessments of degraded fans.
pub const DEFAULT_REASSESS_DEGRADED_INTERVAL_MS: u64 = 10000;

/// Target temperature an applied entry takes when the file has none (65 °C).
pub const DEFAULT_APPLIED_TARGET_TEMP_MILLIDEGREES: i64 = 65_000;

/// Deadband an entry takes when none is given (1 °C).
pub const DEFAULT_DEADBAND_MILLIDEGREES: i64 = 1_000;

/// The schema version a configuration without one takes.
pub fn default_version() -> (r: u32)
    ensures
        r == CONFIG_VERSION,
{
    CONFIG_VERSION
}

/// The re-assessment interval a configuration without one takes.
pub fn default_reassess_degraded_interval_ms() -> (r: u64)
    ensures
        r == DEFAULT_REASSESS_DEGRADED_INTERVAL_MS,
{
    DEFAULT_REASSESS_DEGRADED_INTERVAL_MS
}

/// The target temperature an applied entry without one takes.
pub fn default_applied_target_temp_millidegrees() -> (r: i64)
    ensures
        r == DEFAULT_APPLIED_TARGET_TEMP_MILLIDEGREES,
{
    DEFAULT_APPLIED_TARGET_TEMP_MILLIDEGREES
}

/// The deadband an applied entry without one takes.
pub fn default_applied_deadband_millidegrees() -> (r: i64)
    ensures
        r == DEFAULT_DEADBAND_MILLIDEGREES,
{
    DEFAULT_DEADBAND_MILLIDEGREES
}

/// Whether a loaded configuration's schema version can be used as it is:
/// versions newer than this library's need a migration and are refused.
pub fn config_version_supported(version: u32) -> (r: bool)
    ensures
        r == (version <= CONFIG_VERSION),
{
    version <= CONFIG_VERSION
}

/// The part of `s` before its first `:` (all of `s` when it has none).
pub open spec fn first_path_segment(s: Seq<char>) -> Seq<char>
    decreases s.len(),
{
    if s.len() == 0 {
        s
    } else if s[0] == ':' {
        Seq::empty()
    } else {
        seq![s[0]] + first_path_segment(s.drop_first())
    }
}

proof fn lemma_first_segment(s: Seq<char>, k: int)
    requires
        0 <= k <= s.len(),
        forall|j: int| 0 <= j < k ==> s[j] != ':',
        k == s.len() || s[k] == ':',
    ensures
        first_path_segment(s) == s.take(k),
    decreases s.len(),
{
    if k > 0 {
        lemma_first_segment(s.drop_first(), k - 1);
        assert(seq![s[0]] + s.drop_first().take(k - 1) =~= s.take(k));
    } else {
        assert(s.take(0) =~= Seq::<char>::empty());
    }
}

/// The state directory named by a `STATE_DIRECTORY` value: its first
/// `:`-separated entry, trimmed, when that is not empty.
pub open spec fn state_directory_spec(value: Option<Seq<char>>) -> Option<Seq<char>> {
    match value {
        Some(raw) => if trim_spec(first_path_segment(raw)).len() > 0 {
            Some(trim_spec(first_path_segment(raw)))
        } else {
            None
        },
        None => None,
    }
}

/// The state directory from the value of `STATE_DIRECTORY` (systemd may
/// list several directories separated by `:`; the first is used).
pub fn state_directory_from_env(value: Option<String>) -> (r: Option<String>)
    ensures
        r.deep_view() == state_directory_spec(value.deep_view()),
{
    match value {
        None => None,
        Some(raw) => {
            let chars = chars_of(raw.as_str());
            let mut k: usize = 0;
            while k < chars.len() && chars[k] != ':'
                invariant
                    k <= chars@.len(),
                    forall|j: int| 0 <= j < k ==> chars@[j] != ':',
                decreases chars.len() - k,
            {
                k = k + 1;
            }
            proof {
                lemma_first_segment(chars@, k as int);
                assert(chars@.subrange(0, k as int) =~= chars@.take(k as int));
            }
            let trimmed = trim_range(&chars, 0, k);
            if trimmed.unicode_len() == 0 {
                None
            } else {
                Some(trimmed)
            }
        },
    }
}

/// The directory of the daemon's persistent state: the `STATE_DIRECTORY`
/// entry when it names one, else `kde-fan-control` under the platform's
/// state directory (`/var/lib` when there is none).
pub open spec fn app_state_dir_spec(env_value: Option<Seq<char>>, platform_dir: Option<Seq<char>>) -> Seq<char> {
    match state_directory_spec(env_value) {
        Some(d) => d,
        None => join_path(
            match platform_dir {
                Some(p) => p,
                None => "/var/lib"@,
            },
            "kde-fan-control"@,
        ),
    }
}

/// The state directory from the value of `STATE_DIRECTORY` and the
/// platform's state (or local data) directory, both as the caller found them.
pub fn app_state_dir_from(env_value: Option<String>, platform_dir: Option<String>) -> (r: String)
    ensures
        r@ == app_state_dir_spec(env_value.deep_view(), platform_dir.deep_view()),
{
    match state_directory_from_env(env_value) {
        Some(d) => d,
        None => {
            let base = match platform_dir {
                Some(p) => p,
                None => "/var/lib".to_owned(),
            };
            join_path_str(base.as_str(), "kde-fan-control")
        },
    }
}

/// The configuration file in state directory `state_dir`.
pub fn config_path(state_dir: &str) -> (r: String)
    ensures
        r@ == join_path(state_dir@, "config.toml"@),
{
    join_path_str(state_dir, "config.toml")
}

/// User-assigned friendly names, keyed by sensor or fan id.
#[derive(Debug)]
pub struct FriendlyNames {
    pub sensors: StrMap<String>,
    pub fans: StrMap<String>,
}

impl Default for FriendlyNames {
    fn default() -> (r: Self)
        ensures
            r.sensors@.len() == 0,
            r.fans@.len() == 0,
    {
        FriendlyNames { sensors: StrMap::new(), fans: StrMap::new() }
    }
}

/// A fan's staged enrollment; absent settings resolve to defaults.
#[derive(Debug)]
pub struct DraftFanEntry {
    pub managed: bool,
    pub control_mode: Option<ControlMode>,
    pub temp_sources: Vec<String>,
    pub target_temp_millidegrees: Option<i64>,
    pub aggregation: Option<AggregationFn>,
    pub pid_gains: Option<PidGains>,
    pub cadence: Option<ControlCadence>,
    pub deadband_millidegrees: Option<i64>,
    pub actuator_policy: Option<ActuatorPolicy>,
    pub pid_limits: Option<PidLimits>,
}

pub struct DraftFanEntryView {
    pub managed: bool,
    pub control_mode: Option<ControlMode>,
    pub temp_sources: Seq<Seq<char>>,
    pub target_temp_millidegrees: Option<i64>,
    pub aggregation: Option<AggregationFn>,
    pub pid_gains: Option<PidGains>,
    pub cadence: Option<ControlCadence>,
    pub deadband_millidegrees: Option<i64>,
    pub actuator_policy: Option<ActuatorPolicy>,
    pub pid_limits: Option<PidLimits>,
}

impl View for DraftFanEntry {
    type V = DraftFanEntryView;

    open spec fn view(&self) -> DraftFanEntryView {
        DraftFanEntryView {
            managed: self.managed,
            control_mode: self.control_mode,
            temp_sources: self.temp_sources.deep_view(),
            target_temp_millidegrees: self.target_temp_millidegrees,
            aggregation: self.aggregation,
            pid_gains: self.pid_gains,
            cadence: self.cadence,
            deadband_millidegrees: self.deadband_millidegrees,
            actuator_policy: self.actuator_policy,
            pid_limits: self.pid_limits,
        }
    }
}

impl DeepView for DraftFanEntry {
    type V = DraftFanEntryView;

    open spec fn deep_view(&self) -> DraftFanEntryView {
        self@
    }
}

impl Default for DraftFanEntry {
    fn default() -> (r: Self)
        ensures
            !r.managed,
            r.control_mode is None,
            r.temp_sources@.len() == 0,
            r.target_temp_millidegrees is None,
            r.aggregation is None,
            r.pid_gains is None,
            r.cadence is None,
            r.deadband_millidegrees is None,
            r.actuator_policy is None,
            r.pid_limits is None,
    {
        DraftFanEntry {
            managed: false,
            control_mode: None,
            temp_sources: Vec::new(),
            target_temp_millidegrees: None,
            aggregation: None,
            pid_gains: None,
            cadence: None,
            deadband_millidegrees: None,
            actuator_policy: None,
            pid_limits: None,
        }
    }
}

impl DraftFanEntryView {
    pub open spec fn resolved_aggregation(self) -> AggregationFn {
        match self.aggregation {
            Some(a) => a,
            None => AggregationFn::Average,
        }
    }

    pub open spec fn resolved_pid_gains(self) -> PidGains {
        match self.pid_gains {
            Some(g) => g,
            None => default_pid_gains(),
        }
    }

    pub open spec fn resolved_cadence(self) -> ControlCadence {
        match self.cadence {
            Some(c) => c,
            None => default_cadence(),
        }
    }

    pub open spec fn resolved_deadband_millidegrees(self) -> i64 {
        match self.deadband_millidegrees {
            Some(d) => d,
            None => DEFAULT_DEADBAND_MILLIDEGREES,
        }
    }

    pub open spec fn resolved_actuator_policy(self) -> ActuatorPolicy {
        match self.actuator_policy {
            Some(p) => p,
            None => default_actuator_policy(),
        }
    }

    pub open spec fn resolved_pid_limits(self) -> PidLimits {
        match self.pid_limits {
            Some(l) => l,
            None => default_pid_limits(),
        }
    }
}

impl DraftFanEntry {
    /// The staged target temperature (there is no default for it).
    pub fn resolved_target_temp_millidegrees(&self) -> (r: Option<i64>)
        ensures
            r == self.target_temp_millidegrees,
    {
        self.target_temp_millidegrees
    }

    /// The staged aggregation, or average.
    pub fn resolved_aggregation(&self) -> (r: AggregationFn)
        ensures
            r == self@.resolved_aggregation(),
    {
        match self.aggregation {
            Some(a) => a,
            None => AggregationFn::default(),
        }
    }

    /// The staged gains, or the defaults.
    pub fn resolved_pid_gains(&self) -> (r: PidGains)
        ensures
            r == self@.resolved_pid_gains(),
    {
        match self.pid_gains {
            Some(g) => g,
            None => PidGains::default(),
        }
    }

    /// The staged cadence, or the default.
    pub fn resolved_cadence(&self) -> (r: ControlCadence)
        ensures
            r == self@.resolved_cadence(),
    {
        match self.cadence {
            Some(c) => c,
            None => ControlCadence::default(),
        }
    }

    /// The staged deadband, or 1 °C.
    pub fn resolved_deadband_millidegrees(&self) -> (r: i64)
        ensures
            r == self@.resolved_deadband_millidegrees(),
    {
        match self.deadband_millidegrees {
            Some(d) => d,
            None => DEFAULT_DEADBAND_MILLIDEGREES,
        }
    }

    /// The staged actuator policy, or the default.
    pub fn resolved_actuator_policy(&self) -> (r: ActuatorPolicy)
        ensures
            r == self@.resolved_actuator_policy(),
    {
        match self.actuator_policy {
            Some(p) => p,
            None => ActuatorPolicy::default(),
        }
    }

    /// The staged PID limits, or the defaults.
    pub fn resolved_pid_limits(&self) -> (r: PidLimits)
        ensures
            r == self@.resolved_pid_limits(),
    {
        match self.pid_limits {
            Some(l) => l,
            None => PidLimits::default(),
        }
    }

    /// A copy of the entry.
    pub fn copy(&self) -> (r: Self)
        ensures
            r@ == self@,
    {
        DraftFanEntry {
            managed: self.managed,
            control_mode: self.control_mode,
            temp_sources: copy_strings(&self.temp_sources),
            target_temp_millidegrees: self.target_temp_millidegrees,
            aggregation: self.aggregation,
            pid_gains: self.pid_gains,
            cadence: self.cadence,
            deadband_millidegrees: self.deadband_millidegrees,
            actuator_policy: self.actuator_policy,
            pid_limits: self.pid_limits,
        }
    }
}

/// Staged per-fan enrollment entries keyed by fan id.
#[derive(Debug)]
pub struct DraftConfig {
    pub fans: StrMap<DraftFanEntry>,
}

impl View for DraftConfig {
    type V = Seq<(Seq<char>, DraftFanEntryView)>;

    open spec fn view(&self) -> Seq<(Seq<char>, DraftFanEntryView)> {
        self.fans@
    }
}

impl Default for DraftConfig {
    fn default() -> (r: Self)
        ensures
            r.fans@.len() == 0,
    {
        DraftConfig { fans: StrMap::new() }
    }
}

/// A fan managed by the daemon under the applied configuration.
#[derive(Debug)]
pub struct AppliedFanEntry {
    pub control_mode: ControlMode,
    pub temp_sources: Vec<String>,
    pub target_temp_millidegrees: i64,
    pub aggregation: AggregationFn,
    pub pid_gains: PidGains,
    pub cadence: ControlCadence,
    pub deadband_millidegrees: i64,
    pub actuator_policy: ActuatorPolicy,
    pub pid_limits: PidLimits,
}

pub struct AppliedFanEntryView {
    pub control_mode: ControlMode,
    pub temp_sources: Seq<Seq<char>>,
    pub target_temp_millidegrees: i64,
    pub aggregation: AggregationFn,
    pub pid_gains: PidGains,
    pub cadence: ControlCadence,
    pub deadband_millidegrees: i64,
    pub actuator_policy: ActuatorPolicy,
    pub pid_limits: PidLimits,
}

impl View for AppliedFanEntry {
    type V = AppliedFanEntryView;

    open spec fn view(&self) -> AppliedFanEntryView {
        AppliedFanEntryView {
            control_mode: self.control_mode,
            temp_sources: self.temp_sources.deep_view(),
            target_temp_millidegrees: self.target_temp_millidegrees,
            aggregation: self.aggregation,
            pid_gains: self.pid_gains,
            cadence: self.cadence,
            deadband_millidegrees: self.deadband_millidegrees,
            actuator_policy: self.actuator_policy,
            pid_limits: self.pid_limits,
        }
    }
}

impl DeepView for AppliedFanEntry {
    type V = AppliedFanEntryView;

    open spec fn deep_view(&self) -> AppliedFanEntryView {
        self@
    }
}

impl AppliedFanEntry {
    /// A copy of the entry.
    pub fn copy(&self) -> (r: Self)
        ensures
            r@ == self@,
    {
        AppliedFanEntry {
            control_mode: self.control_mode,
            temp_sources: copy_strings(&self.temp_sources),
            target_temp_millidegrees: self.target_temp_millidegrees,
            aggregation: self.aggregation,
            pid_gains: self.pid_gains,
            cadence: self.cadence,
            deadband_millidegrees: self.deadband_millidegrees,
            actuator_policy: self.actuator_policy,
            pid_limits: self.pid_limits,
        }
    }
}

/// The applied configuration: managed fans keyed by id, and when it was applied.
#[derive(Debug)]
pub struct AppliedConfig {
    pub fans: StrMap<AppliedFanEntry>,
    pub applied_at: Option<String>,
}

pub struct AppliedConfigView {
    pub fans: Seq<(Seq<char>, AppliedFanEntryView)>,
    pub applied_at: Option<Seq<char>>,
}

impl View for AppliedConfig {
    type V = AppliedConfigView;

    open spec fn view(&self) -> AppliedConfigView {
        AppliedConfigView { fans: self.fans@, applied_at: self.applied_at.deep_view() }
    }
}

impl DeepView for AppliedConfig {
    type V = AppliedConfigView;

    open spec fn deep_view(&self) -> AppliedConfigView {
        self@
    }
}

/// A fan whose safe-maximum write failed during fallback.
#[derive(Debug, PartialEq, Eq)]
pub struct FallbackFailure {
    pub fan_id: String,
    pub error: String,
}

/// Durable record of a fallback incident.
#[derive(Debug, PartialEq, Eq)]
pub struct FallbackIncident {
    pub timestamp: String,
    pub affected_fans: Vec<String>,
    pub failed: Vec<FallbackFailure>,
    pub detail: Option<String>,
}

impl View for FallbackFailure {
    type V = (Seq<char>, Seq<char>);

    open spec fn view(&self) -> (Seq<char>, Seq<char>) {
        (self.fan_id@, self.error@)
    }
}

impl DeepView for FallbackFailure {
    type V = (Seq<char>, Seq<char>);

    open spec fn deep_view(&self) -> (Seq<char>, Seq<char>) {
        self@
    }
}

pub struct FallbackIncidentView {
    pub timestamp: Seq<char>,
    pub affected_fans: Seq<Seq<char>>,
    pub failed: Seq<(Seq<char>, Seq<char>)>,
    pub detail: Option<Seq<char>>,
}

impl View for FallbackIncident {
    type V = FallbackIncidentView;

    open spec fn view(&self) -> FallbackIncidentView {
        FallbackIncidentView {
            timestamp: self.timestamp@,
            affected_fans: self.affected_fans.deep_view(),
            failed: self.failed.deep_view(),
            detail: self.detail.deep_view(),
        }
    }
}

impl DeepView for FallbackIncident {
    type V = FallbackIncidentView;

    open spec fn deep_view(&self) -> FallbackIncidentView {
        self@
    }
}

/// The strings of `s` without repeats, each where it first occurs.
pub open spec fn distinct_in_order(s: Seq<Seq<char>>) -> Seq<Seq<char>>
    decreases s.len(),
{
    if s.len() == 0 {
        s
    } else if distinct_in_order(s.drop_last()).contains(s.last()) {
        distinct_in_order(s.drop_last())
    } else {
        distinct_in_order(s.drop_last()).push(s.last())
    }
}

impl FallbackIncident {
    /// The distinct fans the incident affected, in their recorded order.
    pub fn fallback_fan_ids(&self) -> (r: Vec<String>)
        ensures
            r.deep_view() == distinct_in_order(self.affected_fans.deep_view()),
            r.deep_view().no_duplicates(),
            r.deep_view().to_set() == self.affected_fans.deep_view().to_set(),
    {
        let ghost src = self.affected_fans.deep_view();
        let mut r: Vec<String> = Vec::new();
        let mut i: usize = 0;
        while i < self.affected_fans.len()
            invariant
                src == self.affected_fans.deep_view(),
                i <= src.len(),
                r.deep_view() == distinct_in_order(src.take(i as int)),
                r.deep_view().no_duplicates(),
                r.deep_view().to_set() == src.take(i as int).to_set(),
            decreases self.affected_fans.len() - i,
        {
            let id = &self.affected_fans[i];
            let ghost before = r.deep_view();
            assert(src.take(i + 1) =~= src.take(i as int).push(id@));
            assert(src.take(i + 1).drop_last() =~= src.take(i as int));
            if !strings_contain(&r, id.as_str()) {
                r.push(id.clone());
                assert(r.deep_view() =~= before.push(id@));
            }
            assert(r.deep_view().to_set() =~= src.take(i + 1).to_set()) by {
                before.lemma_push_to_set_commute(id@);
                src.take(i as int).lemma_push_to_set_commute(id@);
            }
            i = i + 1;
        }
        assert(src.take(i as int) =~= src);
        r
    }
}

/// The whole daemon-owned configuration.
#[derive(Debug)]
pub struct AppConfig {
    pub version: u32,
    pub friendly_names: FriendlyNames,
    pub draft: DraftConfig,
    pub applied: Option<AppliedConfig>,
    pub fallback_incident: Option<FallbackIncident>,
    pub reassess_degraded_interval_ms: u64,
}

impl Default for AppConfig {
    fn default() -> (r: Self)
        ensures
            r.version == CONFIG_VERSION,
            r.friendly_names.sensors@.len() == 0,
            r.friendly_names.fans@.len() == 0,
            r.draft.fans@.len() == 0,
            r.applied is None,
            r.fallback_incident is None,
            r.reassess_degraded_interval_ms == DEFAULT_REASSESS_DEGRADED_INTERVAL_MS,
    {
        AppConfig {
            version: CONFIG_VERSION,
            friendly_names: FriendlyNames::default(),
            draft: DraftConfig::default(),
            applied: None,
            fallback_incident: None,
            reassess_degraded_interval_ms: DEFAULT_REASSESS_DEGRADED_INTERVAL_MS,
        }
    }
}

pub struct AppConfigView {
    pub version: u32,
    pub sensor_names: Seq<(Seq<char>, Seq<char>)>,
    pub fan_names: Seq<(Seq<char>, Seq<char>)>,
    pub draft: Seq<(Seq<char>, DraftFanEntryView)>,
    pub applied: Option<AppliedConfigView>,
    pub fallback_incident: Option<FallbackIncidentView>,
    pub reassess_degraded_interval_ms: u64,
}

impl View for AppConfig {
    type V = AppConfigView;

    open spec fn view(&self) -> AppConfigView {
        AppConfigView {
            version: self.version,
            sensor_names: self.friendly_names.sensors@,
            fan_names: self.friendly_names.fans@,
            draft: self.draft.fans@,
            applied: self.applied.deep_view(),
            fallback_incident: self.fallback_incident.deep_view(),
            reassess_degraded_interval_ms: self.reassess_degraded_interval_ms,
        }
    }
}

impl AppConfig {
    /// Names sensor `id`.
    pub fn set_sensor_name(&mut self, id: &str, name: String)
        ensures
            final(self)@ == (AppConfigView {
                sensor_names: insert_entry(old(self)@.sensor_names, id@, name@),
                ..old(self)@
            }),
    {
        self.friendly_names.sensors.insert(id.to_owned(), name);
    }

    /// Names fan `id`.
    pub fn set_fan_name(&mut self, id: &str, name: String)
        ensures
            final(self)@ == (AppConfigView {
                fan_names: insert_entry(old(self)@.fan_names, id@, name@),
                ..old(self)@
            }),
    {
        self.friendly_names.fans.insert(id.to_owned(), name);
    }

    /// Removes the friendly name of sensor `id`.
    pub fn remove_sensor_name(&mut self, id: &str)
        ensures
            final(self)@ == (AppConfigView {
                sensor_names: remove_entry(old(self)@.sensor_names, id@),
                ..old(self)@
            }),
    {
        self.friendly_names.sensors.remove(id);
    }

    /// Removes the friendly name of fan `id`.
    pub fn remove_fan_name(&mut self, id: &str)
        ensures
            final(self)@ == (AppConfigView {
                fan_names: remove_entry(old(self)@.fan_names, id@),
                ..old(self)@
            }),
    {
        self.friendly_names.fans.remove(id);
    }

    /// The friendly name of sensor `id`.
    pub fn sensor_name(&self, id: &str) -> (r: Option<&str>)
        ensures
            r.deep_view() == lookup(self@.sensor_names, id@),
    {
        match self.friendly_names.sensors.get(id) {
            Some(s) => Some(s.as_str()),
            None => None,
        }
    }

    /// The friendly name of fan `id`.
    pub fn fan_name(&self, id: &str) -> (r: Option<&str>)
        ensures
            r.deep_view() == lookup(self@.fan_names, id@),
    {
        match self.friendly_names.fans.get(id) {
            Some(s) => Some(s.as_str()),
            None => None,
        }
    }

    /// Stages `entry` for fan `fan_id`, replacing any staged entry.
    pub fn set_draft_fan(&mut self, fan_id: &str, entry: DraftFanEntry)
        ensures
            final(self)@ == (AppConfigView {
                draft: insert_entry(old(self)@.draft, fan_id@, entry@),
                ..old(self)@
            }),
    {
        self.draft.fans.insert(fan_id.to_owned(), entry);
    }

    /// Removes fan `fan_id` from the draft.
    pub fn remove_draft_fan(&mut self, fan_id: &str)
        ensures
            final(self)@ == (AppConfigView {
                draft: remove_entry(old(self)@.draft, fan_id@),
                ..old(self)@
            }),
    {
        self.draft.fans.remove(fan_id);
    }

    /// The staged entry of fan `fan_id`.
    pub fn draft_fan(&self, fan_id: &str) -> (r: Option<&DraftFanEntry>)
        ensures
            r.deep_view() == lookup(self@.draft, fan_id@),
    {
        self.draft.fans.get(fan_id)
    }

    /// Replaces the applied configuration.
    pub fn set_applied(&mut self, applied: AppliedConfig)
        ensures
            final(self)@ == (AppConfigView { applied: Some(applied@), ..old(self)@ }),
    {
        self.applied = Some(applied);
    }

    /// Clears the applied configuration.
    pub fn clear_applied(&mut self)
        ensures
            final(self)@ == (AppConfigView { applied: None, ..old(self)@ }),
    {
        self.applied = None;
    }

    /// The applied configuration, if any.
    pub fn applied(&self) -> (r: Option<&AppliedConfig>)
        ensures
            r.deep_view() == self@.applied,
    {
        match &self.applied {
            Some(a) => Some(a),
            None => None,
        }
    }

    /// Replaces the persisted fallback incident.
    pub fn set_fallback_incident(&mut self, incident: FallbackIncident)
        ensures
            final(self)@ == (AppConfigView { fallback_incident: Some(incident@), ..old(self)@ }),
    {
        self.fallback_incident = Some(incident);
    }

    /// Clears the persisted fallback incident.
    pub fn clear_fallback_incident(&mut self)
        ensures
            final(self)@ == (AppConfigView { fallback_incident: None, ..old(self)@ }),
    {
        self.fallback_incident = None;
    }
}

} // verus!
