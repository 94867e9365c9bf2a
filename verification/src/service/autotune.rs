//! Decisions of the auto-tune cycle: when a run may start, how a run
//! collects samples and when its observation window is over, what the
//! observed response lag is, and whether a result can be accepted.

use vstd::prelude::*;

verus! {

/// One temperature observation of an auto-tune run.
#[derive(Clone, Copy, Debug, PartialEq, Eq, Structural)]
pub struct AutoTuneSample {
    pub elapsed_ms: u64,
    pub aggregated_temp_millidegrees: i64,
}

/// Where a fan's auto-tune cycle stands.
#[derive(Clone, Copy, Debug, PartialEq, Eq, Structural)]
pub enum AutoTunePhase {
    Idle,
    Running,
    Completed,
    Failed,
}

/// Why an auto-tune run cannot start, checked in order: the fan must be in
/// the applied configuration, owned, have live control state, and not be
/// auto-tuning already.
pub open spec fn start_error_spec(
    fan_id: Seq<char>,
    managed: bool,
    owned: bool,
    has_live_status: bool,
    phase: AutoTunePhase,
) -> Option<Seq<char>> {
    if !managed {
        Some("fan '"@ + fan_id + "' is not managed by the applied config"@)
    } else if !owned {
        Some("fan '"@ + fan_id + "' is not currently owned by the daemon"@)
    } else if !has_live_status {
        Some("fan '"@ + fan_id + "' is missing live control state"@)
    } else if phase == AutoTunePhase::Running {
        Some("fan '"@ + fan_id + "' is already auto-tuning"@)
    } else {
        None
    }
}

/// The reason an auto-tune run of `fan_id` cannot start, if any.
pub fn auto_tune_start_error(
    fan_id: &str,
    managed: bool,
    owned: bool,
    has_live_status: bool,
    phase: AutoTunePhase,
) -> (r: Option<String>)
    ensures
        r.deep_view() == start_error_spec(fan_id@, managed, owned, has_live_status, phase),
{
    if !managed {
        Some("fan '".to_owned().concat(fan_id).concat("' is not managed by the applied config"))
    } else if !owned {
        Some("fan '".to_owned().concat(fan_id).concat("' is not currently owned by the daemon"))
    } else if !has_live_status {
        Some("fan '".to_owned().concat(fan_id).concat("' is missing live control state"))
    } else if phase == AutoTunePhase::Running {
        Some("fan '".to_owned().concat(fan_id).concat("' is already auto-tuning"))
    } else {
        None
    }
}

/// Why the result of an auto-tune run cannot be accepted: only a completed
/// run has a proposal.
pub open spec fn acceptance_error_spec(fan_id: Seq<char>, phase: AutoTunePhase, failure: Seq<char>) -> Option<Seq<char>> {
    match phase {
        AutoTunePhase::Completed => None,
        AutoTunePhase::Failed => Some("auto-tune failed for '"@ + fan_id + "': "@ + failure),
        AutoTunePhase::Running => Some("auto-tune is still running for '"@ + fan_id + "'"@),
        AutoTunePhase::Idle => Some("no auto-tune result is available for '"@ + fan_id + "'"@),
    }
}

/// The reason the auto-tune result of `fan_id` cannot be accepted, if any;
/// `failure` is the error of a failed run.
pub fn auto_tune_acceptance_error(fan_id: &str, phase: AutoTunePhase, failure: &str) -> (r: Option<String>)
    ensures
        r.deep_view() == acceptance_error_spec(fan_id@, phase, failure@),
{
    match phase {
        AutoTunePhase::Completed => None,
        AutoTunePhase::Failed => Some("auto-tune failed for '".to_owned().concat(fan_id).concat("': ").concat(failure)),
        AutoTunePhase::Running => Some("auto-tune is still running for '".to_owned().concat(fan_id).concat("'")),
        AutoTunePhase::Idle => Some("no auto-tune result is available for '".to_owned().concat(fan_id).concat("'")),
    }
}

/// Temperature change, in m°C, that marks the end of the response lag.
pub const LAG_THRESHOLD_MILLIDEGREES: i64 = 500;

/// Index of the first sample from `from` on whose temperature differs from
/// `baseline` by at least the lag threshold, or `s.len()`.
pub open spec fn first_shift(s: Seq<AutoTuneSample>, baseline: int, from: int) -> int
    decreases s.len() - from,
{
    if from >= s.len() {
        s.len() as int
    } else {
        let d = s[from].aggregated_temp_millidegrees - baseline;
        if d >= LAG_THRESHOLD_MILLIDEGREES || d <= -LAG_THRESHOLD_MILLIDEGREES {
            from
        } else {
            first_shift(s, baseline, from + 1)
        }
    }
}

/// The response lag of a run: the elapsed time of the first sample after
/// the first whose temperature moved at least 0.5 °C from the first
/// sample's, else a quarter of the observation window; at least 1 ms.
pub open spec fn lag_time_spec(window_ms: u64, s: Seq<AutoTuneSample>) -> u64 {
    let i = first_shift(s, s[0].aggregated_temp_millidegrees as int, 1);
    if i < s.len() {
        if s[i].elapsed_ms >= 1 { s[i].elapsed_ms } else { 1 }
    } else {
        if window_ms / 4 >= 1 { (window_ms / 4) as u64 } else { 1 }
    }
}

/// The response lag of an auto-tune run, which needs at least two samples.
/// Temperature differences must fit in an `i64`.
pub fn auto_tune_lag_time_ms(observation_window_ms: u64, samples: &[AutoTuneSample]) -> (r: Result<u64, String>)
    requires
        forall|i: int|
            0 <= i < samples@.len() ==> i64::MIN < #[trigger] samples@[i].aggregated_temp_millidegrees
                - samples@[0].aggregated_temp_millidegrees <= i64::MAX,
    ensures
        samples@.len() < 2 <==> r is Err,
        r is Err ==> r->Err_0@ == "auto-tune needs at least two temperature samples"@,
        r is Ok ==> r->Ok_0 == lag_time_spec(observation_window_ms, samples@),
{
    if samples.len() < 2 {
        return Err("auto-tune needs at least two temperature samples".to_owned());
    }
    let baseline = samples[0].aggregated_temp_millidegrees;
    let ghost s = samples@;
    let mut i: usize = 1;
    while i < samples.len()
        invariant
            s == samples@,
            1 <= i <= s.len(),
            baseline == s[0].aggregated_temp_millidegrees,
            first_shift(s, baseline as int, 1) == first_shift(s, baseline as int, i as int),
            forall|j: int|
                0 <= j < s.len() ==> i64::MIN < #[trigger] s[j].aggregated_temp_millidegrees
                    - s[0].aggregated_temp_millidegrees <= i64::MAX,
        decreases samples.len() - i,
    {
        let t = samples[i].aggregated_temp_millidegrees;
        assert(i64::MIN < s[i as int].aggregated_temp_millidegrees - s[0].aggregated_temp_millidegrees <= i64::MAX);
        let d = t - baseline;
        if d >= LAG_THRESHOLD_MILLIDEGREES || d <= -LAG_THRESHOLD_MILLIDEGREES {
            let e = samples[i].elapsed_ms;
            return Ok(if e >= 1 { e } else { 1 });
        }
        i = i + 1;
    }
    let q = observation_window_ms / 4;
    Ok(if q >= 1 { q } else { 1 })
}

/// An auto-tune run in progress: its observation window and the samples
/// collected so far, oldest first.
#[derive(Clone, Debug)]
pub struct AutoTuneRun {
    pub observation_window_ms: u64,
    pub samples: Vec<AutoTuneSample>,
}

impl AutoTuneRun {
    /// A run that has collected nothing yet.
    pub fn new(observation_window_ms: u64) -> (r: Self)
        ensures
            r.observation_window_ms == observation_window_ms,
            r.samples@ == Seq::<AutoTuneSample>::empty(),
    {
        AutoTuneRun { observation_window_ms, samples: Vec::new() }
    }
}

/// Records a temperature observed `elapsed_ms` after the run started, and
/// says whether the observation window is over (`elapsed_ms` has reached the
/// window), at which point the run's samples yield its result.
pub fn auto_tune_record_sample(run: &mut AutoTuneRun, elapsed_ms: u64, aggregated_temp_millidegrees: i64) -> (done: bool)
    ensures
        final(run).observation_window_ms == old(run).observation_window_ms,
        final(run).samples@ == old(run).samples@.push(AutoTuneSample { elapsed_ms, aggregated_temp_millidegrees }),
        done == (elapsed_ms >= old(run).observation_window_ms),
{
    run.samples.push(AutoTuneSample { elapsed_ms, aggregated_temp_millidegrees });
    elapsed_ms >= run.observation_window_ms
}

/// The phase a run leaves behind once its window is over: completed when its
/// samples yielded a proposal, failed otherwise; a run whose window is not
/// over keeps running.
pub fn auto_tune_phase_after_sample(done: bool, proposal_ok: bool) -> (r: AutoTunePhase)
    ensures
        r == if !done {
            AutoTunePhase::Running
        } else if proposal_ok {
            AutoTunePhase::Completed
        } else {
            AutoTunePhase::Failed
        },
{
    if !done {
        AutoTunePhase::Running
    } else if proposal_ok {
        AutoTunePhase::Completed
    } else {
        AutoTunePhase::Failed
    }
}

} // verus!
