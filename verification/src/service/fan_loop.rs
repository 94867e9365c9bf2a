//! The decisions of one fan's control loop, as a step from the loop's state
//! and the tick or outcome that just happened to the next state and the
//! action to perform. The caller owns the timers, reads the sensors, runs
//! the floating-point controller and writes the PWM node.

use vstd::prelude::*;

use crate::fbits;
use crate::overview::FULL_OUTPUT_PERCENT_BITS;

use super::supervision::{
    sample_failure_action, write_tick_gate, write_tick_output, SampleFailureAction, WriteTickGate,
};

verus! {

/// What a fan's loop remembers between ticks. Percentages are bit patterns
/// of `f64` values.
#[derive(Clone, Copy, Debug, PartialEq, Eq, Structural)]
pub struct FanLoopState {
    /// The last aggregated temperature read, in m°C.
    pub latest_aggregated_temp: Option<i64>,
    /// The last output the loop decided on.
    pub latest_output_percent: Option<u64>,
    /// The last output written to the PWM node.
    pub last_written_percent: Option<u64>,
}

/// What just happened to the loop.
#[derive(Clone, Copy, Debug, PartialEq, Eq, Structural)]
pub enum FanLoopEvent {
    /// At a sample tick the sensors gave this aggregated temperature.
    SampleRead { temp: i64 },
    /// At a sample tick the sensors could not be read.
    SampleFailed { auto_tuning: bool },
    /// A control tick.
    ControlTick { auto_tuning: bool },
    /// The controller, run on the action's temperature, gave this output.
    ControllerOutput { output_percent: u64 },
    /// A write tick, with whether the fan is still owned and whether it is
    /// degraded.
    WriteTick { auto_tuning: bool, owned: bool, degraded: bool },
    /// The write the action asked for succeeded.
    Written { output_percent: u64 },
    /// The write the action asked for failed.
    WriteFailed,
}

/// What the caller does next.
#[derive(Clone, Copy, Debug, PartialEq, Eq, Structural)]
pub enum FanLoopAction {
    /// Nothing; wait for the next tick.
    Continue,
    /// Publish the temperature (and its high-temperature alert) and record
    /// it as an auto-tune sample when a run is going on.
    RecordSample { temp: i64 },
    /// End the running auto-tune as failed; the loop goes on.
    FailAutoTune,
    /// Mark the fan degraded and stop the loop.
    DegradeAndStop,
    /// Run the controller on this temperature and report its output.
    RunController { temp: i64 },
    /// The fan is no longer owned: clear its live status and stop.
    ClearAndStop,
    /// The fan is degraded: stop.
    Stop,
    /// Write this output, after a start-up kick when one is due.
    Write { output_percent: u64, startup_kick: bool },
    /// A write failed: handle the failure and stop the loop.
    StopAfterWriteFailure,
}

impl FanLoopState {
    /// The state of a loop that has read, decided and written nothing.
    pub fn new() -> (r: Self)
        ensures
            r == (FanLoopState {
                latest_aggregated_temp: None,
                latest_output_percent: None,
                last_written_percent: None,
            }),
    {
        FanLoopState { latest_aggregated_temp: None, latest_output_percent: None, last_written_percent: None }
    }
}

/// A start-up kick is due when the fan goes from stopped (nothing written,
/// or at most 0 %) to a positive output.
pub open spec fn kick_due(last_percent: Option<u64>, next_percent: u64) -> bool {
    fbits::spec_gt(next_percent, 0) && fbits::spec_le(
        match last_percent {
            Some(p) => p,
            None => 0,
        },
        0,
    )
}

/// Whether a stopped fan needs a start-up kick before this output: the
/// output is above 0 % and the last written one, if any, was at most 0 %.
pub fn startup_kick_required(last_percent: Option<u64>, next_percent: u64) -> (r: bool)
    ensures
        r == kick_due(last_percent, next_percent),
{
    let last = match last_percent {
        Some(p) => p,
        None => 0,
    };
    fbits::gt(next_percent, 0) && fbits::le(last, 0)
}

/// The loop's step. A read temperature is kept and published; a failed read
/// fails a running auto-tune (dropping the decided output) or else degrades
/// the fan and stops. A control tick decides full output while auto-tuning,
/// else asks for the controller on the last temperature, if any. A write tick
/// stops the loop once the fan is no longer owned (clearing its status) or
/// is degraded, and otherwise writes the decided output (full while
/// auto-tuning), with a kick when the fan starts from stopped. A successful
/// write is remembered; a failed one stops the loop.
pub open spec fn fan_loop_next(s: FanLoopState, e: FanLoopEvent) -> (FanLoopState, FanLoopAction) {
    match e {
        FanLoopEvent::SampleRead { temp } => (
            FanLoopState { latest_aggregated_temp: Some(temp), ..s },
            FanLoopAction::RecordSample { temp },
        ),
        FanLoopEvent::SampleFailed { auto_tuning } => if auto_tuning {
            (FanLoopState { latest_output_percent: None, ..s }, FanLoopAction::FailAutoTune)
        } else {
            (s, FanLoopAction::DegradeAndStop)
        },
        FanLoopEvent::ControlTick { auto_tuning } => if auto_tuning {
            (FanLoopState { latest_output_percent: Some(FULL_OUTPUT_PERCENT_BITS), ..s }, FanLoopAction::Continue)
        } else {
            match s.latest_aggregated_temp {
                Some(t) => (s, FanLoopAction::RunController { temp: t }),
                None => (s, FanLoopAction::Continue),
            }
        },
        FanLoopEvent::ControllerOutput { output_percent } => (
            FanLoopState { latest_output_percent: Some(output_percent), ..s },
            FanLoopAction::Continue,
        ),
        FanLoopEvent::WriteTick { auto_tuning, owned, degraded } => if !owned {
            (s, FanLoopAction::ClearAndStop)
        } else if degraded {
            (s, FanLoopAction::Stop)
        } else {
            let out = if auto_tuning {
                Some(FULL_OUTPUT_PERCENT_BITS)
            } else {
                s.latest_output_percent
            };
            match out {
                Some(p) => (
                    s,
                    FanLoopAction::Write { output_percent: p, startup_kick: kick_due(s.last_written_percent, p) },
                ),
                None => (s, FanLoopAction::Continue),
            }
        },
        FanLoopEvent::Written { output_percent } => (
            FanLoopState { last_written_percent: Some(output_percent), ..s },
            FanLoopAction::Continue,
        ),
        FanLoopEvent::WriteFailed => (s, FanLoopAction::StopAfterWriteFailure),
    }
}

/// Takes one step of a fan's control loop.
pub fn fan_loop_step(state: FanLoopState, event: FanLoopEvent) -> (r: (FanLoopState, FanLoopAction))
    ensures
        r == fan_loop_next(state, event),
{
    match event {
        FanLoopEvent::SampleRead { temp } => (
            FanLoopState { latest_aggregated_temp: Some(temp), ..state },
            FanLoopAction::RecordSample { temp },
        ),
        FanLoopEvent::SampleFailed { auto_tuning } => match sample_failure_action(auto_tuning) {
            SampleFailureAction::FailAutoTune => (
                FanLoopState { latest_output_percent: None, ..state },
                FanLoopAction::FailAutoTune,
            ),
            SampleFailureAction::DegradeAndStop => (state, FanLoopAction::DegradeAndStop),
        },
        FanLoopEvent::ControlTick { auto_tuning } => if auto_tuning {
            (FanLoopState { latest_output_percent: Some(FULL_OUTPUT_PERCENT_BITS), ..state }, FanLoopAction::Continue)
        } else {
            match state.latest_aggregated_temp {
                Some(t) => (state, FanLoopAction::RunController { temp: t }),
                None => (state, FanLoopAction::Continue),
            }
        },
        FanLoopEvent::ControllerOutput { output_percent } => (
            FanLoopState { latest_output_percent: Some(output_percent), ..state },
            FanLoopAction::Continue,
        ),
        FanLoopEvent::WriteTick { auto_tuning, owned, degraded } => match write_tick_gate(owned, degraded) {
            WriteTickGate::ClearAndStop => (state, FanLoopAction::ClearAndStop),
            WriteTickGate::Stop => (state, FanLoopAction::Stop),
            WriteTickGate::Proceed => match write_tick_output(auto_tuning, state.latest_output_percent) {
                Some(p) => (
                    state,
                    FanLoopAction::Write {
                        output_percent: p,
                        startup_kick: startup_kick_required(state.last_written_percent, p),
                    },
                ),
                None => (state, FanLoopAction::Continue),
            },
        },
        FanLoopEvent::Written { output_percent } => (
            FanLoopState { last_written_percent: Some(output_percent), ..state },
            FanLoopAction::Continue,
        ),
        FanLoopEvent::WriteFailed => (state, FanLoopAction::StopAfterWriteFailure),
    }
}

/// Loop law: a loop stops only on a failed sensor read outside auto-tuning,
/// on a write tick of a fan no longer owned or degraded, or on a failed
/// write; and it writes only at a write tick of an owned, healthy fan, full
/// output while auto-tuning, else the output it last decided.
pub proof fn law_fan_loop_stops_and_writes(s: FanLoopState, e: FanLoopEvent)
    ensures
        ({
            let a = fan_loop_next(s, e).1;
            &&& (a == FanLoopAction::DegradeAndStop || a == FanLoopAction::ClearAndStop || a == FanLoopAction::Stop
                || a == FanLoopAction::StopAfterWriteFailure) <==> (e == FanLoopEvent::SampleFailed { auto_tuning: false }
                || (e matches FanLoopEvent::WriteTick { owned, degraded, .. } && (!owned || degraded))
                || e == FanLoopEvent::WriteFailed)
            &&& a matches FanLoopAction::Write { output_percent, .. } ==> e matches FanLoopEvent::WriteTick {
                auto_tuning,
                owned,
                degraded,
            } && owned && !degraded && output_percent == if auto_tuning {
                FULL_OUTPUT_PERCENT_BITS
            } else {
                s.latest_output_percent->0
            }
        }),
{
}

} // verus!
