//! Decisions of the fan-control service that sit between client requests,
//! the hardware and the persistent state: request parsing, draft edits,
//! bookkeeping of an apply, recovery of degraded fans and the fallback
//! record. The caller performs the I/O; these functions decide.

pub mod apply;
pub mod autotune;
pub mod fan_loop;
pub mod helpers;
pub mod panic_mirror;
pub mod profile;
pub mod recovery;
pub mod sampling;
pub mod supervision;
