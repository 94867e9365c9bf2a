//! Boot reconciliation, ownership tracking, degraded state, the lifecycle
//! event log and the fallback records.

pub mod fallback;
pub mod owned;
pub mod reassess;
pub mod reconcile;
pub mod runtime;
pub mod state;
pub mod time;
