//! Verified core of a Linux desktop fan-control service.
//!
//! The library holds the decision logic of the service: hardware inventory
//! lookups, draft validation and promotion, boot reconciliation against live
//! hardware, ownership tracking for safe-maximum fallback, the lifecycle
//! event log, runtime status projection and the overview rows shown to
//! clients.

pub mod config;
pub mod control;
pub mod discovery;
pub mod fbits;
pub mod inventory;
pub mod lifecycle;
pub mod overview;
pub mod presentation;
pub mod report;
pub mod service;
pub mod strmap;
pub mod text;
pub mod validation;
