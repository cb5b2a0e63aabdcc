//! Verified core of a lightweight HTTP uptime and latency monitor.
//!
//! The library models the monitor's logic: the target and observation
//! data model, classification of a probe's outcome, the append-only
//! observation store, the polling worker's cycle, and the recent-history
//! projection served by the read API. Network and database plumbing
//! live outside the library and hand it plain values.

pub mod domain;
pub mod laws;
pub mod probe;
pub mod query;
pub mod store;
pub mod worker;
