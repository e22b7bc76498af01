//! Ledger-entry TTL inspection and expiry simulation.
//!
//! Contracts that fail to bump TTL break in production through silent data
//! loss, and the failure mode is close to untestable by hand. This module makes
//! it a normal assertion.

pub mod expiry;
pub mod laws;
pub mod payload;
pub mod promises;
pub mod reading;
pub mod record;
pub mod rules;
pub mod verdict;
pub mod world;

mod snapshot;

pub use snapshot::{StorageKind, TtlSnapshot};
