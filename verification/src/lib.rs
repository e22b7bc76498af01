//! Verified logic for testing how a Soroban contract treats ledger-entry TTLs.
//!
//! A test wraps its SDK environment in [`env::TestEnv`] and asks it for TTL
//! readings or for one of the TTL assertions of [`ttl`]. Assertions report a
//! failure as a [`error::TestkitError`] instead of panicking.
//!
//! Every call into the SDK stands in [`sdk`], behind small wrappers whose
//! contracts are the only unproved statements of the crate.

pub mod env;
pub mod error;
pub mod sdk;
pub mod text;
pub mod ttl;
