//! Core logic of a license authority: issuing, renewing and revoking
//! time-bounded license records, each tied to an (owner, software id) pair
//! and guarded by a single issuing authority.
//!
//! The host environment is expected to authenticate callers, supply the
//! current time, and apply each operation atomically; this crate holds the
//! decision logic itself, with its contracts proved.

pub mod license;
pub mod registry;
