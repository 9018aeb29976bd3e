//! Verified core of a meta-transaction relay: signed requests are checked,
//! replay-protected by per-user nonces, and forwarded to a single allowed target.

pub mod types;
pub mod hashing;
pub mod error;
pub mod recovery;
pub mod paymaster;
pub mod laws;
