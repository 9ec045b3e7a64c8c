//! Governance and settlement logic for a family of cooperating ledgers:
//! proposal creation, one-vote-per-identity tallying, time-gated
//! finalization, and failure-gated chains of dependent ledger operations
//! (staking, rewards, vesting, token and share transfers).
//!
//! The host platform is out of scope and reaches the library only through
//! plain values: the caller's identity and the current logical time come in
//! as parameters, and every remote ledger operation goes out as a
//! [`remote::RemoteCall`] value that the surrounding runtime dispatches.

pub mod energy_dao;
pub mod energy_pool;
pub mod errors;
pub mod fractose;
pub mod organisation;
pub mod platform;
pub mod remote;
pub mod rewards;
pub mod shares;
pub mod staking;
pub mod tally;
pub mod vesting;
