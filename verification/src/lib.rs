//! A verified model of a milestone-based escrow engine with dispute
//! resolution.
//!
//! Project funds are held in escrow and released against milestones that a
//! validator set approves by a weighted threshold vote.  Contested decisions
//! escalate into a dispute engine built on randomized jury selection,
//! commit-reveal voting, stake slashing and rewards, and a bounded appeal
//! process.  A time-locked pause/upgrade control plane guards every mutating
//! operation.
//!
//! The whole contract state lives in plain data; the host environment is
//! expected to authenticate callers, supply ledger time, and perform the
//! token transfers that operations record as pending instructions.

pub mod batch;
pub mod commit_reveal;
pub mod constants;
pub mod control;
pub mod dispute;
pub mod escrow;
pub mod errors;
pub mod host;
pub mod jury;
pub mod keyed;
pub mod laws;
pub mod profit;
pub mod reputation;
pub mod resolution;
pub mod state;
pub mod tally;
pub mod types;
pub mod validation;
pub mod voting;
