//! Fixed protocol parameters.

use vstd::prelude::*;

verus! {

/// Smallest validator set an escrow may be created with.
pub const MIN_VALIDATORS: u32 = 3;

/// Lowest allowed approval threshold, in basis points (strict majority).
pub const MIN_APPROVAL_THRESHOLD: u32 = 5100;

/// Highest allowed approval threshold, in basis points (unanimity).
pub const MAX_APPROVAL_THRESHOLD: u32 = 10000;

/// Basis points making up 100%.
pub const BPS_DENOMINATOR: u32 = 10000;

/// Delay between pausing the contract and the earliest legal resume (24h).
pub const RESUME_TIME_DELAY: u64 = 86400;

/// Time lock between scheduling an upgrade and executing it (48h).
pub const UPGRADE_TIME_LOCK_SECS: u64 = 172800;

/// Smallest stake a juror may register with.
pub const MIN_JUROR_STAKE: i128 = 1_000_000_000;

/// Stake forfeited by a juror who misses or loses a dispute vote
/// (one tenth of the minimum stake).
pub const JUROR_SLASH_AMOUNT: i128 = 100_000_000;

/// Smallest cumulative contribution that entitles a backer to open a dispute.
pub const MIN_CONTRIBUTION: i128 = 100_000_000;

/// Panel size for a first-instance dispute.
pub const JURY_SIZE: u32 = 7;

/// Panel size for an appeal round.
pub const APPEAL_JURY_SIZE: u32 = 13;

/// Length of the commit window of a dispute vote, from jury selection (72h).
pub const VOTING_COMMIT_PERIOD: u64 = 259200;

/// Length of the reveal window, starting when the commit window closes (48h).
pub const VOTING_REVEAL_PERIOD: u64 = 172800;

/// Length of the appeal window after a dispute is resolved (24h).
pub const APPEAL_WINDOW_PERIOD: u64 = 86400;

/// Most appeals a single dispute may go through.
pub const MAX_APPEALS: u32 = 3;

/// Fee paid into the dispute fee pool when filing an appeal.
pub const APPEAL_FEE: i128 = 100_000_000;

/// Largest number of items a batch operation accepts.
pub const MAX_BATCH_SIZE: u32 = 10;

/// Fixed-point scale of the per-share profit accumulator.
pub const PRECISION: i128 = 1_000_000_000_000;

/// Reputation score a freshly registered user starts with.
pub const REPUTATION_START: i128 = 100;

/// Lower clamp of a reputation score.
pub const REPUTATION_MIN: i128 = 0;

/// Upper clamp of a reputation score.
pub const REPUTATION_MAX: i128 = 10000;

} // verus!
