//! Typed failures shared by the escrow, dispute and reputation engines.

use vstd::prelude::*;

verus! {

/// Every user-facing operation returns one of these instead of silently
/// degrading; a failure aborts the whole operation with no state change.
#[derive(Clone, Copy, Debug, PartialEq, Eq, Structural)]
pub enum Error {
    /// The contract (or a required record) has not been initialized yet.
    NotInitialized,
    /// The record being created already exists.
    AlreadyInitialized,
    /// The caller is not the required principal.
    Unauthorized,
    /// A zero/negative amount, an out-of-range threshold, or an overflow.
    InvalidInput,
    /// A referenced escrow, milestone or record does not exist.
    NotFound,
    /// The release would exceed the escrow's deposited funds.
    InsufficientEscrowBalance,
    /// The milestone is not in the status the operation needs.
    InvalidMilestoneStatus,
    /// The voter is not in the project's validator set.
    NotAValidator,
    /// The caller already voted (or already revealed) in this round.
    AlreadyVoted,
    /// The oracle address does not match the expected one.
    OracleUnauthorized,
    /// The contract is paused.
    ContractPaused,
    /// The pause delay has not elapsed yet.
    ResumeTooEarly,
    /// No upgrade is currently scheduled.
    UpgradeNotScheduled,
    /// The upgrade time lock has not elapsed yet.
    UpgradeTooEarly,
    /// Upgrades may only execute while the contract is paused.
    UpgradeRequiresPause,
    /// The milestone is not in a contestable status.
    MilestoneNotContested,
    /// The referenced dispute does not exist.
    DisputeNotFound,
    /// The offered stake is below the minimum.
    InsufficientJurorStake,
    /// The address is already registered as a juror.
    AlreadyRegisteredAsJuror,
    /// The juror still sits on an active dispute panel.
    JurorHasActiveDispute,
    /// The address is not a registered juror, or not on this panel.
    NotAJuror,
    /// Conflict-of-interest exclusions leave too few eligible jurors.
    ConflictOfInterest,
    /// The dispute is not accepting commits/tallies right now.
    VotingPeriodNotActive,
    /// The reveal window is not open right now.
    RevealPeriodNotActive,
    /// The revealed preimage does not hash to the stored commitment.
    InvalidVoteReveal,
    /// The appeal window has closed (or has not elapsed yet).
    AppealWindowClosed,
    /// The dispute already went through the maximum number of appeals.
    MaxAppealsReached,
    /// A batch operation was handed no items.
    BatchEmpty,
    /// A batch operation was handed more items than the fixed maximum.
    BatchLimitExceeded,
    /// The user is already registered.
    UserAlreadyRegistered,
    /// The user is not registered.
    UserNotRegistered,
    /// The badge was already awarded to this user.
    BadgeAlreadyAwarded,
}

/// Typed failures of the profit-distribution service.
#[derive(Clone, Copy, Debug, PartialEq, Eq, Structural)]
pub enum ContractError {
    /// The service is already initialized.
    AlreadyInitialized,
    /// The service (or a required record) is not initialized yet.
    NotInitialized,
    /// The caller is not entitled to this record.
    Unauthorized,
    /// A non-positive amount, or arithmetic that would overflow.
    InvalidAmount,
    /// A zero share percentage.
    InvalidSharePercentage,
    /// The registered shares exceed 100%.
    TotalSharesNot100,
    /// No dividends are claimable.
    NothingToClaim,
    /// A batch operation was handed no items.
    BatchEmpty,
    /// A batch operation was handed more items than the fixed maximum.
    BatchLimitExceeded,
}

} // verus!
