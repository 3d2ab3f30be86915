//! Data model of the escrow, dispute, control-plane and peripheral engines.
//!
//! Addresses and token identities are plain integers standing for ledger
//! accounts; hashes are byte vectors.  The host that embeds this library
//! converts between these values and its own representations.

use vstd::prelude::*;

verus! {

/// A ledger account, identified by a plain integer.
pub type Address = u64;

/// A monetary amount in smallest token units.
pub type Amount = i128;

/// Lifecycle of a milestone's approval.
#[derive(Clone, Copy, Debug, PartialEq, Eq, Structural)]
pub enum MilestoneStatus {
    /// Created, not yet submitted for validator review.
    Pending,
    /// Submitted with proof; open for validator votes.
    Submitted,
    /// Approved by the validators or by a dispute resolution.
    Approved,
    /// Rejected by the validators or by a dispute resolution.
    Rejected,
}

/// Lifecycle of a dispute.
#[derive(Clone, Copy, Debug, PartialEq, Eq, Structural)]
pub enum DisputeStatus {
    /// Opened, no jury selected yet.
    Pending,
    /// Jury selected; commit and reveal windows run from `created_at`.
    Voting,
    /// Tallied; the appeal window runs from `created_at`.
    Resolved,
    /// Appealed; awaiting a fresh, larger jury.
    Appealed,
    /// Enforced against the escrow; terminal.
    FinalResolved,
}

/// Outcome a dispute jury can vote for.
#[derive(Clone, Copy, Debug, PartialEq, Eq, Structural)]
pub enum DisputeResolution {
    /// Release the milestone amount to the creator.
    RelFunds,
    /// Release nothing and reject the milestone.
    RefBackers,
    /// Release a percentage of the milestone amount (the vote payload,
    /// in basis points).
    PartRel,
    /// No outcome recorded yet; never a legal reveal value.
    NoRes,
}

/// Escrowed funds and validator configuration of one project.
#[derive(Clone, Debug, PartialEq, Eq)]
pub struct EscrowInfo {
    /// Unique project identifier.
    pub project_id: u64,
    /// The project creator, who manages milestones and receives releases.
    pub creator: Address,
    /// Token the escrow is denominated in.
    pub token: Address,
    /// Sum of all accepted deposits.
    pub total_deposited: Amount,
    /// Sum of all released funds; never exceeds `total_deposited`.
    pub released_amount: Amount,
    /// Addresses entitled to vote on milestone submissions.
    pub validators: Vec<Address>,
    /// Approval threshold in basis points.
    pub approval_threshold: u32,
}

/// A funded, independently approvable unit of project work.
#[derive(Clone, Debug, PartialEq, Eq)]
pub struct Milestone {
    /// Sequential identifier, starting at 0 per project.
    pub id: u64,
    /// Project this milestone belongs to.
    pub project_id: u64,
    /// Hash of the milestone description.
    pub description_hash: Vec<u8>,
    /// Amount released to the creator when the milestone is approved.
    pub amount: Amount,
    /// Approval lifecycle status.
    pub status: MilestoneStatus,
    /// Hash of the submitted completion proof (all zeroes until submission).
    pub proof_hash: Vec<u8>,
    /// Approvals received in the current submission round.
    pub approval_count: u32,
    /// Rejections received in the current submission round.
    pub rejection_count: u32,
    /// Ledger time of creation.
    pub created_at: u64,
}

/// A registered juror's stake and record.
#[derive(Clone, Copy, Debug, PartialEq, Eq, Structural)]
pub struct JurorInfo {
    /// The juror's account.
    pub address: Address,
    /// Currently staked amount; never negative.
    pub staked_amount: Amount,
    /// Number of disputes the juror currently sits on.
    pub active_disputes: u32,
    /// Votes that matched the final resolution.
    pub successful_votes: u32,
    /// Votes missed or on the losing side.
    pub missed_votes: u32,
}

/// A juror's blinded vote for one dispute round.
#[derive(Clone, Debug, PartialEq, Eq)]
pub struct VoteCommitment {
    /// Digest of the vote preimage; write-once at commit time.
    pub hash: Vec<u8>,
    /// Whether the vote has been revealed; flips to true exactly once.
    pub revealed: bool,
    /// The revealed vote (`NoRes` until revealed).
    pub vote: DisputeResolution,
    /// The revealed payload (basis points for a partial release).
    pub vote_payload: u32,
}

/// A contest over a milestone decision.
#[derive(Clone, Copy, Debug, PartialEq, Eq, Structural)]
pub struct Dispute {
    /// Globally unique identifier, starting at 1.
    pub id: u64,
    /// Milestone under dispute.
    pub milestone_id: u64,
    /// Project the milestone belongs to.
    pub project_id: u64,
    /// Who opened the dispute.
    pub initiator: Address,
    /// Lifecycle status.
    pub status: DisputeStatus,
    /// Anchor of the current timing window (reset on selection and tally).
    pub created_at: u64,
    /// Recorded outcome (`NoRes` until tallied).
    pub resolution: DisputeResolution,
    /// Basis points for a partial release; used only by `PartRel`.
    pub resolution_payload: u32,
    /// How many appeals have been filed; bounded by a fixed maximum.
    pub appeal_count: u32,
}

/// Global pause guard consulted by all value-affecting operations.
#[derive(Clone, Copy, Debug, PartialEq, Eq, Structural)]
pub struct PauseState {
    /// Whether the contract is paused.
    pub paused: bool,
    /// Ledger time of the most recent pause.
    pub paused_at: u64,
    /// Earliest ledger time at which resuming is legal.
    pub resume_not_before: u64,
}

/// A scheduled, time-locked code replacement; at most one is pending.
#[derive(Clone, Debug, PartialEq, Eq)]
pub struct PendingUpgrade {
    /// Hash of the replacement code.
    pub wasm_hash: Vec<u8>,
    /// Earliest ledger time at which execution is legal.
    pub execute_not_before: u64,
}

/// Outcome of a batch operation that commits successful items and skips
/// failing ones.
#[derive(Clone, Copy, Debug, PartialEq, Eq, Structural)]
pub struct BatchResult {
    /// Number of items handed in.
    pub total: u32,
    /// Items that were applied.
    pub successful: u32,
    /// Items that were skipped.
    pub failed: u32,
}

/// A token movement an operation instructs the host to perform, atomically
/// with the operation itself.
#[derive(Clone, Copy, Debug, PartialEq, Eq, Structural)]
pub struct TokenTransfer {
    /// Token to move.
    pub token: Address,
    /// The account on the other side of the contract.
    pub counterparty: Address,
    /// Amount to move; never negative.
    pub amount: Amount,
    /// True when the counterparty pays the contract, false when the
    /// contract pays the counterparty.
    pub into_contract: bool,
}

/// Badges a user can earn.
#[derive(Clone, Copy, Debug, PartialEq, Eq, Structural)]
pub enum BadgeType {
    /// Made contributions to projects.
    Contributor,
    /// Verified as a creator.
    VerifiedCreator,
    /// Top investor by volume.
    TopInvestor,
    /// Early platform adoption.
    EarlyAdopter,
    /// Completed a first project.
    FirstProject,
    /// Completed a milestone successfully.
    MilestoneAchiever,
    /// Participated in governance.
    GovernanceParticipant,
}

/// A user's reputation score and badges.
#[derive(Clone, Debug, PartialEq, Eq)]
pub struct ReputationProfile {
    /// The user's account.
    pub user: Address,
    /// Score, clamped between the fixed minimum and maximum.
    pub score: i128,
    /// Badges earned, each at most once.
    pub badges: Vec<BadgeType>,
}

/// One investor's pro-rata dividend bookkeeping for one project.
#[derive(Clone, Copy, Debug, PartialEq, Eq, Structural)]
pub struct InvestorShare {
    /// The investor's account.
    pub investor: Address,
    /// Share of profits, in basis points.
    pub share_percentage: u32,
    /// Accumulator value at the last settlement of this investor.
    pub accumulated_at_last_update: i128,
    /// Dividends settled but not yet paid out.
    pub claimable_amount: i128,
    /// Dividends paid out so far.
    pub total_claimed: i128,
}

} // verus!
