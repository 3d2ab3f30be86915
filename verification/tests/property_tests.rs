//! Ledger and control-plane properties on concrete values.

use milestone_escrow::commit_reveal::commitment_hash;
use milestone_escrow::constants::UPGRADE_TIME_LOCK_SECS;
use milestone_escrow::errors::Error;
use milestone_escrow::state::EscrowContract;
use milestone_escrow::types::DisputeResolution;
use milestone_escrow::types::MilestoneStatus;
use milestone_escrow::types::TokenTransfer;
use milestone_escrow::validation::validate_oracle;
use milestone_escrow::validation::validate_validator;

const ADMIN: u64 = 99;
const CREATOR: u64 = 10;
const TOKEN: u64 = 20;
const THRESHOLD: u32 = 6700;

fn validators() -> Vec<u64> {
    vec![1, 2, 3]
}

fn fresh_project() -> EscrowContract {
    let mut state = EscrowContract::new();
    state.initialize_admin(ADMIN).unwrap();
    state.initialize(1, CREATOR, TOKEN, validators(), THRESHOLD).unwrap();
    state
}

#[test]
fn deposit_total_is_sum_of_accepted() {
    let mut state = fresh_project();
    assert!(state.deposit(1, 500).is_ok());
    assert!(state.deposit(1, -100).is_err());
    assert!(state.deposit(1, 300).is_ok());
    assert!(state.deposit(1, 0).is_err());
    assert_eq!(
        state.get_escrow(1).unwrap().total_deposited,
        800,
        "only the accepted deposits enter the total"
    );
}

#[test]
fn double_release_rejected() {
    let mut state = EscrowContract::new();
    state.initialize_admin(ADMIN).unwrap();
    state.configure_dispute_token(21).unwrap();
    state.initialize(1, CREATOR, TOKEN, validators(), THRESHOLD).unwrap();
    for j in 0..7u64 {
        state.register_as_juror(100 + j, 500_0000000).unwrap();
    }
    state.deposit(1, 500).unwrap();
    state.create_milestone(1, vec![1u8; 32], 500, 1000).unwrap();
    state.submit_milestone(1, 0, vec![9u8; 32]).unwrap();

    // The validators reject; the rejection is disputed, which reopens the
    // vote; the validators then approve and the funds are released once.
    state.vote_milestone(1, 0, 1, false).unwrap();
    state.vote_milestone(1, 0, 2, false).unwrap();
    let dispute_id = state.initiate_dispute(1, 0, CREATOR, 0, 1000).unwrap();
    state.vote_milestone(1, 0, 1, true).unwrap();
    state.vote_milestone(1, 0, 2, true).unwrap();
    assert_eq!(state.get_escrow(1).unwrap().released_amount, 500);

    // The dispute meanwhile resolves to a full release as well; enforcing
    // it would release the same funds twice, so enforcement is rejected
    // and the ledger stays consistent.
    state.select_jury(dispute_id, 1000).unwrap();
    let panel = state.get_juror_assignments(dispute_id).unwrap();
    let salt = vec![5u8; 32];
    for i in 0..panel.len() {
        let h = commitment_hash(DisputeResolution::RelFunds, 0, &salt);
        state.commit_vote(dispute_id, panel[i], h, 1000).unwrap();
    }
    let reveal_time = 1000 + 259200 + 1;
    for i in 0..panel.len() {
        state
            .reveal_vote(dispute_id, panel[i], DisputeResolution::RelFunds, 0, salt.clone(), reveal_time)
            .unwrap();
    }
    let tally_time = 1000 + 259200 + 172800 + 1;
    state.tally_votes(dispute_id, tally_time).unwrap();
    assert_eq!(
        state.execute_resolution(dispute_id, tally_time + 86400 + 1).unwrap_err(),
        Error::InsufficientEscrowBalance
    );
    assert_eq!(state.get_escrow(1).unwrap().released_amount, 500);
}

#[test]
fn vote_order_does_not_change_outcome() {
    let mut state = EscrowContract::new();
    state.initialize_admin(ADMIN).unwrap();
    for pid in 1..3u64 {
        state.initialize(pid, CREATOR, TOKEN, validators(), THRESHOLD).unwrap();
        state.deposit(pid, 1000).unwrap();
        state.create_milestone(pid, vec![1u8; 32], 500, 1000).unwrap();
        state.submit_milestone(pid, 0, vec![9u8; 32]).unwrap();
    }

    // The same multiset of votes in two different orders.
    state.vote_milestone(1, 0, 1, true).unwrap();
    state.vote_milestone(1, 0, 2, false).unwrap();
    state.vote_milestone(1, 0, 3, true).unwrap();

    state.vote_milestone(2, 0, 2, false).unwrap();
    state.vote_milestone(2, 0, 3, true).unwrap();
    state.vote_milestone(2, 0, 1, true).unwrap();

    let s1 = state.get_milestone(1, 0).unwrap().status;
    let s2 = state.get_milestone(2, 0).unwrap().status;
    assert_eq!(s1, s2);
    assert_eq!(s1, MilestoneStatus::Approved);
}

#[test]
fn unanimous_threshold_needs_all_validators() {
    let mut state = EscrowContract::new();
    state.initialize(1, CREATOR, TOKEN, validators(), 10000).unwrap();
    state.deposit(1, 1000).unwrap();
    state.create_milestone(1, vec![1u8; 32], 500, 1000).unwrap();
    state.submit_milestone(1, 0, vec![9u8; 32]).unwrap();

    state.vote_milestone(1, 0, 1, true).unwrap();
    state.vote_milestone(1, 0, 2, true).unwrap();
    assert_eq!(state.get_milestone(1, 0).unwrap().status, MilestoneStatus::Submitted);
    state.vote_milestone(1, 0, 3, true).unwrap();
    assert_eq!(state.get_milestone(1, 0).unwrap().status, MilestoneStatus::Approved);
}

#[test]
fn vote_requires_membership_and_happens_once() {
    let mut state = fresh_project();
    state.deposit(1, 1000).unwrap();
    state.create_milestone(1, vec![1u8; 32], 500, 1000).unwrap();
    state.submit_milestone(1, 0, vec![9u8; 32]).unwrap();

    assert_eq!(state.vote_milestone(1, 0, 55, true).unwrap_err(), Error::NotAValidator);
    state.vote_milestone(1, 0, 1, true).unwrap();
    assert_eq!(state.vote_milestone(1, 0, 1, false).unwrap_err(), Error::AlreadyVoted);
}

#[test]
fn resubmission_resets_vote_history() {
    let mut state = fresh_project();
    state.deposit(1, 1000).unwrap();
    state.create_milestone(1, vec![1u8; 32], 500, 1000).unwrap();
    state.submit_milestone(1, 0, vec![9u8; 32]).unwrap();

    state.vote_milestone(1, 0, 1, false).unwrap();
    state.vote_milestone(1, 0, 2, false).unwrap();
    assert_eq!(state.get_milestone(1, 0).unwrap().status, MilestoneStatus::Rejected);

    // A rejected milestone is reopened through the dispute engine, and
    // the earlier votes do not count against the fresh round.
    state.configure_dispute_token(21).unwrap();
    state.initiate_dispute(1, 0, CREATOR, 0, 1000).unwrap();
    let milestone = state.get_milestone(1, 0).unwrap();
    assert_eq!(milestone.status, MilestoneStatus::Submitted);
    assert_eq!(milestone.approval_count, 0);
    assert_eq!(milestone.rejection_count, 0);
    state.vote_milestone(1, 0, 1, true).unwrap();
}

#[test]
fn pause_timing_scenario() {
    let mut state = fresh_project();
    let t: u64 = 50000;
    state.pause(ADMIN, t).unwrap();
    assert_eq!(state.resume(ADMIN, t + 3600).unwrap_err(), Error::ResumeTooEarly);
    assert!(state.resume(ADMIN, t + 86401).is_ok());
}

#[test]
fn upgrade_executes_after_lock_and_clears() {
    let mut state = fresh_project();
    let t: u64 = 1000;
    state.schedule_upgrade(ADMIN, vec![42u8; 32], t).unwrap();
    state.pause(ADMIN, t).unwrap();

    assert_eq!(
        state.execute_upgrade(ADMIN, t + 3600).unwrap_err(),
        Error::UpgradeTooEarly,
        "the lock has not elapsed"
    );
    state.execute_upgrade(ADMIN, t + UPGRADE_TIME_LOCK_SECS + 1).unwrap();
    assert!(state.get_pending_upgrade().is_none());
    assert_eq!(state.cancel_upgrade(ADMIN).unwrap_err(), Error::UpgradeNotScheduled);
}

#[test]
fn batch_create_milestones_applies_per_item() {
    let mut state = fresh_project();
    state.deposit(1, 1000).unwrap();

    let items: Vec<(Vec<u8>, i128)> = vec![
        (vec![1u8; 32], 400),
        (vec![2u8; 32], -5),
        (vec![3u8; 32], 700),
        (vec![4u8; 32], 600),
    ];
    let result = state.batch_create_milestones(1, items, 1000).unwrap();
    assert_eq!(result.total, 4);
    assert_eq!(result.successful, 2);
    assert_eq!(result.failed, 2);

    // The accepted items landed in order: 400, then 600 (700 would have
    // exceeded the deposits).
    assert_eq!(state.get_milestone(1, 0).unwrap().amount, 400);
    assert_eq!(state.get_milestone(1, 1).unwrap().amount, 600);
    assert_eq!(state.get_total_milestone_amount(1).unwrap(), 1000);
}

#[test]
fn batch_vote_milestones_applies_per_item() {
    let mut state = fresh_project();
    state.deposit(1, 1000).unwrap();
    state.create_milestone(1, vec![1u8; 32], 500, 1000).unwrap();
    state.submit_milestone(1, 0, vec![9u8; 32]).unwrap();

    let votes: Vec<(u64, u64, bool)> = vec![
        (0, 1, true),
        (0, 55, true),
        (0, 1, true),
        (0, 2, true),
    ];
    let result = state.batch_vote_milestones(1, votes).unwrap();
    assert_eq!(result.total, 4);
    assert_eq!(result.successful, 2, "the outsider and the duplicate are skipped");
    assert_eq!(result.failed, 2);
    assert_eq!(state.get_milestone(1, 0).unwrap().status, MilestoneStatus::Approved);
}

#[test]
fn batch_rejects_empty_and_oversized() {
    let mut state = fresh_project();
    assert_eq!(state.batch_vote_milestones(1, vec![]).unwrap_err(), Error::BatchEmpty);
    let mut votes: Vec<(u64, u64, bool)> = Vec::new();
    for i in 0..11u64 {
        votes.push((0, i, true));
    }
    assert_eq!(state.batch_vote_milestones(1, votes).unwrap_err(), Error::BatchLimitExceeded);
}

#[test]
fn commitment_hash_is_a_digest() {
    let salt = vec![123u8; 32];
    let h1 = commitment_hash(DisputeResolution::RelFunds, 0, &salt);
    let h2 = commitment_hash(DisputeResolution::RefBackers, 0, &salt);
    assert_eq!(h1.len(), 32);
    assert_ne!(h1, h2, "different votes commit to different digests");
    assert_ne!(h1, salt, "the digest is not the preimage");
}

#[test]
fn pending_transfers_record_the_outbound_release() {
    let mut state = fresh_project();
    state.deposit(1, 1000).unwrap();
    state.create_milestone(1, vec![1u8; 32], 500, 1000).unwrap();
    state.submit_milestone(1, 0, vec![9u8; 32]).unwrap();
    state.vote_milestone(1, 0, 1, true).unwrap();
    state.vote_milestone(1, 0, 2, true).unwrap();

    let transfers = state.take_pending_transfers();
    assert_eq!(transfers.len(), 1);
    assert_eq!(
        transfers[0],
        TokenTransfer { token: TOKEN, counterparty: CREATOR, amount: 500, into_contract: false }
    );
    assert_eq!(state.take_pending_transfers().len(), 0);
}

#[test]
fn validator_and_oracle_checks() {
    let state = {
        let mut s = EscrowContract::new();
        s.initialize(1, CREATOR, TOKEN, validators(), THRESHOLD).unwrap();
        s
    };
    let escrow = state.get_escrow(1).unwrap();
    assert!(validate_validator(&escrow, 2).is_ok());
    assert_eq!(validate_validator(&escrow, 55).unwrap_err(), Error::NotAValidator);
    assert!(validate_oracle(&escrow, 7, 7).is_ok());
    assert_eq!(validate_oracle(&escrow, 7, 8).unwrap_err(), Error::OracleUnauthorized);
}

#[test]
fn update_validators_requires_admin_and_minimum() {
    let mut state = fresh_project();
    assert_eq!(
        state.update_validators(1, vec![4, 5]).unwrap_err(),
        Error::InvalidInput,
        "fewer than the minimum validators"
    );
    state.update_validators(1, vec![4, 5, 6]).unwrap();
    assert_eq!(state.get_escrow(1).unwrap().validators, vec![4, 5, 6]);

    let mut uninitialized = EscrowContract::new();
    uninitialized.initialize(1, CREATOR, TOKEN, validators(), THRESHOLD).unwrap();
    assert_eq!(
        uninitialized.update_validators(1, vec![4, 5, 6]).unwrap_err(),
        Error::NotInitialized
    );
}

#[test]
fn full_vote_always_finalizes() {
    // Over small validator sets and a range of thresholds, a milestone on
    // which every validator has voted is never left stuck in `Submitted`:
    // the approval and rejection conditions together cover every tally.
    for n in 3..=5u64 {
        for threshold in [5100u32, 6700, 7500, 10000] {
            for approvals in 0..=n {
                let mut state = EscrowContract::new();
                let vals: Vec<u64> = (1..=n).collect();
                state.initialize(1, CREATOR, TOKEN, vals, threshold).unwrap();
                state.deposit(1, 1000).unwrap();
                state.create_milestone(1, vec![1u8; 32], 500, 1000).unwrap();
                state.submit_milestone(1, 0, vec![9u8; 32]).unwrap();
                for v in 1..=n {
                    // Once the milestone finalizes, later votes are
                    // rejected; that is fine here.
                    let _ = state.vote_milestone(1, 0, v, v <= approvals);
                }
                assert_ne!(
                    state.get_milestone(1, 0).unwrap().status,
                    MilestoneStatus::Submitted,
                    "a fully voted milestone must be finalized"
                );
            }
        }
    }
}

#[test]
fn hashing_survives_large_preimages() {
    // Digests of multi-megabyte preimages (well past any metered host
    // budget) are computed rather than aborted.
    let big = vec![1u8; 3_000_000];
    let h = commitment_hash(DisputeResolution::RelFunds, 0, &big);
    assert_eq!(h.len(), 32);

    let mut altered = big.clone();
    altered[2_999_999] = 2;
    assert_ne!(commitment_hash(DisputeResolution::RelFunds, 0, &altered), h);
}
