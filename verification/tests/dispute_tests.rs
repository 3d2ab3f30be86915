//! Dispute lifecycle: jury selection, commit-reveal, tally, slashing,
//! rewards, and enforcement.

use milestone_escrow::commit_reveal::commitment_hash;
use milestone_escrow::errors::Error;
use milestone_escrow::state::EscrowContract;
use milestone_escrow::types::DisputeResolution;
use milestone_escrow::types::DisputeStatus;
use milestone_escrow::types::MilestoneStatus;

const ADMIN: u64 = 99;
const CREATOR: u64 = 10;
const TOKEN: u64 = 20;
const JUROR_TOKEN: u64 = 21;
const THRESHOLD: u32 = 6700;

fn validators() -> Vec<u64> {
    vec![1, 2, 3]
}

/// A project whose first milestone was rejected by the validators and is
/// now under dispute, with `n_jurors` registered jurors.
fn disputed_setup(n_jurors: u64) -> (EscrowContract, u64) {
    let mut state = EscrowContract::new();
    state.initialize_admin(ADMIN).unwrap();
    state.configure_dispute_token(JUROR_TOKEN).unwrap();
    state.initialize(1, CREATOR, TOKEN, validators(), THRESHOLD).unwrap();
    for j in 0..n_jurors {
        state.register_as_juror(100 + j, 500_0000000).unwrap();
    }
    state.deposit(1, 1000).unwrap();
    state.create_milestone(1, vec![1u8; 32], 500, 1000).unwrap();
    state.submit_milestone(1, 0, vec![9u8; 32]).unwrap();
    state.vote_milestone(1, 0, 1, false).unwrap();
    state.vote_milestone(1, 0, 2, false).unwrap();
    let dispute_id = state.initiate_dispute(1, 0, CREATOR, 0, 1000).unwrap();
    (state, dispute_id)
}

#[test]
fn jury_selection_fails_when_pool_too_small() {
    let (mut state, dispute_id) = disputed_setup(3);
    assert_eq!(state.select_jury(dispute_id, 1000).unwrap_err(), Error::InvalidInput);
}

#[test]
fn jury_selection_excludes_creator_deterministically() {
    let mut state = EscrowContract::new();
    state.initialize_admin(ADMIN).unwrap();
    state.configure_dispute_token(JUROR_TOKEN).unwrap();
    state.initialize(1, CREATOR, TOKEN, validators(), THRESHOLD).unwrap();
    // The creator and six others register: seven active jurors, but only
    // six are eligible.
    state.register_as_juror(CREATOR, 500_0000000).unwrap();
    for j in 0..6u64 {
        state.register_as_juror(100 + j, 500_0000000).unwrap();
    }
    state.deposit(1, 1000).unwrap();
    state.create_milestone(1, vec![1u8; 32], 500, 1000).unwrap();
    state.submit_milestone(1, 0, vec![9u8; 32]).unwrap();
    let dispute_id = state.initiate_dispute(1, 0, CREATOR, 0, 1000).unwrap();

    assert_eq!(
        state.select_jury(dispute_id, 1000).unwrap_err(),
        Error::ConflictOfInterest,
        "an eligible pool below the panel size fails deterministically"
    );

    // One more eligible juror makes the panel possible; the creator is
    // still never assigned.
    state.register_as_juror(200, 500_0000000).unwrap();
    state.select_jury(dispute_id, 1000).unwrap();
    let panel = state.get_juror_assignments(dispute_id).unwrap();
    assert_eq!(panel.len(), 7);
    assert!(!panel.contains(&CREATOR));
    for i in 0..panel.len() {
        for j in 0..i {
            assert_ne!(panel[i], panel[j], "panel members are distinct");
        }
    }
}

#[test]
fn commit_reveal_round_trip_and_rejections() {
    let (mut state, dispute_id) = disputed_setup(7);
    state.select_jury(dispute_id, 1000).unwrap();
    let panel = state.get_juror_assignments(dispute_id).unwrap();
    let juror = panel[0];
    let salt = vec![7u8; 32];

    // An outsider may not commit.
    let h = commitment_hash(DisputeResolution::PartRel, 5000, &salt);
    assert_eq!(state.commit_vote(dispute_id, 999, h.clone(), 1000).unwrap_err(), Error::NotAJuror);

    state.commit_vote(dispute_id, juror, h, 1000).unwrap();
    // Only one commitment per juror.
    let h2 = commitment_hash(DisputeResolution::RelFunds, 0, &salt);
    assert_eq!(
        state.commit_vote(dispute_id, juror, h2, 1000).unwrap_err(),
        Error::AlreadyVoted
    );

    // Revealing during the commit window is rejected.
    assert_eq!(
        state
            .reveal_vote(dispute_id, juror, DisputeResolution::PartRel, 5000, salt.clone(), 1000)
            .unwrap_err(),
        Error::RevealPeriodNotActive
    );

    let reveal_time = 1000 + 259200 + 1;
    // A single altered byte anywhere in the preimage is rejected.
    let wrong_salt = {
        let mut s = salt.clone();
        s[31] = 8;
        s
    };
    assert_eq!(
        state
            .reveal_vote(
                dispute_id,
                juror,
                DisputeResolution::PartRel,
                5000,
                wrong_salt,
                reveal_time,
            )
            .unwrap_err(),
        Error::InvalidVoteReveal
    );
    assert_eq!(
        state
            .reveal_vote(
                dispute_id,
                juror,
                DisputeResolution::PartRel,
                5001,
                salt.clone(),
                reveal_time,
            )
            .unwrap_err(),
        Error::InvalidVoteReveal
    );
    assert_eq!(
        state
            .reveal_vote(dispute_id, juror, DisputeResolution::RelFunds, 0, salt.clone(), reveal_time)
            .unwrap_err(),
        Error::InvalidVoteReveal
    );

    // The exact preimage succeeds, exactly once.
    state
        .reveal_vote(dispute_id, juror, DisputeResolution::PartRel, 5000, salt.clone(), reveal_time)
        .unwrap();
    assert_eq!(
        state
            .reveal_vote(
                dispute_id,
                juror,
                DisputeResolution::PartRel,
                5000,
                salt.clone(),
                reveal_time,
            )
            .unwrap_err(),
        Error::AlreadyVoted
    );
}

#[test]
fn commit_after_window_rejected() {
    let (mut state, dispute_id) = disputed_setup(7);
    state.select_jury(dispute_id, 1000).unwrap();
    let panel = state.get_juror_assignments(dispute_id).unwrap();
    let h = commitment_hash(DisputeResolution::RelFunds, 0, &vec![1u8; 8]);
    assert_eq!(
        state.commit_vote(dispute_id, panel[0], h, 1000 + 259200 + 1).unwrap_err(),
        Error::VotingPeriodNotActive
    );
}

#[test]
fn tally_before_reveal_window_closes_rejected() {
    let (mut state, dispute_id) = disputed_setup(7);
    state.select_jury(dispute_id, 1000).unwrap();
    assert_eq!(
        state.tally_votes(dispute_id, 1000 + 259200 + 100).unwrap_err(),
        Error::VotingPeriodNotActive
    );
}

#[test]
fn juror_on_panel_cannot_deregister() {
    let (mut state, dispute_id) = disputed_setup(7);
    state.select_jury(dispute_id, 1000).unwrap();
    let panel = state.get_juror_assignments(dispute_id).unwrap();
    assert_eq!(
        state.deregister_as_juror(panel[0]).unwrap_err(),
        Error::JurorHasActiveDispute
    );
}

#[test]
fn majority_rewarded_minority_slashed() {
    // Seven assigned jurors; four reveal "release funds", three reveal
    // "refund backers".
    let (mut state, dispute_id) = disputed_setup(7);
    state.select_jury(dispute_id, 1000).unwrap();
    let panel = state.get_juror_assignments(dispute_id).unwrap();
    assert_eq!(panel.len(), 7);

    let salt = vec![42u8; 32];
    for i in 0..panel.len() {
        let juror = panel[i];
        let vote = if juror < 104 {
            DisputeResolution::RelFunds
        } else {
            DisputeResolution::RefBackers
        };
        let h = commitment_hash(vote, 0, &salt);
        state.commit_vote(dispute_id, juror, h, 1000).unwrap();
    }

    let reveal_time = 1000 + 259200 + 1;
    for i in 0..panel.len() {
        let juror = panel[i];
        let vote = if juror < 104 {
            DisputeResolution::RelFunds
        } else {
            DisputeResolution::RefBackers
        };
        state.reveal_vote(dispute_id, juror, vote, 0, salt.clone(), reveal_time).unwrap();
    }

    let tally_time = 1000 + 259200 + 172800 + 1;
    state.tally_votes(dispute_id, tally_time).unwrap();

    let dispute = state.get_dispute(dispute_id).unwrap();
    assert_eq!(dispute.resolution, DisputeResolution::RelFunds);
    assert_eq!(dispute.status, DisputeStatus::Resolved);

    // Three minority jurors each forfeit a tenth of the minimum stake,
    // which the four majority jurors then split evenly: 300_000_000 / 4.
    for j in 100..104u64 {
        let info = state.get_juror(j).unwrap();
        assert_eq!(info.staked_amount, 500_0000000 + 75_000_000);
        assert_eq!(info.successful_votes, 1);
        assert_eq!(info.missed_votes, 0);
        assert_eq!(info.active_disputes, 0);
    }
    for j in 104..107u64 {
        let info = state.get_juror(j).unwrap();
        assert_eq!(info.staked_amount, 500_0000000 - 100_000_000);
        assert_eq!(info.successful_votes, 0);
        assert_eq!(info.missed_votes, 1);
        assert_eq!(info.active_disputes, 0);
    }
    assert_eq!(state.fee_pool, 0, "the pool divided evenly, no remainder");

    // Enforcement after the appeal window releases the milestone amount.
    assert_eq!(
        state.execute_resolution(dispute_id, tally_time + 100).unwrap_err(),
        Error::AppealWindowClosed,
        "the appeal window must elapse first"
    );
    state.execute_resolution(dispute_id, tally_time + 86400 + 1).unwrap();
    assert_eq!(state.get_dispute(dispute_id).unwrap().status, DisputeStatus::FinalResolved);
    assert_eq!(state.get_milestone(1, 0).unwrap().status, MilestoneStatus::Approved);
    assert_eq!(state.get_escrow(1).unwrap().released_amount, 500);
}

#[test]
fn no_reveal_defaults_to_refund() {
    let (mut state, dispute_id) = disputed_setup(7);
    state.select_jury(dispute_id, 1000).unwrap();
    let tally_time = 1000 + 259200 + 172800 + 1;
    state.tally_votes(dispute_id, tally_time).unwrap();

    let dispute = state.get_dispute(dispute_id).unwrap();
    assert_eq!(dispute.resolution, DisputeResolution::RefBackers);

    // Everyone missed; everyone is slashed.
    for j in 100..107u64 {
        let info = state.get_juror(j).unwrap();
        assert_eq!(info.staked_amount, 500_0000000 - 100_000_000);
        assert_eq!(info.missed_votes, 1);
    }
    assert_eq!(state.fee_pool, 7 * 100_000_000);

    state.execute_resolution(dispute_id, tally_time + 86400 + 1).unwrap();
    assert_eq!(state.get_milestone(1, 0).unwrap().status, MilestoneStatus::Rejected);
    assert_eq!(state.get_escrow(1).unwrap().released_amount, 0);
}

#[test]
fn partial_release_enforces_clamped_percentage() {
    let (mut state, dispute_id) = disputed_setup(7);
    state.select_jury(dispute_id, 1000).unwrap();
    let panel = state.get_juror_assignments(dispute_id).unwrap();

    let salt = vec![3u8; 16];
    for i in 0..panel.len() {
        let h = commitment_hash(DisputeResolution::PartRel, 6000, &salt);
        state.commit_vote(dispute_id, panel[i], h, 1000).unwrap();
    }
    let reveal_time = 1000 + 259200 + 1;
    for i in 0..panel.len() {
        state
            .reveal_vote(dispute_id, panel[i], DisputeResolution::PartRel, 6000, salt.clone(), reveal_time)
            .unwrap();
    }
    let tally_time = 1000 + 259200 + 172800 + 1;
    state.tally_votes(dispute_id, tally_time).unwrap();
    state.execute_resolution(dispute_id, tally_time + 86400 + 1).unwrap();

    // 60% of the 500 milestone amount.
    assert_eq!(state.get_escrow(1).unwrap().released_amount, 300);
    assert_eq!(state.get_milestone(1, 0).unwrap().status, MilestoneStatus::Approved);
}

#[test]
fn dispute_requires_contested_milestone_and_standing() {
    let mut state = EscrowContract::new();
    state.initialize_admin(ADMIN).unwrap();
    state.configure_dispute_token(JUROR_TOKEN).unwrap();
    state.initialize(1, CREATOR, TOKEN, validators(), THRESHOLD).unwrap();
    state.deposit(1, 1000).unwrap();
    state.create_milestone(1, vec![1u8; 32], 500, 1000).unwrap();

    // A pending milestone is not contestable.
    assert_eq!(
        state.initiate_dispute(1, 0, CREATOR, 0, 1000).unwrap_err(),
        Error::MilestoneNotContested
    );

    state.submit_milestone(1, 0, vec![9u8; 32]).unwrap();

    // A backer below the contribution minimum has no standing.
    assert_eq!(
        state.initiate_dispute(1, 0, 555, 99_999_999, 1000).unwrap_err(),
        Error::Unauthorized
    );
    // A backer at the minimum does.
    let id = state.initiate_dispute(1, 0, 555, 100_000_000, 1000).unwrap();
    assert_eq!(id, 1);

    // Unknown disputes are reported as such.
    assert_eq!(state.select_jury(5, 1000).unwrap_err(), Error::DisputeNotFound);
}

#[test]
fn juror_registration_requires_configuration_and_stake() {
    let mut state = EscrowContract::new();
    state.initialize_admin(ADMIN).unwrap();
    assert_eq!(
        state.register_as_juror(100, 500_0000000).unwrap_err(),
        Error::NotInitialized,
        "the staking token must be configured first"
    );
    state.configure_dispute_token(JUROR_TOKEN).unwrap();
    assert_eq!(
        state.register_as_juror(100, 999_999_999).unwrap_err(),
        Error::InsufficientJurorStake
    );
    state.register_as_juror(100, 1_000_000_000).unwrap();
}

#[test]
fn appeals_exhaust_into_final_enforcement() {
    // Three appeals use up the cap; the next tally enforces immediately.
    // Four disjoint panels of 7 + 13 + 13 + 13 use all 46 jurors exactly.
    let (mut state, dispute_id) = disputed_setup(46);
    let mut now: u64 = 1000;
    state.select_jury(dispute_id, now).unwrap();

    let appellant: u64 = 700;
    for _round in 0..3 {
        now += 259200 + 172800 + 1;
        state.tally_votes(dispute_id, now).unwrap();
        assert_eq!(state.get_dispute(dispute_id).unwrap().status, DisputeStatus::Resolved);
        state.file_appeal(dispute_id, appellant, now).unwrap();
        assert_eq!(state.get_dispute(dispute_id).unwrap().status, DisputeStatus::Voting);
    }
    assert_eq!(state.get_dispute(dispute_id).unwrap().appeal_count, 3);

    // Nobody ever revealed, so each round resolved to refunding the
    // backers; with the appeal cap reached, the tally enforces at once.
    now += 259200 + 172800 + 1;
    state.tally_votes(dispute_id, now).unwrap();
    let dispute = state.get_dispute(dispute_id).unwrap();
    assert_eq!(dispute.status, DisputeStatus::FinalResolved);
    assert_eq!(dispute.resolution, DisputeResolution::RefBackers);
    assert_eq!(state.get_milestone(1, 0).unwrap().status, MilestoneStatus::Rejected);
    assert_eq!(state.get_escrow(1).unwrap().released_amount, 0);

    // Every juror sat exactly once and was slashed exactly once; the
    // pool holds the 46 slashes and the 3 appeal fees.
    for j in 100..146u64 {
        let info = state.get_juror(j).unwrap();
        assert_eq!(info.staked_amount, 500_0000000 - 100_000_000);
        assert_eq!(info.missed_votes, 1);
        assert_eq!(info.active_disputes, 0);
    }
    assert_eq!(state.fee_pool, 46 * 100_000_000 + 3 * 100_000_000);
}

#[test]
fn reveal_accepts_large_salts() {
    // A commit-reveal round trip with a multi-megabyte salt: hashing the
    // caller-supplied bytes never aborts inside the verified operations.
    let (mut state, dispute_id) = disputed_setup(7);
    state.select_jury(dispute_id, 1000).unwrap();
    let panel = state.get_juror_assignments(dispute_id).unwrap();
    let juror = panel[0];

    let salt = vec![7u8; 2_000_000];
    let h = commitment_hash(DisputeResolution::RelFunds, 0, &salt);
    state.commit_vote(dispute_id, juror, h, 1000).unwrap();
    state
        .reveal_vote(dispute_id, juror, DisputeResolution::RelFunds, 0, salt, 1000 + 259200 + 1)
        .unwrap();
}
