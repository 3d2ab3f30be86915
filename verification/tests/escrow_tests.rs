//! Escrow, milestone, pause and upgrade behaviour.

use milestone_escrow::constants::UPGRADE_TIME_LOCK_SECS;
use milestone_escrow::errors::Error;
use milestone_escrow::state::EscrowContract;
use milestone_escrow::types::MilestoneStatus;

/// Default threshold used by the tests (67%).
const DEFAULT_THRESHOLD: u32 = 6700;

const CREATOR: u64 = 10;
const TOKEN: u64 = 20;
const ADMIN: u64 = 99;

fn validators() -> Vec<u64> {
    vec![1, 2, 3]
}

fn create_test_env() -> EscrowContract {
    EscrowContract::new()
}

fn setup_with_admin() -> EscrowContract {
    let mut state = EscrowContract::new();
    state.initialize_admin(ADMIN).unwrap();
    state
        .initialize(1, CREATOR, TOKEN, validators(), DEFAULT_THRESHOLD)
        .unwrap();
    state
}

#[test]
fn test_initialize_escrow() {
    let mut state = create_test_env();
    state
        .initialize(1, CREATOR, TOKEN, validators(), DEFAULT_THRESHOLD)
        .unwrap();

    let escrow = state.get_escrow(1).unwrap();
    assert_eq!(escrow.project_id, 1);
    assert_eq!(escrow.creator, CREATOR);
    assert_eq!(escrow.token, TOKEN);
    assert_eq!(escrow.total_deposited, 0);
    assert_eq!(escrow.released_amount, 0);
    assert_eq!(escrow.approval_threshold, DEFAULT_THRESHOLD);
}

#[test]
fn test_initialize_with_insufficient_validators() {
    let mut state = create_test_env();
    let result = state.initialize(1, CREATOR, TOKEN, vec![1], DEFAULT_THRESHOLD);
    assert!(result.is_err());
}

#[test]
fn test_initialize_duplicate_escrow() {
    let mut state = create_test_env();
    state
        .initialize(1, CREATOR, TOKEN, validators(), DEFAULT_THRESHOLD)
        .unwrap();
    let result = state.initialize(1, CREATOR, TOKEN, validators(), DEFAULT_THRESHOLD);
    assert!(result.is_err());
}

#[test]
fn test_deposit_funds() {
    let mut state = create_test_env();
    state
        .initialize(1, CREATOR, TOKEN, validators(), DEFAULT_THRESHOLD)
        .unwrap();

    let deposit_amount: i128 = 1000;
    let result = state.deposit(1, deposit_amount);
    assert!(result.is_ok());

    let escrow = state.get_escrow(1).unwrap();
    assert_eq!(escrow.total_deposited, deposit_amount);
}

#[test]
fn test_deposit_invalid_amount() {
    let mut state = create_test_env();
    state
        .initialize(1, CREATOR, TOKEN, validators(), DEFAULT_THRESHOLD)
        .unwrap();

    let result = state.deposit(1, 0);
    assert!(result.is_err());

    let result = state.deposit(1, -100);
    assert!(result.is_err());
}

#[test]
fn test_create_milestone() {
    let mut state = create_test_env();
    state
        .initialize(1, CREATOR, TOKEN, validators(), DEFAULT_THRESHOLD)
        .unwrap();
    state.deposit(1, 1000).unwrap();

    let description_hash = vec![1u8; 32];
    state
        .create_milestone(1, description_hash.clone(), 500, 1000)
        .unwrap();

    let milestone = state.get_milestone(1, 0).unwrap();
    assert_eq!(milestone.id, 0);
    assert_eq!(milestone.project_id, 1);
    assert_eq!(milestone.amount, 500);
    assert_eq!(milestone.status, MilestoneStatus::Pending);
    assert_eq!(milestone.description_hash, description_hash);
}

#[test]
fn test_create_milestone_exceeds_escrow() {
    let mut state = create_test_env();
    state
        .initialize(1, CREATOR, TOKEN, validators(), DEFAULT_THRESHOLD)
        .unwrap();
    state.deposit(1, 500).unwrap();

    let result = state.create_milestone(1, vec![2u8; 32], 1000, 1000);
    assert!(result.is_err());
}

#[test]
fn test_create_multiple_milestones() {
    let mut state = create_test_env();
    state
        .initialize(1, CREATOR, TOKEN, validators(), DEFAULT_THRESHOLD)
        .unwrap();
    state.deposit(1, 3000).unwrap();

    state.create_milestone(1, vec![1u8; 32], 1000, 1000).unwrap();
    state.create_milestone(1, vec![2u8; 32], 1000, 1000).unwrap();
    state.create_milestone(1, vec![3u8; 32], 1000, 1000).unwrap();

    assert!(state.get_milestone(1, 0).unwrap().id == 0);
    assert!(state.get_milestone(1, 1).unwrap().id == 1);
    assert!(state.get_milestone(1, 2).unwrap().id == 2);

    let total = state.get_total_milestone_amount(1).unwrap();
    assert_eq!(total, 3000);
}

#[test]
fn test_submit_milestone() {
    let mut state = create_test_env();
    state
        .initialize(1, CREATOR, TOKEN, validators(), DEFAULT_THRESHOLD)
        .unwrap();
    state.deposit(1, 1000).unwrap();
    state.create_milestone(1, vec![1u8; 32], 500, 1000).unwrap();

    let proof_hash = vec![9u8; 32];
    state.submit_milestone(1, 0, proof_hash.clone()).unwrap();

    let milestone = state.get_milestone(1, 0).unwrap();
    assert_eq!(milestone.status, MilestoneStatus::Submitted);
    assert_eq!(milestone.proof_hash, proof_hash);
}

#[test]
fn test_submit_milestone_invalid_status() {
    let mut state = create_test_env();
    state
        .initialize(1, CREATOR, TOKEN, validators(), DEFAULT_THRESHOLD)
        .unwrap();
    state.deposit(1, 1000).unwrap();
    state.create_milestone(1, vec![1u8; 32], 500, 10).unwrap();

    state.submit_milestone(1, 0, vec![9u8; 32]).unwrap();

    let result = state.submit_milestone(1, 0, vec![10u8; 32]);
    assert!(result.is_err());
}

#[test]
fn test_get_available_balance() {
    let mut state = create_test_env();
    state
        .initialize(1, CREATOR, TOKEN, validators(), DEFAULT_THRESHOLD)
        .unwrap();

    state.deposit(1, 1000).unwrap();
    let balance = state.get_available_balance(1).unwrap();
    assert_eq!(balance, 1000);

    state.deposit(1, 500).unwrap();
    let balance = state.get_available_balance(1).unwrap();
    assert_eq!(balance, 1500);
}

#[test]
fn test_escrow_not_found() {
    let state = create_test_env();
    let result = state.get_escrow(999);
    assert!(result.is_err());
}

#[test]
fn test_milestone_not_found() {
    let mut state = create_test_env();
    state
        .initialize(1, CREATOR, TOKEN, validators(), DEFAULT_THRESHOLD)
        .unwrap();

    let result = state.get_milestone(1, 999);
    assert!(result.is_err());
}

#[test]
fn test_milestone_status_transitions() {
    let mut state = create_test_env();
    state
        .initialize(1, CREATOR, TOKEN, validators(), DEFAULT_THRESHOLD)
        .unwrap();
    state.deposit(1, 1000).unwrap();
    state.create_milestone(1, vec![1u8; 32], 500, 1000).unwrap();

    let milestone = state.get_milestone(1, 0).unwrap();
    assert_eq!(milestone.status, MilestoneStatus::Pending);
    assert_eq!(milestone.approval_count, 0);
    assert_eq!(milestone.rejection_count, 0);

    let proof_hash = vec![9u8; 32];
    state.submit_milestone(1, 0, proof_hash.clone()).unwrap();

    let milestone = state.get_milestone(1, 0).unwrap();
    assert_eq!(milestone.status, MilestoneStatus::Submitted);
    assert_eq!(milestone.proof_hash, proof_hash);
}

#[test]
fn test_deposit_updates_correctly() {
    let mut state = create_test_env();
    state
        .initialize(1, CREATOR, TOKEN, validators(), DEFAULT_THRESHOLD)
        .unwrap();

    state.deposit(1, 500).unwrap();
    assert_eq!(state.get_escrow(1).unwrap().total_deposited, 500);

    state.deposit(1, 300).unwrap();
    assert_eq!(state.get_escrow(1).unwrap().total_deposited, 800);

    state.deposit(1, 200).unwrap();
    assert_eq!(state.get_escrow(1).unwrap().total_deposited, 1000);
}

#[test]
fn test_multiple_projects_isolated() {
    let mut state = create_test_env();
    state
        .initialize(1, CREATOR, TOKEN, validators(), DEFAULT_THRESHOLD)
        .unwrap();

    let escrow1 = state.get_escrow(1).unwrap();
    assert_eq!(escrow1.project_id, 1);
}

#[test]
fn test_juror_registration() {
    let mut state = create_test_env();
    state.initialize_admin(ADMIN).unwrap();
    state.configure_dispute_token(21).unwrap();

    let juror: u64 = 200;
    let stake: i128 = 500_0000000;

    state.register_as_juror(juror, stake).unwrap();
    assert!(state.register_as_juror(juror, stake).is_err());

    state.deregister_as_juror(juror).unwrap();
    assert!(state.deregister_as_juror(juror).is_err());
}

#[test]
fn test_initialize_with_low_threshold() {
    let mut state = create_test_env();
    let result = state.initialize(1, CREATOR, TOKEN, validators(), 5000);
    assert!(result.is_err(), "threshold below 51% should be rejected");
}

#[test]
fn test_initialize_with_threshold_above_100() {
    let mut state = create_test_env();
    let result = state.initialize(1, CREATOR, TOKEN, validators(), 10100);
    assert!(result.is_err(), "threshold above 100% should be rejected");
}

#[test]
fn test_minimum_valid_threshold_accepted() {
    let mut state = create_test_env();
    let result = state.initialize(1, CREATOR, TOKEN, validators(), 5100);
    assert!(result.is_ok(), "5100 basis points (51%) should be accepted");
}

#[test]
fn test_maximum_valid_threshold_accepted() {
    let mut state = create_test_env();
    let result = state.initialize(1, CREATOR, TOKEN, validators(), 10000);
    assert!(result.is_ok(), "10000 basis points (100%) should be accepted");
}

#[test]
fn test_different_projects_have_independent_thresholds() {
    let mut state = create_test_env();
    state.initialize(1, CREATOR, TOKEN, validators(), 6700).unwrap();
    state.initialize(2, CREATOR, TOKEN, validators(), 10000).unwrap();

    assert_eq!(state.get_escrow(1).unwrap().approval_threshold, 6700);
    assert_eq!(state.get_escrow(2).unwrap().approval_threshold, 10000);
}

#[test]
fn test_dispute_happy_path() {
    let mut state = create_test_env();
    state.initialize_admin(ADMIN).unwrap();
    state.configure_dispute_token(21).unwrap();
    state
        .initialize(1, CREATOR, TOKEN, validators(), DEFAULT_THRESHOLD)
        .unwrap();

    for j in 0..7u64 {
        state.register_as_juror(100 + j, 500_0000000).unwrap();
    }

    state.deposit(1, 1000).unwrap();
    state.create_milestone(1, vec![1u8; 32], 500, 1000).unwrap();
    state.create_milestone(1, vec![1u8; 32], 500, 1000).unwrap();
    state.submit_milestone(1, 0, vec![9u8; 32]).unwrap();

    state.vote_milestone(1, 0, 1, true).unwrap();
    assert_eq!(
        state.get_milestone(1, 0).unwrap().status,
        MilestoneStatus::Submitted,
        "one approval does not reach the 67% threshold with 3 validators"
    );

    state.vote_milestone(1, 0, 2, true).unwrap();
    assert_eq!(
        state.get_milestone(1, 0).unwrap().status,
        MilestoneStatus::Approved,
        "two approvals reach the 67% threshold with 3 validators"
    );

    let result = state.vote_milestone(1, 0, 3, true);
    assert!(result.is_err(), "the milestone is finalized, no further vote");
}

#[test]
fn test_dispute_appeals_path() {
    let mut state = create_test_env();
    state.initialize_admin(ADMIN).unwrap();
    state.configure_dispute_token(21).unwrap();
    state
        .initialize(1, CREATOR, TOKEN, validators(), DEFAULT_THRESHOLD)
        .unwrap();

    for j in 0..20u64 {
        state.register_as_juror(100 + j, 500_0000000).unwrap();
    }

    state.deposit(1, 1000).unwrap();
    state.create_milestone(1, vec![1u8; 32], 500, 1000).unwrap();
    state.submit_milestone(1, 0, vec![9u8; 32]).unwrap();

    state.vote_milestone(1, 0, 1, false).unwrap();
    state.vote_milestone(1, 0, 2, false).unwrap();

    let dispute_id = state.initiate_dispute(1, 0, CREATOR, 0, 1000).unwrap();
    state.select_jury(dispute_id, 1000).unwrap();

    let salt = vec![123u8; 32];
    let assigned_jurors = state.get_juror_assignments(dispute_id).unwrap();
    for i in 0..7 {
        let juror = assigned_jurors[i];
        let h = milestone_escrow::commit_reveal::commitment_hash(
            milestone_escrow::types::DisputeResolution::RelFunds,
            0,
            &salt,
        );
        state.commit_vote(dispute_id, juror, h, 1000).unwrap();
    }

    let mut now: u64 = 1000 + 259201;
    for j in 0..7 {
        let juror = assigned_jurors[j];
        state
            .reveal_vote(
                dispute_id,
                juror,
                milestone_escrow::types::DisputeResolution::RelFunds,
                0,
                salt.clone(),
                now,
            )
            .unwrap();
    }

    now += 172801;
    state.tally_votes(dispute_id, now).unwrap();

    let appellant: u64 = 500;
    state.file_appeal(dispute_id, appellant, now).unwrap();

    state.vote_milestone(1, 0, 1, true).unwrap();
    assert_eq!(
        state.get_milestone(1, 0).unwrap().status,
        MilestoneStatus::Submitted,
        "one approval should not meet the 67% threshold with 3 validators"
    );

    state.vote_milestone(1, 0, 2, true).unwrap();
    assert_eq!(
        state.get_milestone(1, 0).unwrap().status,
        MilestoneStatus::Approved,
        "two approvals should meet the 67% threshold with 3 validators"
    );
}

#[test]
fn test_is_paused_defaults_to_false() {
    let state = setup_with_admin();
    assert!(!state.get_is_paused());
}

#[test]
fn test_pause_sets_paused_state() {
    let mut state = setup_with_admin();
    state.pause(ADMIN, 1000).unwrap();
    assert!(state.get_is_paused());
}

#[test]
fn test_pause_blocks_deposit() {
    let mut state = setup_with_admin();
    state.pause(ADMIN, 1000).unwrap();

    let result = state.deposit(1, 500);
    assert!(result.is_err(), "deposit should be blocked when paused");
}

#[test]
fn test_pause_blocks_create_milestone() {
    let mut state = setup_with_admin();
    state.deposit(1, 1000).unwrap();
    state.pause(ADMIN, 1000).unwrap();

    let result = state.create_milestone(1, vec![1u8; 32], 500, 1000);
    assert!(result.is_err(), "create_milestone should be blocked when paused");
}

#[test]
fn test_pause_blocks_submit_milestone() {
    let mut state = setup_with_admin();
    state.deposit(1, 1000).unwrap();
    state.create_milestone(1, vec![1u8; 32], 500, 1000).unwrap();
    state.pause(ADMIN, 1000).unwrap();

    let result = state.submit_milestone(1, 0, vec![9u8; 32]);
    assert!(result.is_err(), "submit_milestone should be blocked when paused");
}

#[test]
fn test_pause_blocks_vote_milestone() {
    let mut state = setup_with_admin();
    state.deposit(1, 1000).unwrap();
    state.create_milestone(1, vec![1u8; 32], 500, 1000).unwrap();
    state.submit_milestone(1, 0, vec![9u8; 32]).unwrap();
    state.pause(ADMIN, 1000).unwrap();

    let result = state.vote_milestone(1, 0, 1, true);
    assert!(result.is_err(), "vote_milestone should be blocked when paused");
}

#[test]
fn test_resume_before_time_delay_fails() {
    let mut state = setup_with_admin();
    state.pause(ADMIN, 1000).unwrap();

    let result = state.resume(ADMIN, 1000 + 3600);
    assert!(result.is_err(), "resume should fail before time delay expires");
}

#[test]
fn test_resume_after_time_delay_succeeds() {
    let mut state = setup_with_admin();
    state.pause(ADMIN, 1000).unwrap();

    let result = state.resume(ADMIN, 1000 + 86400 + 1);
    assert!(result.is_ok(), "resume should succeed after time delay");
    assert!(!state.get_is_paused());
}

#[test]
fn test_operations_work_after_resume() {
    let mut state = setup_with_admin();
    state.pause(ADMIN, 1000).unwrap();
    state.resume(ADMIN, 1000 + 86400 + 1).unwrap();

    let result = state.deposit(1, 500);
    assert!(result.is_ok(), "deposit should work after resume");
}

#[test]
fn test_only_admin_can_pause() {
    let mut state = setup_with_admin();
    let result = state.pause(55, 1000);
    assert!(result.is_err(), "non-admin should not be able to pause");
}

#[test]
fn test_only_admin_can_resume() {
    let mut state = setup_with_admin();
    state.pause(ADMIN, 1000).unwrap();

    let result = state.resume(55, 1000 + 86400 + 1);
    assert!(result.is_err(), "non-admin should not be able to resume");
}

#[test]
fn test_schedule_upgrade_succeeds() {
    let mut state = setup_with_admin();

    let wasm_hash = vec![42u8; 32];
    let result = state.schedule_upgrade(ADMIN, wasm_hash.clone(), 1000);
    assert!(result.is_ok());

    let pending = state.get_pending_upgrade();
    assert!(pending.is_some());
    let p = pending.unwrap();
    assert_eq!(p.wasm_hash, wasm_hash);
    assert_eq!(p.execute_not_before, 1000 + UPGRADE_TIME_LOCK_SECS);
}

#[test]
fn test_execute_upgrade_too_early_fails() {
    let mut state = setup_with_admin();
    state.schedule_upgrade(ADMIN, vec![42u8; 32], 1000).unwrap();
    state.pause(ADMIN, 1000).unwrap();

    let result = state.execute_upgrade(ADMIN, 1000 + 3600);
    assert!(result.is_err(), "execute_upgrade should fail before 48h");
}

#[test]
fn test_execute_upgrade_without_pause_fails() {
    let mut state = setup_with_admin();
    state.schedule_upgrade(ADMIN, vec![42u8; 32], 1000).unwrap();

    let result = state.execute_upgrade(ADMIN, 1000 + UPGRADE_TIME_LOCK_SECS + 1);
    assert!(result.is_err(), "execute_upgrade should fail when not paused");
}

#[test]
fn test_cancel_upgrade_clears_pending() {
    let mut state = setup_with_admin();
    state.schedule_upgrade(ADMIN, vec![42u8; 32], 1000).unwrap();
    assert!(state.get_pending_upgrade().is_some());

    state.cancel_upgrade(ADMIN).unwrap();
    assert!(state.get_pending_upgrade().is_none());
}

#[test]
fn test_only_admin_can_schedule_upgrade() {
    let mut state = setup_with_admin();
    let result = state.schedule_upgrade(55, vec![42u8; 32], 1000);
    assert!(result.is_err());
}

#[test]
fn test_error_values_are_specific() {
    let mut state = create_test_env();
    assert_eq!(state.get_escrow(1).unwrap_err(), Error::NotFound);
    state
        .initialize(1, CREATOR, TOKEN, validators(), DEFAULT_THRESHOLD)
        .unwrap();
    assert_eq!(state.deposit(1, 0).unwrap_err(), Error::InvalidInput);
    assert_eq!(
        state
            .initialize(1, CREATOR, TOKEN, validators(), DEFAULT_THRESHOLD)
            .unwrap_err(),
        Error::AlreadyInitialized
    );
}
