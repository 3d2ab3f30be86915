//! Reputation score and badge behaviour.

use milestone_escrow::constants::REPUTATION_MAX;
use milestone_escrow::constants::REPUTATION_MIN;
use milestone_escrow::constants::REPUTATION_START;
use milestone_escrow::reputation::ReputationContract;
use milestone_escrow::types::BadgeType;

const ADMIN: u64 = 1;
const USER: u64 = 2;

fn setup_env() -> ReputationContract {
    ReputationContract::new()
}

#[test]
fn test_initialize_success() {
    let mut rep = setup_env();
    rep.initialize(ADMIN).unwrap();

    let profile = rep.register_user(3).unwrap();
    assert_eq!(profile.score, REPUTATION_START);
}

#[test]
#[should_panic]
fn test_initialize_already_initialized() {
    let mut rep = setup_env();
    rep.initialize(ADMIN).unwrap();
    rep.initialize(ADMIN).unwrap();
}

#[test]
fn test_register_user_success() {
    let mut rep = setup_env();
    rep.initialize(ADMIN).unwrap();

    let profile = rep.register_user(USER).unwrap();

    assert_eq!(profile.score, REPUTATION_START);
    assert_eq!(profile.user, USER);
    assert_eq!(profile.badges.len(), 0);
}

#[test]
#[should_panic]
fn test_register_user_not_initialized() {
    let mut rep = setup_env();
    rep.register_user(USER).unwrap();
}

#[test]
#[should_panic]
fn test_register_user_already_registered() {
    let mut rep = setup_env();
    rep.initialize(ADMIN).unwrap();
    rep.register_user(USER).unwrap();
    rep.register_user(USER).unwrap();
}

#[test]
fn test_update_score_increase() {
    let mut rep = setup_env();
    rep.initialize(ADMIN).unwrap();
    rep.register_user(USER).unwrap();

    let new_score = rep.update_score(USER, 50).unwrap();
    assert_eq!(new_score, REPUTATION_START + 50);

    let profile = rep.get_profile(USER).unwrap();
    assert_eq!(profile.score, REPUTATION_START + 50);
}

#[test]
fn test_update_score_decrease() {
    let mut rep = setup_env();
    rep.initialize(ADMIN).unwrap();
    rep.register_user(USER).unwrap();

    let new_score = rep.update_score(USER, -30).unwrap();
    assert_eq!(new_score, REPUTATION_START - 30);
}

#[test]
fn test_update_score_clamp_at_min() {
    let mut rep = setup_env();
    rep.initialize(ADMIN).unwrap();
    rep.register_user(USER).unwrap();

    let new_score = rep.update_score(USER, -1000).unwrap();
    assert_eq!(new_score, REPUTATION_MIN);
}

#[test]
fn test_update_score_clamp_at_max() {
    let mut rep = setup_env();
    rep.initialize(ADMIN).unwrap();
    rep.register_user(USER).unwrap();

    let new_score = rep.update_score(USER, 20000).unwrap();
    assert_eq!(new_score, REPUTATION_MAX);
}

#[test]
#[should_panic]
fn test_update_score_user_not_registered() {
    let mut rep = setup_env();
    rep.initialize(ADMIN).unwrap();
    rep.update_score(USER, 50).unwrap();
}

#[test]
fn test_award_badge_success() {
    let mut rep = setup_env();
    rep.initialize(ADMIN).unwrap();
    rep.register_user(USER).unwrap();

    rep.award_badge(USER, BadgeType::Contributor).unwrap();

    let profile = rep.get_profile(USER).unwrap();
    assert_eq!(profile.badges.len(), 1);
    assert_eq!(profile.badges[0], BadgeType::Contributor);
}

#[test]
fn test_award_multiple_badges() {
    let mut rep = setup_env();
    rep.initialize(ADMIN).unwrap();
    rep.register_user(USER).unwrap();

    rep.award_badge(USER, BadgeType::Contributor).unwrap();
    rep.award_badge(USER, BadgeType::EarlyAdopter).unwrap();
    rep.award_badge(USER, BadgeType::TopInvestor).unwrap();

    let profile = rep.get_profile(USER).unwrap();
    assert_eq!(profile.badges.len(), 3);
}

#[test]
#[should_panic]
fn test_award_badge_duplicate_prevented() {
    let mut rep = setup_env();
    rep.initialize(ADMIN).unwrap();
    rep.register_user(USER).unwrap();

    rep.award_badge(USER, BadgeType::Contributor).unwrap();
    rep.award_badge(USER, BadgeType::Contributor).unwrap();
}

#[test]
#[should_panic]
fn test_award_badge_user_not_registered() {
    let mut rep = setup_env();
    rep.initialize(ADMIN).unwrap();
    rep.award_badge(USER, BadgeType::Contributor).unwrap();
}

#[test]
fn test_get_profile_success() {
    let mut rep = setup_env();
    rep.initialize(ADMIN).unwrap();
    rep.register_user(USER).unwrap();

    let profile = rep.get_profile(USER).unwrap();

    assert_eq!(profile.user, USER);
    assert_eq!(profile.score, REPUTATION_START);
    assert_eq!(profile.badges.len(), 0);
}

#[test]
#[should_panic]
fn test_get_profile_not_found() {
    let mut rep = setup_env();
    rep.initialize(ADMIN).unwrap();
    rep.get_profile(USER).unwrap();
}

#[test]
#[should_panic]
fn test_get_profile_not_initialized() {
    let rep = setup_env();
    rep.get_profile(USER).unwrap();
}

#[test]
fn test_only_admin_can_update_score() {
    let mut rep = setup_env();
    rep.initialize(ADMIN).unwrap();
    rep.register_user(USER).unwrap();

    let result = rep.update_score(USER, 50).unwrap();
    assert_eq!(result, REPUTATION_START + 50);
}

#[test]
fn test_only_admin_can_award_badge() {
    let mut rep = setup_env();
    rep.initialize(ADMIN).unwrap();
    rep.register_user(USER).unwrap();

    rep.award_badge(USER, BadgeType::Contributor).unwrap();

    let profile = rep.get_profile(USER).unwrap();
    assert_eq!(profile.badges.len(), 1);
}

#[test]
fn test_batch_update_scores() {
    let mut rep = setup_env();
    rep.initialize(ADMIN).unwrap();

    let user1: u64 = 11;
    let user2: u64 = 12;
    let user3: u64 = 13;
    rep.register_user(user1).unwrap();
    rep.register_user(user2).unwrap();
    rep.register_user(user3).unwrap();

    let updates = vec![(user1, 50i128), (user2, -30i128), (user3, 100i128)];

    let result = rep.batch_update_scores(updates).unwrap();
    assert_eq!(result.total, 3);
    assert_eq!(result.successful, 3);
    assert_eq!(result.failed, 0);

    assert_eq!(rep.get_profile(user1).unwrap().score, REPUTATION_START + 50);
    assert_eq!(rep.get_profile(user2).unwrap().score, REPUTATION_START - 30);
    assert_eq!(rep.get_profile(user3).unwrap().score, REPUTATION_START + 100);
}

#[test]
fn test_batch_update_scores_partial_failure() {
    let mut rep = setup_env();
    rep.initialize(ADMIN).unwrap();
    rep.register_user(USER).unwrap();

    let unregistered: u64 = 77;
    let updates = vec![(USER, 50i128), (unregistered, 100i128)];

    let result = rep.batch_update_scores(updates).unwrap();
    assert_eq!(result.total, 2);
    assert_eq!(result.successful, 1);
    assert_eq!(result.failed, 1);

    assert_eq!(rep.get_profile(USER).unwrap().score, REPUTATION_START + 50);
}

#[test]
fn test_batch_award_badges() {
    let mut rep = setup_env();
    rep.initialize(ADMIN).unwrap();

    let user1: u64 = 11;
    let user2: u64 = 12;
    rep.register_user(user1).unwrap();
    rep.register_user(user2).unwrap();

    let awards = vec![(user1, BadgeType::Contributor), (user2, BadgeType::EarlyAdopter)];

    let result = rep.batch_award_badges(awards).unwrap();
    assert_eq!(result.total, 2);
    assert_eq!(result.successful, 2);
    assert_eq!(result.failed, 0);

    assert_eq!(rep.get_profile(user1).unwrap().badges.len(), 1);
    assert_eq!(rep.get_profile(user2).unwrap().badges.len(), 1);
}

#[test]
fn test_batch_award_badges_partial_failure() {
    let mut rep = setup_env();
    rep.initialize(ADMIN).unwrap();
    rep.register_user(USER).unwrap();
    rep.award_badge(USER, BadgeType::Contributor).unwrap();

    let user2: u64 = 12;
    rep.register_user(user2).unwrap();

    let awards = vec![(USER, BadgeType::Contributor), (user2, BadgeType::TopInvestor)];

    let result = rep.batch_award_badges(awards).unwrap();
    assert_eq!(result.total, 2);
    assert_eq!(result.successful, 1);
    assert_eq!(result.failed, 1);

    assert_eq!(rep.get_profile(user2).unwrap().badges.len(), 1);
}

#[test]
fn test_batch_empty_and_oversized_rejected() {
    let mut rep = setup_env();
    rep.initialize(ADMIN).unwrap();
    assert!(rep.batch_update_scores(vec![]).is_err());

    let mut updates: Vec<(u64, i128)> = Vec::new();
    for i in 0..11u64 {
        updates.push((i, 1));
    }
    assert!(rep.batch_update_scores(updates).is_err());
}
