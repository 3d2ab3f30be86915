//! Pro-rata profit distribution behaviour.

use milestone_escrow::errors::ContractError;
use milestone_escrow::profit::ProfitDistribution;
use milestone_escrow::types::TokenTransfer;

const ADMIN: u64 = 1;
const ALICE: u64 = 11;
const BOB: u64 = 12;
const TOKEN: u64 = 30;

fn configured() -> ProfitDistribution {
    let mut pd = ProfitDistribution::new();
    pd.initialize(ADMIN).unwrap();
    pd.set_token(1, TOKEN).unwrap();
    pd.register_investors(1, vec![(ALICE, 6000), (BOB, 4000)]).unwrap();
    pd
}

#[test]
fn distribution_requires_initialization() {
    let mut pd = ProfitDistribution::new();
    assert_eq!(pd.set_token(1, TOKEN).unwrap_err(), ContractError::NotInitialized);
    pd.initialize(ADMIN).unwrap();
    assert_eq!(pd.get_admin(), Some(ADMIN));
    assert_eq!(pd.initialize(ADMIN).unwrap_err(), ContractError::AlreadyInitialized);
}

#[test]
fn registration_validates_shares() {
    let mut pd = ProfitDistribution::new();
    pd.initialize(ADMIN).unwrap();
    assert_eq!(
        pd.register_investors(1, vec![(ALICE, 0)]).unwrap_err(),
        ContractError::InvalidSharePercentage
    );
    assert_eq!(
        pd.register_investors(1, vec![(ALICE, 6000), (BOB, 5000)]).unwrap_err(),
        ContractError::TotalSharesNot100
    );
    pd.register_investors(1, vec![(ALICE, 6000), (BOB, 4000)]).unwrap();

    let share = pd.get_investor_share(1, ALICE).unwrap();
    assert_eq!(share.share_percentage, 6000);
    assert_eq!(share.claimable_amount, 0);
    assert_eq!(share.total_claimed, 0);
}

#[test]
fn deposit_validates_inputs() {
    let mut pd = ProfitDistribution::new();
    pd.initialize(ADMIN).unwrap();
    assert_eq!(pd.deposit_profits(1, 50, 0).unwrap_err(), ContractError::InvalidAmount);
    assert_eq!(pd.deposit_profits(1, 50, 100).unwrap_err(), ContractError::NotInitialized);
    pd.set_token(1, TOKEN).unwrap();
    assert_eq!(
        pd.deposit_profits(1, 50, 100).unwrap_err(),
        ContractError::NotInitialized,
        "shares must be registered before profits arrive"
    );
}

#[test]
fn dividends_split_pro_rata() {
    let mut pd = configured();
    pd.deposit_profits(1, 50, 1000).unwrap();

    assert_eq!(pd.get_investor_share(1, ALICE).unwrap().claimable_amount, 600);
    assert_eq!(pd.get_investor_share(1, BOB).unwrap().claimable_amount, 400);

    let paid = pd.claim_dividends(1, ALICE).unwrap();
    assert_eq!(paid, 600);
    assert_eq!(
        pd.claim_dividends(1, ALICE).unwrap_err(),
        ContractError::NothingToClaim,
        "a second claim with no new deposits pays nothing"
    );

    // A further deposit accrues again from the new anchor.
    pd.deposit_profits(1, 50, 500).unwrap();
    assert_eq!(pd.claim_dividends(1, ALICE).unwrap(), 300);
    assert_eq!(pd.claim_dividends(1, BOB).unwrap(), 600);

    let share = pd.get_investor_share(1, ALICE).unwrap();
    assert_eq!(share.total_claimed, 900);

    let transfers = pd.pending_transfers.clone();
    assert_eq!(
        transfers[0],
        TokenTransfer { token: TOKEN, counterparty: 50, amount: 1000, into_contract: true }
    );
    assert_eq!(
        transfers[1],
        TokenTransfer { token: TOKEN, counterparty: ALICE, amount: 600, into_contract: false }
    );
}

#[test]
fn outsiders_cannot_claim() {
    let mut pd = configured();
    pd.deposit_profits(1, 50, 1000).unwrap();
    assert_eq!(pd.claim_dividends(1, 77).unwrap_err(), ContractError::Unauthorized);
    assert_eq!(pd.claim_dividends(2, ALICE).unwrap_err(), ContractError::NotInitialized);
}

#[test]
fn batch_claim_skips_failing_projects() {
    let mut pd = configured();
    pd.set_token(2, TOKEN).unwrap();
    pd.register_investors(2, vec![(ALICE, 10000)]).unwrap();
    pd.deposit_profits(1, 50, 1000).unwrap();
    pd.deposit_profits(2, 50, 250).unwrap();

    // Project 9 does not exist; the duplicate of project 1 has nothing
    // left to claim the second time.
    let (result, total) = pd.batch_claim_dividends(vec![1, 9, 2, 1], ALICE).unwrap();
    assert_eq!(result.total, 4);
    assert_eq!(result.successful, 2);
    assert_eq!(result.failed, 2);
    assert_eq!(total, 600 + 250);

    assert_eq!(pd.batch_claim_dividends(vec![], ALICE).unwrap_err(), ContractError::BatchEmpty);
    let many: Vec<u64> = (0..11).collect();
    assert_eq!(
        pd.batch_claim_dividends(many, ALICE).unwrap_err(),
        ContractError::BatchLimitExceeded
    );
}

#[test]
fn reregistration_overwrites_shares() {
    let mut pd = configured();
    pd.deposit_profits(1, 50, 1000).unwrap();
    // A fresh registration resets the named investors' bookkeeping and
    // replaces the project's share total.
    pd.register_investors(1, vec![(ALICE, 2500), (BOB, 2500)]).unwrap();
    assert_eq!(pd.get_investor_share(1, ALICE).unwrap().claimable_amount, 0);
    pd.deposit_profits(1, 50, 1000).unwrap();
    // The accumulator rises by 1000 * precision / 5000 shares; each
    // 2500-bps share accrues half of the deposit.
    assert_eq!(pd.get_investor_share(1, ALICE).unwrap().claimable_amount, 500);
}
