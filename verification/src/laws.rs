//! Crate-level laws of the financial ledger.
//!
//! These proof functions state, over the same spec functions the
//! operations' own contracts use, the ledger properties that hold across
//! whole sequences of operations: deposits add up exactly, and releases
//! can never exceed deposits.

use vstd::prelude::*;

use crate::keyed::lemma_key_at;
use crate::keyed::Keyed;
use crate::state::EscrowContract;
use crate::types::Amount;

verus! {

/// One deposit attempt, applied or rejected: applied exactly when the
/// deposit validation accepts it.
pub open spec fn deposit_step(
    s: EscrowContract,
    s2: EscrowContract,
    project_id: u64,
    amount: Amount,
) -> bool {
    if EscrowContract::deposit_check(s, project_id, amount) is Ok {
        EscrowContract::deposit_post(s, s2, project_id, amount)
    } else {
        s2 == s
    }
}

/// `states` walks through the outcomes of attempting `amounts` in order:
/// `states[i + 1]` is `states[i]` after the `i`-th deposit attempt.
pub open spec fn deposits_chain(
    states: Seq<EscrowContract>,
    project_id: u64,
    amounts: Seq<Amount>,
) -> bool {
    &&& states.len() == amounts.len() + 1
    &&& forall|i: int|
        0 <= i < amounts.len() ==> deposit_step(
            #[trigger] states[i],
            states[i + 1],
            project_id,
            amounts[i],
        )
}

/// Sum of the deposit amounts that are accepted along the sequence: a
/// deposit is accepted exactly when its amount is positive, the contract
/// is not paused, and the running total does not overflow.  Zero and
/// negative amounts are never counted.
pub open spec fn accepted_deposit_sum(
    total0: int,
    amounts: Seq<Amount>,
    paused: bool,
    n: int,
) -> int
    decreases n,
{
    if n <= 0 {
        0
    } else {
        let prev = accepted_deposit_sum(total0, amounts, paused, n - 1);
        if amounts[n - 1] > 0 && !paused && total0 + prev + amounts[n - 1] <= i128::MAX {
            prev + amounts[n - 1]
        } else {
            prev
        }
    }
}

/// Law: over any sequence of deposit attempts, the deposited total equals
/// the initial total plus the sum of exactly the accepted amounts, and a
/// zero or negative deposit is never accepted (it never enters the sum).
pub proof fn lemma_deposit_totals(
    states: Seq<EscrowContract>,
    project_id: u64,
    amounts: Seq<Amount>,
    n: int,
)
    requires
        deposits_chain(states, project_id, amounts),
        states[0].has_project(project_id),
        0 <= n <= amounts.len(),
    ensures
        states[n].has_project(project_id),
        states[n].pause == states[0].pause,
        states[n].project(project_id).escrow.total_deposited == states[0].project(
            project_id,
        ).escrow.total_deposited + accepted_deposit_sum(
            states[0].project(project_id).escrow.total_deposited as int,
            amounts,
            states[0].is_paused(),
            n,
        ),
    decreases n,
{
    if n > 0 {
        lemma_deposit_totals(states, project_id, amounts, n - 1);
        assert(deposit_step(states[n - 1], states[n - 1 + 1], project_id, amounts[n - 1]));
    }
}

/// Law: in every well-formed state, a project's released funds never
/// exceed its deposited total.  Every operation of this crate requires a
/// well-formed state and ensures one, so this bound holds after any
/// sequence of operations; the release paths additionally reject any
/// single release that would break it, which makes a double release
/// impossible.
pub proof fn lemma_released_within_deposits(s: EscrowContract, project_id: u64)
    requires
        s.wf(),
        s.has_project(project_id),
    ensures
        0 <= s.project(project_id).escrow.released_amount <= s.project(
            project_id,
        ).escrow.total_deposited,
{
    let i = choose|i: int|
        0 <= i < s.projects@.len() && (#[trigger] s.projects@[i].key()) == project_id;
    lemma_key_at(s.projects@, i);
    assert(s.projects@[i].wf());
}

} // verus!
