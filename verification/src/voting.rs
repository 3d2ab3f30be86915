//! Weighted validator approval of milestone submissions.
//!
//! Each validator votes at most once per submission round.  After every
//! vote the tally is evaluated: enough approvals finalize the milestone as
//! approved and release its funds; enough rejections to make approval
//! unreachable finalize it as rejected.  The evaluation depends on the
//! tally alone, never on the order in which the votes arrived.

use vstd::prelude::*;

use crate::errors::Error;
use crate::keyed::find_by_key;
use crate::keyed::lemma_key_at;
use crate::state::contains_addr;
use crate::state::lemma_milestone_sum_update;
use crate::state::placeholder_milestone;
use crate::state::placeholder_project;
use crate::state::vec_take;
use crate::state::EscrowContract;
use crate::types::Address;
use crate::types::EscrowInfo;
use crate::types::Milestone;
use crate::types::MilestoneStatus;
use crate::types::TokenTransfer;
use vstd::multiset::Multiset;
use vstd::pervasive::VecAdditionalExecFns;
use vstd::seq_lib::group_to_multiset_ensures;

verus! {

/// Approvals needed to pass a threshold given in basis points: the floor
/// of `n * threshold / 10000`.
pub open spec fn required_approvals(n: int, threshold: int) -> int {
    (n * threshold) / 10000
}

/// Status a submitted milestone reaches at a given tally: approved once
/// the approvals reach the threshold, rejected once the rejections make
/// approval unreachable, otherwise still submitted.
pub open spec fn milestone_outcome(
    approvals: int,
    rejections: int,
    n: int,
    threshold: int,
) -> MilestoneStatus {
    if approvals >= required_approvals(n, threshold) {
        MilestoneStatus::Approved
    } else if rejections > n - required_approvals(n, threshold) {
        MilestoneStatus::Rejected
    } else {
        MilestoneStatus::Submitted
    }
}

/// Number of approvals in a sequence of votes (`true` approves).
pub open spec fn count_approvals(votes: Seq<bool>) -> int {
    votes.filter(|v: bool| v).len() as int
}

/// Number of rejections in a sequence of votes.
pub open spec fn count_rejections(votes: Seq<bool>) -> int {
    votes.filter(|v: bool| !v).len() as int
}

/// Status a submitted milestone reaches after a sequence of votes.
pub open spec fn votes_outcome(votes: Seq<bool>, n: int, threshold: int) -> MilestoneStatus {
    milestone_outcome(count_approvals(votes), count_rejections(votes), n, threshold)
}

/// The approval and rejection counts of a vote sequence are determined by
/// its multiset alone.
proof fn lemma_bool_counts(s: Seq<bool>)
    ensures
        count_approvals(s) == s.to_multiset().count(true),
        count_rejections(s) == s.to_multiset().count(false),
    decreases s.len(),
{
    broadcast use group_to_multiset_ensures;

    reveal(Seq::filter);
    if s.len() == 0 {
        assert(s.to_multiset() =~= Multiset::<bool>::empty());
    } else {
        let rest = s.drop_last();
        lemma_bool_counts(rest);
        assert(rest.push(s.last()) =~= s);
        assert(s.to_multiset() =~= rest.to_multiset().insert(s.last()));
    }
}

/// Law: vote-threshold evaluation is order-independent.  Two vote
/// sequences that are permutations of each other (their multisets agree,
/// so they reach the same final tally) yield the same final status.
pub proof fn lemma_vote_order_independent(v1: Seq<bool>, v2: Seq<bool>, n: int, threshold: int)
    requires
        v1.to_multiset() == v2.to_multiset(),
    ensures
        votes_outcome(v1, n, threshold) == votes_outcome(v2, n, threshold),
{
    lemma_bool_counts(v1);
    lemma_bool_counts(v2);
}

impl EscrowContract {
    /// Outcome `vote_milestone` owes for the given state and input.
    pub open spec fn vote_milestone_check(
        s: Self,
        project_id: u64,
        milestone_id: u64,
        voter: Address,
        approve: bool,
    ) -> Result<(), Error> {
        if !s.has_project(project_id) {
            Err(Error::NotFound)
        } else if !s.project(project_id).escrow.validators@.contains(voter) {
            Err(Error::NotAValidator)
        } else if milestone_id >= s.project(project_id).milestones@.len() {
            Err(Error::NotFound)
        } else if s.project(project_id).milestones@[milestone_id as int].status
            != MilestoneStatus::Submitted {
            Err(Error::InvalidMilestoneStatus)
        } else if s.project(project_id).voters@[milestone_id as int]@.contains(voter) {
            Err(Error::AlreadyVoted)
        } else if (if approve {
            s.project(project_id).milestones@[milestone_id as int].approval_count
        } else {
            s.project(project_id).milestones@[milestone_id as int].rejection_count
        }) == u32::MAX {
            Err(Error::InvalidInput)
        } else if s.is_paused() {
            Err(Error::ContractPaused)
        } else if Self::vote_outcome_of(s, project_id, milestone_id, approve)
            == MilestoneStatus::Approved && s.project(project_id).escrow.released_amount
            + s.project(project_id).milestones@[milestone_id as int].amount > s.project(
            project_id,
        ).escrow.total_deposited {
            Err(Error::InsufficientEscrowBalance)
        } else {
            Ok(())
        }
    }

    /// The status the milestone reaches once this vote is recorded.
    pub open spec fn vote_outcome_of(
        s: Self,
        project_id: u64,
        milestone_id: u64,
        approve: bool,
    ) -> MilestoneStatus {
        let m = s.project(project_id).milestones@[milestone_id as int];
        milestone_outcome(
            m.approval_count + (if approve {
                1int
            } else {
                0int
            }),
            m.rejection_count + (if approve {
                0int
            } else {
                1int
            }),
            s.project(project_id).escrow.validators@.len() as int,
            s.project(project_id).escrow.approval_threshold as int,
        )
    }

    /// What a successful vote leaves behind: the vote recorded, the tally
    /// evaluated, and on an approving finalization the funds released.
    pub open spec fn vote_milestone_post(
        pre: Self,
        post: Self,
        project_id: u64,
        milestone_id: u64,
        voter: Address,
        approve: bool,
    ) -> bool {
        let m0 = pre.project(project_id).milestones@[milestone_id as int];
        let out = Self::vote_outcome_of(pre, project_id, milestone_id, approve);
        let e0 = pre.project(project_id).escrow;
        let p1 = post.project(project_id);
        &&& post.has_project(project_id)
        &&& p1.milestones@.len() == pre.project(project_id).milestones@.len()
        &&& forall|j: int|
            0 <= j < pre.project(project_id).milestones@.len() && j != milestone_id ==> (
            #[trigger] p1.milestones@[j]) == pre.project(project_id).milestones@[j]
        &&& p1.milestones@[milestone_id as int] == (Milestone {
            status: out,
            approval_count: (m0.approval_count + (if approve {
                1int
            } else {
                0int
            })) as u32,
            rejection_count: (m0.rejection_count + (if approve {
                0int
            } else {
                1int
            })) as u32,
            ..m0
        })
        &&& p1.voters@.len() == pre.project(project_id).voters@.len()
        &&& forall|j: int|
            0 <= j < pre.project(project_id).voters@.len() && j != milestone_id ==> (
            #[trigger] p1.voters@[j]) == pre.project(project_id).voters@[j]
        &&& p1.voters@[milestone_id as int]@ == pre.project(project_id).voters@[milestone_id as int]@.push(voter)
        &&& (out == MilestoneStatus::Approved ==> {
            &&& p1.escrow == (EscrowInfo {
                released_amount: (e0.released_amount + m0.amount) as i128,
                ..e0
            })
            &&& post.pending_transfers@ == pre.pending_transfers@.push(
                (TokenTransfer {
                    token: e0.token,
                    counterparty: e0.creator,
                    amount: m0.amount,
                    into_contract: false,
                }),
            )
        })
        &&& (out != MilestoneStatus::Approved ==> {
            &&& p1.escrow == e0
            &&& post.same_transfers(pre)
        })
        &&& post.other_projects_same(pre, project_id)
        &&& post.same_admin_plane(pre)
        &&& post.same_jury_system(pre)
        &&& post.same_disputes(pre)
    }

    /// Records one validator vote on a submitted milestone and evaluates
    /// the tally.  An approving finalization releases the milestone amount
    /// to the creator, guarded against double release.
    pub fn vote_milestone(
        &mut self,
        project_id: u64,
        milestone_id: u64,
        voter: Address,
        approve: bool,
    ) -> (r: Result<(), Error>)
        requires
            old(self).wf(),
        ensures
            final(self).wf(),
            r == Self::vote_milestone_check(*old(self), project_id, milestone_id, voter, approve),
            r is Ok ==> Self::vote_milestone_post(
                *old(self),
                *final(self),
                project_id,
                milestone_id,
                voter,
                approve,
            ),
            r is Err ==> *final(self) == *old(self),
    {
        let idx = match find_by_key(&self.projects, project_id) {
            Some(i) => i,
            None => {
                return Err(Error::NotFound);
            },
        };
        proof {
            lemma_key_at(self.projects@, idx as int);
        }
        if !contains_addr(&self.projects[idx].escrow.validators, voter) {
            return Err(Error::NotAValidator);
        }
        if milestone_id >= self.projects[idx].milestones.len() as u64 {
            return Err(Error::NotFound);
        }
        let mid = milestone_id as usize;
        if self.projects[idx].milestones[mid].status != MilestoneStatus::Submitted {
            return Err(Error::InvalidMilestoneStatus);
        }
        if contains_addr(&self.projects[idx].voters[mid], voter) {
            return Err(Error::AlreadyVoted);
        }
        let m_now = &self.projects[idx].milestones[mid];
        if approve && m_now.approval_count == u32::MAX {
            return Err(Error::InvalidInput);
        }
        if !approve && m_now.rejection_count == u32::MAX {
            return Err(Error::InvalidInput);
        }
        if self.pause.paused {
            return Err(Error::ContractPaused);
        }
        let approvals: u32 = if approve {
            self.projects[idx].milestones[mid].approval_count + 1
        } else {
            self.projects[idx].milestones[mid].approval_count
        };
        let rejections: u32 = if approve {
            self.projects[idx].milestones[mid].rejection_count
        } else {
            self.projects[idx].milestones[mid].rejection_count + 1
        };
        let n128 = self.projects[idx].escrow.validators.len() as u128;
        let t128 = self.projects[idx].escrow.approval_threshold as u128;
        proof {
            assert(n128 * t128 <= u128::MAX && (n128 * t128) / 10000 <= n128) by (nonlinear_arith)
                requires
                    n128 <= u64::MAX,
                    t128 <= 10000,
            ;
        }
        let required: u128 = (n128 * t128) / 10000;
        let outcome: MilestoneStatus = if approvals as u128 >= required {
            MilestoneStatus::Approved
        } else if rejections as u128 > n128 - required {
            MilestoneStatus::Rejected
        } else {
            MilestoneStatus::Submitted
        };
        let ghost out_spec = Self::vote_outcome_of(*self, project_id, milestone_id, approve);
        proof {
            assert(outcome == out_spec);
        }
        if outcome == MilestoneStatus::Approved {
            let p = &self.projects[idx];
            if p.milestones[mid].amount > p.escrow.total_deposited - p.escrow.released_amount {
                return Err(Error::InsufficientEscrowBalance);
            }
        }
        let ghost pre = *self;
        let mut p = vec_take(&mut self.projects, idx, placeholder_project());
        let mut m = vec_take(&mut p.milestones, mid, placeholder_milestone());
        m.approval_count = approvals;
        m.rejection_count = rejections;
        m.status = outcome;
        let ghost m2 = m;
        proof {
            lemma_milestone_sum_update(pre.project(project_id).milestones@, mid as int, m2);
        }
        p.milestones.set(mid, m);
        let mut voted = vec_take(&mut p.voters, mid, Vec::new());
        voted.push(voter);
        p.voters.set(mid, voted);
        if outcome == MilestoneStatus::Approved {
            let amount = p.milestones[mid].amount;
            p.escrow.released_amount = p.escrow.released_amount + amount;
            let transfer = TokenTransfer {
                token: p.escrow.token,
                counterparty: p.escrow.creator,
                amount,
                into_contract: false,
            };
            self.pending_transfers.push(transfer);
        }
        let ghost p2 = p;
        self.projects.set(idx, p);
        proof {
            assert(self.projects@ =~= pre.projects@.update(idx as int, p2));
            assert(p2.milestones@ =~= pre.project(project_id).milestones@.update(mid as int, m2));
            assert(p2.wf());
            Self::lemma_commit_project(pre, *self, idx as int, p2);
        }
        Ok(())
    }
}

} // verus!
