//! Enforcement of dispute resolutions against the escrow, and appeals.

use vstd::prelude::*;

use crate::constants::APPEAL_FEE;
use crate::constants::APPEAL_JURY_SIZE;
use crate::constants::APPEAL_WINDOW_PERIOD;
use crate::constants::MAX_APPEALS;
use crate::errors::Error;
use crate::jury::count_eligible;
use crate::jury::juror_eligible;
use crate::keyed::find_by_key;
use crate::keyed::lemma_key_at;
use crate::state::addrs_distinct;
use crate::state::lemma_milestone_sum_update;
use crate::state::placeholder_dispute;
use crate::state::placeholder_milestone;
use crate::state::placeholder_project;
use crate::state::vec_take;
use crate::state::EscrowContract;
use crate::types::Address;
use crate::types::Dispute;
use crate::types::DisputeResolution;
use crate::types::DisputeStatus;
use crate::types::EscrowInfo;
use crate::types::JurorInfo;
use crate::types::Milestone;
use crate::types::MilestoneStatus;
use crate::types::TokenTransfer;
use vstd::pervasive::VecAdditionalExecFns;

verus! {

/// A payload in basis points, clamped to at most 100%.
pub open spec fn clamp_bps(payload: u32) -> int {
    if payload > 10000 {
        10000int
    } else {
        payload as int
    }
}

/// Funds a resolution releases from a milestone's amount: everything,
/// nothing, or a clamped percentage.
pub open spec fn release_amount_of(res: DisputeResolution, payload: u32, amount: int) -> int {
    match res {
        DisputeResolution::RelFunds => amount,
        DisputeResolution::RefBackers => 0,
        DisputeResolution::PartRel => (amount * clamp_bps(payload)) / 10000,
        DisputeResolution::NoRes => 0,
    }
}

/// Milestone status a resolution enforces.
pub open spec fn milestone_status_after(res: DisputeResolution) -> MilestoneStatus {
    if res is RefBackers {
        MilestoneStatus::Rejected
    } else {
        MilestoneStatus::Approved
    }
}

impl EscrowContract {
    /// Outcome enforcing a resolution against the escrow owes: rejected on
    /// arithmetic overflow, and rejected when the release would exceed the
    /// deposited total (the double-release guard).
    pub open spec fn enforcement_check(
        s: Self,
        project_id: u64,
        milestone_id: u64,
        res: DisputeResolution,
        payload: u32,
    ) -> Result<(), Error> {
        let p = s.project(project_id);
        let m = p.milestones@[milestone_id as int];
        if res is PartRel && m.amount * clamp_bps(payload) > i128::MAX {
            Err(Error::InvalidInput)
        } else if p.escrow.released_amount + release_amount_of(res, payload, m.amount as int)
            > p.escrow.total_deposited {
            Err(Error::InsufficientEscrowBalance)
        } else {
            Ok(())
        }
    }

    /// What successful enforcement leaves behind beyond the project
    /// tables.
    pub open spec fn enforcement_post(
        pre: Self,
        post: Self,
        project_id: u64,
        milestone_id: u64,
        res: DisputeResolution,
        payload: u32,
    ) -> bool {
        &&& Self::enforcement_project_post(pre, post, project_id, milestone_id, res, payload)
        &&& post.same_admin_plane(pre)
        &&& post.same_jury_system(pre)
    }

    /// What successful enforcement leaves behind on the project: the
    /// milestone reaches its final status, the owed release moves into
    /// `released_amount`, and a matching transfer to the creator is
    /// recorded when anything is released.
    pub open spec fn enforcement_project_post(
        pre: Self,
        post: Self,
        project_id: u64,
        milestone_id: u64,
        res: DisputeResolution,
        payload: u32,
    ) -> bool {
        let p0 = pre.project(project_id);
        let m0 = p0.milestones@[milestone_id as int];
        let ra = release_amount_of(res, payload, m0.amount as int);
        &&& post.has_project(project_id)
        &&& post.project(project_id).escrow == (EscrowInfo {
            released_amount: (p0.escrow.released_amount + ra) as i128,
            ..p0.escrow
        })
        &&& post.project(project_id).milestones@.len() == p0.milestones@.len()
        &&& forall|j: int|
            0 <= j < p0.milestones@.len() && j != milestone_id ==> post.project(
                project_id,
            ).milestones@[j] == p0.milestones@[j]
        &&& post.project(project_id).milestones@[milestone_id as int] == (Milestone {
            status: milestone_status_after(res),
            ..m0
        })
        &&& post.project(project_id).voters == p0.voters
        &&& (ra > 0 ==> post.pending_transfers@ == pre.pending_transfers@.push(
            (TokenTransfer {
                token: p0.escrow.token,
                counterparty: p0.escrow.creator,
                amount: ra as i128,
                into_contract: false,
            }),
        ))
        &&& (ra <= 0 ==> post.pending_transfers == pre.pending_transfers)
        &&& post.other_projects_same(pre, project_id)
    }

    /// Checks, without mutating anything, whether a resolution could be
    /// enforced right now.
    pub(crate) fn check_enforcement(
        &self,
        project_id: u64,
        milestone_id: u64,
        res: DisputeResolution,
        payload: u32,
    ) -> (r: Result<(), Error>)
        requires
            self.wf(),
            self.has_project(project_id),
            milestone_id < self.project(project_id).milestones@.len(),
            res != DisputeResolution::NoRes,
        ensures
            r == Self::enforcement_check(*self, project_id, milestone_id, res, payload),
    {
        let idx = match find_by_key(&self.projects, project_id) {
            Some(i) => i,
            None => {
                proof {
                    assert(false);
                }
                return Err(Error::NotFound);
            },
        };
        proof {
            lemma_key_at(self.projects@, idx as int);
        }
        let mlen = self.projects[idx].milestones.len();
        proof {
            assert(milestone_id < mlen as u64);
        }
        let mid = milestone_id as usize;
        let amount = self.projects[idx].milestones[mid].amount;
        proof {
            assert(crate::state::milestone_wf(
                self.projects@[idx as int].milestones@[mid as int],
                mid as int,
                project_id,
            ));
        }
        let ra: i128 = match res {
            DisputeResolution::RelFunds => amount,
            DisputeResolution::RefBackers => 0,
            DisputeResolution::PartRel => {
                let pcl: i128 = if payload > 10000 {
                    10000
                } else {
                    payload as i128
                };
                proof {
                    assert(pcl == clamp_bps(payload));
                    assert(amount * pcl >= 0) by (nonlinear_arith)
                        requires
                            amount > 0,
                            0 <= pcl,
                    ;
                }
                let product = match amount.checked_mul(pcl) {
                    Some(v) => v,
                    None => {
                        return Err(Error::InvalidInput);
                    },
                };
                product / 10000
            },
            DisputeResolution::NoRes => 0,
        };
        let p_ref = &self.projects[idx];
        if ra > p_ref.escrow.total_deposited - p_ref.escrow.released_amount {
            return Err(Error::InsufficientEscrowBalance);
        }
        Ok(())
    }

    /// Applies a resolution to the milestone and escrow: sets the
    /// milestone's final status and releases the owed amount to the
    /// creator, under the double-release guard.
    pub(crate) fn apply_enforcement(
        &mut self,
        project_id: u64,
        milestone_id: u64,
        res: DisputeResolution,
        payload: u32,
    ) -> (r: Result<(), Error>)
        requires
            old(self).wf(),
            old(self).has_project(project_id),
            milestone_id < old(self).project(project_id).milestones@.len(),
            res != DisputeResolution::NoRes,
        ensures
            final(self).wf(),
            r == Self::enforcement_check(*old(self), project_id, milestone_id, res, payload),
            r is Ok ==> Self::enforcement_post(
                *old(self),
                *final(self),
                project_id,
                milestone_id,
                res,
                payload,
            ) && final(self).same_disputes(*old(self)),
            r is Err ==> *final(self) == *old(self),
    {
        let idx = match find_by_key(&self.projects, project_id) {
            Some(i) => i,
            None => {
                proof {
                    assert(false);
                }
                return Err(Error::NotFound);
            },
        };
        proof {
            lemma_key_at(self.projects@, idx as int);
        }
        let mlen = self.projects[idx].milestones.len();
        proof {
            assert(milestone_id < mlen as u64);
        }
        let mid = milestone_id as usize;
        let amount = self.projects[idx].milestones[mid].amount;
        proof {
            assert(crate::state::milestone_wf(
                self.projects@[idx as int].milestones@[mid as int],
                mid as int,
                project_id,
            ));
        }
        let ra: i128 = match res {
            DisputeResolution::RelFunds => amount,
            DisputeResolution::RefBackers => 0,
            DisputeResolution::PartRel => {
                let pcl: i128 = if payload > 10000 {
                    10000
                } else {
                    payload as i128
                };
                proof {
                    assert(pcl == clamp_bps(payload));
                    assert(amount * pcl >= 0) by (nonlinear_arith)
                        requires
                            amount > 0,
                            0 <= pcl,
                    ;
                }
                let product = match amount.checked_mul(pcl) {
                    Some(v) => v,
                    None => {
                        return Err(Error::InvalidInput);
                    },
                };
                product / 10000
            },
            DisputeResolution::NoRes => 0,
        };
        proof {
            let m0 = old(self).project(project_id).milestones@[milestone_id as int];
            assert(ra == release_amount_of(res, payload, m0.amount as int));
            if res is PartRel {
                assert(m0.amount * clamp_bps(payload) >= 0 && (m0.amount * clamp_bps(payload))
                    / 10000 <= m0.amount) by (nonlinear_arith)
                    requires
                        m0.amount > 0,
                        0 <= clamp_bps(payload) <= 10000,
                ;
            }
        }
        let p_ref = &self.projects[idx];
        if ra > p_ref.escrow.total_deposited - p_ref.escrow.released_amount {
            return Err(Error::InsufficientEscrowBalance);
        }
        let ghost pre = *self;
        let mut p = vec_take(&mut self.projects, idx, placeholder_project());
        let mut m = vec_take(&mut p.milestones, mid, placeholder_milestone());
        m.status = match res {
            DisputeResolution::RefBackers => MilestoneStatus::Rejected,
            _ => MilestoneStatus::Approved,
        };
        let ghost m2 = m;
        proof {
            lemma_milestone_sum_update(pre.project(project_id).milestones@, mid as int, m2);
        }
        p.milestones.set(mid, m);
        p.escrow.released_amount = p.escrow.released_amount + ra;
        if ra > 0 {
            let transfer = TokenTransfer {
                token: p.escrow.token,
                counterparty: p.escrow.creator,
                amount: ra,
                into_contract: false,
            };
            self.pending_transfers.push(transfer);
        }
        let ghost p2 = p;
        self.projects.set(idx, p);
        proof {
            assert(self.projects@ =~= pre.projects@.update(idx as int, p2));
            assert(p2.milestones@ =~= pre.project(project_id).milestones@.update(mid as int, m2));
            assert(p2.wf());
            Self::lemma_commit_project(pre, *self, idx as int, p2);
        }
        Ok(())
    }

    /// Outcome `execute_resolution` owes for the given state and input.
    pub open spec fn execute_resolution_check(s: Self, dispute_id: u64, now: u64) -> Result<
        (),
        Error,
    > {
        if !s.has_dispute(dispute_id) {
            Err(Error::DisputeNotFound)
        } else {
            let d = s.dispute_state(dispute_id);
            if d.dispute.status != DisputeStatus::Resolved {
                Err(Error::InvalidInput)
            } else if now <= d.dispute.created_at + APPEAL_WINDOW_PERIOD {
                Err(Error::AppealWindowClosed)
            } else {
                Self::enforcement_check(
                    s,
                    d.dispute.project_id,
                    d.dispute.milestone_id,
                    d.dispute.resolution,
                    d.dispute.resolution_payload,
                )
            }
        }
    }

    /// Enforces a resolved dispute once its appeal window has elapsed
    /// without appeal, and finalizes the dispute.
    pub fn execute_resolution(&mut self, dispute_id: u64, now: u64) -> (r: Result<(), Error>)
        requires
            old(self).wf(),
        ensures
            final(self).wf(),
            r == Self::execute_resolution_check(*old(self), dispute_id, now),
            r is Ok ==> {
                let d0 = old(self).dispute_state(dispute_id);
                &&& final(self).disputes@.len() == old(self).disputes@.len()
                &&& final(self).dispute_state(dispute_id).dispute == (Dispute {
                    status: DisputeStatus::FinalResolved,
                    ..d0.dispute
                })
                &&& final(self).dispute_state(dispute_id).panel == d0.panel
                &&& final(self).dispute_state(dispute_id).past_panelists == d0.past_panelists
                &&& final(self).dispute_state(dispute_id).commitments == d0.commitments
                &&& final(self).other_disputes_same(*old(self), dispute_id)
                &&& Self::enforcement_post(
                    *old(self),
                    *final(self),
                    d0.dispute.project_id,
                    d0.dispute.milestone_id,
                    d0.dispute.resolution,
                    d0.dispute.resolution_payload,
                )
            },
            r is Err ==> *final(self) == *old(self),
    {
        if dispute_id == 0 || dispute_id > self.disputes.len() as u64 {
            return Err(Error::DisputeNotFound);
        }
        let di = (dispute_id - 1) as usize;
        if self.disputes[di].dispute.status != DisputeStatus::Resolved {
            return Err(Error::InvalidInput);
        }
        let created = self.disputes[di].dispute.created_at;
        let window_open = now <= created || now - created <= APPEAL_WINDOW_PERIOD;
        if window_open {
            return Err(Error::AppealWindowClosed);
        }
        let project_id = self.disputes[di].dispute.project_id;
        let milestone_id = self.disputes[di].dispute.milestone_id;
        let res = self.disputes[di].dispute.resolution;
        let payload = self.disputes[di].dispute.resolution_payload;
        proof {
            assert(self.disputes@[di as int].wf(di as int));
            assert(self.dispute_refs_wf(self.disputes@[di as int]));
        }
        let ghost pre = *self;
        match self.apply_enforcement(project_id, milestone_id, res, payload) {
            Ok(()) => {},
            Err(e) => {
                return Err(e);
            },
        }
        let ghost mid_state = *self;
        let mut entry = vec_take(&mut self.disputes, di, placeholder_dispute());
        entry.dispute.status = DisputeStatus::FinalResolved;
        let ghost entry2 = entry;
        self.disputes.set(di, entry);
        proof {
            assert(self.disputes@ =~= pre.disputes@.update(di as int, entry2));
            assert(entry2.wf(di as int)) by {
                assert(pre.disputes@[di as int].wf(di as int));
            }
            assert forall|j: int| 0 <= j < self.disputes@.len() implies (
            #[trigger] self.disputes@[j]).wf(j) && self.dispute_refs_wf(self.disputes@[j]) by {
                assert(pre.disputes@[j].wf(j));
                assert(mid_state.disputes@[j].wf(j));
                assert(mid_state.dispute_refs_wf(mid_state.disputes@[j]));
                if j != di {
                    assert(self.disputes@[j] == pre.disputes@[j]);
                }
            }
        }
        Ok(())
    }

    /// Outcome `file_appeal` owes for the given state and input.
    pub open spec fn file_appeal_check(s: Self, dispute_id: u64, now: u64) -> Result<(), Error> {
        if !s.has_dispute(dispute_id) {
            Err(Error::DisputeNotFound)
        } else {
            let d = s.dispute_state(dispute_id);
            if d.dispute.status != DisputeStatus::Resolved {
                Err(Error::InvalidInput)
            } else if now > d.dispute.created_at + APPEAL_WINDOW_PERIOD {
                Err(Error::AppealWindowClosed)
            } else if d.dispute.appeal_count >= MAX_APPEALS {
                Err(Error::MaxAppealsReached)
            } else if s.juror_token is None {
                Err(Error::NotInitialized)
            } else if s.fee_pool + APPEAL_FEE > i128::MAX {
                Err(Error::InvalidInput)
            } else if s.active_jurors@.len() < APPEAL_JURY_SIZE {
                Err(Error::InvalidInput)
            } else if Self::any_active_saturated(s) {
                Err(Error::InvalidInput)
            } else if count_eligible(
                s.active_jurors@,
                s.project(d.dispute.project_id).escrow.creator,
                d.dispute.initiator,
                d.past_panelists@,
            ) < APPEAL_JURY_SIZE {
                Err(Error::ConflictOfInterest)
            } else {
                Ok(())
            }
        }
    }

    /// What a successful appeal leaves behind: the appeal fee paid into
    /// the pool, the appeal counted, and a fresh, larger panel selected,
    /// excluding everyone who sat on an earlier round.
    pub open spec fn file_appeal_post(
        pre: Self,
        post: Self,
        dispute_id: u64,
        appellant: Address,
        now: u64,
    ) -> bool {
        let d0 = pre.dispute_state(dispute_id);
        let d1 = post.dispute_state(dispute_id);
        let panel = d1.panel@;
        &&& post.disputes@.len() == pre.disputes@.len()
        &&& d1.dispute == (Dispute {
            status: DisputeStatus::Voting,
            created_at: now,
            appeal_count: (d0.dispute.appeal_count + 1) as u32,
            ..d0.dispute
        })
        &&& panel.len() == APPEAL_JURY_SIZE
        &&& addrs_distinct(panel)
        &&& forall|j: int|
            0 <= j < panel.len() ==> pre.active_jurors@.contains(#[trigger] panel[j])
                && juror_eligible(
                panel[j],
                pre.project(d0.dispute.project_id).escrow.creator,
                d0.dispute.initiator,
                d0.past_panelists@,
            )
        &&& d1.past_panelists@ == d0.past_panelists@ + panel
        &&& d1.commitments == d0.commitments
        &&& post.other_disputes_same(pre, dispute_id)
        &&& forall|a: Address| #[trigger] post.has_juror(a) == pre.has_juror(a)
        &&& forall|a: Address|
            pre.has_juror(a) ==> #[trigger] post.juror(a) == (if panel.contains(a) {
                JurorInfo {
                    active_disputes: (pre.juror(a).active_disputes + 1) as u32,
                    ..pre.juror(a)
                }
            } else {
                pre.juror(a)
            })
        &&& post.active_jurors == pre.active_jurors
        &&& post.fee_pool == pre.fee_pool + APPEAL_FEE
        &&& post.pending_transfers@ == pre.pending_transfers@.push(
            (TokenTransfer {
                token: pre.juror_token->Some_0,
                counterparty: appellant,
                amount: APPEAL_FEE,
                into_contract: true,
            }),
        )
        &&& post.same_projects(pre)
        &&& post.same_admin_plane(pre)
    }

    /// Files an appeal on a resolved dispute within the appeal window and
    /// below the appeal cap.  The appellant pays the fixed fee into the
    /// dispute fee pool, and a fresh, larger jury is selected immediately.
    pub fn file_appeal(&mut self, dispute_id: u64, appellant: Address, now: u64) -> (r: Result<
        (),
        Error,
    >)
        requires
            old(self).wf(),
        ensures
            final(self).wf(),
            r == Self::file_appeal_check(*old(self), dispute_id, now),
            r is Ok ==> Self::file_appeal_post(*old(self), *final(self), dispute_id, appellant, now),
            r is Err ==> *final(self) == *old(self),
    {
        if dispute_id == 0 || dispute_id > self.disputes.len() as u64 {
            return Err(Error::DisputeNotFound);
        }
        let di = (dispute_id - 1) as usize;
        if self.disputes[di].dispute.status != DisputeStatus::Resolved {
            return Err(Error::InvalidInput);
        }
        let created = self.disputes[di].dispute.created_at;
        if now > created && now - created > APPEAL_WINDOW_PERIOD {
            return Err(Error::AppealWindowClosed);
        }
        if self.disputes[di].dispute.appeal_count >= MAX_APPEALS {
            return Err(Error::MaxAppealsReached);
        }
        let token = match self.juror_token {
            None => {
                return Err(Error::NotInitialized);
            },
            Some(t) => t,
        };
        if self.fee_pool > i128::MAX - APPEAL_FEE {
            return Err(Error::InvalidInput);
        }
        if self.active_jurors.len() < APPEAL_JURY_SIZE as usize {
            return Err(Error::InvalidInput);
        }
        if self.scan_active_saturated() {
            return Err(Error::InvalidInput);
        }
        let project_id = self.disputes[di].dispute.project_id;
        let initiator = self.disputes[di].dispute.initiator;
        proof {
            assert(self.dispute_refs_wf(self.disputes@[di as int]));
        }
        let pidx = match find_by_key(&self.projects, project_id) {
            Some(i) => i,
            None => {
                proof {
                    assert(false);
                }
                return Err(Error::NotFound);
            },
        };
        proof {
            lemma_key_at(self.projects@, pidx as int);
        }
        let creator = self.projects[pidx].escrow.creator;
        if !eligible_pool_reaches(
            &self.active_jurors,
            creator,
            initiator,
            &self.disputes[di].past_panelists,
            APPEAL_JURY_SIZE,
        ) {
            return Err(Error::ConflictOfInterest);
        }
        let ghost pre = *self;
        // Commit the appeal itself: fee into the pool, one more round.
        self.fee_pool = self.fee_pool + APPEAL_FEE;
        self.pending_transfers.push(
            TokenTransfer {
                token,
                counterparty: appellant,
                amount: APPEAL_FEE,
                into_contract: true,
            },
        );
        let mut entry = vec_take(&mut self.disputes, di, placeholder_dispute());
        entry.dispute.status = DisputeStatus::Appealed;
        entry.dispute.appeal_count = entry.dispute.appeal_count + 1;
        let ghost entry2 = entry;
        self.disputes.set(di, entry);
        let ghost mid_state = *self;
        proof {
            assert(self.disputes@ =~= pre.disputes@.update(di as int, entry2));
            assert(entry2.wf(di as int)) by {
                assert(pre.disputes@[di as int].wf(di as int));
            }
            assert forall|j: int| 0 <= j < self.disputes@.len() implies (
            #[trigger] self.disputes@[j]).wf(j) && self.dispute_refs_wf(self.disputes@[j]) by {
                assert(pre.disputes@[j].wf(j));
                assert(pre.dispute_refs_wf(pre.disputes@[j]));
                if j != di {
                    assert(self.disputes@[j] == pre.disputes@[j]);
                }
            }
            assert(mid_state.wf());
            assert(Self::select_jury_check(mid_state, dispute_id) is Ok) by {
                assert(mid_state.dispute_state(dispute_id) == entry2);
                assert(mid_state.dispute_state(dispute_id).required_jury_size()
                    == APPEAL_JURY_SIZE);
                assert(!Self::any_active_saturated(mid_state)) by {
                    if Self::any_active_saturated(mid_state) {
                        let w = choose|i: int|
                            0 <= i < mid_state.active_jurors@.len() && mid_state.juror(
                                mid_state.active_jurors@[i],
                            ).active_disputes == u32::MAX;
                        assert(pre.juror(pre.active_jurors@[w]).active_disputes == u32::MAX);
                    }
                }
                assert(mid_state.project(project_id) == pre.project(project_id));
            }
        }
        match self.select_jury(dispute_id, now) {
            Ok(()) => {},
            Err(_) => {
                proof {
                    assert(false);
                }
                return Err(Error::InvalidInput);
            },
        }
        proof {
            assert(Self::select_jury_post(mid_state, *self, dispute_id, now));
            assert forall|i: int|
                0 <= i < pre.disputes@.len() && i != dispute_id - 1 implies (
            #[trigger] self.disputes@[i]) == pre.disputes@[i] by {
                assert(self.disputes@[i] == mid_state.disputes@[i]);
                assert(mid_state.disputes@[i] == pre.disputes@[i]);
            }
            assert forall|a: Address|
                pre.has_juror(a) implies #[trigger] self.juror(a) == (if self.dispute_state(
                dispute_id,
            ).panel@.contains(a) {
                JurorInfo {
                    active_disputes: (pre.juror(a).active_disputes + 1) as u32,
                    ..pre.juror(a)
                }
            } else {
                pre.juror(a)
            }) by {
                assert(mid_state.has_juror(a) == pre.has_juror(a));
                assert(mid_state.juror(a) == pre.juror(a));
            }
        }
        Ok(())
    }
}

/// Whether at least `size` pool entries are eligible.
fn eligible_pool_reaches(
    active: &Vec<Address>,
    creator: Address,
    initiator: Address,
    past: &Vec<Address>,
    size: u32,
) -> (r: bool)
    ensures
        r == (count_eligible(active@, creator, initiator, past@) >= size),
{
    let mut count: u64 = 0;
    let mut i: usize = 0;
    proof {
        assert(active@.subrange(0, 0) =~= Seq::<Address>::empty());
    }
    while i < active.len()
        invariant
            i <= active@.len(),
            count == count_eligible(active@.subrange(0, i as int), creator, initiator, past@),
            count <= i,
        decreases active@.len() - i,
    {
        let a = active[i];
        proof {
            assert(active@.subrange(0, i as int + 1).drop_last() =~= active@.subrange(0, i as int));
            assert(active@.subrange(0, i as int + 1).last() == active@[i as int]);
        }
        if a != creator && a != initiator && !crate::state::contains_addr(past, a) {
            count = count + 1;
        }
        i += 1;
    }
    proof {
        assert(active@.subrange(0, active@.len() as int) =~= active@);
    }
    count >= size as u64
}

} // verus!
