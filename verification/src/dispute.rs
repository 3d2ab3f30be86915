//! Juror registration and the opening of disputes.

use vstd::prelude::*;

use crate::constants::MIN_CONTRIBUTION;
use crate::constants::MIN_JUROR_STAKE;
use crate::errors::Error;
use crate::keyed::find_by_key;
use crate::keyed::has_key;
use crate::keyed::lemma_key_at;
use crate::keyed::lemma_key_push;
use crate::keyed::lemma_key_remove;
use crate::state::copy_vec;
use crate::state::find_addr;
use crate::state::lemma_milestone_sum_update;
use crate::state::placeholder_milestone;
use crate::state::placeholder_project;
use crate::state::vec_take;
use crate::state::DisputeState;
use crate::state::EscrowContract;
use crate::types::Address;
use crate::types::Amount;
use crate::types::Dispute;
use crate::types::DisputeResolution;
use crate::types::DisputeStatus;
use crate::types::JurorInfo;
use crate::types::Milestone;
use crate::types::MilestoneStatus;
use crate::types::TokenTransfer;
use vstd::pervasive::VecAdditionalExecFns;

verus! {

impl EscrowContract {
    /// Outcome `configure_dispute_token` owes.
    pub open spec fn configure_dispute_token_check(s: Self) -> Result<(), Error> {
        if s.admin is None {
            Err(Error::NotInitialized)
        } else {
            Ok(())
        }
    }

    /// Records the token jurors stake and appeal fees are paid in (admin
    /// operation).
    pub fn configure_dispute_token(&mut self, token: Address) -> (r: Result<(), Error>)
        requires
            old(self).wf(),
        ensures
            final(self).wf(),
            r == Self::configure_dispute_token_check(*old(self)),
            r is Ok ==> *final(self) == (Self { juror_token: Some(token), ..*old(self) }),
            r is Err ==> *final(self) == *old(self),
    {
        if self.admin.is_none() {
            return Err(Error::NotInitialized);
        }
        self.juror_token = Some(token);
        Ok(())
    }

    /// Outcome `register_as_juror` owes for the given state and input.
    pub open spec fn register_as_juror_check(s: Self, juror: Address, stake_amount: Amount) -> Result<
        (),
        Error,
    > {
        if stake_amount < MIN_JUROR_STAKE {
            Err(Error::InsufficientJurorStake)
        } else if s.has_juror(juror) {
            Err(Error::AlreadyRegisteredAsJuror)
        } else if s.juror_token is None {
            Err(Error::NotInitialized)
        } else {
            Ok(())
        }
    }

    /// Registers the caller as a juror, staking at least the minimum;
    /// records the stake transfer into the contract.
    pub fn register_as_juror(&mut self, juror: Address, stake_amount: Amount) -> (r: Result<
        (),
        Error,
    >)
        requires
            old(self).wf(),
        ensures
            final(self).wf(),
            r == Self::register_as_juror_check(*old(self), juror, stake_amount),
            r is Ok ==> {
                &&& final(self).has_juror(juror)
                &&& final(self).juror(juror) == (JurorInfo {
                    address: juror,
                    staked_amount: stake_amount,
                    active_disputes: 0,
                    successful_votes: 0,
                    missed_votes: 0,
                })
                &&& final(self).other_jurors_same(*old(self), juror)
                &&& final(self).active_jurors@ == old(self).active_jurors@.push(juror)
                &&& final(self).fee_pool == old(self).fee_pool
                &&& final(self).pending_transfers@ == old(self).pending_transfers@.push(
                    (TokenTransfer {
                        token: old(self).juror_token->Some_0,
                        counterparty: juror,
                        amount: stake_amount,
                        into_contract: true,
                    }),
                )
                &&& final(self).same_projects(*old(self))
                &&& final(self).same_disputes(*old(self))
                &&& final(self).same_admin_plane(*old(self))
            },
            r is Err ==> *final(self) == *old(self),
    {
        if stake_amount < MIN_JUROR_STAKE {
            return Err(Error::InsufficientJurorStake);
        }
        if find_by_key(&self.jurors, juror).is_some() {
            return Err(Error::AlreadyRegisteredAsJuror);
        }
        let token = match self.juror_token {
            None => {
                return Err(Error::NotInitialized);
            },
            Some(t) => t,
        };
        let ghost pre = *self;
        let info = JurorInfo {
            address: juror,
            staked_amount: stake_amount,
            active_disputes: 0,
            successful_votes: 0,
            missed_votes: 0,
        };
        self.jurors.push(info);
        self.active_jurors.push(juror);
        self.pending_transfers.push(
            TokenTransfer { token, counterparty: juror, amount: stake_amount, into_contract: true },
        );
        proof {
            lemma_key_push(pre.jurors@, info);
            assert forall|i: int, j: int|
                0 <= i < j < self.active_jurors@.len() implies self.active_jurors@[i]
                != self.active_jurors@[j] by {
                if j < pre.active_jurors@.len() {
                    assert(pre.active_jurors@[i] != pre.active_jurors@[j]);
                } else {
                    assert(self.active_jurors@[j] == juror);
                    assert(has_key(pre.jurors@, pre.active_jurors@[i]));
                }
            }
            assert forall|j: int| 0 <= j < self.disputes@.len() implies (
            #[trigger] self.disputes@[j]).wf(j) && self.dispute_refs_wf(self.disputes@[j]) by {
                assert(pre.disputes@[j].wf(j));
                assert(pre.dispute_refs_wf(pre.disputes@[j]));
            }
        }
        Ok(())
    }

    /// Outcome `deregister_as_juror` owes for the given state and input.
    pub open spec fn deregister_as_juror_check(s: Self, juror: Address) -> Result<(), Error> {
        if !s.has_juror(juror) {
            Err(Error::NotAJuror)
        } else if s.juror(juror).active_disputes > 0 {
            Err(Error::JurorHasActiveDispute)
        } else if s.juror_token is None {
            Err(Error::NotInitialized)
        } else {
            Ok(())
        }
    }

    /// Removes a juror with no active dispute and records the return of
    /// the remaining stake.
    pub fn deregister_as_juror(&mut self, juror: Address) -> (r: Result<(), Error>)
        requires
            old(self).wf(),
        ensures
            final(self).wf(),
            r == Self::deregister_as_juror_check(*old(self), juror),
            r is Ok ==> {
                &&& !final(self).has_juror(juror)
                &&& final(self).other_jurors_same(*old(self), juror)
                &&& !final(self).active_jurors@.contains(juror)
                &&& (old(self).active_jurors@.contains(juror) ==> exists|i: int|
                    0 <= i < old(self).active_jurors@.len() && old(self).active_jurors@[i] == juror
                        && final(self).active_jurors@ == old(self).active_jurors@.remove(i))
                &&& (!old(self).active_jurors@.contains(juror) ==> final(self).active_jurors == old(
                    self,
                ).active_jurors)
                &&& final(self).fee_pool == old(self).fee_pool
                &&& final(self).pending_transfers@ == old(self).pending_transfers@.push(
                    (TokenTransfer {
                        token: old(self).juror_token->Some_0,
                        counterparty: juror,
                        amount: old(self).juror(juror).staked_amount,
                        into_contract: false,
                    }),
                )
                &&& final(self).same_projects(*old(self))
                &&& final(self).same_disputes(*old(self))
                &&& final(self).same_admin_plane(*old(self))
            },
            r is Err ==> *final(self) == *old(self),
    {
        let idx = match find_by_key(&self.jurors, juror) {
            Some(i) => i,
            None => {
                return Err(Error::NotAJuror);
            },
        };
        proof {
            lemma_key_at(self.jurors@, idx as int);
        }
        if self.jurors[idx].active_disputes > 0 {
            return Err(Error::JurorHasActiveDispute);
        }
        let token = match self.juror_token {
            None => {
                return Err(Error::NotInitialized);
            },
            Some(t) => t,
        };
        let stake = self.jurors[idx].staked_amount;
        let ghost pre = *self;
        self.jurors.remove(idx);
        self.pending_transfers.push(
            TokenTransfer { token, counterparty: juror, amount: stake, into_contract: false },
        );
        proof {
            lemma_key_remove(pre.jurors@, idx as int);
        }
        match find_addr(&self.active_jurors, juror) {
            Some(pos) => {
                let ghost mid = *self;
                self.active_jurors.remove(pos);
                proof {
                    let av = mid.active_jurors@;
                    let av2 = self.active_jurors@;
                    assert forall|i: int, j: int| 0 <= i < j < av2.len() implies av2[i]
                        != av2[j] by {
                        let si = if i < pos { i } else { i + 1 };
                        let sj = if j < pos { j } else { j + 1 };
                        assert(av2[i] == av[si] && av2[j] == av[sj]);
                        assert(av[si] != av[sj]);
                    }
                    assert forall|i: int| 0 <= i < av2.len() implies has_key(
                        self.jurors@,
                        #[trigger] av2[i],
                    ) && av2[i] != juror by {
                        let si = if i < pos { i } else { i + 1 };
                        assert(av2[i] == av[si]);
                        assert(has_key(pre.jurors@, av[si]));
                        if av[si] == juror {
                            if si < pos {
                                assert(av[si] != av[pos as int]);
                            } else if si > pos {
                                assert(av[pos as int] != av[si]);
                            }
                        }
                    }
                    assert(!self.active_jurors@.contains(juror)) by {
                        if self.active_jurors@.contains(juror) {
                            let w = choose|i: int|
                                0 <= i < self.active_jurors@.len() && self.active_jurors@[i]
                                    == juror;
                            assert(av2[w] != juror);
                        }
                    }
                }
            },
            None => {
                proof {
                    assert forall|i: int| 0 <= i < self.active_jurors@.len() implies has_key(
                        self.jurors@,
                        #[trigger] self.active_jurors@[i],
                    ) && self.active_jurors@[i] != juror by {
                        assert(has_key(pre.jurors@, pre.active_jurors@[i]));
                        assert(pre.active_jurors@.contains(pre.active_jurors@[i]));
                    }
                }
            },
        }
        proof {
            assert forall|j: int| 0 <= j < self.disputes@.len() implies (
            #[trigger] self.disputes@[j]).wf(j) && self.dispute_refs_wf(self.disputes@[j]) by {
                assert(pre.disputes@[j].wf(j));
                assert(pre.dispute_refs_wf(pre.disputes@[j]));
            }
        }
        Ok(())
    }

    /// Outcome `initiate_dispute` owes for the given state and input.
    /// `initiator_contribution` is the initiator's cumulative funding
    /// contribution to the project, as reported by the launch platform.
    pub open spec fn initiate_dispute_check(
        s: Self,
        project_id: u64,
        milestone_id: u64,
        initiator: Address,
        initiator_contribution: Amount,
    ) -> Result<u64, Error> {
        if !s.has_project(project_id) {
            Err(Error::NotFound)
        } else if milestone_id >= s.project(project_id).milestones@.len() {
            Err(Error::NotFound)
        } else if s.project(project_id).milestones@[milestone_id as int].status
            != MilestoneStatus::Rejected && s.project(project_id).milestones@[milestone_id as int].status
            != MilestoneStatus::Submitted {
            Err(Error::MilestoneNotContested)
        } else if initiator != s.project(project_id).escrow.creator && initiator_contribution
            < MIN_CONTRIBUTION {
            Err(Error::Unauthorized)
        } else if s.disputes@.len() >= u64::MAX {
            Err(Error::InvalidInput)
        } else {
            Ok((s.disputes@.len() + 1) as u64)
        }
    }

    /// Opens a dispute over a submitted or rejected milestone.  The
    /// initiator must be the project creator or a backer whose cumulative
    /// contribution reaches the fixed minimum.  Disputing a rejected
    /// milestone reopens it for a fresh validator vote while the dispute
    /// runs.
    pub fn initiate_dispute(
        &mut self,
        project_id: u64,
        milestone_id: u64,
        initiator: Address,
        initiator_contribution: Amount,
        now: u64,
    ) -> (r: Result<u64, Error>)
        requires
            old(self).wf(),
        ensures
            final(self).wf(),
            r == Self::initiate_dispute_check(
                *old(self),
                project_id,
                milestone_id,
                initiator,
                initiator_contribution,
            ),
            r is Ok ==> {
                let id = (old(self).disputes@.len() + 1) as u64;
                let m0 = old(self).project(project_id).milestones@[milestone_id as int];
                &&& final(self).disputes@.len() == old(self).disputes@.len() + 1
                &&& forall|i: int|
                    0 <= i < old(self).disputes@.len() ==> final(self).disputes@[i] == old(
                        self,
                    ).disputes@[i]
                &&& final(self).has_dispute(id)
                &&& final(self).dispute_state(id).dispute == (Dispute {
                    id,
                    milestone_id,
                    project_id,
                    initiator,
                    status: DisputeStatus::Pending,
                    created_at: now,
                    resolution: DisputeResolution::NoRes,
                    resolution_payload: 0,
                    appeal_count: 0,
                })
                &&& final(self).dispute_state(id).panel@.len() == 0
                &&& final(self).dispute_state(id).past_panelists@.len() == 0
                &&& final(self).dispute_state(id).commitments@.len() == 0
                &&& final(self).has_project(project_id)
                &&& final(self).project(project_id).escrow == old(self).project(project_id).escrow
                &&& final(self).project(project_id).milestones@.len() == old(self).project(
                    project_id,
                ).milestones@.len()
                &&& forall|j: int|
                    0 <= j < old(self).project(project_id).milestones@.len() && j != milestone_id
                        ==> final(self).project(project_id).milestones@[j] == old(self).project(
                        project_id,
                    ).milestones@[j]
                &&& (m0.status == MilestoneStatus::Rejected ==> {
                    &&& final(self).project(project_id).milestones@[milestone_id as int]
                        == (Milestone {
                        status: MilestoneStatus::Submitted,
                        approval_count: 0,
                        rejection_count: 0,
                        ..m0
                    })
                    &&& final(self).project(project_id).voters@[milestone_id as int]@.len() == 0
                })
                &&& (m0.status != MilestoneStatus::Rejected ==> final(self).project(project_id)
                    == old(self).project(project_id))
                &&& final(self).project(project_id).voters@.len() == old(self).project(
                    project_id,
                ).voters@.len()
                &&& forall|j: int|
                    0 <= j < old(self).project(project_id).voters@.len() && j != milestone_id
                        ==> final(self).project(project_id).voters@[j] == old(self).project(
                        project_id,
                    ).voters@[j]
                &&& final(self).other_projects_same(*old(self), project_id)
                &&& final(self).same_admin_plane(*old(self))
                &&& final(self).same_jury_system(*old(self))
                &&& final(self).same_transfers(*old(self))
            },
            r is Err ==> *final(self) == *old(self),
    {
        let idx = match find_by_key(&self.projects, project_id) {
            Some(i) => i,
            None => {
                return Err(Error::NotFound);
            },
        };
        proof {
            lemma_key_at(self.projects@, idx as int);
        }
        if milestone_id >= self.projects[idx].milestones.len() as u64 {
            return Err(Error::NotFound);
        }
        let mid = milestone_id as usize;
        let status = self.projects[idx].milestones[mid].status;
        if status != MilestoneStatus::Rejected && status != MilestoneStatus::Submitted {
            return Err(Error::MilestoneNotContested);
        }
        if initiator != self.projects[idx].escrow.creator && initiator_contribution
            < MIN_CONTRIBUTION {
            return Err(Error::Unauthorized);
        }
        if self.disputes.len() as u64 == u64::MAX {
            return Err(Error::InvalidInput);
        }
        let ghost pre = *self;
        if status == MilestoneStatus::Rejected {
            let mut p = vec_take(&mut self.projects, idx, placeholder_project());
            let mut m = vec_take(&mut p.milestones, mid, placeholder_milestone());
            m.status = MilestoneStatus::Submitted;
            m.approval_count = 0;
            m.rejection_count = 0;
            let ghost m2 = m;
            proof {
                lemma_milestone_sum_update(pre.project(project_id).milestones@, mid as int, m2);
            }
            p.milestones.set(mid, m);
            p.voters.set(mid, Vec::new());
            let ghost p2 = p;
            self.projects.set(idx, p);
            proof {
                assert(self.projects@ =~= pre.projects@.update(idx as int, p2));
                assert(p2.milestones@ =~= pre.project(project_id).milestones@.update(
                    mid as int,
                    m2,
                ));
                assert(p2.wf());
                Self::lemma_commit_project(pre, *self, idx as int, p2);
            }
        } else {
            proof {
                assert(*self == pre);
            }
        }
        let ghost mid_state = *self;
        let dispute_id = self.disputes.len() as u64 + 1;
        let entry = DisputeState {
            dispute: Dispute {
                id: dispute_id,
                milestone_id,
                project_id,
                initiator,
                status: DisputeStatus::Pending,
                created_at: now,
                resolution: DisputeResolution::NoRes,
                resolution_payload: 0,
                appeal_count: 0,
            },
            panel: Vec::new(),
            past_panelists: Vec::new(),
            commitments: Vec::new(),
        };
        self.disputes.push(entry);
        proof {
            assert(entry.wf(mid_state.disputes@.len() as int));
            assert(mid_state.dispute_refs_wf(entry));
            Self::lemma_add_dispute(mid_state, *self, entry);
        }
        Ok(dispute_id)
    }

    /// Returns a juror's record.
    pub fn get_juror(&self, juror: Address) -> (r: Result<JurorInfo, Error>)
        requires
            self.wf(),
        ensures
            match r {
                Ok(info) => self.has_juror(juror) && info == self.juror(juror),
                Err(e) => e == Error::NotAJuror && !self.has_juror(juror),
            },
    {
        match find_by_key(&self.jurors, juror) {
            None => Err(Error::NotAJuror),
            Some(i) => {
                proof {
                    lemma_key_at(self.jurors@, i as int);
                }
                Ok(self.jurors[i])
            },
        }
    }

    /// Returns a dispute's record.
    pub fn get_dispute(&self, dispute_id: u64) -> (r: Result<Dispute, Error>)
        requires
            self.wf(),
        ensures
            match r {
                Ok(d) => self.has_dispute(dispute_id) && d == self.dispute_state(
                    dispute_id,
                ).dispute,
                Err(e) => e == Error::DisputeNotFound && !self.has_dispute(dispute_id),
            },
    {
        if dispute_id == 0 || dispute_id > self.disputes.len() as u64 {
            return Err(Error::DisputeNotFound);
        }
        Ok(self.disputes[(dispute_id - 1) as usize].dispute)
    }

    /// Returns the jurors assigned to a dispute's current round.
    pub fn get_juror_assignments(&self, dispute_id: u64) -> (r: Result<Vec<Address>, Error>)
        requires
            self.wf(),
        ensures
            match r {
                Ok(panel) => self.has_dispute(dispute_id) && panel@ == self.dispute_state(
                    dispute_id,
                ).panel@ && panel@.len() > 0,
                Err(er) => er == Error::NotFound && (!self.has_dispute(dispute_id)
                    || self.dispute_state(dispute_id).panel@.len() == 0),
            },
    {
        if dispute_id == 0 || dispute_id > self.disputes.len() as u64 {
            return Err(Error::NotFound);
        }
        let d = &self.disputes[(dispute_id - 1) as usize];
        if d.panel.len() == 0 {
            return Err(Error::NotFound);
        }
        Ok(copy_vec(&d.panel))
    }
}

} // verus!
