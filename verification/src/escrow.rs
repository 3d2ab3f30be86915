//! Escrow initialization, deposits, and the milestone lifecycle.

use vstd::prelude::*;

use crate::constants::MAX_APPROVAL_THRESHOLD;
use crate::constants::MIN_APPROVAL_THRESHOLD;
use crate::constants::MIN_VALIDATORS;
use crate::errors::Error;
use crate::keyed::find_by_key;
use crate::keyed::lemma_key_at;
use crate::state::clone_escrow;
use crate::state::clone_milestone;
use crate::state::escrow_matches;
use crate::state::lemma_milestone_sum_prefix;
use crate::state::lemma_milestone_sum_push;
use crate::state::lemma_milestone_sum_update;
use crate::state::milestone_amount_sum;
use crate::state::milestone_matches;
use crate::state::placeholder_milestone;
use crate::state::placeholder_project;
use crate::state::vec_take;
use crate::state::EscrowContract;
use crate::state::ProjectState;
use crate::types::Address;
use crate::types::Amount;
use crate::types::EscrowInfo;
use crate::types::Milestone;
use crate::types::MilestoneStatus;
use vstd::pervasive::VecAdditionalExecFns;

verus! {

/// The all-zero placeholder proof hash a milestone carries until its proof
/// is submitted.
pub open spec fn zero_hash() -> Seq<u8> {
    Seq::new(32, |i: int| 0u8)
}

impl EscrowContract {
    /// Outcome `initialize_admin` owes for the given state and input.
    pub open spec fn initialize_admin_check(s: Self) -> Result<(), Error> {
        if s.admin is Some {
            Err(Error::AlreadyInitialized)
        } else {
            Ok(())
        }
    }

    /// Records the platform admin; legal exactly once.
    pub fn initialize_admin(&mut self, admin: Address) -> (r: Result<(), Error>)
        requires
            old(self).wf(),
        ensures
            final(self).wf(),
            r == Self::initialize_admin_check(*old(self)),
            r is Ok ==> *final(self) == (Self { admin: Some(admin), ..*old(self) }),
            r is Err ==> *final(self) == *old(self),
    {
        if self.admin.is_some() {
            return Err(Error::AlreadyInitialized);
        }
        self.admin = Some(admin);
        Ok(())
    }

    /// Outcome `initialize` owes for the given state and input.
    pub open spec fn initialize_check(
        s: Self,
        project_id: u64,
        n_validators: int,
        approval_threshold: u32,
    ) -> Result<(), Error> {
        if n_validators < MIN_VALIDATORS {
            Err(Error::InvalidInput)
        } else if s.has_project(project_id) {
            Err(Error::AlreadyInitialized)
        } else if approval_threshold < MIN_APPROVAL_THRESHOLD || approval_threshold
            > MAX_APPROVAL_THRESHOLD {
            Err(Error::InvalidInput)
        } else {
            Ok(())
        }
    }

    /// Creates the escrow of a project with zero balances and no
    /// milestones; fails if the project already exists, the validator set
    /// is too small, or the threshold is out of range.
    pub fn initialize(
        &mut self,
        project_id: u64,
        creator: Address,
        token: Address,
        validators: Vec<Address>,
        approval_threshold: u32,
    ) -> (r: Result<(), Error>)
        requires
            old(self).wf(),
        ensures
            final(self).wf(),
            r == Self::initialize_check(
                *old(self),
                project_id,
                validators@.len() as int,
                approval_threshold,
            ),
            r is Ok ==> {
                &&& final(self).has_project(project_id)
                &&& final(self).project(project_id).escrow == (EscrowInfo {
                    project_id,
                    creator,
                    token,
                    total_deposited: 0,
                    released_amount: 0,
                    validators,
                    approval_threshold,
                })
                &&& final(self).project(project_id).milestones@.len() == 0
                &&& final(self).project(project_id).voters@.len() == 0
                &&& final(self).other_projects_same(*old(self), project_id)
                &&& final(self).same_admin_plane(*old(self))
                &&& final(self).same_jury_system(*old(self))
                &&& final(self).same_disputes(*old(self))
                &&& final(self).same_transfers(*old(self))
            },
            r is Err ==> *final(self) == *old(self),
    {
        if validators.len() < MIN_VALIDATORS as usize {
            return Err(Error::InvalidInput);
        }
        if find_by_key(&self.projects, project_id).is_some() {
            return Err(Error::AlreadyInitialized);
        }
        if approval_threshold < MIN_APPROVAL_THRESHOLD || approval_threshold
            > MAX_APPROVAL_THRESHOLD {
            return Err(Error::InvalidInput);
        }
        let ghost pre = *self;
        let project = ProjectState {
            escrow: EscrowInfo {
                project_id,
                creator,
                token,
                total_deposited: 0,
                released_amount: 0,
                validators,
                approval_threshold,
            },
            milestones: Vec::new(),
            voters: Vec::new(),
        };
        proof {
            assert(project.wf());
        }
        self.projects.push(project);
        proof {
            Self::lemma_add_project(pre, *self, project);
        }
        Ok(())
    }

    /// Outcome `deposit` owes for the given state and input.
    pub open spec fn deposit_check(s: Self, project_id: u64, amount: Amount) -> Result<(), Error> {
        if !s.has_project(project_id) {
            Err(Error::NotFound)
        } else if amount <= 0 {
            Err(Error::InvalidInput)
        } else if s.is_paused() {
            Err(Error::ContractPaused)
        } else if s.project(project_id).escrow.total_deposited + amount > i128::MAX {
            Err(Error::InvalidInput)
        } else {
            Ok(())
        }
    }

    /// What a successful deposit leaves behind: the total grown by
    /// exactly `amount`, everything else untouched.
    pub open spec fn deposit_post(pre: Self, post: Self, project_id: u64, amount: Amount) -> bool {
        &&& post.has_project(project_id)
        &&& post.project(project_id).escrow == (EscrowInfo {
            total_deposited: (pre.project(project_id).escrow.total_deposited + amount) as i128,
            ..pre.project(project_id).escrow
        })
        &&& post.project(project_id).milestones == pre.project(project_id).milestones
        &&& post.project(project_id).voters == pre.project(project_id).voters
        &&& post.other_projects_same(pre, project_id)
        &&& post.same_admin_plane(pre)
        &&& post.same_jury_system(pre)
        &&& post.same_disputes(pre)
        &&& post.same_transfers(pre)
    }

    /// Adds funds to a project's escrow.  Rejects non-positive amounts,
    /// overflow, and deposits while paused; on success the total grows by
    /// exactly `amount` and nothing else changes.
    pub fn deposit(&mut self, project_id: u64, amount: Amount) -> (r: Result<(), Error>)
        requires
            old(self).wf(),
        ensures
            final(self).wf(),
            r == Self::deposit_check(*old(self), project_id, amount),
            r is Ok ==> Self::deposit_post(*old(self), *final(self), project_id, amount),
            r is Err ==> *final(self) == *old(self),
    {
        let idx = match find_by_key(&self.projects, project_id) {
            Some(i) => i,
            None => {
                return Err(Error::NotFound);
            },
        };
        proof {
            lemma_key_at(self.projects@, idx as int);
        }
        if amount <= 0 {
            return Err(Error::InvalidInput);
        }
        if self.pause.paused {
            return Err(Error::ContractPaused);
        }
        if amount > i128::MAX - self.projects[idx].escrow.total_deposited {
            return Err(Error::InvalidInput);
        }
        let ghost pre = *self;
        let mut p = vec_take(&mut self.projects, idx, placeholder_project());
        p.escrow.total_deposited = p.escrow.total_deposited + amount;
        let ghost p2 = p;
        self.projects.set(idx, p);
        proof {
            assert(self.projects@ =~= pre.projects@.update(idx as int, p2));
            Self::lemma_commit_project(pre, *self, idx as int, p2);
        }
        Ok(())
    }

    /// Outcome the escrow getter owes.
    pub open spec fn lookup_project_check(s: Self, project_id: u64) -> Result<(), Error> {
        if !s.has_project(project_id) {
            Err(Error::NotFound)
        } else {
            Ok(())
        }
    }

    /// Returns a copy of a project's escrow record.
    pub fn get_escrow(&self, project_id: u64) -> (r: Result<EscrowInfo, Error>)
        requires
            self.wf(),
        ensures
            match r {
                Ok(e) => self.has_project(project_id) && escrow_matches(
                    e,
                    self.project(project_id).escrow,
                ),
                Err(er) => er == Error::NotFound && !self.has_project(project_id),
            },
    {
        let idx = match find_by_key(&self.projects, project_id) {
            Some(i) => i,
            None => {
                return Err(Error::NotFound);
            },
        };
        proof {
            lemma_key_at(self.projects@, idx as int);
        }
        Ok(clone_escrow(&self.projects[idx].escrow))
    }

    /// Outcome the milestone getter owes.
    pub open spec fn lookup_milestone_check(s: Self, project_id: u64, milestone_id: u64) -> Result<
        (),
        Error,
    > {
        if !s.has_project(project_id) {
            Err(Error::NotFound)
        } else if milestone_id >= s.project(project_id).milestones@.len() {
            Err(Error::NotFound)
        } else {
            Ok(())
        }
    }

    /// Returns a copy of a milestone record.
    pub fn get_milestone(&self, project_id: u64, milestone_id: u64) -> (r: Result<Milestone, Error>)
        requires
            self.wf(),
        ensures
            match r {
                Ok(m) => Self::lookup_milestone_check(*self, project_id, milestone_id) is Ok
                    && milestone_matches(
                    m,
                    self.project(project_id).milestones@[milestone_id as int],
                ),
                Err(er) => Err::<(), Error>(er) == Self::lookup_milestone_check(
                    *self,
                    project_id,
                    milestone_id,
                ),
            },
    {
        let idx = match find_by_key(&self.projects, project_id) {
            Some(i) => i,
            None => {
                return Err(Error::NotFound);
            },
        };
        proof {
            lemma_key_at(self.projects@, idx as int);
        }
        let p = &self.projects[idx];
        if milestone_id >= p.milestones.len() as u64 {
            return Err(Error::NotFound);
        }
        Ok(clone_milestone(&p.milestones[milestone_id as usize]))
    }

    /// Returns the sum of all milestone amounts of a project.
    pub fn get_total_milestone_amount(&self, project_id: u64) -> (r: Result<Amount, Error>)
        requires
            self.wf(),
        ensures
            match r {
                Ok(t) => self.has_project(project_id) && t == milestone_amount_sum(
                    self.project(project_id).milestones@,
                ),
                Err(er) => er == Error::NotFound && !self.has_project(project_id),
            },
    {
        let idx = match find_by_key(&self.projects, project_id) {
            Some(i) => i,
            None => {
                return Err(Error::NotFound);
            },
        };
        proof {
            lemma_key_at(self.projects@, idx as int);
        }
        let p = &self.projects[idx];
        let ghost ms = p.milestones@;
        proof {
            assert forall|n: int| 0 <= n < ms.len() implies (#[trigger] ms[n]).amount >= 0 by {
                assert(crate::state::milestone_wf(ms[n], n, p.escrow.project_id));
            }
            assert(ms.subrange(0, 0) =~= Seq::<Milestone>::empty());
        }
        let mut total: Amount = 0;
        let mut i: usize = 0;
        while i < p.milestones.len()
            invariant
                i <= ms.len(),
                ms == p.milestones@,
                forall|n: int| 0 <= n < ms.len() ==> (#[trigger] ms[n]).amount >= 0,
                milestone_amount_sum(ms) <= i128::MAX,
                total == milestone_amount_sum(ms.subrange(0, i as int)),
            decreases ms.len() - i,
        {
            proof {
                assert(ms.subrange(0, i as int).push(ms[i as int]) =~= ms.subrange(0, i + 1));
                lemma_milestone_sum_push(ms.subrange(0, i as int), ms[i as int]);
                lemma_milestone_sum_prefix(ms, i + 1);
            }
            total = total + p.milestones[i].amount;
            i += 1;
        }
        proof {
            assert(ms.subrange(0, ms.len() as int) =~= ms);
        }
        Ok(total)
    }

    /// Returns the funds still held back by the escrow: the deposits not
    /// yet released.
    pub fn get_available_balance(&self, project_id: u64) -> (r: Result<Amount, Error>)
        requires
            self.wf(),
        ensures
            match r {
                Ok(t) => self.has_project(project_id) && t == self.project(
                    project_id,
                ).escrow.total_deposited - self.project(project_id).escrow.released_amount,
                Err(er) => er == Error::NotFound && !self.has_project(project_id),
            },
    {
        let idx = match find_by_key(&self.projects, project_id) {
            Some(i) => i,
            None => {
                return Err(Error::NotFound);
            },
        };
        proof {
            lemma_key_at(self.projects@, idx as int);
        }
        let p = &self.projects[idx];
        Ok(p.escrow.total_deposited - p.escrow.released_amount)
    }

    /// Outcome `create_milestone` owes for the given state and input.
    pub open spec fn create_milestone_check(s: Self, project_id: u64, amount: Amount) -> Result<
        (),
        Error,
    > {
        if !s.has_project(project_id) {
            Err(Error::NotFound)
        } else if amount <= 0 {
            Err(Error::InvalidInput)
        } else if milestone_amount_sum(s.project(project_id).milestones@) + amount > i128::MAX {
            Err(Error::InvalidInput)
        } else if milestone_amount_sum(s.project(project_id).milestones@) + amount > s.project(
            project_id,
        ).escrow.total_deposited {
            Err(Error::InsufficientEscrowBalance)
        } else if s.is_paused() {
            Err(Error::ContractPaused)
        } else if s.project(project_id).milestones@.len() >= u64::MAX {
            Err(Error::InvalidInput)
        } else {
            Ok(())
        }
    }

    /// What a successful milestone creation leaves behind: one new
    /// pending milestone at the end of the list, everything else
    /// untouched.
    pub open spec fn create_milestone_post(
        pre: Self,
        post: Self,
        project_id: u64,
        description_hash: Seq<u8>,
        amount: Amount,
        now: u64,
    ) -> bool {
        let p0 = pre.project(project_id);
        let p1 = post.project(project_id);
        let m = p1.milestones@.last();
        &&& post.has_project(project_id)
        &&& p1.escrow == p0.escrow
        &&& p1.milestones@.len() == p0.milestones@.len() + 1
        &&& forall|j: int| 0 <= j < p0.milestones@.len() ==> (#[trigger] p1.milestones@[j]) == p0.milestones@[j]
        &&& m.id == p0.milestones@.len()
        &&& m.project_id == project_id
        &&& m.description_hash@ == description_hash
        &&& m.amount == amount
        &&& m.status is Pending
        &&& m.proof_hash@ == zero_hash()
        &&& m.approval_count == 0
        &&& m.rejection_count == 0
        &&& m.created_at == now
        &&& p1.voters@.len() == p0.voters@.len() + 1
        &&& forall|j: int| 0 <= j < p0.voters@.len() ==> (#[trigger] p1.voters@[j]) == p0.voters@[j]
        &&& p1.voters@.last()@.len() == 0
        &&& post.other_projects_same(pre, project_id)
        &&& post.same_admin_plane(pre)
        &&& post.same_jury_system(pre)
        &&& post.same_disputes(pre)
        &&& post.same_transfers(pre)
    }

    /// Creates the next milestone of a project.  The running sum of all
    /// milestone amounts may never exceed the deposited total.
    pub fn create_milestone(
        &mut self,
        project_id: u64,
        description_hash: Vec<u8>,
        amount: Amount,
        now: u64,
    ) -> (r: Result<(), Error>)
        requires
            old(self).wf(),
        ensures
            final(self).wf(),
            r == Self::create_milestone_check(*old(self), project_id, amount),
            r is Ok ==> Self::create_milestone_post(
                *old(self),
                *final(self),
                project_id,
                description_hash@,
                amount,
                now,
            ),
            r is Err ==> *final(self) == *old(self),
    {
        let idx = match find_by_key(&self.projects, project_id) {
            Some(i) => i,
            None => {
                return Err(Error::NotFound);
            },
        };
        proof {
            lemma_key_at(self.projects@, idx as int);
        }
        if amount <= 0 {
            return Err(Error::InvalidInput);
        }
        let existing = match self.get_total_milestone_amount(project_id) {
            Ok(t) => t,
            Err(_) => {
                return Err(Error::NotFound);
            },
        };
        proof {
            lemma_milestone_sum_prefix(
                self.projects@[idx as int].milestones@,
                self.projects@[idx as int].milestones@.len() as int,
            );
            assert(self.projects@[idx as int].milestones@.subrange(
                0,
                self.projects@[idx as int].milestones@.len() as int,
            ) =~= self.projects@[idx as int].milestones@);
        }
        if amount > i128::MAX - existing {
            return Err(Error::InvalidInput);
        }
        if existing + amount > self.projects[idx].escrow.total_deposited {
            return Err(Error::InsufficientEscrowBalance);
        }
        if self.pause.paused {
            return Err(Error::ContractPaused);
        }
        if self.projects[idx].milestones.len() as u64 == u64::MAX {
            return Err(Error::InvalidInput);
        }
        let ghost pre = *self;
        let mut p = vec_take(&mut self.projects, idx, placeholder_project());
        let mut proof_hash: Vec<u8> = Vec::new();
        let mut k: usize = 0;
        while k < 32
            invariant
                k <= 32,
                proof_hash@.len() == k,
                forall|n: int| 0 <= n < k ==> proof_hash@[n] == 0u8,
            decreases 32 - k,
        {
            proof_hash.push(0u8);
            k += 1;
        }
        proof {
            assert(proof_hash@ =~= zero_hash());
        }
        let milestone = Milestone {
            id: p.milestones.len() as u64,
            project_id,
            description_hash,
            amount,
            status: MilestoneStatus::Pending,
            proof_hash,
            approval_count: 0,
            rejection_count: 0,
            created_at: now,
        };
        proof {
            lemma_milestone_sum_push(p.milestones@, milestone);
        }
        p.milestones.push(milestone);
        p.voters.push(Vec::new());
        let ghost p2 = p;
        self.projects.set(idx, p);
        proof {
            assert(self.projects@ =~= pre.projects@.update(idx as int, p2));
            assert(p2.wf());
            Self::lemma_commit_project(pre, *self, idx as int, p2);
        }
        Ok(())
    }

    /// Outcome `submit_milestone` owes for the given state and input.
    pub open spec fn submit_milestone_check(s: Self, project_id: u64, milestone_id: u64) -> Result<
        (),
        Error,
    > {
        if !s.has_project(project_id) {
            Err(Error::NotFound)
        } else if milestone_id >= s.project(project_id).milestones@.len() {
            Err(Error::NotFound)
        } else if s.project(project_id).milestones@[milestone_id as int].status
            != MilestoneStatus::Pending {
            Err(Error::InvalidMilestoneStatus)
        } else if s.is_paused() {
            Err(Error::ContractPaused)
        } else {
            Ok(())
        }
    }

    /// Submits a milestone's completion proof, opening it for validator
    /// votes with fresh counters and voter history.
    pub fn submit_milestone(&mut self, project_id: u64, milestone_id: u64, proof_hash: Vec<u8>) -> (r:
        Result<(), Error>)
        requires
            old(self).wf(),
        ensures
            final(self).wf(),
            r == Self::submit_milestone_check(*old(self), project_id, milestone_id),
            r is Ok ==> {
                &&& final(self).has_project(project_id)
                &&& final(self).project(project_id).escrow == old(self).project(project_id).escrow
                &&& final(self).project(project_id).milestones@.len() == old(self).project(
                    project_id,
                ).milestones@.len()
                &&& forall|j: int|
                    0 <= j < old(self).project(project_id).milestones@.len() && j != milestone_id
                        ==> final(self).project(project_id).milestones@[j] == old(self).project(
                        project_id,
                    ).milestones@[j]
                &&& final(self).project(project_id).milestones@[milestone_id as int]
                    == (Milestone {
                    status: MilestoneStatus::Submitted,
                    proof_hash,
                    approval_count: 0,
                    rejection_count: 0,
                    ..old(self).project(project_id).milestones@[milestone_id as int]
                })
                &&& final(self).project(project_id).voters@.len() == old(self).project(
                    project_id,
                ).voters@.len()
                &&& forall|j: int|
                    0 <= j < old(self).project(project_id).voters@.len() && j != milestone_id
                        ==> final(self).project(project_id).voters@[j] == old(self).project(
                        project_id,
                    ).voters@[j]
                &&& final(self).project(project_id).voters@[milestone_id as int]@.len() == 0
                &&& final(self).other_projects_same(*old(self), project_id)
                &&& final(self).same_admin_plane(*old(self))
                &&& final(self).same_jury_system(*old(self))
                &&& final(self).same_disputes(*old(self))
                &&& final(self).same_transfers(*old(self))
            },
            r is Err ==> *final(self) == *old(self),
    {
        let idx = match find_by_key(&self.projects, project_id) {
            Some(i) => i,
            None => {
                return Err(Error::NotFound);
            },
        };
        proof {
            lemma_key_at(self.projects@, idx as int);
        }
        if milestone_id >= self.projects[idx].milestones.len() as u64 {
            return Err(Error::NotFound);
        }
        let mid = milestone_id as usize;
        if self.projects[idx].milestones[mid].status != MilestoneStatus::Pending {
            return Err(Error::InvalidMilestoneStatus);
        }
        if self.pause.paused {
            return Err(Error::ContractPaused);
        }
        let ghost pre = *self;
        let mut p = vec_take(&mut self.projects, idx, placeholder_project());
        let mut m = vec_take(&mut p.milestones, mid, placeholder_milestone());
        let ghost m0 = m;
        m.status = MilestoneStatus::Submitted;
        m.proof_hash = proof_hash;
        m.approval_count = 0;
        m.rejection_count = 0;
        let ghost m2 = m;
        proof {
            lemma_milestone_sum_update(pre.project(project_id).milestones@, mid as int, m2);
        }
        p.milestones.set(mid, m);
        p.voters.set(mid, Vec::new());
        let ghost p2 = p;
        self.projects.set(idx, p);
        proof {
            assert(self.projects@ =~= pre.projects@.update(idx as int, p2));
            assert(p2.milestones@ =~= pre.project(project_id).milestones@.update(mid as int, m2));
            assert(p2.wf());
            Self::lemma_commit_project(pre, *self, idx as int, p2);
        }
        Ok(())
    }

    /// Outcome `update_validators` owes for the given state and input.
    pub open spec fn update_validators_check(s: Self, project_id: u64, n_validators: int) -> Result<
        (),
        Error,
    > {
        if s.admin is None {
            Err(Error::NotInitialized)
        } else if n_validators < MIN_VALIDATORS {
            Err(Error::InvalidInput)
        } else if !s.has_project(project_id) {
            Err(Error::NotFound)
        } else {
            Ok(())
        }
    }

    /// Replaces a project's validator set (admin operation).
    pub fn update_validators(&mut self, project_id: u64, new_validators: Vec<Address>) -> (r: Result<
        (),
        Error,
    >)
        requires
            old(self).wf(),
        ensures
            final(self).wf(),
            r == Self::update_validators_check(*old(self), project_id, new_validators@.len() as int),
            r is Ok ==> {
                &&& final(self).has_project(project_id)
                &&& final(self).project(project_id).escrow == (EscrowInfo {
                    validators: new_validators,
                    ..old(self).project(project_id).escrow
                })
                &&& final(self).project(project_id).milestones == old(self).project(
                    project_id,
                ).milestones
                &&& final(self).project(project_id).voters == old(self).project(project_id).voters
                &&& final(self).other_projects_same(*old(self), project_id)
                &&& final(self).same_admin_plane(*old(self))
                &&& final(self).same_jury_system(*old(self))
                &&& final(self).same_disputes(*old(self))
                &&& final(self).same_transfers(*old(self))
            },
            r is Err ==> *final(self) == *old(self),
    {
        if self.admin.is_none() {
            return Err(Error::NotInitialized);
        }
        if new_validators.len() < MIN_VALIDATORS as usize {
            return Err(Error::InvalidInput);
        }
        let idx = match find_by_key(&self.projects, project_id) {
            Some(i) => i,
            None => {
                return Err(Error::NotFound);
            },
        };
        proof {
            lemma_key_at(self.projects@, idx as int);
        }
        let ghost pre = *self;
        let mut p = vec_take(&mut self.projects, idx, placeholder_project());
        p.escrow.validators = new_validators;
        let ghost p2 = p;
        self.projects.set(idx, p);
        proof {
            assert(self.projects@ =~= pre.projects@.update(idx as int, p2));
            Self::lemma_commit_project(pre, *self, idx as int, p2);
        }
        Ok(())
    }

    /// Whether the contract is currently paused.
    pub fn get_is_paused(&self) -> (r: bool)
        ensures
            r == self.is_paused(),
    {
        self.pause.paused
    }
}

} // verus!
