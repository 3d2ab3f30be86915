//! Batch variants of milestone creation and voting.
//!
//! A batch is bounded by a fixed maximum size, applies each item's
//! validations independently, and reports how many items were applied and
//! how many were skipped; a failing item never aborts the rest.

use vstd::prelude::*;

use crate::constants::MAX_BATCH_SIZE;
use crate::errors::Error;
use crate::keyed::find_by_key;
use crate::state::copy_vec;
use crate::state::EscrowContract;
use crate::types::Address;
use crate::types::Amount;
use crate::types::BatchResult;

verus! {

impl EscrowContract {
    /// Outcome the batch-level validation owes: the batch must be
    /// non-empty, within the size cap, and aimed at an existing project.
    pub open spec fn batch_check(s: Self, project_id: u64, n: int) -> Result<(), Error> {
        if n == 0 {
            Err(Error::BatchEmpty)
        } else if n > MAX_BATCH_SIZE {
            Err(Error::BatchLimitExceeded)
        } else if !s.has_project(project_id) {
            Err(Error::NotFound)
        } else {
            Ok(())
        }
    }

    /// One batch item of milestone creation, applied or skipped: applied
    /// exactly when the single-item validation accepts it.
    pub open spec fn create_step(
        s: Self,
        s2: Self,
        project_id: u64,
        hash: Seq<u8>,
        amount: Amount,
        now: u64,
        ok: bool,
    ) -> bool {
        if ok {
            &&& Self::create_milestone_check(s, project_id, amount) is Ok
            &&& Self::create_milestone_post(s, s2, project_id, hash, amount, now)
        } else {
            &&& Self::create_milestone_check(s, project_id, amount) is Err
            &&& s2 == s
        }
    }

    /// `post` results from applying the first `n` creation items to `pre`
    /// in order, with `successes` of them accepted.
    pub open spec fn batch_create_rel(
        pre: Self,
        post: Self,
        project_id: u64,
        items: Seq<(Vec<u8>, Amount)>,
        now: u64,
        successes: int,
        n: int,
    ) -> bool
        decreases n,
    {
        if n <= 0 {
            post == pre && successes == 0
        } else {
            exists|mid: Self|
                #![trigger Self::create_milestone_check(mid, project_id, items[n - 1].1)]
                {
                    let ok = Self::create_milestone_check(mid, project_id, items[n - 1].1) is Ok;
                    let s1 = successes - (if ok {
                        1int
                    } else {
                        0int
                    });
                    &&& Self::batch_create_rel(pre, mid, project_id, items, now, s1, n - 1)
                    &&& Self::create_step(
                        mid,
                        post,
                        project_id,
                        items[n - 1].0@,
                        items[n - 1].1,
                        now,
                        ok,
                    )
                }
        }
    }

    /// Creates several milestones in one call.  Items whose single-item
    /// validation fails (non-positive amount, sum exceeding the deposits,
    /// pause) are counted as failed and skipped; the rest commit.
    pub fn batch_create_milestones(
        &mut self,
        project_id: u64,
        items: Vec<(Vec<u8>, Amount)>,
        now: u64,
    ) -> (r: Result<BatchResult, Error>)
        requires
            old(self).wf(),
        ensures
            final(self).wf(),
            match r {
                Ok(b) => {
                    &&& Self::batch_check(*old(self), project_id, items@.len() as int) is Ok
                    &&& b.total == items@.len()
                    &&& b.successful <= b.total
                    &&& b.failed == b.total - b.successful
                    &&& Self::batch_create_rel(
                        *old(self),
                        *final(self),
                        project_id,
                        items@,
                        now,
                        b.successful as int,
                        items@.len() as int,
                    )
                },
                Err(e) => Err::<(), Error>(e) == Self::batch_check(
                    *old(self),
                    project_id,
                    items@.len() as int,
                ) && *final(self) == *old(self),
            },
    {
        if items.len() == 0 {
            return Err(Error::BatchEmpty);
        }
        if items.len() > MAX_BATCH_SIZE as usize {
            return Err(Error::BatchLimitExceeded);
        }
        if find_by_key(&self.projects, project_id).is_none() {
            return Err(Error::NotFound);
        }
        let ghost pre = *self;
        let total = items.len() as u32;
        let mut successful: u32 = 0;
        let mut i: usize = 0;
        while i < items.len()
            invariant
                pre.wf(),
                pre == *old(self),
                self.wf(),
                i <= items@.len(),
                items@.len() <= MAX_BATCH_SIZE,
                successful <= i,
                Self::batch_create_rel(
                    pre,
                    *self,
                    project_id,
                    items@,
                    now,
                    successful as int,
                    i as int,
                ),
            decreases items@.len() - i,
        {
            let hash = copy_vec(&items[i].0);
            let amount = items[i].1;
            let ghost cur = *self;
            let ghost s1 = successful as int;
            let ok = match self.create_milestone(project_id, hash, amount, now) {
                Ok(()) => {
                    successful = successful + 1;
                    true
                },
                Err(_) => false,
            };
            proof {
                assert(Self::create_step(
                    cur,
                    *self,
                    project_id,
                    items@[i as int].0@,
                    items@[i as int].1,
                    now,
                    ok,
                ));
                assert(Self::batch_create_rel(
                    pre,
                    *self,
                    project_id,
                    items@,
                    now,
                    s1 + (if ok {
                        1int
                    } else {
                        0int
                    }),
                    i as int + 1,
                ));
            }
            i += 1;
        }
        Ok(BatchResult { total, successful, failed: total - successful })
    }

    /// One batch item of milestone voting, applied or skipped: applied
    /// exactly when the single-item validation accepts it.
    pub open spec fn vote_step(
        s: Self,
        s2: Self,
        project_id: u64,
        milestone_id: u64,
        voter: Address,
        approve: bool,
        ok: bool,
    ) -> bool {
        if ok {
            &&& Self::vote_milestone_check(s, project_id, milestone_id, voter, approve) is Ok
            &&& Self::vote_milestone_post(s, s2, project_id, milestone_id, voter, approve)
        } else {
            &&& Self::vote_milestone_check(s, project_id, milestone_id, voter, approve) is Err
            &&& s2 == s
        }
    }

    /// `post` results from applying the first `n` vote items to `pre` in
    /// order, with `successes` of them accepted.
    pub open spec fn batch_vote_rel(
        pre: Self,
        post: Self,
        project_id: u64,
        votes: Seq<(u64, Address, bool)>,
        successes: int,
        n: int,
    ) -> bool
        decreases n,
    {
        if n <= 0 {
            post == pre && successes == 0
        } else {
            exists|mid: Self|
                #![trigger Self::vote_milestone_check(
                    mid,
                    project_id,
                    votes[n - 1].0,
                    votes[n - 1].1,
                    votes[n - 1].2,
                )]
                {
                    let ok = Self::vote_milestone_check(
                        mid,
                        project_id,
                        votes[n - 1].0,
                        votes[n - 1].1,
                        votes[n - 1].2,
                    ) is Ok;
                    let s1 = successes - (if ok {
                        1int
                    } else {
                        0int
                    });
                    &&& Self::batch_vote_rel(pre, mid, project_id, votes, s1, n - 1)
                    &&& Self::vote_step(
                        mid,
                        post,
                        project_id,
                        votes[n - 1].0,
                        votes[n - 1].1,
                        votes[n - 1].2,
                        ok,
                    )
                }
        }
    }

    /// Casts several validator votes in one call, each item naming a
    /// milestone, a voter, and a direction.  Items whose single-item
    /// validation fails are counted as failed and skipped; the rest
    /// commit, including any finalization they trigger.
    pub fn batch_vote_milestones(
        &mut self,
        project_id: u64,
        votes: Vec<(u64, Address, bool)>,
    ) -> (r: Result<BatchResult, Error>)
        requires
            old(self).wf(),
        ensures
            final(self).wf(),
            match r {
                Ok(b) => {
                    &&& Self::batch_check(*old(self), project_id, votes@.len() as int) is Ok
                    &&& b.total == votes@.len()
                    &&& b.successful <= b.total
                    &&& b.failed == b.total - b.successful
                    &&& Self::batch_vote_rel(
                        *old(self),
                        *final(self),
                        project_id,
                        votes@,
                        b.successful as int,
                        votes@.len() as int,
                    )
                },
                Err(e) => Err::<(), Error>(e) == Self::batch_check(
                    *old(self),
                    project_id,
                    votes@.len() as int,
                ) && *final(self) == *old(self),
            },
    {
        if votes.len() == 0 {
            return Err(Error::BatchEmpty);
        }
        if votes.len() > MAX_BATCH_SIZE as usize {
            return Err(Error::BatchLimitExceeded);
        }
        if find_by_key(&self.projects, project_id).is_none() {
            return Err(Error::NotFound);
        }
        let ghost pre = *self;
        let total = votes.len() as u32;
        let mut successful: u32 = 0;
        let mut i: usize = 0;
        while i < votes.len()
            invariant
                pre.wf(),
                pre == *old(self),
                self.wf(),
                i <= votes@.len(),
                votes@.len() <= MAX_BATCH_SIZE,
                successful <= i,
                Self::batch_vote_rel(pre, *self, project_id, votes@, successful as int, i as int),
            decreases votes@.len() - i,
        {
            let (milestone_id, voter, approve) = votes[i];
            let ghost cur = *self;
            let ghost s1 = successful as int;
            let ok = match self.vote_milestone(project_id, milestone_id, voter, approve) {
                Ok(()) => {
                    successful = successful + 1;
                    true
                },
                Err(_) => false,
            };
            proof {
                assert(Self::vote_step(
                    cur,
                    *self,
                    project_id,
                    votes@[i as int].0,
                    votes@[i as int].1,
                    votes@[i as int].2,
                    ok,
                ));
                assert(Self::batch_vote_rel(
                    pre,
                    *self,
                    project_id,
                    votes@,
                    s1 + (if ok {
                        1int
                    } else {
                        0int
                    }),
                    i as int + 1,
                ));
            }
            i += 1;
        }
        Ok(BatchResult { total, successful, failed: total - successful })
    }
}

} // verus!
