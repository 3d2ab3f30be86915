//! Pro-rata profit distribution.
//!
//! Each project registers investors with shares in basis points.  A
//! deposit raises a fixed-point per-share accumulator; an investor's
//! pending dividends are the share times the accumulator growth since the
//! investor was last settled.  Claiming pays the pending and settled
//! dividends out and re-anchors the investor at the current accumulator.

use vstd::prelude::*;

use crate::constants::MAX_BATCH_SIZE;
use crate::constants::PRECISION;
use crate::errors::ContractError;
use crate::keyed::by_key;
use crate::keyed::find_by_key;
use crate::keyed::has_key;
use crate::keyed::keys_unique;
use crate::keyed::lemma_key_at;
use crate::keyed::lemma_key_push;
use crate::keyed::lemma_key_update;
use crate::keyed::Keyed;
use crate::types::Address;
use crate::types::Amount;
use crate::types::BatchResult;
use crate::types::InvestorShare;
use crate::types::TokenTransfer;
use vstd::pervasive::VecAdditionalExecFns;

verus! {

impl Keyed for InvestorShare {
    open spec fn key(&self) -> u64 {
        self.investor
    }

    fn key_of(&self) -> u64 {
        self.investor
    }
}

/// One project's distribution bookkeeping.
pub struct ProfitProject {
    /// The project this record belongs to.
    pub project_id: u64,
    /// Token profits are paid in, once configured.
    pub token: Option<Address>,
    /// Sum of the registered shares, in basis points.
    pub total_shares: Option<u32>,
    /// Accumulated profit per share, scaled by the fixed precision.
    pub acc_profit_per_share: i128,
    /// One record per registered investor.
    pub investors: Vec<InvestorShare>,
}

impl Keyed for ProfitProject {
    open spec fn key(&self) -> u64 {
        self.project_id
    }

    fn key_of(&self) -> u64 {
        self.project_id
    }
}

/// The profit-distribution service.
pub struct ProfitDistribution {
    /// Admin entitled to configure projects, once initialized.
    pub admin: Option<Address>,
    /// One record per project.
    pub projects: Vec<ProfitProject>,
    /// Token movements recorded by operations and not yet performed by
    /// the host.
    pub pending_transfers: Vec<TokenTransfer>,
}

/// An investor's pending dividends: the share times the accumulator
/// growth since the last settlement, scaled back down.
pub open spec fn pending_of(share: InvestorShare, acc: i128) -> int {
    (share.share_percentage * (acc - share.accumulated_at_last_update)) / (PRECISION as int)
}

/// The share percentage an input batch leaves for a user: the last item
/// naming the user wins.
pub open spec fn registered_share(items: Seq<(Address, u32)>, u: Address) -> Option<u32>
    decreases items.len(),
{
    if items.len() == 0 {
        None
    } else if items.last().0 == u {
        Some(items.last().1)
    } else {
        registered_share(items.drop_last(), u)
    }
}

/// Sum of the shares of an input batch.
pub open spec fn shares_sum(items: Seq<(Address, u32)>) -> int
    decreases items.len(),
{
    if items.len() == 0 {
        0
    } else {
        shares_sum(items.drop_last()) + items.last().1
    }
}

impl ProfitDistribution {
    /// A record for this project exists.
    pub open spec fn has_pp(self, pid: u64) -> bool {
        has_key(self.projects@, pid)
    }

    /// The record of this project.
    pub open spec fn pp(self, pid: u64) -> ProfitProject {
        by_key(self.projects@, pid)
    }

    /// Well-formedness: unique projects and investors, a non-negative
    /// monotone accumulator, and every investor anchored at or below it.
    pub open spec fn wf(self) -> bool {
        &&& keys_unique(self.projects@)
        &&& forall|i: int|
            0 <= i < self.projects@.len() ==> (#[trigger] self.projects@[i]).wf()
        &&& forall|i: int|
            0 <= i < self.pending_transfers@.len() ==> (
            #[trigger] self.pending_transfers@[i]).amount >= 0
    }

    /// A fresh, uninitialized service.
    pub fn new() -> (s: Self)
        ensures
            s.wf(),
            s.admin is None,
            s.projects@.len() == 0,
            s.pending_transfers@.len() == 0,
    {
        ProfitDistribution { admin: None, projects: Vec::new(), pending_transfers: Vec::new() }
    }

    /// Records the admin; legal exactly once.
    pub fn initialize(&mut self, admin: Address) -> (r: Result<(), ContractError>)
        requires
            old(self).wf(),
        ensures
            final(self).wf(),
            r == (if old(self).admin is Some {
                Err::<(), ContractError>(ContractError::AlreadyInitialized)
            } else {
                Ok::<(), ContractError>(())
            }),
            r is Ok ==> *final(self) == (Self { admin: Some(admin), ..*old(self) }),
            r is Err ==> *final(self) == *old(self),
    {
        if self.admin.is_some() {
            return Err(ContractError::AlreadyInitialized);
        }
        self.admin = Some(admin);
        Ok(())
    }

    /// Returns the admin address.
    pub fn get_admin(&self) -> (r: Option<Address>)
        ensures
            r == self.admin,
    {
        self.admin
    }

    /// Finds or creates the record of a project, returning its index.
    fn ensure_project(&mut self, pid: u64) -> (i: usize)
        requires
            old(self).wf(),
        ensures
            final(self).wf(),
            final(self).has_pp(pid),
            i < final(self).projects@.len(),
            final(self).projects@[i as int] == final(self).pp(pid),
            old(self).has_pp(pid) ==> *final(self) == *old(self) && final(self).pp(pid) == old(
                self,
            ).pp(pid),
            !old(self).has_pp(pid) ==> {
                &&& final(self).projects@ == old(self).projects@.push(
                    (ProfitProject {
                        project_id: pid,
                        token: None,
                        total_shares: None,
                        acc_profit_per_share: 0,
                        investors: final(self).pp(pid).investors,
                    }),
                )
                &&& final(self).pp(pid).investors@.len() == 0
                &&& final(self).admin == old(self).admin
                &&& final(self).pending_transfers == old(self).pending_transfers
            },
            forall|q: u64|
                q != pid ==> (#[trigger] final(self).has_pp(q)) == old(self).has_pp(q) && (old(
                    self,
                ).has_pp(q) ==> final(self).pp(q) == old(self).pp(q)),
    {
        match find_by_key(&self.projects, pid) {
            Some(i) => {
                proof {
                    lemma_key_at(self.projects@, i as int);
                }
                i
            },
            None => {
                let ghost pre = *self;
                let entry = ProfitProject {
                    project_id: pid,
                    token: None,
                    total_shares: None,
                    acc_profit_per_share: 0,
                    investors: Vec::new(),
                };
                proof {
                    lemma_key_push(pre.projects@, entry);
                }
                self.projects.push(entry);
                proof {
                    lemma_key_at(self.projects@, self.projects@.len() - 1);
                }
                self.projects.len() - 1
            },
        }
    }

    /// Configures the token a project's profits are paid in (admin
    /// operation); creates the project record if needed.
    pub fn set_token(&mut self, project_id: u64, token: Address) -> (r: Result<(), ContractError>)
        requires
            old(self).wf(),
        ensures
            final(self).wf(),
            r == (if old(self).admin is None {
                Err::<(), ContractError>(ContractError::NotInitialized)
            } else {
                Ok::<(), ContractError>(())
            }),
            r is Ok ==> {
                &&& final(self).has_pp(project_id)
                &&& final(self).pp(project_id).token == Some(token)
                &&& final(self).pp(project_id).total_shares == (if old(self).has_pp(project_id) {
                    old(self).pp(project_id).total_shares
                } else {
                    None::<u32>
                })
                &&& final(self).pp(project_id).acc_profit_per_share == (if old(self).has_pp(
                    project_id,
                ) {
                    old(self).pp(project_id).acc_profit_per_share
                } else {
                    0
                })
                &&& final(self).pp(project_id).investors == (if old(self).has_pp(project_id) {
                    old(self).pp(project_id).investors
                } else {
                    final(self).pp(project_id).investors
                })
                &&& (old(self).has_pp(project_id) ==> final(self).pp(project_id).investors == old(
                    self,
                ).pp(project_id).investors)
                &&& (!old(self).has_pp(project_id) ==> final(self).pp(
                    project_id,
                ).investors@.len() == 0)
                &&& forall|q: u64|
                    q != project_id ==> (#[trigger] final(self).has_pp(q)) == old(self).has_pp(q)
                        && (old(self).has_pp(q) ==> final(self).pp(q) == old(self).pp(q))
                &&& final(self).admin == old(self).admin
                &&& final(self).pending_transfers == old(self).pending_transfers
            },
            r is Err ==> *final(self) == *old(self),
    {
        if self.admin.is_none() {
            return Err(ContractError::NotInitialized);
        }
        let idx = self.ensure_project(project_id);
        let ghost mid = *self;
        let mut p = vec_take_project(&mut self.projects, idx);
        p.token = Some(token);
        let ghost p2 = p;
        self.projects.set(idx, p);
        proof {
            assert(self.projects@ =~= mid.projects@.update(idx as int, p2));
            lemma_key_update(mid.projects@, idx as int, p2);
            assert forall|j: int| 0 <= j < self.projects@.len() implies (
            #[trigger] self.projects@[j]).wf() by {
                assert(mid.projects@[j].wf());
                if j != idx {
                    assert(self.projects@[j] == mid.projects@[j]);
                } else {
                    assert forall|n: int| 0 <= n < p2.investors@.len() implies (
                    #[trigger] p2.investors@[n]).wf(p2.acc_profit_per_share) by {
                        assert(mid.projects@[j].investors@[n].wf(
                            mid.projects@[j].acc_profit_per_share,
                        ));
                    }
                }
            }
            assert(self.pp(project_id) == p2);
            assert forall|q: u64|
                q != project_id implies (#[trigger] self.has_pp(q)) == old(self).has_pp(q) && (old(
                self,
            ).has_pp(q) ==> self.pp(q) == old(self).pp(q)) by {
                assert(self.has_pp(q) == mid.has_pp(q));
                assert(mid.has_pp(q) == old(self).has_pp(q));
                if old(self).has_pp(q) {
                    assert(self.pp(q) == mid.pp(q));
                    assert(mid.pp(q) == old(self).pp(q));
                }
            }
        }
        Ok(())
    }

    /// Outcome `register_investors` owes.
    pub open spec fn register_investors_check(s: Self, items: Seq<(Address, u32)>) -> Result<
        (),
        ContractError,
    > {
        if s.admin is None {
            Err(ContractError::NotInitialized)
        } else if exists|j: int| 0 <= j < items.len() && (#[trigger] items[j]).1 == 0 {
            Err(ContractError::InvalidSharePercentage)
        } else if shares_sum(items) > 10000 {
            Err(ContractError::TotalSharesNot100)
        } else {
            Ok(())
        }
    }

    /// Registers investors and their shares for a project (admin
    /// operation), replacing any earlier shares of the named investors
    /// and recording the batch's share total.  Every share must be
    /// positive and the shares may sum to at most 100%.
    pub fn register_investors(&mut self, project_id: u64, investors: Vec<(Address, u32)>) -> (r:
        Result<(), ContractError>)
        requires
            old(self).wf(),
        ensures
            final(self).wf(),
            r == Self::register_investors_check(*old(self), investors@),
            r is Ok ==> {
                let acc0 = if old(self).has_pp(project_id) {
                    old(self).pp(project_id).acc_profit_per_share
                } else {
                    0
                };
                &&& final(self).has_pp(project_id)
                &&& final(self).pp(project_id).total_shares == Some(
                    shares_sum(investors@) as u32,
                )
                &&& final(self).pp(project_id).acc_profit_per_share == acc0
                &&& final(self).pp(project_id).token == (if old(self).has_pp(project_id) {
                    old(self).pp(project_id).token
                } else {
                    None::<Address>
                })
                &&& forall|u: Address|
                    #![trigger registered_share(investors@, u)]
                    match registered_share(investors@, u) {
                        Some(pct) => has_key(final(self).pp(project_id).investors@, u) && by_key(
                            final(self).pp(project_id).investors@,
                            u,
                        ) == (InvestorShare {
                            investor: u,
                            share_percentage: pct,
                            accumulated_at_last_update: acc0,
                            claimable_amount: 0,
                            total_claimed: 0,
                        }),
                        None => has_key(final(self).pp(project_id).investors@, u) == (old(
                            self,
                        ).has_pp(project_id) && has_key(old(self).pp(project_id).investors@, u))
                            && (old(self).has_pp(project_id) && has_key(
                            old(self).pp(project_id).investors@,
                            u,
                        ) ==> by_key(final(self).pp(project_id).investors@, u) == by_key(
                            old(self).pp(project_id).investors@,
                            u,
                        )),
                    }
                &&& forall|q: u64|
                    q != project_id ==> (#[trigger] final(self).has_pp(q)) == old(self).has_pp(q)
                        && (old(self).has_pp(q) ==> final(self).pp(q) == old(self).pp(q))
                &&& final(self).admin == old(self).admin
                &&& final(self).pending_transfers == old(self).pending_transfers
            },
            r is Err ==> *final(self) == *old(self),
    {
        if self.admin.is_none() {
            return Err(ContractError::NotInitialized);
        }
        let ghost items = investors@;
        let mut sum: u128 = 0;
        let mut k: usize = 0;
        while k < investors.len()
            invariant
                self.wf(),
                *self == *old(self),
                old(self).admin is Some,
                k <= items.len(),
                items == investors@,
                forall|j: int| 0 <= j < k ==> (#[trigger] items[j]).1 != 0,
                sum == shares_sum(items.subrange(0, k as int)),
                sum <= k * 0x100000000,
            decreases items.len() - k,
        {
            let (_, pct) = investors[k];
            if pct == 0 {
                return Err(ContractError::InvalidSharePercentage);
            }
            proof {
                assert(items.subrange(0, k as int + 1).drop_last() =~= items.subrange(0, k as int));
                assert(items.subrange(0, k as int + 1).last() == items[k as int]);
                assert((k + 1) * 0x100000000 == k * 0x100000000 + 0x100000000) by (nonlinear_arith);
            }
            sum = sum + pct as u128;
            k += 1;
        }
        proof {
            assert(items.subrange(0, items.len() as int) =~= items);
        }
        if sum > 10000 {
            return Err(ContractError::TotalSharesNot100);
        }
        let ghost pre = *self;
        let idx = self.ensure_project(project_id);
        let ghost mid0 = *self;
        let mut p = vec_take_project(&mut self.projects, idx);
        let acc0 = p.acc_profit_per_share;
        let ghost inv0 = p.investors@;
        let mut k: usize = 0;
        while k < investors.len()
            invariant
                k <= items.len(),
                items == investors@,
                keys_unique(p.investors@),
                forall|i: int|
                    0 <= i < p.investors@.len() ==> (#[trigger] p.investors@[i]).wf(
                        p.acc_profit_per_share,
                    ),
                p.project_id == mid0.pp(project_id).project_id,
                p.token == mid0.pp(project_id).token,
                p.total_shares == mid0.pp(project_id).total_shares,
                p.acc_profit_per_share == acc0,
                acc0 == mid0.pp(project_id).acc_profit_per_share,
                acc0 >= 0,
                forall|u: Address|
                    #![trigger registered_share(items.subrange(0, k as int), u)]
                    match registered_share(items.subrange(0, k as int), u) {
                        Some(pct) => has_key(p.investors@, u) && by_key(p.investors@, u)
                            == (InvestorShare {
                            investor: u,
                            share_percentage: pct,
                            accumulated_at_last_update: acc0,
                            claimable_amount: 0,
                            total_claimed: 0,
                        }),
                        None => has_key(p.investors@, u) == has_key(inv0, u) && (has_key(inv0, u)
                            ==> by_key(p.investors@, u) == by_key(inv0, u)),
                    },
            decreases items.len() - k,
        {
            let (user, pct) = investors[k];
            let record = InvestorShare {
                investor: user,
                share_percentage: pct,
                accumulated_at_last_update: acc0,
                claimable_amount: 0,
                total_claimed: 0,
            };
            let ghost before = p.investors@;
            match find_by_key(&p.investors, user) {
                Some(j) => {
                    proof {
                        lemma_key_at(p.investors@, j as int);
                    }
                    p.investors.set(j, record);
                    proof {
                        lemma_key_update(before, j as int, record);
                    }
                },
                None => {
                    proof {
                        lemma_key_push(before, record);
                    }
                    p.investors.push(record);
                },
            }
            k += 1;
            proof {
                assert forall|u: Address|
                    #![trigger registered_share(items.subrange(0, k as int), u)]
                    match registered_share(items.subrange(0, k as int), u) {
                        Some(pct2) => has_key(p.investors@, u) && by_key(p.investors@, u)
                            == (InvestorShare {
                            investor: u,
                            share_percentage: pct2,
                            accumulated_at_last_update: acc0,
                            claimable_amount: 0,
                            total_claimed: 0,
                        }),
                        None => has_key(p.investors@, u) == has_key(inv0, u) && (has_key(inv0, u)
                            ==> by_key(p.investors@, u) == by_key(inv0, u)),
                    } by {
                    assert(items.subrange(0, k as int).drop_last() =~= items.subrange(
                        0,
                        k as int - 1,
                    ));
                    assert(items.subrange(0, k as int).last() == items[k as int - 1]);
                    let prior = registered_share(items.subrange(0, k as int - 1), u);
                    assert(registered_share(items.subrange(0, k as int), u) == (if items[k as int
                        - 1].0 == u {
                        Some(items[k as int - 1].1)
                    } else {
                        prior
                    }));
                }
            }
        }
        proof {
            assert(items.subrange(0, items.len() as int) =~= items);
        }
        p.total_shares = Some(sum as u32);
        let ghost p2 = p;
        self.projects.set(idx, p);
        proof {
            assert(self.projects@ =~= mid0.projects@.update(idx as int, p2));
            lemma_key_update(mid0.projects@, idx as int, p2);
            assert forall|j: int| 0 <= j < self.projects@.len() implies (
            #[trigger] self.projects@[j]).wf() by {
                assert(mid0.projects@[j].wf());
                if j != idx {
                    assert(self.projects@[j] == mid0.projects@[j]);
                }
            }
            assert(self.pp(project_id) == p2);
            assert forall|q: u64|
                q != project_id implies (#[trigger] self.has_pp(q)) == old(self).has_pp(q) && (old(
                self,
            ).has_pp(q) ==> self.pp(q) == old(self).pp(q)) by {
                assert(self.has_pp(q) == mid0.has_pp(q));
                assert(mid0.has_pp(q) == old(self).has_pp(q));
                if old(self).has_pp(q) {
                    assert(self.pp(q) == mid0.pp(q));
                    assert(mid0.pp(q) == old(self).pp(q));
                }
            }
            assert forall|u: Address|
                #![trigger registered_share(investors@, u)]
                match registered_share(investors@, u) {
                    Some(pct) => has_key(self.pp(project_id).investors@, u) && by_key(
                        self.pp(project_id).investors@,
                        u,
                    ) == (InvestorShare {
                        investor: u,
                        share_percentage: pct,
                        accumulated_at_last_update: acc0,
                        claimable_amount: 0,
                        total_claimed: 0,
                    }),
                    None => has_key(self.pp(project_id).investors@, u) == (old(self).has_pp(
                        project_id,
                    ) && has_key(old(self).pp(project_id).investors@, u)) && (old(self).has_pp(
                        project_id,
                    ) && has_key(old(self).pp(project_id).investors@, u) ==> by_key(
                        self.pp(project_id).investors@,
                        u,
                    ) == by_key(old(self).pp(project_id).investors@, u)),
                } by {
                let at_end = registered_share(items.subrange(0, items.len() as int), u);
                assert(registered_share(items, u) == at_end);
            }
        }
        Ok(())
    }

    /// Outcome `deposit_profits` owes.
    pub open spec fn deposit_profits_check(s: Self, project_id: u64, amount: Amount) -> Result<
        (),
        ContractError,
    > {
        if amount <= 0 {
            Err(ContractError::InvalidAmount)
        } else if !s.has_pp(project_id) || s.pp(project_id).token is None {
            Err(ContractError::NotInitialized)
        } else if s.pp(project_id).total_shares is None {
            Err(ContractError::NotInitialized)
        } else if s.pp(project_id).total_shares == Some(0u32) {
            Err(ContractError::InvalidAmount)
        } else if amount * PRECISION > i128::MAX {
            Err(ContractError::InvalidAmount)
        } else if s.pp(project_id).acc_profit_per_share + (amount * PRECISION) / (
        s.pp(project_id).total_shares->Some_0 as int) > i128::MAX {
            Err(ContractError::InvalidAmount)
        } else {
            Ok(())
        }
    }

    /// Deposits profits for a project: the per-share accumulator grows by
    /// the scaled amount divided by the registered shares, and the
    /// deposit transfer into the contract is recorded.
    pub fn deposit_profits(&mut self, project_id: u64, depositor: Address, amount: Amount) -> (r:
        Result<(), ContractError>)
        requires
            old(self).wf(),
        ensures
            final(self).wf(),
            r == Self::deposit_profits_check(*old(self), project_id, amount),
            r is Ok ==> {
                let p0 = old(self).pp(project_id);
                let delta = (amount * PRECISION) / (p0.total_shares->Some_0 as int);
                &&& final(self).has_pp(project_id)
                &&& final(self).pp(project_id).acc_profit_per_share == p0.acc_profit_per_share
                    + delta
                &&& final(self).pp(project_id).token == p0.token
                &&& final(self).pp(project_id).total_shares == p0.total_shares
                &&& final(self).pp(project_id).investors == p0.investors
                &&& forall|q: u64|
                    q != project_id ==> (#[trigger] final(self).has_pp(q)) == old(self).has_pp(q)
                        && (old(self).has_pp(q) ==> final(self).pp(q) == old(self).pp(q))
                &&& final(self).admin == old(self).admin
                &&& final(self).pending_transfers@ == old(self).pending_transfers@.push(
                    (TokenTransfer {
                        token: p0.token->Some_0,
                        counterparty: depositor,
                        amount,
                        into_contract: true,
                    }),
                )
            },
            r is Err ==> *final(self) == *old(self),
    {
        if amount <= 0 {
            return Err(ContractError::InvalidAmount);
        }
        let idx = match find_by_key(&self.projects, project_id) {
            Some(i) => i,
            None => {
                return Err(ContractError::NotInitialized);
            },
        };
        proof {
            lemma_key_at(self.projects@, idx as int);
        }
        let token = match self.projects[idx].token {
            None => {
                return Err(ContractError::NotInitialized);
            },
            Some(t) => t,
        };
        let shares = match self.projects[idx].total_shares {
            None => {
                return Err(ContractError::NotInitialized);
            },
            Some(t) => t,
        };
        if shares == 0 {
            return Err(ContractError::InvalidAmount);
        }
        proof {
            assert(amount * PRECISION > 0) by (nonlinear_arith)
                requires
                    amount > 0,
                    PRECISION > 0,
            ;
        }
        let scaled = match amount.checked_mul(PRECISION) {
            Some(v) => v,
            None => {
                return Err(ContractError::InvalidAmount);
            },
        };
        let delta = scaled / (shares as i128);
        proof {
            assert(0 <= scaled / (shares as i128) <= scaled) by (nonlinear_arith)
                requires
                    scaled > 0,
                    shares as i128 > 0,
            ;
        }
        let p_ref = &self.projects[idx];
        if delta > i128::MAX - p_ref.acc_profit_per_share {
            return Err(ContractError::InvalidAmount);
        }
        let ghost pre = *self;
        let mut p = vec_take_project(&mut self.projects, idx);
        p.acc_profit_per_share = p.acc_profit_per_share + delta;
        self.pending_transfers.push(
            TokenTransfer { token, counterparty: depositor, amount, into_contract: true },
        );
        let ghost p2 = p;
        self.projects.set(idx, p);
        proof {
            assert(self.projects@ =~= pre.projects@.update(idx as int, p2));
            lemma_key_update(pre.projects@, idx as int, p2);
            assert forall|i: int| 0 <= i < p2.investors@.len() implies (
            #[trigger] p2.investors@[i]).wf(p2.acc_profit_per_share) by {
                assert(pre.pp(project_id).investors@[i].wf(pre.pp(project_id).acc_profit_per_share));
            }
        }
        Ok(())
    }

    /// Outcome a claim owes.
    pub open spec fn claim_check(s: Self, project_id: u64, investor: Address) -> Result<
        (),
        ContractError,
    > {
        if !s.has_pp(project_id) || s.pp(project_id).token is None {
            Err(ContractError::NotInitialized)
        } else if !has_key(s.pp(project_id).investors@, investor) {
            Err(ContractError::Unauthorized)
        } else {
            let p = s.pp(project_id);
            let sh = by_key(p.investors@, investor);
            let pend = pending_of(sh, p.acc_profit_per_share);
            if sh.share_percentage * (p.acc_profit_per_share - sh.accumulated_at_last_update)
                > i128::MAX {
                Err(ContractError::InvalidAmount)
            } else if sh.claimable_amount + pend > i128::MAX {
                Err(ContractError::InvalidAmount)
            } else if sh.claimable_amount + pend <= 0 {
                Err(ContractError::NothingToClaim)
            } else if sh.total_claimed + sh.claimable_amount + pend > i128::MAX {
                Err(ContractError::InvalidAmount)
            } else {
                Ok(())
            }
        }
    }

    /// The amount a claim pays out.
    pub open spec fn claim_amount_of(s: Self, project_id: u64, investor: Address) -> int {
        let p = s.pp(project_id);
        let sh = by_key(p.investors@, investor);
        sh.claimable_amount + pending_of(sh, p.acc_profit_per_share)
    }

    /// What a successful claim leaves behind: the investor paid out and
    /// re-anchored at the current accumulator.
    pub open spec fn claim_post(pre: Self, post: Self, project_id: u64, investor: Address) -> bool {
        let p0 = pre.pp(project_id);
        let sh0 = by_key(p0.investors@, investor);
        let amt = Self::claim_amount_of(pre, project_id, investor);
        &&& post.has_pp(project_id)
        &&& post.pp(project_id).token == p0.token
        &&& post.pp(project_id).total_shares == p0.total_shares
        &&& post.pp(project_id).acc_profit_per_share == p0.acc_profit_per_share
        &&& post.pp(project_id).investors@.len() == p0.investors@.len()
        &&& forall|u: Address| #[trigger]
            has_key(post.pp(project_id).investors@, u) == has_key(p0.investors@, u)
        &&& by_key(post.pp(project_id).investors@, investor) == (InvestorShare {
            investor,
            share_percentage: sh0.share_percentage,
            accumulated_at_last_update: p0.acc_profit_per_share,
            claimable_amount: 0,
            total_claimed: (sh0.total_claimed + amt) as i128,
        })
        &&& forall|u: Address|
            u != investor && has_key(p0.investors@, u) ==> #[trigger] by_key(
                post.pp(project_id).investors@,
                u,
            ) == by_key(p0.investors@, u)
        &&& forall|q: u64|
            q != project_id ==> (#[trigger] post.has_pp(q)) == pre.has_pp(q) && (pre.has_pp(q)
                ==> post.pp(q) == pre.pp(q))
        &&& post.admin == pre.admin
        &&& post.pending_transfers@ == pre.pending_transfers@.push(
            (TokenTransfer {
                token: p0.token->Some_0,
                counterparty: investor,
                amount: amt as i128,
                into_contract: false,
            }),
        )
    }

    /// Pays an investor's settled and pending dividends out.
    pub fn claim_dividends(&mut self, project_id: u64, investor: Address) -> (r: Result<
        i128,
        ContractError,
    >)
        requires
            old(self).wf(),
        ensures
            final(self).wf(),
            match r {
                Ok(v) => Self::claim_check(*old(self), project_id, investor) is Ok && v
                    == Self::claim_amount_of(*old(self), project_id, investor) && Self::claim_post(
                    *old(self),
                    *final(self),
                    project_id,
                    investor,
                ),
                Err(e) => Err::<(), ContractError>(e) == Self::claim_check(
                    *old(self),
                    project_id,
                    investor,
                ) && *final(self) == *old(self),
            },
    {
        let quote = match self.claim_quote(project_id, investor) {
            Ok(v) => v,
            Err(e) => {
                return Err(e);
            },
        };
        let idx = match find_by_key(&self.projects, project_id) {
            Some(i) => i,
            None => {
                proof {
                    assert(false);
                }
                return Err(ContractError::NotInitialized);
            },
        };
        proof {
            lemma_key_at(self.projects@, idx as int);
        }
        let token = match self.projects[idx].token {
            None => {
                proof {
                    assert(false);
                }
                return Err(ContractError::NotInitialized);
            },
            Some(t) => t,
        };
        let ghost pre = *self;
        let mut p = vec_take_project(&mut self.projects, idx);
        let j = match find_by_key(&p.investors, investor) {
            Some(j) => j,
            None => {
                proof {
                    assert(false);
                }
                return Err(ContractError::Unauthorized);
            },
        };
        proof {
            lemma_key_at(p.investors@, j as int);
        }
        let mut sh = p.investors[j];
        let ghost before = p.investors@;
        sh.accumulated_at_last_update = p.acc_profit_per_share;
        sh.claimable_amount = 0;
        sh.total_claimed = sh.total_claimed + quote;
        p.investors.set(j, sh);
        proof {
            lemma_key_update(before, j as int, sh);
        }
        self.pending_transfers.push(
            TokenTransfer { token, counterparty: investor, amount: quote, into_contract: false },
        );
        let ghost p2 = p;
        self.projects.set(idx, p);
        proof {
            assert(self.projects@ =~= pre.projects@.update(idx as int, p2));
            lemma_key_update(pre.projects@, idx as int, p2);
        }
        Ok(quote)
    }

    /// Computes, without mutating anything, what a claim would pay.
    fn claim_quote(&self, project_id: u64, investor: Address) -> (r: Result<i128, ContractError>)
        requires
            self.wf(),
        ensures
            match r {
                Ok(v) => Self::claim_check(*self, project_id, investor) is Ok && v
                    == Self::claim_amount_of(*self, project_id, investor) && v > 0,
                Err(e) => Err::<(), ContractError>(e) == Self::claim_check(
                    *self,
                    project_id,
                    investor,
                ),
            },
    {
        let idx = match find_by_key(&self.projects, project_id) {
            Some(i) => i,
            None => {
                return Err(ContractError::NotInitialized);
            },
        };
        proof {
            lemma_key_at(self.projects@, idx as int);
        }
        let p = &self.projects[idx];
        if p.token.is_none() {
            return Err(ContractError::NotInitialized);
        }
        let j = match find_by_key(&p.investors, investor) {
            Some(j) => j,
            None => {
                return Err(ContractError::Unauthorized);
            },
        };
        proof {
            lemma_key_at(p.investors@, j as int);
            assert(p.investors@[j as int].wf(p.acc_profit_per_share));
        }
        let sh = p.investors[j];
        let growth = p.acc_profit_per_share - sh.accumulated_at_last_update;
        proof {
            assert((sh.share_percentage as i128) * growth >= 0) by (nonlinear_arith)
                requires
                    sh.share_percentage >= 0,
                    growth >= 0,
            ;
        }
        let numerator = match (sh.share_percentage as i128).checked_mul(growth) {
            Some(v) => v,
            None => {
                return Err(ContractError::InvalidAmount);
            },
        };
        let pend = numerator / PRECISION;
        proof {
            assert(0 <= numerator / PRECISION <= numerator) by (nonlinear_arith)
                requires
                    numerator >= 0,
                    PRECISION > 1,
            ;
        }
        if pend > i128::MAX - sh.claimable_amount {
            return Err(ContractError::InvalidAmount);
        }
        let total = sh.claimable_amount + pend;
        if total <= 0 {
            return Err(ContractError::NothingToClaim);
        }
        if total > i128::MAX - sh.total_claimed {
            return Err(ContractError::InvalidAmount);
        }
        Ok(total)
    }

    /// Returns an investor's record with the pending dividends folded
    /// into the claimable amount, without settling anything.
    pub fn get_investor_share(&self, project_id: u64, investor: Address) -> (r: Result<
        InvestorShare,
        ContractError,
    >)
        requires
            self.wf(),
        ensures
            match r {
                Ok(sh) => {
                    let p = self.pp(project_id);
                    let stored = by_key(p.investors@, investor);
                    &&& self.has_pp(project_id)
                    &&& has_key(p.investors@, investor)
                    &&& stored.claimable_amount + pending_of(stored, p.acc_profit_per_share)
                        <= i128::MAX
                    &&& sh == (InvestorShare {
                        claimable_amount: (stored.claimable_amount + pending_of(
                            stored,
                            p.acc_profit_per_share,
                        )) as i128,
                        ..stored
                    })
                },
                Err(e) => {
                    let p = self.pp(project_id);
                    let stored = by_key(p.investors@, investor);
                    if !self.has_pp(project_id) || !has_key(p.investors@, investor) {
                        e == ContractError::Unauthorized
                    } else {
                        e == ContractError::InvalidAmount && (stored.share_percentage * (
                        p.acc_profit_per_share - stored.accumulated_at_last_update) > i128::MAX
                            || stored.claimable_amount + pending_of(
                            stored,
                            p.acc_profit_per_share,
                        ) > i128::MAX)
                    }
                },
            },
    {
        let idx = match find_by_key(&self.projects, project_id) {
            Some(i) => i,
            None => {
                return Err(ContractError::Unauthorized);
            },
        };
        proof {
            lemma_key_at(self.projects@, idx as int);
        }
        let p = &self.projects[idx];
        let j = match find_by_key(&p.investors, investor) {
            Some(j) => j,
            None => {
                return Err(ContractError::Unauthorized);
            },
        };
        proof {
            lemma_key_at(p.investors@, j as int);
            assert(p.investors@[j as int].wf(p.acc_profit_per_share));
        }
        let mut sh = p.investors[j];
        let growth = p.acc_profit_per_share - sh.accumulated_at_last_update;
        proof {
            assert((sh.share_percentage as i128) * growth >= 0) by (nonlinear_arith)
                requires
                    sh.share_percentage >= 0,
                    growth >= 0,
            ;
        }
        let numerator = match (sh.share_percentage as i128).checked_mul(growth) {
            Some(v) => v,
            None => {
                return Err(ContractError::InvalidAmount);
            },
        };
        let pend = numerator / PRECISION;
        proof {
            assert(0 <= numerator / PRECISION <= numerator) by (nonlinear_arith)
                requires
                    numerator >= 0,
                    PRECISION > 1,
            ;
        }
        if pend > i128::MAX - sh.claimable_amount {
            return Err(ContractError::InvalidAmount);
        }
        sh.claimable_amount = sh.claimable_amount + pend;
        Ok(sh)
    }

    /// Whether a batch item applies: its claim is legal and its payout
    /// still fits the running total.
    pub open spec fn batch_item_applies(s: Self, pid: u64, investor: Address, sum: int) -> bool {
        Self::claim_check(s, pid, investor) is Ok && sum + Self::claim_amount_of(s, pid, investor)
            <= i128::MAX
    }

    /// `post` results from attempting the first `n` claims of the batch
    /// on `pre`, with `successes` applied and `total` paid out.
    pub open spec fn batch_claim_rel(
        pre: Self,
        post: Self,
        ids: Seq<u64>,
        investor: Address,
        successes: int,
        total: int,
        n: int,
    ) -> bool
        decreases n,
    {
        if n <= 0 {
            post == pre && successes == 0 && total == 0
        } else {
            exists|mid: Self|
                #![trigger Self::claim_check(mid, ids[n - 1], investor)]
                {
                    let amt = Self::claim_amount_of(mid, ids[n - 1], investor);
                    ||| {
                        &&& Self::batch_item_applies(mid, ids[n - 1], investor, total - amt)
                        &&& Self::batch_claim_rel(
                            pre,
                            mid,
                            ids,
                            investor,
                            successes - 1,
                            total - amt,
                            n - 1,
                        )
                        &&& Self::claim_post(mid, post, ids[n - 1], investor)
                    }
                    ||| {
                        &&& !Self::batch_item_applies(mid, ids[n - 1], investor, total)
                        &&& Self::batch_claim_rel(pre, mid, ids, investor, successes, total, n - 1)
                        &&& post == mid
                    }
                }
        }
    }

    /// Claims dividends from several projects in one call and reports
    /// the batch outcome together with the total paid out.  Items whose
    /// claim fails, or whose payout would overflow the running total,
    /// are counted as failed and skipped; the rest commit.
    pub fn batch_claim_dividends(&mut self, project_ids: Vec<u64>, investor: Address) -> (r: Result<
        (BatchResult, i128),
        ContractError,
    >)
        requires
            old(self).wf(),
        ensures
            final(self).wf(),
            match r {
                Ok((b, total)) => {
                    &&& project_ids@.len() > 0 && project_ids@.len() <= MAX_BATCH_SIZE
                    &&& b.total == project_ids@.len()
                    &&& b.successful <= b.total
                    &&& b.failed == b.total - b.successful
                    &&& total >= 0
                    &&& Self::batch_claim_rel(
                        *old(self),
                        *final(self),
                        project_ids@,
                        investor,
                        b.successful as int,
                        total as int,
                        project_ids@.len() as int,
                    )
                },
                Err(e) => {
                    &&& e == (if project_ids@.len() == 0 {
                        ContractError::BatchEmpty
                    } else {
                        ContractError::BatchLimitExceeded
                    })
                    &&& (project_ids@.len() == 0 || project_ids@.len() > MAX_BATCH_SIZE)
                    &&& *final(self) == *old(self)
                },
            },
    {
        if project_ids.len() == 0 {
            return Err(ContractError::BatchEmpty);
        }
        if project_ids.len() > MAX_BATCH_SIZE as usize {
            return Err(ContractError::BatchLimitExceeded);
        }
        let ghost pre = *self;
        let total_items = project_ids.len() as u32;
        let mut successful: u32 = 0;
        let mut total_claimed: i128 = 0;
        let mut i: usize = 0;
        while i < project_ids.len()
            invariant
                pre.wf(),
                pre == *old(self),
                self.wf(),
                i <= project_ids@.len(),
                project_ids@.len() <= MAX_BATCH_SIZE,
                successful <= i,
                total_claimed >= 0,
                Self::batch_claim_rel(
                    pre,
                    *self,
                    project_ids@,
                    investor,
                    successful as int,
                    total_claimed as int,
                    i as int,
                ),
            decreases project_ids@.len() - i,
        {
            let pid = project_ids[i];
            let ghost cur = *self;
            let ghost s1 = successful as int;
            let ghost t1 = total_claimed as int;
            proof {
                assert(project_ids@[i as int] == pid);
                assert(project_ids@[i as int + 1 - 1] == pid);
            }
            match self.claim_quote(pid, investor) {
                Err(_) => {
                    proof {
                        assert(!Self::batch_item_applies(cur, pid, investor, t1));
                        assert(Self::batch_claim_rel(
                            pre,
                            *self,
                            project_ids@,
                            investor,
                            successful as int,
                            total_claimed as int,
                            i as int + 1,
                        ));
                    }
                },
                Ok(v) => {
                    if v > i128::MAX - total_claimed {
                        proof {
                            assert(!Self::batch_item_applies(cur, pid, investor, t1));
                            assert(Self::batch_claim_rel(
                                pre,
                                *self,
                                project_ids@,
                                investor,
                                successful as int,
                                total_claimed as int,
                                i as int + 1,
                            ));
                        }
                    } else {
                        let applied = match self.claim_dividends(pid, investor) {
                            Ok(w) => w,
                            Err(_) => {
                                proof {
                                    assert(false);
                                }
                                return Err(ContractError::BatchEmpty);
                            },
                        };
                        total_claimed = total_claimed + applied;
                        successful = successful + 1;
                        proof {
                            assert(applied == Self::claim_amount_of(cur, pid, investor));
                            assert(Self::batch_item_applies(
                                cur,
                                pid,
                                investor,
                                total_claimed as int - Self::claim_amount_of(cur, pid, investor),
                            ));
                            assert(Self::batch_claim_rel(
                                pre,
                                *self,
                                project_ids@,
                                investor,
                                successful as int,
                                total_claimed as int,
                                i as int + 1,
                            ));
                        }
                    }
                },
            }
            i += 1;
        }
        Ok((
            BatchResult {
                total: total_items,
                successful,
                failed: total_items - successful,
            },
            total_claimed,
        ))
    }
}

impl ProfitProject {
    /// Well-formedness of one project record.
    pub open spec fn wf(self) -> bool {
        &&& self.acc_profit_per_share >= 0
        &&& keys_unique(self.investors@)
        &&& forall|i: int|
            0 <= i < self.investors@.len() ==> (#[trigger] self.investors@[i]).wf(
                self.acc_profit_per_share,
            )
    }
}

impl InvestorShare {
    /// Well-formedness of one investor record under the project's
    /// accumulator.
    pub open spec fn wf(self, acc: i128) -> bool {
        &&& self.claimable_amount >= 0
        &&& self.total_claimed >= 0
        &&& 0 <= self.accumulated_at_last_update <= acc
    }
}

/// Takes the project record at index `i` out of the vector, leaving a
/// placeholder in its place.
fn vec_take_project(v: &mut Vec<ProfitProject>, i: usize) -> (r: ProfitProject)
    requires
        i < old(v).len(),
    ensures
        final(v)@.len() == old(v)@.len(),
        r == old(v)@[i as int],
        forall|j: int| 0 <= j < old(v)@.len() && j != i ==> final(v)@[j] == old(v)@[j],
{
    let placeholder = ProfitProject {
        project_id: 0,
        token: None,
        total_shares: None,
        acc_profit_per_share: 0,
        investors: Vec::new(),
    };
    let ghost pre = v@;
    let r = crate::state::vec_take(v, i, placeholder);
    proof {
        assert(v@ == pre.update(i as int, placeholder));
    }
    r
}

} // verus!
