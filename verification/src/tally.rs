//! Tallying revealed dispute votes, slashing, and rewards.
//!
//! After the reveal window closes, the revealed votes are counted in panel
//! order; the variant holding the strict plurality wins, the first variant
//! to reach the final maximum winning ties.  If nobody revealed, the
//! outcome defaults to refunding the backers.  Every assigned juror is
//! settled exactly once: majority voters gain a success mark and an even
//! share of the fee pool, everyone else gains a miss mark and forfeits a
//! fixed fraction of the minimum stake into the pool.

use vstd::prelude::*;

use crate::constants::JUROR_SLASH_AMOUNT;
use crate::constants::MAX_APPEALS;
use crate::constants::VOTING_COMMIT_PERIOD;
use crate::constants::VOTING_REVEAL_PERIOD;
use crate::errors::Error;
use crate::keyed::by_key;
use crate::keyed::Keyed;
use crate::keyed::find_by_key;
use crate::keyed::has_key;
use crate::keyed::keys_unique;
use crate::keyed::lemma_key_at;
use crate::keyed::lemma_key_update;
use crate::state::placeholder_dispute;
use crate::state::vec_take;
use crate::state::DisputeState;
use crate::state::EscrowContract;
use crate::types::Address;
use crate::types::Dispute;
use crate::types::DisputeResolution;
use crate::types::DisputeStatus;
use crate::types::JurorInfo;
use vstd::pervasive::VecAdditionalExecFns;

verus! {

/// The revealed vote and payload of one juror, if any.
pub open spec fn revealed_of(d: DisputeState, a: Address) -> Option<(DisputeResolution, u32)> {
    if has_key(d.commitments@, a) && by_key(d.commitments@, a).commitment.revealed {
        Some(
            (
                by_key(d.commitments@, a).commitment.vote,
                by_key(d.commitments@, a).commitment.vote_payload,
            ),
        )
    } else {
        None
    }
}

/// Running state of the count: votes per variant, and the variant that
/// first reached the current maximum, with its payload.
pub struct TallyAcc {
    /// Votes for releasing the funds.
    pub rel: int,
    /// Votes for refunding the backers.
    pub refb: int,
    /// Votes for a partial release.
    pub part: int,
    /// Variant currently winning.
    pub winner: DisputeResolution,
    /// Payload of the commitment that put the winner ahead.
    pub payload: u32,
    /// Votes the winner holds.
    pub max: int,
}

/// The count before any vote.
pub open spec fn tally_start() -> TallyAcc {
    TallyAcc { rel: 0, refb: 0, part: 0, winner: DisputeResolution::NoRes, payload: 0, max: 0 }
}

/// Counts one juror's revealed vote, if any.
pub open spec fn tally_step(acc: TallyAcc, vote: Option<(DisputeResolution, u32)>) -> TallyAcc {
    match vote {
        None => acc,
        Some((v, p)) => {
            if v is NoRes {
                acc
            } else {
                let cnt = if v is RelFunds {
                    acc.rel + 1
                } else if v is RefBackers {
                    acc.refb + 1
                } else {
                    acc.part + 1
                };
                let acc2 = TallyAcc {
                    rel: if v is RelFunds {
                        acc.rel + 1
                    } else {
                        acc.rel
                    },
                    refb: if v is RefBackers {
                        acc.refb + 1
                    } else {
                        acc.refb
                    },
                    part: if v is PartRel {
                        acc.part + 1
                    } else {
                        acc.part
                    },
                    ..acc
                };
                if cnt > acc.max {
                    TallyAcc { winner: v, payload: p, max: cnt, ..acc2 }
                } else {
                    acc2
                }
            }
        },
    }
}

/// The count after the first `n` panel members.
pub open spec fn tally_upto(d: DisputeState, n: int) -> TallyAcc
    decreases n,
{
    if n <= 0 {
        tally_start()
    } else {
        tally_step(tally_upto(d, n - 1), revealed_of(d, d.panel@[n - 1]))
    }
}

/// The dispute's final resolution: the plurality winner of the revealed
/// votes, or refunding the backers when nobody revealed.
pub open spec fn dispute_winner(d: DisputeState) -> DisputeResolution {
    let acc = tally_upto(d, d.panel@.len() as int);
    if acc.winner is NoRes {
        DisputeResolution::RefBackers
    } else {
        acc.winner
    }
}

/// The payload enforced alongside the final resolution.
pub open spec fn dispute_winner_payload(d: DisputeState) -> u32 {
    tally_upto(d, d.panel@.len() as int).payload
}

/// Whether a juror revealed a vote for `res`.
pub open spec fn voted_for(d: DisputeState, a: Address, res: DisputeResolution) -> bool {
    revealed_of(d, a) matches Some((v, _)) && v == res
}

/// Whether a juror sides with the final resolution.
pub open spec fn is_majority_voter(d: DisputeState, a: Address) -> bool {
    voted_for(d, a, dispute_winner(d))
}

/// Stake a juror forfeits: the fixed slash, capped at the stake held.
pub open spec fn slash_of(stake: i128) -> int {
    if stake < JUROR_SLASH_AMOUNT {
        stake as int
    } else {
        JUROR_SLASH_AMOUNT as int
    }
}

/// Total forfeited by the first `n` panel members outside the majority.
pub open spec fn slashed_upto(s: EscrowContract, d: DisputeState, n: int) -> int
    decreases n,
{
    if n <= 0 {
        0
    } else {
        slashed_upto(s, d, n - 1) + if is_majority_voter(d, d.panel@[n - 1]) {
            0int
        } else {
            slash_of(s.juror(d.panel@[n - 1]).staked_amount)
        }
    }
}

/// Majority voters among the first `n` panel members.
pub open spec fn majority_upto(d: DisputeState, n: int) -> int
    decreases n,
{
    if n <= 0 {
        0
    } else {
        majority_upto(d, n - 1) + if is_majority_voter(d, d.panel@[n - 1]) {
            1int
        } else {
            0int
        }
    }
}

impl EscrowContract {
    /// The fee pool once every slash of this dispute has been paid in.
    pub open spec fn tally_pool_after(s: Self, d: DisputeState) -> int {
        s.fee_pool + slashed_upto(s, d, d.panel@.len() as int)
    }

    /// The even share each majority juror receives from the pool.
    pub open spec fn tally_reward_per(s: Self, d: DisputeState) -> int {
        let mc = majority_upto(d, d.panel@.len() as int);
        let pool = Self::tally_pool_after(s, d);
        if mc > 0 && pool > 0 {
            pool / mc
        } else {
            0
        }
    }

    /// The pool left after rewards: the indivisible remainder.
    pub open spec fn tally_pool_final(s: Self, d: DisputeState) -> int {
        let mc = majority_upto(d, d.panel@.len() as int);
        let pool = Self::tally_pool_after(s, d);
        if mc > 0 && pool > 0 {
            pool % mc
        } else {
            pool
        }
    }

    /// Some panel member is not a registered juror.
    pub open spec fn any_panel_unregistered(s: Self, d: DisputeState) -> bool {
        exists|j: int| 0 <= j < d.panel@.len() && !has_key(s.jurors@, #[trigger] d.panel@[j])
    }

    /// Some panel member carries no active dispute to settle.
    pub open spec fn any_panel_unassignable(s: Self, d: DisputeState) -> bool {
        exists|j: int|
            0 <= j < d.panel@.len() && s.juror(#[trigger] d.panel@[j]).active_disputes == 0
    }

    /// Some panel member's vote statistics cannot be incremented.
    pub open spec fn any_counter_saturated(s: Self, d: DisputeState) -> bool {
        exists|j: int|
            0 <= j < d.panel@.len() && (if is_majority_voter(d, #[trigger] d.panel@[j]) {
                s.juror(d.panel@[j]).successful_votes == u32::MAX
            } else {
                s.juror(d.panel@[j]).missed_votes == u32::MAX
            })
    }

    /// Some majority juror's stake cannot take the reward.
    pub open spec fn any_reward_overflow(s: Self, d: DisputeState) -> bool {
        exists|j: int|
            0 <= j < d.panel@.len() && is_majority_voter(d, #[trigger] d.panel@[j]) && s.juror(
                d.panel@[j],
            ).staked_amount + Self::tally_reward_per(s, d) > i128::MAX
    }

    /// Outcome `tally_votes` owes for the given state and input.
    pub open spec fn tally_votes_check(s: Self, dispute_id: u64, now: u64) -> Result<(), Error> {
        if !s.has_dispute(dispute_id) {
            Err(Error::DisputeNotFound)
        } else {
            let d = s.dispute_state(dispute_id);
            if d.dispute.status != DisputeStatus::Voting {
                Err(Error::VotingPeriodNotActive)
            } else if now <= d.dispute.created_at + VOTING_COMMIT_PERIOD + VOTING_REVEAL_PERIOD {
                Err(Error::VotingPeriodNotActive)
            } else if Self::any_panel_unregistered(s, d) {
                Err(Error::NotAJuror)
            } else if Self::any_panel_unassignable(s, d) {
                Err(Error::InvalidInput)
            } else if Self::any_counter_saturated(s, d) {
                Err(Error::InvalidInput)
            } else if Self::tally_pool_after(s, d) > i128::MAX {
                Err(Error::InvalidInput)
            } else if Self::any_reward_overflow(s, d) {
                Err(Error::InvalidInput)
            } else if d.dispute.appeal_count >= MAX_APPEALS {
                Self::enforcement_check(
                    s,
                    d.dispute.project_id,
                    d.dispute.milestone_id,
                    dispute_winner(d),
                    dispute_winner_payload(d),
                )
            } else {
                Ok(())
            }
        }
    }

    /// What one juror's settlement leaves behind.
    pub open spec fn settled_juror(info: JurorInfo, majority: bool, reward_per: int) -> JurorInfo {
        if majority {
            JurorInfo {
                staked_amount: (info.staked_amount + reward_per) as i128,
                active_disputes: (info.active_disputes - 1) as u32,
                successful_votes: (info.successful_votes + 1) as u32,
                ..info
            }
        } else {
            JurorInfo {
                staked_amount: (info.staked_amount - slash_of(info.staked_amount)) as i128,
                active_disputes: (info.active_disputes - 1) as u32,
                missed_votes: (info.missed_votes + 1) as u32,
                ..info
            }
        }
    }

    /// What a successful tally leaves behind.
    pub open spec fn tally_votes_post(pre: Self, post: Self, dispute_id: u64, now: u64) -> bool {
        let d0 = pre.dispute_state(dispute_id);
        let res = dispute_winner(d0);
        let pay = dispute_winner_payload(d0);
        let rp = Self::tally_reward_per(pre, d0);
        let enforced = d0.dispute.appeal_count >= MAX_APPEALS;
        &&& post.disputes@.len() == pre.disputes@.len()
        &&& post.dispute_state(dispute_id).dispute == (Dispute {
            status: if enforced {
                DisputeStatus::FinalResolved
            } else {
                DisputeStatus::Resolved
            },
            created_at: now,
            resolution: res,
            resolution_payload: pay,
            ..d0.dispute
        })
        &&& post.dispute_state(dispute_id).panel == d0.panel
        &&& post.dispute_state(dispute_id).past_panelists == d0.past_panelists
        &&& post.dispute_state(dispute_id).commitments == d0.commitments
        &&& post.other_disputes_same(pre, dispute_id)
        &&& forall|a: Address| #[trigger] post.has_juror(a) == pre.has_juror(a)
        &&& forall|a: Address|
            pre.has_juror(a) ==> #[trigger] post.juror(a) == (if d0.panel@.contains(a) {
                Self::settled_juror(pre.juror(a), is_majority_voter(d0, a), rp)
            } else {
                pre.juror(a)
            })
        &&& post.active_jurors == pre.active_jurors
        &&& post.fee_pool == Self::tally_pool_final(pre, d0)
        &&& post.same_admin_plane(pre)
        &&& (enforced ==> Self::enforcement_project_post(
            pre,
            post,
            d0.dispute.project_id,
            d0.dispute.milestone_id,
            res,
            pay,
        ))
        &&& (!enforced ==> post.same_projects(pre) && post.same_transfers(pre))
    }

    /// The revealed vote of one panel member, read from storage.
    fn read_revealed(&self, di: usize, a: Address) -> (r: Option<(DisputeResolution, u32)>)
        requires
            self.wf(),
            di < self.disputes@.len(),
        ensures
            r == revealed_of(self.disputes@[di as int], a),
    {
        proof {
            assert(self.disputes@[di as int].wf(di as int));
        }
        match find_by_key(&self.disputes[di].commitments, a) {
            None => None,
            Some(ci) => {
                proof {
                    lemma_key_at(self.disputes@[di as int].commitments@, ci as int);
                }
                let c = &self.disputes[di].commitments[ci];
                if c.commitment.revealed {
                    Some((c.commitment.vote, c.commitment.vote_payload))
                } else {
                    None
                }
            },
        }
    }

    /// Counts the revealed votes of a dispute in panel order and returns
    /// the final resolution and its payload.
    fn count_votes(&self, di: usize) -> (r: (DisputeResolution, u32))
        requires
            self.wf(),
            di < self.disputes@.len(),
        ensures
            r.0 == dispute_winner(self.disputes@[di as int]),
            r.1 == dispute_winner_payload(self.disputes@[di as int]),
            r.0 != DisputeResolution::NoRes,
    {
        let ghost d0 = self.disputes@[di as int];
        let plen = self.disputes[di].panel.len();
        let mut rel: u64 = 0;
        let mut refb: u64 = 0;
        let mut part: u64 = 0;
        let mut winner: DisputeResolution = DisputeResolution::NoRes;
        let mut wpayload: u32 = 0;
        let mut maxv: u64 = 0;
        let mut j: usize = 0;
        while j < plen
            invariant
                self.wf(),
                di < self.disputes@.len(),
                d0 == self.disputes@[di as int],
                plen == d0.panel@.len(),
                j <= plen,
                rel <= j && refb <= j && part <= j && maxv <= j,
                rel == tally_upto(d0, j as int).rel,
                refb == tally_upto(d0, j as int).refb,
                part == tally_upto(d0, j as int).part,
                winner == tally_upto(d0, j as int).winner,
                wpayload == tally_upto(d0, j as int).payload,
                maxv == tally_upto(d0, j as int).max,
            decreases plen - j,
        {
            let a = self.disputes[di].panel[j];
            proof {
                assert(self.disputes@[di as int].wf(di as int));
            }
            match self.read_revealed(di, a) {
                None => {},
                Some((v, p)) => {
                    proof {
                        let cs = d0.commitments@;
                        assert(has_key(cs, a) && by_key(cs, a).commitment.revealed);
                        let w = choose|w: int| 0 <= w < cs.len() && (#[trigger] cs[w].key()) == a;
                        lemma_key_at(cs, w);
                        assert(cs[w].commitment.revealed ==> cs[w].commitment.vote
                            != DisputeResolution::NoRes);
                        assert(v != DisputeResolution::NoRes);
                    }
                    let cnt: u64 = match v {
                        DisputeResolution::RelFunds => rel + 1,
                        DisputeResolution::RefBackers => refb + 1,
                        _ => part + 1,
                    };
                    match v {
                        DisputeResolution::RelFunds => {
                            rel = rel + 1;
                        },
                        DisputeResolution::RefBackers => {
                            refb = refb + 1;
                        },
                        _ => {
                            part = part + 1;
                        },
                    }
                    if cnt > maxv {
                        winner = v;
                        wpayload = p;
                        maxv = cnt;
                    }
                },
            }
            j += 1;
        }
        let res = match winner {
            DisputeResolution::NoRes => DisputeResolution::RefBackers,
            other => other,
        };
        (res, wpayload)
    }

    /// Tallies a dispute once the reveal window has closed: fixes the
    /// resolution, settles every assigned juror exactly once, distributes
    /// the fee pool among the majority, and, when the appeal cap is
    /// already reached, enforces the resolution immediately.
    pub fn tally_votes(&mut self, dispute_id: u64, now: u64) -> (r: Result<(), Error>)
        requires
            old(self).wf(),
        ensures
            final(self).wf(),
            r == Self::tally_votes_check(*old(self), dispute_id, now),
            r is Ok ==> Self::tally_votes_post(*old(self), *final(self), dispute_id, now),
            r is Err ==> *final(self) == *old(self),
    {
        if dispute_id == 0 || dispute_id > self.disputes.len() as u64 {
            return Err(Error::DisputeNotFound);
        }
        let di = (dispute_id - 1) as usize;
        if self.disputes[di].dispute.status != DisputeStatus::Voting {
            return Err(Error::VotingPeriodNotActive);
        }
        let created = self.disputes[di].dispute.created_at;
        let closed = now > created && now - created > VOTING_COMMIT_PERIOD + VOTING_REVEAL_PERIOD;
        if !closed {
            return Err(Error::VotingPeriodNotActive);
        }
        let ghost pre = *self;
        let ghost d0 = self.dispute_state(dispute_id);
        let plen = self.disputes[di].panel.len();
        // Every panel member must be registered.
        let mut j: usize = 0;
        while j < plen
            invariant
                self.wf(),
                *self == pre,
                pre == *old(self),
                dispute_id >= 1,
                di as int == dispute_id - 1,
                pre.has_dispute(dispute_id),
                d0 == pre.dispute_state(dispute_id),
                d0.dispute.status == DisputeStatus::Voting,
                now > d0.dispute.created_at + VOTING_COMMIT_PERIOD + VOTING_REVEAL_PERIOD,
                di < self.disputes@.len(),
                d0 == self.disputes@[di as int],
                plen == d0.panel@.len(),
                j <= plen,
                forall|n: int| 0 <= n < j ==> has_key(self.jurors@, #[trigger] d0.panel@[n]),
            decreases plen - j,
        {
            let a = self.disputes[di].panel[j];
            if find_by_key(&self.jurors, a).is_none() {
                return Err(Error::NotAJuror);
            }
            j += 1;
        }
        proof {
            assert(!Self::any_panel_unregistered(pre, d0));
        }
        // ... and must have an active dispute to settle.
        let mut j: usize = 0;
        while j < plen
            invariant
                self.wf(),
                *self == pre,
                pre == *old(self),
                dispute_id >= 1,
                di as int == dispute_id - 1,
                pre.has_dispute(dispute_id),
                d0 == pre.dispute_state(dispute_id),
                d0.dispute.status == DisputeStatus::Voting,
                now > d0.dispute.created_at + VOTING_COMMIT_PERIOD + VOTING_REVEAL_PERIOD,
                di < self.disputes@.len(),
                d0 == self.disputes@[di as int],
                plen == d0.panel@.len(),
                j <= plen,
                !Self::any_panel_unregistered(pre, d0),
                forall|n: int| 0 <= n < plen ==> has_key(self.jurors@, #[trigger] d0.panel@[n]),
                forall|n: int|
                    0 <= n < j ==> self.juror(#[trigger] d0.panel@[n]).active_disputes != 0,
            decreases plen - j,
        {
            let a = self.disputes[di].panel[j];
            let ji = match find_by_key(&self.jurors, a) {
                Some(i) => i,
                None => {
                    proof {
                        assert(false);
                    }
                    return Err(Error::NotAJuror);
                },
            };
            proof {
                lemma_key_at(self.jurors@, ji as int);
            }
            if self.jurors[ji].active_disputes == 0 {
                return Err(Error::InvalidInput);
            }
            j += 1;
        }
        proof {
            assert(!Self::any_panel_unassignable(pre, d0));
        }
        // Fix the resolution.
        let (res, pay) = self.count_votes(di);
        // No juror's statistics may saturate, and count the majority.
        let mut mc: u64 = 0;
        let mut j: usize = 0;
        while j < plen
            invariant
                self.wf(),
                *self == pre,
                pre == *old(self),
                dispute_id >= 1,
                di as int == dispute_id - 1,
                pre.has_dispute(dispute_id),
                d0 == pre.dispute_state(dispute_id),
                d0.dispute.status == DisputeStatus::Voting,
                now > d0.dispute.created_at + VOTING_COMMIT_PERIOD + VOTING_REVEAL_PERIOD,
                di < self.disputes@.len(),
                d0 == self.disputes@[di as int],
                plen == d0.panel@.len(),
                j <= plen,
                res == dispute_winner(d0),
                !Self::any_panel_unregistered(pre, d0),
                !Self::any_panel_unassignable(pre, d0),
                forall|n: int| 0 <= n < plen ==> has_key(self.jurors@, #[trigger] d0.panel@[n]),
                forall|n: int|
                    0 <= n < j ==> (if is_majority_voter(d0, #[trigger] d0.panel@[n]) {
                        self.juror(d0.panel@[n]).successful_votes != u32::MAX
                    } else {
                        self.juror(d0.panel@[n]).missed_votes != u32::MAX
                    }),
                mc <= j,
                mc == majority_upto(d0, j as int),
            decreases plen - j,
        {
            let a = self.disputes[di].panel[j];
            let majority = match self.read_revealed(di, a) {
                Some((v, _)) => v == res,
                None => false,
            };
            let ji = match find_by_key(&self.jurors, a) {
                Some(i) => i,
                None => {
                    proof {
                        assert(false);
                    }
                    return Err(Error::NotAJuror);
                },
            };
            proof {
                lemma_key_at(self.jurors@, ji as int);
            }
            if majority {
                if self.jurors[ji].successful_votes == u32::MAX {
                    return Err(Error::InvalidInput);
                }
                mc = mc + 1;
            } else {
                if self.jurors[ji].missed_votes == u32::MAX {
                    return Err(Error::InvalidInput);
                }
            }
            j += 1;
        }
        proof {
            assert(!Self::any_counter_saturated(pre, d0));
        }
        // Sum the slashes and check the pool fits.
        let mut slashed: i128 = 0;
        let mut j: usize = 0;
        while j < plen
            invariant
                self.wf(),
                *self == pre,
                pre == *old(self),
                dispute_id >= 1,
                di as int == dispute_id - 1,
                pre.has_dispute(dispute_id),
                d0 == pre.dispute_state(dispute_id),
                d0.dispute.status == DisputeStatus::Voting,
                now > d0.dispute.created_at + VOTING_COMMIT_PERIOD + VOTING_REVEAL_PERIOD,
                di < self.disputes@.len(),
                d0 == self.disputes@[di as int],
                plen == d0.panel@.len(),
                j <= plen,
                res == dispute_winner(d0),
                !Self::any_panel_unregistered(pre, d0),
                !Self::any_panel_unassignable(pre, d0),
                !Self::any_counter_saturated(pre, d0),
                mc == majority_upto(d0, plen as int),
                forall|n: int| 0 <= n < plen ==> has_key(self.jurors@, #[trigger] d0.panel@[n]),
                0 <= slashed,
                slashed == slashed_upto(pre, d0, j as int),
            decreases plen - j,
        {
            let a = self.disputes[di].panel[j];
            let majority = match self.read_revealed(di, a) {
                Some((v, _)) => v == res,
                None => false,
            };
            if !majority {
                let ji = match find_by_key(&self.jurors, a) {
                    Some(i) => i,
                    None => {
                        proof {
                            assert(false);
                        }
                        return Err(Error::NotAJuror);
                    },
                };
                proof {
                    lemma_key_at(self.jurors@, ji as int);
                }
                let stake = self.jurors[ji].staked_amount;
                let term: i128 = if stake < JUROR_SLASH_AMOUNT {
                    stake
                } else {
                    JUROR_SLASH_AMOUNT
                };
                if term > i128::MAX - slashed {
                    proof {
                        lemma_slashed_mono(pre, d0, j as int + 1, plen as int);
                    }
                    return Err(Error::InvalidInput);
                }
                slashed = slashed + term;
            }
            j += 1;
        }
        if self.fee_pool > i128::MAX - slashed {
            return Err(Error::InvalidInput);
        }
        let pool_after = self.fee_pool + slashed;
        let reward_per: i128 = if mc > 0 && pool_after > 0 {
            pool_after / (mc as i128)
        } else {
            0
        };
        let pool_final: i128 = if mc > 0 && pool_after > 0 {
            pool_after % (mc as i128)
        } else {
            pool_after
        };
        proof {
            assert(reward_per == Self::tally_reward_per(pre, d0));
            assert(pool_final == Self::tally_pool_final(pre, d0));
            if mc > 0 && pool_after > 0 {
                assert(0 <= pool_after % (mc as i128) < (mc as i128)) by (nonlinear_arith)
                    requires
                        pool_after > 0,
                        mc as i128 > 0,
                ;
                assert(0 <= pool_after / (mc as i128) <= pool_after) by (nonlinear_arith)
                    requires
                        pool_after > 0,
                        mc as i128 > 0,
                ;
            }
        }
        // No majority stake may overflow when rewarded.
        let mut j: usize = 0;
        while j < plen
            invariant
                self.wf(),
                *self == pre,
                pre == *old(self),
                dispute_id >= 1,
                di as int == dispute_id - 1,
                pre.has_dispute(dispute_id),
                d0 == pre.dispute_state(dispute_id),
                d0.dispute.status == DisputeStatus::Voting,
                now > d0.dispute.created_at + VOTING_COMMIT_PERIOD + VOTING_REVEAL_PERIOD,
                di < self.disputes@.len(),
                d0 == self.disputes@[di as int],
                plen == d0.panel@.len(),
                j <= plen,
                res == dispute_winner(d0),
                !Self::any_panel_unregistered(pre, d0),
                !Self::any_panel_unassignable(pre, d0),
                !Self::any_counter_saturated(pre, d0),
                Self::tally_pool_after(pre, d0) <= i128::MAX,
                reward_per == Self::tally_reward_per(pre, d0),
                forall|n: int| 0 <= n < plen ==> has_key(self.jurors@, #[trigger] d0.panel@[n]),
                forall|n: int|
                    0 <= n < j ==> !(is_majority_voter(d0, #[trigger] d0.panel@[n]) && self.juror(
                        d0.panel@[n],
                    ).staked_amount + Self::tally_reward_per(pre, d0) > i128::MAX),
            decreases plen - j,
        {
            let a = self.disputes[di].panel[j];
            let majority = match self.read_revealed(di, a) {
                Some((v, _)) => v == res,
                None => false,
            };
            if majority {
                let ji = match find_by_key(&self.jurors, a) {
                    Some(i) => i,
                    None => {
                        proof {
                            assert(false);
                        }
                        return Err(Error::NotAJuror);
                    },
                };
                proof {
                    lemma_key_at(self.jurors@, ji as int);
                }
                if self.jurors[ji].staked_amount > i128::MAX - reward_per {
                    return Err(Error::InvalidInput);
                }
            }
            j += 1;
        }
        // When no appeal is left, the resolution must be enforceable.
        let project_id = self.disputes[di].dispute.project_id;
        let milestone_id = self.disputes[di].dispute.milestone_id;
        let appeal_count = self.disputes[di].dispute.appeal_count;
        proof {
            assert(self.dispute_refs_wf(self.disputes@[di as int]));
        }
        if appeal_count >= MAX_APPEALS {
            match self.check_enforcement(project_id, milestone_id, res, pay) {
                Ok(()) => {},
                Err(e) => {
                    return Err(e);
                },
            }
        }
        // Commit: settle every panel member exactly once.
        let ghost panel_seq = d0.panel@;
        let mut k: usize = 0;
        while k < plen
            invariant
                pre.wf(),
                pre == *old(self),
                dispute_id >= 1,
                di as int == dispute_id - 1,
                di < pre.disputes@.len(),
                d0 == pre.disputes@[di as int],
                plen == d0.panel@.len(),
                panel_seq == d0.panel@,
                crate::state::addrs_distinct(panel_seq),
                k <= plen,
                res == dispute_winner(d0),
                reward_per == Self::tally_reward_per(pre, d0),
                0 <= reward_per <= i128::MAX,
                forall|n: int| 0 <= n < plen ==> has_key(pre.jurors@, #[trigger] panel_seq[n]),
                forall|n: int|
                    0 <= n < plen ==> by_key(pre.jurors@, #[trigger] panel_seq[n]).active_disputes
                        != 0,
                forall|n: int|
                    0 <= n < plen ==> (if is_majority_voter(d0, #[trigger] panel_seq[n]) {
                        by_key(pre.jurors@, panel_seq[n]).successful_votes != u32::MAX
                            && by_key(pre.jurors@, panel_seq[n]).staked_amount + reward_per
                            <= i128::MAX
                    } else {
                        by_key(pre.jurors@, panel_seq[n]).missed_votes != u32::MAX
                    }),
                self.jurors@.len() == pre.jurors@.len(),
                keys_unique(self.jurors@),
                forall|i: int|
                    0 <= i < self.jurors@.len() ==> (#[trigger] self.jurors@[i]).staked_amount >= 0,
                forall|a: Address| #[trigger] has_key(self.jurors@, a) == has_key(pre.jurors@, a),
                forall|n: int|
                    0 <= n < k ==> #[trigger] by_key(self.jurors@, panel_seq[n])
                        == Self::settled_juror(
                        by_key(pre.jurors@, panel_seq[n]),
                        is_majority_voter(d0, panel_seq[n]),
                        reward_per as int,
                    ),
                forall|a: Address|
                    has_key(pre.jurors@, a) && !panel_seq.subrange(0, k as int).contains(a)
                        ==> #[trigger] by_key(self.jurors@, a) == by_key(pre.jurors@, a),
                self.projects == pre.projects,
                self.active_jurors == pre.active_jurors,
                self.disputes == pre.disputes,
                self.fee_pool == pre.fee_pool,
                self.admin == pre.admin,
                self.juror_token == pre.juror_token,
                self.pause == pre.pause,
                self.pending_upgrade == pre.pending_upgrade,
                self.pending_transfers == pre.pending_transfers,
            decreases plen - k,
        {
            let a = self.disputes[di].panel[k];
            let majority = match self.read_revealed(di, a) {
                Some((v, _)) => v == res,
                None => false,
            };
            proof {
                assert(!panel_seq.subrange(0, k as int).contains(a)) by {
                    if panel_seq.subrange(0, k as int).contains(a) {
                        let v = choose|v: int| 0 <= v < k && panel_seq.subrange(0, k as int)[v] == a;
                        assert(panel_seq[v] == panel_seq[k as int]);
                    }
                }
            }
            let ji = match find_by_key(&self.jurors, a) {
                Some(i) => i,
                None => {
                    proof {
                        assert(false);
                    }
                    return Err(Error::NotAJuror);
                },
            };
            proof {
                lemma_key_at(self.jurors@, ji as int);
            }
            let mut info = self.jurors[ji];
            if majority {
                info.staked_amount = info.staked_amount + reward_per;
                info.successful_votes = info.successful_votes + 1;
            } else {
                let slash: i128 = if info.staked_amount < JUROR_SLASH_AMOUNT {
                    info.staked_amount
                } else {
                    JUROR_SLASH_AMOUNT
                };
                info.staked_amount = info.staked_amount - slash;
                info.missed_votes = info.missed_votes + 1;
            }
            info.active_disputes = info.active_disputes - 1;
            let ghost jurors0 = self.jurors@;
            self.jurors.set(ji, info);
            proof {
                lemma_key_update(jurors0, ji as int, info);
                assert forall|n: int| 0 <= n < k + 1 implies #[trigger] by_key(
                    self.jurors@,
                    panel_seq[n],
                ) == Self::settled_juror(
                    by_key(pre.jurors@, panel_seq[n]),
                    is_majority_voter(d0, panel_seq[n]),
                    reward_per as int,
                ) by {
                    if n < k {
                        assert(panel_seq[n] != a);
                        assert(by_key(self.jurors@, panel_seq[n]) == by_key(jurors0, panel_seq[n]));
                    }
                }
                assert forall|b: Address|
                    has_key(pre.jurors@, b) && !panel_seq.subrange(0, k as int + 1).contains(
                        b,
                    ) implies #[trigger] by_key(self.jurors@, b) == by_key(pre.jurors@, b) by {
                    assert(!panel_seq.subrange(0, k as int).contains(b)) by {
                        if panel_seq.subrange(0, k as int).contains(b) {
                            let v = choose|v: int|
                                0 <= v < k && panel_seq.subrange(0, k as int)[v] == b;
                            assert(panel_seq.subrange(0, k as int + 1)[v] == b);
                        }
                    }
                    assert(b != a) by {
                        assert(panel_seq.subrange(0, k as int + 1)[k as int] == a);
                    }
                }
            }
            k += 1;
        }
        // Commit: pool, dispute record, enforcement.
        self.fee_pool = pool_final;
        let mut entry = vec_take(&mut self.disputes, di, placeholder_dispute());
        entry.dispute.resolution = res;
        entry.dispute.resolution_payload = pay;
        entry.dispute.created_at = now;
        entry.dispute.status = if appeal_count >= MAX_APPEALS {
            DisputeStatus::FinalResolved
        } else {
            DisputeStatus::Resolved
        };
        let ghost entry2 = entry;
        self.disputes.set(di, entry);
        let ghost mid_state = *self;
        proof {
            assert(panel_seq.subrange(0, panel_seq.len() as int) =~= panel_seq);
            assert(self.disputes@ =~= pre.disputes@.update(di as int, entry2));
            assert(entry2.wf(di as int)) by {
                assert(pre.disputes@[di as int].wf(di as int));
            }
            assert forall|j2: int| 0 <= j2 < self.disputes@.len() implies (
            #[trigger] self.disputes@[j2]).wf(j2) && self.dispute_refs_wf(self.disputes@[j2]) by {
                assert(pre.disputes@[j2].wf(j2));
                assert(pre.dispute_refs_wf(pre.disputes@[j2]));
                if j2 != di {
                    assert(self.disputes@[j2] == pre.disputes@[j2]);
                }
            }
            assert forall|i: int|
                0 <= i < self.active_jurors@.len() implies has_key(
                self.jurors@,
                #[trigger] self.active_jurors@[i],
            ) by {
                assert(has_key(pre.jurors@, pre.active_jurors@[i]));
            }
            assert(mid_state.wf());
        }
        if appeal_count >= MAX_APPEALS {
            proof {
                assert(Self::enforcement_check(mid_state, project_id, milestone_id, res, pay)
                    == Self::enforcement_check(pre, project_id, milestone_id, res, pay));
            }
            match self.apply_enforcement(project_id, milestone_id, res, pay) {
                Ok(()) => {},
                Err(_) => {
                    proof {
                        assert(false);
                    }
                    return Err(Error::InvalidInput);
                },
            }
            proof {
                assert(Self::enforcement_project_post(
                    mid_state,
                    *self,
                    project_id,
                    milestone_id,
                    res,
                    pay,
                ));
            }
        }
        proof {
            let post = *self;
            let res2 = dispute_winner(d0);
            let pay2 = dispute_winner_payload(d0);
            let rp2 = Self::tally_reward_per(pre, d0);
            let enforced = d0.dispute.appeal_count >= MAX_APPEALS;
            assert(post.disputes@.len() == pre.disputes@.len());
            assert(post.dispute_state(dispute_id).dispute == (Dispute {
                status: if enforced {
                    DisputeStatus::FinalResolved
                } else {
                    DisputeStatus::Resolved
                },
                created_at: now,
                resolution: res2,
                resolution_payload: pay2,
                ..d0.dispute
            }));
            assert(post.dispute_state(dispute_id).panel == d0.panel);
            assert(post.dispute_state(dispute_id).past_panelists == d0.past_panelists);
            assert(post.dispute_state(dispute_id).commitments == d0.commitments);
            assert(post.other_disputes_same(pre, dispute_id));
            assert(forall|a: Address| #[trigger] post.has_juror(a) == pre.has_juror(a));
            assert(post.active_jurors == pre.active_jurors);
            assert(post.fee_pool == Self::tally_pool_final(pre, d0));
            assert(post.same_admin_plane(pre));
            if enforced {
                assert(mid_state.projects == pre.projects);
                assert(mid_state.pending_transfers == pre.pending_transfers);
                assert(res == res2 && pay == pay2);
                assert(project_id == d0.dispute.project_id && milestone_id
                    == d0.dispute.milestone_id);
                assert(Self::enforcement_project_post(
                    mid_state,
                    post,
                    project_id,
                    milestone_id,
                    res,
                    pay,
                ));
                assert(mid_state.project(project_id) == pre.project(project_id));
                assert forall|q: u64|
                    q != project_id implies (#[trigger] post.has_project(q))
                    == pre.has_project(q) && (pre.has_project(q) ==> post.project(q)
                    == pre.project(q)) by {
                    assert(post.has_project(q) == mid_state.has_project(q));
                    assert(mid_state.has_project(q) == pre.has_project(q));
                    if pre.has_project(q) {
                        assert(post.project(q) == mid_state.project(q));
                        assert(mid_state.project(q) == pre.project(q));
                    }
                }
                assert(Self::enforcement_project_post(
                    pre,
                    post,
                    d0.dispute.project_id,
                    d0.dispute.milestone_id,
                    res2,
                    pay2,
                ));
            }
            assert(!enforced ==> post.same_projects(pre) && post.same_transfers(pre));
            assert forall|a: Address|
                pre.has_juror(a) implies #[trigger] self.juror(a) == (if d0.panel@.contains(a) {
                Self::settled_juror(pre.juror(a), is_majority_voter(d0, a), reward_per as int)
            } else {
                pre.juror(a)
            }) by {
                assert(mid_state.juror(a) == (if panel_seq.contains(a) {
                    Self::settled_juror(
                        pre.juror(a),
                        is_majority_voter(d0, a),
                        reward_per as int,
                    )
                } else {
                    pre.juror(a)
                })) by {
                    if panel_seq.contains(a) {
                        let n = choose|n: int| 0 <= n < panel_seq.len() && panel_seq[n] == a;
                        assert(by_key(mid_state.jurors@, panel_seq[n]) == Self::settled_juror(
                            by_key(pre.jurors@, panel_seq[n]),
                            is_majority_voter(d0, panel_seq[n]),
                            reward_per as int,
                        ));
                    } else {
                        assert(!panel_seq.subrange(0, panel_seq.len() as int).contains(a));
                    }
                }
            }
        }
        Ok(())
    }
}

/// The slashed total only grows along the panel, and never below zero.
proof fn lemma_slashed_mono(s: EscrowContract, d: DisputeState, n: int, m: int)
    requires
        0 <= n <= m,
        slashed_upto(s, d, n) >= 0,
        forall|k: int|
            n <= k < m ==> !is_majority_voter(d, #[trigger] d.panel@[k]) ==> slash_of(
                s.juror(d.panel@[k]).staked_amount,
            ) >= 0,
    ensures
        slashed_upto(s, d, m) >= slashed_upto(s, d, n),
    decreases m - n,
{
    if m > n {
        lemma_slashed_mono(s, d, n, m - 1);
    }
}

} // verus!
