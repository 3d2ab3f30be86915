//! Randomized jury selection with conflict-of-interest exclusion.
//!
//! A panel is drawn without replacement from the active juror pool,
//! skipping the project creator, the dispute initiator, and anyone who sat
//! on an earlier round of the same dispute.  Whatever the random draws,
//! selection succeeds exactly when the eligible pool is at least as large
//! as the required panel.

use vstd::prelude::*;

use crate::constants::APPEAL_JURY_SIZE;
use crate::constants::JURY_SIZE;
use crate::errors::Error;
use crate::host::random_below;
use crate::keyed::by_key;
use crate::keyed::find_by_key;
use crate::keyed::has_key;
use crate::keyed::keys_unique;
use crate::keyed::lemma_key_at;
use crate::keyed::lemma_key_update;
use crate::state::addrs_distinct;
use crate::state::contains_addr;
use crate::state::copy_vec;
use crate::state::placeholder_dispute;
use crate::state::vec_take;
use crate::state::EscrowContract;
use crate::types::Address;
use crate::types::Dispute;
use crate::types::DisputeStatus;
use crate::types::JurorInfo;
use vstd::pervasive::VecAdditionalExecFns;

verus! {

/// Whether an active juror may sit on the panel: not the creator, not the
/// initiator, and not a panelist of an earlier round.
pub open spec fn juror_eligible(
    a: Address,
    creator: Address,
    initiator: Address,
    past: Seq<Address>,
) -> bool {
    a != creator && a != initiator && !past.contains(a)
}

/// How many entries of the pool are eligible.
pub open spec fn count_eligible(
    s: Seq<Address>,
    creator: Address,
    initiator: Address,
    past: Seq<Address>,
) -> int
    decreases s.len(),
{
    if s.len() == 0 {
        0
    } else {
        count_eligible(s.drop_last(), creator, initiator, past) + if juror_eligible(
            s.last(),
            creator,
            initiator,
            past,
        ) {
            1int
        } else {
            0int
        }
    }
}

/// The eligible count is between zero and the pool size.
proof fn lemma_count_eligible_bounds(
    s: Seq<Address>,
    creator: Address,
    initiator: Address,
    past: Seq<Address>,
)
    ensures
        0 <= count_eligible(s, creator, initiator, past) <= s.len(),
    decreases s.len(),
{
    if s.len() > 0 {
        lemma_count_eligible_bounds(s.drop_last(), creator, initiator, past);
    }
}

/// Removing one entry lowers the eligible count by one exactly when the
/// entry was eligible.
proof fn lemma_count_eligible_remove(
    s: Seq<Address>,
    i: int,
    creator: Address,
    initiator: Address,
    past: Seq<Address>,
)
    requires
        0 <= i < s.len(),
    ensures
        count_eligible(s.remove(i), creator, initiator, past) == count_eligible(
            s,
            creator,
            initiator,
            past,
        ) - (if juror_eligible(s[i], creator, initiator, past) {
            1int
        } else {
            0int
        }),
    decreases s.len(),
{
    if i == s.len() - 1 {
        assert(s.remove(i) =~= s.drop_last());
    } else {
        assert(s.remove(i).drop_last() =~= s.drop_last().remove(i));
        assert(s.remove(i).last() == s.last());
        lemma_count_eligible_remove(s.drop_last(), i, creator, initiator, past);
    }
}

/// A distinct sequence stays distinct under removal, removal only drops
/// membership, and the removed entry is gone.
proof fn lemma_distinct_remove(s: Seq<Address>, i: int)
    requires
        addrs_distinct(s),
        0 <= i < s.len(),
    ensures
        addrs_distinct(s.remove(i)),
        forall|a: Address| #[trigger] s.remove(i).contains(a) ==> s.contains(a),
        !s.remove(i).contains(s[i]),
{
    let s2 = s.remove(i);
    let shift = |n: int| if n < i { n } else { n + 1 };
    assert forall|a: int, b: int| 0 <= a < b < s2.len() implies s2[a] != s2[b] by {
        assert(s2[a] == s[shift(a)] && s2[b] == s[shift(b)]);
        assert(s[shift(a)] != s[shift(b)]);
    }
    assert forall|a: Address| #[trigger] s2.contains(a) implies s.contains(a) by {
        let w = choose|w: int| 0 <= w < s2.len() && s2[w] == a;
        assert(s[shift(w)] == a);
    }
    if s2.contains(s[i]) {
        let w = choose|w: int| 0 <= w < s2.len() && s2[w] == s[i];
        assert(s2[w] == s[shift(w)]);
        if shift(w) < i {
            assert(s[shift(w)] != s[i]);
        } else {
            assert(s[i] != s[shift(w)]);
        }
    }
}

/// Draws a panel of `size` distinct eligible jurors from `active`, by
/// repeated uniform draws without replacement.  Success does not depend
/// on the randomness: selection fails exactly when fewer than `size` pool
/// entries are eligible.
fn run_selection(
    active: &Vec<Address>,
    creator: Address,
    initiator: Address,
    past: &Vec<Address>,
    size: u32,
) -> (r: Result<Vec<Address>, Error>)
    requires
        addrs_distinct(active@),
    ensures
        match r {
            Ok(panel) => {
                &&& active@.len() >= size
                &&& count_eligible(active@, creator, initiator, past@) >= size
                &&& panel@.len() == size
                &&& addrs_distinct(panel@)
                &&& forall|j: int|
                    0 <= j < panel@.len() ==> active@.contains(#[trigger] panel@[j])
                        && juror_eligible(panel@[j], creator, initiator, past@)
            },
            Err(e) => {
                if active@.len() < size {
                    e == Error::InvalidInput
                } else {
                    e == Error::ConflictOfInterest && count_eligible(
                        active@,
                        creator,
                        initiator,
                        past@,
                    ) < size
                }
            },
        },
{
    if active.len() < size as usize {
        return Err(Error::InvalidInput);
    }
    let mut avail = copy_vec(active);
    let mut selected: Vec<Address> = Vec::new();
    while selected.len() < size as usize && avail.len() > 0
        invariant
            addrs_distinct(avail@),
            addrs_distinct(selected@),
            selected@.len() <= size,
            forall|j: int| 0 <= j < avail@.len() ==> active@.contains(#[trigger] avail@[j]),
            forall|j: int|
                0 <= j < selected@.len() ==> active@.contains(#[trigger] selected@[j])
                    && juror_eligible(selected@[j], creator, initiator, past@),
            forall|j: int| 0 <= j < selected@.len() ==> !avail@.contains(#[trigger] selected@[j]),
            count_eligible(avail@, creator, initiator, past@) + selected@.len() == count_eligible(
                active@,
                creator,
                initiator,
                past@,
            ),
        decreases avail.len(),
    {
        let i = random_below(avail.len() as u64) as usize;
        let cand = avail[i];
        let ghost avail0 = avail@;
        proof {
            lemma_count_eligible_remove(avail0, i as int, creator, initiator, past@);
            lemma_distinct_remove(avail0, i as int);
            assert(avail0.contains(avail0[i as int]));
        }
        let eligible = cand != creator && cand != initiator && !contains_addr(past, cand);
        if eligible {
            selected.push(cand);
        }
        avail.remove(i);
    }
    proof {
        lemma_count_eligible_bounds(avail@, creator, initiator, past@);
    }
    if selected.len() < size as usize {
        return Err(Error::ConflictOfInterest);
    }
    Ok(selected)
}

impl EscrowContract {
    /// Some active juror already sits on the largest representable number
    /// of disputes, so no further assignment can be recorded.
    pub open spec fn any_active_saturated(s: Self) -> bool {
        exists|i: int|
            0 <= i < s.active_jurors@.len() && s.juror(
                #[trigger] s.active_jurors@[i],
            ).active_disputes == u32::MAX
    }

    /// Outcome `select_jury` owes for the given state and input.
    pub open spec fn select_jury_check(s: Self, dispute_id: u64) -> Result<(), Error> {
        if !s.has_dispute(dispute_id) {
            Err(Error::DisputeNotFound)
        } else {
            let d = s.dispute_state(dispute_id);
            if d.dispute.status != DisputeStatus::Pending && d.dispute.status
                != DisputeStatus::Appealed {
                Err(Error::InvalidInput)
            } else if s.active_jurors@.len() < d.required_jury_size() {
                Err(Error::InvalidInput)
            } else if Self::any_active_saturated(s) {
                Err(Error::InvalidInput)
            } else if count_eligible(
                s.active_jurors@,
                s.project(d.dispute.project_id).escrow.creator,
                d.dispute.initiator,
                d.past_panelists@,
            ) < d.required_jury_size() {
                Err(Error::ConflictOfInterest)
            } else {
                Ok(())
            }
        }
    }

    /// What a successful jury selection leaves behind: a fresh panel of
    /// the required size drawn from the active pool with every conflict
    /// excluded, each panelist's dispute load incremented, and the dispute
    /// in `Voting` with its windows anchored at `now`.
    pub open spec fn select_jury_post(pre: Self, post: Self, dispute_id: u64, now: u64) -> bool {
        let d0 = pre.dispute_state(dispute_id);
        let d1 = post.dispute_state(dispute_id);
        let panel = d1.panel@;
        &&& post.disputes@.len() == pre.disputes@.len()
        &&& d1.dispute == (Dispute {
            status: DisputeStatus::Voting,
            created_at: now,
            ..d0.dispute
        })
        &&& panel.len() == d0.required_jury_size()
        &&& addrs_distinct(panel)
        &&& forall|j: int|
            0 <= j < panel.len() ==> pre.active_jurors@.contains(#[trigger] panel[j])
                && juror_eligible(
                panel[j],
                pre.project(d0.dispute.project_id).escrow.creator,
                d0.dispute.initiator,
                d0.past_panelists@,
            )
        &&& d1.past_panelists@ == d0.past_panelists@ + panel
        &&& d1.commitments == d0.commitments
        &&& post.other_disputes_same(pre, dispute_id)
        &&& forall|a: Address| #[trigger] post.has_juror(a) == pre.has_juror(a)
        &&& forall|a: Address|
            pre.has_juror(a) ==> #[trigger] post.juror(a) == (if panel.contains(a) {
                JurorInfo {
                    active_disputes: (pre.juror(a).active_disputes + 1) as u32,
                    ..pre.juror(a)
                }
            } else {
                pre.juror(a)
            })
        &&& post.active_jurors == pre.active_jurors
        &&& post.fee_pool == pre.fee_pool
        &&& post.same_projects(pre)
        &&& post.same_admin_plane(pre)
        &&& post.same_transfers(pre)
    }

    /// Assembles the panel for a pending or appealed dispute.  Appeal
    /// panels are larger; the creator, the initiator, and all earlier
    /// panelists of the same dispute are never assigned, and selection
    /// fails deterministically when the eligible pool is too small.
    pub fn select_jury(&mut self, dispute_id: u64, now: u64) -> (r: Result<(), Error>)
        requires
            old(self).wf(),
        ensures
            final(self).wf(),
            r == Self::select_jury_check(*old(self), dispute_id),
            r is Ok ==> Self::select_jury_post(*old(self), *final(self), dispute_id, now),
            r is Err ==> *final(self) == *old(self),
    {
        if dispute_id == 0 || dispute_id > self.disputes.len() as u64 {
            return Err(Error::DisputeNotFound);
        }
        let di = (dispute_id - 1) as usize;
        let status = self.disputes[di].dispute.status;
        if status != DisputeStatus::Pending && status != DisputeStatus::Appealed {
            return Err(Error::InvalidInput);
        }
        let size = if status == DisputeStatus::Appealed {
            APPEAL_JURY_SIZE
        } else {
            JURY_SIZE
        };
        if self.active_jurors.len() < size as usize {
            return Err(Error::InvalidInput);
        }
        if self.scan_active_saturated() {
            return Err(Error::InvalidInput);
        }
        let project_id = self.disputes[di].dispute.project_id;
        let initiator = self.disputes[di].dispute.initiator;
        proof {
            assert(self.dispute_refs_wf(self.disputes@[di as int]));
        }
        let pidx = match find_by_key(&self.projects, project_id) {
            Some(i) => i,
            None => {
                proof {
                    assert(false);
                }
                return Err(Error::NotFound);
            },
        };
        proof {
            lemma_key_at(self.projects@, pidx as int);
        }
        let creator = self.projects[pidx].escrow.creator;
        let panel = match run_selection(
            &self.active_jurors,
            creator,
            initiator,
            &self.disputes[di].past_panelists,
            size,
        ) {
            Ok(p) => p,
            Err(e) => {
                return Err(e);
            },
        };
        let ghost pre = *self;
        let ghost panel_seq = panel@;
        // Record the new assignment on every panelist.
        let mut k: usize = 0;
        while k < panel.len()
            invariant
                pre.wf(),
                k <= panel@.len(),
                panel@ == panel_seq,
                addrs_distinct(panel_seq),
                forall|j: int|
                    0 <= j < panel_seq.len() ==> pre.active_jurors@.contains(
                        #[trigger] panel_seq[j],
                    ),
                !Self::any_active_saturated(pre),
                self.jurors@.len() == pre.jurors@.len(),
                keys_unique(self.jurors@),
                forall|i: int|
                    0 <= i < self.jurors@.len() ==> (#[trigger] self.jurors@[i]).staked_amount >= 0,
                forall|a: Address| #[trigger] has_key(self.jurors@, a) == has_key(pre.jurors@, a),
                forall|j: int|
                    0 <= j < k ==> #[trigger] by_key(self.jurors@, panel_seq[j]) == (JurorInfo {
                        active_disputes: (by_key(pre.jurors@, panel_seq[j]).active_disputes
                            + 1) as u32,
                        ..by_key(pre.jurors@, panel_seq[j])
                    }),
                forall|a: Address|
                    has_key(pre.jurors@, a) && !panel_seq.subrange(0, k as int).contains(a)
                        ==> #[trigger] by_key(self.jurors@, a) == by_key(pre.jurors@, a),
                self.projects == pre.projects,
                self.active_jurors == pre.active_jurors,
                self.disputes == pre.disputes,
                self.fee_pool == pre.fee_pool,
                self.admin == pre.admin,
                self.juror_token == pre.juror_token,
                self.pause == pre.pause,
                self.pending_upgrade == pre.pending_upgrade,
                self.pending_transfers == pre.pending_transfers,
            decreases panel@.len() - k,
        {
            let a = panel[k];
            proof {
                let w = choose|w: int|
                    0 <= w < pre.active_jurors@.len() && pre.active_jurors@[w] == a;
                assert(has_key(pre.jurors@, pre.active_jurors@[w]));
                assert(pre.juror(pre.active_jurors@[w]).active_disputes != u32::MAX);
                assert(!panel_seq.subrange(0, k as int).contains(a)) by {
                    if panel_seq.subrange(0, k as int).contains(a) {
                        let v = choose|v: int| 0 <= v < k && panel_seq.subrange(0, k as int)[v] == a;
                        assert(panel_seq[v] == panel_seq[k as int]);
                    }
                }
            }
            let ji = match find_by_key(&self.jurors, a) {
                Some(i) => i,
                None => {
                    proof {
                        assert(false);
                    }
                    return Err(Error::NotAJuror);
                },
            };
            proof {
                lemma_key_at(self.jurors@, ji as int);
            }
            let mut info = self.jurors[ji];
            info.active_disputes = info.active_disputes + 1;
            let ghost jurors0 = self.jurors@;
            self.jurors.set(ji, info);
            proof {
                lemma_key_update(jurors0, ji as int, info);
                assert forall|j: int| 0 <= j < k + 1 implies #[trigger] by_key(
                    self.jurors@,
                    panel_seq[j],
                ) == (JurorInfo {
                    active_disputes: (by_key(pre.jurors@, panel_seq[j]).active_disputes + 1) as u32,
                    ..by_key(pre.jurors@, panel_seq[j])
                }) by {
                    if j < k {
                        assert(panel_seq[j] != a);
                        assert(by_key(self.jurors@, panel_seq[j]) == by_key(jurors0, panel_seq[j]));
                    }
                }
                assert forall|b: Address|
                    has_key(pre.jurors@, b) && !panel_seq.subrange(0, k as int + 1).contains(
                        b,
                    ) implies #[trigger] by_key(self.jurors@, b) == by_key(pre.jurors@, b) by {
                    assert(!panel_seq.subrange(0, k as int).contains(b)) by {
                        if panel_seq.subrange(0, k as int).contains(b) {
                            let v = choose|v: int|
                                0 <= v < k && panel_seq.subrange(0, k as int)[v] == b;
                            assert(panel_seq.subrange(0, k as int + 1)[v] == b);
                        }
                    }
                    assert(b != a) by {
                        assert(panel_seq.subrange(0, k as int + 1)[k as int] == a);
                    }
                }
            }
            k += 1;
        }
        // Anchor the dispute's voting windows and store the panel.
        let mut entry = vec_take(&mut self.disputes, di, placeholder_dispute());
        entry.dispute.status = DisputeStatus::Voting;
        entry.dispute.created_at = now;
        let mut t: usize = 0;
        while t < panel.len()
            invariant
                t <= panel@.len(),
                panel@ == panel_seq,
                entry.past_panelists@ == pre.dispute_state(dispute_id).past_panelists@
                    + panel_seq.subrange(0, t as int),
                entry.dispute == (Dispute {
                    status: DisputeStatus::Voting,
                    created_at: now,
                    ..pre.dispute_state(dispute_id).dispute
                }),
                entry.panel == pre.dispute_state(dispute_id).panel,
                entry.commitments == pre.dispute_state(dispute_id).commitments,
            decreases panel@.len() - t,
        {
            entry.past_panelists.push(panel[t]);
            proof {
                assert(entry.past_panelists@ =~= pre.dispute_state(dispute_id).past_panelists@
                    + panel_seq.subrange(0, t as int + 1));
            }
            t += 1;
        }
        proof {
            assert(entry.past_panelists@ =~= pre.dispute_state(dispute_id).past_panelists@
                + panel_seq) by {
                assert(panel_seq.subrange(0, panel_seq.len() as int) =~= panel_seq);
            }
        }
        entry.panel = panel;
        let ghost entry2 = entry;
        self.disputes.set(di, entry);
        proof {
            assert(self.disputes@ =~= pre.disputes@.update(di as int, entry2));
            assert(panel_seq.subrange(0, panel_seq.len() as int) =~= panel_seq);
            assert(entry2.wf(di as int)) by {
                assert(pre.disputes@[di as int].wf(di as int));
            }
            assert forall|j: int| 0 <= j < self.disputes@.len() implies (
            #[trigger] self.disputes@[j]).wf(j) && self.dispute_refs_wf(self.disputes@[j]) by {
                assert(pre.disputes@[j].wf(j));
                assert(pre.dispute_refs_wf(pre.disputes@[j]));
                if j != di {
                    assert(self.disputes@[j] == pre.disputes@[j]);
                }
            }
            assert forall|i: int|
                0 <= i < self.active_jurors@.len() implies has_key(
                self.jurors@,
                #[trigger] self.active_jurors@[i],
            ) by {
                assert(has_key(pre.jurors@, pre.active_jurors@[i]));
            }
            assert forall|a: Address|
                pre.has_juror(a) implies #[trigger] self.juror(a) == (if panel_seq.contains(a) {
                JurorInfo {
                    active_disputes: (pre.juror(a).active_disputes + 1) as u32,
                    ..pre.juror(a)
                }
            } else {
                pre.juror(a)
            }) by {
                if panel_seq.contains(a) {
                    let j = choose|j: int| 0 <= j < panel_seq.len() && panel_seq[j] == a;
                    assert(by_key(self.jurors@, panel_seq[j]) == (JurorInfo {
                        active_disputes: (by_key(pre.jurors@, panel_seq[j]).active_disputes
                            + 1) as u32,
                        ..by_key(pre.jurors@, panel_seq[j])
                    }));
                }
            }
        }
        Ok(())
    }

    /// Whether some active juror's dispute count is saturated.
    pub(crate) fn scan_active_saturated(&self) -> (r: bool)
        requires
            self.wf(),
        ensures
            r == Self::any_active_saturated(*self),
    {
        let mut i: usize = 0;
        while i < self.active_jurors.len()
            invariant
                self.wf(),
                i <= self.active_jurors@.len(),
                forall|n: int|
                    0 <= n < i ==> self.juror(#[trigger] self.active_jurors@[n]).active_disputes
                        != u32::MAX,
            decreases self.active_jurors@.len() - i,
        {
            let a = self.active_jurors[i];
            proof {
                assert(has_key(self.jurors@, self.active_jurors@[i as int]));
            }
            let ji = match find_by_key(&self.jurors, a) {
                Some(j) => j,
                None => {
                    proof {
                        assert(false);
                    }
                    return false;
                },
            };
            proof {
                lemma_key_at(self.jurors@, ji as int);
            }
            if self.jurors[ji].active_disputes == u32::MAX {
                return true;
            }
            i += 1;
        }
        false
    }
}

} // verus!
