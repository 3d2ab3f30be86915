//! The contract state, its well-formedness invariant, and shared helpers.
//!
//! Every entity the ledger store would hold is plain data here.  Operations
//! take the state by `&mut` reference, validate first, and mutate only on
//! success, so a returned error always leaves the state untouched.

use vstd::prelude::*;

use crate::constants::APPEAL_JURY_SIZE;
use crate::constants::JURY_SIZE;
use crate::constants::MAX_APPEALS;
use crate::constants::MAX_APPROVAL_THRESHOLD;
use crate::constants::MIN_APPROVAL_THRESHOLD;
use crate::constants::MIN_VALIDATORS;
use crate::keyed::by_key;
use crate::keyed::has_key;
use crate::keyed::keys_unique;
use crate::keyed::lemma_key_at;
use crate::keyed::lemma_key_push;
use crate::keyed::lemma_key_update;
use crate::keyed::Keyed;
use vstd::pervasive::VecAdditionalExecFns;
use crate::types::Address;
use crate::types::Dispute;
use crate::types::DisputeResolution;
use crate::types::DisputeStatus;
use crate::types::EscrowInfo;
use crate::types::JurorInfo;
use crate::types::Milestone;
use crate::types::MilestoneStatus;
use crate::types::PauseState;
use crate::types::PendingUpgrade;
use crate::types::TokenTransfer;
use crate::types::VoteCommitment;

verus! {

/// One project's escrow, milestones, and per-milestone voter history.
pub struct ProjectState {
    /// Funds and validator configuration.
    pub escrow: EscrowInfo,
    /// Milestones of the project; a milestone's `id` equals its index.
    pub milestones: Vec<Milestone>,
    /// For each milestone, the validators who voted in the current
    /// submission round.
    pub voters: Vec<Vec<Address>>,
}

/// One juror's commitment for a dispute.
pub struct CommitmentEntry {
    /// The committing juror.
    pub juror: Address,
    /// The stored commitment.
    pub commitment: VoteCommitment,
}

/// One dispute with its panel and vote commitments.
pub struct DisputeState {
    /// The dispute record.
    pub dispute: Dispute,
    /// The currently assigned panel (empty until jury selection).
    pub panel: Vec<Address>,
    /// Jurors assigned in earlier rounds of this dispute.
    pub past_panelists: Vec<Address>,
    /// Vote commitments, one per committing juror.
    pub commitments: Vec<CommitmentEntry>,
}

/// The whole contract state.
pub struct EscrowContract {
    /// Platform admin, once initialized.
    pub admin: Option<Address>,
    /// Token used for juror staking and appeal fees, once configured.
    pub juror_token: Option<Address>,
    /// Global pause guard.
    pub pause: PauseState,
    /// The scheduled upgrade, if one is pending.
    pub pending_upgrade: Option<PendingUpgrade>,
    /// All projects, keyed by project id.
    pub projects: Vec<ProjectState>,
    /// All registered jurors, keyed by address.
    pub jurors: Vec<JurorInfo>,
    /// Addresses of currently registered jurors, each exactly once.
    pub active_jurors: Vec<Address>,
    /// All disputes; the dispute with id `d` sits at index `d - 1`.
    pub disputes: Vec<DisputeState>,
    /// Slashed stakes and appeal fees awaiting distribution.
    pub fee_pool: i128,
    /// Token movements recorded by operations and not yet performed by the
    /// host.
    pub pending_transfers: Vec<TokenTransfer>,
}

impl Keyed for ProjectState {
    open spec fn key(&self) -> u64 {
        self.escrow.project_id
    }

    fn key_of(&self) -> u64 {
        self.escrow.project_id
    }
}

impl Keyed for JurorInfo {
    open spec fn key(&self) -> u64 {
        self.address
    }

    fn key_of(&self) -> u64 {
        self.address
    }
}

impl Keyed for CommitmentEntry {
    open spec fn key(&self) -> u64 {
        self.juror
    }

    fn key_of(&self) -> u64 {
        self.juror
    }
}

/// No address occurs twice.
pub open spec fn addrs_distinct(s: Seq<Address>) -> bool {
    forall|i: int, j: int| 0 <= i < j < s.len() ==> s[i] != s[j]
}

/// Sum of the amounts of a sequence of milestones.
pub open spec fn milestone_amount_sum(s: Seq<Milestone>) -> int
    decreases s.len(),
{
    if s.len() == 0 {
        0
    } else {
        milestone_amount_sum(s.drop_last()) + s.last().amount
    }
}

/// Appending a milestone adds its amount to the sum.
pub proof fn lemma_milestone_sum_push(s: Seq<Milestone>, m: Milestone)
    ensures
        milestone_amount_sum(s.push(m)) == milestone_amount_sum(s) + m.amount,
{
    assert(s.push(m).drop_last() =~= s);
}

/// With non-negative amounts, every prefix sum is bounded by the total sum.
pub proof fn lemma_milestone_sum_prefix(s: Seq<Milestone>, n: int)
    requires
        0 <= n <= s.len(),
        forall|i: int| 0 <= i < s.len() ==> (#[trigger] s[i]).amount >= 0,
    ensures
        milestone_amount_sum(s.subrange(0, n)) <= milestone_amount_sum(s),
        milestone_amount_sum(s.subrange(0, n)) >= 0,
    decreases s.len(),
{
    if n == s.len() {
        assert(s.subrange(0, n) =~= s);
        lemma_milestone_sum_nonneg(s);
    } else {
        assert(s.drop_last().subrange(0, n) =~= s.subrange(0, n));
        lemma_milestone_sum_prefix(s.drop_last(), n);
    }
}

/// A sum of non-negative amounts is non-negative.
pub proof fn lemma_milestone_sum_nonneg(s: Seq<Milestone>)
    requires
        forall|i: int| 0 <= i < s.len() ==> (#[trigger] s[i]).amount >= 0,
    ensures
        milestone_amount_sum(s) >= 0,
    decreases s.len(),
{
    if s.len() > 0 {
        lemma_milestone_sum_nonneg(s.drop_last());
    }
}

/// A single milestone's shape within its project.
pub open spec fn milestone_wf(m: Milestone, i: int, pid: u64) -> bool {
    &&& m.id == i
    &&& m.project_id == pid
    &&& m.amount > 0
}

impl ProjectState {
    /// Well-formedness of one project.
    pub open spec fn wf(self) -> bool {
        &&& self.escrow.total_deposited >= 0
        &&& 0 <= self.escrow.released_amount <= self.escrow.total_deposited
        &&& milestone_amount_sum(self.milestones@) <= self.escrow.total_deposited
        &&& self.voters@.len() == self.milestones@.len()
        &&& forall|i: int|
            0 <= i < self.milestones@.len() ==> milestone_wf(
                #[trigger] self.milestones@[i],
                i,
                self.escrow.project_id,
            )
        &&& self.escrow.validators@.len() >= MIN_VALIDATORS
        &&& MIN_APPROVAL_THRESHOLD <= self.escrow.approval_threshold <= MAX_APPROVAL_THRESHOLD
    }
}

impl DisputeState {
    /// Well-formedness of one dispute entry, sitting at index `i`.
    pub open spec fn wf(self, i: int) -> bool {
        &&& self.dispute.id == i + 1
        &&& addrs_distinct(self.panel@)
        &&& keys_unique(self.commitments@)
        &&& self.dispute.appeal_count <= MAX_APPEALS
        &&& (self.dispute.status is Resolved ==> self.dispute.resolution
            != DisputeResolution::NoRes)
        &&& forall|j: int|
            0 <= j < self.commitments@.len() ==> ((#[trigger] self.commitments@[j]).commitment.revealed
                ==> self.commitments@[j].commitment.vote != DisputeResolution::NoRes)
        &&& (self.dispute.status is Voting || self.dispute.status is Resolved
            || self.dispute.status is FinalResolved ==> self.panel@.len() > 0)
    }

    /// Size the next panel of this dispute must have.
    pub open spec fn required_jury_size(self) -> u32 {
        if self.dispute.status is Appealed {
            APPEAL_JURY_SIZE
        } else {
            JURY_SIZE
        }
    }
}

impl EscrowContract {
    /// A project with this id exists.
    pub open spec fn has_project(self, pid: u64) -> bool {
        has_key(self.projects@, pid)
    }

    /// The project with this id.
    pub open spec fn project(self, pid: u64) -> ProjectState {
        by_key(self.projects@, pid)
    }

    /// A juror with this address is registered.
    pub open spec fn has_juror(self, a: Address) -> bool {
        has_key(self.jurors@, a)
    }

    /// The juror record for this address.
    pub open spec fn juror(self, a: Address) -> JurorInfo {
        by_key(self.jurors@, a)
    }

    /// A dispute with this id exists.
    pub open spec fn has_dispute(self, id: u64) -> bool {
        1 <= id <= self.disputes@.len()
    }

    /// The dispute entry with this id.
    pub open spec fn dispute_state(self, id: u64) -> DisputeState {
        self.disputes@[id - 1]
    }

    /// The contract is currently paused.
    pub open spec fn is_paused(self) -> bool {
        self.pause.paused
    }

    /// Well-formedness of the project table.
    pub open spec fn projects_wf(self) -> bool {
        &&& keys_unique(self.projects@)
        &&& forall|i: int| 0 <= i < self.projects@.len() ==> (#[trigger] self.projects@[i]).wf()
    }

    /// Well-formedness of the juror tables.
    pub open spec fn jurors_wf(self) -> bool {
        &&& keys_unique(self.jurors@)
        &&& forall|i: int|
            0 <= i < self.jurors@.len() ==> (#[trigger] self.jurors@[i]).staked_amount >= 0
        &&& addrs_distinct(self.active_jurors@)
        &&& forall|i: int|
            0 <= i < self.active_jurors@.len() ==> has_key(
                self.jurors@,
                #[trigger] self.active_jurors@[i],
            )
    }

    /// Well-formedness of the dispute table.
    pub open spec fn disputes_wf(self) -> bool {
        forall|i: int|
            0 <= i < self.disputes@.len() ==> (#[trigger] self.disputes@[i]).wf(i)
                && self.dispute_refs_wf(self.disputes@[i])
    }

    /// A dispute's references into the project table resolve.
    pub open spec fn dispute_refs_wf(self, d: DisputeState) -> bool {
        &&& self.has_project(d.dispute.project_id)
        &&& d.dispute.milestone_id < self.project(d.dispute.project_id).milestones@.len()
    }

    /// Well-formedness of the whole state.
    pub open spec fn wf(self) -> bool {
        &&& self.projects_wf()
        &&& self.jurors_wf()
        &&& self.disputes_wf()
        &&& self.fee_pool >= 0
        &&& forall|i: int|
            0 <= i < self.pending_transfers@.len() ==> (#[trigger] self.pending_transfers@[i]).amount
                >= 0
    }

    /// The admin plane (admin, staking token, pause guard, pending upgrade)
    /// is unchanged.
    pub open spec fn same_admin_plane(self, other: Self) -> bool {
        &&& self.admin == other.admin
        &&& self.juror_token == other.juror_token
        &&& self.pause == other.pause
        &&& self.pending_upgrade == other.pending_upgrade
    }

    /// The jury system (jurors, active list, fee pool) is unchanged.
    pub open spec fn same_jury_system(self, other: Self) -> bool {
        &&& self.jurors == other.jurors
        &&& self.active_jurors == other.active_jurors
        &&& self.fee_pool == other.fee_pool
    }

    /// The project table is unchanged.
    pub open spec fn same_projects(self, other: Self) -> bool {
        self.projects == other.projects
    }

    /// The dispute table is unchanged.
    pub open spec fn same_disputes(self, other: Self) -> bool {
        self.disputes == other.disputes
    }

    /// No pending transfer was added or removed.
    pub open spec fn same_transfers(self, other: Self) -> bool {
        self.pending_transfers == other.pending_transfers
    }

    /// Every project but `pid` is untouched.
    pub open spec fn other_projects_same(self, other: Self, pid: u64) -> bool {
        forall|q: u64|
            q != pid ==> (#[trigger] other.has_project(q)) == self.has_project(q)
                && (self.has_project(q) ==> other.project(q) == self.project(q))
    }

    /// Every juror but `a` is untouched.
    pub open spec fn other_jurors_same(self, other: Self, a: Address) -> bool {
        forall|q: u64|
            q != a ==> (#[trigger] other.has_juror(q)) == self.has_juror(q) && (self.has_juror(q)
                ==> other.juror(q) == self.juror(q))
    }

    /// Every dispute but `id` is untouched.
    pub open spec fn other_disputes_same(self, other: Self, id: u64) -> bool {
        &&& other.disputes@.len() == self.disputes@.len()
        &&& forall|i: int|
            0 <= i < self.disputes@.len() && i != id - 1 ==> (#[trigger] other.disputes@[i])
                == self.disputes@[i]
    }

    /// A fresh, empty contract state.
    pub fn new() -> (s: Self)
        ensures
            s.wf(),
            s.admin is None,
            s.juror_token is None,
            s.pause == (PauseState { paused: false, paused_at: 0, resume_not_before: 0 }),
            s.pending_upgrade is None,
            s.projects@.len() == 0,
            s.jurors@.len() == 0,
            s.active_jurors@.len() == 0,
            s.disputes@.len() == 0,
            s.fee_pool == 0,
            s.pending_transfers@.len() == 0,
    {
        EscrowContract {
            admin: None,
            juror_token: None,
            pause: PauseState { paused: false, paused_at: 0, resume_not_before: 0 },
            pending_upgrade: None,
            projects: Vec::new(),
            jurors: Vec::new(),
            active_jurors: Vec::new(),
            disputes: Vec::new(),
            fee_pool: 0,
            pending_transfers: Vec::new(),
        }
    }

    /// Hands the recorded token movements to the host and clears the list.
    pub fn take_pending_transfers(&mut self) -> (r: Vec<TokenTransfer>)
        requires
            old(self).wf(),
        ensures
            final(self).wf(),
            r@ == old(self).pending_transfers@,
            final(self).pending_transfers@.len() == 0,
            final(self).same_admin_plane(*old(self)),
            final(self).same_jury_system(*old(self)),
            final(self).same_projects(*old(self)),
            final(self).same_disputes(*old(self)),
    {
        let r = copy_vec(&self.pending_transfers);
        self.pending_transfers.clear();
        r
    }
}

/// Updating one milestone without changing its amount keeps the sum.
pub proof fn lemma_milestone_sum_update(s: Seq<Milestone>, i: int, m: Milestone)
    requires
        0 <= i < s.len(),
        m.amount == s[i].amount,
    ensures
        milestone_amount_sum(s.update(i, m)) == milestone_amount_sum(s),
    decreases s.len(),
{
    if i == s.len() - 1 {
        assert(s.update(i, m).drop_last() =~= s.drop_last());
    } else {
        assert(s.update(i, m).drop_last() =~= s.drop_last().update(i, m));
        lemma_milestone_sum_update(s.drop_last(), i, m);
    }
}

/// Two escrow records carry the same data.
pub open spec fn escrow_matches(a: EscrowInfo, b: EscrowInfo) -> bool {
    &&& a.project_id == b.project_id
    &&& a.creator == b.creator
    &&& a.token == b.token
    &&& a.total_deposited == b.total_deposited
    &&& a.released_amount == b.released_amount
    &&& a.validators@ == b.validators@
    &&& a.approval_threshold == b.approval_threshold
}

/// Two milestone records carry the same data.
pub open spec fn milestone_matches(a: Milestone, b: Milestone) -> bool {
    &&& a.id == b.id
    &&& a.project_id == b.project_id
    &&& a.description_hash@ == b.description_hash@
    &&& a.amount == b.amount
    &&& a.status == b.status
    &&& a.proof_hash@ == b.proof_hash@
    &&& a.approval_count == b.approval_count
    &&& a.rejection_count == b.rejection_count
    &&& a.created_at == b.created_at
}

/// Takes the element at index `i` out of the vector, leaving `dummy` in
/// its place.
pub fn vec_take<T>(v: &mut Vec<T>, i: usize, dummy: T) -> (r: T)
    requires
        i < old(v).len(),
    ensures
        final(v)@ == old(v)@.update(i as int, dummy),
        r == old(v)@[i as int],
{
    let mut d = dummy;
    v.set_and_swap(i, &mut d);
    d
}

/// A placeholder project put in a vector slot while its real entry is
/// being reworked.
pub fn placeholder_project() -> ProjectState {
    ProjectState {
        escrow: EscrowInfo {
            project_id: 0,
            creator: 0,
            token: 0,
            total_deposited: 0,
            released_amount: 0,
            validators: Vec::new(),
            approval_threshold: 0,
        },
        milestones: Vec::new(),
        voters: Vec::new(),
    }
}

/// A placeholder dispute entry put in a vector slot while its real entry
/// is being reworked.
pub fn placeholder_dispute() -> DisputeState {
    DisputeState {
        dispute: Dispute {
            id: 0,
            milestone_id: 0,
            project_id: 0,
            initiator: 0,
            status: DisputeStatus::Pending,
            created_at: 0,
            resolution: DisputeResolution::NoRes,
            resolution_payload: 0,
            appeal_count: 0,
        },
        panel: Vec::new(),
        past_panelists: Vec::new(),
        commitments: Vec::new(),
    }
}

/// A placeholder milestone put in a vector slot while its real entry is
/// being reworked.
pub fn placeholder_milestone() -> Milestone {
    Milestone {
        id: 0,
        project_id: 0,
        description_hash: Vec::new(),
        amount: 0,
        status: MilestoneStatus::Pending,
        proof_hash: Vec::new(),
        approval_count: 0,
        rejection_count: 0,
        created_at: 0,
    }
}

impl EscrowContract {
    /// Replacing the project at index `i` by a well-formed project with the
    /// same id, while leaving every other table alone, preserves
    /// well-formedness; milestones may only be added, never dropped.
    pub proof fn lemma_commit_project(pre: Self, post: Self, i: int, p2: ProjectState)
        requires
            pre.wf(),
            0 <= i < pre.projects@.len(),
            p2.escrow.project_id == pre.projects@[i].escrow.project_id,
            p2.wf(),
            p2.milestones@.len() >= pre.projects@[i].milestones@.len(),
            post.projects@ == pre.projects@.update(i, p2),
            post.admin == pre.admin,
            post.juror_token == pre.juror_token,
            post.pause == pre.pause,
            post.pending_upgrade == pre.pending_upgrade,
            post.jurors == pre.jurors,
            post.active_jurors == pre.active_jurors,
            post.disputes == pre.disputes,
            post.fee_pool == pre.fee_pool,
            forall|j: int|
                0 <= j < post.pending_transfers@.len() ==> (
                #[trigger] post.pending_transfers@[j]).amount >= 0,
        ensures
            post.wf(),
            pre.has_project(p2.escrow.project_id),
            pre.project(p2.escrow.project_id) == pre.projects@[i],
            post.has_project(p2.escrow.project_id),
            post.project(p2.escrow.project_id) == p2,
            post.other_projects_same(pre, p2.escrow.project_id),
    {
        let pid = p2.escrow.project_id;
        lemma_key_update(pre.projects@, i, p2);
        lemma_key_at(pre.projects@, i);
        assert forall|j: int| 0 <= j < post.projects@.len() implies (
        #[trigger] post.projects@[j]).wf() by {
            if j != i {
                assert(post.projects@[j] == pre.projects@[j]);
                assert(pre.projects@[j].wf());
            }
        }
        assert forall|j: int| 0 <= j < post.disputes@.len() implies (
        #[trigger] post.disputes@[j]).wf(j) && post.dispute_refs_wf(post.disputes@[j]) by {
            assert(post.disputes@[j] == pre.disputes@[j]);
            assert(pre.disputes@[j].wf(j));
            let d = pre.disputes@[j];
            assert(pre.dispute_refs_wf(d));
            if d.dispute.project_id == pid {
                assert(post.project(pid) == p2);
            } else {
                assert(post.project(d.dispute.project_id) == pre.project(d.dispute.project_id));
            }
        }
    }

    /// Appending a well-formed dispute entry with the next id, while
    /// leaving every other table alone, preserves well-formedness.
    pub proof fn lemma_add_dispute(pre: Self, post: Self, d: DisputeState)
        requires
            pre.wf(),
            d.wf(pre.disputes@.len() as int),
            pre.dispute_refs_wf(d),
            post.disputes@ == pre.disputes@.push(d),
            post.projects == pre.projects,
            post.jurors == pre.jurors,
            post.active_jurors == pre.active_jurors,
            post.fee_pool == pre.fee_pool,
            post.admin == pre.admin,
            post.juror_token == pre.juror_token,
            post.pause == pre.pause,
            post.pending_upgrade == pre.pending_upgrade,
            post.pending_transfers == pre.pending_transfers,
        ensures
            post.wf(),
            post.disputes@.len() == pre.disputes@.len() + 1,
            post.dispute_state((pre.disputes@.len() + 1) as u64) == d,
            forall|i: int| 0 <= i < pre.disputes@.len() ==> post.disputes@[i] == pre.disputes@[i],
    {
        assert forall|j: int| 0 <= j < post.disputes@.len() implies (
        #[trigger] post.disputes@[j]).wf(j) && post.dispute_refs_wf(post.disputes@[j]) by {
            if j < pre.disputes@.len() {
                assert(post.disputes@[j] == pre.disputes@[j]);
                assert(pre.disputes@[j].wf(j));
                assert(pre.dispute_refs_wf(pre.disputes@[j]));
            } else {
                assert(post.disputes@[j] == d);
            }
        }
    }

    /// Appending a well-formed project with a fresh id, while leaving every
    /// other table alone, preserves well-formedness.
    pub proof fn lemma_add_project(pre: Self, post: Self, p: ProjectState)
        requires
            pre.wf(),
            p.wf(),
            !pre.has_project(p.escrow.project_id),
            post.projects@ == pre.projects@.push(p),
            post.admin == pre.admin,
            post.juror_token == pre.juror_token,
            post.pause == pre.pause,
            post.pending_upgrade == pre.pending_upgrade,
            post.jurors == pre.jurors,
            post.active_jurors == pre.active_jurors,
            post.disputes == pre.disputes,
            post.fee_pool == pre.fee_pool,
            post.pending_transfers == pre.pending_transfers,
        ensures
            post.wf(),
            post.has_project(p.escrow.project_id),
            post.project(p.escrow.project_id) == p,
            post.other_projects_same(pre, p.escrow.project_id),
    {
        let pid = p.escrow.project_id;
        lemma_key_push(pre.projects@, p);
        assert forall|j: int| 0 <= j < post.projects@.len() implies (
        #[trigger] post.projects@[j]).wf() by {
            if j < pre.projects@.len() {
                assert(post.projects@[j] == pre.projects@[j]);
                assert(pre.projects@[j].wf());
            } else {
                assert(post.projects@[j] == p);
            }
        }
        assert forall|j: int| 0 <= j < post.disputes@.len() implies (
        #[trigger] post.disputes@[j]).wf(j) && post.dispute_refs_wf(post.disputes@[j]) by {
            assert(post.disputes@[j] == pre.disputes@[j]);
            assert(pre.disputes@[j].wf(j));
            let d = pre.disputes@[j];
            assert(pre.dispute_refs_wf(d));
            assert(d.dispute.project_id != pid);
            assert(post.project(d.dispute.project_id) == pre.project(d.dispute.project_id));
        }
    }
}

/// Copies a vector of plain values.
pub fn copy_vec<T: Copy>(v: &Vec<T>) -> (r: Vec<T>)
    ensures
        r@ == v@,
{
    let mut r: Vec<T> = Vec::new();
    let mut i: usize = 0;
    while i < v.len()
        invariant
            i <= v.len(),
            r@ == v@.subrange(0, i as int),
        decreases v.len() - i,
    {
        r.push(v[i]);
        proof {
            assert(v@.subrange(0, i as int).push(v@[i as int]) =~= v@.subrange(0, i + 1));
        }
        i += 1;
    }
    proof {
        assert(v@.subrange(0, v@.len() as int) =~= v@);
    }
    r
}

/// Whether the vector contains the address.
pub fn contains_addr(v: &Vec<Address>, a: Address) -> (r: bool)
    ensures
        r == v@.contains(a),
{
    let mut i: usize = 0;
    while i < v.len()
        invariant
            i <= v.len(),
            forall|n: int| 0 <= n < i ==> v@[n] != a,
        decreases v.len() - i,
    {
        if v[i] == a {
            return true;
        }
        i += 1;
    }
    false
}

/// Index of the first occurrence of the address, if any.
pub fn find_addr(v: &Vec<Address>, a: Address) -> (r: Option<usize>)
    ensures
        match r {
            Some(i) => i < v.len() && v@[i as int] == a,
            None => !v@.contains(a),
        },
{
    let mut i: usize = 0;
    while i < v.len()
        invariant
            i <= v.len(),
            forall|n: int| 0 <= n < i ==> v@[n] != a,
        decreases v.len() - i,
    {
        if v[i] == a {
            return Some(i);
        }
        i += 1;
    }
    None
}

/// Copies an escrow record.
pub fn clone_escrow(e: &EscrowInfo) -> (r: EscrowInfo)
    ensures
        r.project_id == e.project_id,
        r.creator == e.creator,
        r.token == e.token,
        r.total_deposited == e.total_deposited,
        r.released_amount == e.released_amount,
        r.validators@ == e.validators@,
        r.approval_threshold == e.approval_threshold,
{
    EscrowInfo {
        project_id: e.project_id,
        creator: e.creator,
        token: e.token,
        total_deposited: e.total_deposited,
        released_amount: e.released_amount,
        validators: copy_vec(&e.validators),
        approval_threshold: e.approval_threshold,
    }
}

/// Copies a milestone record.
pub fn clone_milestone(m: &Milestone) -> (r: Milestone)
    ensures
        r.id == m.id,
        r.project_id == m.project_id,
        r.description_hash@ == m.description_hash@,
        r.amount == m.amount,
        r.status == m.status,
        r.proof_hash@ == m.proof_hash@,
        r.approval_count == m.approval_count,
        r.rejection_count == m.rejection_count,
        r.created_at == m.created_at,
{
    Milestone {
        id: m.id,
        project_id: m.project_id,
        description_hash: copy_vec(&m.description_hash),
        amount: m.amount,
        status: m.status,
        proof_hash: copy_vec(&m.proof_hash),
        approval_count: m.approval_count,
        rejection_count: m.rejection_count,
        created_at: m.created_at,
    }
}

/// Compares two byte vectors for equality.
pub fn bytes_eq(a: &Vec<u8>, b: &Vec<u8>) -> (r: bool)
    ensures
        r == (a@ == b@),
{
    if a.len() != b.len() {
        return false;
    }
    let mut i: usize = 0;
    while i < a.len()
        invariant
            i <= a.len(),
            a@.len() == b@.len(),
            forall|n: int| 0 <= n < i ==> a@[n] == b@[n],
        decreases a.len() - i,
    {
        if a[i] != b[i] {
            return false;
        }
        i += 1;
    }
    proof {
        assert(a@ =~= b@);
    }
    true
}

} // verus!
