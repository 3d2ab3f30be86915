//! User reputation scores and badges.
//!
//! Scores start at a fixed value and move by admin-applied deltas, always
//! clamped into a fixed range.  Badges are awarded at most once per user.
//! Batch variants apply each item independently: a failing item is
//! counted and skipped while the rest still commit.

use vstd::prelude::*;

use crate::constants::MAX_BATCH_SIZE;
use crate::constants::REPUTATION_MAX;
use crate::constants::REPUTATION_MIN;
use crate::constants::REPUTATION_START;
use crate::errors::Error;
use crate::keyed::by_key;
use crate::keyed::find_by_key;
use crate::keyed::has_key;
use crate::keyed::keys_unique;
use crate::keyed::lemma_key_at;
use crate::keyed::lemma_key_push;
use crate::keyed::lemma_key_update;
use crate::keyed::Keyed;
use crate::state::copy_vec;
use crate::state::vec_take;
use crate::types::Address;
use crate::types::BadgeType;
use crate::types::BatchResult;
use crate::types::ReputationProfile;
use vstd::pervasive::VecAdditionalExecFns;

verus! {

impl Keyed for ReputationProfile {
    open spec fn key(&self) -> u64 {
        self.user
    }

    fn key_of(&self) -> u64 {
        self.user
    }
}

/// A delta applied to a score, clamped into the legal range.
pub open spec fn clamped_score(score: int, delta: int) -> int {
    if score + delta < REPUTATION_MIN {
        REPUTATION_MIN as int
    } else if score + delta > REPUTATION_MAX {
        REPUTATION_MAX as int
    } else {
        score + delta
    }
}

/// The score a user holds after the first `n` batch updates.
pub open spec fn score_after(
    s0: Seq<ReputationProfile>,
    updates: Seq<(Address, i128)>,
    n: int,
    u: Address,
) -> int
    decreases n,
{
    if n <= 0 {
        by_key(s0, u).score as int
    } else {
        let prev = score_after(s0, updates, n - 1, u);
        if updates[n - 1].0 == u {
            clamped_score(prev, updates[n - 1].1 as int)
        } else {
            prev
        }
    }
}

/// How many of the first `n` batch updates hit a registered user.
pub open spec fn updates_applied(
    s0: Seq<ReputationProfile>,
    updates: Seq<(Address, i128)>,
    n: int,
) -> int
    decreases n,
{
    if n <= 0 {
        0
    } else {
        updates_applied(s0, updates, n - 1) + if has_key(s0, updates[n - 1].0) {
            1int
        } else {
            0int
        }
    }
}

/// The badges a user holds after the first `n` batch awards.
pub open spec fn badges_after(
    s0: Seq<ReputationProfile>,
    awards: Seq<(Address, BadgeType)>,
    n: int,
    u: Address,
) -> Seq<BadgeType>
    decreases n,
{
    if n <= 0 {
        by_key(s0, u).badges@
    } else {
        let prev = badges_after(s0, awards, n - 1, u);
        if awards[n - 1].0 == u && has_key(s0, u) && !prev.contains(awards[n - 1].1) {
            prev.push(awards[n - 1].1)
        } else {
            prev
        }
    }
}

/// How many of the first `n` batch awards took effect.
pub open spec fn awards_applied(
    s0: Seq<ReputationProfile>,
    awards: Seq<(Address, BadgeType)>,
    n: int,
) -> int
    decreases n,
{
    if n <= 0 {
        0
    } else {
        awards_applied(s0, awards, n - 1) + if has_key(s0, awards[n - 1].0) && !badges_after(
            s0,
            awards,
            n - 1,
            awards[n - 1].0,
        ).contains(awards[n - 1].1) {
            1int
        } else {
            0int
        }
    }
}

/// The reputation and badge scoring service.
pub struct ReputationContract {
    /// Admin entitled to change scores and award badges, once initialized.
    pub admin: Option<Address>,
    /// One profile per registered user.
    pub profiles: Vec<ReputationProfile>,
}

/// Two profile records carry the same data.
pub open spec fn profile_matches(a: ReputationProfile, b: ReputationProfile) -> bool {
    &&& a.user == b.user
    &&& a.score == b.score
    &&& a.badges@ == b.badges@
}

impl ReputationContract {
    /// A profile for this user exists.
    pub open spec fn has_profile(self, u: Address) -> bool {
        has_key(self.profiles@, u)
    }

    /// The profile of this user.
    pub open spec fn profile(self, u: Address) -> ReputationProfile {
        by_key(self.profiles@, u)
    }

    /// Well-formedness: unique users, scores in range, badges unique.
    pub open spec fn wf(self) -> bool {
        &&& keys_unique(self.profiles@)
        &&& forall|i: int|
            0 <= i < self.profiles@.len() ==> REPUTATION_MIN <= (
            #[trigger] self.profiles@[i]).score <= REPUTATION_MAX
        &&& forall|i: int|
            0 <= i < self.profiles@.len() ==> badges_distinct(
                (#[trigger] self.profiles@[i]).badges@,
            )
    }

    /// A fresh, uninitialized service.
    pub fn new() -> (s: Self)
        ensures
            s.wf(),
            s.admin is None,
            s.profiles@.len() == 0,
    {
        ReputationContract { admin: None, profiles: Vec::new() }
    }

    /// Records the admin; legal exactly once.
    pub fn initialize(&mut self, admin: Address) -> (r: Result<(), Error>)
        requires
            old(self).wf(),
        ensures
            final(self).wf(),
            r == (if old(self).admin is Some {
                Err::<(), Error>(Error::AlreadyInitialized)
            } else {
                Ok::<(), Error>(())
            }),
            r is Ok ==> *final(self) == (Self { admin: Some(admin), ..*old(self) }),
            r is Err ==> *final(self) == *old(self),
    {
        if self.admin.is_some() {
            return Err(Error::AlreadyInitialized);
        }
        self.admin = Some(admin);
        Ok(())
    }

    /// Outcome `register_user` owes.
    pub open spec fn register_user_check(s: Self, user: Address) -> Result<(), Error> {
        if s.admin is None {
            Err(Error::NotInitialized)
        } else if s.has_profile(user) {
            Err(Error::UserAlreadyRegistered)
        } else {
            Ok(())
        }
    }

    /// Registers a user with the starting score and no badges, and
    /// returns the created profile.
    pub fn register_user(&mut self, user: Address) -> (r: Result<ReputationProfile, Error>)
        requires
            old(self).wf(),
        ensures
            final(self).wf(),
            final(self).admin == old(self).admin,
            match r {
                Ok(p) => {
                    &&& Self::register_user_check(*old(self), user) is Ok
                    &&& p.user == user && p.score == REPUTATION_START && p.badges@.len() == 0
                    &&& final(self).has_profile(user)
                    &&& profile_matches(final(self).profile(user), p)
                    &&& final(self).profiles@.len() == old(self).profiles@.len() + 1
                    &&& forall|q: u64|
                        q != user ==> (#[trigger] final(self).has_profile(q)) == old(
                            self,
                        ).has_profile(q) && (old(self).has_profile(q) ==> final(self).profile(q)
                            == old(self).profile(q))
                },
                Err(e) => Err::<(), Error>(e) == Self::register_user_check(*old(self), user)
                    && *final(self) == *old(self),
            },
    {
        if self.admin.is_none() {
            return Err(Error::NotInitialized);
        }
        if find_by_key(&self.profiles, user).is_some() {
            return Err(Error::UserAlreadyRegistered);
        }
        let ghost pre = *self;
        let profile = ReputationProfile { user, score: REPUTATION_START, badges: Vec::new() };
        proof {
            lemma_key_push(pre.profiles@, profile);
        }
        self.profiles.push(profile);
        Ok(ReputationProfile { user, score: REPUTATION_START, badges: Vec::new() })
    }

    /// Outcome `update_score` owes.
    pub open spec fn update_score_check(s: Self, user: Address) -> Result<(), Error> {
        if s.admin is None {
            Err(Error::NotInitialized)
        } else if !s.has_profile(user) {
            Err(Error::UserNotRegistered)
        } else {
            Ok(())
        }
    }

    /// Moves a user's score by `delta` (admin operation), clamping into
    /// the fixed range, and returns the new score.
    pub fn update_score(&mut self, user: Address, delta: i128) -> (r: Result<i128, Error>)
        requires
            old(self).wf(),
        ensures
            final(self).wf(),
            final(self).admin == old(self).admin,
            match r {
                Ok(v) => {
                    &&& Self::update_score_check(*old(self), user) is Ok
                    &&& v == clamped_score(old(self).profile(user).score as int, delta as int)
                    &&& final(self).has_profile(user)
                    &&& final(self).profile(user) == (ReputationProfile {
                        score: v,
                        ..old(self).profile(user)
                    })
                    &&& final(self).profiles@.len() == old(self).profiles@.len()
                    &&& forall|q: u64|
                        q != user ==> (#[trigger] final(self).has_profile(q)) == old(
                            self,
                        ).has_profile(q) && (old(self).has_profile(q) ==> final(self).profile(q)
                            == old(self).profile(q))
                },
                Err(e) => Err::<(), Error>(e) == Self::update_score_check(*old(self), user)
                    && *final(self) == *old(self),
            },
    {
        if self.admin.is_none() {
            return Err(Error::NotInitialized);
        }
        let idx = match find_by_key(&self.profiles, user) {
            Some(i) => i,
            None => {
                return Err(Error::UserNotRegistered);
            },
        };
        proof {
            lemma_key_at(self.profiles@, idx as int);
        }
        let new_score = apply_delta(self.profiles[idx].score, delta);
        let ghost pre = *self;
        let mut p = vec_take(
            &mut self.profiles,
            idx,
            ReputationProfile { user: 0, score: 0, badges: Vec::new() },
        );
        p.score = new_score;
        let ghost p2 = p;
        self.profiles.set(idx, p);
        proof {
            assert(self.profiles@ =~= pre.profiles@.update(idx as int, p2));
            lemma_key_update(pre.profiles@, idx as int, p2);
        }
        Ok(new_score)
    }

    /// Outcome `award_badge` owes.
    pub open spec fn award_badge_check(s: Self, user: Address, badge: BadgeType) -> Result<
        (),
        Error,
    > {
        if s.admin is None {
            Err(Error::NotInitialized)
        } else if !s.has_profile(user) {
            Err(Error::UserNotRegistered)
        } else if s.profile(user).badges@.contains(badge) {
            Err(Error::BadgeAlreadyAwarded)
        } else {
            Ok(())
        }
    }

    /// Awards a badge to a user (admin operation); each badge at most
    /// once per user.
    pub fn award_badge(&mut self, user: Address, badge: BadgeType) -> (r: Result<(), Error>)
        requires
            old(self).wf(),
        ensures
            final(self).wf(),
            final(self).admin == old(self).admin,
            r == Self::award_badge_check(*old(self), user, badge),
            r is Ok ==> {
                &&& final(self).has_profile(user)
                &&& final(self).profile(user).user == old(self).profile(user).user
                &&& final(self).profile(user).score == old(self).profile(user).score
                &&& final(self).profile(user).badges@ == old(self).profile(user).badges@.push(
                    badge,
                )
                &&& final(self).profiles@.len() == old(self).profiles@.len()
                &&& forall|q: u64|
                    q != user ==> (#[trigger] final(self).has_profile(q)) == old(
                        self,
                    ).has_profile(q) && (old(self).has_profile(q) ==> final(self).profile(q)
                        == old(self).profile(q))
            },
            r is Err ==> *final(self) == *old(self),
    {
        if self.admin.is_none() {
            return Err(Error::NotInitialized);
        }
        let idx = match find_by_key(&self.profiles, user) {
            Some(i) => i,
            None => {
                return Err(Error::UserNotRegistered);
            },
        };
        proof {
            lemma_key_at(self.profiles@, idx as int);
        }
        if contains_badge(&self.profiles[idx].badges, badge) {
            return Err(Error::BadgeAlreadyAwarded);
        }
        let ghost pre = *self;
        let mut p = vec_take(
            &mut self.profiles,
            idx,
            ReputationProfile { user: 0, score: 0, badges: Vec::new() },
        );
        p.badges.push(badge);
        let ghost p2 = p;
        self.profiles.set(idx, p);
        proof {
            assert(self.profiles@ =~= pre.profiles@.update(idx as int, p2));
            lemma_key_update(pre.profiles@, idx as int, p2);
            assert forall|a: int, b: int|
                0 <= a < b < p2.badges@.len() implies p2.badges@[a] != p2.badges@[b] by {
                if b == p2.badges@.len() - 1 {
                    assert(pre.profiles@[idx as int].badges@.contains(
                        pre.profiles@[idx as int].badges@[a],
                    ));
                }
            }
        }
        Ok(())
    }

    /// Outcome `get_profile` owes.
    pub open spec fn get_profile_check(s: Self, user: Address) -> Result<(), Error> {
        if s.admin is None {
            Err(Error::NotInitialized)
        } else if !s.has_profile(user) {
            Err(Error::UserNotRegistered)
        } else {
            Ok(())
        }
    }

    /// Returns a copy of a user's profile.
    pub fn get_profile(&self, user: Address) -> (r: Result<ReputationProfile, Error>)
        requires
            self.wf(),
        ensures
            match r {
                Ok(p) => Self::get_profile_check(*self, user) is Ok && profile_matches(
                    p,
                    self.profile(user),
                ),
                Err(e) => Err::<(), Error>(e) == Self::get_profile_check(*self, user),
            },
    {
        if self.admin.is_none() {
            return Err(Error::NotInitialized);
        }
        let idx = match find_by_key(&self.profiles, user) {
            Some(i) => i,
            None => {
                return Err(Error::UserNotRegistered);
            },
        };
        proof {
            lemma_key_at(self.profiles@, idx as int);
        }
        let p = &self.profiles[idx];
        Ok(ReputationProfile { user: p.user, score: p.score, badges: copy_vec(&p.badges) })
    }

    /// Returns the admin address.
    pub fn get_admin(&self) -> (r: Result<Address, Error>)
        ensures
            match r {
                Ok(a) => self.admin == Some(a),
                Err(e) => e == Error::NotInitialized && self.admin is None,
            },
    {
        match self.admin {
            None => Err(Error::NotInitialized),
            Some(a) => Ok(a),
        }
    }

    /// Outcome a batch operation owes before any item is looked at.
    pub open spec fn batch_size_check(n: int, initialized: bool) -> Result<(), Error> {
        if n == 0 {
            Err(Error::BatchEmpty)
        } else if n > MAX_BATCH_SIZE {
            Err(Error::BatchLimitExceeded)
        } else if !initialized {
            Err(Error::NotInitialized)
        } else {
            Ok(())
        }
    }

    /// Applies score updates for several users in one call (admin
    /// operation).  Items for unregistered users are counted as failed
    /// and skipped; the rest commit.
    pub fn batch_update_scores(&mut self, updates: Vec<(Address, i128)>) -> (r: Result<
        BatchResult,
        Error,
    >)
        requires
            old(self).wf(),
        ensures
            final(self).wf(),
            final(self).admin == old(self).admin,
            match r {
                Ok(b) => {
                    &&& Self::batch_size_check(updates@.len() as int, old(self).admin is Some)
                        is Ok
                    &&& b.total == updates@.len()
                    &&& b.successful == updates_applied(old(self).profiles@, updates@, updates@.len() as int)
                    &&& b.failed == b.total - b.successful
                    &&& final(self).profiles@.len() == old(self).profiles@.len()
                    &&& forall|q: u64| #[trigger]
                        final(self).has_profile(q) == old(self).has_profile(q)
                    &&& forall|q: u64|
                        old(self).has_profile(q) ==> (#[trigger] final(self).profile(q))
                            == (ReputationProfile {
                            score: score_after(
                                old(self).profiles@,
                                updates@,
                                updates@.len() as int,
                                q,
                            ) as i128,
                            ..old(self).profile(q)
                        })
                },
                Err(e) => Err::<(), Error>(e) == Self::batch_size_check(
                    updates@.len() as int,
                    old(self).admin is Some,
                ) && *final(self) == *old(self),
            },
    {
        if updates.len() == 0 {
            return Err(Error::BatchEmpty);
        }
        if updates.len() > MAX_BATCH_SIZE as usize {
            return Err(Error::BatchLimitExceeded);
        }
        if self.admin.is_none() {
            return Err(Error::NotInitialized);
        }
        let ghost pre = *self;
        let total = updates.len() as u32;
        let mut successful: u32 = 0;
        let mut i: usize = 0;
        while i < updates.len()
            invariant
                pre.wf(),
                pre == *old(self),
                self.admin == pre.admin,
                i <= updates@.len(),
                updates@.len() <= MAX_BATCH_SIZE,
                successful == updates_applied(pre.profiles@, updates@, i as int),
                successful <= i,
                self.profiles@.len() == pre.profiles@.len(),
                keys_unique(self.profiles@),
                forall|q: u64| #[trigger] has_key(self.profiles@, q) == has_key(pre.profiles@, q),
                forall|q: u64|
                    has_key(pre.profiles@, q) ==> (#[trigger] by_key(self.profiles@, q))
                        == (ReputationProfile {
                        score: score_after(pre.profiles@, updates@, i as int, q) as i128,
                        ..by_key(pre.profiles@, q)
                    }),
                forall|j: int|
                    0 <= j < self.profiles@.len() ==> REPUTATION_MIN <= (
                    #[trigger] self.profiles@[j]).score <= REPUTATION_MAX,
                forall|j: int|
                    0 <= j < self.profiles@.len() ==> badges_distinct(
                        (#[trigger] self.profiles@[j]).badges@,
                    ),
            decreases updates@.len() - i,
        {
            let (user, delta) = updates[i];
            match find_by_key(&self.profiles, user) {
                None => {
                    proof {
                        assert(!has_key(pre.profiles@, user));
                    }
                },
                Some(idx) => {
                    proof {
                        lemma_key_at(self.profiles@, idx as int);
                        assert(has_key(pre.profiles@, user));
                    }
                    let new_score = apply_delta(self.profiles[idx].score, delta);
                    let ghost mid = self.profiles@;
                    let mut p = vec_take(
                        &mut self.profiles,
                        idx,
                        ReputationProfile { user: 0, score: 0, badges: Vec::new() },
                    );
                    p.score = new_score;
                    let ghost p2 = p;
                    self.profiles.set(idx, p);
                    proof {
                        assert(self.profiles@ =~= mid.update(idx as int, p2));
                        lemma_key_update(mid, idx as int, p2);
                    }
                    successful = successful + 1;
                },
            }
            i += 1;
            proof {
                assert forall|q: u64|
                    has_key(pre.profiles@, q) implies (#[trigger] by_key(self.profiles@, q))
                    == (ReputationProfile {
                    score: score_after(pre.profiles@, updates@, i as int, q) as i128,
                    ..by_key(pre.profiles@, q)
                }) by {
                    if q != user {
                        assert(score_after(pre.profiles@, updates@, i as int, q) == score_after(
                            pre.profiles@,
                            updates@,
                            i as int - 1,
                            q,
                        ));
                    } else {
                        lemma_score_after_bounds(pre.profiles@, updates@, i as int - 1, q);
                        assert(score_after(pre.profiles@, updates@, i as int, q) == (if has_key(
                            pre.profiles@,
                            q,
                        ) && updates@[i as int - 1].0 == q {
                            clamped_score(
                                score_after(pre.profiles@, updates@, i as int - 1, q),
                                updates@[i as int - 1].1 as int,
                            )
                        } else {
                            score_after(pre.profiles@, updates@, i as int - 1, q)
                        }));
                    }
                }
            }
        }
        Ok(BatchResult { total, successful, failed: total - successful })
    }

    /// Awards badges to several users in one call (admin operation).
    /// Items for unregistered users or duplicate badges are counted as
    /// failed and skipped; the rest commit.
    pub fn batch_award_badges(&mut self, awards: Vec<(Address, BadgeType)>) -> (r: Result<
        BatchResult,
        Error,
    >)
        requires
            old(self).wf(),
        ensures
            final(self).wf(),
            final(self).admin == old(self).admin,
            match r {
                Ok(b) => {
                    &&& Self::batch_size_check(awards@.len() as int, old(self).admin is Some)
                        is Ok
                    &&& b.total == awards@.len()
                    &&& b.successful == awards_applied(old(self).profiles@, awards@, awards@.len() as int)
                    &&& b.failed == b.total - b.successful
                    &&& final(self).profiles@.len() == old(self).profiles@.len()
                    &&& forall|q: u64| #[trigger]
                        final(self).has_profile(q) == old(self).has_profile(q)
                    &&& forall|q: u64|
                        old(self).has_profile(q) ==> (#[trigger] final(self).profile(q)).user
                            == old(self).profile(q).user && final(self).profile(q).score == old(
                            self,
                        ).profile(q).score && final(self).profile(q).badges@ == badges_after(
                            old(self).profiles@,
                            awards@,
                            awards@.len() as int,
                            q,
                        )
                },
                Err(e) => Err::<(), Error>(e) == Self::batch_size_check(
                    awards@.len() as int,
                    old(self).admin is Some,
                ) && *final(self) == *old(self),
            },
    {
        if awards.len() == 0 {
            return Err(Error::BatchEmpty);
        }
        if awards.len() > MAX_BATCH_SIZE as usize {
            return Err(Error::BatchLimitExceeded);
        }
        if self.admin.is_none() {
            return Err(Error::NotInitialized);
        }
        let ghost pre = *self;
        let total = awards.len() as u32;
        let mut successful: u32 = 0;
        let mut i: usize = 0;
        while i < awards.len()
            invariant
                pre.wf(),
                pre == *old(self),
                self.admin == pre.admin,
                i <= awards@.len(),
                awards@.len() <= MAX_BATCH_SIZE,
                successful == awards_applied(pre.profiles@, awards@, i as int),
                successful <= i,
                self.profiles@.len() == pre.profiles@.len(),
                keys_unique(self.profiles@),
                forall|q: u64| #[trigger] has_key(self.profiles@, q) == has_key(pre.profiles@, q),
                forall|q: u64|
                    has_key(pre.profiles@, q) ==> (#[trigger] by_key(self.profiles@, q)).user
                        == by_key(pre.profiles@, q).user && by_key(self.profiles@, q).score
                        == by_key(pre.profiles@, q).score && by_key(self.profiles@, q).badges@
                        == badges_after(pre.profiles@, awards@, i as int, q),
                forall|j: int|
                    0 <= j < self.profiles@.len() ==> REPUTATION_MIN <= (
                    #[trigger] self.profiles@[j]).score <= REPUTATION_MAX,
                forall|j: int|
                    0 <= j < self.profiles@.len() ==> badges_distinct(
                        (#[trigger] self.profiles@[j]).badges@,
                    ),
            decreases awards@.len() - i,
        {
            let (user, badge) = awards[i];
            match find_by_key(&self.profiles, user) {
                None => {
                    proof {
                        assert(!has_key(pre.profiles@, user));
                    }
                },
                Some(idx) => {
                    proof {
                        lemma_key_at(self.profiles@, idx as int);
                        assert(has_key(pre.profiles@, user));
                    }
                    if !contains_badge(&self.profiles[idx].badges, badge) {
                        let ghost mid = self.profiles@;
                        let mut p = vec_take(
                            &mut self.profiles,
                            idx,
                            ReputationProfile { user: 0, score: 0, badges: Vec::new() },
                        );
                        p.badges.push(badge);
                        let ghost p2 = p;
                        self.profiles.set(idx, p);
                        proof {
                            assert(self.profiles@ =~= mid.update(idx as int, p2));
                            lemma_key_update(mid, idx as int, p2);
                            assert forall|a: int, b: int|
                                0 <= a < b < p2.badges@.len() implies p2.badges@[a]
                                != p2.badges@[b] by {
                                if b == p2.badges@.len() - 1 {
                                    assert(by_key(mid, user).badges@.contains(
                                        by_key(mid, user).badges@[a],
                                    ));
                                }
                            }
                        }
                        successful = successful + 1;
                    }
                },
            }
            i += 1;
            proof {
                assert forall|q: u64|
                    has_key(pre.profiles@, q) implies (#[trigger] by_key(self.profiles@, q)).user
                    == by_key(pre.profiles@, q).user && by_key(self.profiles@, q).score == by_key(
                    pre.profiles@,
                    q,
                ).score && by_key(self.profiles@, q).badges@ == badges_after(
                    pre.profiles@,
                    awards@,
                    i as int,
                    q,
                ) by {
                    if q != user {
                        assert(badges_after(pre.profiles@, awards@, i as int, q) == badges_after(
                            pre.profiles@,
                            awards@,
                            i as int - 1,
                            q,
                        ));
                    }
                }
            }
        }
        Ok(BatchResult { total, successful, failed: total - successful })
    }
}

/// A score stays inside the clamp range along any update sequence.
proof fn lemma_score_after_bounds(
    s0: Seq<ReputationProfile>,
    updates: Seq<(Address, i128)>,
    n: int,
    u: Address,
)
    requires
        REPUTATION_MIN <= by_key(s0, u).score <= REPUTATION_MAX,
    ensures
        REPUTATION_MIN <= score_after(s0, updates, n, u) <= REPUTATION_MAX,
    decreases n,
{
    if n > 0 {
        lemma_score_after_bounds(s0, updates, n - 1, u);
    }
}

/// No badge occurs twice.
pub open spec fn badges_distinct(s: Seq<BadgeType>) -> bool {
    forall|i: int, j: int| 0 <= i < j < s.len() ==> s[i] != s[j]
}

/// Whether the badge list contains a badge.
fn contains_badge(v: &Vec<BadgeType>, badge: BadgeType) -> (r: bool)
    ensures
        r == v@.contains(badge),
{
    let mut i: usize = 0;
    while i < v.len()
        invariant
            i <= v.len(),
            forall|n: int| 0 <= n < i ==> v@[n] != badge,
        decreases v.len() - i,
    {
        if v[i] == badge {
            return true;
        }
        i += 1;
    }
    false
}

/// Adds a delta to a score with saturation, then clamps into the fixed
/// range.
fn apply_delta(score: i128, delta: i128) -> (r: i128)
    requires
        REPUTATION_MIN <= score <= REPUTATION_MAX,
    ensures
        r == clamped_score(score as int, delta as int),
{
    let summed = match score.checked_add(delta) {
        Some(v) => v,
        None => {
            if delta > 0 {
                return REPUTATION_MAX;
            } else {
                return REPUTATION_MIN;
            }
        },
    };
    if summed < REPUTATION_MIN {
        REPUTATION_MIN
    } else if summed > REPUTATION_MAX {
        REPUTATION_MAX
    } else {
        summed
    }
}

} // verus!
