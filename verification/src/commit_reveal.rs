//! Two-phase commit-reveal voting for dispute juries.
//!
//! During the commit window a juror stores the digest of a preimage built
//! from the vote tag, the payload bytes (for a partial release only), and
//! a private salt.  During the reveal window the juror hands in the
//! plaintext; the recomputed digest must match the stored one exactly.
//! Revealing with the committed plaintext succeeds exactly once; a second
//! attempt is always rejected.

use vstd::prelude::*;

use crate::constants::VOTING_COMMIT_PERIOD;
use crate::constants::VOTING_REVEAL_PERIOD;
use crate::errors::Error;
use crate::host::sha256_bytes;
use crate::host::sha256_of;
use crate::keyed::by_key;
use crate::keyed::find_by_key;
use crate::keyed::has_key;
use crate::keyed::lemma_key_at;
use crate::keyed::lemma_key_push;
use crate::keyed::lemma_key_update;
use crate::state::bytes_eq;
use crate::state::placeholder_dispute;
use crate::state::vec_take;
use crate::state::CommitmentEntry;
use crate::state::EscrowContract;
use crate::types::Address;
use crate::types::DisputeResolution;
use crate::types::DisputeStatus;
use crate::types::VoteCommitment;
use vstd::pervasive::VecAdditionalExecFns;

verus! {

/// Serialized tag of a vote variant.
pub open spec fn vote_tag(v: DisputeResolution) -> u8 {
    match v {
        DisputeResolution::RelFunds => 0,
        DisputeResolution::RefBackers => 1,
        DisputeResolution::PartRel => 2,
        DisputeResolution::NoRes => 3,
    }
}

/// Big-endian bytes of a 32-bit payload.
pub open spec fn u32_be_bytes(x: u32) -> Seq<u8> {
    seq![
        (x / 0x1000000) as u8,
        ((x / 0x10000) % 0x100) as u8,
        ((x / 0x100) % 0x100) as u8,
        (x % 0x100) as u8,
    ]
}

/// The deterministic byte serialization a juror commits to: the vote tag,
/// then (for a partial release only) the payload bytes, then the salt.
pub open spec fn commit_preimage(v: DisputeResolution, payload: u32, salt: Seq<u8>) -> Seq<u8> {
    if v is PartRel {
        seq![vote_tag(v)] + u32_be_bytes(payload) + salt
    } else {
        seq![vote_tag(v)] + salt
    }
}

/// Builds the committed byte serialization.
fn build_preimage(v: DisputeResolution, payload: u32, salt: &Vec<u8>) -> (r: Vec<u8>)
    ensures
        r@ == commit_preimage(v, payload, salt@),
{
    let mut r: Vec<u8> = Vec::new();
    let tag: u8 = match v {
        DisputeResolution::RelFunds => 0,
        DisputeResolution::RefBackers => 1,
        DisputeResolution::PartRel => 2,
        DisputeResolution::NoRes => 3,
    };
    r.push(tag);
    if let DisputeResolution::PartRel = v {
        r.push((payload / 0x1000000) as u8);
        r.push(((payload / 0x10000) % 0x100) as u8);
        r.push(((payload / 0x100) % 0x100) as u8);
        r.push((payload % 0x100) as u8);
    }
    let mut i: usize = 0;
    let ghost base = r@;
    while i < salt.len()
        invariant
            i <= salt@.len(),
            r@ == base + salt@.subrange(0, i as int),
        decreases salt@.len() - i,
    {
        r.push(salt[i]);
        proof {
            assert(base + salt@.subrange(0, i as int + 1) =~= (base + salt@.subrange(
                0,
                i as int,
            )).push(salt@[i as int]));
        }
        i += 1;
    }
    proof {
        assert(salt@.subrange(0, salt@.len() as int) =~= salt@);
        assert(r@ =~= commit_preimage(v, payload, salt@));
    }
    r
}

/// Digest a juror commits to for the given plaintext vote; what
/// `reveal_vote` later checks the revealed plaintext against.
pub fn commitment_hash(vote: DisputeResolution, payload: u32, salt: &Vec<u8>) -> (r: Vec<u8>)
    ensures
        r@ == sha256_of(commit_preimage(vote, payload, salt@)),
        r@.len() == 32,
{
    let preimage = build_preimage(vote, payload, salt);
    sha256_bytes(&preimage)
}

/// A placeholder commitment entry put in a vector slot while its real
/// entry is being reworked.
fn placeholder_commitment() -> CommitmentEntry {
    CommitmentEntry {
        juror: 0,
        commitment: VoteCommitment {
            hash: Vec::new(),
            revealed: false,
            vote: DisputeResolution::NoRes,
            vote_payload: 0,
        },
    }
}

impl EscrowContract {
    /// Outcome `commit_vote` owes for the given state and input.
    pub open spec fn commit_vote_check(
        s: Self,
        dispute_id: u64,
        juror: Address,
        now: u64,
    ) -> Result<(), Error> {
        if !s.has_dispute(dispute_id) {
            Err(Error::DisputeNotFound)
        } else {
            let d = s.dispute_state(dispute_id);
            if d.dispute.status != DisputeStatus::Voting {
                Err(Error::VotingPeriodNotActive)
            } else if now > d.dispute.created_at + VOTING_COMMIT_PERIOD {
                Err(Error::VotingPeriodNotActive)
            } else if !d.panel@.contains(juror) {
                Err(Error::NotAJuror)
            } else if has_key(d.commitments@, juror) {
                Err(Error::AlreadyVoted)
            } else {
                Ok(())
            }
        }
    }

    /// Stores a juror's blinded vote during the commit window; one
    /// commitment per juror per dispute round.
    pub fn commit_vote(
        &mut self,
        dispute_id: u64,
        juror: Address,
        commitment_hash: Vec<u8>,
        now: u64,
    ) -> (r: Result<(), Error>)
        requires
            old(self).wf(),
        ensures
            final(self).wf(),
            r == Self::commit_vote_check(*old(self), dispute_id, juror, now),
            r is Ok ==> {
                let d0 = old(self).dispute_state(dispute_id);
                let d1 = final(self).dispute_state(dispute_id);
                &&& final(self).disputes@.len() == old(self).disputes@.len()
                &&& d1.commitments@ == d0.commitments@.push(
                    (CommitmentEntry {
                        juror,
                        commitment: VoteCommitment {
                            hash: commitment_hash,
                            revealed: false,
                            vote: DisputeResolution::NoRes,
                            vote_payload: 0,
                        },
                    }),
                )
                &&& d1.dispute == d0.dispute
                &&& d1.panel == d0.panel
                &&& d1.past_panelists == d0.past_panelists
                &&& final(self).other_disputes_same(*old(self), dispute_id)
                &&& final(self).same_projects(*old(self))
                &&& final(self).same_jury_system(*old(self))
                &&& final(self).same_admin_plane(*old(self))
                &&& final(self).same_transfers(*old(self))
            },
            r is Err ==> *final(self) == *old(self),
    {
        if dispute_id == 0 || dispute_id > self.disputes.len() as u64 {
            return Err(Error::DisputeNotFound);
        }
        let di = (dispute_id - 1) as usize;
        if self.disputes[di].dispute.status != DisputeStatus::Voting {
            return Err(Error::VotingPeriodNotActive);
        }
        let created = self.disputes[di].dispute.created_at;
        if now > created && now - created > VOTING_COMMIT_PERIOD {
            return Err(Error::VotingPeriodNotActive);
        }
        if !crate::state::contains_addr(&self.disputes[di].panel, juror) {
            return Err(Error::NotAJuror);
        }
        if find_by_key(&self.disputes[di].commitments, juror).is_some() {
            return Err(Error::AlreadyVoted);
        }
        let ghost pre = *self;
        let mut entry = vec_take(&mut self.disputes, di, placeholder_dispute());
        let commitment = CommitmentEntry {
            juror,
            commitment: VoteCommitment {
                hash: commitment_hash,
                revealed: false,
                vote: DisputeResolution::NoRes,
                vote_payload: 0,
            },
        };
        proof {
            assert(pre.disputes@[di as int].wf(di as int));
            lemma_key_push(pre.dispute_state(dispute_id).commitments@, commitment);
        }
        entry.commitments.push(commitment);
        let ghost entry2 = entry;
        self.disputes.set(di, entry);
        proof {
            assert(self.disputes@ =~= pre.disputes@.update(di as int, entry2));
            assert(entry2.wf(di as int));
            assert forall|j: int| 0 <= j < self.disputes@.len() implies (
            #[trigger] self.disputes@[j]).wf(j) && self.dispute_refs_wf(self.disputes@[j]) by {
                assert(pre.disputes@[j].wf(j));
                assert(pre.dispute_refs_wf(pre.disputes@[j]));
                if j != di {
                    assert(self.disputes@[j] == pre.disputes@[j]);
                }
            }
        }
        Ok(())
    }

    /// Outcome `reveal_vote` owes for the given state and input.
    pub open spec fn reveal_vote_check(
        s: Self,
        dispute_id: u64,
        juror: Address,
        vote: DisputeResolution,
        payload: u32,
        salt: Seq<u8>,
        now: u64,
    ) -> Result<(), Error> {
        if !s.has_dispute(dispute_id) {
            Err(Error::DisputeNotFound)
        } else {
            let d = s.dispute_state(dispute_id);
            let commit_end = d.dispute.created_at + VOTING_COMMIT_PERIOD;
            if now <= commit_end || now > commit_end + VOTING_REVEAL_PERIOD {
                Err(Error::RevealPeriodNotActive)
            } else if !has_key(d.commitments@, juror) {
                Err(Error::NotFound)
            } else if by_key(d.commitments@, juror).commitment.revealed {
                Err(Error::AlreadyVoted)
            } else if vote == DisputeResolution::NoRes {
                Err(Error::InvalidInput)
            } else if by_key(d.commitments@, juror).commitment.hash@ != sha256_of(
                commit_preimage(vote, payload, salt),
            ) {
                Err(Error::InvalidVoteReveal)
            } else {
                Ok(())
            }
        }
    }

    /// Reveals a committed vote during the reveal window.  The plaintext
    /// must hash to the stored commitment; any mismatch is rejected and
    /// the commitment stays unrevealed.  A second reveal is rejected.
    pub fn reveal_vote(
        &mut self,
        dispute_id: u64,
        juror: Address,
        vote: DisputeResolution,
        payload: u32,
        salt: Vec<u8>,
        now: u64,
    ) -> (r: Result<(), Error>)
        requires
            old(self).wf(),
        ensures
            final(self).wf(),
            r == Self::reveal_vote_check(*old(self), dispute_id, juror, vote, payload, salt@, now),
            r is Ok ==> {
                let d0 = old(self).dispute_state(dispute_id);
                let d1 = final(self).dispute_state(dispute_id);
                &&& final(self).disputes@.len() == old(self).disputes@.len()
                &&& d1.commitments@.len() == d0.commitments@.len()
                &&& forall|a: Address| #[trigger]
                    has_key(d1.commitments@, a) == has_key(d0.commitments@, a)
                &&& by_key(d1.commitments@, juror) == (CommitmentEntry {
                    juror,
                    commitment: VoteCommitment {
                        hash: by_key(d0.commitments@, juror).commitment.hash,
                        revealed: true,
                        vote,
                        vote_payload: payload,
                    },
                })
                &&& forall|a: Address|
                    a != juror && has_key(d0.commitments@, a) ==> #[trigger] by_key(
                        d1.commitments@,
                        a,
                    ) == by_key(d0.commitments@, a)
                &&& d1.dispute == d0.dispute
                &&& d1.panel == d0.panel
                &&& d1.past_panelists == d0.past_panelists
                &&& final(self).other_disputes_same(*old(self), dispute_id)
                &&& final(self).same_projects(*old(self))
                &&& final(self).same_jury_system(*old(self))
                &&& final(self).same_admin_plane(*old(self))
                &&& final(self).same_transfers(*old(self))
            },
            r is Err ==> *final(self) == *old(self),
    {
        if dispute_id == 0 || dispute_id > self.disputes.len() as u64 {
            return Err(Error::DisputeNotFound);
        }
        let di = (dispute_id - 1) as usize;
        let created = self.disputes[di].dispute.created_at;
        let in_window = now > created && now - created > VOTING_COMMIT_PERIOD && (now - created
            <= VOTING_COMMIT_PERIOD + VOTING_REVEAL_PERIOD);
        if !in_window {
            return Err(Error::RevealPeriodNotActive);
        }
        let ci = match find_by_key(&self.disputes[di].commitments, juror) {
            Some(i) => i,
            None => {
                return Err(Error::NotFound);
            },
        };
        proof {
            assert(self.disputes@[di as int].wf(di as int));
            lemma_key_at(self.disputes@[di as int].commitments@, ci as int);
        }
        if self.disputes[di].commitments[ci].commitment.revealed {
            return Err(Error::AlreadyVoted);
        }
        if vote == DisputeResolution::NoRes {
            return Err(Error::InvalidInput);
        }
        let preimage = build_preimage(vote, payload, &salt);
        let expected = sha256_bytes(&preimage);
        if !bytes_eq(&self.disputes[di].commitments[ci].commitment.hash, &expected) {
            return Err(Error::InvalidVoteReveal);
        }
        let ghost pre = *self;
        let mut entry = vec_take(&mut self.disputes, di, placeholder_dispute());
        let mut c = vec_take(&mut entry.commitments, ci, placeholder_commitment());
        c.commitment.revealed = true;
        c.commitment.vote = vote;
        c.commitment.vote_payload = payload;
        let ghost c2 = c;
        entry.commitments.set(ci, c);
        let ghost entry2 = entry;
        self.disputes.set(di, entry);
        proof {
            assert(self.disputes@ =~= pre.disputes@.update(di as int, entry2));
            assert(entry2.commitments@ =~= pre.dispute_state(dispute_id).commitments@.update(
                ci as int,
                c2,
            ));
            lemma_key_update(pre.dispute_state(dispute_id).commitments@, ci as int, c2);
            assert(entry2.wf(di as int)) by {
                assert(pre.disputes@[di as int].wf(di as int));
            }
            assert forall|j: int| 0 <= j < self.disputes@.len() implies (
            #[trigger] self.disputes@[j]).wf(j) && self.dispute_refs_wf(self.disputes@[j]) by {
                assert(pre.disputes@[j].wf(j));
                assert(pre.dispute_refs_wf(pre.disputes@[j]));
                if j != di {
                    assert(self.disputes@[j] == pre.disputes@[j]);
                }
            }
        }
        Ok(())
    }

    /// Law (commit-reveal round trip, success direction): revealing with
    /// the exact vote, payload and salt that produced the stored
    /// commitment is accepted, whenever the reveal window is open, the
    /// commitment exists and has not been revealed, and the vote is a
    /// legal reveal value.
    pub proof fn lemma_reveal_round_trip(
        s: Self,
        dispute_id: u64,
        juror: Address,
        vote: DisputeResolution,
        payload: u32,
        salt: Seq<u8>,
        now: u64,
    )
        requires
            s.has_dispute(dispute_id),
            has_key(s.dispute_state(dispute_id).commitments@, juror),
            by_key(s.dispute_state(dispute_id).commitments@, juror).commitment.hash@ == sha256_of(
                commit_preimage(vote, payload, salt),
            ),
            !by_key(s.dispute_state(dispute_id).commitments@, juror).commitment.revealed,
            vote != DisputeResolution::NoRes,
            now > s.dispute_state(dispute_id).dispute.created_at + VOTING_COMMIT_PERIOD,
            now <= s.dispute_state(dispute_id).dispute.created_at + VOTING_COMMIT_PERIOD
                + VOTING_REVEAL_PERIOD,
        ensures
            Self::reveal_vote_check(s, dispute_id, juror, vote, payload, salt, now) is Ok,
    {
    }

    /// Law (commit-reveal round trip, idempotence direction): once a
    /// juror's commitment is revealed, every further reveal attempt is
    /// rejected, whatever plaintext or time it carries.
    pub proof fn lemma_second_reveal_fails(
        s: Self,
        dispute_id: u64,
        juror: Address,
        vote: DisputeResolution,
        payload: u32,
        salt: Seq<u8>,
        now: u64,
    )
        requires
            s.has_dispute(dispute_id),
            has_key(s.dispute_state(dispute_id).commitments@, juror),
            by_key(s.dispute_state(dispute_id).commitments@, juror).commitment.revealed,
        ensures
            Self::reveal_vote_check(s, dispute_id, juror, vote, payload, salt, now) is Err,
    {
    }
}

} // verus!
