//! Emergency pause and the time-locked upgrade workflow.
//!
//! Pausing is instantaneous; resuming is rejected until a fixed delay has
//! elapsed since the pause.  An upgrade is first scheduled, may execute
//! only while paused and after its time lock, and can be cancelled.

use vstd::prelude::*;

use crate::constants::RESUME_TIME_DELAY;
use crate::constants::UPGRADE_TIME_LOCK_SECS;
use crate::errors::Error;
use crate::state::copy_vec;
use crate::state::EscrowContract;
use crate::types::Address;
use crate::types::PauseState;
use crate::types::PendingUpgrade;

verus! {

impl EscrowContract {
    /// The stored admin exists and matches the caller.
    pub open spec fn admin_check(s: Self, admin: Address) -> Result<(), Error> {
        if s.admin is None {
            Err(Error::NotInitialized)
        } else if s.admin != Some(admin) {
            Err(Error::Unauthorized)
        } else {
            Ok(())
        }
    }

    /// Outcome `pause` owes for the given state and input.
    pub open spec fn pause_check(s: Self, admin: Address, now: u64) -> Result<(), Error> {
        if s.admin is None {
            Err(Error::NotInitialized)
        } else if s.admin != Some(admin) {
            Err(Error::Unauthorized)
        } else if now + RESUME_TIME_DELAY > u64::MAX {
            Err(Error::InvalidInput)
        } else {
            Ok(())
        }
    }

    /// Halts all value-affecting operations instantly (admin only).  The
    /// earliest legal resume is a fixed delay after `now`.
    pub fn pause(&mut self, admin: Address, now: u64) -> (r: Result<(), Error>)
        requires
            old(self).wf(),
        ensures
            final(self).wf(),
            r == Self::pause_check(*old(self), admin, now),
            r is Ok ==> *final(self) == (Self {
                pause: PauseState {
                    paused: true,
                    paused_at: now,
                    resume_not_before: (now + RESUME_TIME_DELAY) as u64,
                },
                ..*old(self)
            }),
            r is Err ==> *final(self) == *old(self),
    {
        match self.admin {
            None => {
                return Err(Error::NotInitialized);
            },
            Some(stored) => {
                if stored != admin {
                    return Err(Error::Unauthorized);
                }
            },
        }
        if now > u64::MAX - RESUME_TIME_DELAY {
            return Err(Error::InvalidInput);
        }
        self.pause = PauseState {
            paused: true,
            paused_at: now,
            resume_not_before: now + RESUME_TIME_DELAY,
        };
        Ok(())
    }

    /// Outcome `resume` owes for the given state and input.
    pub open spec fn resume_check(s: Self, admin: Address, now: u64) -> Result<(), Error> {
        if s.admin is None {
            Err(Error::NotInitialized)
        } else if s.admin != Some(admin) {
            Err(Error::Unauthorized)
        } else if now < s.pause.resume_not_before {
            Err(Error::ResumeTooEarly)
        } else {
            Ok(())
        }
    }

    /// Lifts the pause (admin only); rejected until the fixed delay since
    /// the pause has elapsed.
    pub fn resume(&mut self, admin: Address, now: u64) -> (r: Result<(), Error>)
        requires
            old(self).wf(),
        ensures
            final(self).wf(),
            r == Self::resume_check(*old(self), admin, now),
            r is Ok ==> *final(self) == (Self {
                pause: PauseState { paused: false, ..old(self).pause },
                ..*old(self)
            }),
            r is Err ==> *final(self) == *old(self),
    {
        match self.admin {
            None => {
                return Err(Error::NotInitialized);
            },
            Some(stored) => {
                if stored != admin {
                    return Err(Error::Unauthorized);
                }
            },
        }
        if now < self.pause.resume_not_before {
            return Err(Error::ResumeTooEarly);
        }
        self.pause = PauseState {
            paused: false,
            paused_at: self.pause.paused_at,
            resume_not_before: self.pause.resume_not_before,
        };
        Ok(())
    }

    /// Outcome `schedule_upgrade` owes for the given state and input.
    pub open spec fn schedule_upgrade_check(s: Self, admin: Address, now: u64) -> Result<
        (),
        Error,
    > {
        if s.admin is None {
            Err(Error::NotInitialized)
        } else if s.admin != Some(admin) {
            Err(Error::Unauthorized)
        } else if now + UPGRADE_TIME_LOCK_SECS > u64::MAX {
            Err(Error::InvalidInput)
        } else {
            Ok(())
        }
    }

    /// Schedules a code replacement (admin only), executable only after a
    /// fixed time lock.  A newly scheduled upgrade replaces any pending
    /// one, so at most one is ever outstanding.
    pub fn schedule_upgrade(&mut self, admin: Address, new_wasm_hash: Vec<u8>, now: u64) -> (r:
        Result<(), Error>)
        requires
            old(self).wf(),
        ensures
            final(self).wf(),
            r == Self::schedule_upgrade_check(*old(self), admin, now),
            r is Ok ==> *final(self) == (Self {
                pending_upgrade: Some(
                    PendingUpgrade {
                        wasm_hash: new_wasm_hash,
                        execute_not_before: (now + UPGRADE_TIME_LOCK_SECS) as u64,
                    },
                ),
                ..*old(self)
            }),
            r is Err ==> *final(self) == *old(self),
    {
        match self.admin {
            None => {
                return Err(Error::NotInitialized);
            },
            Some(stored) => {
                if stored != admin {
                    return Err(Error::Unauthorized);
                }
            },
        }
        if now > u64::MAX - UPGRADE_TIME_LOCK_SECS {
            return Err(Error::InvalidInput);
        }
        self.pending_upgrade = Some(
            PendingUpgrade { wasm_hash: new_wasm_hash, execute_not_before: now
                + UPGRADE_TIME_LOCK_SECS },
        );
        Ok(())
    }

    /// Outcome `execute_upgrade` owes for the given state and input.
    pub open spec fn execute_upgrade_check(s: Self, admin: Address, now: u64) -> Result<
        (),
        Error,
    > {
        if s.admin is None {
            Err(Error::NotInitialized)
        } else if s.admin != Some(admin) {
            Err(Error::Unauthorized)
        } else if !s.is_paused() {
            Err(Error::UpgradeRequiresPause)
        } else if s.pending_upgrade is None {
            Err(Error::UpgradeNotScheduled)
        } else if now < s.pending_upgrade->Some_0.execute_not_before {
            Err(Error::UpgradeTooEarly)
        } else {
            Ok(())
        }
    }

    /// Executes the scheduled upgrade (admin only): legal only while
    /// paused and after the time lock, and clears the pending proposal.
    /// The host performs the actual code replacement.
    pub fn execute_upgrade(&mut self, admin: Address, now: u64) -> (r: Result<(), Error>)
        requires
            old(self).wf(),
        ensures
            final(self).wf(),
            r == Self::execute_upgrade_check(*old(self), admin, now),
            r is Ok ==> *final(self) == (Self { pending_upgrade: None, ..*old(self) }),
            r is Err ==> *final(self) == *old(self),
    {
        match self.admin {
            None => {
                return Err(Error::NotInitialized);
            },
            Some(stored) => {
                if stored != admin {
                    return Err(Error::Unauthorized);
                }
            },
        }
        if !self.pause.paused {
            return Err(Error::UpgradeRequiresPause);
        }
        let not_before = match &self.pending_upgrade {
            None => {
                return Err(Error::UpgradeNotScheduled);
            },
            Some(p) => p.execute_not_before,
        };
        if now < not_before {
            return Err(Error::UpgradeTooEarly);
        }
        self.pending_upgrade = None;
        Ok(())
    }

    /// Outcome `cancel_upgrade` owes for the given state and input.
    pub open spec fn cancel_upgrade_check(s: Self, admin: Address) -> Result<(), Error> {
        if s.admin is None {
            Err(Error::NotInitialized)
        } else if s.admin != Some(admin) {
            Err(Error::Unauthorized)
        } else if s.pending_upgrade is None {
            Err(Error::UpgradeNotScheduled)
        } else {
            Ok(())
        }
    }

    /// Cancels the scheduled upgrade (admin only).
    pub fn cancel_upgrade(&mut self, admin: Address) -> (r: Result<(), Error>)
        requires
            old(self).wf(),
        ensures
            final(self).wf(),
            r == Self::cancel_upgrade_check(*old(self), admin),
            r is Ok ==> *final(self) == (Self { pending_upgrade: None, ..*old(self) }),
            r is Err ==> *final(self) == *old(self),
    {
        match self.admin {
            None => {
                return Err(Error::NotInitialized);
            },
            Some(stored) => {
                if stored != admin {
                    return Err(Error::Unauthorized);
                }
            },
        }
        if self.pending_upgrade.is_none() {
            return Err(Error::UpgradeNotScheduled);
        }
        self.pending_upgrade = None;
        Ok(())
    }

    /// Returns a copy of the pending upgrade, if one is scheduled.
    pub fn get_pending_upgrade(&self) -> (r: Option<PendingUpgrade>)
        ensures
            match r {
                Some(p) => self.pending_upgrade matches Some(q) && p.wasm_hash@ == q.wasm_hash@
                    && p.execute_not_before == q.execute_not_before,
                None => self.pending_upgrade is None,
            },
    {
        match &self.pending_upgrade {
            None => None,
            Some(p) => Some(
                PendingUpgrade {
                    wasm_hash: copy_vec(&p.wasm_hash),
                    execute_not_before: p.execute_not_before,
                },
            ),
        }
    }
}

} // verus!
