//! The state of one reader/writer lock, and the moves that change it.

use vstd::prelude::*;
use crate::ecs::access::AccessMode;
use crate::ecs::error::EcsError;

verus! {

/// Who holds a reader/writer lock: a number of readers or one writer, and
/// whether a holder ever gave it up in a panic.
#[derive(Debug, Clone, Copy, PartialEq, Eq, Structural)]
pub struct RwLockState {
    pub readers: usize,
    pub writer: bool,
    pub poisoned: bool,
}

impl RwLockState {
    /// Readers and a writer never hold the lock together.
    pub open spec fn wf(&self) -> bool {
        !(self.writer && self.readers > 0)
    }

    /// The lock that nobody holds or ever poisoned.
    pub open spec fn free() -> RwLockState {
        RwLockState { readers: 0, writer: false, poisoned: false }
    }

    /// Nobody holds the lock.
    pub open spec fn is_idle(&self) -> bool {
        !self.writer && self.readers == 0
    }

    /// One more holder in `mode` can be let in.
    pub open spec fn admits(&self, mode: AccessMode) -> bool {
        &&& !self.poisoned
        &&& !self.writer
        &&& match mode {
            AccessMode::Shared => self.readers < usize::MAX,
            AccessMode::Exclusive => self.readers == 0,
        }
    }

    /// Somebody holds the lock in `mode`.
    pub open spec fn held_in(&self, mode: AccessMode) -> bool {
        match mode {
            AccessMode::Shared => self.readers > 0,
            AccessMode::Exclusive => self.writer,
        }
    }

    /// The state with one more holder in `mode`.
    pub open spec fn acquired(self, mode: AccessMode) -> RwLockState {
        match mode {
            AccessMode::Shared => RwLockState { readers: (self.readers + 1) as usize, ..self },
            AccessMode::Exclusive => RwLockState { writer: true, ..self },
        }
    }

    /// The state with one holder in `mode` fewer; the same state where
    /// there is none.
    pub open spec fn released(self, mode: AccessMode) -> RwLockState {
        if self.held_in(mode) {
            match mode {
                AccessMode::Shared => RwLockState { readers: (self.readers - 1) as usize, ..self },
                AccessMode::Exclusive => RwLockState { writer: false, ..self },
            }
        } else {
            self
        }
    }

    /// A lock that nobody holds.
    pub fn new() -> (s: RwLockState)
        ensures
            s == RwLockState::free(),
    {
        RwLockState { readers: 0, writer: false, poisoned: false }
    }

    /// Lets one holder in, in `mode`, if the state admits it.
    ///
    /// A poisoned lock admits nobody. Otherwise readers are let in beside
    /// readers, a writer only alone.
    pub fn try_acquire(&mut self, mode: AccessMode) -> (r: Result<(), EcsError>)
        ensures
            old(self).admits(mode) ==> r is Ok && *final(self) == old(self).acquired(mode),
            old(self).poisoned ==> r == Err::<(), EcsError>(EcsError::LockPoisoned) && *final(self)
                == *old(self),
            !old(self).poisoned && !old(self).admits(mode) ==> r == Err::<(), EcsError>(
                EcsError::WouldBlock,
            ) && *final(self) == *old(self),
            old(self).wf() ==> final(self).wf(),
    {
        if self.poisoned {
            return Err(EcsError::LockPoisoned);
        }
        if self.writer {
            return Err(EcsError::WouldBlock);
        }
        match mode {
            AccessMode::Shared => {
                if self.readers == usize::MAX {
                    return Err(EcsError::WouldBlock);
                }
                self.readers = self.readers + 1;
            },
            AccessMode::Exclusive => {
                if self.readers > 0 {
                    return Err(EcsError::WouldBlock);
                }
                self.writer = true;
            },
        }
        Ok(())
    }

    /// Lets one holder in `mode` go. Tells whether there was one.
    pub fn release(&mut self, mode: AccessMode) -> (was_held: bool)
        ensures
            was_held == old(self).held_in(mode),
            *final(self) == old(self).released(mode),
            old(self).wf() ==> final(self).wf(),
    {
        match mode {
            AccessMode::Shared => {
                if self.readers > 0 {
                    self.readers = self.readers - 1;
                    true
                } else {
                    false
                }
            },
            AccessMode::Exclusive => {
                if self.writer {
                    self.writer = false;
                    true
                } else {
                    false
                }
            },
        }
    }

    /// Marks the lock as given up in a panic. It admits nobody from now on.
    pub fn poison(&mut self)
        ensures
            *final(self) == (RwLockState { poisoned: true, ..*old(self) }),
    {
        self.poisoned = true;
    }

    /// Whether one more holder in `mode` can be let in.
    pub fn can_admit(&self, mode: AccessMode) -> (b: bool)
        ensures
            b == self.admits(mode),
    {
        !self.poisoned && !self.writer && match mode {
            AccessMode::Shared => self.readers < usize::MAX,
            AccessMode::Exclusive => self.readers == 0,
        }
    }
}

/// A writer shuts everybody else out, and readers shut a writer out: a lock
/// that somebody was just let into admits nobody in `Exclusive` mode, and
/// nobody at all if the newcomer is a writer.
pub proof fn law_lock_excludes(state: RwLockState, mode: AccessMode, other: AccessMode)
    requires
        state.wf(),
        state.admits(mode),
    ensures
        state.acquired(mode).wf(),
        state.acquired(mode).held_in(mode),
        !state.acquired(mode).admits(AccessMode::Exclusive),
        mode == AccessMode::Exclusive ==> !state.acquired(mode).admits(other),
        state.acquired(mode).released(mode) == state,
{
}

/// Readers share: letting a reader in shuts no further reader out, short of
/// the counter's end.
pub proof fn law_lock_readers_share(state: RwLockState)
    requires
        state.admits(AccessMode::Shared),
        state.readers + 1 < usize::MAX,
    ensures
        state.acquired(AccessMode::Shared).admits(AccessMode::Shared),
{
}

} // verus!
