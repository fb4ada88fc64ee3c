//! The attempt to take a lock without waiting, and the look whether it is held.
use vstd::prelude::*;
use crate::access::{Access, Operation, Order, Place, Reply};
use crate::exclusion::{Encoding, Party, lawful, steps};
use crate::kernel::cpu::Hints;
use crate::memory::{Shared, alone, performs};
use crate::visibility::keeps_the_lock_visible;
use crate::words::{is_locked, set_locked};

verus! {

/// An attempt to set the held flag, the lowest bit of the state word. It is
/// repeated only when the word changed under it.
#[derive(Clone, Copy, PartialEq, Eq, Structural, Debug)]
pub enum TryLock {
    LoadWord,
    Exchange { state: usize },
    Locked,
    Failed,
}

pub open spec fn spec_attempt(state: usize) -> TryLock {
    if is_locked(state) {
        TryLock::Failed
    } else {
        TryLock::Exchange { state }
    }
}

/// What to do about a state word: give up if it says that the lock is held.
#[verifier::when_used_as_spec(spec_attempt)]
pub fn attempt(state: usize) -> (next: TryLock)
    ensures
        next == spec_attempt(state),
{
    if is_locked(state) {
        TryLock::Failed
    } else {
        TryLock::Exchange { state }
    }
}

impl TryLock {
    /// Begins an attempt.
    pub fn start() -> (this: Self)
        ensures
            this == TryLock::LoadWord,
            this.begins(),
    {
        TryLock::LoadWord
    }
}

impl Operation for TryLock {
    open spec fn wf(&self) -> bool {
        *self matches TryLock::Exchange { state } ==> !is_locked(state)
    }

    open spec fn wants(&self) -> Access {
        match *self {
            TryLock::LoadWord => Access::Load(Place::Word, Order::Relaxed),
            TryLock::Exchange { state } => Access::CompareExchangeWeak(
                Place::Word,
                state,
                set_locked(state),
                Order::Acquire,
                Order::Relaxed,
            ),
            TryLock::Locked | TryLock::Failed => Access::Done,
        }
    }

    open spec fn expects(&self, reply: Reply) -> bool {
        !(self is Locked) && !(self is Failed)
    }

    open spec fn after(&self, reply: Reply) -> Self {
        match *self {
            TryLock::LoadWord => attempt(reply.value),
            TryLock::Exchange { .. } => if reply.ok {
                TryLock::Locked
            } else {
                attempt(reply.value)
            },
            done => done,
        }
    }

    fn accepts(&self, reply: Reply) -> (accepted: bool) {
        !matches!(*self, TryLock::Locked | TryLock::Failed)
    }

    fn access(&self) -> (access: Access) {
        match *self {
            TryLock::LoadWord => Access::Load(Place::Word, Order::Relaxed),
            TryLock::Exchange { state } => Access::CompareExchangeWeak(
                Place::Word,
                state,
                set_locked(state),
                Order::Acquire,
                Order::Relaxed,
            ),
            TryLock::Locked | TryLock::Failed => Access::Done,
        }
    }

    fn resume(&mut self, reply: Reply, _hints: &mut Hints) {
        *self =
        match *self {
            TryLock::LoadWord => attempt(reply.value),
            TryLock::Exchange { .. } => if reply.ok {
                TryLock::Locked
            } else {
                attempt(reply.value)
            },
            done => done,
        };
    }
}

impl Party for TryLock {
    open spec fn begins(&self) -> bool {
        self is LoadWord
    }

    open spec fn holds(&self, memory: Shared) -> bool {
        self is Locked
    }

    open spec fn waiter(&self) -> usize {
        0
    }

    open spec fn admits(&self, memory: Shared, reply: Reply) -> bool {
        true
    }
}

/// A step of an attempt is lawful for every lock whose held flag is the lowest
/// bit of its state word.
pub proof fn try_lock_is_lawful<K: Encoding>(
    party: TryLock,
    memory: Shared,
    reply: Reply,
    next: Shared,
)
    requires
        forall|word: usize| #[trigger] K::is_held(word) == is_locked(word),
        steps(party, memory, reply, next),
    ensures
        lawful::<K, TryLock>(party, memory, party.after(reply), next),
{
}

/// An attempt that nothing disturbs succeeds exactly when the lock is free,
/// and then changes nothing but the held flag.
pub proof fn undisturbed_try_lock(memory: Shared)
    ensures
        is_locked(memory.word) ==> alone(TryLock::LoadWord, memory, 1) == (TryLock::Failed, memory),
        !is_locked(memory.word) ==> alone(TryLock::LoadWord, memory, 2) == (
            TryLock::Locked,
            Shared { word: set_locked(memory.word), ..memory },
        ),
{
    reveal_with_fuel(alone, 3);
}

/// A look at the held flag, which touches nothing.
#[derive(Clone, Copy, PartialEq, Eq, Structural, Debug)]
pub enum IsLocked {
    LoadWord,
    Done { held: bool },
}

impl IsLocked {
    /// Begins a look.
    pub fn start() -> (this: Self)
        ensures
            this == IsLocked::LoadWord,
            this.wf(),
    {
        IsLocked::LoadWord
    }
}

impl Operation for IsLocked {
    open spec fn wf(&self) -> bool {
        true
    }

    open spec fn wants(&self) -> Access {
        match *self {
            IsLocked::LoadWord => Access::Load(Place::Word, Order::Relaxed),
            IsLocked::Done { .. } => Access::Done,
        }
    }

    open spec fn expects(&self, reply: Reply) -> bool {
        self is LoadWord
    }

    open spec fn after(&self, reply: Reply) -> Self {
        match *self {
            IsLocked::LoadWord => IsLocked::Done { held: is_locked(reply.value) },
            done => done,
        }
    }

    fn accepts(&self, reply: Reply) -> (accepted: bool) {
        matches!(*self, IsLocked::LoadWord)
    }

    fn access(&self) -> (access: Access) {
        match *self {
            IsLocked::LoadWord => Access::Load(Place::Word, Order::Relaxed),
            IsLocked::Done { .. } => Access::Done,
        }
    }

    fn resume(&mut self, reply: Reply, _hints: &mut Hints) {
        *self =
        match *self {
            IsLocked::LoadWord => IsLocked::Done { held: is_locked(reply.value) },
            done => done,
        };
    }
}

/// A look tells the held flag of the word that it reads, whoever waits, and
/// leaves everything as it was.
pub proof fn look_tells_the_flag(memory: Shared, reply: Reply, next: Shared)
    requires
        performs(memory, IsLocked::LoadWord.wants(), reply, next),
    ensures
        IsLocked::LoadWord.after(reply) == (IsLocked::Done { held: is_locked(memory.word) }),
        next == memory,
{
}

/// A look finds the lock held exactly when an attempt to take it, made then
/// with nothing to disturb it, would fail.
pub proof fn look_foretells_the_attempt(memory: Shared)
    ensures
        alone(IsLocked::LoadWord, memory, 1) == (
            IsLocked::Done { held: is_locked(memory.word) },
            memory,
        ),
        is_locked(memory.word) <==> alone(TryLock::LoadWord, memory, 2).0 is Failed,
        !is_locked(memory.word) <==> alone(TryLock::LoadWord, memory, 2).0 is Locked,
{
    reveal_with_fuel(alone, 3);
}

/// Whoever takes the lock sees what was done under it before.
pub proof fn what_was_done_is_seen(attempt: TryLock)
    requires
        attempt.wf(),
    ensures
        keeps_the_lock_visible(attempt.wants()),
{
}

} // verus!
