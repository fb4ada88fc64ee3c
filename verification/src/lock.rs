//! A lock whose waiters form a queue that threads its way through them.
//!
//! The state word holds the held flag, the waking flag and the newest waiter.
//! A thread that unlocks takes the waking flag before it touches the queue,
//! removes the oldest waiter, and wakes it; the woken thread tries again.
use vstd::arithmetic::power2::pow2;
use vstd::prelude::*;
use crate::access::{Access, Link, Operation, Order, Place, Reply};
use crate::course::{Keeps, Ledger, always_allowed, is_course, ledger, point};
use crate::debt::{Debt, taken_waker_is_woken};
use crate::exclusion::{Encoding, LockKind, Party, System, holds, wake_of};
use crate::kernel::cpu::{Hints, hints_are_powers, spec_hints};
use crate::memory::{Shared, alone};
use crate::owners::{LockOwners, QueueOwners};
use crate::patience::{Crowd, Patience};
use crate::queue::{Queued, Queueing, Stage, history, leads_to};
use crate::spin_wait::SpinWait;
use crate::tail::{Search, link};
use crate::tenure::{Tenure, look_finds_the_holder};
use crate::try_lock::{IsLocked, TryLock, try_lock_is_lawful};
use crate::upkeep::{Upkeep, wakes};
use crate::visibility::{
    keeps_the_lock_visible, keeps_the_queue_visible, keeps_the_wake_visible,
    keeps_the_waker_visible,
};
use crate::wait::{Signs, Wait};
use crate::words::{
    LOCKED, NOT_SECOND, UNLOCKED, clear_second, has_second, is_locked, lemma_clear_second,
    lemma_flag_masks, lemma_masks, lemma_tagged_word, newest, set_locked, set_second, with_newest,
};

verus! {

/// The waiter has no waker: it may look at the lock again.
pub const EMPTY: usize = 0;

/// The waker of the waiter is ready to be taken.
pub const STORED: usize = 1;

/// The waiter is replacing its waker.
pub const UPDATING: usize = 2;

/// An unlocking thread is taking the waker.
pub const CONSUMING: usize = 3;

/// A value, and the word that the lock's state starts from. The state itself is
/// the word of the shared memory that the operations work on.
#[derive(Debug)]
pub struct Lock<T> {
    state: usize,
    value: T,
}

impl<T> Lock<T> {
    pub closed spec fn state(self) -> usize {
        self.state
    }

    pub closed spec fn value(self) -> T {
        self.value
    }

    pub fn new(value: T) -> (lock: Self)
        ensures
            lock.state() == UNLOCKED,
            lock.value() == value,
    {
        Lock { state: UNLOCKED, value }
    }

    pub fn into_inner(self) -> (value: T)
        ensures
            value == self.value(),
    {
        self.value
    }

    /// Begins to look whether the lock is held.
    pub fn is_locked(&self) -> (look: IsLocked)
        ensures
            look == IsLocked::LoadWord,
            look.wf(),
    {
        IsLocked::start()
    }

    /// Begins to take the lock if it is free.
    pub fn try_lock(&self) -> (attempt: TryLock)
        ensures
            attempt == TryLock::LoadWord,
            attempt.wf(),
            attempt.begins(),
    {
        TryLock::start()
    }

    /// Begins to take the lock, waiting by the given waiter if need be.
    pub fn lock(&self, waiter: usize) -> (future: LockFuture)
        requires
            is_waiter(waiter),
        ensures
            future == (LockFuture { waiter, step: LockStep::Fast }),
            future.wf(),
            future.begins(),
    {
        LockFuture { waiter, step: LockStep::Fast }
    }

    /// Begins to take the lock as a task: the same operation as `lock`, with
    /// its waits left to the executor.
    pub fn lock_async(&self, waiter: usize) -> (future: LockFuture)
        requires
            is_waiter(waiter),
        ensures
            future == (LockFuture { waiter, step: LockStep::Fast }),
            future.wf(),
            future.begins(),
    {
        self.lock(waiter)
    }

    /// Begins to give the lock up.
    pub fn unlock(&self) -> (unlock: Unlock)
        ensures
            unlock == Unlock::Release,
            unlock.wf(),
            unlock.begins(),
    {
        Unlock::Release
    }
}

/// Whether the address can be that of a waiter of this lock.
pub open spec fn is_waiter(node: usize) -> bool {
    node != 0 && node % 4 == 0
}

/// How far an attempt to lock is.
#[derive(Clone, Copy, PartialEq, Eq, Structural, Debug)]
pub enum LockStep {
    /// Takes a lock that is free and has no waiters.
    Fast,
    /// Looks at what became of the waker.
    LoadWake,
    /// Claims the waker in order to replace it.
    BeginUpdate,
    ReplaceWaker,
    /// Hands the replaced waker back.
    EndUpdate,
    LoadWord { spin: SpinWait, has_waker: bool },
    /// Links the waiter in front of the newest one of `state`.
    SetPrev { state: usize, spin: SpinWait, has_waker: bool },
    SetNext { state: usize, spin: SpinWait, has_waker: bool },
    SetTail { state: usize, spin: SpinWait, has_waker: bool },
    SetWaker { state: usize, spin: SpinWait },
    SetStored { state: usize, spin: SpinWait },
    /// Takes the lock, or joins the queue, if the word is still `state`.
    Exchange { state: usize, spin: SpinWait, has_waker: bool },
    Pending,
    Locked,
}

/// An attempt to lock, and the waiter it waits by.
#[derive(Clone, Copy, PartialEq, Eq, Structural, Debug)]
pub struct LockFuture {
    pub waiter: usize,
    pub step: LockStep,
}

/// How many hints are made on account of a state word.
pub open spec fn poll_hints(state: usize, spin: SpinWait) -> nat {
    if is_locked(state) && newest(state) == 0 {
        spin.hints()
    } else {
        0
    }
}

pub open spec fn spec_poll_lock(state: usize, spin: SpinWait, has_waker: bool) -> LockStep {
    if !is_locked(state) {
        LockStep::Exchange { state, spin, has_waker }
    } else if newest(state) == 0 && spin.spec_yields() {
        LockStep::LoadWord { spin: spin.spec_next(), has_waker }
    } else {
        LockStep::SetPrev { state, spin, has_waker }
    }
}

/// What to do about a state word: take the lock if it is free, spin for a
/// while if nobody waits yet, and join the queue otherwise.
pub fn poll_lock(
    state: usize,
    spin: SpinWait,
    has_waker: bool,
    hints: &mut Hints,
) -> (step: LockStep)
    ensures
        step == spec_poll_lock(state, spin, has_waker),
        final(hints).made() == old(hints).made() + poll_hints(state, spin),
{
    let mut spin = spin;
    if !is_locked(state) {
        LockStep::Exchange { state, spin, has_waker }
    } else if newest(state) == 0 && spin.yield_now(hints) {
        LockStep::LoadWord { spin, has_waker }
    } else {
        LockStep::SetPrev { state, spin, has_waker }
    }
}

/// The first look at the state word in a poll.
pub open spec fn fresh() -> LockStep {
    LockStep::LoadWord { spin: SpinWait::new(), has_waker: false }
}

impl Operation for LockFuture {
    open spec fn wf(&self) -> bool {
        &&& is_waiter(self.waiter)
        &&& match self.step {
            LockStep::SetPrev { state, .. }
            | LockStep::SetNext { state, .. }
            | LockStep::SetTail { state, .. }
            | LockStep::SetWaker { state, .. }
            | LockStep::SetStored { state, .. } => is_locked(state),
            _ => true,
        }
    }

    open spec fn wants(&self) -> Access {
        let node = self.waiter;
        match self.step {
            LockStep::Fast => Access::CompareExchangeWeak(
                Place::Word,
                UNLOCKED,
                LOCKED,
                Order::Acquire,
                Order::Relaxed,
            ),
            LockStep::LoadWake => Access::Load(Place::Wake(node), Order::Relaxed),
            LockStep::BeginUpdate => Access::CompareExchange(
                Place::Wake(node),
                STORED,
                UPDATING,
                Order::Acquire,
                Order::Relaxed,
            ),
            LockStep::ReplaceWaker => Access::StoreWaker(node),
            LockStep::EndUpdate => Access::CompareExchange(
                Place::Wake(node),
                UPDATING,
                STORED,
                Order::Release,
                Order::Relaxed,
            ),
            LockStep::LoadWord { .. } => Access::Load(Place::Word, Order::Relaxed),
            LockStep::SetPrev { .. } => Access::Store(
                Place::Link(node, Link::Prev),
                0,
                Order::Relaxed,
            ),
            LockStep::SetNext { state, .. } => Access::Store(
                Place::Link(node, Link::Next),
                newest(state),
                Order::Relaxed,
            ),
            LockStep::SetTail { state, .. } => Access::Store(
                Place::Link(node, Link::Tail),
                if newest(state) == 0 {
                    node
                } else {
                    0
                },
                Order::Relaxed,
            ),
            LockStep::SetWaker { .. } => Access::StoreWaker(node),
            LockStep::SetStored { .. } => Access::Store(Place::Wake(node), STORED, Order::Release),
            LockStep::Exchange { state, .. } => Access::CompareExchangeWeak(
                Place::Word,
                state,
                if is_locked(state) {
                    with_newest(state, node)
                } else {
                    set_locked(state)
                },
                Order::AcqRel,
                Order::Relaxed,
            ),
            LockStep::Pending => Access::Park,
            LockStep::Locked => Access::Done,
        }
    }

    /// Nobody but this thread claims the waker to replace it, and nobody takes
    /// a waker that is being replaced.
    open spec fn expects(&self, reply: Reply) -> bool {
        match self.step {
            LockStep::LoadWake => reply.value % 4 != UPDATING,
            LockStep::BeginUpdate => reply.ok || reply.value % 4 == EMPTY || reply.value % 4
                == CONSUMING,
            LockStep::EndUpdate => reply.ok || reply.value % 4 == EMPTY,
            LockStep::Locked => false,
            _ => true,
        }
    }

    open spec fn after(&self, reply: Reply) -> Self {
        let step = match self.step {
            LockStep::Fast => if reply.ok {
                LockStep::Locked
            } else {
                LockStep::LoadWake
            },
            LockStep::LoadWake => if reply.value % 4 == EMPTY {
                fresh()
            } else if reply.value % 4 == STORED {
                LockStep::BeginUpdate
            } else {
                LockStep::Pending
            },
            LockStep::BeginUpdate => if reply.ok {
                LockStep::ReplaceWaker
            } else if reply.value % 4 == EMPTY {
                fresh()
            } else {
                LockStep::Pending
            },
            LockStep::ReplaceWaker => LockStep::EndUpdate,
            LockStep::EndUpdate => if reply.ok {
                LockStep::Pending
            } else {
                fresh()
            },
            LockStep::LoadWord { spin, has_waker } => spec_poll_lock(reply.value, spin, has_waker),
            LockStep::SetPrev { state, spin, has_waker } => LockStep::SetNext {
                state,
                spin,
                has_waker,
            },
            LockStep::SetNext { state, spin, has_waker } => LockStep::SetTail {
                state,
                spin,
                has_waker,
            },
            LockStep::SetTail { state, spin, has_waker } => if has_waker {
                LockStep::Exchange { state, spin, has_waker }
            } else {
                LockStep::SetWaker { state, spin }
            },
            LockStep::SetWaker { state, spin } => LockStep::SetStored { state, spin },
            LockStep::SetStored { state, spin } => LockStep::Exchange {
                state,
                spin,
                has_waker: true,
            },
            LockStep::Exchange { state, spin, has_waker } => if !reply.ok {
                spec_poll_lock(reply.value, spin, has_waker)
            } else if is_locked(state) {
                LockStep::Pending
            } else {
                LockStep::Locked
            },
            LockStep::Pending => LockStep::LoadWake,
            LockStep::Locked => LockStep::Locked,
        };
        LockFuture { waiter: self.waiter, step }
    }

    open spec fn hints(&self, reply: Reply) -> nat {
        match self.step {
            LockStep::LoadWord { spin, .. } => poll_hints(reply.value, spin),
            LockStep::Exchange { spin, .. } if !reply.ok => poll_hints(reply.value, spin),
            _ => 0,
        }
    }

    fn accepts(&self, reply: Reply) -> (accepted: bool) {
        match self.step {
            LockStep::LoadWake => reply.value % 4 != UPDATING,
            LockStep::BeginUpdate => reply.ok || reply.value % 4 == EMPTY || reply.value % 4
                == CONSUMING,
            LockStep::EndUpdate => reply.ok || reply.value % 4 == EMPTY,
            LockStep::Locked => false,
            _ => true,
        }
    }

    fn access(&self) -> (access: Access) {
        let node: usize = self.waiter;
        match self.step {
            LockStep::Fast => Access::CompareExchangeWeak(
                Place::Word,
                UNLOCKED,
                LOCKED,
                Order::Acquire,
                Order::Relaxed,
            ),
            LockStep::LoadWake => Access::Load(Place::Wake(node), Order::Relaxed),
            LockStep::BeginUpdate => Access::CompareExchange(
                Place::Wake(node),
                STORED,
                UPDATING,
                Order::Acquire,
                Order::Relaxed,
            ),
            LockStep::ReplaceWaker => Access::StoreWaker(node),
            LockStep::EndUpdate => Access::CompareExchange(
                Place::Wake(node),
                UPDATING,
                STORED,
                Order::Release,
                Order::Relaxed,
            ),
            LockStep::LoadWord { .. } => Access::Load(Place::Word, Order::Relaxed),
            LockStep::SetPrev { .. } => Access::Store(
                Place::Link(node, Link::Prev),
                0,
                Order::Relaxed,
            ),
            LockStep::SetNext { state, .. } => Access::Store(
                Place::Link(node, Link::Next),
                newest(state),
                Order::Relaxed,
            ),
            LockStep::SetTail { state, .. } => Access::Store(
                Place::Link(node, Link::Tail),
                if newest(state) == 0 {
                    node
                } else {
                    0
                },
                Order::Relaxed,
            ),
            LockStep::SetWaker { .. } => Access::StoreWaker(node),
            LockStep::SetStored { .. } => Access::Store(Place::Wake(node), STORED, Order::Release),
            LockStep::Exchange { state, .. } => Access::CompareExchangeWeak(
                Place::Word,
                state,
                if is_locked(state) {
                    with_newest(state, node)
                } else {
                    set_locked(state)
                },
                Order::AcqRel,
                Order::Relaxed,
            ),
            LockStep::Pending => Access::Park,
            LockStep::Locked => Access::Done,
        }
    }

    fn resume(&mut self, reply: Reply, hints: &mut Hints) {
        let fresh: LockStep = LockStep::LoadWord { spin: SpinWait::new(), has_waker: false };
        let wake: usize = reply.value % 4;
        self.step =
        match self.step {
            LockStep::Fast => if reply.ok {
                LockStep::Locked
            } else {
                LockStep::LoadWake
            },
            LockStep::LoadWake => if wake == EMPTY {
                fresh
            } else if wake == STORED {
                LockStep::BeginUpdate
            } else {
                LockStep::Pending
            },
            LockStep::BeginUpdate => if reply.ok {
                LockStep::ReplaceWaker
            } else if wake == EMPTY {
                fresh
            } else {
                LockStep::Pending
            },
            LockStep::ReplaceWaker => LockStep::EndUpdate,
            LockStep::EndUpdate => if reply.ok {
                LockStep::Pending
            } else {
                fresh
            },
            LockStep::LoadWord { spin, has_waker } => poll_lock(reply.value, spin, has_waker, hints),
            LockStep::SetPrev { state, spin, has_waker } => LockStep::SetNext {
                state,
                spin,
                has_waker,
            },
            LockStep::SetNext { state, spin, has_waker } => LockStep::SetTail {
                state,
                spin,
                has_waker,
            },
            LockStep::SetTail { state, spin, has_waker } => if has_waker {
                LockStep::Exchange { state, spin, has_waker }
            } else {
                LockStep::SetWaker { state, spin }
            },
            LockStep::SetWaker { state, spin } => LockStep::SetStored { state, spin },
            LockStep::SetStored { state, spin } => LockStep::Exchange {
                state,
                spin,
                has_waker: true,
            },
            LockStep::Exchange { state, spin, has_waker } => if !reply.ok {
                poll_lock(reply.value, spin, has_waker, hints)
            } else if is_locked(state) {
                LockStep::Pending
            } else {
                LockStep::Locked
            },
            LockStep::Pending => LockStep::LoadWake,
            LockStep::Locked => LockStep::Locked,
        };
    }
}

impl Party for LockFuture {
    open spec fn begins(&self) -> bool {
        self.step is Fast
    }

    open spec fn holds(&self, memory: Shared) -> bool {
        self.step is Locked
    }

    open spec fn waiter(&self) -> usize {
        self.waiter
    }

    open spec fn admits(&self, memory: Shared, reply: Reply) -> bool {
        true
    }
}

/// How far an unlock is.
#[derive(Clone, Copy, PartialEq, Eq, Structural, Debug)]
pub enum Unlock {
    /// Clears the held flag.
    Release,
    LoadWord,
    /// Takes the waking flag if the word is still `state`.
    TakeWaking { state: usize },
    /// Looks for the oldest waiter.
    Find { state: usize, search: Search },
    /// Leaves the queue to the thread that took the lock meanwhile.
    GiveUp { state: usize },
    LoadPrev { state: usize, tail: usize },
    /// Makes the next oldest waiter the oldest one.
    SetTail { state: usize, tail: usize, prev: usize },
    ClearWaking { tail: usize },
    /// Empties the queue of its only waiter.
    Empty { state: usize, tail: usize },
    LoadWake { tail: usize },
    /// Claims the waker in order to take it.
    Consume { tail: usize },
    /// Tells a waiter that is replacing its waker to try again.
    Interrupt { tail: usize },
    Take { tail: usize },
    SetEmpty { tail: usize },
    Wake,
    Released,
}

pub open spec fn spec_unlock_slow(state: usize) -> Unlock {
    if newest(state) == 0 || is_locked(state) || has_second(state) {
        Unlock::Released
    } else {
        Unlock::TakeWaking { state }
    }
}

/// What to do about a state word: wake somebody only if somebody waits, the
/// lock is still free, and no other thread is waking.
#[verifier::when_used_as_spec(spec_unlock_slow)]
pub fn unlock_slow(state: usize) -> (next: Unlock)
    ensures
        next == spec_unlock_slow(state),
{
    if newest(state) == 0 || is_locked(state) || has_second(state) {
        Unlock::Released
    } else {
        Unlock::TakeWaking { state }
    }
}

pub open spec fn spec_find(state: usize) -> Unlock {
    Unlock::Find { state, search: Search::start(newest(state), false) }
}

/// Looks for the oldest waiter of a state word.
#[verifier::when_used_as_spec(spec_find)]
pub fn find(state: usize) -> (next: Unlock)
    requires
        newest(state) != 0,
    ensures
        next == spec_find(state),
{
    Unlock::Find { state, search: Search::start(newest(state), false) }
}

pub open spec fn spec_found(state: usize, tail: usize) -> Unlock {
    if is_locked(state) {
        Unlock::GiveUp { state }
    } else {
        Unlock::LoadPrev { state, tail }
    }
}

/// Goes on once the oldest waiter is found.
#[verifier::when_used_as_spec(spec_found)]
pub fn found(state: usize, tail: usize) -> (next: Unlock)
    ensures
        next == spec_found(state, tail),
{
    if is_locked(state) {
        Unlock::GiveUp { state }
    } else {
        Unlock::LoadPrev { state, tail }
    }
}

pub open spec fn spec_wake(tail: usize, seen: usize) -> Unlock {
    if seen % 4 == STORED {
        Unlock::Consume { tail }
    } else {
        Unlock::Interrupt { tail }
    }
}

/// How to wake a waiter that was removed from the queue.
#[verifier::when_used_as_spec(spec_wake)]
pub fn wake(tail: usize, seen: usize) -> (next: Unlock)
    requires
        seen % 4 == STORED || seen % 4 == UPDATING,
    ensures
        next == spec_wake(tail, seen),
{
    if seen % 4 == STORED {
        Unlock::Consume { tail }
    } else {
        Unlock::Interrupt { tail }
    }
}

impl Operation for Unlock {
    open spec fn wf(&self) -> bool {
        match *self {
            Unlock::TakeWaking { state } => !is_locked(state) && newest(state) != 0,
            Unlock::Find { state, search } => {
                &&& search.wf()
                &&& search.found() is None
                &&& search.head == newest(state)
            },
            Unlock::GiveUp { state } => newest(state) != 0 && is_locked(state),
            Unlock::LoadPrev { state, tail } => newest(state) != 0 && !is_locked(state) && tail
                != 0,
            Unlock::SetTail { state, tail, prev } => newest(state) != 0 && tail != 0 && prev != 0,
            Unlock::Empty { state, tail } => newest(state) != 0 && !is_locked(state) && tail != 0,
            _ => true,
        }
    }

    open spec fn wants(&self) -> Access {
        match *self {
            Unlock::Release => Access::FetchSub(Place::Word, LOCKED, Order::Release),
            Unlock::LoadWord => Access::Load(Place::Word, Order::Relaxed),
            Unlock::TakeWaking { state } => Access::CompareExchangeWeak(
                Place::Word,
                state,
                set_second(state),
                Order::Acquire,
                Order::Relaxed,
            ),
            Unlock::Find { search, .. } => search.wants(),
            Unlock::GiveUp { state } => Access::CompareExchangeWeak(
                Place::Word,
                state,
                clear_second(state),
                Order::AcqRel,
                Order::Acquire,
            ),
            Unlock::LoadPrev { tail, .. } => Access::Load(
                Place::Link(tail, Link::Prev),
                Order::Relaxed,
            ),
            Unlock::SetTail { state, prev, .. } => Access::Store(
                Place::Link(newest(state), Link::Tail),
                prev,
                Order::Relaxed,
            ),
            Unlock::ClearWaking { .. } => Access::FetchAnd(
                Place::Word,
                NOT_SECOND,
                Order::Release,
            ),
            Unlock::Empty { state, .. } => Access::CompareExchangeWeak(
                Place::Word,
                state,
                UNLOCKED,
                Order::AcqRel,
                Order::Acquire,
            ),
            Unlock::LoadWake { tail } => Access::Load(Place::Wake(tail), Order::Relaxed),
            Unlock::Consume { tail } => Access::CompareExchangeWeak(
                Place::Wake(tail),
                STORED,
                CONSUMING,
                Order::Acquire,
                Order::Relaxed,
            ),
            Unlock::Interrupt { tail } => Access::CompareExchangeWeak(
                Place::Wake(tail),
                UPDATING,
                EMPTY,
                Order::Relaxed,
                Order::Relaxed,
            ),
            Unlock::Take { tail } => Access::TakeWaker(tail),
            Unlock::SetEmpty { tail } => Access::Store(Place::Wake(tail), EMPTY, Order::Release),
            Unlock::Wake => Access::Wake,
            Unlock::Released => Access::Done,
        }
    }

    /// Waiters do not leave the queue by themselves, and a waiter that is
    /// removed from it has a waker that nobody else takes.
    open spec fn expects(&self, reply: Reply) -> bool {
        match *self {
            Unlock::Find { search, .. } => search.expects(reply),
            Unlock::GiveUp { .. } | Unlock::Empty { .. } => reply.ok || newest(reply.value) != 0,
            Unlock::LoadWake { .. } => reply.value % 4 == STORED || reply.value % 4 == UPDATING,
            Unlock::Consume { .. } | Unlock::Interrupt { .. } => reply.ok || reply.value % 4
                == STORED || reply.value % 4 == UPDATING,
            Unlock::Take { .. } => reply.ok,
            Unlock::Released => false,
            _ => true,
        }
    }

    open spec fn after(&self, reply: Reply) -> Self {
        match *self {
            Unlock::Release => if reply.value == LOCKED {
                Unlock::Released
            } else {
                Unlock::LoadWord
            },
            Unlock::LoadWord => unlock_slow(reply.value),
            Unlock::TakeWaking { state } => if reply.ok {
                find(set_second(state))
            } else {
                unlock_slow(reply.value)
            },
            Unlock::Find { state, search } => {
                let next = search.after(reply);
                match next.found() {
                    Some(tail) => found(state, tail),
                    None => Unlock::Find { state, search: next },
                }
            },
            Unlock::GiveUp { .. } => if reply.ok {
                Unlock::Released
            } else {
                find(reply.value)
            },
            Unlock::LoadPrev { state, tail } => if reply.value == 0 {
                Unlock::Empty { state, tail }
            } else {
                Unlock::SetTail { state, tail, prev: reply.value }
            },
            Unlock::SetTail { tail, .. } => Unlock::ClearWaking { tail },
            Unlock::ClearWaking { tail } => Unlock::LoadWake { tail },
            Unlock::Empty { tail, .. } => if reply.ok {
                Unlock::LoadWake { tail }
            } else {
                find(reply.value)
            },
            Unlock::LoadWake { tail } => wake(tail, reply.value),
            Unlock::Consume { tail } => if reply.ok {
                Unlock::Take { tail }
            } else {
                wake(tail, reply.value)
            },
            Unlock::Interrupt { tail } => if reply.ok {
                Unlock::Released
            } else {
                wake(tail, reply.value)
            },
            Unlock::Take { tail } => Unlock::SetEmpty { tail },
            Unlock::SetEmpty { .. } => Unlock::Wake,
            Unlock::Wake => Unlock::Released,
            Unlock::Released => Unlock::Released,
        }
    }

    fn accepts(&self, reply: Reply) -> (accepted: bool) {
        match *self {
            Unlock::Find { search, .. } => search.accepts(reply),
            Unlock::GiveUp { .. } | Unlock::Empty { .. } => reply.ok || newest(reply.value) != 0,
            Unlock::LoadWake { .. } => reply.value % 4 == STORED || reply.value % 4 == UPDATING,
            Unlock::Consume { .. } | Unlock::Interrupt { .. } => reply.ok || reply.value % 4
                == STORED || reply.value % 4 == UPDATING,
            Unlock::Take { .. } => reply.ok,
            Unlock::Released => false,
            _ => true,
        }
    }

    fn access(&self) -> (access: Access) {
        match *self {
            Unlock::Release => Access::FetchSub(Place::Word, LOCKED, Order::Release),
            Unlock::LoadWord => Access::Load(Place::Word, Order::Relaxed),
            Unlock::TakeWaking { state } => Access::CompareExchangeWeak(
                Place::Word,
                state,
                set_second(state),
                Order::Acquire,
                Order::Relaxed,
            ),
            Unlock::Find { search, .. } => search.access(),
            Unlock::GiveUp { state } => Access::CompareExchangeWeak(
                Place::Word,
                state,
                clear_second(state),
                Order::AcqRel,
                Order::Acquire,
            ),
            Unlock::LoadPrev { tail, .. } => Access::Load(
                Place::Link(tail, Link::Prev),
                Order::Relaxed,
            ),
            Unlock::SetTail { state, prev, .. } => Access::Store(
                Place::Link(newest(state), Link::Tail),
                prev,
                Order::Relaxed,
            ),
            Unlock::ClearWaking { .. } => Access::FetchAnd(
                Place::Word,
                NOT_SECOND,
                Order::Release,
            ),
            Unlock::Empty { state, .. } => Access::CompareExchangeWeak(
                Place::Word,
                state,
                UNLOCKED,
                Order::AcqRel,
                Order::Acquire,
            ),
            Unlock::LoadWake { tail } => Access::Load(Place::Wake(tail), Order::Relaxed),
            Unlock::Consume { tail } => Access::CompareExchangeWeak(
                Place::Wake(tail),
                STORED,
                CONSUMING,
                Order::Acquire,
                Order::Relaxed,
            ),
            Unlock::Interrupt { tail } => Access::CompareExchangeWeak(
                Place::Wake(tail),
                UPDATING,
                EMPTY,
                Order::Relaxed,
                Order::Relaxed,
            ),
            Unlock::Take { tail } => Access::TakeWaker(tail),
            Unlock::SetEmpty { tail } => Access::Store(Place::Wake(tail), EMPTY, Order::Release),
            Unlock::Wake => Access::Wake,
            Unlock::Released => Access::Done,
        }
    }

    fn resume(&mut self, reply: Reply, _hints: &mut Hints) {
        *self =
        match *self {
            Unlock::Release => if reply.value == LOCKED {
                Unlock::Released
            } else {
                Unlock::LoadWord
            },
            Unlock::LoadWord => unlock_slow(reply.value),
            Unlock::TakeWaking { state } => if reply.ok {
                find(set_second(state))
            } else {
                unlock_slow(reply.value)
            },
            Unlock::Find { state, search } => {
                let mut next = search;
                next.resume(reply, &mut Hints::new());
                match next.found() {
                    Some(tail) => found(state, tail),
                    None => Unlock::Find { state, search: next },
                }
            },
            Unlock::GiveUp { .. } => if reply.ok {
                Unlock::Released
            } else {
                find(reply.value)
            },
            Unlock::LoadPrev { state, tail } => if reply.value == 0 {
                Unlock::Empty { state, tail }
            } else {
                Unlock::SetTail { state, tail, prev: reply.value }
            },
            Unlock::SetTail { tail, .. } => Unlock::ClearWaking { tail },
            Unlock::ClearWaking { tail } => Unlock::LoadWake { tail },
            Unlock::Empty { tail, .. } => if reply.ok {
                Unlock::LoadWake { tail }
            } else {
                find(reply.value)
            },
            Unlock::LoadWake { tail } => wake(tail, reply.value),
            Unlock::Consume { tail } => if reply.ok {
                Unlock::Take { tail }
            } else {
                wake(tail, reply.value)
            },
            Unlock::Interrupt { tail } => if reply.ok {
                Unlock::Released
            } else {
                wake(tail, reply.value)
            },
            Unlock::Take { tail } => Unlock::SetEmpty { tail },
            Unlock::SetEmpty { .. } => Unlock::Wake,
            Unlock::Wake => Unlock::Released,
            Unlock::Released => Unlock::Released,
        };
    }
}

impl Party for Unlock {
    open spec fn begins(&self) -> bool {
        self is Release
    }

    open spec fn holds(&self, memory: Shared) -> bool {
        self is Release
    }

    open spec fn waiter(&self) -> usize {
        0
    }

    open spec fn admits(&self, memory: Shared, reply: Reply) -> bool {
        true
    }
}

/// Taking a free lock that nobody waits for and giving it up again, with nothing
/// in between, succeeds at once and leaves everything as it was.
pub proof fn undisturbed_round_trip(lock: LockFuture, unlock: Unlock, memory: Shared)
    requires
        lock.begins(),
        unlock.begins(),
        memory.word == UNLOCKED,
    ensures
        alone(lock, memory, 1) == (LockFuture { step: LockStep::Locked, ..lock }, Shared { word: LOCKED, ..memory }),
        alone(unlock, Shared { word: LOCKED, ..memory }, 1) == (Unlock::Released, memory),
{
    reveal_with_fuel(alone, 2);
}

/// The lock of this module, as [`crate::exclusion`], [`crate::queue`] and
/// [`crate::upkeep`] speak of it. Their laws hold of it, among them
/// [`crate::exclusion::mutual_exclusion`],
/// [`crate::queue::every_reply_is_expected`],
/// [`crate::queue::nobody_is_forgotten`] and
/// [`crate::upkeep::free_lock_is_not_left_alone`].
pub struct Kind;

impl Encoding for Kind {
    open spec fn is_held(word: usize) -> bool {
        is_locked(word)
    }

    /// A woken waiter has to take the lock by itself.
    open spec fn grants(wake: usize) -> bool {
        false
    }
}

impl LockKind for Kind {
    type Try = TryLock;

    type Lock = LockFuture;

    type Unlock = Unlock;

    proof fn try_frame(party: TryLock, memory: Shared, next: Shared) {
        assert(party.waiter() == 0 && party.holds(memory) == party.holds(next));
    }

    proof fn lock_frame(party: LockFuture, memory: Shared, next: Shared) {
        assert(party.waiter() != 0 && party.holds(memory) == party.holds(next));
    }

    proof fn unlock_frame(party: Unlock, memory: Shared, next: Shared) {
        assert(party.waiter() == 0 && party.holds(memory) == party.holds(next));
    }

    proof fn lock_given_up(party: LockFuture, other: LockFuture, memory: Shared) {
        assert(!party.gives_up(other));
    }

    proof fn try_step(party: TryLock, memory: Shared, reply: Reply, next: Shared) {
        try_lock_is_lawful::<Self>(party, memory, reply, next);
    }

    proof fn lock_step(party: LockFuture, memory: Shared, reply: Reply, next: Shared) {
    }

    #[verifier::spinoff_prover]
    #[verifier::rlimit(50)]
    proof fn unlock_step(party: Unlock, memory: Shared, reply: Reply, next: Shared) {
        lemma_clear_second(memory.word);
    }
}

/// A waiter that can be woken: its waker is ready, or being replaced.
pub open spec fn is_ready(memory: Shared, node: usize) -> bool {
    &&& node != 0
    &&& wake_of(memory, node) == STORED && (memory.wakers)(node) || wake_of(memory, node)
        == UPDATING
}

/// Whether an attempt to lock waits by its waiter.
pub open spec fn waits(lock: LockFuture) -> bool {
    match lock.step {
        LockStep::Pending
        | LockStep::LoadWake
        | LockStep::BeginUpdate
        | LockStep::ReplaceWaker
        | LockStep::EndUpdate => true,
        _ => false,
    }
}

/// What an attempt to lock knows about its waiter.
pub open spec fn lock_knows(lock: LockFuture, memory: Shared) -> bool {
    let node = lock.waiter;
    let wake = wake_of(memory, node);
    let stored = wake == STORED && (memory.wakers)(node);
    match lock.step {
        LockStep::Fast => wake == EMPTY,
        LockStep::Pending | LockStep::LoadWake | LockStep::BeginUpdate => wake <= CONSUMING && wake
            != UPDATING,
        LockStep::ReplaceWaker => wake == UPDATING || wake == EMPTY,
        LockStep::EndUpdate => wake == UPDATING && (memory.wakers)(node) || wake == EMPTY,
        LockStep::LoadWord { has_waker, .. } => has_waker ==> stored,
        LockStep::SetPrev { has_waker, .. } => has_waker ==> stored,
        LockStep::SetNext { has_waker, .. } => {
            &&& has_waker ==> stored
            &&& link(memory, node, Link::Prev) == 0
        },
        LockStep::SetTail { state, has_waker, .. } => {
            &&& has_waker ==> stored
            &&& link(memory, node, Link::Prev) == 0
            &&& link(memory, node, Link::Next) == newest(state)
        },
        LockStep::SetWaker { state, .. } => leads_to(memory, node, newest(state)),
        LockStep::SetStored { state, .. } => leads_to(memory, node, newest(state)) && (
        memory.wakers)(node),
        LockStep::Exchange { state, has_waker, .. } => {
            &&& has_waker ==> stored
            &&& is_locked(state) ==> leads_to(memory, node, newest(state)) && has_waker
        },
        LockStep::Locked => true,
    }
}

/// The part that an unlock has in the queue.
pub open spec fn stage(unlock: Unlock) -> Stage {
    match unlock {
        Unlock::Find { state, search } => Stage::Find { head: newest(state), search },
        Unlock::GiveUp { state } => Stage::Settled { head: newest(state) },
        Unlock::LoadPrev { state, tail } => Stage::Found { head: newest(state), tail },
        Unlock::SetTail { state, tail, prev } => Stage::Cut { head: newest(state), tail, prev },
        Unlock::Empty { state, tail } => Stage::Last { head: newest(state), tail },
        Unlock::ClearWaking { .. } => Stage::Leaving,
        _ => Stage::Idle,
    }
}

/// The waiter that an unlock has taken off the queue and not woken yet, or 0.
pub open spec fn grip(unlock: Unlock) -> usize {
    match unlock {
        Unlock::ClearWaking { tail }
        | Unlock::LoadWake { tail }
        | Unlock::Consume { tail }
        | Unlock::Interrupt { tail }
        | Unlock::Take { tail }
        | Unlock::SetEmpty { tail } => tail,
        _ => 0,
    }
}

/// What an unlock knows about that waiter, and about the word it looked at.
pub open spec fn unlock_knows(unlock: Unlock, memory: Shared) -> bool {
    match unlock {
        Unlock::TakeWaking { state } => !has_second(state),
        Unlock::Find { state, .. } | Unlock::GiveUp { state } | Unlock::LoadPrev {
            state,
            ..
        } | Unlock::Empty { state, .. } => has_second(state),
        Unlock::ClearWaking { tail }
        | Unlock::LoadWake { tail }
        | Unlock::Consume { tail }
        | Unlock::Interrupt { tail } => is_ready(memory, tail),
        Unlock::Take { tail } => tail != 0 && wake_of(memory, tail) == CONSUMING && (
        memory.wakers)(tail),
        Unlock::SetEmpty { tail } => tail != 0 && wake_of(memory, tail) == CONSUMING,
        _ => true,
    }
}

impl Queued for Kind {
    open spec fn newest(word: usize) -> usize {
        newest(word)
    }

    open spec fn is_node(node: usize) -> bool {
        is_waiter(node)
    }

    open spec fn flagged() -> bool {
        true
    }

    open spec fn flag(word: usize) -> bool {
        has_second(word)
    }

    open spec fn is_tidy(word: usize) -> bool {
        true
    }

    open spec fn ready(memory: Shared, node: usize) -> bool {
        is_ready(memory, node)
    }

    open spec fn woken(memory: Shared, node: usize) -> bool {
        wake_of(memory, node) == EMPTY
    }

    open spec fn fresh(memory: Shared, node: usize) -> bool {
        wake_of(memory, node) == EMPTY
    }

    open spec fn waits(lock: LockFuture) -> bool {
        waits(lock)
    }

    open spec fn joins(lock: LockFuture, reply: Reply) -> bool {
        lock.step matches LockStep::Exchange { state, .. } && reply.ok && is_locked(state)
    }

    open spec fn lock_knows(lock: LockFuture, memory: Shared) -> bool {
        lock_knows(lock, memory)
    }

    open spec fn carries(lock: LockFuture, memory: Shared) -> bool {
        false
    }

    open spec fn stage(unlock: Unlock) -> Stage {
        stage(unlock)
    }

    open spec fn reads_prev(unlock: Unlock) -> bool {
        unlock is LoadPrev
    }

    open spec fn grip(unlock: Unlock) -> usize {
        grip(unlock)
    }

    open spec fn passes(unlock: Unlock) -> bool {
        false
    }

    open spec fn unlock_knows(unlock: Unlock, memory: Shared) -> bool {
        unlock_knows(unlock, memory)
    }

    open spec fn lock_admits(lock: LockFuture, memory: Shared, reply: Reply) -> bool {
        true
    }

    open spec fn unlock_admits(unlock: Unlock, memory: Shared, reply: Reply) -> bool {
        true
    }
}

/// The state word with another newest waiter, and with its flags changed.
proof fn words_of(word: usize, node: usize)
    requires
        node % 4 == 0,
    ensures
        newest(with_newest(word, node)) == node,
        has_second(with_newest(word, node)) == has_second(word),
        is_locked(with_newest(word, node)) == is_locked(word),
        newest(set_locked(word)) == newest(word),
        has_second(set_locked(word)) == has_second(word),
        is_locked(word) ==> newest(word.wrapping_sub(LOCKED)) == newest(word) && has_second(
            word.wrapping_sub(LOCKED),
        ) == has_second(word),
        newest(set_second(word)) == newest(word),
        has_second(set_second(word)),
        word & NOT_SECOND == clear_second(word),
        newest(clear_second(word)) == newest(word),
        !has_second(clear_second(word)),
{
    lemma_tagged_word(word, node);
}

impl Queueing for Kind {
    proof fn of_nodes(memory: Shared, node: usize) {
        assert(newest(UNLOCKED) == 0);
    }

    proof fn node_frame(memory: Shared, next: Shared, node: usize) {
        assert(is_ready(memory, node) == is_ready(next, node));
    }

    proof fn lock_knows_frame(lock: LockFuture, memory: Shared, next: Shared) {
        assert(lock.waiter() == lock.waiter);
        assert(waits(lock) || !waits(lock));
        assert(lock_knows(lock, memory) ==> lock_knows(lock, next));
    }

    proof fn unlock_knows_frame(unlock: Unlock, memory: Shared, next: Shared) {
        assert(grip(unlock) == 0 || grip(unlock) != 0);
        assert(unlock_knows(unlock, memory) ==> unlock_knows(unlock, next));
    }

    proof fn try_obeys(attempt: TryLock, memory: Shared, reply: Reply, next: Shared) {
        words_of(memory.word, 0);
    }

    #[verifier::rlimit(50)]
    proof fn lock_obeys(lock: LockFuture, memory: Shared, reply: Reply, next: Shared) {
        words_of(memory.word, lock.waiter);
        assert(lock.waiter() == lock.waiter);
        assert(is_ready(memory, lock.waiter) || !is_ready(memory, lock.waiter));
    }

    #[verifier::rlimit(50)]
    proof fn lock_obeys_grip(
        lock: LockFuture,
        unlock: Unlock,
        memory: Shared,
        reply: Reply,
        next: Shared,
    ) {
        assert(lock.waiter() == lock.waiter);
        assert(grip(unlock) == lock.waiter);
    }

    #[verifier::rlimit(50)]
    proof fn unlock_obeys(unlock: Unlock, memory: Shared, reply: Reply, next: Shared) {
        words_of(memory.word, 0);
        assert(stage(unlock) is Idle || !(stage(unlock) is Idle));
    }

    #[verifier::rlimit(50)]
    proof fn unlock_obeys_lock(
        unlock: Unlock,
        lock: LockFuture,
        memory: Shared,
        reply: Reply,
        next: Shared,
    ) {
        assert(lock.waiter() == lock.waiter);
        assert(grip(unlock) == lock.waiter);
    }
}

impl Upkeep for Kind {
    open spec fn tends(unlock: Unlock) -> bool {
        !(unlock is Release || unlock is Wake || unlock is Released)
    }

    proof fn lock_is_up(lock: LockFuture, memory: Shared) {
        assert(lock.waiter() == lock.waiter);
    }

    proof fn unlock_is_up(unlock: Unlock) {
        assert(stage(unlock) is Idle || !(stage(unlock) is Idle));
    }

    proof fn try_tends(attempt: TryLock, memory: Shared, reply: Reply, next: Shared) {
        words_of(memory.word, 0);
    }

    #[verifier::rlimit(50)]
    proof fn lock_tends(lock: LockFuture, memory: Shared, reply: Reply, next: Shared) {
        assert(lock.waiter() == lock.waiter);
        words_of(memory.word, lock.waiter);
    }

    #[verifier::rlimit(50)]
    proof fn unlock_tends(unlock: Unlock, memory: Shared, reply: Reply, next: Shared) {
        words_of(memory.word, 0);
        assert(wakes::<Self>(unlock, reply) || !wakes::<Self>(unlock, reply));
    }

    proof fn lock_inherits(
        unlock: Unlock,
        lock: LockFuture,
        memory: Shared,
        reply: Reply,
        next: Shared,
    ) {
        assert(lock.waiter() == lock.waiter);
        assert(grip(unlock) == lock.waiter);
    }
}

impl Tenure for Kind {
    proof fn lock_is_handed(lock: LockFuture, memory: Shared) {
        assert(lock.waiter() == lock.waiter);
    }

    proof fn try_keeps(attempt: TryLock, memory: Shared, reply: Reply, next: Shared) {
        words_of(memory.word, 0);
    }

    proof fn lock_keeps(lock: LockFuture, memory: Shared, reply: Reply, next: Shared) {
        assert(lock.waiter() == lock.waiter);
        words_of(memory.word, lock.waiter);
    }

    proof fn unlock_keeps(unlock: Unlock, memory: Shared, reply: Reply, next: Shared) {
        words_of(memory.word, 0);
        assert(stage(unlock) is Idle || !(stage(unlock) is Idle));
    }
}

/// At every point of every history, [`Lock::is_locked`]
/// answers `true` exactly when some thread holds the lock, which is when
/// [`Lock::try_lock`] would fail, whoever waits; and it changes nothing.
pub proof fn is_locked_finds_the_holder(
    systems: Seq<System<Kind>>,
    who: Seq<int>,
    replies: Seq<Reply>,
    i: int,
)
    requires
        history(systems, who, replies),
        0 <= i < systems.len(),
    ensures
        ({
            let memory = systems[i].memory;
            let held = exists|t: int| holds(#[trigger] (systems[i].threads)(t), memory);
            &&& alone(IsLocked::LoadWord, memory, 1) == (IsLocked::Done { held }, memory)
            &&& held <==> alone(TryLock::LoadWord, memory, 2).0 is Failed
        }),
{
    assert forall|word: usize| #[trigger] Kind::is_held(word) == is_locked(word) by {
    }
    look_finds_the_holder(systems, who, replies, i);
}

impl LockOwners for Kind {
    open spec fn is_set(memory: Shared, node: usize) -> bool {
        wake_of(memory, node) == STORED && (memory.wakers)(node)
    }

    open spec fn is_live(memory: Shared, node: usize) -> bool {
        let wake = wake_of(memory, node);
        (wake == STORED || wake == CONSUMING) && (memory.wakers)(node)
    }

    open spec fn pends(lock: LockFuture) -> bool {
        lock.step is Pending
    }

    open spec fn trusts(lock: LockFuture) -> bool {
        match lock.step {
            LockStep::EndUpdate | LockStep::SetStored { .. } => true,
            LockStep::LoadWord { has_waker, .. }
            | LockStep::SetPrev { has_waker, .. }
            | LockStep::SetNext { has_waker, .. }
            | LockStep::SetTail { has_waker, .. }
            | LockStep::Exchange { has_waker, .. } => has_waker,
            _ => false,
        }
    }

    open spec fn trusts_if_set(lock: LockFuture) -> bool {
        lock.step is Pending
    }

    open spec fn leaves(lock: LockFuture) -> bool {
        lock.step is Pending || lock.step is LoadWake || lock.step is BeginUpdate
    }
}

impl QueueOwners for Kind {
    proof fn of_polls(lock: LockFuture, memory: Shared) {
        assert(lock.waiter() == lock.waiter);
    }

    proof fn waker_frame(memory: Shared, next: Shared, node: usize) {
        assert(Self::is_set(next, node) == Self::is_set(memory, node));
    }

    proof fn lock_sees_to(lock: LockFuture, memory: Shared, reply: Reply, next: Shared) {
        assert(lock.waiter() == lock.waiter);
    }

    proof fn try_stores_none(attempt: TryLock) {
        assert(!(attempt.wants() is StoreWaker));
    }

    proof fn unlock_stores_none(unlock: Unlock) {
        assert(grip(unlock) == 0 || grip(unlock) != 0);
    }

    proof fn unlock_gives_none(unlock: Unlock, memory: Shared, reply: Reply, next: Shared) {
        assert(grip(unlock) == 0 || grip(unlock) != 0);
    }

    proof fn unlock_takes(unlock: Unlock, lock: LockFuture, memory: Shared) {
        assert(lock.waiter() == lock.waiter);
        assert(grip(unlock) == lock.waiter);
    }
}

impl Keeps<Debt> for Unlock {
    open spec fn fits(&self, ledger: Debt) -> bool {
        &&& match *self {
            Unlock::SetEmpty { tail } => ledger.taken == Some(tail),
            Unlock::Wake => ledger.taken is Some && ledger.told == ledger.taken,
            _ => ledger.taken is None,
        }
        &&& !ledger.missed
        &&& !ledger.lends
    }

    proof fn goes_on(operation: Self, ledger: Debt, reply: Reply) {
    }

    proof fn obeys(operation: Self, ledger: Debt) {
    }
}

/// An unlock that took the waker of a waiter wakes it before it is over, once
/// it has stored the wake state. It takes no waker where there is none.
pub proof fn unlock_wakes_whom_it_took(first: Unlock, replies: Seq<Reply>, i: int, j: int)
    requires
        first.wf(),
        first.begins(),
        is_course(first, replies),
        0 <= i < j <= replies.len(),
    ensures
        ledger(first, replies, Debt::none(), j).allows(point(first, replies, j).wants()),
        !ledger(first, replies, Debt::none(), j).missed,
        ({
            &&& point(first, replies, i).wants() is TakeWaker
            &&& replies[i].ok
            &&& point(first, replies, j).wants() is Done
        }) ==> exists|k: int| i < k < j && #[trigger] point(first, replies, k).wants() is Wake,
{
    always_allowed(first, replies, Debt::none(), j);
    if point(first, replies, i).wants() is TakeWaker && replies[i].ok && point(
        first,
        replies,
        j,
    ).wants() is Done {
        taken_waker_is_woken(first, replies, Debt::none(), i, j);
    }
}

impl Signs for Kind {
    open spec fn is_up(wake: usize) -> bool {
        wake % 4 == EMPTY
    }
}

impl Keeps<Wait<Kind>> for LockFuture {
    open spec fn fits(&self, ledger: Wait<Kind>) -> bool {
        &&& ledger.node == self.waiter
        &&& !ledger.drops
        &&& match self.step {
            LockStep::Fast => ledger.is_free() && ledger.word is None,
            LockStep::LoadWake => !ledger.took && !ledger.updating && !ledger.late,
            LockStep::BeginUpdate => {
                &&& !ledger.took
                &&& ledger.queued
                &&& !ledger.updating
                &&& !ledger.late
            },
            LockStep::ReplaceWaker => {
                &&& !ledger.took
                &&& ledger.queued
                &&& ledger.updating
                &&& !ledger.late
            },
            LockStep::EndUpdate => {
                &&& !ledger.took
                &&& ledger.queued
                &&& ledger.updating
                &&& ledger.fresh
                &&& !ledger.late
            },
            LockStep::LoadWord { has_waker, .. } => {
                &&& ledger.is_free()
                &&& has_waker ==> ledger.is_ready()
            },
            LockStep::SetPrev { state, has_waker, .. }
            | LockStep::SetNext { state, has_waker, .. }
            | LockStep::SetTail { state, has_waker, .. } => {
                &&& ledger.is_free()
                &&& ledger.word == Some(state)
                &&& has_waker ==> ledger.is_ready()
            },
            LockStep::SetWaker { state, .. } => ledger.is_free() && ledger.word == Some(state),
            LockStep::SetStored { state, .. } => {
                &&& ledger.is_free()
                &&& ledger.word == Some(state)
                &&& ledger.waker
            },
            LockStep::Exchange { state, has_waker, .. } => {
                &&& ledger.is_free()
                &&& ledger.word == Some(state)
                &&& has_waker || is_locked(state) ==> ledger.is_ready()
            },
            LockStep::Pending => {
                &&& !ledger.took
                &&& ledger.queued
                &&& ledger.is_down()
                &&& !ledger.updating
                &&& !ledger.late
            },
            LockStep::Locked => ledger.took && !ledger.updating && !ledger.late,
        }
    }

    #[verifier::spinoff_prover]
    #[verifier::rlimit(40)]
    proof fn goes_on(operation: Self, ledger: Wait<Kind>, reply: Reply) {
    }

    proof fn obeys(operation: Self, ledger: Wait<Kind>) {
    }
}

/// An attempt is over exactly when it has the lock. It joins the queue ready to
/// be woken, waits only if it saw since it waited last that it was not woken,
/// and is woken by the waker of its last poll.
pub proof fn attempt_waits_until_it_is_woken(first: LockFuture, replies: Seq<Reply>)
    requires
        first.wf(),
        first.begins(),
        is_course(first, replies),
    ensures
        ({
            let start = Wait::begin(Kind, first.waiter, false);
            let now = point(first, replies, replies.len() as int);
            let wait = ledger(first, replies, start, replies.len() as int);
            &&& wait.allows(now.wants())
            &&& now.step is Locked ==> wait.took
        }),
{
    let start = Wait::begin(Kind, first.waiter, false);
    always_allowed(first, replies, start, replies.len() as int);
}

impl Crowd for Kind {
    open spec fn is_quiet(word: usize) -> bool {
        is_locked(word) && newest(word) == 0
    }

    open spec fn deadline(word: usize, node: usize) -> u32 {
        0
    }
}

impl Keeps<Patience<Kind>> for LockFuture {
    open spec fn fits(&self, ledger: Patience<Kind>) -> bool {
        &&& ledger.hinted == 6
        &&& ledger.rounds == 6
        &&& !ledger.forgets
        &&& !ledger.inside
        &&& match self.step {
            LockStep::Fast => !ledger.again && !ledger.pauses && !ledger.seen,
            LockStep::LoadWord { spin, .. } => {
                &&& ledger.spun == spin.0
                &&& spin.0 <= ledger.rounds
                &&& ledger.just ==> ledger.again
                &&& !ledger.pauses
            },
            LockStep::SetPrev { state, spin, .. }
            | LockStep::SetNext { state, spin, .. }
            | LockStep::SetTail { state, spin, .. }
            | LockStep::SetWaker { state, spin }
            | LockStep::SetStored { state, spin }
            | LockStep::Exchange { state, spin, .. } => {
                &&& ledger.seen
                &&& ledger.spun == spin.0
                &&& spin.0 <= ledger.rounds
                &&& !ledger.again
                &&& !ledger.pauses
                &&& Kind::is_quiet(state) ==> ledger.spun >= ledger.rounds
            },
            _ => !ledger.again && !ledger.pauses,
        }
    }

    #[verifier::spinoff_prover]
    #[verifier::rlimit(40)]
    proof fn goes_on(operation: Self, ledger: Patience<Kind>, reply: Reply) {
    }

    proof fn obeys(operation: Self, ledger: Patience<Kind>) {
    }
}

/// An attempt that finds the lock held and the queue empty looks again, six
/// times, and joins the queue only then. Each time it makes twice as many hints to
/// the processor as the last time, and it makes no others. It starts over
/// when it was woken.
pub proof fn attempt_spins_before_it_queues(first: LockFuture, replies: Seq<Reply>, reply: Reply)
    requires
        first.wf(),
        first.begins(),
        is_course(first, replies),
    ensures
        ({
            let start = Patience::begin(Kind, 6, 6, false);
            let now = point(first, replies, replies.len() as int);
            let patience = ledger(first, replies, start, replies.len() as int);
            &&& patience.allows(now.wants())
            &&& now.expects(reply) ==> now.hints(reply) == patience.hints_after(now.wants(), reply)
        }),
{
    let start = Patience::begin(Kind, 6, 6, false);
    always_allowed(first, replies, start, replies.len() as int);
    assert forall|round: u8| spec_hints(round) == pow2(round as nat) by {
        hints_are_powers(round);
    }
}

/// Whoever takes the lock sees what was done under it before, whoever looks
/// through the queue sees the waiters in it, and a waiter that sees that it was
/// woken sees what was done before that.
#[verifier::spinoff_prover]
#[verifier::rlimit(40)]
pub proof fn what_was_done_is_seen(lock: LockFuture, unlock: Unlock)
    requires
        lock.wf(),
        unlock.wf(),
    ensures
        keeps_the_lock_visible(lock.wants()),
        keeps_the_lock_visible(unlock.wants()),
        keeps_the_queue_visible(lock.wants()),
        keeps_the_wake_visible(unlock.wants()),
        keeps_the_waker_visible(lock.wants(), UPDATING, CONSUMING),
        keeps_the_waker_visible(unlock.wants(), UPDATING, CONSUMING),
{
    lemma_masks();
    lemma_flag_masks();
}

} // verus!
