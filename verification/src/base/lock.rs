//! A lock that can be handed to the oldest waiter.
//!
//! The state word holds the held flag and the newest waiter. The thread that
//! holds the lock owns the queue: to unlock, it removes the oldest waiter while
//! the held flag is still set. If that waiter has waited past its deadline, the
//! flag stays set and the waiter wakes up as the holder; otherwise the flag is
//! cleared and the waiter tries again.
use vstd::prelude::*;
use crate::access::{Access, Link, Operation, Order, Place, Reply};
use crate::course::{Keeps, Ledger, always_allowed, is_course, ledger, point};
use crate::debt::{Debt, taken_waker_is_woken};
use crate::exclusion::{Encoding, LockKind, Party, wake_of};
use crate::handover::{self, Handover};
use crate::kernel::cpu::Hints;
use crate::memory::{Shared, alone};
use crate::owners::{LockOwners, QueueOwners};
use crate::patience::{Crowd, Waver};
use crate::queue::{Queued, Queueing, Stage, leads_to};
use crate::tail::{Search, link};
use crate::tenure::Tenure;
use crate::try_lock::{TryLock, try_lock_is_lawful};
use crate::upkeep::{Upkeep, wakes};
use crate::visibility::{
    keeps_the_lock_visible, keeps_the_queue_visible, keeps_the_wake_visible,
    keeps_the_waker_visible,
};
use crate::wait::{Signs, Wait};
use crate::words::{
    LOCKED, NOT_LOCKED, UNLOCKED, above_locked, is_locked, lemma_clear_locked, lemma_flag_masks,
    lemma_masks, set_locked, with_above_locked,
};

verus! {

/// The waker of the waiter is ready to be taken.
pub const WAKER_WAITING: usize = 0;

/// The waiter is replacing its waker.
pub const WAKER_UPDATING: usize = 1;

/// An unlocking thread is taking the waker.
pub const WAKER_CONSUMING: usize = 2;

/// The waiter may look at the lock again.
pub const WAKER_NOTIFIED: usize = 3;

/// The waiter holds the lock.
pub const WAKER_ACQUIRED: usize = 4;

/// A value, and the word that the lock's state starts from. The state itself is
/// the word of the shared memory that the operations work on.
#[derive(Debug)]
pub struct Lock<T> {
    state: usize,
    value: T,
}

/// Whether the address can be that of a waiter of this lock.
pub open spec fn is_waiter(node: usize) -> bool {
    node != 0 && node % 2 == 0
}

impl<T> Lock<T> {
    pub closed spec fn state(self) -> usize {
        self.state
    }

    pub closed spec fn value(self) -> T {
        self.value
    }

    pub fn new(value: T) -> (lock: Self)
        ensures
            lock.state() == UNLOCKED,
            lock.value() == value,
    {
        Lock { state: UNLOCKED, value }
    }

    pub fn into_inner(self) -> (value: T)
        ensures
            value == self.value(),
    {
        self.value
    }

    /// Begins to take the lock if it is free.
    pub fn try_lock(&self) -> (attempt: TryLock)
        ensures
            attempt == TryLock::LoadWord,
            attempt.wf(),
            attempt.begins(),
    {
        TryLock::start()
    }

    /// Begins to take the lock as a task: the same operation as `lock`, with
    /// its waits left to the executor.
    pub fn lock_async(&self, waiter: usize) -> (future: LockFuture)
        requires
            is_waiter(waiter),
        ensures
            future == (LockFuture { waiter, step: LockStep::Fast }),
            future.wf(),
            future.begins(),
    {
        LockFuture { waiter, step: LockStep::Fast }
    }

    /// Begins to take the lock, waiting by the given waiter if need be.
    pub fn lock(&self, waiter: usize) -> (future: LockFuture)
        requires
            is_waiter(waiter),
        ensures
            future == (LockFuture { waiter, step: LockStep::Fast }),
            future.wf(),
            future.begins(),
    {
        LockFuture { waiter, step: LockStep::Fast }
    }

    /// Begins to give the lock up.
    pub fn unlock(&self) -> (unlock: Unlock)
        ensures
            unlock == Unlock::Release,
            unlock.wf(),
            unlock.begins(),
    {
        Unlock::Release
    }
}

/// The number that an address is mixed into.
pub open spec fn spec_mixed(address: usize) -> usize {
    address.wrapping_mul(13) ^ (address >> 15)
}

/// How long a waiter waits before it is handed the lock, in nanoseconds: less
/// than a millisecond, spread by an address.
pub fn fair_timeout(address: usize) -> (nanos: u32)
    ensures
        nanos == (spec_mixed(address) as u32) % 1_000_000,
        nanos < 1_000_000,
{
    let mixed: usize = address.wrapping_mul(13) ^ (address >> 15);
    assert((mixed & 0xffff_ffff) as u32 == mixed as u32) by (bit_vector);
    ((mixed & 0xffff_ffff) as u32) % 1_000_000
}

pub open spec fn spec_deadline(state: usize, node: usize) -> u32 {
    let address = if above_locked(state) == 0 {
        node
    } else {
        above_locked(state)
    };
    ((spec_mixed(address) as u32) % 1_000_000) as u32
}

/// The timeout of a waiter that joins the queue of a state word: spread by the
/// address of the waiter before it, or by its own if there is none.
#[verifier::when_used_as_spec(spec_deadline)]
pub fn deadline(state: usize, node: usize) -> (nanos: u32)
    ensures
        nanos == spec_deadline(state, node),
{
    if above_locked(state) == 0 {
        fair_timeout(node)
    } else {
        fair_timeout(above_locked(state))
    }
}

/// How far an attempt to lock is.
#[derive(Clone, Copy, PartialEq, Eq, Structural, Debug)]
pub enum LockStep {
    /// Takes a lock that is free and has no waiters.
    Fast,
    LoadWord { spin: usize },
    /// Asks whether spinning is worth while.
    Yield { state: usize, spin: usize },
    /// Links the waiter in front of the newest one of `state`.
    SetPrev { state: usize, spin: usize },
    SetNext { state: usize, spin: usize },
    SetTail { state: usize, spin: usize },
    CheckWaker { state: usize, spin: usize },
    SetWaker { state: usize, spin: usize },
    SetWaiting { state: usize, spin: usize },
    CheckDeadline { state: usize, spin: usize },
    SetDeadline { state: usize, spin: usize },
    /// Takes the lock, or joins the queue, if the word is still `state`.
    Exchange { state: usize, spin: usize },
    Pending,
    /// Looks at what became of the waker.
    LoadWake,
    /// Claims the waker in order to replace it.
    BeginUpdate,
    ReplaceWaker,
    /// Hands the replaced waker back.
    EndUpdate,
    Locked,
}

/// An attempt to lock, and the waiter it waits by.
#[derive(Clone, Copy, PartialEq, Eq, Structural, Debug)]
pub struct LockFuture {
    pub waiter: usize,
    pub step: LockStep,
}

pub open spec fn spec_poll_lock(state: usize, spin: usize) -> LockStep {
    if !is_locked(state) {
        LockStep::Exchange { state, spin }
    } else if above_locked(state) == 0 {
        LockStep::Yield { state, spin }
    } else {
        LockStep::SetPrev { state, spin }
    }
}

/// What to do about a state word: take the lock if it is free, think about
/// spinning if nobody waits yet, and join the queue otherwise.
#[verifier::when_used_as_spec(spec_poll_lock)]
pub fn poll_lock(state: usize, spin: usize) -> (step: LockStep)
    ensures
        step == spec_poll_lock(state, spin),
{
    if !is_locked(state) {
        LockStep::Exchange { state, spin }
    } else if above_locked(state) == 0 {
        LockStep::Yield { state, spin }
    } else {
        LockStep::SetPrev { state, spin }
    }
}

pub open spec fn spec_poll_wait(wake: usize) -> LockStep {
    if wake == WAKER_WAITING {
        LockStep::BeginUpdate
    } else if wake == WAKER_CONSUMING {
        LockStep::Pending
    } else if wake == WAKER_NOTIFIED {
        LockStep::LoadWord { spin: 0 }
    } else {
        LockStep::Locked
    }
}

/// How to go on from a wake state.
#[verifier::when_used_as_spec(spec_poll_wait)]
pub fn poll_wait(wake: usize) -> (step: LockStep)
    requires
        wake <= WAKER_ACQUIRED,
        wake != WAKER_UPDATING,
    ensures
        step == spec_poll_wait(wake),
{
    if wake == WAKER_WAITING {
        LockStep::BeginUpdate
    } else if wake == WAKER_CONSUMING {
        LockStep::Pending
    } else if wake == WAKER_NOTIFIED {
        LockStep::LoadWord { spin: 0 }
    } else {
        LockStep::Locked
    }
}

pub open spec fn spec_exchanged(state: usize, node: usize) -> usize {
    if is_locked(state) {
        with_above_locked(state, node)
    } else {
        set_locked(state)
    }
}

/// The state word that an attempt puts in place of `state`: the waiter in
/// front, or the held flag set.
#[verifier::when_used_as_spec(spec_exchanged)]
pub fn exchanged(state: usize, node: usize) -> (word: usize)
    requires
        is_waiter(node),
    ensures
        word == spec_exchanged(state, node),
{
    if is_locked(state) {
        with_above_locked(state, node)
    } else {
        set_locked(state)
    }
}

impl Operation for LockFuture {
    open spec fn wf(&self) -> bool {
        &&& is_waiter(self.waiter)
        &&& match self.step {
            LockStep::Yield { state, .. }
            | LockStep::SetPrev { state, .. }
            | LockStep::SetNext { state, .. }
            | LockStep::SetTail { state, .. }
            | LockStep::CheckWaker { state, .. }
            | LockStep::SetWaker { state, .. }
            | LockStep::SetWaiting { state, .. }
            | LockStep::CheckDeadline { state, .. }
            | LockStep::SetDeadline { state, .. } => is_locked(state),
            _ => true,
        }
    }

    open spec fn wants(&self) -> Access {
        let node: usize = self.waiter;
        match self.step {
            LockStep::Fast => Access::CompareExchangeWeak(
                Place::Word,
                UNLOCKED,
                LOCKED,
                Order::Acquire,
                Order::Relaxed,
            ),
            LockStep::LoadWord { .. } => Access::Load(Place::Word, Order::Relaxed),
            LockStep::Yield { spin, .. } => Access::Yield(spin),
            LockStep::SetPrev { .. } => Access::Store(Place::Link(node, Link::Prev), 0, Order::Relaxed),
            LockStep::SetNext { state, .. } => Access::Store(
                Place::Link(node, Link::Next),
                above_locked(state),
                Order::Relaxed,
            ),
            LockStep::SetTail { state, .. } => Access::Store(
                Place::Link(node, Link::Tail),
                if above_locked(state) == 0 {
                    node
                } else {
                    0
                },
                Order::Relaxed,
            ),
            LockStep::CheckWaker { .. } => Access::HasWaker(node),
            LockStep::SetWaker { .. } => Access::StoreWaker(node),
            LockStep::SetWaiting { .. } => Access::Store(
                Place::Wake(node),
                WAKER_WAITING,
                Order::Relaxed,
            ),
            LockStep::CheckDeadline { .. } => Access::HasDeadline(node),
            LockStep::SetDeadline { state, .. } => Access::SetDeadline(node, deadline(state, node)),
            LockStep::Exchange { state, .. } => Access::CompareExchangeWeak(
                Place::Word,
                state,
                exchanged(state, node),
                Order::AcqRel,
                Order::Relaxed,
            ),
            LockStep::Pending => Access::Park,
            LockStep::LoadWake => Access::Load(Place::Wake(node), Order::Relaxed),
            LockStep::BeginUpdate => Access::CompareExchangeWeak(
                Place::Wake(node),
                WAKER_WAITING,
                WAKER_UPDATING,
                Order::Acquire,
                Order::Relaxed,
            ),
            LockStep::ReplaceWaker => Access::StoreWaker(node),
            LockStep::EndUpdate => Access::CompareExchange(
                Place::Wake(node),
                WAKER_UPDATING,
                WAKER_WAITING,
                Order::Release,
                Order::Relaxed,
            ),
            LockStep::Locked => Access::Done,
        }
    }

    /// Nobody but this thread claims the waker to replace it, and nobody takes
    /// a waker that is being replaced.
    open spec fn expects(&self, reply: Reply) -> bool {
        match self.step {
            LockStep::LoadWake => reply.value <= WAKER_ACQUIRED && reply.value != WAKER_UPDATING,
            LockStep::BeginUpdate => reply.ok || (reply.value <= WAKER_ACQUIRED && reply.value
                != WAKER_UPDATING),
            LockStep::EndUpdate => reply.ok || reply.value == WAKER_NOTIFIED || reply.value
                == WAKER_ACQUIRED,
            LockStep::Locked => false,
            _ => true,
        }
    }

    open spec fn after(&self, reply: Reply) -> Self {
        let step = match self.step {
            LockStep::Fast => if reply.ok {
                LockStep::Locked
            } else {
                LockStep::LoadWord { spin: 0 }
            },
            LockStep::LoadWord { spin } => poll_lock(reply.value, spin),
            LockStep::Yield { state, spin } => if reply.ok {
                LockStep::LoadWord { spin: spin.wrapping_add(1) }
            } else {
                LockStep::SetPrev { state, spin }
            },
            LockStep::SetPrev { state, spin } => LockStep::SetNext { state, spin },
            LockStep::SetNext { state, spin } => LockStep::SetTail { state, spin },
            LockStep::SetTail { state, spin } => LockStep::CheckWaker { state, spin },
            LockStep::CheckWaker { state, spin } => if reply.ok {
                LockStep::CheckDeadline { state, spin }
            } else {
                LockStep::SetWaker { state, spin }
            },
            LockStep::SetWaker { state, spin } => LockStep::SetWaiting { state, spin },
            LockStep::SetWaiting { state, spin } => LockStep::CheckDeadline { state, spin },
            LockStep::CheckDeadline { state, spin } => if reply.ok {
                LockStep::Exchange { state, spin }
            } else {
                LockStep::SetDeadline { state, spin }
            },
            LockStep::SetDeadline { state, spin } => LockStep::Exchange { state, spin },
            LockStep::Exchange { state, spin } => if !reply.ok {
                poll_lock(reply.value, spin)
            } else if is_locked(state) {
                LockStep::Pending
            } else {
                LockStep::Locked
            },
            LockStep::Pending => LockStep::LoadWake,
            LockStep::LoadWake => poll_wait(reply.value),
            LockStep::BeginUpdate => if reply.ok {
                LockStep::ReplaceWaker
            } else {
                poll_wait(reply.value)
            },
            LockStep::ReplaceWaker => LockStep::EndUpdate,
            LockStep::EndUpdate => if reply.ok {
                LockStep::Pending
            } else {
                poll_wait(reply.value)
            },
            LockStep::Locked => LockStep::Locked,
        };
        LockFuture { step, ..*self }
    }

    fn accepts(&self, reply: Reply) -> (accepted: bool) {
        match self.step {
            LockStep::LoadWake => reply.value <= WAKER_ACQUIRED && reply.value != WAKER_UPDATING,
            LockStep::BeginUpdate => reply.ok || (reply.value <= WAKER_ACQUIRED && reply.value
                != WAKER_UPDATING),
            LockStep::EndUpdate => reply.ok || reply.value == WAKER_NOTIFIED || reply.value
                == WAKER_ACQUIRED,
            LockStep::Locked => false,
            _ => true,
        }
    }

    fn access(&self) -> (access: Access) {
        let node: usize = self.waiter;
        match self.step {
            LockStep::Fast => Access::CompareExchangeWeak(
                Place::Word,
                UNLOCKED,
                LOCKED,
                Order::Acquire,
                Order::Relaxed,
            ),
            LockStep::LoadWord { .. } => Access::Load(Place::Word, Order::Relaxed),
            LockStep::Yield { spin, .. } => Access::Yield(spin),
            LockStep::SetPrev { .. } => Access::Store(Place::Link(node, Link::Prev), 0, Order::Relaxed),
            LockStep::SetNext { state, .. } => Access::Store(
                Place::Link(node, Link::Next),
                above_locked(state),
                Order::Relaxed,
            ),
            LockStep::SetTail { state, .. } => Access::Store(
                Place::Link(node, Link::Tail),
                if above_locked(state) == 0 {
                    node
                } else {
                    0
                },
                Order::Relaxed,
            ),
            LockStep::CheckWaker { .. } => Access::HasWaker(node),
            LockStep::SetWaker { .. } => Access::StoreWaker(node),
            LockStep::SetWaiting { .. } => Access::Store(
                Place::Wake(node),
                WAKER_WAITING,
                Order::Relaxed,
            ),
            LockStep::CheckDeadline { .. } => Access::HasDeadline(node),
            LockStep::SetDeadline { state, .. } => Access::SetDeadline(node, deadline(state, node)),
            LockStep::Exchange { state, .. } => Access::CompareExchangeWeak(
                Place::Word,
                state,
                exchanged(state, node),
                Order::AcqRel,
                Order::Relaxed,
            ),
            LockStep::Pending => Access::Park,
            LockStep::LoadWake => Access::Load(Place::Wake(node), Order::Relaxed),
            LockStep::BeginUpdate => Access::CompareExchangeWeak(
                Place::Wake(node),
                WAKER_WAITING,
                WAKER_UPDATING,
                Order::Acquire,
                Order::Relaxed,
            ),
            LockStep::ReplaceWaker => Access::StoreWaker(node),
            LockStep::EndUpdate => Access::CompareExchange(
                Place::Wake(node),
                WAKER_UPDATING,
                WAKER_WAITING,
                Order::Release,
                Order::Relaxed,
            ),
            LockStep::Locked => Access::Done,
        }
    }

    fn resume(&mut self, reply: Reply, _hints: &mut Hints) {
        self.step =
        match self.step {
            LockStep::Fast => if reply.ok {
                LockStep::Locked
            } else {
                LockStep::LoadWord { spin: 0 }
            },
            LockStep::LoadWord { spin } => poll_lock(reply.value, spin),
            LockStep::Yield { state, spin } => if reply.ok {
                LockStep::LoadWord { spin: spin.wrapping_add(1) }
            } else {
                LockStep::SetPrev { state, spin }
            },
            LockStep::SetPrev { state, spin } => LockStep::SetNext { state, spin },
            LockStep::SetNext { state, spin } => LockStep::SetTail { state, spin },
            LockStep::SetTail { state, spin } => LockStep::CheckWaker { state, spin },
            LockStep::CheckWaker { state, spin } => if reply.ok {
                LockStep::CheckDeadline { state, spin }
            } else {
                LockStep::SetWaker { state, spin }
            },
            LockStep::SetWaker { state, spin } => LockStep::SetWaiting { state, spin },
            LockStep::SetWaiting { state, spin } => LockStep::CheckDeadline { state, spin },
            LockStep::CheckDeadline { state, spin } => if reply.ok {
                LockStep::Exchange { state, spin }
            } else {
                LockStep::SetDeadline { state, spin }
            },
            LockStep::SetDeadline { state, spin } => LockStep::Exchange { state, spin },
            LockStep::Exchange { state, spin } => if !reply.ok {
                poll_lock(reply.value, spin)
            } else if is_locked(state) {
                LockStep::Pending
            } else {
                LockStep::Locked
            },
            LockStep::Pending => LockStep::LoadWake,
            LockStep::LoadWake => poll_wait(reply.value),
            LockStep::BeginUpdate => if reply.ok {
                LockStep::ReplaceWaker
            } else {
                poll_wait(reply.value)
            },
            LockStep::ReplaceWaker => LockStep::EndUpdate,
            LockStep::EndUpdate => if reply.ok {
                LockStep::Pending
            } else {
                poll_wait(reply.value)
            },
            LockStep::Locked => LockStep::Locked,
        };
    }
}

impl Party for LockFuture {
    open spec fn begins(&self) -> bool {
        self.step is Fast
    }

    open spec fn holds(&self, memory: Shared) -> bool {
        self.step is Locked || wake_of(memory, self.waiter) == WAKER_ACQUIRED
    }

    open spec fn waiter(&self) -> usize {
        self.waiter
    }

    open spec fn admits(&self, memory: Shared, reply: Reply) -> bool {
        true
    }
}

/// How far an unlock is. `fair` says whether the oldest waiter is handed the
/// lock; while it is looked for, `settled` holds the answer, if there is one.
#[derive(Clone, Copy, PartialEq, Eq, Structural, Debug)]
pub enum Unlock {
    /// Clears the held flag of a lock that has no waiters.
    Release,
    LoadWord,
    /// Looks for the oldest waiter.
    Find { state: usize, settled: Option<bool>, search: Search },
    /// Asks whether the oldest waiter has waited long enough.
    CheckDeadline { state: usize, tail: usize },
    LoadPrev { state: usize, tail: usize, fair: bool },
    /// Makes the next oldest waiter the oldest one.
    SetTail { state: usize, tail: usize, prev: usize, fair: bool },
    ClearLocked { tail: usize },
    /// Empties the queue of its only waiter.
    Empty { state: usize, tail: usize, fair: bool },
    LoadWake { tail: usize, fair: bool },
    /// Claims the waker in order to take it.
    Consume { tail: usize, fair: bool },
    /// Notifies a waiter that is replacing its waker.
    Interrupt { tail: usize, fair: bool },
    Take { tail: usize, fair: bool },
    SetWake { tail: usize, fair: bool },
    Wake,
    Released,
}

pub open spec fn spec_find(state: usize, settled: Option<bool>) -> Unlock {
    Unlock::Find { state, settled, search: Search::start(above_locked(state), true) }
}

/// Looks for the oldest waiter of a state word.
#[verifier::when_used_as_spec(spec_find)]
pub fn find(state: usize, settled: Option<bool>) -> (next: Unlock)
    requires
        above_locked(state) != 0,
    ensures
        next == spec_find(state, settled),
{
    Unlock::Find { state, settled, search: Search::start(above_locked(state), true) }
}

pub open spec fn spec_found(state: usize, tail: usize, settled: Option<bool>) -> Unlock {
    match settled {
        Some(fair) => Unlock::LoadPrev { state, tail, fair },
        None => Unlock::CheckDeadline { state, tail },
    }
}

/// Goes on once the oldest waiter is found. Whether to be fair is settled by the
/// first one that is found.
#[verifier::when_used_as_spec(spec_found)]
pub fn found(state: usize, tail: usize, settled: Option<bool>) -> (next: Unlock)
    ensures
        next == spec_found(state, tail, settled),
{
    match settled {
        Some(fair) => Unlock::LoadPrev { state, tail, fair },
        None => Unlock::CheckDeadline { state, tail },
    }
}

pub open spec fn spec_wake(tail: usize, fair: bool, seen: usize) -> Unlock {
    if seen == WAKER_WAITING {
        Unlock::Consume { tail, fair }
    } else {
        Unlock::Interrupt { tail, fair }
    }
}

/// How to wake a waiter that was removed from the queue.
#[verifier::when_used_as_spec(spec_wake)]
pub fn wake(tail: usize, fair: bool, seen: usize) -> (next: Unlock)
    requires
        seen == WAKER_WAITING || seen == WAKER_UPDATING,
    ensures
        next == spec_wake(tail, fair, seen),
{
    if seen == WAKER_WAITING {
        Unlock::Consume { tail, fair }
    } else {
        Unlock::Interrupt { tail, fair }
    }
}

pub open spec fn spec_wake_state(fair: bool) -> usize {
    if fair {
        WAKER_ACQUIRED
    } else {
        WAKER_NOTIFIED
    }
}

/// The wake state of a woken waiter.
#[verifier::when_used_as_spec(spec_wake_state)]
pub fn wake_state(fair: bool) -> (state: usize)
    ensures
        state == spec_wake_state(fair),
{
    if fair {
        WAKER_ACQUIRED
    } else {
        WAKER_NOTIFIED
    }
}

impl Operation for Unlock {
    open spec fn wf(&self) -> bool {
        match *self {
            Unlock::Find { state, search, .. } => {
                &&& search.wf()
                &&& search.found() is None
                &&& search.head == above_locked(state)
            },
            _ => true,
        }
    }

    open spec fn wants(&self) -> Access {
        match *self {
            Unlock::Release => Access::CompareExchange(
                Place::Word,
                LOCKED,
                UNLOCKED,
                Order::Release,
                Order::Relaxed,
            ),
            Unlock::LoadWord => Access::Load(Place::Word, Order::Acquire),
            Unlock::Find { search, .. } => search.wants(),
            Unlock::CheckDeadline { tail, .. } => Access::Expired(tail),
            Unlock::LoadPrev { tail, .. } => Access::Load(
                Place::Link(tail, Link::Prev),
                Order::Relaxed,
            ),
            Unlock::SetTail { state, prev, .. } => Access::Store(
                Place::Link(above_locked(state), Link::Tail),
                prev,
                Order::Relaxed,
            ),
            Unlock::ClearLocked { .. } => Access::FetchAnd(Place::Word, NOT_LOCKED, Order::Release),
            Unlock::Empty { state, fair, .. } => Access::CompareExchangeWeak(
                Place::Word,
                state,
                if fair {
                    LOCKED
                } else {
                    UNLOCKED
                },
                Order::AcqRel,
                Order::Acquire,
            ),
            Unlock::LoadWake { tail, .. } => Access::Load(Place::Wake(tail), Order::Relaxed),
            Unlock::Consume { tail, .. } => Access::CompareExchangeWeak(
                Place::Wake(tail),
                WAKER_WAITING,
                WAKER_CONSUMING,
                Order::Acquire,
                Order::Relaxed,
            ),
            Unlock::Interrupt { tail, fair } => Access::CompareExchangeWeak(
                Place::Wake(tail),
                WAKER_UPDATING,
                wake_state(fair),
                Order::Relaxed,
                Order::Relaxed,
            ),
            Unlock::Take { tail, .. } => Access::TakeWaker(tail),
            Unlock::SetWake { tail, fair } => Access::Store(
                Place::Wake(tail),
                wake_state(fair),
                Order::Release,
            ),
            Unlock::Wake => Access::Wake,
            Unlock::Released => Access::Done,
        }
    }

    /// The lock has waiters whenever its state word is anything but the held
    /// flag, and a waiter that is removed from the queue has a waker that
    /// nobody else takes.
    open spec fn expects(&self, reply: Reply) -> bool {
        match *self {
            Unlock::LoadWord => above_locked(reply.value) != 0,
            Unlock::Find { search, .. } => search.expects(reply),
            Unlock::Empty { .. } => reply.ok || above_locked(reply.value) != 0,
            Unlock::LoadWake { .. } => reply.value == WAKER_WAITING || reply.value == WAKER_UPDATING,
            Unlock::Consume { .. } | Unlock::Interrupt { .. } => reply.ok || reply.value
                == WAKER_WAITING || reply.value == WAKER_UPDATING,
            Unlock::Take { .. } => reply.ok,
            Unlock::Released => false,
            _ => true,
        }
    }

    open spec fn after(&self, reply: Reply) -> Self {
        match *self {
            Unlock::Release => if reply.ok {
                Unlock::Released
            } else {
                Unlock::LoadWord
            },
            Unlock::LoadWord => find(reply.value, None),
            Unlock::Find { state, settled, search } => {
                let next = search.after(reply);
                match next.found() {
                    Some(tail) => found(state, tail, settled),
                    None => Unlock::Find { state, settled, search: next },
                }
            },
            Unlock::CheckDeadline { state, tail } => Unlock::LoadPrev { state, tail, fair: reply.ok },
            Unlock::LoadPrev { state, tail, fair } => if reply.value == 0 {
                Unlock::Empty { state, tail, fair }
            } else {
                Unlock::SetTail { state, tail, prev: reply.value, fair }
            },
            Unlock::SetTail { tail, fair, .. } => if fair {
                Unlock::LoadWake { tail, fair }
            } else {
                Unlock::ClearLocked { tail }
            },
            Unlock::ClearLocked { tail } => Unlock::LoadWake { tail, fair: false },
            Unlock::Empty { tail, fair, .. } => if reply.ok {
                Unlock::LoadWake { tail, fair }
            } else {
                find(reply.value, Some(fair))
            },
            Unlock::LoadWake { tail, fair } => wake(tail, fair, reply.value),
            Unlock::Consume { tail, fair } => if reply.ok {
                Unlock::Take { tail, fair }
            } else {
                wake(tail, fair, reply.value)
            },
            Unlock::Interrupt { tail, fair } => if reply.ok {
                Unlock::Released
            } else {
                wake(tail, fair, reply.value)
            },
            Unlock::Take { tail, fair } => Unlock::SetWake { tail, fair },
            Unlock::SetWake { .. } => Unlock::Wake,
            Unlock::Wake => Unlock::Released,
            Unlock::Released => Unlock::Released,
        }
    }

    fn accepts(&self, reply: Reply) -> (accepted: bool) {
        match *self {
            Unlock::LoadWord => above_locked(reply.value) != 0,
            Unlock::Find { search, .. } => search.accepts(reply),
            Unlock::Empty { .. } => reply.ok || above_locked(reply.value) != 0,
            Unlock::LoadWake { .. } => reply.value == WAKER_WAITING || reply.value == WAKER_UPDATING,
            Unlock::Consume { .. } | Unlock::Interrupt { .. } => reply.ok || reply.value
                == WAKER_WAITING || reply.value == WAKER_UPDATING,
            Unlock::Take { .. } => reply.ok,
            Unlock::Released => false,
            _ => true,
        }
    }

    fn access(&self) -> (access: Access) {
        match *self {
            Unlock::Release => Access::CompareExchange(
                Place::Word,
                LOCKED,
                UNLOCKED,
                Order::Release,
                Order::Relaxed,
            ),
            Unlock::LoadWord => Access::Load(Place::Word, Order::Acquire),
            Unlock::Find { search, .. } => search.access(),
            Unlock::CheckDeadline { tail, .. } => Access::Expired(tail),
            Unlock::LoadPrev { tail, .. } => Access::Load(
                Place::Link(tail, Link::Prev),
                Order::Relaxed,
            ),
            Unlock::SetTail { state, prev, .. } => Access::Store(
                Place::Link(above_locked(state), Link::Tail),
                prev,
                Order::Relaxed,
            ),
            Unlock::ClearLocked { .. } => Access::FetchAnd(Place::Word, NOT_LOCKED, Order::Release),
            Unlock::Empty { state, fair, .. } => Access::CompareExchangeWeak(
                Place::Word,
                state,
                if fair {
                    LOCKED
                } else {
                    UNLOCKED
                },
                Order::AcqRel,
                Order::Acquire,
            ),
            Unlock::LoadWake { tail, .. } => Access::Load(Place::Wake(tail), Order::Relaxed),
            Unlock::Consume { tail, .. } => Access::CompareExchangeWeak(
                Place::Wake(tail),
                WAKER_WAITING,
                WAKER_CONSUMING,
                Order::Acquire,
                Order::Relaxed,
            ),
            Unlock::Interrupt { tail, fair } => Access::CompareExchangeWeak(
                Place::Wake(tail),
                WAKER_UPDATING,
                wake_state(fair),
                Order::Relaxed,
                Order::Relaxed,
            ),
            Unlock::Take { tail, .. } => Access::TakeWaker(tail),
            Unlock::SetWake { tail, fair } => Access::Store(
                Place::Wake(tail),
                wake_state(fair),
                Order::Release,
            ),
            Unlock::Wake => Access::Wake,
            Unlock::Released => Access::Done,
        }
    }

    fn resume(&mut self, reply: Reply, _hints: &mut Hints) {
        *self =
        match *self {
            Unlock::Release => if reply.ok {
                Unlock::Released
            } else {
                Unlock::LoadWord
            },
            Unlock::LoadWord => find(reply.value, None),
            Unlock::Find { state, settled, search } => {
                let next = search.resumed(reply);
                match next.found() {
                    Some(tail) => found(state, tail, settled),
                    None => Unlock::Find { state, settled, search: next },
                }
            },
            Unlock::CheckDeadline { state, tail } => Unlock::LoadPrev { state, tail, fair: reply.ok },
            Unlock::LoadPrev { state, tail, fair } => if reply.value == 0 {
                Unlock::Empty { state, tail, fair }
            } else {
                Unlock::SetTail { state, tail, prev: reply.value, fair }
            },
            Unlock::SetTail { tail, fair, .. } => if fair {
                Unlock::LoadWake { tail, fair }
            } else {
                Unlock::ClearLocked { tail }
            },
            Unlock::ClearLocked { tail } => Unlock::LoadWake { tail, fair: false },
            Unlock::Empty { tail, fair, .. } => if reply.ok {
                Unlock::LoadWake { tail, fair }
            } else {
                find(reply.value, Some(fair))
            },
            Unlock::LoadWake { tail, fair } => wake(tail, fair, reply.value),
            Unlock::Consume { tail, fair } => if reply.ok {
                Unlock::Take { tail, fair }
            } else {
                wake(tail, fair, reply.value)
            },
            Unlock::Interrupt { tail, fair } => if reply.ok {
                Unlock::Released
            } else {
                wake(tail, fair, reply.value)
            },
            Unlock::Take { tail, fair } => Unlock::SetWake { tail, fair },
            Unlock::SetWake { .. } => Unlock::Wake,
            Unlock::Wake => Unlock::Released,
            Unlock::Released => Unlock::Released,
        };
    }
}

impl Party for Unlock {
    open spec fn begins(&self) -> bool {
        self is Release
    }

    open spec fn holds(&self, memory: Shared) -> bool {
        match *self {
            Unlock::Release
            | Unlock::LoadWord
            | Unlock::Find { .. }
            | Unlock::CheckDeadline { .. }
            | Unlock::LoadPrev { .. }
            | Unlock::SetTail { .. }
            | Unlock::ClearLocked { .. }
            | Unlock::Empty { .. } => true,
            Unlock::LoadWake { fair, .. }
            | Unlock::Consume { fair, .. }
            | Unlock::Interrupt { fair, .. }
            | Unlock::Take { fair, .. }
            | Unlock::SetWake { fair, .. } => fair,
            _ => false,
        }
    }

    open spec fn waiter(&self) -> usize {
        0
    }

    open spec fn admits(&self, memory: Shared, reply: Reply) -> bool {
        true
    }
}

/// Taking a free lock that nobody waits for and giving it up again, with nothing
/// in between, succeeds at once and leaves everything as it was.
pub proof fn undisturbed_round_trip(lock: LockFuture, unlock: Unlock, memory: Shared)
    requires
        lock.begins(),
        unlock.begins(),
        memory.word == UNLOCKED,
    ensures
        alone(lock, memory, 1) == (LockFuture { step: LockStep::Locked, ..lock }, Shared { word: LOCKED, ..memory }),
        alone(unlock, Shared { word: LOCKED, ..memory }, 1) == (Unlock::Released, memory),
{
    reveal_with_fuel(alone, 2);
}

/// The lock of this module, as [`crate::exclusion`], [`crate::queue`] and
/// [`crate::upkeep`] speak of it. Their laws hold of it, among them
/// [`crate::exclusion::mutual_exclusion`],
/// [`crate::queue::every_reply_is_expected`],
/// [`crate::queue::nobody_is_forgotten`] and
/// [`crate::upkeep::free_lock_is_not_left_alone`].
pub struct Kind;

impl Encoding for Kind {
    open spec fn is_held(word: usize) -> bool {
        is_locked(word)
    }

    /// A waiter that is woken as the holder has been handed the lock.
    open spec fn grants(wake: usize) -> bool {
        wake == WAKER_ACQUIRED
    }
}

impl LockKind for Kind {
    type Try = TryLock;

    type Lock = LockFuture;

    type Unlock = Unlock;

    proof fn try_frame(party: TryLock, memory: Shared, next: Shared) {
        assert(party.waiter() == 0 && party.holds(memory) == party.holds(next));
    }

    proof fn lock_frame(party: LockFuture, memory: Shared, next: Shared) {
        assert(party.waiter() != 0);
        assert(party.begins() ==> !party.holds(memory) || Self::grants(wake_of(memory, party.waiter())));
    }

    proof fn unlock_frame(party: Unlock, memory: Shared, next: Shared) {
        assert(party.waiter() == 0 && party.holds(memory) == party.holds(next));
    }

    proof fn lock_given_up(party: LockFuture, other: LockFuture, memory: Shared) {
        assert(party.gives_up(other) ==> other.waiter() == party.waiter() && other.holds(memory) == party.holds(memory));
    }

    proof fn try_step(party: TryLock, memory: Shared, reply: Reply, next: Shared) {
        try_lock_is_lawful::<Self>(party, memory, reply, next);
    }

    proof fn lock_step(party: LockFuture, memory: Shared, reply: Reply, next: Shared) {
    }

    #[verifier::spinoff_prover]
    #[verifier::rlimit(50)]
    proof fn unlock_step(party: Unlock, memory: Shared, reply: Reply, next: Shared) {
        lemma_clear_locked(memory.word);
    }
}

/// Whether the waiter can be woken: its waker is ready, or being replaced.
pub open spec fn is_ready(memory: Shared, node: usize) -> bool {
    &&& node != 0
    &&& wake_of(memory, node) == WAKER_WAITING && (memory.wakers)(node) || wake_of(memory, node)
        == WAKER_UPDATING
}

/// Whether the waiter was woken.
pub open spec fn is_woken(memory: Shared, node: usize) -> bool {
    wake_of(memory, node) == WAKER_NOTIFIED || wake_of(memory, node) == WAKER_ACQUIRED
}

/// Whether an attempt to lock waits by its waiter.
pub open spec fn waits(lock: LockFuture) -> bool {
    match lock.step {
        LockStep::Pending
        | LockStep::LoadWake
        | LockStep::BeginUpdate
        | LockStep::ReplaceWaker
        | LockStep::EndUpdate => true,
        _ => false,
    }
}

/// What an attempt to lock knows about its waiter.
pub open spec fn lock_knows(lock: LockFuture, memory: Shared) -> bool {
    let node = lock.waiter;
    let wake = wake_of(memory, node);
    let waker = (memory.wakers)(node);
    let stored = wake == WAKER_WAITING && waker;
    match lock.step {
        LockStep::SetNext { .. } => {
            &&& wake != WAKER_ACQUIRED
            &&& link(memory, node, Link::Prev) == 0
        },
        LockStep::SetTail { state, .. } => {
            &&& wake != WAKER_ACQUIRED
            &&& link(memory, node, Link::Prev) == 0
            &&& link(memory, node, Link::Next) == above_locked(state)
        },
        LockStep::CheckWaker { state, .. } | LockStep::SetWaker { state, .. } => {
            &&& wake != WAKER_ACQUIRED
            &&& leads_to(memory, node, above_locked(state))
        },
        LockStep::SetWaiting { state, .. } => {
            &&& wake != WAKER_ACQUIRED
            &&& leads_to(memory, node, above_locked(state))
            &&& waker
        },
        LockStep::CheckDeadline { state, .. } | LockStep::SetDeadline { state, .. } => {
            &&& stored
            &&& leads_to(memory, node, above_locked(state))
        },
        LockStep::Exchange { state, .. } => {
            &&& wake != WAKER_ACQUIRED
            &&& is_locked(state) ==> stored && leads_to(memory, node, above_locked(state))
        },
        LockStep::Pending | LockStep::LoadWake | LockStep::BeginUpdate => {
            stored || wake == WAKER_CONSUMING || is_woken(memory, node)
        },
        LockStep::ReplaceWaker => wake == WAKER_UPDATING || is_woken(memory, node),
        LockStep::EndUpdate => (wake == WAKER_UPDATING || is_woken(memory, node)) && waker,
        LockStep::Locked => true,
        _ => wake != WAKER_ACQUIRED,
    }
}

/// The part that an unlock has in the queue.
pub open spec fn stage(unlock: Unlock) -> Stage {
    match unlock {
        Unlock::LoadWord => Stage::Poised,
        Unlock::Find { state, search, .. } => Stage::Find { head: above_locked(state), search },
        Unlock::CheckDeadline { state, tail } | Unlock::LoadPrev { state, tail, .. } => {
            Stage::Found { head: above_locked(state), tail }
        },
        Unlock::SetTail { state, tail, prev, .. } => Stage::Cut {
            head: above_locked(state),
            tail,
            prev,
        },
        Unlock::Empty { state, tail, .. } => Stage::Last { head: above_locked(state), tail },
        Unlock::ClearLocked { .. } => Stage::Leaving,
        _ => Stage::Idle,
    }
}

/// The waiter that an unlock has taken off the queue and not woken yet, or 0.
pub open spec fn grip(unlock: Unlock) -> usize {
    match unlock {
        Unlock::ClearLocked { tail }
        | Unlock::LoadWake { tail, .. }
        | Unlock::Consume { tail, .. }
        | Unlock::Interrupt { tail, .. }
        | Unlock::Take { tail, .. }
        | Unlock::SetWake { tail, .. } => tail,
        _ => 0,
    }
}

/// What an unlock knows about that waiter.
pub open spec fn unlock_knows(unlock: Unlock, memory: Shared) -> bool {
    match unlock {
        Unlock::ClearLocked { tail }
        | Unlock::LoadWake { tail, .. }
        | Unlock::Consume { tail, .. }
        | Unlock::Interrupt { tail, .. } => is_ready(memory, tail),
        Unlock::Take { tail, .. } => {
            tail != 0 && wake_of(memory, tail) == WAKER_CONSUMING && (memory.wakers)(tail)
        },
        Unlock::SetWake { tail, .. } => {
            tail != 0 && wake_of(memory, tail) == WAKER_CONSUMING
        },
        _ => true,
    }
}

impl Queued for Kind {
    open spec fn newest(word: usize) -> usize {
        above_locked(word)
    }

    open spec fn is_node(node: usize) -> bool {
        is_waiter(node)
    }

    open spec fn flagged() -> bool {
        false
    }

    open spec fn flag(word: usize) -> bool {
        false
    }

    open spec fn is_tidy(word: usize) -> bool {
        true
    }

    open spec fn ready(memory: Shared, node: usize) -> bool {
        is_ready(memory, node)
    }

    open spec fn woken(memory: Shared, node: usize) -> bool {
        is_woken(memory, node)
    }

    open spec fn fresh(memory: Shared, node: usize) -> bool {
        wake_of(memory, node) != WAKER_ACQUIRED && !(memory.wakers)(node)
    }

    open spec fn waits(lock: LockFuture) -> bool {
        waits(lock)
    }

    open spec fn joins(lock: LockFuture, reply: Reply) -> bool {
        lock.step matches LockStep::Exchange { state, .. } && reply.ok && is_locked(state)
    }

    open spec fn lock_knows(lock: LockFuture, memory: Shared) -> bool {
        lock_knows(lock, memory)
    }

    open spec fn carries(lock: LockFuture, memory: Shared) -> bool {
        false
    }

    open spec fn stage(unlock: Unlock) -> Stage {
        stage(unlock)
    }

    open spec fn reads_prev(unlock: Unlock) -> bool {
        unlock is LoadPrev
    }

    open spec fn grip(unlock: Unlock) -> usize {
        grip(unlock)
    }

    open spec fn passes(unlock: Unlock) -> bool {
        false
    }

    open spec fn unlock_knows(unlock: Unlock, memory: Shared) -> bool {
        unlock_knows(unlock, memory)
    }

    /// A waiter that is notified while it replaces its waker keeps the new one.
    /// If it has to join the queue again, it takes that for a waker that is ready,
    /// though its wake state says that it was woken. The laws of the queue are
    /// about histories without that.
    open spec fn lock_admits(lock: LockFuture, memory: Shared, reply: Reply) -> bool {
        lock.step is CheckWaker && reply.ok ==> wake_of(memory, lock.waiter) == WAKER_WAITING
    }

    open spec fn unlock_admits(unlock: Unlock, memory: Shared, reply: Reply) -> bool {
        true
    }
}

/// The state word with another newest waiter, and with its held flag changed.
proof fn words_of(word: usize, node: usize)
    requires
        node % 2 == 0,
    ensures
        above_locked(with_above_locked(word, node)) == node,
        is_locked(with_above_locked(word, node)) == is_locked(word),
        above_locked(set_locked(word)) == above_locked(word),
        above_locked((word & NOT_LOCKED)) == above_locked(word),
        is_locked(word) && word != LOCKED ==> above_locked(word) != 0,
        above_locked(LOCKED) == 0,
        above_locked(UNLOCKED) == 0,
{
    lemma_clear_locked(word);
}

impl Queueing for Kind {
    proof fn of_nodes(memory: Shared, node: usize) {
        assert(is_ready(memory, node) || !is_ready(memory, node));
    }

    proof fn node_frame(memory: Shared, next: Shared, node: usize) {
        assert(is_ready(memory, node) == is_ready(next, node));
    }

    proof fn lock_knows_frame(lock: LockFuture, memory: Shared, next: Shared) {
        assert(lock.waiter() == lock.waiter);
        assert(waits(lock) || !waits(lock));
        assert(lock_knows(lock, memory) ==> lock_knows(lock, next));
    }

    proof fn unlock_knows_frame(unlock: Unlock, memory: Shared, next: Shared) {
        assert(grip(unlock) == 0 || grip(unlock) != 0);
        assert(unlock_knows(unlock, memory) ==> unlock_knows(unlock, next));
    }

    proof fn try_obeys(attempt: TryLock, memory: Shared, reply: Reply, next: Shared) {
        words_of(memory.word, 0);
    }

    #[verifier::rlimit(50)]
    proof fn lock_obeys(lock: LockFuture, memory: Shared, reply: Reply, next: Shared) {
        words_of(memory.word, lock.waiter);
        assert(lock.waiter() == lock.waiter);
        assert(is_ready(memory, lock.waiter) || !is_ready(memory, lock.waiter));
    }

    #[verifier::rlimit(50)]
    proof fn lock_obeys_grip(
        lock: LockFuture,
        unlock: Unlock,
        memory: Shared,
        reply: Reply,
        next: Shared,
    ) {
        assert(lock.waiter() == lock.waiter);
        assert(grip(unlock) == lock.waiter);
    }

    #[verifier::rlimit(50)]
    proof fn unlock_obeys(unlock: Unlock, memory: Shared, reply: Reply, next: Shared) {
        words_of(memory.word, 0);
        assert(stage(unlock) is Idle || !(stage(unlock) is Idle));
    }

    #[verifier::rlimit(50)]
    proof fn unlock_obeys_lock(
        unlock: Unlock,
        lock: LockFuture,
        memory: Shared,
        reply: Reply,
        next: Shared,
    ) {
        assert(lock.waiter() == lock.waiter);
        assert(grip(unlock) == lock.waiter);
    }
}

impl Upkeep for Kind {
    open spec fn tends(unlock: Unlock) -> bool {
        !(unlock is Release || unlock is Wake || unlock is Released)
    }

    proof fn lock_is_up(lock: LockFuture, memory: Shared) {
        assert(lock.waiter() == lock.waiter);
    }

    proof fn unlock_is_up(unlock: Unlock) {
        assert(stage(unlock) is Idle || !(stage(unlock) is Idle));
    }

    proof fn try_tends(attempt: TryLock, memory: Shared, reply: Reply, next: Shared) {
        words_of(memory.word, 0);
    }

    #[verifier::rlimit(50)]
    proof fn lock_tends(lock: LockFuture, memory: Shared, reply: Reply, next: Shared) {
        assert(lock.waiter() == lock.waiter);
        words_of(memory.word, lock.waiter);
    }

    #[verifier::rlimit(50)]
    proof fn unlock_tends(unlock: Unlock, memory: Shared, reply: Reply, next: Shared) {
        words_of(memory.word, 0);
        assert(wakes::<Self>(unlock, reply) || !wakes::<Self>(unlock, reply));
    }

    proof fn lock_inherits(
        unlock: Unlock,
        lock: LockFuture,
        memory: Shared,
        reply: Reply,
        next: Shared,
    ) {
        assert(lock.waiter() == lock.waiter);
        assert(grip(unlock) == lock.waiter);
    }
}

impl Tenure for Kind {
    proof fn lock_is_handed(lock: LockFuture, memory: Shared) {
        assert(lock.waiter() == lock.waiter);
    }

    proof fn try_keeps(attempt: TryLock, memory: Shared, reply: Reply, next: Shared) {
        words_of(memory.word, 0);
    }

    proof fn lock_keeps(lock: LockFuture, memory: Shared, reply: Reply, next: Shared) {
        assert(lock.waiter() == lock.waiter);
        words_of(memory.word, lock.waiter);
    }

    proof fn unlock_keeps(unlock: Unlock, memory: Shared, reply: Reply, next: Shared) {
        lemma_clear_locked(memory.word);
        words_of(memory.word, 0);
        assert(grip(unlock) == 0 || grip(unlock) != 0);
        assert(Self::grants(WAKER_ACQUIRED));
    }
}

impl LockOwners for Kind {
    open spec fn is_set(memory: Shared, node: usize) -> bool {
        wake_of(memory, node) == WAKER_WAITING && (memory.wakers)(node)
    }

    open spec fn is_live(memory: Shared, node: usize) -> bool {
        let wake = wake_of(memory, node);
        (wake == WAKER_WAITING || wake == WAKER_CONSUMING) && (memory.wakers)(node)
    }

    open spec fn pends(lock: LockFuture) -> bool {
        lock.step is Pending
    }

    open spec fn trusts(lock: LockFuture) -> bool {
        lock.step is EndUpdate || lock.step is SetWaiting
    }

    open spec fn trusts_if_set(lock: LockFuture) -> bool {
        !(lock.step is LoadWake || lock.step is BeginUpdate || lock.step is ReplaceWaker)
    }

    open spec fn leaves(lock: LockFuture) -> bool {
        lock.step is Pending || lock.step is LoadWake || lock.step is BeginUpdate
    }
}

impl QueueOwners for Kind {
    proof fn of_polls(lock: LockFuture, memory: Shared) {
        assert(lock.waiter() == lock.waiter);
    }

    proof fn waker_frame(memory: Shared, next: Shared, node: usize) {
        assert(Self::is_set(next, node) == Self::is_set(memory, node));
    }

    proof fn lock_sees_to(lock: LockFuture, memory: Shared, reply: Reply, next: Shared) {
        assert(lock.waiter() == lock.waiter);
    }

    proof fn try_stores_none(attempt: TryLock) {
        assert(!(attempt.wants() is StoreWaker));
    }

    proof fn unlock_stores_none(unlock: Unlock) {
        assert(grip(unlock) == 0 || grip(unlock) != 0);
    }

    proof fn unlock_gives_none(unlock: Unlock, memory: Shared, reply: Reply, next: Shared) {
        assert(grip(unlock) == 0 || grip(unlock) != 0);
    }

    proof fn unlock_takes(unlock: Unlock, lock: LockFuture, memory: Shared) {
        assert(lock.waiter() == lock.waiter);
        assert(grip(unlock) == lock.waiter);
    }
}

impl Keeps<Debt> for Unlock {
    open spec fn fits(&self, ledger: Debt) -> bool {
        &&& match *self {
            Unlock::SetWake { tail, .. } => ledger.taken == Some(tail),
            Unlock::Wake => ledger.taken is Some && ledger.told == ledger.taken,
            _ => ledger.taken is None,
        }
        &&& !ledger.missed
        &&& !ledger.lends
    }

    proof fn goes_on(operation: Self, ledger: Debt, reply: Reply) {
    }

    proof fn obeys(operation: Self, ledger: Debt) {
    }
}

/// An unlock that took the waker of a waiter wakes it before it is over, once
/// it has stored the wake state. It takes no waker where there is none.
pub proof fn unlock_wakes_whom_it_took(first: Unlock, replies: Seq<Reply>, i: int, j: int)
    requires
        first.wf(),
        first.begins(),
        is_course(first, replies),
        0 <= i < j <= replies.len(),
    ensures
        ledger(first, replies, Debt::none(), j).allows(point(first, replies, j).wants()),
        !ledger(first, replies, Debt::none(), j).missed,
        ({
            &&& point(first, replies, i).wants() is TakeWaker
            &&& replies[i].ok
            &&& point(first, replies, j).wants() is Done
        }) ==> exists|k: int| i < k < j && #[trigger] point(first, replies, k).wants() is Wake,
{
    always_allowed(first, replies, Debt::none(), j);
    if point(first, replies, i).wants() is TakeWaker && replies[i].ok && point(
        first,
        replies,
        j,
    ).wants() is Done {
        taken_waker_is_woken(first, replies, Debt::none(), i, j);
    }
}

impl Keeps<Handover> for Unlock {
    open spec fn fits(&self, ledger: Handover) -> bool {
        &&& ledger.grant == WAKER_ACQUIRED
        &&& !ledger.wish
        &&& !ledger.flagged
        &&& !ledger.popped
        &&& ledger.due
        &&& match *self {
            Unlock::Release | Unlock::LoadWord | Unlock::CheckDeadline { .. } => {
                &&& ledger.fair is None
                &&& !ledger.released
            },
            Unlock::Find { settled, .. } => ledger.fair == settled && !ledger.released,
            Unlock::LoadPrev { fair, .. }
            | Unlock::SetTail { fair, .. }
            | Unlock::Empty { fair, .. } => ledger.fair == Some(fair) && !ledger.released,
            Unlock::ClearLocked { .. } => ledger.fair == Some(false) && !ledger.released,
            Unlock::LoadWake { fair, .. }
            | Unlock::Consume { fair, .. }
            | Unlock::Interrupt { fair, .. }
            | Unlock::Take { fair, .. }
            | Unlock::SetWake { fair, .. } => ledger.fair == Some(fair) && ledger.released == !fair,
            Unlock::Wake => {
                &&& ledger.fair is Some
                &&& ledger.released == (ledger.fair == Some(false))
                &&& ledger.is_settled()
            },
            Unlock::Released => {
                &&& ledger.released == (ledger.fair != Some(true))
                &&& ledger.is_settled()
            },
        }
    }

    proof fn goes_on(operation: Self, ledger: Handover, reply: Reply) {
        lemma_masks();
    }

    proof fn obeys(operation: Self, ledger: Handover) {
        lemma_masks();
    }
}

/// An unlock that finds waiters asks once whether the oldest one has waited too
/// long. If so, the held flag stays set throughout and that waiter is made the
/// holder, however many waiters are left in the queue. If not, the held flag is
/// cleared and the waiter has to try again.
pub proof fn unlock_hands_over_or_releases(first: Unlock, replies: Seq<Reply>)
    requires
        first.begins(),
        is_course(first, replies),
    ensures
        ({
            let now = point(first, replies, replies.len() as int);
            let course = ledger(first, replies, Handover::by_deadline(WAKER_ACQUIRED), replies.len() as int);
            &&& course.allows(now.wants())
            &&& now.wants() is Done ==> {
                &&& course.released == (course.fair != Some(true))
                &&& course.fair is Some ==> (course.wake == Some(WAKER_ACQUIRED)) == (course.fair
                    == Some(true))
            }
        }),
{
    always_allowed(first, replies, Handover::by_deadline(WAKER_ACQUIRED), replies.len() as int);
    handover::terms_stay(first, replies, Handover::by_deadline(WAKER_ACQUIRED), replies.len() as int);
}

impl Signs for Kind {
    open spec fn is_up(wake: usize) -> bool {
        wake == WAKER_NOTIFIED || wake == WAKER_ACQUIRED
    }
}

impl Keeps<Wait<Kind>> for LockFuture {
    open spec fn fits(&self, ledger: Wait<Kind>) -> bool {
        &&& ledger.node == self.waiter
        &&& !ledger.drops
        &&& match self.step {
            LockStep::Fast => ledger.is_free() && ledger.word is None,
            LockStep::LoadWord { .. } => ledger.is_free(),
            LockStep::Yield { state, .. }
            | LockStep::SetPrev { state, .. }
            | LockStep::SetNext { state, .. }
            | LockStep::SetTail { state, .. }
            | LockStep::CheckWaker { state, .. }
            | LockStep::SetWaker { state, .. } => {
                &&& ledger.is_free()
                &&& ledger.word == Some(state)
            },
            LockStep::SetWaiting { state, .. } => {
                &&& ledger.is_free()
                &&& ledger.word == Some(state)
                &&& ledger.waker
            },
            LockStep::CheckDeadline { state, .. } | LockStep::SetDeadline { state, .. } => {
                &&& ledger.is_free()
                &&& ledger.word == Some(state)
                &&& ledger.is_ready()
            },
            LockStep::Exchange { state, .. } => {
                &&& ledger.is_free()
                &&& ledger.word == Some(state)
                &&& is_locked(state) ==> ledger.is_ready()
            },
            LockStep::Pending => {
                &&& !ledger.took
                &&& ledger.queued
                &&& ledger.is_down()
                &&& !ledger.updating
                &&& !ledger.late
            },
            LockStep::LoadWake | LockStep::BeginUpdate => {
                &&& !ledger.took
                &&& ledger.queued
                &&& !ledger.updating
                &&& !ledger.late
            },
            LockStep::ReplaceWaker => {
                &&& !ledger.took
                &&& ledger.queued
                &&& ledger.updating
                &&& !ledger.late
            },
            LockStep::EndUpdate => {
                &&& !ledger.took
                &&& ledger.queued
                &&& ledger.updating
                &&& ledger.fresh
                &&& !ledger.late
            },
            LockStep::Locked => ledger.took && !ledger.updating && !ledger.late,
        }
    }

    #[verifier::spinoff_prover]
    #[verifier::rlimit(40)]
    proof fn goes_on(operation: Self, ledger: Wait<Kind>, reply: Reply) {
    }

    proof fn obeys(operation: Self, ledger: Wait<Kind>) {
    }
}

/// An attempt is over exactly when it has the lock. It joins the queue ready to
/// be woken, waits only if it saw since it waited last that it was not woken,
/// and is woken by the waker of its last poll.
pub proof fn attempt_waits_until_it_is_woken(first: LockFuture, replies: Seq<Reply>)
    requires
        first.wf(),
        first.begins(),
        is_course(first, replies),
    ensures
        ({
            let start = Wait::begin(Kind, first.waiter, false);
            let now = point(first, replies, replies.len() as int);
            let wait = ledger(first, replies, start, replies.len() as int);
            &&& wait.allows(now.wants())
            &&& now.step is Locked ==> wait.took
        }),
{
    let start = Wait::begin(Kind, first.waiter, false);
    always_allowed(first, replies, start, replies.len() as int);
}

impl Crowd for Kind {
    open spec fn is_quiet(word: usize) -> bool {
        is_locked(word) && above_locked(word) == 0
    }

    open spec fn deadline(word: usize, node: usize) -> u32 {
        deadline(word, node)
    }
}

impl Keeps<Waver<Kind>> for LockFuture {
    open spec fn fits(&self, ledger: Waver<Kind>) -> bool {
        &&& !ledger.forgets
        &&& !ledger.inside
        &&& ledger.dates
        &&& match self.step {
            LockStep::Fast => {
                &&& ledger.word is None
                &&& ledger.count == 0
                &&& !ledger.just
                &&& !ledger.again
            },
            LockStep::LoadWord { spin } => {
                &&& ledger.count == spin
                &&& ledger.just ==> ledger.again
            },
            LockStep::Yield { state, spin } => {
                &&& ledger.word == Some(state)
                &&& ledger.count == spin
                &&& Kind::is_quiet(state)
                &&& ledger.just
                &&& !ledger.again
                &&& !ledger.refused
            },
            LockStep::SetPrev { state, spin }
            | LockStep::SetNext { state, spin }
            | LockStep::SetTail { state, spin }
            | LockStep::CheckWaker { state, spin }
            | LockStep::SetWaker { state, spin }
            | LockStep::SetWaiting { state, spin }
            | LockStep::CheckDeadline { state, spin }
            | LockStep::SetDeadline { state, spin }
            | LockStep::Exchange { state, spin } => {
                &&& ledger.word == Some(state)
                &&& self.step is SetDeadline ==> !ledger.dated
                &&& self.step is Exchange && is_locked(state) ==> ledger.dated
                &&& ledger.count == spin
                &&& Kind::is_quiet(state) ==> ledger.refused
                &&& ledger.has_to_ask() ==> false
                &&& !ledger.again
            },
            _ => !ledger.has_to_ask() && !ledger.again,
        }
    }

    #[verifier::spinoff_prover]
    #[verifier::rlimit(40)]
    proof fn goes_on(operation: Self, ledger: Waver<Kind>, reply: Reply) {
    }

    proof fn obeys(operation: Self, ledger: Waver<Kind>) {
    }
}

/// An attempt that finds the lock held and the queue empty asks the scheduler
/// whether to spin, and says how often it has done so since it was woken. It
/// looks again as long as it is told to, and joins the queue only when it is told
/// not to.
pub proof fn attempt_asks_before_it_queues(first: LockFuture, replies: Seq<Reply>)
    requires
        first.wf(),
        first.begins(),
        is_course(first, replies),
    ensures
        ({
            let start = Waver::begin(Kind, false, true);
            let now = point(first, replies, replies.len() as int);
            ledger(first, replies, start, replies.len() as int).allows(now.wants())
        }),
{
    let start = Waver::begin(Kind, false, true);
    always_allowed(first, replies, start, replies.len() as int);
}

/// Whoever takes the lock sees what was done under it before, whoever looks
/// through the queue sees the waiters in it, and a waiter that sees that it was
/// woken sees what was done before that.
#[verifier::spinoff_prover]
#[verifier::rlimit(40)]
pub proof fn what_was_done_is_seen(lock: LockFuture, unlock: Unlock)
    requires
        lock.wf(),
        unlock.wf(),
    ensures
        keeps_the_lock_visible(lock.wants()),
        keeps_the_lock_visible(unlock.wants()),
        keeps_the_queue_visible(lock.wants()),
        keeps_the_wake_visible(unlock.wants()),
        keeps_the_waker_visible(lock.wants(), WAKER_UPDATING, WAKER_CONSUMING),
        keeps_the_waker_visible(unlock.wants(), WAKER_UPDATING, WAKER_CONSUMING),
{
    lemma_masks();
    lemma_flag_masks();
}

} // verus!
