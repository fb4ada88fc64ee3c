//! A lock without a value, to build other primitives from.
//!
//! The state word holds the held flag, the waking flag and the newest waiter.
//! A thread that unlocks takes the waking flag before it touches the queue,
//! removes the oldest waiter, and wakes it; the woken thread tries again.
use vstd::prelude::*;
use crate::access::{Access, Link, Operation, Order, Place, Reply};
use crate::course::{Keeps, Ledger, always_allowed, is_course, ledger, point};
use crate::debt::{Debt, taken_waker_is_woken};
use crate::exclusion::{Encoding, LockKind, Party, System, holds, wake_of};
use crate::kernel::cpu::Hints;
use crate::memory::{Shared, alone};
use crate::owners::{LockOwners, QueueOwners};
use crate::patience::{Crowd, Waver};
use crate::queue::{Queued, Queueing, Stage, history};
use crate::shared::waker_parker::{
    CONSUMING, NOTIFIED, PollParker, PollStep, Polled, Prepare, PrepareStep, UPDATING, Unpark,
    UnparkStep, WAITING, WakerParker, notified,
};
use crate::tail::{Search, link};
use crate::tenure::{Tenure, look_finds_the_holder};
use crate::try_lock::{IsLocked, TryLock, try_lock_is_lawful};
use crate::upkeep::{Upkeep, wakes};
use crate::visibility::{
    keeps_the_lock_visible, keeps_the_queue_visible, keeps_the_wake_visible,
    keeps_the_waker_visible,
};
use crate::wait::{Signs, Wait};
use crate::words::{
    LOCKED, NOT_SECOND, UNLOCKED, clear_second, has_second, is_locked, lemma_clear_second,
    lemma_flag_masks, lemma_masks, lemma_tagged_word, newest, set_locked, set_second, with_newest,
};

verus! {

/// The word that a lock's state starts from. The state itself is the word of the
/// shared memory that the operations work on.
#[derive(Clone, Copy, PartialEq, Eq, Structural, Debug)]
pub struct Lock {
    pub state: usize,
}

/// Whether the address can be that of a waiter of this lock.
pub open spec fn is_waiter(node: usize) -> bool {
    node != 0 && node % 4 == 0
}

impl Lock {
    pub fn new() -> (lock: Self)
        ensures
            lock.state == UNLOCKED,
    {
        Lock { state: UNLOCKED }
    }

    /// Begins to look whether the lock is held.
    pub fn is_locked(&self) -> (look: IsLocked)
        ensures
            look == IsLocked::LoadWord,
            look.wf(),
    {
        IsLocked::start()
    }

    /// Begins to take the lock if it is free.
    pub fn try_lock(&self) -> (attempt: TryLock)
        ensures
            attempt == TryLock::LoadWord,
            attempt.wf(),
            attempt.begins(),
    {
        TryLock::start()
    }

    /// Begins to take the lock as a task: the same operation as `lock`, with
    /// its waits left to the executor.
    pub fn lock_async(&self, waiter: usize) -> (future: LockFuture)
        requires
            is_waiter(waiter),
        ensures
            future == (LockFuture { waiter, step: LockStep::Fast }),
            future.wf(),
            future.begins(),
    {
        LockFuture { waiter, step: LockStep::Fast }
    }

    /// Begins to take the lock, waiting by the given waiter if need be.
    pub fn lock(&self, waiter: usize) -> (future: LockFuture)
        requires
            is_waiter(waiter),
        ensures
            future == (LockFuture { waiter, step: LockStep::Fast }),
            future.wf(),
            future.begins(),
    {
        LockFuture { waiter, step: LockStep::Fast }
    }

    /// Begins to give the lock up.
    pub fn unlock(&self) -> (unlock: Unlock)
        ensures
            unlock == Unlock::Release,
            unlock.wf(),
            unlock.begins(),
    {
        Unlock::Release
    }
}

/// How far an attempt to lock is.
#[derive(Clone, Copy, PartialEq, Eq, Structural, Debug)]
pub enum LockStep {
    /// Takes a lock that is free and has no waiters.
    Fast,
    LoadWord { spin: usize },
    /// Asks whether spinning is worth while.
    Yield { state: usize, spin: usize },
    /// Links the waiter in front of the newest one of `state`.
    SetNext { state: usize, spin: usize },
    SetTail { state: usize, spin: usize },
    /// Makes the parker of the waiter ready.
    Prepare { state: usize, spin: usize, prepare: Prepare },
    /// Takes the lock, or joins the queue, if the word is still `state`.
    Exchange { state: usize, spin: usize },
    Pending,
    /// Looks at whether the waiter was woken.
    Poll { poll: PollParker },
    Locked,
}

/// An attempt to lock, and the waiter it waits by.
#[derive(Clone, Copy, PartialEq, Eq, Structural, Debug)]
pub struct LockFuture {
    pub waiter: usize,
    pub step: LockStep,
}

impl LockFuture {
    /// Begins to give up an attempt that waits: the parker is polled once more,
    /// and what comes of it is dropped.
    pub fn cancel(&self) -> (poll: PollParker)
        ensures
            poll == WakerParker::poll(self.waiter),
            poll.wf(),
    {
        WakerParker::poll(self.waiter)
    }
}

pub open spec fn spec_poll_lock(state: usize, spin: usize) -> LockStep {
    if !is_locked(state) {
        LockStep::Exchange { state, spin }
    } else if newest(state) == 0 {
        LockStep::Yield { state, spin }
    } else {
        LockStep::SetNext { state, spin }
    }
}

/// What to do about a state word: take the lock if it is free, think about
/// spinning if nobody waits yet, and join the queue otherwise.
#[verifier::when_used_as_spec(spec_poll_lock)]
pub fn poll_lock(state: usize, spin: usize) -> (step: LockStep)
    ensures
        step == spec_poll_lock(state, spin),
{
    if !is_locked(state) {
        LockStep::Exchange { state, spin }
    } else if newest(state) == 0 {
        LockStep::Yield { state, spin }
    } else {
        LockStep::SetNext { state, spin }
    }
}

pub open spec fn spec_prepared(state: usize, spin: usize, prepare: Prepare) -> LockStep {
    match prepare.step {
        PrepareStep::Done => LockStep::Exchange { state, spin },
        _ => LockStep::Prepare { state, spin, prepare },
    }
}

/// Goes on once the parker is ready.
#[verifier::when_used_as_spec(spec_prepared)]
pub fn prepared(state: usize, spin: usize, prepare: Prepare) -> (step: LockStep)
    ensures
        step == spec_prepared(state, spin, prepare),
{
    match prepare.step {
        PrepareStep::Done => LockStep::Exchange { state, spin },
        _ => LockStep::Prepare { state, spin, prepare },
    }
}

pub open spec fn spec_poll_wait(poll: PollParker) -> LockStep {
    match poll.step {
        PollStep::Done { result: Polled::Token(_) } => LockStep::LoadWord { spin: 0 },
        PollStep::Done { .. } => LockStep::Pending,
        _ => LockStep::Poll { poll },
    }
}

/// Goes on once the parker was polled.
#[verifier::when_used_as_spec(spec_poll_wait)]
pub fn poll_wait(poll: PollParker) -> (step: LockStep)
    ensures
        step == spec_poll_wait(poll),
{
    match poll.step {
        PollStep::Done { result: Polled::Token(_) } => LockStep::LoadWord { spin: 0 },
        PollStep::Done { .. } => LockStep::Pending,
        _ => LockStep::Poll { poll },
    }
}

pub open spec fn spec_is_known(poll: PollParker) -> bool {
    match poll.step {
        PollStep::Done { result: Polled::Token(token) } => token == 0,
        _ => true,
    }
}

/// Whether a poll that is over gave the only token there is, if any.
#[verifier::when_used_as_spec(spec_is_known)]
pub fn is_known(poll: PollParker) -> (known: bool)
    ensures
        known == spec_is_known(poll),
{
    match poll.step {
        PollStep::Done { result: Polled::Token(token) } => token == 0,
        _ => true,
    }
}

impl Operation for LockFuture {
    open spec fn wf(&self) -> bool {
        &&& is_waiter(self.waiter)
        &&& match self.step {
            LockStep::Yield { state, .. }
            | LockStep::SetNext { state, .. }
            | LockStep::SetTail { state, .. } => is_locked(state),
            LockStep::Prepare { state, prepare, .. } => {
                &&& is_locked(state)
                &&& prepare.wf()
                &&& prepare.node == self.waiter
                &&& !(prepare.step is Done)
            },
            LockStep::Poll { poll } => {
                &&& poll.wf()
                &&& poll.node == self.waiter
                &&& !(poll.step is Done)
            },
            _ => true,
        }
    }

    open spec fn wants(&self) -> Access {
        let node: usize = self.waiter;
        match self.step {
            LockStep::Fast => Access::CompareExchangeWeak(
                Place::Word,
                UNLOCKED,
                LOCKED,
                Order::Acquire,
                Order::Relaxed,
            ),
            LockStep::LoadWord { .. } => Access::Load(Place::Word, Order::Relaxed),
            LockStep::Yield { spin, .. } => Access::Yield(spin),
            LockStep::SetNext { state, .. } => Access::Store(
                Place::Link(node, Link::Next),
                newest(state),
                Order::Relaxed,
            ),
            LockStep::SetTail { state, .. } => Access::Store(
                Place::Link(node, Link::Tail),
                if newest(state) == 0 {
                    node
                } else {
                    0
                },
                Order::Relaxed,
            ),
            LockStep::Prepare { prepare, .. } => prepare.wants(),
            LockStep::Exchange { state, .. } => Access::CompareExchangeWeak(
                Place::Word,
                state,
                if is_locked(state) {
                    with_newest(state, node)
                } else {
                    set_locked(state)
                },
                Order::AcqRel,
                Order::Relaxed,
            ),
            LockStep::Pending => Access::Park,
            LockStep::Poll { poll } => poll.wants(),
            LockStep::Locked => Access::Done,
        }
    }

    /// Nobody but this thread polls the parker, and it is woken with one token
    /// only.
    open spec fn expects(&self, reply: Reply) -> bool {
        match self.step {
            LockStep::Prepare { prepare, .. } => prepare.expects(reply),
            LockStep::Poll { poll } => poll.expects(reply) && is_known(poll.after(reply)),
            LockStep::Locked => false,
            _ => true,
        }
    }

    open spec fn after(&self, reply: Reply) -> Self {
        let step = match self.step {
            LockStep::Fast => if reply.ok {
                LockStep::Locked
            } else {
                LockStep::LoadWord { spin: 0 }
            },
            LockStep::LoadWord { spin } => poll_lock(reply.value, spin),
            LockStep::Yield { state, spin } => if reply.ok {
                LockStep::LoadWord { spin: spin.wrapping_add(1) }
            } else {
                LockStep::SetNext { state, spin }
            },
            LockStep::SetNext { state, spin } => LockStep::SetTail { state, spin },
            LockStep::SetTail { state, spin } => LockStep::Prepare {
                state,
                spin,
                prepare: WakerParker::prepare(self.waiter),
            },
            LockStep::Prepare { state, spin, prepare } => prepared(
                state,
                spin,
                prepare.after(reply),
            ),
            LockStep::Exchange { state, spin } => if !reply.ok {
                poll_lock(reply.value, spin)
            } else if is_locked(state) {
                LockStep::Pending
            } else {
                LockStep::Locked
            },
            LockStep::Pending => LockStep::Poll { poll: WakerParker::poll(self.waiter) },
            LockStep::Poll { poll } => poll_wait(poll.after(reply)),
            LockStep::Locked => LockStep::Locked,
        };
        LockFuture { step, ..*self }
    }

    fn accepts(&self, reply: Reply) -> (accepted: bool) {
        match self.step {
            LockStep::Prepare { prepare, .. } => prepare.accepts(reply),
            LockStep::Poll { poll } => poll.accepts(reply) && is_known(poll.resumed(reply)),
            LockStep::Locked => false,
            _ => true,
        }
    }

    fn access(&self) -> (access: Access) {
        let node: usize = self.waiter;
        match self.step {
            LockStep::Fast => Access::CompareExchangeWeak(
                Place::Word,
                UNLOCKED,
                LOCKED,
                Order::Acquire,
                Order::Relaxed,
            ),
            LockStep::LoadWord { .. } => Access::Load(Place::Word, Order::Relaxed),
            LockStep::Yield { spin, .. } => Access::Yield(spin),
            LockStep::SetNext { state, .. } => Access::Store(
                Place::Link(node, Link::Next),
                newest(state),
                Order::Relaxed,
            ),
            LockStep::SetTail { state, .. } => Access::Store(
                Place::Link(node, Link::Tail),
                if newest(state) == 0 {
                    node
                } else {
                    0
                },
                Order::Relaxed,
            ),
            LockStep::Prepare { prepare, .. } => prepare.access(),
            LockStep::Exchange { state, .. } => Access::CompareExchangeWeak(
                Place::Word,
                state,
                if is_locked(state) {
                    with_newest(state, node)
                } else {
                    set_locked(state)
                },
                Order::AcqRel,
                Order::Relaxed,
            ),
            LockStep::Pending => Access::Park,
            LockStep::Poll { poll } => poll.access(),
            LockStep::Locked => Access::Done,
        }
    }

    fn resume(&mut self, reply: Reply, _hints: &mut Hints) {
        self.step =
        match self.step {
            LockStep::Fast => if reply.ok {
                LockStep::Locked
            } else {
                LockStep::LoadWord { spin: 0 }
            },
            LockStep::LoadWord { spin } => poll_lock(reply.value, spin),
            LockStep::Yield { state, spin } => if reply.ok {
                LockStep::LoadWord { spin: spin.wrapping_add(1) }
            } else {
                LockStep::SetNext { state, spin }
            },
            LockStep::SetNext { state, spin } => LockStep::SetTail { state, spin },
            LockStep::SetTail { state, spin } => LockStep::Prepare {
                state,
                spin,
                prepare: WakerParker::prepare(self.waiter),
            },
            LockStep::Prepare { state, spin, prepare } => prepared(
                state,
                spin,
                prepare.resumed(reply),
            ),
            LockStep::Exchange { state, spin } => if !reply.ok {
                poll_lock(reply.value, spin)
            } else if is_locked(state) {
                LockStep::Pending
            } else {
                LockStep::Locked
            },
            LockStep::Pending => LockStep::Poll { poll: WakerParker::poll(self.waiter) },
            LockStep::Poll { poll } => poll_wait(poll.resumed(reply)),
            LockStep::Locked => LockStep::Locked,
        };
    }
}

impl Party for LockFuture {
    open spec fn begins(&self) -> bool {
        self.step is Fast
    }

    open spec fn holds(&self, memory: Shared) -> bool {
        self.step is Locked
    }

    open spec fn waiter(&self) -> usize {
        self.waiter
    }

    open spec fn admits(&self, memory: Shared, reply: Reply) -> bool {
        true
    }
}

/// How far an unlock is.
#[derive(Clone, Copy, PartialEq, Eq, Structural, Debug)]
pub enum Unlock {
    /// Clears the held flag.
    Release,
    LoadWord,
    /// Takes the waking flag if the word is still `state`.
    TakeWaking { state: usize },
    /// Looks for the oldest waiter.
    Find { state: usize, search: Search },
    /// Leaves the queue to the thread that took the lock meanwhile.
    GiveUp { state: usize },
    LoadPrev { state: usize, tail: usize },
    /// Makes the next oldest waiter the oldest one.
    SetTail { state: usize, tail: usize, prev: usize },
    ClearWaking { tail: usize },
    /// Empties the queue of its only waiter.
    Empty { state: usize, tail: usize },
    /// Wakes the waiter that was removed.
    Unpark { unpark: Unpark },
    Released,
}

pub open spec fn spec_released(state: usize) -> Unlock {
    if !has_second(state) && newest(state) != 0 {
        Unlock::LoadWord
    } else {
        Unlock::Released
    }
}

/// Whether there is anybody to wake in the word that was unlocked.
#[verifier::when_used_as_spec(spec_released)]
pub fn released(state: usize) -> (next: Unlock)
    ensures
        next == spec_released(state),
{
    if !has_second(state) && newest(state) != 0 {
        Unlock::LoadWord
    } else {
        Unlock::Released
    }
}

pub open spec fn spec_unlock_slow(state: usize) -> Unlock {
    if has_second(state) || is_locked(state) || newest(state) == 0 {
        Unlock::Released
    } else {
        Unlock::TakeWaking { state }
    }
}

/// What to do about a state word: wake somebody only if somebody waits, the
/// lock is still free, and no other thread is waking.
#[verifier::when_used_as_spec(spec_unlock_slow)]
pub fn unlock_slow(state: usize) -> (next: Unlock)
    ensures
        next == spec_unlock_slow(state),
{
    if has_second(state) || is_locked(state) || newest(state) == 0 {
        Unlock::Released
    } else {
        Unlock::TakeWaking { state }
    }
}

pub open spec fn spec_find(state: usize) -> Unlock {
    Unlock::Find { state, search: Search::start(newest(state), true) }
}

/// Looks for the oldest waiter of a state word.
#[verifier::when_used_as_spec(spec_find)]
pub fn find(state: usize) -> (next: Unlock)
    requires
        newest(state) != 0,
    ensures
        next == spec_find(state),
{
    Unlock::Find { state, search: Search::start(newest(state), true) }
}

pub open spec fn spec_found(state: usize, tail: usize) -> Unlock {
    if is_locked(state) {
        Unlock::GiveUp { state }
    } else {
        Unlock::LoadPrev { state, tail }
    }
}

/// Goes on once the oldest waiter is found.
#[verifier::when_used_as_spec(spec_found)]
pub fn found(state: usize, tail: usize) -> (next: Unlock)
    ensures
        next == spec_found(state, tail),
{
    if is_locked(state) {
        Unlock::GiveUp { state }
    } else {
        Unlock::LoadPrev { state, tail }
    }
}

pub open spec fn spec_begin_wake(tail: usize) -> Unlock {
    Unlock::Unpark { unpark: WakerParker::unpark(tail, 0) }
}

/// Begins to wake the waiter that was removed.
#[verifier::when_used_as_spec(spec_begin_wake)]
pub fn begin_wake(tail: usize) -> (next: Unlock)
    ensures
        next == spec_begin_wake(tail),
{
    Unlock::Unpark { unpark: WakerParker::unpark(tail, 0) }
}

pub open spec fn spec_woken(unpark: Unpark) -> Unlock {
    match unpark.step {
        UnparkStep::Done => Unlock::Released,
        _ => Unlock::Unpark { unpark },
    }
}

/// Goes on with a wake until it is over.
#[verifier::when_used_as_spec(spec_woken)]
pub fn woken(unpark: Unpark) -> (next: Unlock)
    ensures
        next == spec_woken(unpark),
{
    match unpark.step {
        UnparkStep::Done => Unlock::Released,
        _ => Unlock::Unpark { unpark },
    }
}

impl Operation for Unlock {
    open spec fn wf(&self) -> bool {
        match *self {
            Unlock::TakeWaking { state } => !is_locked(state) && newest(state) != 0,
            Unlock::Find { state, search } => {
                &&& search.wf()
                &&& search.found() is None
                &&& search.head == newest(state)
            },
            Unlock::GiveUp { state } => newest(state) != 0 && is_locked(state),
            Unlock::LoadPrev { state, tail } => newest(state) != 0 && !is_locked(state) && tail != 0,
            Unlock::SetTail { state, tail, prev } => newest(state) != 0 && tail != 0 && prev != 0,
            Unlock::Empty { state, tail } => newest(state) != 0 && !is_locked(state) && tail != 0,
            Unlock::Unpark { unpark } => unpark.wf() && !(unpark.step is Done),
            _ => true,
        }
    }

    open spec fn wants(&self) -> Access {
        match *self {
            Unlock::Release => Access::FetchSub(Place::Word, LOCKED, Order::Release),
            Unlock::LoadWord => Access::Load(Place::Word, Order::Relaxed),
            Unlock::TakeWaking { state } => Access::CompareExchangeWeak(
                Place::Word,
                state,
                set_second(state),
                Order::Acquire,
                Order::Relaxed,
            ),
            Unlock::Find { search, .. } => search.wants(),
            Unlock::GiveUp { state } => Access::CompareExchangeWeak(
                Place::Word,
                state,
                clear_second(state),
                Order::AcqRel,
                Order::Acquire,
            ),
            Unlock::LoadPrev { tail, .. } => Access::Load(
                Place::Link(tail, Link::Prev),
                Order::Relaxed,
            ),
            Unlock::SetTail { state, prev, .. } => Access::Store(
                Place::Link(newest(state), Link::Tail),
                prev,
                Order::Relaxed,
            ),
            Unlock::ClearWaking { .. } => Access::FetchAnd(Place::Word, NOT_SECOND, Order::Release),
            Unlock::Empty { state, .. } => Access::CompareExchangeWeak(
                Place::Word,
                state,
                UNLOCKED,
                Order::AcqRel,
                Order::Acquire,
            ),
            Unlock::Unpark { unpark } => unpark.wants(),
            Unlock::Released => Access::Done,
        }
    }

    /// Waiters do not leave the queue by themselves, and nobody else wakes a
    /// waiter that was removed from it.
    open spec fn expects(&self, reply: Reply) -> bool {
        match *self {
            Unlock::Find { search, .. } => search.expects(reply),
            Unlock::GiveUp { .. } | Unlock::Empty { .. } => reply.ok || newest(reply.value) != 0,
            Unlock::Unpark { unpark } => unpark.expects(reply),
            Unlock::Released => false,
            _ => true,
        }
    }

    open spec fn after(&self, reply: Reply) -> Self {
        match *self {
            Unlock::Release => released(reply.value),
            Unlock::LoadWord => unlock_slow(reply.value),
            Unlock::TakeWaking { state } => if reply.ok {
                find(set_second(state))
            } else {
                unlock_slow(reply.value)
            },
            Unlock::Find { state, search } => {
                let next = search.after(reply);
                match next.found() {
                    Some(tail) => found(state, tail),
                    None => Unlock::Find { state, search: next },
                }
            },
            Unlock::GiveUp { .. } => if reply.ok {
                Unlock::Released
            } else {
                find(reply.value)
            },
            Unlock::LoadPrev { state, tail } => if reply.value == 0 {
                Unlock::Empty { state, tail }
            } else {
                Unlock::SetTail { state, tail, prev: reply.value }
            },
            Unlock::SetTail { tail, .. } => Unlock::ClearWaking { tail },
            Unlock::ClearWaking { tail } => begin_wake(tail),
            Unlock::Empty { tail, .. } => if reply.ok {
                begin_wake(tail)
            } else {
                find(reply.value)
            },
            Unlock::Unpark { unpark } => woken(unpark.after(reply)),
            Unlock::Released => Unlock::Released,
        }
    }

    fn accepts(&self, reply: Reply) -> (accepted: bool) {
        match *self {
            Unlock::Find { search, .. } => search.accepts(reply),
            Unlock::GiveUp { .. } | Unlock::Empty { .. } => reply.ok || newest(reply.value) != 0,
            Unlock::Unpark { unpark } => unpark.accepts(reply),
            Unlock::Released => false,
            _ => true,
        }
    }

    fn access(&self) -> (access: Access) {
        match *self {
            Unlock::Release => Access::FetchSub(Place::Word, LOCKED, Order::Release),
            Unlock::LoadWord => Access::Load(Place::Word, Order::Relaxed),
            Unlock::TakeWaking { state } => Access::CompareExchangeWeak(
                Place::Word,
                state,
                set_second(state),
                Order::Acquire,
                Order::Relaxed,
            ),
            Unlock::Find { search, .. } => search.access(),
            Unlock::GiveUp { state } => Access::CompareExchangeWeak(
                Place::Word,
                state,
                clear_second(state),
                Order::AcqRel,
                Order::Acquire,
            ),
            Unlock::LoadPrev { tail, .. } => Access::Load(
                Place::Link(tail, Link::Prev),
                Order::Relaxed,
            ),
            Unlock::SetTail { state, prev, .. } => Access::Store(
                Place::Link(newest(state), Link::Tail),
                prev,
                Order::Relaxed,
            ),
            Unlock::ClearWaking { .. } => Access::FetchAnd(Place::Word, NOT_SECOND, Order::Release),
            Unlock::Empty { state, .. } => Access::CompareExchangeWeak(
                Place::Word,
                state,
                UNLOCKED,
                Order::AcqRel,
                Order::Acquire,
            ),
            Unlock::Unpark { unpark } => unpark.access(),
            Unlock::Released => Access::Done,
        }
    }

    fn resume(&mut self, reply: Reply, _hints: &mut Hints) {
        *self =
        match *self {
            Unlock::Release => released(reply.value),
            Unlock::LoadWord => unlock_slow(reply.value),
            Unlock::TakeWaking { state } => if reply.ok {
                find(set_second(state))
            } else {
                unlock_slow(reply.value)
            },
            Unlock::Find { state, search } => {
                let next = search.resumed(reply);
                match next.found() {
                    Some(tail) => found(state, tail),
                    None => Unlock::Find { state, search: next },
                }
            },
            Unlock::GiveUp { .. } => if reply.ok {
                Unlock::Released
            } else {
                find(reply.value)
            },
            Unlock::LoadPrev { state, tail } => if reply.value == 0 {
                Unlock::Empty { state, tail }
            } else {
                Unlock::SetTail { state, tail, prev: reply.value }
            },
            Unlock::SetTail { tail, .. } => Unlock::ClearWaking { tail },
            Unlock::ClearWaking { tail } => begin_wake(tail),
            Unlock::Empty { tail, .. } => if reply.ok {
                begin_wake(tail)
            } else {
                find(reply.value)
            },
            Unlock::Unpark { unpark } => woken(unpark.resumed(reply)),
            Unlock::Released => Unlock::Released,
        };
    }
}

impl Party for Unlock {
    open spec fn begins(&self) -> bool {
        self is Release
    }

    open spec fn holds(&self, memory: Shared) -> bool {
        self is Release
    }

    open spec fn waiter(&self) -> usize {
        0
    }

    open spec fn admits(&self, memory: Shared, reply: Reply) -> bool {
        true
    }
}

/// Taking a free lock that nobody waits for and giving it up again, with nothing
/// in between, succeeds at once and leaves everything as it was.
pub proof fn undisturbed_round_trip(lock: LockFuture, unlock: Unlock, memory: Shared)
    requires
        lock.begins(),
        unlock.begins(),
        memory.word == UNLOCKED,
    ensures
        alone(lock, memory, 1) == (LockFuture { step: LockStep::Locked, ..lock }, Shared { word: LOCKED, ..memory }),
        alone(unlock, Shared { word: LOCKED, ..memory }, 1) == (Unlock::Released, memory),
{
    reveal_with_fuel(alone, 2);
}

/// The lock of this module, as [`crate::exclusion`], [`crate::queue`] and
/// [`crate::upkeep`] speak of it. Their laws hold of it, among them
/// [`crate::exclusion::mutual_exclusion`],
/// [`crate::queue::every_reply_is_expected`],
/// [`crate::queue::nobody_is_forgotten`] and
/// [`crate::upkeep::free_lock_is_not_left_alone`].
pub struct Kind;

impl Encoding for Kind {
    open spec fn is_held(word: usize) -> bool {
        is_locked(word)
    }

    /// A woken waiter has to take the lock by itself.
    open spec fn grants(wake: usize) -> bool {
        false
    }
}

impl LockKind for Kind {
    type Try = TryLock;

    type Lock = LockFuture;

    type Unlock = Unlock;

    proof fn try_frame(party: TryLock, memory: Shared, next: Shared) {
        assert(party.waiter() == 0 && party.holds(memory) == party.holds(next));
    }

    proof fn lock_frame(party: LockFuture, memory: Shared, next: Shared) {
        assert(party.waiter() != 0);
        assert(party.begins() ==> !party.holds(memory) || Self::grants(wake_of(memory, party.waiter())));
    }

    proof fn unlock_frame(party: Unlock, memory: Shared, next: Shared) {
        assert(party.waiter() == 0 && party.holds(memory) == party.holds(next));
    }

    proof fn lock_given_up(party: LockFuture, other: LockFuture, memory: Shared) {
        assert(party.gives_up(other) ==> other.waiter() == party.waiter() && other.holds(memory) == party.holds(memory));
    }

    proof fn try_step(party: TryLock, memory: Shared, reply: Reply, next: Shared) {
        try_lock_is_lawful::<Self>(party, memory, reply, next);
    }

    proof fn lock_step(party: LockFuture, memory: Shared, reply: Reply, next: Shared) {
    }

    #[verifier::spinoff_prover]
    #[verifier::rlimit(50)]
    proof fn unlock_step(party: Unlock, memory: Shared, reply: Reply, next: Shared) {
        lemma_clear_second(memory.word);
    }
}

/// Whether the waiter can be woken: its waker is ready, or being replaced.
pub open spec fn is_ready(memory: Shared, node: usize) -> bool {
    &&& node != 0
    &&& (memory.wakers)(node)
    &&& wake_of(memory, node) == WAITING || wake_of(memory, node) == UPDATING
}

/// Whether an attempt to lock waits by its waiter.
pub open spec fn waits(lock: LockFuture) -> bool {
    lock.step is Poll || lock.step is Pending
}

/// What an attempt to lock knows about its waiter.
pub open spec fn lock_knows(lock: LockFuture, memory: Shared) -> bool {
    let node = lock.waiter;
    let wake = wake_of(memory, node);
    let waker = (memory.wakers)(node);
    let stored = wake == WAITING && waker;
    let woken = wake == notified(0);
    let left_alone = stored || wake == CONSUMING || woken && !waker;
    match lock.step {
        LockStep::Locked => true,
        LockStep::Fast | LockStep::LoadWord { .. } | LockStep::Yield { .. } | LockStep::SetNext {
            ..
        } => waker ==> stored,
        LockStep::SetTail { state, .. } => {
            &&& waker ==> stored
            &&& link(memory, node, Link::Next) == newest(state)
        },
        LockStep::Prepare { state, prepare, .. } => {
            &&& leads_on(memory, node, newest(state))
            &&& match prepare.step {
                PrepareStep::Check => waker ==> stored,
                PrepareStep::SetWaker => true,
                PrepareStep::SetWaiting => waker,
                PrepareStep::Done => stored,
            }
        },
        LockStep::Exchange { state, .. } => {
            &&& waker ==> stored
            &&& is_locked(state) ==> stored && leads_on(memory, node, newest(state))
        },
        LockStep::Pending => left_alone,
        LockStep::Poll { poll } => match poll.step {
            PollStep::Load | PollStep::Done { .. } => left_alone,
            PollStep::BeginUpdate { state } => left_alone && state == WAITING,
            PollStep::CheckWaker
            | PollStep::Compare
            | PollStep::ReplaceWaker
            | PollStep::EndUpdate => (wake == UPDATING || woken) && waker,
            PollStep::DropLate { token } => token == 0 && woken,
        },
    }
}

/// Whether the next and tail links of a waiter lead to a queue with that newest
/// waiter.
pub open spec fn leads_on(memory: Shared, node: usize, newest: usize) -> bool {
    &&& link(memory, node, Link::Next) == newest
    &&& link(memory, node, Link::Tail) == if newest == 0 {
        node
    } else {
        0
    }
}

/// The part that an unlock has in the queue.
pub open spec fn stage(unlock: Unlock) -> Stage {
    match unlock {
        Unlock::Find { state, search } => Stage::Find { head: newest(state), search },
        Unlock::GiveUp { state } => Stage::Settled { head: newest(state) },
        Unlock::LoadPrev { state, tail } => Stage::Found { head: newest(state), tail },
        Unlock::SetTail { state, tail, prev } => Stage::Cut { head: newest(state), tail, prev },
        Unlock::Empty { state, tail } => Stage::Last { head: newest(state), tail },
        Unlock::ClearWaking { .. } => Stage::Leaving,
        _ => Stage::Idle,
    }
}

/// The waiter that an unlock has taken off the queue and not woken yet, or 0.
pub open spec fn grip(unlock: Unlock) -> usize {
    match unlock {
        Unlock::ClearWaking { tail } => tail,
        Unlock::Unpark { unpark } => if unpark.step is Wake {
            0
        } else {
            unpark.node
        },
        _ => 0,
    }
}

/// What an unlock knows about that waiter, and about the word it looked at.
pub open spec fn unlock_knows(unlock: Unlock, memory: Shared) -> bool {
    match unlock {
        Unlock::TakeWaking { state } => !has_second(state),
        Unlock::Find { state, .. } | Unlock::GiveUp { state } | Unlock::LoadPrev {
            state,
            ..
        } | Unlock::Empty { state, .. } => has_second(state),
        Unlock::ClearWaking { tail } => is_ready(memory, tail),
        Unlock::Unpark { unpark } => {
            let wake = wake_of(memory, unpark.node);
            let waker = (memory.wakers)(unpark.node);
            &&& unpark.node != 0
            &&& unpark.token == 0
            &&& match unpark.step {
                UnparkStep::Load => is_ready(memory, unpark.node),
                UnparkStep::Consume { state } => state == WAITING && is_ready(memory, unpark.node),
                UnparkStep::Interrupt { state } => state == UPDATING && is_ready(
                    memory,
                    unpark.node,
                ),
                UnparkStep::Take => wake == CONSUMING && waker,
                UnparkStep::SetNotified => wake == CONSUMING && !waker,
                UnparkStep::Wake => true,
                UnparkStep::Done => false,
            }
        },
        _ => true,
    }
}

impl Queued for Kind {
    open spec fn newest(word: usize) -> usize {
        newest(word)
    }

    open spec fn is_node(node: usize) -> bool {
        is_waiter(node)
    }

    open spec fn flagged() -> bool {
        true
    }

    open spec fn flag(word: usize) -> bool {
        has_second(word)
    }

    open spec fn is_tidy(word: usize) -> bool {
        true
    }

    open spec fn ready(memory: Shared, node: usize) -> bool {
        is_ready(memory, node)
    }

    open spec fn woken(memory: Shared, node: usize) -> bool {
        wake_of(memory, node) == notified(0)
    }

    open spec fn fresh(memory: Shared, node: usize) -> bool {
        !(memory.wakers)(node)
    }

    open spec fn waits(lock: LockFuture) -> bool {
        waits(lock)
    }

    open spec fn joins(lock: LockFuture, reply: Reply) -> bool {
        lock.step matches LockStep::Exchange { state, .. } && reply.ok && is_locked(state)
    }

    open spec fn lock_knows(lock: LockFuture, memory: Shared) -> bool {
        lock_knows(lock, memory)
    }

    open spec fn carries(lock: LockFuture, memory: Shared) -> bool {
        false
    }

    open spec fn stage(unlock: Unlock) -> Stage {
        stage(unlock)
    }

    open spec fn reads_prev(unlock: Unlock) -> bool {
        unlock is LoadPrev
    }

    open spec fn grip(unlock: Unlock) -> usize {
        grip(unlock)
    }

    open spec fn passes(unlock: Unlock) -> bool {
        false
    }

    open spec fn unlock_knows(unlock: Unlock, memory: Shared) -> bool {
        unlock_knows(unlock, memory)
    }

    /// A waiter that joins the queue again keeps the prev link that it had there
    /// before. The laws of the queue are about histories in which that link is
    /// clear.
    open spec fn lock_admits(lock: LockFuture, memory: Shared, reply: Reply) -> bool {
        Self::joins(lock, reply) ==> link(memory, lock.waiter, Link::Prev) == 0
    }

    open spec fn unlock_admits(unlock: Unlock, memory: Shared, reply: Reply) -> bool {
        true
    }
}

/// The state word with another newest waiter, and with its flags changed.
proof fn words_of(word: usize, node: usize)
    requires
        node % 4 == 0,
    ensures
        newest(with_newest(word, node)) == node,
        has_second(with_newest(word, node)) == has_second(word),
        is_locked(with_newest(word, node)) == is_locked(word),
        newest(set_locked(word)) == newest(word),
        has_second(set_locked(word)) == has_second(word),
        is_locked(word) ==> newest(word.wrapping_sub(LOCKED)) == newest(word) && has_second(
            word.wrapping_sub(LOCKED),
        ) == has_second(word),
        newest(set_second(word)) == newest(word),
        has_second(set_second(word)),
        word & NOT_SECOND == clear_second(word),
        newest(clear_second(word)) == newest(word),
        !has_second(clear_second(word)),
        newest(UNLOCKED) == 0 && !has_second(UNLOCKED),
{
    lemma_tagged_word(word, node);
}

impl Queueing for Kind {
    proof fn of_nodes(memory: Shared, node: usize) {
        assert(is_ready(memory, node) || !is_ready(memory, node));
    }

    proof fn node_frame(memory: Shared, next: Shared, node: usize) {
        assert(is_ready(memory, node) == is_ready(next, node));
    }

    proof fn lock_knows_frame(lock: LockFuture, memory: Shared, next: Shared) {
        assert(lock.waiter() == lock.waiter);
        assert(waits(lock) || !waits(lock));
        assert(lock_knows(lock, memory) ==> lock_knows(lock, next));
    }

    proof fn unlock_knows_frame(unlock: Unlock, memory: Shared, next: Shared) {
        assert(grip(unlock) == 0 || grip(unlock) != 0);
        assert(unlock_knows(unlock, memory) ==> unlock_knows(unlock, next));
    }

    proof fn try_obeys(attempt: TryLock, memory: Shared, reply: Reply, next: Shared) {
        words_of(memory.word, 0);
    }

    #[verifier::rlimit(50)]
    proof fn lock_obeys(lock: LockFuture, memory: Shared, reply: Reply, next: Shared) {
        words_of(memory.word, lock.waiter);
        assert(lock.waiter() == lock.waiter);
        assert(is_ready(memory, lock.waiter) || !is_ready(memory, lock.waiter));
    }

    #[verifier::rlimit(50)]
    proof fn lock_obeys_grip(
        lock: LockFuture,
        unlock: Unlock,
        memory: Shared,
        reply: Reply,
        next: Shared,
    ) {
        assert(lock.waiter() == lock.waiter);
        assert(grip(unlock) == lock.waiter);
    }

    #[verifier::rlimit(50)]
    proof fn unlock_obeys(unlock: Unlock, memory: Shared, reply: Reply, next: Shared) {
        words_of(memory.word, 0);
        assert(stage(unlock) is Idle || !(stage(unlock) is Idle));
    }

    #[verifier::rlimit(50)]
    proof fn unlock_obeys_lock(
        unlock: Unlock,
        lock: LockFuture,
        memory: Shared,
        reply: Reply,
        next: Shared,
    ) {
        assert(lock.waiter() == lock.waiter);
        assert(grip(unlock) == lock.waiter);
    }
}

impl Upkeep for Kind {
    open spec fn tends(unlock: Unlock) -> bool {
        match unlock {
            Unlock::Release | Unlock::Released => false,
            Unlock::Unpark { unpark } => !(unpark.step is Wake),
            _ => true,
        }
    }

    proof fn lock_is_up(lock: LockFuture, memory: Shared) {
        assert(lock.waiter() == lock.waiter);
    }

    proof fn unlock_is_up(unlock: Unlock) {
        assert(stage(unlock) is Idle || !(stage(unlock) is Idle));
    }

    proof fn try_tends(attempt: TryLock, memory: Shared, reply: Reply, next: Shared) {
        words_of(memory.word, 0);
    }

    #[verifier::rlimit(50)]
    proof fn lock_tends(lock: LockFuture, memory: Shared, reply: Reply, next: Shared) {
        assert(lock.waiter() == lock.waiter);
        words_of(memory.word, lock.waiter);
    }

    #[verifier::rlimit(50)]
    proof fn unlock_tends(unlock: Unlock, memory: Shared, reply: Reply, next: Shared) {
        words_of(memory.word, 0);
        assert(wakes::<Self>(unlock, reply) || !wakes::<Self>(unlock, reply));
    }

    proof fn lock_inherits(
        unlock: Unlock,
        lock: LockFuture,
        memory: Shared,
        reply: Reply,
        next: Shared,
    ) {
        assert(lock.waiter() == lock.waiter);
        assert(grip(unlock) == lock.waiter);
    }
}

impl Tenure for Kind {
    proof fn lock_is_handed(lock: LockFuture, memory: Shared) {
        assert(lock.waiter() == lock.waiter);
    }

    proof fn try_keeps(attempt: TryLock, memory: Shared, reply: Reply, next: Shared) {
        words_of(memory.word, 0);
    }

    proof fn lock_keeps(lock: LockFuture, memory: Shared, reply: Reply, next: Shared) {
        assert(lock.waiter() == lock.waiter);
        words_of(memory.word, lock.waiter);
    }

    proof fn unlock_keeps(unlock: Unlock, memory: Shared, reply: Reply, next: Shared) {
        words_of(memory.word, 0);
        assert(stage(unlock) is Idle || !(stage(unlock) is Idle));
    }
}

/// At every point of every history, [`Lock::is_locked`]
/// answers `true` exactly when some thread holds the lock, which is when
/// [`Lock::try_lock`] would fail, whoever waits; and it changes nothing.
pub proof fn is_locked_finds_the_holder(
    systems: Seq<System<Kind>>,
    who: Seq<int>,
    replies: Seq<Reply>,
    i: int,
)
    requires
        history(systems, who, replies),
        0 <= i < systems.len(),
    ensures
        ({
            let memory = systems[i].memory;
            let held = exists|t: int| holds(#[trigger] (systems[i].threads)(t), memory);
            &&& alone(IsLocked::LoadWord, memory, 1) == (IsLocked::Done { held }, memory)
            &&& held <==> alone(TryLock::LoadWord, memory, 2).0 is Failed
        }),
{
    assert forall|word: usize| #[trigger] Kind::is_held(word) == is_locked(word) by {
    }
    look_finds_the_holder(systems, who, replies, i);
}

impl LockOwners for Kind {
    open spec fn is_set(memory: Shared, node: usize) -> bool {
        wake_of(memory, node) == WAITING && (memory.wakers)(node)
    }

    open spec fn is_live(memory: Shared, node: usize) -> bool {
        let wake = wake_of(memory, node);
        (wake == WAITING || wake == CONSUMING) && (memory.wakers)(node)
    }

    open spec fn pends(lock: LockFuture) -> bool {
        lock.step is Pending
    }

    open spec fn trusts(lock: LockFuture) -> bool {
        match lock.step {
            LockStep::Prepare { prepare, .. } => prepare.step is SetWaiting,
            LockStep::Poll { poll } => poll.step is EndUpdate,
            _ => false,
        }
    }

    open spec fn trusts_if_set(lock: LockFuture) -> bool {
        !(lock.step is Poll)
    }

    open spec fn leaves(lock: LockFuture) -> bool {
        match lock.step {
            LockStep::Pending => true,
            LockStep::Poll { poll } => poll.step is Load || poll.step is BeginUpdate,
            _ => false,
        }
    }
}

impl QueueOwners for Kind {
    proof fn of_polls(lock: LockFuture, memory: Shared) {
        assert(lock.waiter() == lock.waiter);
    }

    proof fn waker_frame(memory: Shared, next: Shared, node: usize) {
        assert(Self::is_set(next, node) == Self::is_set(memory, node));
    }

    proof fn lock_sees_to(lock: LockFuture, memory: Shared, reply: Reply, next: Shared) {
        assert(lock.waiter() == lock.waiter);
    }

    proof fn try_stores_none(attempt: TryLock) {
        assert(!(attempt.wants() is StoreWaker));
    }

    proof fn unlock_stores_none(unlock: Unlock) {
        assert(grip(unlock) == 0 || grip(unlock) != 0);
    }

    proof fn unlock_gives_none(unlock: Unlock, memory: Shared, reply: Reply, next: Shared) {
        assert(grip(unlock) == 0 || grip(unlock) != 0);
    }

    proof fn unlock_takes(unlock: Unlock, lock: LockFuture, memory: Shared) {
        assert(lock.waiter() == lock.waiter);
        assert(grip(unlock) == lock.waiter);
    }
}

impl Keeps<Debt> for Unlock {
    open spec fn fits(&self, ledger: Debt) -> bool {
        &&& match *self {
            Unlock::Unpark { unpark } => match unpark.step {
                UnparkStep::SetNotified => ledger.taken == Some(unpark.node),
                UnparkStep::Wake => ledger.taken is Some && ledger.told == ledger.taken,
                _ => ledger.taken is None,
            },
            _ => ledger.taken is None,
        }
        &&& !ledger.missed
        &&& !ledger.lends
    }

    proof fn goes_on(operation: Self, ledger: Debt, reply: Reply) {
    }

    proof fn obeys(operation: Self, ledger: Debt) {
    }
}

/// An unlock that took the waker of a waiter wakes it before it is over, once
/// it has stored the wake state. It takes no waker where there is none.
pub proof fn unlock_wakes_whom_it_took(first: Unlock, replies: Seq<Reply>, i: int, j: int)
    requires
        first.wf(),
        first.begins(),
        is_course(first, replies),
        0 <= i < j <= replies.len(),
    ensures
        ledger(first, replies, Debt::none(), j).allows(point(first, replies, j).wants()),
        !ledger(first, replies, Debt::none(), j).missed,
        ({
            &&& point(first, replies, i).wants() is TakeWaker
            &&& replies[i].ok
            &&& point(first, replies, j).wants() is Done
        }) ==> exists|k: int| i < k < j && #[trigger] point(first, replies, k).wants() is Wake,
{
    always_allowed(first, replies, Debt::none(), j);
    if point(first, replies, i).wants() is TakeWaker && replies[i].ok && point(
        first,
        replies,
        j,
    ).wants() is Done {
        taken_waker_is_woken(first, replies, Debt::none(), i, j);
    }
}

impl Signs for Kind {
    open spec fn is_up(wake: usize) -> bool {
        wake % 4 == NOTIFIED
    }
}

impl Keeps<Wait<Kind>> for LockFuture {
    open spec fn fits(&self, ledger: Wait<Kind>) -> bool {
        &&& ledger.node == self.waiter
        &&& ledger.drops
        &&& match self.step {
            LockStep::Fast => ledger.is_free() && ledger.word is None,
            LockStep::LoadWord { .. } => ledger.is_free(),
            LockStep::Yield { state, .. }
            | LockStep::SetNext { state, .. }
            | LockStep::SetTail { state, .. } => {
                &&& ledger.is_free()
                &&& ledger.word == Some(state)
            },
            LockStep::Prepare { state, prepare, .. } => {
                &&& ledger.is_free()
                &&& ledger.word == Some(state)
                &&& prepare.step is SetWaiting ==> ledger.waker
            },
            LockStep::Exchange { state, .. } => {
                &&& ledger.is_free()
                &&& ledger.word == Some(state)
                &&& is_locked(state) ==> ledger.is_ready()
            },
            LockStep::Pending => {
                &&& !ledger.took
                &&& ledger.queued
                &&& ledger.is_down()
                &&& !ledger.updating
                &&& !ledger.late
            },
            LockStep::Poll { poll } => match poll.step {
                PollStep::Load | PollStep::BeginUpdate { .. } => {
                    &&& !ledger.took
                    &&& ledger.queued
                    &&& !ledger.updating
                    &&& !ledger.late
                },
                PollStep::CheckWaker | PollStep::Compare | PollStep::ReplaceWaker => {
                    &&& !ledger.took
                    &&& ledger.queued
                    &&& ledger.updating
                    &&& !ledger.late
                },
                PollStep::EndUpdate => {
                    &&& !ledger.took
                    &&& ledger.queued
                    &&& ledger.updating
                    &&& ledger.fresh
                    &&& !ledger.late
                },
                PollStep::DropLate { .. } => {
                    &&& !ledger.took
                    &&& !ledger.queued
                    &&& !ledger.updating
                    &&& ledger.late
                },
                PollStep::Done { .. } => false,
            },
            LockStep::Locked => ledger.took && !ledger.updating && !ledger.late,
        }
    }

    #[verifier::spinoff_prover]
    #[verifier::rlimit(40)]
    proof fn goes_on(operation: Self, ledger: Wait<Kind>, reply: Reply) {
    }

    proof fn obeys(operation: Self, ledger: Wait<Kind>) {
    }
}

/// An attempt is over exactly when it has the lock. It joins the queue ready to
/// be woken, waits only if it saw since it waited last that it was not woken,
/// and is woken by the waker of its last poll.
pub proof fn attempt_waits_until_it_is_woken(first: LockFuture, replies: Seq<Reply>)
    requires
        first.wf(),
        first.begins(),
        is_course(first, replies),
    ensures
        ({
            let start = Wait::begin(Kind, first.waiter, true);
            let now = point(first, replies, replies.len() as int);
            let wait = ledger(first, replies, start, replies.len() as int);
            &&& wait.allows(now.wants())
            &&& now.step is Locked ==> wait.took
        }),
{
    let start = Wait::begin(Kind, first.waiter, true);
    always_allowed(first, replies, start, replies.len() as int);
}

impl Crowd for Kind {
    open spec fn is_quiet(word: usize) -> bool {
        is_locked(word) && newest(word) == 0
    }

    open spec fn deadline(word: usize, node: usize) -> u32 {
        0
    }
}

impl Keeps<Waver<Kind>> for LockFuture {
    open spec fn fits(&self, ledger: Waver<Kind>) -> bool {
        &&& !ledger.forgets
        &&& !ledger.inside
        &&& !ledger.dates
        &&& match self.step {
            LockStep::Fast => {
                &&& ledger.word is None
                &&& ledger.count == 0
                &&& !ledger.just
                &&& !ledger.again
            },
            LockStep::LoadWord { spin } => {
                &&& ledger.count == spin
                &&& ledger.just ==> ledger.again
            },
            LockStep::Yield { state, spin } => {
                &&& ledger.word == Some(state)
                &&& ledger.count == spin
                &&& Kind::is_quiet(state)
                &&& ledger.just
                &&& !ledger.again
                &&& !ledger.refused
            },
            LockStep::SetNext { state, spin }
            | LockStep::SetTail { state, spin }
            | LockStep::Prepare { state, spin, .. }
            | LockStep::Exchange { state, spin } => {
                &&& ledger.word is Some
                &&& ledger.count == spin
                &&& Kind::is_quiet(state) ==> ledger.refused
                &&& ledger.has_to_ask() ==> false
                &&& !ledger.again
            },
            LockStep::Poll { poll } => {
                &&& !ledger.has_to_ask()
                &&& !ledger.again
                &&& poll.step is DropLate ==> ledger.count == 0 && !ledger.just
            },
            _ => !ledger.has_to_ask() && !ledger.again,
        }
    }

    #[verifier::spinoff_prover]
    #[verifier::rlimit(40)]
    proof fn goes_on(operation: Self, ledger: Waver<Kind>, reply: Reply) {
    }

    proof fn obeys(operation: Self, ledger: Waver<Kind>) {
    }
}

/// An attempt that finds the lock held and the queue empty asks the scheduler
/// whether to spin, and says how often it has done so since it was woken. It
/// looks again as long as it is told to, and joins the queue only when it is told
/// not to.
pub proof fn attempt_asks_before_it_queues(first: LockFuture, replies: Seq<Reply>)
    requires
        first.wf(),
        first.begins(),
        is_course(first, replies),
    ensures
        ({
            let start = Waver::begin(Kind, false, false);
            let now = point(first, replies, replies.len() as int);
            ledger(first, replies, start, replies.len() as int).allows(now.wants())
        }),
{
    let start = Waver::begin(Kind, false, false);
    always_allowed(first, replies, start, replies.len() as int);
}

/// Whoever takes the lock sees what was done under it before, whoever looks
/// through the queue sees the waiters in it, and a waiter that sees that it was
/// woken sees what was done before that.
#[verifier::spinoff_prover]
#[verifier::rlimit(40)]
pub proof fn what_was_done_is_seen(lock: LockFuture, unlock: Unlock)
    requires
        lock.wf(),
        unlock.wf(),
    ensures
        keeps_the_lock_visible(lock.wants()),
        keeps_the_lock_visible(unlock.wants()),
        keeps_the_queue_visible(lock.wants()),
        keeps_the_wake_visible(unlock.wants()),
        keeps_the_waker_visible(lock.wants(), UPDATING, CONSUMING),
        keeps_the_waker_visible(unlock.wants(), UPDATING, CONSUMING),
{
    lemma_masks();
    lemma_flag_masks();
}

} // verus!
