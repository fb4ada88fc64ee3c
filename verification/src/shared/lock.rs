//! A lock that can be handed to the oldest waiter, built on atomic wakers.
//!
//! The state word holds the held flag and the newest waiter. The thread that
//! holds the lock owns the queue. To unlock, it removes the oldest waiter and
//! notifies it: as the holder if it has waited past its deadline, and
//! otherwise to try again.
use vstd::prelude::*;
use crate::access::{Access, Link, Operation, Order, Place, Reply};
use crate::base::lock::deadline;
use crate::course::{Keeps, Ledger, always_allowed, is_course, ledger, point};
use crate::debt::{Debt, taken_waker_is_woken};
use crate::exclusion::{Encoding, LockKind, Party, wake_of};
use crate::handover::{self, Handover};
use crate::kernel::cpu::Hints;
use crate::memory::{Shared, alone};
use crate::owners::{LockOwners, QueueOwners};
use crate::patience::{Crowd, Waver};
use crate::queue::{Queued, Queueing, Stage, leads_to};
use crate::shared::atomic_waker::{
    AtomicWaker, CONSUMING, NOTIFIED, Notify, NotifyStep, PollStep, PollWaker, Polled, Prepare,
    PrepareStep, UPDATING, WAITING, lemma_notified, notified,
};
use crate::tail::{Search, link};
use crate::tenure::Tenure;
use crate::try_lock::{TryLock, try_lock_is_lawful};
use crate::upkeep::{Upkeep, wakes};
use crate::visibility::{
    keeps_the_lock_visible, keeps_the_queue_visible, keeps_the_wake_visible,
    keeps_the_waker_visible,
};
use crate::wait::{Signs, Wait};
use crate::words::{
    LOCKED, NOT_LOCKED, UNLOCKED, above_locked, is_locked, lemma_clear_locked, lemma_flag_masks,
    lemma_masks, set_locked, with_above_locked,
};

verus! {

/// The notification of a waiter that may look at the lock again.
pub const WAKER_NOTIFIED: usize = 0;

/// The notification of a waiter that holds the lock.
pub const WAKER_ACQUIRED: usize = 1;

/// A value, and the word that the lock's state starts from. The state itself is
/// the word of the shared memory that the operations work on.
#[derive(Debug)]
pub struct Lock<T> {
    state: usize,
    value: T,
}

/// Whether the address can be that of a waiter of this lock.
pub open spec fn is_waiter(node: usize) -> bool {
    node != 0 && node % 2 == 0
}

impl<T> Lock<T> {
    pub closed spec fn state(self) -> usize {
        self.state
    }

    pub closed spec fn value(self) -> T {
        self.value
    }

    pub fn new(value: T) -> (lock: Self)
        ensures
            lock.state() == UNLOCKED,
            lock.value() == value,
    {
        Lock { state: UNLOCKED, value }
    }

    /// Begins to take the lock if it is free.
    pub fn try_lock(&self) -> (attempt: TryLock)
        ensures
            attempt == TryLock::LoadWord,
            attempt.wf(),
            attempt.begins(),
    {
        TryLock::start()
    }

    /// Begins to take the lock as a task: the same operation as `lock`, with
    /// its waits left to the executor.
    pub fn lock_async(&self, waiter: usize) -> (future: LockFuture)
        requires
            is_waiter(waiter),
        ensures
            future == (LockFuture { waiter, step: LockStep::Fast }),
            future.wf(),
            future.begins(),
    {
        LockFuture { waiter, step: LockStep::Fast }
    }

    /// Begins to take the lock, waiting by the given waiter if need be.
    pub fn lock(&self, waiter: usize) -> (future: LockFuture)
        requires
            is_waiter(waiter),
        ensures
            future == (LockFuture { waiter, step: LockStep::Fast }),
            future.wf(),
            future.begins(),
    {
        LockFuture { waiter, step: LockStep::Fast }
    }

    /// Begins to give the lock up.
    pub fn unlock(&self) -> (unlock: Unlock)
        ensures
            unlock == Unlock::Release,
            unlock.wf(),
            unlock.begins(),
    {
        Unlock::Release
    }
}

/// How far an attempt to lock is.
#[derive(Clone, Copy, PartialEq, Eq, Structural, Debug)]
pub enum LockStep {
    /// Takes a lock that is free and has no waiters.
    Fast,
    LoadWord { spin: usize },
    /// Asks whether spinning is worth while.
    Yield { state: usize, spin: usize },
    /// Links the waiter in front of the newest one of `state`.
    SetPrev { state: usize, spin: usize },
    SetNext { state: usize, spin: usize },
    SetTail { state: usize, spin: usize },
    /// Makes the waker of the waiter ready.
    Prepare { state: usize, spin: usize, prepare: Prepare },
    CheckDeadline { state: usize, spin: usize },
    SetDeadline { state: usize, spin: usize },
    /// Takes the lock, or joins the queue, if the word is still `state`.
    Exchange { state: usize, spin: usize },
    /// Looks at whether the waiter was notified.
    Poll { poll: PollWaker },
    Pending,
    Locked,
}

/// An attempt to lock, and the waiter it waits by.
#[derive(Clone, Copy, PartialEq, Eq, Structural, Debug)]
pub struct LockFuture {
    pub waiter: usize,
    pub step: LockStep,
}

pub open spec fn spec_poll_lock(state: usize, spin: usize) -> LockStep {
    if !is_locked(state) {
        LockStep::Exchange { state, spin }
    } else if above_locked(state) == 0 {
        LockStep::Yield { state, spin }
    } else {
        LockStep::SetPrev { state, spin }
    }
}

/// What to do about a state word: take the lock if it is free, think about
/// spinning if nobody waits yet, and join the queue otherwise.
#[verifier::when_used_as_spec(spec_poll_lock)]
pub fn poll_lock(state: usize, spin: usize) -> (step: LockStep)
    ensures
        step == spec_poll_lock(state, spin),
{
    if !is_locked(state) {
        LockStep::Exchange { state, spin }
    } else if above_locked(state) == 0 {
        LockStep::Yield { state, spin }
    } else {
        LockStep::SetPrev { state, spin }
    }
}

pub open spec fn spec_exchanged(state: usize, node: usize) -> usize {
    if is_locked(state) {
        with_above_locked(state, node)
    } else {
        set_locked(state)
    }
}

/// The state word that an attempt puts in place of `state`: the waiter in
/// front, or the held flag set.
#[verifier::when_used_as_spec(spec_exchanged)]
pub fn exchanged(state: usize, node: usize) -> (word: usize)
    requires
        is_waiter(node),
    ensures
        word == spec_exchanged(state, node),
{
    if is_locked(state) {
        with_above_locked(state, node)
    } else {
        set_locked(state)
    }
}

pub open spec fn spec_prepared(state: usize, spin: usize, prepare: Prepare) -> LockStep {
    match prepare.step {
        PrepareStep::Done => LockStep::CheckDeadline { state, spin },
        _ => LockStep::Prepare { state, spin, prepare },
    }
}

/// Goes on once the waker is ready.
#[verifier::when_used_as_spec(spec_prepared)]
pub fn prepared(state: usize, spin: usize, prepare: Prepare) -> (step: LockStep)
    ensures
        step == spec_prepared(state, spin, prepare),
{
    match prepare.step {
        PrepareStep::Done => LockStep::CheckDeadline { state, spin },
        _ => LockStep::Prepare { state, spin, prepare },
    }
}

pub open spec fn spec_poll_wait(poll: PollWaker) -> LockStep {
    match poll.step {
        PollStep::Done { result: Polled::Pending } => LockStep::Pending,
        PollStep::Done { result: Polled::Ready(notification) } => if notification
            == WAKER_ACQUIRED {
            LockStep::Locked
        } else {
            LockStep::LoadWord { spin: 0 }
        },
        _ => LockStep::Poll { poll },
    }
}

/// Goes on once the waker was polled.
#[verifier::when_used_as_spec(spec_poll_wait)]
pub fn poll_wait(poll: PollWaker) -> (step: LockStep)
    ensures
        step == spec_poll_wait(poll),
{
    match poll.step {
        PollStep::Done { result: Polled::Pending } => LockStep::Pending,
        PollStep::Done { result: Polled::Ready(notification) } => if notification
            == WAKER_ACQUIRED {
            LockStep::Locked
        } else {
            LockStep::LoadWord { spin: 0 }
        },
        _ => LockStep::Poll { poll },
    }
}

pub open spec fn spec_is_known(poll: PollWaker) -> bool {
    match poll.step {
        PollStep::Done { result: Polled::Ready(notification) } => notification <= WAKER_ACQUIRED,
        _ => true,
    }
}

/// Whether a poll that is over gave one of the two notifications, if any.
#[verifier::when_used_as_spec(spec_is_known)]
pub fn is_known(poll: PollWaker) -> (known: bool)
    ensures
        known == spec_is_known(poll),
{
    match poll.step {
        PollStep::Done { result: Polled::Ready(notification) } => notification <= WAKER_ACQUIRED,
        _ => true,
    }
}

impl Operation for LockFuture {
    open spec fn wf(&self) -> bool {
        &&& is_waiter(self.waiter)
        &&& match self.step {
            LockStep::Yield { state, .. }
            | LockStep::SetPrev { state, .. }
            | LockStep::SetNext { state, .. }
            | LockStep::SetTail { state, .. }
            | LockStep::CheckDeadline { state, .. }
            | LockStep::SetDeadline { state, .. } => is_locked(state),
            LockStep::Prepare { state, prepare, .. } => {
                &&& is_locked(state)
                &&& prepare.wf()
                &&& prepare.node == self.waiter
                &&& !(prepare.step is Done)
            },
            LockStep::Poll { poll } => {
                &&& poll.wf()
                &&& poll.node == self.waiter
                &&& !(poll.step is Done)
            },
            _ => true,
        }
    }

    open spec fn wants(&self) -> Access {
        let node: usize = self.waiter;
        match self.step {
            LockStep::Fast => Access::CompareExchangeWeak(
                Place::Word,
                UNLOCKED,
                LOCKED,
                Order::Acquire,
                Order::Relaxed,
            ),
            LockStep::LoadWord { .. } => Access::Load(Place::Word, Order::Relaxed),
            LockStep::Yield { spin, .. } => Access::Yield(spin),
            LockStep::SetPrev { .. } => Access::Store(Place::Link(node, Link::Prev), 0, Order::Relaxed),
            LockStep::SetNext { state, .. } => Access::Store(
                Place::Link(node, Link::Next),
                above_locked(state),
                Order::Relaxed,
            ),
            LockStep::SetTail { state, .. } => Access::Store(
                Place::Link(node, Link::Tail),
                if above_locked(state) == 0 {
                    node
                } else {
                    0
                },
                Order::Relaxed,
            ),
            LockStep::Prepare { prepare, .. } => prepare.wants(),
            LockStep::CheckDeadline { .. } => Access::HasDeadline(node),
            LockStep::SetDeadline { state, .. } => Access::SetDeadline(node, deadline(state, node)),
            LockStep::Exchange { state, .. } => Access::CompareExchangeWeak(
                Place::Word,
                state,
                exchanged(state, node),
                Order::AcqRel,
                Order::Relaxed,
            ),
            LockStep::Pending => Access::Park,
            LockStep::Poll { poll } => poll.wants(),
            LockStep::Locked => Access::Done,
        }
    }

    /// Nobody but this thread polls the waker, and it is notified with one of the
    /// two notifications only.
    open spec fn expects(&self, reply: Reply) -> bool {
        match self.step {
            LockStep::Prepare { prepare, .. } => prepare.expects(reply),
            LockStep::Poll { poll } => poll.expects(reply) && is_known(poll.after(reply)),
            LockStep::Locked => false,
            _ => true,
        }
    }

    open spec fn after(&self, reply: Reply) -> Self {
        let step = match self.step {
            LockStep::Fast => if reply.ok {
                LockStep::Locked
            } else {
                LockStep::LoadWord { spin: 0 }
            },
            LockStep::LoadWord { spin } => poll_lock(reply.value, spin),
            LockStep::Yield { state, spin } => if reply.ok {
                LockStep::LoadWord { spin: spin.wrapping_add(1) }
            } else {
                LockStep::SetPrev { state, spin }
            },
            LockStep::SetPrev { state, spin } => LockStep::SetNext { state, spin },
            LockStep::SetNext { state, spin } => LockStep::SetTail { state, spin },
            LockStep::SetTail { state, spin } => LockStep::Prepare {
                state,
                spin,
                prepare: AtomicWaker::prepare_poll(self.waiter),
            },
            LockStep::Prepare { state, spin, prepare } => prepared(
                state,
                spin,
                prepare.after(reply),
            ),
            LockStep::CheckDeadline { state, spin } => if reply.ok {
                LockStep::Exchange { state, spin }
            } else {
                LockStep::SetDeadline { state, spin }
            },
            LockStep::SetDeadline { state, spin } => LockStep::Exchange { state, spin },
            LockStep::Exchange { state, spin } => if !reply.ok {
                poll_lock(reply.value, spin)
            } else if is_locked(state) {
                LockStep::Poll { poll: AtomicWaker::poll(self.waiter) }
            } else {
                LockStep::Locked
            },
            LockStep::Poll { poll } => poll_wait(poll.after(reply)),
            LockStep::Pending => LockStep::Poll { poll: AtomicWaker::poll(self.waiter) },
            LockStep::Locked => LockStep::Locked,
        };
        LockFuture { step, ..*self }
    }

    fn accepts(&self, reply: Reply) -> (accepted: bool) {
        match self.step {
            LockStep::Prepare { prepare, .. } => prepare.accepts(reply),
            LockStep::Poll { poll } => poll.accepts(reply) && is_known(poll.resumed(reply)),
            LockStep::Locked => false,
            _ => true,
        }
    }

    fn access(&self) -> (access: Access) {
        let node: usize = self.waiter;
        match self.step {
            LockStep::Fast => Access::CompareExchangeWeak(
                Place::Word,
                UNLOCKED,
                LOCKED,
                Order::Acquire,
                Order::Relaxed,
            ),
            LockStep::LoadWord { .. } => Access::Load(Place::Word, Order::Relaxed),
            LockStep::Yield { spin, .. } => Access::Yield(spin),
            LockStep::SetPrev { .. } => Access::Store(Place::Link(node, Link::Prev), 0, Order::Relaxed),
            LockStep::SetNext { state, .. } => Access::Store(
                Place::Link(node, Link::Next),
                above_locked(state),
                Order::Relaxed,
            ),
            LockStep::SetTail { state, .. } => Access::Store(
                Place::Link(node, Link::Tail),
                if above_locked(state) == 0 {
                    node
                } else {
                    0
                },
                Order::Relaxed,
            ),
            LockStep::Prepare { prepare, .. } => prepare.access(),
            LockStep::CheckDeadline { .. } => Access::HasDeadline(node),
            LockStep::SetDeadline { state, .. } => Access::SetDeadline(node, deadline(state, node)),
            LockStep::Exchange { state, .. } => Access::CompareExchangeWeak(
                Place::Word,
                state,
                exchanged(state, node),
                Order::AcqRel,
                Order::Relaxed,
            ),
            LockStep::Pending => Access::Park,
            LockStep::Poll { poll } => poll.access(),
            LockStep::Locked => Access::Done,
        }
    }

    fn resume(&mut self, reply: Reply, _hints: &mut Hints) {
        self.step =
        match self.step {
            LockStep::Fast => if reply.ok {
                LockStep::Locked
            } else {
                LockStep::LoadWord { spin: 0 }
            },
            LockStep::LoadWord { spin } => poll_lock(reply.value, spin),
            LockStep::Yield { state, spin } => if reply.ok {
                LockStep::LoadWord { spin: spin.wrapping_add(1) }
            } else {
                LockStep::SetPrev { state, spin }
            },
            LockStep::SetPrev { state, spin } => LockStep::SetNext { state, spin },
            LockStep::SetNext { state, spin } => LockStep::SetTail { state, spin },
            LockStep::SetTail { state, spin } => LockStep::Prepare {
                state,
                spin,
                prepare: AtomicWaker::prepare_poll(self.waiter),
            },
            LockStep::Prepare { state, spin, prepare } => prepared(
                state,
                spin,
                prepare.resumed(reply),
            ),
            LockStep::CheckDeadline { state, spin } => if reply.ok {
                LockStep::Exchange { state, spin }
            } else {
                LockStep::SetDeadline { state, spin }
            },
            LockStep::SetDeadline { state, spin } => LockStep::Exchange { state, spin },
            LockStep::Exchange { state, spin } => if !reply.ok {
                poll_lock(reply.value, spin)
            } else if is_locked(state) {
                LockStep::Poll { poll: AtomicWaker::poll(self.waiter) }
            } else {
                LockStep::Locked
            },
            LockStep::Poll { poll } => poll_wait(poll.resumed(reply)),
            LockStep::Pending => LockStep::Poll { poll: AtomicWaker::poll(self.waiter) },
            LockStep::Locked => LockStep::Locked,
        };
    }
}

impl Party for LockFuture {
    open spec fn begins(&self) -> bool {
        self.step is Fast
    }

    open spec fn holds(&self, memory: Shared) -> bool {
        ||| self.step is Locked
        ||| wake_of(memory, self.waiter) == notified(WAKER_ACQUIRED)
        ||| self.step matches LockStep::Poll { poll } && poll.step == (PollStep::DropLate {
            state: notified(WAKER_ACQUIRED),
        })
    }

    open spec fn waiter(&self) -> usize {
        self.waiter
    }

    open spec fn admits(&self, memory: Shared, reply: Reply) -> bool {
        true
    }
}

/// How far an unlock is. `fair` says whether the oldest waiter is handed the
/// lock; while it is looked for, `settled` holds the answer, if there is one.
#[derive(Clone, Copy, PartialEq, Eq, Structural, Debug)]
pub enum Unlock {
    /// Clears the held flag of a lock that has no waiters.
    Release,
    LoadWord,
    /// Looks for the oldest waiter.
    Find { state: usize, settled: Option<bool>, search: Search },
    /// Asks whether the oldest waiter has waited long enough.
    CheckDeadline { state: usize, tail: usize },
    LoadPrev { state: usize, tail: usize, fair: bool },
    /// Makes the next oldest waiter the oldest one.
    SetTail { state: usize, tail: usize, prev: usize, fair: bool },
    ClearLocked { tail: usize },
    /// Empties the queue of its only waiter.
    Empty { state: usize, tail: usize, fair: bool },
    /// Notifies the waiter that was removed.
    Notify { fair: bool, notify: Notify },
    Wake,
    Released,
}

pub open spec fn spec_find(state: usize, settled: Option<bool>) -> Unlock {
    Unlock::Find { state, settled, search: Search::start(above_locked(state), true) }
}

/// Looks for the oldest waiter of a state word.
#[verifier::when_used_as_spec(spec_find)]
pub fn find(state: usize, settled: Option<bool>) -> (next: Unlock)
    requires
        above_locked(state) != 0,
    ensures
        next == spec_find(state, settled),
{
    Unlock::Find { state, settled, search: Search::start(above_locked(state), true) }
}

pub open spec fn spec_found(state: usize, tail: usize, settled: Option<bool>) -> Unlock {
    match settled {
        Some(fair) => Unlock::LoadPrev { state, tail, fair },
        None => Unlock::CheckDeadline { state, tail },
    }
}

/// Goes on once the oldest waiter is found. Whether to be fair is settled by the
/// first one that is found.
#[verifier::when_used_as_spec(spec_found)]
pub fn found(state: usize, tail: usize, settled: Option<bool>) -> (next: Unlock)
    ensures
        next == spec_found(state, tail, settled),
{
    match settled {
        Some(fair) => Unlock::LoadPrev { state, tail, fair },
        None => Unlock::CheckDeadline { state, tail },
    }
}

pub open spec fn spec_begin_wake(tail: usize, fair: bool) -> Unlock {
    Unlock::Notify {
        fair,
        notify: AtomicWaker::notify(
            tail,
            if fair {
                WAKER_ACQUIRED
            } else {
                WAKER_NOTIFIED
            },
        ),
    }
}

/// Begins to notify the waiter that was removed.
#[verifier::when_used_as_spec(spec_begin_wake)]
pub fn begin_wake(tail: usize, fair: bool) -> (next: Unlock)
    ensures
        next == spec_begin_wake(tail, fair),
{
    Unlock::Notify {
        fair,
        notify: AtomicWaker::notify(
            tail,
            if fair {
                WAKER_ACQUIRED
            } else {
                WAKER_NOTIFIED
            },
        ),
    }
}

pub open spec fn spec_woken(fair: bool, notify: Notify) -> Unlock {
    match notify.step {
        NotifyStep::Done { took: true } => Unlock::Wake,
        NotifyStep::Done { took: false } => Unlock::Released,
        _ => Unlock::Notify { fair, notify },
    }
}

/// Wakes the waker if it was taken.
#[verifier::when_used_as_spec(spec_woken)]
pub fn woken(fair: bool, notify: Notify) -> (next: Unlock)
    ensures
        next == spec_woken(fair, notify),
{
    match notify.step {
        NotifyStep::Done { took: true } => Unlock::Wake,
        NotifyStep::Done { took: false } => Unlock::Released,
        _ => Unlock::Notify { fair, notify },
    }
}

impl Operation for Unlock {
    open spec fn wf(&self) -> bool {
        match *self {
            Unlock::Find { state, search, .. } => {
                &&& search.wf()
                &&& search.found() is None
                &&& search.head == above_locked(state)
            },
            Unlock::Notify { fair, notify } => {
                &&& notify.wf()
                &&& !(notify.step is Done)
                &&& notify.notification == if fair {
                    WAKER_ACQUIRED
                } else {
                    WAKER_NOTIFIED
                }
            },
            _ => true,
        }
    }

    open spec fn wants(&self) -> Access {
        match *self {
            Unlock::Release => Access::CompareExchange(
                Place::Word,
                LOCKED,
                UNLOCKED,
                Order::Release,
                Order::Relaxed,
            ),
            Unlock::LoadWord => Access::Load(Place::Word, Order::Acquire),
            Unlock::Find { search, .. } => search.wants(),
            Unlock::CheckDeadline { tail, .. } => Access::Expired(tail),
            Unlock::LoadPrev { tail, .. } => Access::Load(
                Place::Link(tail, Link::Prev),
                Order::Relaxed,
            ),
            Unlock::SetTail { state, prev, .. } => Access::Store(
                Place::Link(above_locked(state), Link::Tail),
                prev,
                Order::Relaxed,
            ),
            Unlock::ClearLocked { .. } => Access::FetchAnd(Place::Word, NOT_LOCKED, Order::Release),
            Unlock::Empty { state, fair, .. } => Access::CompareExchangeWeak(
                Place::Word,
                state,
                if fair {
                    LOCKED
                } else {
                    UNLOCKED
                },
                Order::AcqRel,
                Order::Acquire,
            ),
            Unlock::Notify { notify, .. } => notify.wants(),
            Unlock::Wake => Access::Wake,
            Unlock::Released => Access::Done,
        }
    }

    /// The lock has waiters whenever its state word is anything but the held
    /// flag, and nobody else notifies a waiter that was removed.
    open spec fn expects(&self, reply: Reply) -> bool {
        match *self {
            Unlock::LoadWord => above_locked(reply.value) != 0,
            Unlock::Find { search, .. } => search.expects(reply),
            Unlock::Empty { .. } => reply.ok || above_locked(reply.value) != 0,
            Unlock::Notify { notify, .. } => notify.expects(reply),
            Unlock::Released => false,
            _ => true,
        }
    }

    open spec fn after(&self, reply: Reply) -> Self {
        match *self {
            Unlock::Release => if reply.ok {
                Unlock::Released
            } else {
                Unlock::LoadWord
            },
            Unlock::LoadWord => find(reply.value, None),
            Unlock::Find { state, settled, search } => {
                let next = search.after(reply);
                match next.found() {
                    Some(tail) => found(state, tail, settled),
                    None => Unlock::Find { state, settled, search: next },
                }
            },
            Unlock::CheckDeadline { state, tail } => Unlock::LoadPrev { state, tail, fair: reply.ok },
            Unlock::LoadPrev { state, tail, fair } => if reply.value == 0 {
                Unlock::Empty { state, tail, fair }
            } else {
                Unlock::SetTail { state, tail, prev: reply.value, fair }
            },
            Unlock::SetTail { tail, fair, .. } => if fair {
                begin_wake(tail, fair)
            } else {
                Unlock::ClearLocked { tail }
            },
            Unlock::ClearLocked { tail } => begin_wake(tail, false),
            Unlock::Empty { tail, fair, .. } => if reply.ok {
                begin_wake(tail, fair)
            } else {
                find(reply.value, Some(fair))
            },
            Unlock::Notify { fair, notify } => woken(fair, notify.after(reply)),
            Unlock::Wake => Unlock::Released,
            Unlock::Released => Unlock::Released,
        }
    }

    fn accepts(&self, reply: Reply) -> (accepted: bool) {
        match *self {
            Unlock::LoadWord => above_locked(reply.value) != 0,
            Unlock::Find { search, .. } => search.accepts(reply),
            Unlock::Empty { .. } => reply.ok || above_locked(reply.value) != 0,
            Unlock::Notify { notify, .. } => notify.accepts(reply),
            Unlock::Released => false,
            _ => true,
        }
    }

    fn access(&self) -> (access: Access) {
        match *self {
            Unlock::Release => Access::CompareExchange(
                Place::Word,
                LOCKED,
                UNLOCKED,
                Order::Release,
                Order::Relaxed,
            ),
            Unlock::LoadWord => Access::Load(Place::Word, Order::Acquire),
            Unlock::Find { search, .. } => search.access(),
            Unlock::CheckDeadline { tail, .. } => Access::Expired(tail),
            Unlock::LoadPrev { tail, .. } => Access::Load(
                Place::Link(tail, Link::Prev),
                Order::Relaxed,
            ),
            Unlock::SetTail { state, prev, .. } => Access::Store(
                Place::Link(above_locked(state), Link::Tail),
                prev,
                Order::Relaxed,
            ),
            Unlock::ClearLocked { .. } => Access::FetchAnd(Place::Word, NOT_LOCKED, Order::Release),
            Unlock::Empty { state, fair, .. } => Access::CompareExchangeWeak(
                Place::Word,
                state,
                if fair {
                    LOCKED
                } else {
                    UNLOCKED
                },
                Order::AcqRel,
                Order::Acquire,
            ),
            Unlock::Notify { notify, .. } => notify.access(),
            Unlock::Wake => Access::Wake,
            Unlock::Released => Access::Done,
        }
    }

    fn resume(&mut self, reply: Reply, _hints: &mut Hints) {
        *self =
        match *self {
            Unlock::Release => if reply.ok {
                Unlock::Released
            } else {
                Unlock::LoadWord
            },
            Unlock::LoadWord => find(reply.value, None),
            Unlock::Find { state, settled, search } => {
                let next = search.resumed(reply);
                match next.found() {
                    Some(tail) => found(state, tail, settled),
                    None => Unlock::Find { state, settled, search: next },
                }
            },
            Unlock::CheckDeadline { state, tail } => Unlock::LoadPrev { state, tail, fair: reply.ok },
            Unlock::LoadPrev { state, tail, fair } => if reply.value == 0 {
                Unlock::Empty { state, tail, fair }
            } else {
                Unlock::SetTail { state, tail, prev: reply.value, fair }
            },
            Unlock::SetTail { tail, fair, .. } => if fair {
                begin_wake(tail, fair)
            } else {
                Unlock::ClearLocked { tail }
            },
            Unlock::ClearLocked { tail } => begin_wake(tail, false),
            Unlock::Empty { tail, fair, .. } => if reply.ok {
                begin_wake(tail, fair)
            } else {
                find(reply.value, Some(fair))
            },
            Unlock::Notify { fair, notify } => woken(fair, notify.resumed(reply)),
            Unlock::Wake => Unlock::Released,
            Unlock::Released => Unlock::Released,
        };
    }
}

impl Party for Unlock {
    open spec fn begins(&self) -> bool {
        self is Release
    }

    open spec fn holds(&self, memory: Shared) -> bool {
        match *self {
            Unlock::Release
            | Unlock::LoadWord
            | Unlock::Find { .. }
            | Unlock::CheckDeadline { .. }
            | Unlock::LoadPrev { .. }
            | Unlock::SetTail { .. }
            | Unlock::ClearLocked { .. }
            | Unlock::Empty { .. } => true,
            Unlock::Notify { fair, .. } => fair,
            _ => false,
        }
    }

    open spec fn waiter(&self) -> usize {
        0
    }

    open spec fn admits(&self, memory: Shared, reply: Reply) -> bool {
        true
    }
}

/// Taking a free lock that nobody waits for and giving it up again, with nothing
/// in between, succeeds at once and leaves everything as it was.
pub proof fn undisturbed_round_trip(lock: LockFuture, unlock: Unlock, memory: Shared)
    requires
        lock.begins(),
        unlock.begins(),
        memory.word == UNLOCKED,
    ensures
        alone(lock, memory, 1) == (LockFuture { step: LockStep::Locked, ..lock }, Shared { word: LOCKED, ..memory }),
        alone(unlock, Shared { word: LOCKED, ..memory }, 1) == (Unlock::Released, memory),
{
    reveal_with_fuel(alone, 2);
}

/// The lock of this module, as [`crate::exclusion`], [`crate::queue`] and
/// [`crate::upkeep`] speak of it. Their laws hold of it, among them
/// [`crate::exclusion::mutual_exclusion`],
/// [`crate::queue::every_reply_is_expected`],
/// [`crate::queue::nobody_is_forgotten`] and
/// [`crate::upkeep::free_lock_is_not_left_alone`].
pub struct Kind;

impl Encoding for Kind {
    open spec fn is_held(word: usize) -> bool {
        is_locked(word)
    }

    /// A waiter that is notified as the holder has been handed the lock.
    open spec fn grants(wake: usize) -> bool {
        wake == notified(WAKER_ACQUIRED)
    }
}

impl LockKind for Kind {
    type Try = TryLock;

    type Lock = LockFuture;

    type Unlock = Unlock;

    proof fn try_frame(party: TryLock, memory: Shared, next: Shared) {
        assert(party.waiter() == 0 && party.holds(memory) == party.holds(next));
    }

    proof fn lock_frame(party: LockFuture, memory: Shared, next: Shared) {
        assert(party.waiter() != 0);
        assert(party.begins() ==> !party.holds(memory) || Self::grants(wake_of(memory, party.waiter())));
    }

    proof fn unlock_frame(party: Unlock, memory: Shared, next: Shared) {
        assert(party.waiter() == 0 && party.holds(memory) == party.holds(next));
    }

    proof fn lock_given_up(party: LockFuture, other: LockFuture, memory: Shared) {
        assert(party.gives_up(other) ==> other.waiter() == party.waiter() && other.holds(memory) == party.holds(memory));
    }

    proof fn try_step(party: TryLock, memory: Shared, reply: Reply, next: Shared) {
        try_lock_is_lawful::<Self>(party, memory, reply, next);
    }

    #[verifier::spinoff_prover]
    #[verifier::rlimit(50)]
    proof fn lock_step(party: LockFuture, memory: Shared, reply: Reply, next: Shared) {
        lemma_notified(WAKER_ACQUIRED);
    }

    #[verifier::spinoff_prover]
    #[verifier::rlimit(50)]
    proof fn unlock_step(party: Unlock, memory: Shared, reply: Reply, next: Shared) {
        lemma_clear_locked(memory.word);
        lemma_notified(WAKER_ACQUIRED);
        lemma_notified(WAKER_NOTIFIED);
    }
}

/// Whether the waiter can be woken: its waker is ready, or being replaced.
pub open spec fn is_ready(memory: Shared, node: usize) -> bool {
    &&& node != 0
    &&& wake_of(memory, node) == WAITING && (memory.wakers)(node) || wake_of(memory, node)
        == UPDATING
}

/// Whether the waiter was notified.
pub open spec fn is_woken(memory: Shared, node: usize) -> bool {
    wake_of(memory, node) == notified(WAKER_NOTIFIED) || wake_of(memory, node) == notified(
        WAKER_ACQUIRED,
    )
}

/// Whether an attempt to lock waits by its waiter.
pub open spec fn waits(lock: LockFuture) -> bool {
    lock.step is Poll || lock.step is Pending
}

/// What an attempt to lock knows about its waiter.
pub open spec fn lock_knows(lock: LockFuture, memory: Shared) -> bool {
    let node = lock.waiter;
    let wake = wake_of(memory, node);
    let waker = (memory.wakers)(node);
    let stored = wake == WAITING && waker;
    let unused = wake != notified(WAKER_ACQUIRED) && (waker ==> stored);
    let left_alone = stored || wake == CONSUMING || is_woken(memory, node) && !waker;
    match lock.step {
        LockStep::Locked => true,
        LockStep::Fast | LockStep::LoadWord { .. } | LockStep::Yield { .. } | LockStep::SetPrev {
            ..
        } => unused,
        LockStep::SetNext { .. } => {
            &&& unused
            &&& link(memory, node, Link::Prev) == 0
        },
        LockStep::SetTail { state, .. } => {
            &&& unused
            &&& link(memory, node, Link::Prev) == 0
            &&& link(memory, node, Link::Next) == above_locked(state)
        },
        LockStep::Prepare { state, prepare, .. } => {
            &&& leads_to(memory, node, above_locked(state))
            &&& match prepare.step {
                PrepareStep::Check => unused,
                PrepareStep::SetWaker => wake != notified(WAKER_ACQUIRED),
                PrepareStep::SetWaiting => wake != notified(WAKER_ACQUIRED) && waker,
                PrepareStep::Done => stored,
            }
        },
        LockStep::CheckDeadline { state, .. } | LockStep::SetDeadline { state, .. } => {
            &&& stored
            &&& leads_to(memory, node, above_locked(state))
        },
        LockStep::Exchange { state, .. } => {
            &&& unused
            &&& is_locked(state) ==> stored && leads_to(memory, node, above_locked(state))
        },
        LockStep::Pending => left_alone,
        LockStep::Poll { poll } => match poll.step {
            PollStep::Load | PollStep::BeginUpdate | PollStep::Done { .. } => left_alone,
            PollStep::ReplaceWaker => wake == UPDATING || is_woken(memory, node),
            PollStep::EndUpdate => (wake == UPDATING || is_woken(memory, node)) && waker,
            PollStep::DropLate { state } => wake == state && is_woken(memory, node),
        },
    }
}

/// The part that an unlock has in the queue.
pub open spec fn stage(unlock: Unlock) -> Stage {
    match unlock {
        Unlock::LoadWord => Stage::Poised,
        Unlock::Find { state, search, .. } => Stage::Find { head: above_locked(state), search },
        Unlock::CheckDeadline { state, tail } | Unlock::LoadPrev { state, tail, .. } => {
            Stage::Found { head: above_locked(state), tail }
        },
        Unlock::SetTail { state, tail, prev, .. } => Stage::Cut {
            head: above_locked(state),
            tail,
            prev,
        },
        Unlock::Empty { state, tail, .. } => Stage::Last { head: above_locked(state), tail },
        Unlock::ClearLocked { .. } => Stage::Leaving,
        _ => Stage::Idle,
    }
}

/// The waiter that an unlock has taken off the queue and not woken yet, or 0.
pub open spec fn grip(unlock: Unlock) -> usize {
    match unlock {
        Unlock::ClearLocked { tail } => tail,
        Unlock::Notify { notify, .. } => notify.node,
        _ => 0,
    }
}

/// What an unlock knows about that waiter.
pub open spec fn unlock_knows(unlock: Unlock, memory: Shared) -> bool {
    match unlock {
        Unlock::ClearLocked { tail } => is_ready(memory, tail),
        Unlock::Notify { notify, .. } => {
            let wake = wake_of(memory, notify.node);
            let waker = (memory.wakers)(notify.node);
            &&& notify.node != 0
            &&& match notify.step {
                NotifyStep::Load | NotifyStep::Consume | NotifyStep::Interrupt => is_ready(
                    memory,
                    notify.node,
                ),
                NotifyStep::Take => wake == CONSUMING && waker,
                NotifyStep::SetNotified => wake == CONSUMING && !waker,
                NotifyStep::Done { .. } => false,
            }
        },
        _ => true,
    }
}

impl Queued for Kind {
    open spec fn newest(word: usize) -> usize {
        above_locked(word)
    }

    open spec fn is_node(node: usize) -> bool {
        is_waiter(node)
    }

    open spec fn flagged() -> bool {
        false
    }

    open spec fn flag(word: usize) -> bool {
        false
    }

    open spec fn is_tidy(word: usize) -> bool {
        true
    }

    open spec fn ready(memory: Shared, node: usize) -> bool {
        is_ready(memory, node)
    }

    open spec fn woken(memory: Shared, node: usize) -> bool {
        is_woken(memory, node)
    }

    open spec fn fresh(memory: Shared, node: usize) -> bool {
        wake_of(memory, node) != notified(WAKER_ACQUIRED) && !(memory.wakers)(node)
    }

    open spec fn waits(lock: LockFuture) -> bool {
        waits(lock)
    }

    open spec fn joins(lock: LockFuture, reply: Reply) -> bool {
        lock.step matches LockStep::Exchange { state, .. } && reply.ok && is_locked(state)
    }

    open spec fn lock_knows(lock: LockFuture, memory: Shared) -> bool {
        lock_knows(lock, memory)
    }

    open spec fn carries(lock: LockFuture, memory: Shared) -> bool {
        false
    }

    open spec fn stage(unlock: Unlock) -> Stage {
        stage(unlock)
    }

    open spec fn reads_prev(unlock: Unlock) -> bool {
        unlock is LoadPrev
    }

    open spec fn grip(unlock: Unlock) -> usize {
        grip(unlock)
    }

    open spec fn passes(unlock: Unlock) -> bool {
        false
    }

    open spec fn unlock_knows(unlock: Unlock, memory: Shared) -> bool {
        unlock_knows(unlock, memory)
    }

    open spec fn lock_admits(lock: LockFuture, memory: Shared, reply: Reply) -> bool {
        true
    }

    open spec fn unlock_admits(unlock: Unlock, memory: Shared, reply: Reply) -> bool {
        true
    }
}

/// The state word with another newest waiter, and with its held flag changed.
proof fn words_of(word: usize, node: usize)
    requires
        node % 2 == 0,
    ensures
        above_locked(with_above_locked(word, node)) == node,
        is_locked(with_above_locked(word, node)) == is_locked(word),
        above_locked(set_locked(word)) == above_locked(word),
        above_locked((word & NOT_LOCKED)) == above_locked(word),
        is_locked(word) && word != LOCKED ==> above_locked(word) != 0,
        above_locked(LOCKED) == 0,
        above_locked(UNLOCKED) == 0,
{
    lemma_clear_locked(word);
}

impl Queueing for Kind {
    proof fn of_nodes(memory: Shared, node: usize) {
        assert(is_ready(memory, node) || !is_ready(memory, node));
    }

    proof fn node_frame(memory: Shared, next: Shared, node: usize) {
        assert(is_ready(memory, node) == is_ready(next, node));
    }

    proof fn lock_knows_frame(lock: LockFuture, memory: Shared, next: Shared) {
        assert(lock.waiter() == lock.waiter);
        assert(waits(lock) || !waits(lock));
        assert(lock_knows(lock, memory) ==> lock_knows(lock, next));
    }

    proof fn unlock_knows_frame(unlock: Unlock, memory: Shared, next: Shared) {
        assert(grip(unlock) == 0 || grip(unlock) != 0);
        assert(unlock_knows(unlock, memory) ==> unlock_knows(unlock, next));
    }

    proof fn try_obeys(attempt: TryLock, memory: Shared, reply: Reply, next: Shared) {
        words_of(memory.word, 0);
    }

    #[verifier::rlimit(50)]
    proof fn lock_obeys(lock: LockFuture, memory: Shared, reply: Reply, next: Shared) {
        words_of(memory.word, lock.waiter);
        assert(lock.waiter() == lock.waiter);
        assert(is_ready(memory, lock.waiter) || !is_ready(memory, lock.waiter));
    }

    #[verifier::rlimit(50)]
    proof fn lock_obeys_grip(
        lock: LockFuture,
        unlock: Unlock,
        memory: Shared,
        reply: Reply,
        next: Shared,
    ) {
        assert(lock.waiter() == lock.waiter);
        assert(grip(unlock) == lock.waiter);
    }

    #[verifier::rlimit(50)]
    proof fn unlock_obeys(unlock: Unlock, memory: Shared, reply: Reply, next: Shared) {
        words_of(memory.word, 0);
        assert(stage(unlock) is Idle || !(stage(unlock) is Idle));
    }

    #[verifier::rlimit(50)]
    proof fn unlock_obeys_lock(
        unlock: Unlock,
        lock: LockFuture,
        memory: Shared,
        reply: Reply,
        next: Shared,
    ) {
        assert(lock.waiter() == lock.waiter);
        assert(grip(unlock) == lock.waiter);
    }
}

impl Upkeep for Kind {
    open spec fn tends(unlock: Unlock) -> bool {
        !(unlock is Release || unlock is Wake || unlock is Released)
    }

    proof fn lock_is_up(lock: LockFuture, memory: Shared) {
        assert(lock.waiter() == lock.waiter);
    }

    proof fn unlock_is_up(unlock: Unlock) {
        assert(stage(unlock) is Idle || !(stage(unlock) is Idle));
    }

    proof fn try_tends(attempt: TryLock, memory: Shared, reply: Reply, next: Shared) {
        words_of(memory.word, 0);
    }

    #[verifier::rlimit(50)]
    proof fn lock_tends(lock: LockFuture, memory: Shared, reply: Reply, next: Shared) {
        assert(lock.waiter() == lock.waiter);
        words_of(memory.word, lock.waiter);
    }

    #[verifier::rlimit(50)]
    proof fn unlock_tends(unlock: Unlock, memory: Shared, reply: Reply, next: Shared) {
        words_of(memory.word, 0);
        assert(wakes::<Self>(unlock, reply) || !wakes::<Self>(unlock, reply));
    }

    proof fn lock_inherits(
        unlock: Unlock,
        lock: LockFuture,
        memory: Shared,
        reply: Reply,
        next: Shared,
    ) {
        assert(lock.waiter() == lock.waiter);
        assert(grip(unlock) == lock.waiter);
    }
}

impl Tenure for Kind {
    proof fn lock_is_handed(lock: LockFuture, memory: Shared) {
        assert(lock.waiter() == lock.waiter);
    }

    proof fn try_keeps(attempt: TryLock, memory: Shared, reply: Reply, next: Shared) {
        words_of(memory.word, 0);
    }

    proof fn lock_keeps(lock: LockFuture, memory: Shared, reply: Reply, next: Shared) {
        assert(lock.waiter() == lock.waiter);
        words_of(memory.word, lock.waiter);
    }

    proof fn unlock_keeps(unlock: Unlock, memory: Shared, reply: Reply, next: Shared) {
        lemma_clear_locked(memory.word);
        lemma_notified(WAKER_ACQUIRED);
        lemma_notified(WAKER_NOTIFIED);
        words_of(memory.word, 0);
        assert(grip(unlock) == 0 || grip(unlock) != 0);
        assert(Self::grants(notified(WAKER_ACQUIRED)));
    }
}

impl LockOwners for Kind {
    open spec fn is_set(memory: Shared, node: usize) -> bool {
        wake_of(memory, node) == WAITING && (memory.wakers)(node)
    }

    open spec fn is_live(memory: Shared, node: usize) -> bool {
        let wake = wake_of(memory, node);
        (wake == WAITING || wake == CONSUMING) && (memory.wakers)(node)
    }

    open spec fn pends(lock: LockFuture) -> bool {
        lock.step is Pending
    }

    open spec fn trusts(lock: LockFuture) -> bool {
        match lock.step {
            LockStep::Prepare { prepare, .. } => prepare.step is SetWaiting,
            LockStep::Poll { poll } => poll.step is EndUpdate,
            _ => false,
        }
    }

    open spec fn trusts_if_set(lock: LockFuture) -> bool {
        !(lock.step is Poll)
    }

    open spec fn leaves(lock: LockFuture) -> bool {
        match lock.step {
            LockStep::Pending => true,
            LockStep::Poll { poll } => poll.step is Load || poll.step is BeginUpdate,
            _ => false,
        }
    }
}

impl QueueOwners for Kind {
    proof fn of_polls(lock: LockFuture, memory: Shared) {
        assert(lock.waiter() == lock.waiter);
    }

    proof fn waker_frame(memory: Shared, next: Shared, node: usize) {
        assert(Self::is_set(next, node) == Self::is_set(memory, node));
    }

    proof fn lock_sees_to(lock: LockFuture, memory: Shared, reply: Reply, next: Shared) {
        assert(lock.waiter() == lock.waiter);
        lemma_notified(WAKER_ACQUIRED);
        lemma_notified(WAKER_NOTIFIED);
    }

    proof fn try_stores_none(attempt: TryLock) {
        assert(!(attempt.wants() is StoreWaker));
    }

    proof fn unlock_stores_none(unlock: Unlock) {
        assert(grip(unlock) == 0 || grip(unlock) != 0);
    }

    proof fn unlock_gives_none(unlock: Unlock, memory: Shared, reply: Reply, next: Shared) {
        assert(grip(unlock) == 0 || grip(unlock) != 0);
    }

    proof fn unlock_takes(unlock: Unlock, lock: LockFuture, memory: Shared) {
        assert(lock.waiter() == lock.waiter);
        assert(grip(unlock) == lock.waiter);
    }
}

impl Keeps<Debt> for Unlock {
    open spec fn fits(&self, ledger: Debt) -> bool {
        &&& match *self {
            Unlock::Notify { notify, .. } => if notify.step is SetNotified {
                ledger.taken == Some(notify.node)
            } else {
                ledger.taken is None
            },
            Unlock::Wake => ledger.taken is Some && ledger.told == ledger.taken,
            _ => ledger.taken is None,
        }
        &&& !ledger.missed
        &&& !ledger.lends
    }

    proof fn goes_on(operation: Self, ledger: Debt, reply: Reply) {
    }

    proof fn obeys(operation: Self, ledger: Debt) {
    }
}

/// An unlock that took the waker of a waiter wakes it before it is over, once
/// it has stored the wake state. It takes no waker where there is none.
pub proof fn unlock_wakes_whom_it_took(first: Unlock, replies: Seq<Reply>, i: int, j: int)
    requires
        first.wf(),
        first.begins(),
        is_course(first, replies),
        0 <= i < j <= replies.len(),
    ensures
        ledger(first, replies, Debt::none(), j).allows(point(first, replies, j).wants()),
        !ledger(first, replies, Debt::none(), j).missed,
        ({
            &&& point(first, replies, i).wants() is TakeWaker
            &&& replies[i].ok
            &&& point(first, replies, j).wants() is Done
        }) ==> exists|k: int| i < k < j && #[trigger] point(first, replies, k).wants() is Wake,
{
    always_allowed(first, replies, Debt::none(), j);
    if point(first, replies, i).wants() is TakeWaker && replies[i].ok && point(
        first,
        replies,
        j,
    ).wants() is Done {
        taken_waker_is_woken(first, replies, Debt::none(), i, j);
    }
}

impl Keeps<Handover> for Unlock {
    open spec fn fits(&self, ledger: Handover) -> bool {
        &&& ledger.grant == notified(WAKER_ACQUIRED)
        &&& ledger.lenient
        &&& !(self is Notify || self is Wake || self is Released) ==> ledger.wake is None
        &&& !ledger.wish
        &&& !ledger.flagged
        &&& !ledger.popped
        &&& ledger.due
        &&& match *self {
            Unlock::Release | Unlock::LoadWord | Unlock::CheckDeadline { .. } => {
                &&& ledger.fair is None
                &&& !ledger.released
            },
            Unlock::Find { settled, .. } => ledger.fair == settled && !ledger.released,
            Unlock::LoadPrev { fair, .. }
            | Unlock::SetTail { fair, .. }
            | Unlock::Empty { fair, .. } => ledger.fair == Some(fair) && !ledger.released,
            Unlock::ClearLocked { .. } => ledger.fair == Some(false) && !ledger.released,
            Unlock::Notify { fair, notify } => {
                &&& ledger.fair == Some(fair)
                &&& ledger.released == !fair
                &&& (notify.step is Take || notify.step is SetNotified) == (ledger.wake is Some)
                &&& notify.notification == if fair {
                    WAKER_ACQUIRED
                } else {
                    WAKER_NOTIFIED
                }
            },
            Unlock::Wake => {
                &&& ledger.fair is Some
                &&& ledger.released == (ledger.fair == Some(false))
                &&& ledger.is_settled()
            },
            Unlock::Released => {
                &&& ledger.released == (ledger.fair != Some(true))
                &&& ledger.is_settled()
            },
        }
    }

    proof fn goes_on(operation: Self, ledger: Handover, reply: Reply) {
        lemma_masks();
        assert(notified(WAKER_ACQUIRED) == 7 && notified(WAKER_NOTIFIED) == 3);
    }

    proof fn obeys(operation: Self, ledger: Handover) {
        lemma_masks();
    }
}

/// An unlock that finds waiters asks once whether the oldest one has waited too
/// long. If so, the held flag stays set throughout and that waiter is made the
/// holder, however many waiters are left in the queue. If not, the held flag is
/// cleared and the waiter has to try again. A waiter that was notified already
/// is left as it is.
pub proof fn unlock_hands_over_or_releases(first: Unlock, replies: Seq<Reply>)
    requires
        first.begins(),
        is_course(first, replies),
    ensures
        ({
            let start = Handover {
                lenient: true,
                ..Handover::by_deadline(notified(WAKER_ACQUIRED))
            };
            let now = point(first, replies, replies.len() as int);
            let course = ledger(first, replies, start, replies.len() as int);
            &&& course.allows(now.wants())
            &&& now.wants() is Done ==> {
                &&& course.released == (course.fair != Some(true))
                &&& course.fair is Some && !course.is_moot() ==> (course.wake == Some(notified(WAKER_ACQUIRED))) == (course.fair
                    == Some(true))
            }
        }),
{
    let start = Handover { lenient: true, ..Handover::by_deadline(notified(WAKER_ACQUIRED)) };
    always_allowed(first, replies, start, replies.len() as int);
    handover::terms_stay(first, replies, start, replies.len() as int);
}

impl Signs for Kind {
    open spec fn is_up(wake: usize) -> bool {
        wake % 4 == NOTIFIED
    }
}

impl Keeps<Wait<Kind>> for LockFuture {
    open spec fn fits(&self, ledger: Wait<Kind>) -> bool {
        &&& ledger.node == self.waiter
        &&& ledger.drops
        &&& match self.step {
            LockStep::Fast => ledger.is_free() && ledger.word is None,
            LockStep::LoadWord { .. } => ledger.is_free(),
            LockStep::Yield { state, .. }
            | LockStep::SetPrev { state, .. }
            | LockStep::SetNext { state, .. }
            | LockStep::SetTail { state, .. } => {
                &&& ledger.is_free()
                &&& ledger.word == Some(state)
            },
            LockStep::Prepare { state, prepare, .. } => {
                &&& ledger.is_free()
                &&& ledger.word == Some(state)
                &&& prepare.step is SetWaiting ==> ledger.waker
            },
            LockStep::CheckDeadline { state, .. } | LockStep::SetDeadline { state, .. } => {
                &&& ledger.is_free()
                &&& ledger.word == Some(state)
                &&& ledger.is_ready()
            },
            LockStep::Exchange { state, .. } => {
                &&& ledger.is_free()
                &&& ledger.word == Some(state)
                &&& is_locked(state) ==> ledger.is_ready()
            },
            LockStep::Pending => {
                &&& !ledger.took
                &&& ledger.queued
                &&& ledger.is_down()
                &&& !ledger.updating
                &&& !ledger.late
            },
            LockStep::Poll { poll } => match poll.step {
                PollStep::Load | PollStep::BeginUpdate => {
                    &&& !ledger.took
                    &&& ledger.queued
                    &&& !ledger.updating
                    &&& !ledger.late
                },
                PollStep::ReplaceWaker => {
                    &&& !ledger.took
                    &&& ledger.queued
                    &&& ledger.updating
                    &&& !ledger.late
                },
                PollStep::EndUpdate => {
                    &&& !ledger.took
                    &&& ledger.queued
                    &&& ledger.updating
                    &&& ledger.fresh
                    &&& !ledger.late
                },
                PollStep::DropLate { state } => {
                    &&& ledger.took == (state == notified(WAKER_ACQUIRED))
                    &&& !ledger.queued
                    &&& !ledger.updating
                    &&& ledger.late
                },
                PollStep::Done { .. } => false,
            },
            LockStep::Locked => ledger.took && !ledger.updating && !ledger.late,
        }
    }

    #[verifier::spinoff_prover]
    #[verifier::rlimit(40)]
    proof fn goes_on(operation: Self, ledger: Wait<Kind>, reply: Reply) {
    }

    proof fn obeys(operation: Self, ledger: Wait<Kind>) {
    }
}

/// An attempt is over exactly when it has the lock. It joins the queue ready to
/// be woken, waits only if it saw since it waited last that it was not woken,
/// and is woken by the waker of its last poll.
pub proof fn attempt_waits_until_it_is_woken(first: LockFuture, replies: Seq<Reply>)
    requires
        first.wf(),
        first.begins(),
        is_course(first, replies),
    ensures
        ({
            let start = Wait::begin(Kind, first.waiter, true);
            let now = point(first, replies, replies.len() as int);
            let wait = ledger(first, replies, start, replies.len() as int);
            &&& wait.allows(now.wants())
            &&& now.step is Locked ==> wait.took
        }),
{
    let start = Wait::begin(Kind, first.waiter, true);
    always_allowed(first, replies, start, replies.len() as int);
}

impl Crowd for Kind {
    open spec fn is_quiet(word: usize) -> bool {
        is_locked(word) && above_locked(word) == 0
    }

    open spec fn deadline(word: usize, node: usize) -> u32 {
        deadline(word, node)
    }
}

impl Keeps<Waver<Kind>> for LockFuture {
    open spec fn fits(&self, ledger: Waver<Kind>) -> bool {
        &&& !ledger.forgets
        &&& !ledger.inside
        &&& ledger.dates
        &&& match self.step {
            LockStep::Fast => {
                &&& ledger.word is None
                &&& ledger.count == 0
                &&& !ledger.just
                &&& !ledger.again
            },
            LockStep::LoadWord { spin } => {
                &&& ledger.count == spin
                &&& ledger.just ==> ledger.again
            },
            LockStep::Yield { state, spin } => {
                &&& ledger.word == Some(state)
                &&& ledger.count == spin
                &&& Kind::is_quiet(state)
                &&& ledger.just
                &&& !ledger.again
                &&& !ledger.refused
            },
            LockStep::SetPrev { state, spin }
            | LockStep::SetNext { state, spin }
            | LockStep::SetTail { state, spin }
            | LockStep::Prepare { state, spin, .. }
            | LockStep::CheckDeadline { state, spin }
            | LockStep::SetDeadline { state, spin }
            | LockStep::Exchange { state, spin } => {
                &&& ledger.word == Some(state)
                &&& self.step is SetDeadline ==> !ledger.dated
                &&& self.step is Exchange && is_locked(state) ==> ledger.dated
                &&& ledger.count == spin
                &&& Kind::is_quiet(state) ==> ledger.refused
                &&& ledger.has_to_ask() ==> false
                &&& !ledger.again
            },
            LockStep::Poll { poll } => {
                &&& !ledger.has_to_ask()
                &&& !ledger.again
                &&& poll.step is DropLate ==> ledger.count == 0 && !ledger.just
            },
            _ => !ledger.has_to_ask() && !ledger.again,
        }
    }

    #[verifier::spinoff_prover]
    #[verifier::rlimit(40)]
    proof fn goes_on(operation: Self, ledger: Waver<Kind>, reply: Reply) {
    }

    proof fn obeys(operation: Self, ledger: Waver<Kind>) {
    }
}

/// An attempt that finds the lock held and the queue empty asks the scheduler
/// whether to spin, and says how often it has done so since it was woken. It
/// looks again as long as it is told to, and joins the queue only when it is told
/// not to.
pub proof fn attempt_asks_before_it_queues(first: LockFuture, replies: Seq<Reply>)
    requires
        first.wf(),
        first.begins(),
        is_course(first, replies),
    ensures
        ({
            let start = Waver::begin(Kind, false, true);
            let now = point(first, replies, replies.len() as int);
            ledger(first, replies, start, replies.len() as int).allows(now.wants())
        }),
{
    let start = Waver::begin(Kind, false, true);
    always_allowed(first, replies, start, replies.len() as int);
}

/// Whoever takes the lock sees what was done under it before, whoever looks
/// through the queue sees the waiters in it, and a waiter that sees that it was
/// woken sees what was done before that.
#[verifier::spinoff_prover]
#[verifier::rlimit(40)]
pub proof fn what_was_done_is_seen(lock: LockFuture, unlock: Unlock)
    requires
        lock.wf(),
        unlock.wf(),
    ensures
        keeps_the_lock_visible(lock.wants()),
        keeps_the_lock_visible(unlock.wants()),
        keeps_the_queue_visible(lock.wants()),
        keeps_the_wake_visible(unlock.wants()),
        keeps_the_waker_visible(lock.wants(), UPDATING, CONSUMING),
        keeps_the_waker_visible(unlock.wants(), UPDATING, CONSUMING),
{
    lemma_masks();
    lemma_flag_masks();
}

} // verus!
