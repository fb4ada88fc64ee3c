//! A mutex whose waiters may wait for a millisecond before they are preferred.
//!
//! The state word holds the held flag and the parked flag. The queue has a lock
//! of its own, and is touched under it only. A waiter sets the parked flag
//! before it joins the queue. Whoever unlocks takes the first waiter off; if
//! that one has waited past its deadline, or if the unlock is to be fair, it
//! wakes up as the holder. A waiter that gives up after it was made the holder
//! unlocks on behalf of itself.
use vstd::prelude::*;
use crate::access::{Access, Operation, Order, Place, Reply};
use crate::course::{Keeps, Ledger, always_allowed, is_course, ledger, point};
use crate::custody::{self, Custody, Held, is_clung_to};
use crate::debt::{Debt, taken_waker_is_woken};
use crate::exclusion::{Encoding, LockKind, Party, System, holds, wake_of};
use crate::handover::{self, Handover, asked};
use crate::kernel::cpu::Hints;
use crate::memory::{Shared, alone, performs};
use crate::owners::{LockOwners, ParkOwners};
use crate::parking::{
    Parking, Parks, Stand, goes_on, history, is_in_order, nowhere, stands, without_one,
};
use crate::patience::{Crowd, Waver};
use crate::shared::list::List;
use crate::try_lock::{TryLock, try_lock_is_lawful};
use crate::vigil::{Vigil, Watched, lock_is_up};
use crate::visibility::keeps_the_lock_visible;
use crate::visit::{Visit, terms_stay};
use crate::words::{
    FLAGS, LOCKED, SECOND, UNLOCKED, has_second, is_locked, lemma_masks,
    lemma_tagged_word, set_locked, set_second,
};

verus! {

/// The wait state of a waiter that is not in use.
pub const EMPTY: usize = 0;

/// The wait state of a waiter in the queue.
pub const WAITING: usize = 1;

/// The wait state of a waiter that may look at the mutex again.
pub const NOTIFIED: usize = 2;

/// The wait state of a waiter that holds the mutex.
pub const ACQUIRED: usize = 3;

/// How long a waiter waits before it is handed the mutex, in nanoseconds.
pub const TIMEOUT: u32 = 1_000_000;

/// A value, the word that the mutex's state starts from, and the queue of those
/// who wait. The state itself is the word of the shared memory that the
/// operations work on.
#[derive(Debug)]
pub struct Mutex<T> {
    state: usize,
    value: T,
    queue: List,
}

/// Whether the address can be that of a waiter.
pub open spec fn is_waiter(node: usize) -> bool {
    node != 0
}

impl<T> Mutex<T> {
    pub closed spec fn state(self) -> usize {
        self.state
    }

    pub closed spec fn value(self) -> T {
        self.value
    }

    pub closed spec fn queue(self) -> List {
        self.queue
    }

    pub closed spec fn spec_new(value: T) -> Self {
        Mutex { state: UNLOCKED, value, queue: List::new() }
    }

    #[verifier::when_used_as_spec(spec_new)]
    pub fn new(value: T) -> (mutex: Self)
        ensures
            mutex == Self::spec_new(value),
            mutex.state() == UNLOCKED,
            mutex.value() == value,
            mutex.queue() == List::new(),
    {
        Mutex { state: UNLOCKED, value, queue: List::new() }
    }

    pub fn into_inner(self) -> (value: T)
        ensures
            value == self.value(),
    {
        self.value
    }

    /// Nobody else can have the mutex while it is borrowed to change.
    pub fn as_mut(&mut self) -> (value: &mut T)
        ensures
            *value == old(self).value(),
            final(self).value() == *final(value),
            final(self).state() == old(self).state(),
            final(self).queue() == old(self).queue(),
    {
        &mut self.value
    }

    /// The queue, once its own lock is held.
    pub fn with_queue(&mut self) -> (queue: &mut List)
        ensures
            *queue == old(self).queue(),
            final(self).queue() == *final(queue),
            final(self).state() == old(self).state(),
            final(self).value() == old(self).value(),
    {
        &mut self.queue
    }

    /// Begins to take the mutex if it is free.
    pub fn try_lock(&self) -> (attempt: TryLock)
        ensures
            attempt == TryLock::LoadWord,
            attempt.wf(),
            attempt.begins(),
    {
        TryLock::start()
    }

    /// Begins to take the mutex, waiting by the given waiter if need be.
    pub fn lock(&self, waiter: usize) -> (future: MutexLockFuture)
        requires
            is_waiter(waiter),
        ensures
            future == (MutexLockFuture { waiter, timed: false, step: LockStep::Fast }),
            future.wf(),
            future.begins(),
    {
        MutexLockFuture { waiter, timed: false, step: LockStep::Fast }
    }

    /// Begins to take the mutex as a task: the same operation as `lock`, with
    /// its waits left to the executor.
    pub fn lock_async(&self, waiter: usize) -> (future: MutexLockFuture)
        requires
            is_waiter(waiter),
        ensures
            future == (MutexLockFuture { waiter, timed: false, step: LockStep::Fast }),
            future.wf(),
            future.begins(),
    {
        MutexLockFuture { waiter, timed: false, step: LockStep::Fast }
    }

    /// Begins to take the mutex, waiting no longer than until a deadline that
    /// the runtime keeps.
    pub fn try_lock_until(&self, waiter: usize) -> (future: MutexLockFuture)
        requires
            is_waiter(waiter),
        ensures
            future == (MutexLockFuture { waiter, timed: true, step: LockStep::Fast }),
            future.wf(),
            future.begins(),
    {
        MutexLockFuture { waiter, timed: true, step: LockStep::Fast }
    }

    /// Begins to take the mutex, waiting no longer than for a timeout that the
    /// runtime keeps.
    pub fn try_lock_for(&self, waiter: usize) -> (future: MutexLockFuture)
        requires
            is_waiter(waiter),
        ensures
            future == (MutexLockFuture { waiter, timed: true, step: LockStep::Fast }),
            future.wf(),
            future.begins(),
    {
        MutexLockFuture { waiter, timed: true, step: LockStep::Fast }
    }

    /// Begins to give the mutex up.
    pub fn unlock(&self) -> (unlock: Unlock)
        ensures
            unlock == (Unlock::Release { fair: false }),
            unlock.wf(),
            unlock.begins(),
    {
        Unlock::Release { fair: false }
    }

    /// Begins to give the mutex up, to the waiter that waits longest if there
    /// is one.
    pub fn unlock_fair(&self) -> (unlock: Unlock)
        ensures
            unlock == (Unlock::Release { fair: true }),
            unlock.wf(),
            unlock.begins(),
    {
        Unlock::Release { fair: true }
    }
}

impl<T> From<T> for Mutex<T> {
    fn from(value: T) -> (mutex: Self) {
        Mutex::new(value)
    }
}

impl<T> vstd::std_specs::convert::FromSpecImpl<T> for Mutex<T> {
    open spec fn obeys_from_spec() -> bool {
        true
    }

    open spec fn from_spec(value: T) -> Self {
        Mutex::new(value)
    }
}

impl<T: Default> Default for Mutex<T> {
    fn default() -> (mutex: Self)
        ensures
            mutex.state() == UNLOCKED,
            mutex.queue() == List::new(),
            call_ensures(T::default, (), mutex.value()),
    {
        Mutex::new(T::default())
    }
}

/// What is done under the lock of the queue to give the mutex up. `fair` says
/// whether the waiter is handed the mutex in any case.
#[derive(Clone, Copy, PartialEq, Eq, Structural, Debug)]
pub enum Inner {
    Pop { fair: bool },
    LoadWake { node: usize, fair: bool },
    SetNotified { node: usize, fair: bool },
    TakeWaker { node: usize, fair: bool },
    /// Asks whether the waiter has waited long enough.
    CheckDeadline { node: usize },
    SetAcquired { node: usize },
    CheckEmpty { acquired: bool },
    /// Keeps the held flag, and clears the parked flag.
    KeepLocked,
    StoreWord { word: usize, woke: bool },
    Done { woke: bool },
}

impl Inner {
    /// Whether the mutex has been neither released nor handed over yet.
    pub open spec fn holds(self) -> bool {
        match self {
            Inner::CheckEmpty { acquired } => !acquired,
            Inner::KeepLocked | Inner::Done { .. } => false,
            _ => true,
        }
    }

    /// The operation after its access was answered.
    pub fn resumed(self, reply: Reply) -> (next: Self)
        requires
            self.wf(),
            self.expects(reply),
        ensures
            next == self.after(reply),
            next.wf(),
    {
        let mut next = self;
        next.resume(reply, &mut Hints::new());
        next
    }
}

impl Operation for Inner {
    open spec fn wf(&self) -> bool {
        match *self {
            Inner::StoreWord { word, .. } => !is_locked(word),
            _ => true,
        }
    }

    open spec fn wants(&self) -> Access {
        match *self {
            Inner::Pop { .. } => Access::PopFront,
            Inner::LoadWake { node, .. } => Access::Load(Place::Wake(node), Order::Relaxed),
            Inner::SetNotified { node, .. } => Access::Store(
                Place::Wake(node),
                NOTIFIED,
                Order::Relaxed,
            ),
            Inner::TakeWaker { node, .. } => Access::TakeWaker(node),
            Inner::CheckDeadline { node } => Access::Expired(node),
            Inner::SetAcquired { node } => Access::Store(Place::Wake(node), ACQUIRED, Order::Relaxed),
            Inner::CheckEmpty { .. } => Access::IsQueueEmpty,
            Inner::KeepLocked => Access::Store(Place::Word, LOCKED, Order::Relaxed),
            Inner::StoreWord { word, .. } => Access::Store(Place::Word, word, Order::Release),
            Inner::Done { .. } => Access::Done,
        }
    }

    /// Every waiter in the queue waits and has a waker.
    open spec fn expects(&self, reply: Reply) -> bool {
        match *self {
            Inner::LoadWake { .. } => reply.value == WAITING,
            Inner::TakeWaker { .. } => reply.ok,
            Inner::Done { .. } => false,
            _ => true,
        }
    }

    open spec fn after(&self, reply: Reply) -> Self {
        match *self {
            Inner::Pop { fair } => if reply.ok {
                Inner::LoadWake { node: reply.value, fair }
            } else {
                Inner::StoreWord { word: UNLOCKED, woke: false }
            },
            Inner::LoadWake { node, fair } => Inner::SetNotified { node, fair },
            Inner::SetNotified { node, fair } => Inner::TakeWaker { node, fair },
            Inner::TakeWaker { node, fair } => if fair {
                Inner::SetAcquired { node }
            } else {
                Inner::CheckDeadline { node }
            },
            Inner::CheckDeadline { node } => if reply.ok {
                Inner::SetAcquired { node }
            } else {
                Inner::CheckEmpty { acquired: false }
            },
            Inner::SetAcquired { .. } => Inner::CheckEmpty { acquired: true },
            Inner::CheckEmpty { acquired } => if acquired {
                if reply.ok {
                    Inner::KeepLocked
                } else {
                    Inner::Done { woke: true }
                }
            } else if reply.ok {
                Inner::StoreWord { word: UNLOCKED, woke: true }
            } else {
                Inner::StoreWord { word: SECOND, woke: true }
            },
            Inner::KeepLocked => Inner::Done { woke: true },
            Inner::StoreWord { woke, .. } => Inner::Done { woke },
            Inner::Done { woke } => Inner::Done { woke },
        }
    }

    fn accepts(&self, reply: Reply) -> (accepted: bool) {
        match *self {
            Inner::LoadWake { .. } => reply.value == WAITING,
            Inner::TakeWaker { .. } => reply.ok,
            Inner::Done { .. } => false,
            _ => true,
        }
    }

    fn access(&self) -> (access: Access) {
        match *self {
            Inner::Pop { .. } => Access::PopFront,
            Inner::LoadWake { node, .. } => Access::Load(Place::Wake(node), Order::Relaxed),
            Inner::SetNotified { node, .. } => Access::Store(
                Place::Wake(node),
                NOTIFIED,
                Order::Relaxed,
            ),
            Inner::TakeWaker { node, .. } => Access::TakeWaker(node),
            Inner::CheckDeadline { node } => Access::Expired(node),
            Inner::SetAcquired { node } => Access::Store(Place::Wake(node), ACQUIRED, Order::Relaxed),
            Inner::CheckEmpty { .. } => Access::IsQueueEmpty,
            Inner::KeepLocked => Access::Store(Place::Word, LOCKED, Order::Relaxed),
            Inner::StoreWord { word, .. } => Access::Store(Place::Word, word, Order::Release),
            Inner::Done { .. } => Access::Done,
        }
    }

    fn resume(&mut self, reply: Reply, _hints: &mut Hints) {
        *self =
        match *self {
            Inner::Pop { fair } => if reply.ok {
                Inner::LoadWake { node: reply.value, fair }
            } else {
                Inner::StoreWord { word: UNLOCKED, woke: false }
            },
            Inner::LoadWake { node, fair } => Inner::SetNotified { node, fair },
            Inner::SetNotified { node, fair } => Inner::TakeWaker { node, fair },
            Inner::TakeWaker { node, fair } => if fair {
                Inner::SetAcquired { node }
            } else {
                Inner::CheckDeadline { node }
            },
            Inner::CheckDeadline { node } => if reply.ok {
                Inner::SetAcquired { node }
            } else {
                Inner::CheckEmpty { acquired: false }
            },
            Inner::SetAcquired { .. } => Inner::CheckEmpty { acquired: true },
            Inner::CheckEmpty { acquired } => if acquired {
                if reply.ok {
                    Inner::KeepLocked
                } else {
                    Inner::Done { woke: true }
                }
            } else if reply.ok {
                Inner::StoreWord { word: UNLOCKED, woke: true }
            } else {
                Inner::StoreWord { word: SECOND, woke: true }
            },
            Inner::KeepLocked => Inner::Done { woke: true },
            Inner::StoreWord { woke, .. } => Inner::Done { woke },
            Inner::Done { woke } => Inner::Done { woke },
        };
    }
}

/// How far an attempt to lock is.
#[derive(Clone, Copy, PartialEq, Eq, Structural, Debug)]
pub enum LockStep {
    /// Takes a mutex that is free and has no waiters.
    Fast,
    LoadWord { spin: usize },
    /// Takes a free mutex if the word is still `state`.
    Take { state: usize, spin: usize },
    /// Asks whether spinning is worth while.
    Yield { state: usize, spin: usize },
    /// Sets the parked flag if the word is still `state`.
    Announce { state: usize, spin: usize },
    LockQueue { spin: usize },
    /// Looks at the state word again, under the lock of the queue.
    CheckWord { spin: usize },
    /// Leaves the queue to try again.
    Leave { spin: usize },
    SetWaker,
    SetDeadline,
    SetWaiting,
    Push,
    /// Leaves the queue to wait.
    LeaveWaiting,
    Pending,
    /// Asks whether the deadline of the caller has come.
    CheckDeadline,
    /// Looks at whether the waiter was notified.
    LockWait,
    LoadWake,
    CompareWaker,
    ReplaceWaker,
    LeaveRetry,
    LeaveAcquired,
    /// Takes the waiter off the queue, to give up. `late` says whether the
    /// caller has to wait for the notification that is under way.
    LockCancel { late: bool },
    LoadCancelled { late: bool },
    Remove,
    /// Unlocks on behalf of a waiter that was made the holder.
    Unlock { late: bool, inner: Inner },
    LeaveCancelled { late: bool, woke: bool },
    WakeOther { late: bool },
    ParkLate,
    Locked,
    Failed,
}

/// An attempt to lock, the waiter it waits by, and whether it has a deadline.
#[derive(Clone, Copy, PartialEq, Eq, Structural, Debug)]
pub struct MutexLockFuture {
    pub waiter: usize,
    pub timed: bool,
    pub step: LockStep,
}

impl MutexLockFuture {
    pub open spec fn spec_cancelled(self) -> Self {
        MutexLockFuture { step: LockStep::LockCancel { late: false }, ..self }
    }

    /// Begins to give up an attempt that waits.
    pub fn cancel(&mut self)
        requires
            old(self).wf(),
            old(self).step is Pending,
        ensures
            *final(self) == old(self).spec_cancelled(),
            old(self).gives_up(*final(self)),
            final(self).wf(),
    {
        self.step = LockStep::LockCancel { late: false };
    }
}

pub open spec fn spec_poll_lock(state: usize, spin: usize) -> LockStep {
    if !is_locked(state) {
        LockStep::Take { state, spin }
    } else if has_second(state) {
        LockStep::LockQueue { spin }
    } else {
        LockStep::Yield { state, spin }
    }
}

/// What to do about a state word: take the mutex if it is free, think about
/// spinning if nobody waits yet, and join the queue otherwise.
#[verifier::when_used_as_spec(spec_poll_lock)]
pub fn poll_lock(state: usize, spin: usize) -> (step: LockStep)
    ensures
        step == spec_poll_lock(state, spin),
{
    if !is_locked(state) {
        LockStep::Take { state, spin }
    } else if has_second(state) {
        LockStep::LockQueue { spin }
    } else {
        LockStep::Yield { state, spin }
    }
}

pub open spec fn spec_gone(late: bool) -> LockStep {
    if late {
        LockStep::ParkLate
    } else {
        LockStep::Failed
    }
}

/// Goes on once a waiter that was notified already has left: a caller with a
/// deadline waits for the notification to come through.
#[verifier::when_used_as_spec(spec_gone)]
pub fn gone(late: bool) -> (step: LockStep)
    ensures
        step == spec_gone(late),
{
    if late {
        LockStep::ParkLate
    } else {
        LockStep::Failed
    }
}

pub open spec fn spec_unlock_inner(late: bool, inner: Inner) -> LockStep {
    match inner {
        Inner::Done { woke } => LockStep::LeaveCancelled { late, woke },
        _ => LockStep::Unlock { late, inner },
    }
}

/// Goes on with an unlock on behalf of a waiter.
#[verifier::when_used_as_spec(spec_unlock_inner)]
pub fn unlock_inner(late: bool, inner: Inner) -> (step: LockStep)
    ensures
        step == spec_unlock_inner(late, inner),
{
    match inner {
        Inner::Done { woke } => LockStep::LeaveCancelled { late, woke },
        _ => LockStep::Unlock { late, inner },
    }
}

impl Operation for MutexLockFuture {
    open spec fn wf(&self) -> bool {
        &&& is_waiter(self.waiter)
        &&& match self.step {
            LockStep::Take { state, .. } => !is_locked(state),
            LockStep::Yield { state, .. } | LockStep::Announce { state, .. } => is_locked(state),
            LockStep::Unlock { inner, .. } => inner.wf() && !(inner is Done),
            _ => true,
        }
    }

    open spec fn wants(&self) -> Access {
        let node: usize = self.waiter;
        match self.step {
            LockStep::Fast => Access::CompareExchangeWeak(
                Place::Word,
                UNLOCKED,
                LOCKED,
                Order::Acquire,
                Order::Relaxed,
            ),
            LockStep::LoadWord { .. } => Access::Load(Place::Word, Order::Relaxed),
            LockStep::Take { state, .. } => Access::CompareExchangeWeak(
                Place::Word,
                state,
                set_locked(state),
                Order::Acquire,
                Order::Relaxed,
            ),
            LockStep::Announce { state, .. } => Access::CompareExchangeWeak(
                Place::Word,
                state,
                set_second(state),
                Order::Relaxed,
                Order::Relaxed,
            ),
            LockStep::LockQueue { .. } => Access::LockQueue,
            LockStep::CheckWord { .. } => Access::Load(Place::Word, Order::Relaxed),
            LockStep::Leave { .. } => Access::UnlockQueue,
            LockStep::Yield { spin, .. } => Access::Yield(spin),
            LockStep::SetWaker => Access::StoreWaker(node),
            LockStep::SetDeadline => Access::SetDeadline(node, TIMEOUT),
            LockStep::SetWaiting => Access::Store(Place::Wake(node), WAITING, Order::Relaxed),
            LockStep::Push => Access::PushBack(node),
            LockStep::LeaveWaiting => Access::UnlockQueue,
            LockStep::Pending => if self.timed {
                Access::ParkUntil
            } else {
                Access::Park
            },
            LockStep::CheckDeadline => Access::PastDeadline,
            LockStep::LockWait => Access::LockQueue,
            LockStep::LoadWake => Access::Load(Place::Wake(node), Order::Relaxed),
            LockStep::CompareWaker => Access::WillWake(node),
            LockStep::ReplaceWaker => Access::StoreWaker(node),
            LockStep::LeaveRetry | LockStep::LeaveAcquired => Access::UnlockQueue,
            LockStep::LockCancel { .. } => Access::LockQueue,
            LockStep::LoadCancelled { .. } => Access::Load(Place::Wake(node), Order::Relaxed),
            LockStep::Remove => Access::Remove(node),
            LockStep::Unlock { inner, .. } => inner.wants(),
            LockStep::LeaveCancelled { .. } => Access::UnlockQueue,
            LockStep::WakeOther { .. } => Access::Wake,
            LockStep::ParkLate => Access::Park,
            LockStep::Locked | LockStep::Failed => Access::Done,
        }
    }

    /// A waiter is in the queue exactly while it waits, and it is waited by only
    /// when it is in the queue or was notified.
    open spec fn expects(&self, reply: Reply) -> bool {
        match self.step {
            LockStep::LoadWake | LockStep::LoadCancelled { .. } => WAITING <= reply.value
                <= ACQUIRED,
            LockStep::Remove => reply.ok,
            LockStep::Unlock { inner, .. } => inner.expects(reply),
            LockStep::Locked | LockStep::Failed => false,
            _ => true,
        }
    }

    open spec fn after(&self, reply: Reply) -> Self {
        let step = match self.step {
            LockStep::Fast => if reply.ok {
                LockStep::Locked
            } else {
                LockStep::LoadWord { spin: 0 }
            },
            LockStep::LoadWord { spin } => poll_lock(reply.value, spin),
            LockStep::Take { spin, .. } => if reply.ok {
                LockStep::Locked
            } else {
                poll_lock(reply.value, spin)
            },
            LockStep::Yield { state, spin } => if reply.ok {
                LockStep::LoadWord { spin: spin.wrapping_add(1) }
            } else {
                LockStep::Announce { state, spin }
            },
            LockStep::Announce { spin, .. } => if reply.ok {
                LockStep::LockQueue { spin }
            } else {
                poll_lock(reply.value, spin)
            },
            LockStep::LockQueue { spin } => LockStep::CheckWord { spin },
            LockStep::CheckWord { spin } => if reply.value == FLAGS {
                LockStep::SetWaker
            } else {
                LockStep::Leave { spin }
            },
            LockStep::Leave { .. } => LockStep::LoadWord { spin: 0 },
            LockStep::SetWaker => LockStep::SetDeadline,
            LockStep::SetDeadline => LockStep::SetWaiting,
            LockStep::SetWaiting => LockStep::Push,
            LockStep::Push => LockStep::LeaveWaiting,
            LockStep::LeaveWaiting => LockStep::Pending,
            LockStep::Pending => if self.timed {
                LockStep::CheckDeadline
            } else {
                LockStep::LockWait
            },
            LockStep::CheckDeadline => if reply.ok {
                LockStep::LockCancel { late: true }
            } else {
                LockStep::LockWait
            },
            LockStep::LockWait => LockStep::LoadWake,
            LockStep::LoadWake => if reply.value == WAITING {
                LockStep::CompareWaker
            } else if reply.value == NOTIFIED {
                LockStep::LeaveRetry
            } else {
                LockStep::LeaveAcquired
            },
            LockStep::CompareWaker => if reply.ok {
                LockStep::LeaveWaiting
            } else {
                LockStep::ReplaceWaker
            },
            LockStep::ReplaceWaker => LockStep::LeaveWaiting,
            LockStep::LeaveRetry => LockStep::LoadWord { spin: 0 },
            LockStep::LeaveAcquired => LockStep::Locked,
            LockStep::LockCancel { late } => LockStep::LoadCancelled { late },
            LockStep::LoadCancelled { late } => if reply.value == WAITING {
                LockStep::Remove
            } else if reply.value == NOTIFIED {
                LockStep::LeaveCancelled { late, woke: false }
            } else {
                LockStep::Unlock { late, inner: Inner::Pop { fair: false } }
            },
            LockStep::Remove => LockStep::LeaveCancelled { late: false, woke: false },
            LockStep::Unlock { late, inner } => unlock_inner(late, inner.after(reply)),
            LockStep::LeaveCancelled { late, woke } => if woke {
                LockStep::WakeOther { late }
            } else {
                gone(late)
            },
            LockStep::WakeOther { late } => gone(late),
            LockStep::ParkLate => LockStep::Failed,
            LockStep::Locked => LockStep::Locked,
            LockStep::Failed => LockStep::Failed,
        };
        MutexLockFuture { step, ..*self }
    }

    fn accepts(&self, reply: Reply) -> (accepted: bool) {
        match self.step {
            LockStep::LoadWake | LockStep::LoadCancelled { .. } => WAITING <= reply.value && reply.value <= ACQUIRED,
            LockStep::Remove => reply.ok,
            LockStep::Unlock { inner, .. } => inner.accepts(reply),
            LockStep::Locked | LockStep::Failed => false,
            _ => true,
        }
    }

    fn access(&self) -> (access: Access) {
        let node: usize = self.waiter;
        match self.step {
            LockStep::Fast => Access::CompareExchangeWeak(
                Place::Word,
                UNLOCKED,
                LOCKED,
                Order::Acquire,
                Order::Relaxed,
            ),
            LockStep::LoadWord { .. } => Access::Load(Place::Word, Order::Relaxed),
            LockStep::Take { state, .. } => Access::CompareExchangeWeak(
                Place::Word,
                state,
                set_locked(state),
                Order::Acquire,
                Order::Relaxed,
            ),
            LockStep::Announce { state, .. } => Access::CompareExchangeWeak(
                Place::Word,
                state,
                set_second(state),
                Order::Relaxed,
                Order::Relaxed,
            ),
            LockStep::LockQueue { .. } => Access::LockQueue,
            LockStep::CheckWord { .. } => Access::Load(Place::Word, Order::Relaxed),
            LockStep::Leave { .. } => Access::UnlockQueue,
            LockStep::Yield { spin, .. } => Access::Yield(spin),
            LockStep::SetWaker => Access::StoreWaker(node),
            LockStep::SetDeadline => Access::SetDeadline(node, TIMEOUT),
            LockStep::SetWaiting => Access::Store(Place::Wake(node), WAITING, Order::Relaxed),
            LockStep::Push => Access::PushBack(node),
            LockStep::LeaveWaiting => Access::UnlockQueue,
            LockStep::Pending => if self.timed {
                Access::ParkUntil
            } else {
                Access::Park
            },
            LockStep::CheckDeadline => Access::PastDeadline,
            LockStep::LockWait => Access::LockQueue,
            LockStep::LoadWake => Access::Load(Place::Wake(node), Order::Relaxed),
            LockStep::CompareWaker => Access::WillWake(node),
            LockStep::ReplaceWaker => Access::StoreWaker(node),
            LockStep::LeaveRetry | LockStep::LeaveAcquired => Access::UnlockQueue,
            LockStep::LockCancel { .. } => Access::LockQueue,
            LockStep::LoadCancelled { .. } => Access::Load(Place::Wake(node), Order::Relaxed),
            LockStep::Remove => Access::Remove(node),
            LockStep::Unlock { inner, .. } => inner.access(),
            LockStep::LeaveCancelled { .. } => Access::UnlockQueue,
            LockStep::WakeOther { .. } => Access::Wake,
            LockStep::ParkLate => Access::Park,
            LockStep::Locked | LockStep::Failed => Access::Done,
        }
    }

    fn resume(&mut self, reply: Reply, _hints: &mut Hints) {
        self.step =
        match self.step {
            LockStep::Fast => if reply.ok {
                LockStep::Locked
            } else {
                LockStep::LoadWord { spin: 0 }
            },
            LockStep::LoadWord { spin } => poll_lock(reply.value, spin),
            LockStep::Take { spin, .. } => if reply.ok {
                LockStep::Locked
            } else {
                poll_lock(reply.value, spin)
            },
            LockStep::Yield { state, spin } => if reply.ok {
                LockStep::LoadWord { spin: spin.wrapping_add(1) }
            } else {
                LockStep::Announce { state, spin }
            },
            LockStep::Announce { spin, .. } => if reply.ok {
                LockStep::LockQueue { spin }
            } else {
                poll_lock(reply.value, spin)
            },
            LockStep::LockQueue { spin } => LockStep::CheckWord { spin },
            LockStep::CheckWord { spin } => if reply.value == FLAGS {
                LockStep::SetWaker
            } else {
                LockStep::Leave { spin }
            },
            LockStep::Leave { .. } => LockStep::LoadWord { spin: 0 },
            LockStep::SetWaker => LockStep::SetDeadline,
            LockStep::SetDeadline => LockStep::SetWaiting,
            LockStep::SetWaiting => LockStep::Push,
            LockStep::Push => LockStep::LeaveWaiting,
            LockStep::LeaveWaiting => LockStep::Pending,
            LockStep::Pending => if self.timed {
                LockStep::CheckDeadline
            } else {
                LockStep::LockWait
            },
            LockStep::CheckDeadline => if reply.ok {
                LockStep::LockCancel { late: true }
            } else {
                LockStep::LockWait
            },
            LockStep::LockWait => LockStep::LoadWake,
            LockStep::LoadWake => if reply.value == WAITING {
                LockStep::CompareWaker
            } else if reply.value == NOTIFIED {
                LockStep::LeaveRetry
            } else {
                LockStep::LeaveAcquired
            },
            LockStep::CompareWaker => if reply.ok {
                LockStep::LeaveWaiting
            } else {
                LockStep::ReplaceWaker
            },
            LockStep::ReplaceWaker => LockStep::LeaveWaiting,
            LockStep::LeaveRetry => LockStep::LoadWord { spin: 0 },
            LockStep::LeaveAcquired => LockStep::Locked,
            LockStep::LockCancel { late } => LockStep::LoadCancelled { late },
            LockStep::LoadCancelled { late } => if reply.value == WAITING {
                LockStep::Remove
            } else if reply.value == NOTIFIED {
                LockStep::LeaveCancelled { late, woke: false }
            } else {
                LockStep::Unlock { late, inner: Inner::Pop { fair: false } }
            },
            LockStep::Remove => LockStep::LeaveCancelled { late: false, woke: false },
            LockStep::Unlock { late, inner } => unlock_inner(late, inner.resumed(reply)),
            LockStep::LeaveCancelled { late, woke } => if woke {
                LockStep::WakeOther { late }
            } else {
                gone(late)
            },
            LockStep::WakeOther { late } => gone(late),
            LockStep::ParkLate => LockStep::Failed,
            LockStep::Locked => LockStep::Locked,
            LockStep::Failed => LockStep::Failed,
        };
    }
}

impl Party for MutexLockFuture {
    open spec fn begins(&self) -> bool {
        self.step is Fast
    }

    open spec fn holds(&self, memory: Shared) -> bool {
        match self.step {
            LockStep::Locked | LockStep::LeaveAcquired => true,
            LockStep::Unlock { inner, .. } => inner.holds(),
            LockStep::LeaveCancelled { .. }
            | LockStep::WakeOther { .. }
            | LockStep::ParkLate
            | LockStep::Failed => false,
            _ => wake_of(memory, self.waiter) == ACQUIRED,
        }
    }

    open spec fn waiter(&self) -> usize {
        self.waiter
    }

    open spec fn admits(&self, memory: Shared, reply: Reply) -> bool {
        true
    }

    open spec fn gives_up(&self, other: Self) -> bool {
        self.step is Pending && other == self.spec_cancelled()
    }
}

/// How far an unlock is.
#[derive(Clone, Copy, PartialEq, Eq, Structural, Debug)]
pub enum Unlock {
    /// Clears the held flag of a mutex that has no waiters.
    Release { fair: bool },
    LockQueue { fair: bool },
    Inner { inner: Inner },
    LeaveQueue { woke: bool },
    Wake,
    Released,
}

pub open spec fn spec_unlock_slow(inner: Inner) -> Unlock {
    match inner {
        Inner::Done { woke } => Unlock::LeaveQueue { woke },
        _ => Unlock::Inner { inner },
    }
}

/// Goes on with what is done under the lock of the queue.
#[verifier::when_used_as_spec(spec_unlock_slow)]
pub fn unlock_slow(inner: Inner) -> (next: Unlock)
    ensures
        next == spec_unlock_slow(inner),
{
    match inner {
        Inner::Done { woke } => Unlock::LeaveQueue { woke },
        _ => Unlock::Inner { inner },
    }
}

impl Operation for Unlock {
    open spec fn wf(&self) -> bool {
        match *self {
            Unlock::Inner { inner } => inner.wf() && !(inner is Done),
            _ => true,
        }
    }

    open spec fn wants(&self) -> Access {
        match *self {
            Unlock::Release { .. } => Access::CompareExchange(
                Place::Word,
                LOCKED,
                UNLOCKED,
                Order::Release,
                Order::Relaxed,
            ),
            Unlock::LockQueue { .. } => Access::LockQueue,
            Unlock::Inner { inner } => inner.wants(),
            Unlock::LeaveQueue { .. } => Access::UnlockQueue,
            Unlock::Wake => Access::Wake,
            Unlock::Released => Access::Done,
        }
    }

    open spec fn expects(&self, reply: Reply) -> bool {
        match *self {
            Unlock::Inner { inner } => inner.expects(reply),
            Unlock::Released => false,
            _ => true,
        }
    }

    open spec fn after(&self, reply: Reply) -> Self {
        match *self {
            Unlock::Release { fair } => if reply.ok {
                Unlock::Released
            } else {
                Unlock::LockQueue { fair }
            },
            Unlock::LockQueue { fair } => Unlock::Inner { inner: Inner::Pop { fair } },
            Unlock::Inner { inner } => unlock_slow(inner.after(reply)),
            Unlock::LeaveQueue { woke } => if woke {
                Unlock::Wake
            } else {
                Unlock::Released
            },
            Unlock::Wake => Unlock::Released,
            Unlock::Released => Unlock::Released,
        }
    }

    fn accepts(&self, reply: Reply) -> (accepted: bool) {
        match *self {
            Unlock::Inner { inner } => inner.accepts(reply),
            Unlock::Released => false,
            _ => true,
        }
    }

    fn access(&self) -> (access: Access) {
        match *self {
            Unlock::Release { .. } => Access::CompareExchange(
                Place::Word,
                LOCKED,
                UNLOCKED,
                Order::Release,
                Order::Relaxed,
            ),
            Unlock::LockQueue { .. } => Access::LockQueue,
            Unlock::Inner { inner } => inner.access(),
            Unlock::LeaveQueue { .. } => Access::UnlockQueue,
            Unlock::Wake => Access::Wake,
            Unlock::Released => Access::Done,
        }
    }

    fn resume(&mut self, reply: Reply, _hints: &mut Hints) {
        *self =
        match *self {
            Unlock::Release { fair } => if reply.ok {
                Unlock::Released
            } else {
                Unlock::LockQueue { fair }
            },
            Unlock::LockQueue { fair } => Unlock::Inner { inner: Inner::Pop { fair } },
            Unlock::Inner { inner } => unlock_slow(inner.resumed(reply)),
            Unlock::LeaveQueue { woke } => if woke {
                Unlock::Wake
            } else {
                Unlock::Released
            },
            Unlock::Wake => Unlock::Released,
            Unlock::Released => Unlock::Released,
        };
    }
}

impl Party for Unlock {
    open spec fn begins(&self) -> bool {
        self is Release
    }

    open spec fn holds(&self, memory: Shared) -> bool {
        match *self {
            Unlock::Release { .. } | Unlock::LockQueue { .. } => true,
            Unlock::Inner { inner } => inner.holds(),
            _ => false,
        }
    }

    open spec fn waiter(&self) -> usize {
        0
    }

    open spec fn admits(&self, memory: Shared, reply: Reply) -> bool {
        true
    }
}

/// Taking a free mutex that nobody waits for and giving it up again, with nothing
/// in between, succeeds at once and leaves everything as it was.
pub proof fn undisturbed_round_trip(lock: MutexLockFuture, unlock: Unlock, memory: Shared)
    requires
        lock.begins(),
        unlock.begins(),
        memory.word == UNLOCKED,
    ensures
        alone(lock, memory, 1) == (MutexLockFuture { step: LockStep::Locked, ..lock }, Shared { word: LOCKED, ..memory }),
        alone(unlock, Shared { word: LOCKED, ..memory }, 1) == (Unlock::Released, memory),
{
    reveal_with_fuel(alone, 2);
}

/// The mutex of this module, as [`crate::exclusion`], [`crate::parking`] and
/// [`crate::vigil`] speak of it. Their laws hold of it, among them
/// [`crate::exclusion::mutual_exclusion`],
/// [`crate::parking::every_reply_is_expected`],
/// [`crate::parking::nobody_is_forgotten`] and
/// [`crate::vigil::free_mutex_is_not_left_alone`].
pub struct Kind;

impl Encoding for Kind {
    open spec fn is_held(word: usize) -> bool {
        is_locked(word)
    }

    /// A waiter that is notified as the holder has been handed the mutex.
    open spec fn grants(wake: usize) -> bool {
        wake == ACQUIRED
    }
}

impl LockKind for Kind {
    type Try = TryLock;

    type Lock = MutexLockFuture;

    type Unlock = Unlock;

    proof fn try_frame(party: TryLock, memory: Shared, next: Shared) {
        assert(party.waiter() == 0 && party.holds(memory) == party.holds(next));
    }

    proof fn lock_frame(party: MutexLockFuture, memory: Shared, next: Shared) {
        assert(party.waiter() != 0);
        assert(party.begins() ==> !party.holds(memory) || Self::grants(wake_of(memory, party.waiter())));
    }

    proof fn unlock_frame(party: Unlock, memory: Shared, next: Shared) {
        assert(party.waiter() == 0 && party.holds(memory) == party.holds(next));
    }

    proof fn lock_given_up(party: MutexLockFuture, other: MutexLockFuture, memory: Shared) {
        assert(party.gives_up(other) ==> other.waiter() == party.waiter() && other.holds(memory) == party.holds(memory));
    }

    proof fn try_step(party: TryLock, memory: Shared, reply: Reply, next: Shared) {
        try_lock_is_lawful::<Self>(party, memory, reply, next);
    }

    proof fn lock_step(party: MutexLockFuture, memory: Shared, reply: Reply, next: Shared) {
    }

    proof fn unlock_step(party: Unlock, memory: Shared, reply: Reply, next: Shared) {
    }
}

/// Whether the waiter can be woken.
pub open spec fn is_ready(memory: Shared, node: usize) -> bool {
    wake_of(memory, node) == WAITING && (memory.wakers)(node)
}

/// Whether the waiter was notified.
pub open spec fn is_woken(memory: Shared, node: usize) -> bool {
    wake_of(memory, node) == NOTIFIED || wake_of(memory, node) == ACQUIRED
}

/// Where the inner part of an unlock stands, on behalf of an operation with this
/// waiter.
pub open spec fn inner_stand(own: usize, inner: Inner) -> Stand {
    Stand {
        own,
        inside: true,
        waits: false,
        grip: match inner {
            Inner::LoadWake { node, .. }
            | Inner::SetNotified { node, .. }
            | Inner::TakeWaker { node, .. }
            | Inner::CheckDeadline { node }
            | Inner::SetAcquired { node } => node,
            _ => 0,
        },
        roused: match inner {
            Inner::CheckEmpty { .. } | Inner::KeepLocked => true,
            Inner::StoreWord { woke, .. } => woke,
            Inner::Done { woke } => woke,
            _ => false,
        },
    }
}

/// What the inner part of an unlock knows about the queue and the waiter that it
/// wakes.
pub open spec fn inner_knows(inner: Inner, memory: Shared) -> bool {
    let parked = is_locked(memory.word) && has_second(memory.word);
    match inner {
        Inner::LoadWake { node, .. } | Inner::SetNotified { node, .. } => {
            parked && node != 0 && is_ready(memory, node)
        },
        Inner::TakeWaker { node, .. } => {
            parked && node != 0 && wake_of(memory, node) == NOTIFIED && (memory.wakers)(node)
        },
        Inner::CheckDeadline { node } | Inner::SetAcquired { node } => {
            parked && node != 0 && wake_of(memory, node) == NOTIFIED
        },
        Inner::CheckEmpty { .. } => parked,
        Inner::KeepLocked => parked && memory.queue.len() == 0,
        Inner::StoreWord { word, woke } => memory.queue.len() > 0 ==> has_second(word) && woke,
        _ => true,
    }
}

/// Where an attempt to lock stands.
pub open spec fn lock_stand(lock: MutexLockFuture) -> Stand {
    let own = lock.waiter;
    match lock.step {
        LockStep::Fast
        | LockStep::LoadWord { .. }
        | LockStep::Take { .. }
        | LockStep::Yield { .. }
        | LockStep::Announce { .. }
        | LockStep::LockQueue { .. }
        | LockStep::WakeOther { .. }
        | LockStep::ParkLate
        | LockStep::Locked
        | LockStep::Failed => Stand { own, ..nowhere() },
        LockStep::CheckWord { .. }
        | LockStep::Leave { .. }
        | LockStep::SetWaker
        | LockStep::SetDeadline
        | LockStep::SetWaiting
        | LockStep::Push => Stand { own, inside: true, ..nowhere() },
        LockStep::LeaveCancelled { woke, .. } => Stand {
            own,
            inside: true,
            roused: woke,
            ..nowhere()
        },
        LockStep::Unlock { inner, .. } => inner_stand(own, inner),
        LockStep::Pending
        | LockStep::CheckDeadline
        | LockStep::LockWait
        | LockStep::LockCancel { .. } => Stand { own, waits: true, ..nowhere() },
        LockStep::LeaveWaiting
        | LockStep::LoadWake
        | LockStep::CompareWaker
        | LockStep::ReplaceWaker
        | LockStep::LeaveRetry
        | LockStep::LeaveAcquired
        | LockStep::LoadCancelled { .. }
        | LockStep::Remove => Stand { own, inside: true, waits: true, ..nowhere() },
    }
}

/// What an attempt to lock knows about the queue and its waiter.
pub open spec fn lock_knows(lock: MutexLockFuture, memory: Shared) -> bool {
    let node = lock.waiter;
    let queue = memory.queue;
    let joining = is_locked(memory.word) && has_second(memory.word);
    let unhanded = wake_of(memory, node) != ACQUIRED;
    match lock.step {
        LockStep::SetWaker => joining && unhanded,
        LockStep::SetDeadline | LockStep::SetWaiting => {
            joining && unhanded && (memory.wakers)(node)
        },
        LockStep::Push => joining && is_ready(memory, node),
        LockStep::LoadWake | LockStep::LoadCancelled { .. } => {
            ||| queue.contains(node) && is_ready(memory, node)
            ||| !queue.contains(node) && is_woken(memory, node)
        },
        LockStep::CompareWaker
        | LockStep::ReplaceWaker
        | LockStep::LeaveWaiting
        | LockStep::Remove => queue.contains(node) && is_ready(memory, node),
        LockStep::LeaveRetry => !queue.contains(node) && wake_of(memory, node) == NOTIFIED,
        LockStep::LeaveAcquired => !queue.contains(node) && is_woken(memory, node),
        LockStep::Unlock { inner, .. } => inner_knows(inner, memory),
        LockStep::Pending
        | LockStep::CheckDeadline
        | LockStep::LockWait
        | LockStep::LockCancel { .. }
        | LockStep::LeaveCancelled { .. }
        | LockStep::WakeOther { .. }
        | LockStep::ParkLate
        | LockStep::Locked
        | LockStep::Failed => true,
        _ => unhanded,
    }
}

/// Where an unlock stands.
pub open spec fn unlock_stand(unlock: Unlock) -> Stand {
    match unlock {
        Unlock::Inner { inner } => inner_stand(0, inner),
        Unlock::LeaveQueue { woke } => Stand { inside: true, roused: woke, ..nowhere() },
        _ => nowhere(),
    }
}

/// What an unlock knows about the queue and the waiter that it wakes.
pub open spec fn unlock_knows(unlock: Unlock, memory: Shared) -> bool {
    unlock matches Unlock::Inner { inner } ==> inner_knows(inner, memory)
}

impl Parks for Kind {
    open spec fn is_tidy(memory: Shared) -> bool {
        true
    }

    open spec fn is_parked(word: usize) -> bool {
        has_second(word)
    }

    open spec fn ready(memory: Shared, node: usize) -> bool {
        is_ready(memory, node)
    }

    open spec fn woken(memory: Shared, node: usize) -> bool {
        is_woken(memory, node)
    }

    open spec fn fresh(memory: Shared, node: usize) -> bool {
        wake_of(memory, node) != ACQUIRED
    }

    open spec fn lock_stand(lock: MutexLockFuture) -> Stand {
        lock_stand(lock)
    }

    open spec fn unlock_stand(unlock: Unlock) -> Stand {
        unlock_stand(unlock)
    }

    open spec fn lock_knows(lock: MutexLockFuture, memory: Shared) -> bool {
        lock_knows(lock, memory)
    }

    open spec fn unlock_knows(unlock: Unlock, memory: Shared) -> bool {
        unlock_knows(unlock, memory)
    }

    open spec fn lock_admits(lock: MutexLockFuture, memory: Shared, reply: Reply) -> bool {
        true
    }

    open spec fn unlock_admits(unlock: Unlock, memory: Shared, reply: Reply) -> bool {
        true
    }
}

/// A step of the inner part of an unlock.
proof fn inner_obeys(own: usize, inner: Inner, memory: Shared, reply: Reply, next: Shared)
    requires
        inner.wf(),
        !(inner is Done),
        inner_knows(inner, memory),
        inner.holds() ==> is_locked(memory.word),
        is_in_order::<Kind>(memory),
        stands::<Kind>(inner_stand(own, inner), memory),
        performs(memory, inner.wants(), reply, next),
    ensures
        inner.expects(reply),
        !(inner.after(reply) is Done) ==> inner_knows(inner.after(reply), next),
        goes_on::<Kind>(
            inner_stand(own, inner),
            inner_stand(own, inner.after(reply)),
            memory,
            next,
        ),
{
    if memory.queue.len() > 0 {
        assert(memory.queue.contains(memory.queue[0]));
    }
}

impl Parking for Kind {
    proof fn of_waiters(memory: Shared, node: usize) {
        assert(is_ready(memory, node) ==> !is_woken(memory, node));
    }

    proof fn waiter_frame(memory: Shared, next: Shared, node: usize) {
        assert(is_ready(memory, node) == is_ready(next, node));
        assert(is_woken(memory, node) == is_woken(next, node));
    }

    proof fn lock_knows_frame(lock: MutexLockFuture, memory: Shared, next: Shared) {
        assert(lock.waiter() == lock.waiter);
        assert(lock_knows(lock, memory) ==> lock_knows(lock, next));
    }

    proof fn unlock_knows_frame(unlock: Unlock, memory: Shared, next: Shared) {
        assert(unlock_knows(unlock, memory) ==> unlock_knows(unlock, next));
    }

    proof fn lock_stands_on(lock: MutexLockFuture, other: MutexLockFuture, memory: Shared) {
        assert(lock.gives_up(other) ==> lock_stand(other) == lock_stand(lock));
    }

    proof fn try_obeys(attempt: TryLock, memory: Shared, reply: Reply, next: Shared) {
        lemma_tagged_word(memory.word, 0);
    }

    #[verifier::rlimit(50)]
    proof fn lock_obeys(lock: MutexLockFuture, memory: Shared, reply: Reply, next: Shared) {
        lemma_tagged_word(memory.word, 0);
        Self::of_waiters(memory, lock.waiter);
        without_one(memory.queue, lock.waiter);
        if lock.step is Push {
            assert(next.queue[memory.queue.len() as int] == lock.waiter);
        }
        if let LockStep::Unlock { inner, .. } = lock.step {
            inner_obeys(lock.waiter, inner, memory, reply, next);
        }
    }

    #[verifier::rlimit(50)]
    proof fn unlock_obeys(unlock: Unlock, memory: Shared, reply: Reply, next: Shared) {
        lemma_tagged_word(memory.word, 0);
        if let Unlock::Inner { inner } = unlock {
            inner_obeys(0, inner, memory, reply, next);
        }
    }
}

impl Watched for Kind {
    open spec fn strives(lock: MutexLockFuture) -> bool {
        match lock.step {
            LockStep::Remove
            | LockStep::Unlock { .. }
            | LockStep::LeaveCancelled { .. }
            | LockStep::WakeOther { .. }
            | LockStep::ParkLate
            | LockStep::Locked
            | LockStep::Failed => false,
            _ => true,
        }
    }

    /// A waiter that gives up after it was told to try again does not pass that on.
    open spec fn heeds(lock: MutexLockFuture, memory: Shared) -> bool {
        lock.step is LoadCancelled ==> wake_of(memory, lock.waiter) != NOTIFIED
    }
}

impl Vigil for Kind {
    proof fn of_striving(lock: MutexLockFuture) {
        assert(lock_stand(lock).own == lock.waiter);
    }

    proof fn try_watches(attempt: TryLock, memory: Shared, reply: Reply, next: Shared) {
        lemma_tagged_word(memory.word, 0);
    }

    proof fn lock_watches(lock: MutexLockFuture, memory: Shared, reply: Reply, next: Shared) {
        lemma_tagged_word(memory.word, 0);
        Self::of_waiters(memory, lock.waiter);
        without_one(memory.queue, lock.waiter);
        if next.queue.len() > 0 {
            assert(next.queue.contains(next.queue[0]));
        }
        assert(lock_is_up::<Self>(lock, memory) || !lock_is_up::<Self>(lock, memory));
    }

    proof fn unlock_watches(unlock: Unlock, memory: Shared, reply: Reply, next: Shared) {
        lemma_tagged_word(memory.word, 0);
        assert(unlock_stand(unlock).own == 0);
    }
}

impl Held for Kind {
    /// A waiter that gives up after it was handed the mutex unlocks it again.
    open spec fn clings(lock: MutexLockFuture, memory: Shared) -> bool {
        true
    }
}

impl Custody for Kind {
    proof fn lock_is_handed(lock: MutexLockFuture, memory: Shared) {
        assert(lock.waiter() == lock.waiter);
        assert(Self::grants(ACQUIRED));
    }

    proof fn unlock_grips(unlock: Unlock, memory: Shared) {
        assert(Self::grants(ACQUIRED));
    }

    proof fn try_keeps(attempt: TryLock, memory: Shared, reply: Reply, next: Shared) {
        lemma_tagged_word(memory.word, 0);
    }

    proof fn lock_keeps(lock: MutexLockFuture, memory: Shared, reply: Reply, next: Shared) {
        lemma_tagged_word(memory.word, 0);
        assert(lock.waiter() == lock.waiter);
        assert(Self::grants(ACQUIRED));
    }

    proof fn unlock_keeps(unlock: Unlock, memory: Shared, reply: Reply, next: Shared) {
        lemma_tagged_word(memory.word, 0);
        assert(Self::grants(ACQUIRED));
    }
}

/// At every point of every history, the state word says that the mutex is held
/// exactly when some thread holds it, whoever gives up.
pub proof fn held_mutex_has_a_holder(
    systems: Seq<System<Kind>>,
    who: Seq<int>,
    replies: Seq<Reply>,
    i: int,
)
    requires
        history(systems, who, replies),
        0 <= i < systems.len(),
    ensures
        is_locked(systems[i].memory.word) <==> exists|t: int|
            holds(#[trigger] (systems[i].threads)(t), systems[i].memory),
{
    assert(is_clung_to(systems, who));
    custody::held_mutex_has_a_holder(systems, who, replies, i);
    assert(Kind::is_held(systems[i].memory.word) == is_locked(systems[i].memory.word));
}

impl LockOwners for Kind {
    open spec fn is_set(memory: Shared, node: usize) -> bool {
        wake_of(memory, node) == WAITING && (memory.wakers)(node)
    }

    open spec fn is_live(memory: Shared, node: usize) -> bool {
        (memory.wakers)(node)
    }

    open spec fn pends(lock: MutexLockFuture) -> bool {
        lock.step is Pending
    }

    open spec fn trusts(lock: MutexLockFuture) -> bool {
        match lock.step {
            LockStep::SetDeadline
            | LockStep::SetWaiting
            | LockStep::Push
            | LockStep::LeaveWaiting => true,
            _ => false,
        }
    }

    open spec fn trusts_if_set(lock: MutexLockFuture) -> bool {
        lock.step is Pending
    }

    open spec fn leaves(lock: MutexLockFuture) -> bool {
        match lock.step {
            LockStep::Pending
            | LockStep::CheckDeadline
            | LockStep::LockWait
            | LockStep::LockCancel { .. } => true,
            _ => false,
        }
    }
}

impl ParkOwners for Kind {
    proof fn of_polls(lock: MutexLockFuture, memory: Shared) {
        assert(lock.waiter() == lock.waiter);
    }

    proof fn waker_frame(memory: Shared, next: Shared, node: usize) {
        assert(Self::is_set(next, node) == Self::is_set(memory, node));
    }

    proof fn lock_sees_to(lock: MutexLockFuture, memory: Shared, reply: Reply, next: Shared) {
        assert(lock.waiter() == lock.waiter);
    }

    proof fn try_leaves_wakers(attempt: TryLock) {
        assert(!(attempt.wants() is StoreWaker));
    }

    proof fn lock_takes(lock: MutexLockFuture, memory: Shared, reply: Reply, next: Shared) {
        assert(lock.waiter() == lock.waiter);
    }

    proof fn unlock_takes(unlock: Unlock, memory: Shared, reply: Reply, next: Shared) {
        assert(unlock_stand(unlock).own == 0);
    }
}

impl Inner {
    /// What the unlock owes to the waiters that it deals with.
    pub open spec fn owes(self, debt: Debt) -> bool {
        match self {
            Inner::TakeWaker { node, .. } => debt.taken is None && debt.told == Some(node),
            Inner::CheckDeadline { node } | Inner::SetAcquired { node } => {
                &&& debt.taken == Some(node)
                &&& debt.told == debt.taken
            },
            Inner::CheckEmpty { .. } | Inner::KeepLocked => {
                &&& debt.taken is Some
                &&& debt.told == debt.taken
            },
            Inner::StoreWord { woke, .. } | Inner::Done { woke } => if woke {
                debt.taken is Some && debt.told == debt.taken
            } else {
                debt.taken is None
            },
            _ => debt.taken is None,
        }
    }
}

impl Keeps<Debt> for Unlock {
    open spec fn fits(&self, ledger: Debt) -> bool {
        &&& match *self {
            Unlock::Inner { inner } => inner.owes(ledger),
            Unlock::LeaveQueue { woke } => if woke {
                ledger.taken is Some && ledger.told == ledger.taken
            } else {
                ledger.taken is None
            },
            Unlock::Wake => ledger.taken is Some && ledger.told == ledger.taken,
            _ => ledger.taken is None,
        }
        &&& !ledger.missed
        &&& !ledger.lends
    }

    proof fn goes_on(operation: Self, ledger: Debt, reply: Reply) {
    }

    proof fn obeys(operation: Self, ledger: Debt) {
    }
}

/// An unlock that took the waker of a waiter wakes it before it is over, once
/// it has stored the wake state. It takes no waker where there is none.
pub proof fn unlock_wakes_whom_it_took(first: Unlock, replies: Seq<Reply>, i: int, j: int)
    requires
        first.wf(),
        first.begins(),
        is_course(first, replies),
        0 <= i < j <= replies.len(),
    ensures
        ledger(first, replies, Debt::none(), j).allows(point(first, replies, j).wants()),
        !ledger(first, replies, Debt::none(), j).missed,
        ({
            &&& point(first, replies, i).wants() is TakeWaker
            &&& replies[i].ok
            &&& point(first, replies, j).wants() is Done
        }) ==> exists|k: int| i < k < j && #[trigger] point(first, replies, k).wants() is Wake,
{
    always_allowed(first, replies, Debt::none(), j);
    if point(first, replies, i).wants() is TakeWaker && replies[i].ok && point(
        first,
        replies,
        j,
    ).wants() is Done {
        taken_waker_is_woken(first, replies, Debt::none(), i, j);
    }
}

impl Keeps<Debt> for MutexLockFuture {
    open spec fn fits(&self, ledger: Debt) -> bool {
        &&& match self.step {
            LockStep::Unlock { inner, .. } => inner.owes(ledger),
            LockStep::LeaveCancelled { woke, .. } => if woke {
                ledger.taken is Some && ledger.told == ledger.taken
            } else {
                ledger.taken is None
            },
            LockStep::WakeOther { .. } => ledger.taken is Some && ledger.told == ledger.taken,
            _ => ledger.taken is None,
        }
        &&& !ledger.missed
        &&& !ledger.lends
    }

    proof fn goes_on(operation: Self, ledger: Debt, reply: Reply) {
    }

    proof fn obeys(operation: Self, ledger: Debt) {
    }
}

/// An attempt that unlocks for the waiter that it gives up, and so took the
/// waker of another one, wakes it before it is over, once it has stored the
/// wake state. It takes no waker where there is none.
pub proof fn attempt_wakes_whom_it_took(first: MutexLockFuture, replies: Seq<Reply>, i: int, j: int)
    requires
        first.wf(),
        first.begins() || first.step is LockCancel,
        is_course(first, replies),
        0 <= i < j <= replies.len(),
    ensures
        ledger(first, replies, Debt::none(), j).allows(point(first, replies, j).wants()),
        !ledger(first, replies, Debt::none(), j).missed,
        ({
            &&& point(first, replies, i).wants() is TakeWaker
            &&& replies[i].ok
            &&& point(first, replies, j).wants() is Done
        }) ==> exists|k: int| i < k < j && #[trigger] point(first, replies, k).wants() is Wake,
{
    always_allowed(first, replies, Debt::none(), j);
    if point(first, replies, i).wants() is TakeWaker && replies[i].ok && point(
        first,
        replies,
        j,
    ).wants() is Done {
        taken_waker_is_woken(first, replies, Debt::none(), i, j);
    }
}

impl Inner {
    /// How far the decision of the unlock has come.
    pub open spec fn decides(self, course: Handover) -> bool {
        match self {
            Inner::Pop { fair } => {
                &&& course.wish == fair
                &&& !course.popped
                &&& course.fair is None
                &&& !course.released
            },
            Inner::LoadWake { fair, .. } | Inner::SetNotified { fair, .. } => {
                &&& course.due
                &&& course.popped
                &&& course.fair == asked(fair)
                &&& !course.released
            },
            Inner::TakeWaker { fair, .. } => {
                &&& course.due
                &&& course.popped
                &&& course.fair == asked(fair)
                &&& course.wake == Some(NOTIFIED)
                &&& !course.released
            },
            Inner::CheckDeadline { .. } => {
                &&& course.due
                &&& course.popped
                &&& course.fair is None
                &&& course.wake == Some(NOTIFIED)
                &&& !course.released
            },
            Inner::SetAcquired { .. } => {
                &&& course.due
                &&& course.popped
                &&& course.fair == Some(true)
                &&& !course.released
            },
            Inner::CheckEmpty { acquired } => {
                &&& course.due
                &&& course.popped
                &&& course.fair == Some(acquired)
                &&& course.is_settled()
                &&& !course.released
            },
            Inner::KeepLocked => {
                &&& course.due
                &&& course.fair == Some(true)
                &&& course.is_settled()
                &&& !course.released
            },
            Inner::StoreWord { .. } => {
                &&& course.due
                &&& course.fair != Some(true)
                &&& course.is_settled()
                &&& !course.released
            },
            Inner::Done { .. } => {
                &&& course.due
                &&& course.is_settled()
                &&& course.released == (course.fair != Some(true))
            },
        }
    }
}

impl Keeps<Handover> for Unlock {
    open spec fn fits(&self, ledger: Handover) -> bool {
        &&& ledger.grant == ACQUIRED
        &&& !ledger.flagged
        &&& !ledger.lenient
        &&& ledger.due
        &&& match *self {
            Unlock::Release { fair } | Unlock::LockQueue { fair } => {
                &&& ledger.wish == fair
                &&& !ledger.popped
                &&& ledger.fair is None
                &&& !ledger.released
            },
            Unlock::Inner { inner } => inner.decides(ledger),
            Unlock::LeaveQueue { .. } => {
                &&& ledger.is_settled()
                &&& ledger.released == (ledger.fair != Some(true))
            },
            Unlock::Wake => ledger.is_settled() && ledger.released == (ledger.fair != Some(true)),
            Unlock::Released => {
                &&& ledger.is_settled()
                &&& ledger.released == (ledger.fair != Some(true))
            },
        }
    }

    proof fn goes_on(operation: Self, ledger: Handover, reply: Reply) {
        lemma_masks();
    }

    proof fn obeys(operation: Self, ledger: Handover) {
        lemma_masks();
    }
}

/// A fair unlock that takes a waiter off the queue leaves the held flag set
/// throughout and makes that waiter the holder, without asking how long it has
/// waited and whether or not others are left in the queue. Any other unlock asks
/// once, does the same for a waiter that has waited too long, and otherwise
/// clears the held flag and has the waiter try again.
pub proof fn fair_unlock_hands_over(fair: bool, replies: Seq<Reply>)
    requires
        is_course(Unlock::Release { fair }, replies),
    ensures
        ({
            let first = Unlock::Release { fair };
            let now = point(first, replies, replies.len() as int);
            let course = ledger(first, replies, Handover::by_wish(ACQUIRED, fair), replies.len() as int);
            &&& course.allows(now.wants())
            &&& now.wants() is Done ==> {
                &&& course.released == (course.fair != Some(true))
                &&& course.popped ==> (course.wake == Some(ACQUIRED)) == (course.fair
                    == Some(true))
                &&& course.popped && fair ==> course.fair == Some(true)
            }
        }),
{
    let first = Unlock::Release { fair };
    always_allowed(first, replies, Handover::by_wish(ACQUIRED, fair), replies.len() as int);
    handover::terms_stay(first, replies, Handover::by_wish(ACQUIRED, fair), replies.len() as int);
    if fair {
        let start = Handover::by_wish(ACQUIRED, fair);
        handover::wish_is_granted(first, replies, start, replies.len() as int);
    }
}

impl Keeps<Handover> for MutexLockFuture {
    open spec fn fits(&self, ledger: Handover) -> bool {
        &&& ledger.grant == ACQUIRED
        &&& !ledger.flagged
        &&& !ledger.lenient
        &&& match self.step {
            LockStep::Unlock { inner, .. } => inner.decides(ledger),
            LockStep::LeaveCancelled { .. }
            | LockStep::WakeOther { .. }
            | LockStep::ParkLate
            | LockStep::Failed => ledger.due ==> {
                &&& ledger.is_settled()
                &&& ledger.released == (ledger.fair != Some(true))
            },
            _ => {
                &&& !ledger.wish
                &&& !ledger.due
                &&& !ledger.popped
                &&& ledger.fair is None
                &&& !ledger.released
            },
        }
    }

    proof fn goes_on(operation: Self, ledger: Handover, reply: Reply) {
        lemma_masks();
    }

    proof fn obeys(operation: Self, ledger: Handover) {
        lemma_masks();
    }
}

/// An attempt that gives up a mutex that it was handed already either releases
/// it or hands it on: to the oldest waiter, if that one has waited too long.
pub proof fn attempt_gives_up_what_it_was_handed(first: MutexLockFuture, replies: Seq<Reply>)
    requires
        first.wf(),
        first.begins() || first.step is LockCancel,
        is_course(first, replies),
    ensures
        ({
            let now = point(first, replies, replies.len() as int);
            let start = Handover::none_due(ACQUIRED);
            let course = ledger(first, replies, start, replies.len() as int);
            &&& course.allows(now.wants())
            &&& now.wants() is Done && course.due ==> {
                &&& now.step is Failed
                &&& course.released == (course.fair != Some(true))
                &&& course.popped ==> (course.wake == Some(ACQUIRED)) == (course.fair
                    == Some(true))
            }
        }),
{
    let start = Handover::none_due(ACQUIRED);
    always_allowed(first, replies, start, replies.len() as int);
    handover::terms_stay(first, replies, start, replies.len() as int);
}

impl Inner {
    /// What the unlock has found of the queue, and what it has done about it.
    pub open spec fn marks(self, visit: Visit) -> bool {
        match self {
            Inner::KeepLocked => visit.empty == Some(true) && !visit.cleared,
            Inner::StoreWord { word, .. } => {
                &&& has_second(word) == (visit.empty != Some(true))
                &&& !visit.cleared
            },
            Inner::Done { .. } => visit.is_tidy(),
            Inner::Pop { .. } => visit.empty is None && !visit.cleared,
            _ => visit.empty is None && !visit.cleared && visit.serves,
        }
    }
}

impl Keeps<Visit> for MutexLockFuture {
    open spec fn fits(&self, ledger: Visit) -> bool {
        &&& ledger.node == self.waiter
        &&& ledger.timed == self.timed
        &&& ledger.verdict == true
        &&& ledger.drops == false
        &&& ledger.lingers == true
        &&& ledger.seeded == false
        &&& ledger.took ==> self.step is Locked
        &&& ledger.has_to_ask() ==> self.step is CheckDeadline
        &&& ledger.serves ==> {
            ||| self.step matches LockStep::Unlock { inner, .. } && !(inner is Pop)
            ||| self.step is LeaveCancelled
            ||| self.step is WakeOther
            ||| self.step is ParkLate
            ||| self.step is Failed
        }
        &&& match self.step {
            LockStep::Fast => {
                &&& !ledger.quits()
                &&& !ledger.inside
                &&& ledger.word is None
                &&& ledger.looked != Some(ACQUIRED)
            },
            LockStep::LoadWord { .. } | LockStep::LockQueue { .. } => {
                &&& !ledger.quits()
                &&& !ledger.inside
                &&& ledger.looked != Some(ACQUIRED)
            },
            LockStep::Take { state, .. }
            | LockStep::Yield { state, .. }
            | LockStep::Announce { state, .. } => {
                &&& !ledger.quits()
                &&& !ledger.inside
                &&& ledger.word == Some(state)
                &&& ledger.looked != Some(ACQUIRED)
            },
            LockStep::CheckWord { .. } => {
                &&& !ledger.quits()
                &&& ledger.inside
                &&& ledger.is_tidy()
                &&& ledger.empty is None
                &&& !ledger.removed
                &&& ledger.word is None
                &&& ledger.looked != Some(ACQUIRED)
            },
            LockStep::Leave { .. } => {
                &&& !ledger.quits()
                &&& ledger.inside
                &&& ledger.is_tidy()
                &&& ledger.looked != Some(ACQUIRED)
            },
            LockStep::SetWaker => {
                &&& !ledger.quits()
                &&& ledger.inside
                &&& !ledger.cleared
                &&& ledger.empty is None
                &&& !ledger.removed
                &&& ledger.may_join()
            },
            LockStep::SetDeadline => {
                &&& !ledger.quits()
                &&& ledger.inside
                &&& !ledger.cleared
                &&& ledger.empty is None
                &&& !ledger.removed
                &&& ledger.may_join()
                &&& ledger.waker
                &&& ledger.fresh
            },
            LockStep::SetWaiting => {
                &&& !ledger.quits()
                &&& ledger.inside
                &&& !ledger.cleared
                &&& ledger.empty is None
                &&& !ledger.removed
                &&& ledger.may_join()
                &&& ledger.waker
                &&& ledger.fresh
                &&& ledger.deadline
            },
            LockStep::Push => {
                &&& !ledger.quits()
                &&& ledger.inside
                &&& !ledger.cleared
                &&& ledger.empty is None
                &&& !ledger.removed
                &&& ledger.may_join()
                &&& ledger.waits()
                &&& ledger.deadline
            },
            LockStep::LeaveWaiting => {
                &&& !ledger.quits()
                &&& ledger.inside
                &&& ledger.is_tidy()
                &&& ledger.waits()
            },
            LockStep::Pending => {
                &&& !ledger.quits()
                &&& !ledger.inside
                &&& ledger.waits()
            },
            LockStep::CheckDeadline => ledger.has_to_ask() && !ledger.quits() && !ledger.inside && ledger.waker,
            LockStep::LockWait => !ledger.quits() && !ledger.inside && ledger.waker,
            LockStep::LoadWake => {
                &&& !ledger.quits()
                &&& ledger.inside
                &&& ledger.is_tidy()
                &&& ledger.waker
            },
            LockStep::CompareWaker | LockStep::ReplaceWaker => {
                &&& !ledger.quits()
                &&& ledger.inside
                &&& ledger.is_tidy()
                &&& ledger.wake == Some(WAITING)
                &&& ledger.waker
            },
            LockStep::LeaveRetry => {
                &&& !ledger.quits()
                &&& ledger.inside
                &&& ledger.is_tidy()
                &&& ledger.looked != Some(ACQUIRED)
            },
            LockStep::LeaveAcquired => {
                &&& !ledger.quits()
                &&& ledger.inside
                &&& ledger.is_tidy()
                &&& ledger.looked == Some(ACQUIRED)
            },
            LockStep::LockCancel { .. } => ledger.quits() && !ledger.inside,
            LockStep::LoadCancelled { .. } => {
                &&& ledger.quits()
                &&& ledger.inside
                &&& ledger.empty is None
                &&& !ledger.cleared
            },
            LockStep::Remove => {
                &&& ledger.quits()
                &&& ledger.inside
                &&& ledger.empty is None
                &&& !ledger.cleared
            },
            LockStep::Unlock { inner, .. } => {
                &&& ledger.quits()
                &&& ledger.inside
                &&& ledger.looked != Some(WAITING)
                &&& inner.marks(ledger)
            },
            LockStep::LeaveCancelled { late, .. } => {
                &&& ledger.quits()
                &&& ledger.inside
                &&& ledger.is_tidy()
                &&& late ==> ledger.looked != Some(WAITING)
            },
            LockStep::WakeOther { late } => {
                &&& ledger.quits()
                &&& !ledger.inside
                &&& late ==> ledger.looked != Some(WAITING)
            },
            LockStep::ParkLate => {
                &&& ledger.quits()
                &&& !ledger.inside
                &&& ledger.looked != Some(WAITING)
            },
            LockStep::Locked => {
                &&& !ledger.quits()
                &&& !ledger.inside
                &&& ledger.took || ledger.looked == Some(ACQUIRED)
            },
            LockStep::Failed => ledger.quits() && !ledger.inside,
        }
    }

    #[verifier::spinoff_prover]
    #[verifier::rlimit(60)]
    proof fn goes_on(operation: Self, ledger: Visit, reply: Reply) {
        lemma_masks();
    }

    proof fn obeys(operation: Self, ledger: Visit) {
        lemma_masks();
    }
}

/// An attempt that nobody cancels fails only if it has a deadline and, when it
/// asked about it last, was answered that it has come. As long as it is answered
/// otherwise it goes on towards the mutex: it takes the mutex, or finds that it was
/// handed it, or waits on, and it waits only as long as it knows of no
/// notification.
pub proof fn only_the_deadline_makes_it_fail(first: MutexLockFuture, replies: Seq<Reply>)
    requires
        first.wf(),
        first.begins(),
        is_course(first, replies),
    ensures
        ({
            let start = Visit::begin(first.waiter, first.timed, true, false, true, false);
            let now = point(first, replies, replies.len() as int);
            let visit = ledger(first, replies, start, replies.len() as int);
            &&& visit.allows(now.wants())
            &&& now.step is Failed ==> first.timed && visit.past == Some(true)
            &&& now.step is Locked ==> {
                &&& visit.took || visit.looked == Some(ACQUIRED)
                &&& !(first.timed && visit.past == Some(true))
            }
        }),
{
    let start = Visit::begin(first.waiter, first.timed, true, false, true, false);
    always_allowed(first, replies, start, replies.len() as int);
    terms_stay(first, replies, start, replies.len() as int);
}

/// An attempt that is cancelled fails, whatever it is answered, and leaves the
/// queue as it should be.
pub proof fn cancelled_attempt_fails(
    first: MutexLockFuture,
    start: Visit,
    replies: Seq<Reply>,
)
    requires
        first.wf(),
        first.step is LockCancel,
        start == Visit::begin(first.waiter, first.timed, true, false, true, false).cancel(),
        is_course(first, replies),
    ensures
        ({
            let now = point(first, replies, replies.len() as int);
            let visit = ledger(first, replies, start, replies.len() as int);
            &&& visit.allows(now.wants())
            &&& now.wants() is Done ==> now.step is Failed
        }),
{
    always_allowed(first, replies, start, replies.len() as int);
    terms_stay(first, replies, start, replies.len() as int);
}

impl Crowd for Kind {
    open spec fn is_quiet(word: usize) -> bool {
        is_locked(word) && !has_second(word)
    }

    open spec fn deadline(word: usize, node: usize) -> u32 {
        0
    }
}

impl Keeps<Waver<Kind>> for MutexLockFuture {
    open spec fn fits(&self, ledger: Waver<Kind>) -> bool {
        &&& ledger.forgets
        &&& ledger.inside == lock_stand(*self).inside
        &&& !ledger.dates
        &&& match self.step {
            LockStep::Fast => {
                &&& ledger.word is None
                &&& ledger.count == 0
                &&& !ledger.just
                &&& !ledger.again
            },
            LockStep::LoadWord { spin } => {
                &&& ledger.count == spin
                &&& ledger.just ==> ledger.again
            },
            LockStep::Yield { state, spin } => {
                &&& ledger.word == Some(state)
                &&& ledger.count == spin
                &&& Kind::is_quiet(state)
                &&& ledger.just
                &&& !ledger.again
                &&& !ledger.refused
            },
            LockStep::Take { state, spin } | LockStep::Announce { state, spin } => {
                &&& ledger.word is Some
                &&& ledger.count == spin
                &&& Kind::is_quiet(state) ==> ledger.refused
                &&& ledger.has_to_ask() ==> false
                &&& !ledger.again
            },
            _ => !ledger.has_to_ask() && !ledger.again,
        }
    }

    #[verifier::spinoff_prover]
    #[verifier::rlimit(40)]
    proof fn goes_on(operation: Self, ledger: Waver<Kind>, reply: Reply) {
    }

    proof fn obeys(operation: Self, ledger: Waver<Kind>) {
    }
}

/// An attempt that finds the mutex held and the queue empty asks the scheduler
/// whether to spin, and says how often it has done so since it was woken. It
/// looks again as long as it is told to, and joins the queue only when it is told
/// not to.
pub proof fn attempt_asks_before_it_queues(first: MutexLockFuture, replies: Seq<Reply>)
    requires
        first.wf(),
        first.begins(),
        is_course(first, replies),
    ensures
        ({
            let start = Waver::begin(Kind, true, false);
            let now = point(first, replies, replies.len() as int);
            ledger(first, replies, start, replies.len() as int).allows(now.wants())
        }),
{
    let start = Waver::begin(Kind, true, false);
    always_allowed(first, replies, start, replies.len() as int);
}

/// Whoever takes the lock sees what was done under it before.
#[verifier::spinoff_prover]
#[verifier::rlimit(40)]
pub proof fn what_was_done_is_seen(lock: MutexLockFuture, unlock: Unlock)
    requires
        lock.wf(),
        unlock.wf(),
    ensures
        keeps_the_lock_visible(lock.wants()),
        keeps_the_lock_visible(unlock.wants()),
{
    lemma_masks();
    if let LockStep::Announce { state, .. } = lock.step {
        assert(is_locked(set_second(state)) == is_locked(state));
    }
}

/// A waiter that joins the queue is preferred after a millisecond.
pub proof fn waiter_is_preferred_after_a_millisecond(lock: MutexLockFuture)
    ensures
        lock.wants() matches Access::SetDeadline(node, nanos) ==> {
            &&& node == lock.waiter
            &&& nanos == 1_000_000
        },
{
}

} // verus!
