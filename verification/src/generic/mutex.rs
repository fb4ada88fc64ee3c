//! A mutex whose waiters stand in a queue of its own, with a seed beside it.
//!
//! The state holds the held flag and the parked flag. The queue has a lock of
//! its own, and is touched under it only. A waiter sets the parked flag before
//! it joins the queue. Whoever unlocks takes the first waiter off; if that one
//! has waited past its deadline, or if the unlock is to be fair, it wakes up
//! as the holder.
use vstd::arithmetic::power2::pow2;
use vstd::prelude::*;
use crate::access::{Access, Operation, Order, Place, Reply};
use crate::course::{Keeps, Ledger, always_allowed, is_course, ledger, point};
use crate::custody::{Custody, Held};
use crate::debt::{Debt, taken_waker_is_woken};
use crate::exclusion::{Encoding, LockKind, Party, wake_of};
use crate::handover::{self, Handover, asked};
use crate::kernel::cpu::{Hints, hints_are_powers, spec_hints};
use crate::kernel::spin::{Spin, last_round};
use crate::kernel::wait_queue::List;
use crate::memory::{Shared, alone, at};
use crate::owners::{LockOwners, ParkOwners};
use crate::parking::{Parking, Parks, Stand, nowhere, without_one};
use crate::patience::{Crowd, Patience};
use crate::prng::{Prng, compose, xorshift};
use crate::try_lock::{TryLock, try_lock_is_lawful};
use crate::vigil::{Vigil, Watched, lock_is_up};
use crate::visibility::keeps_the_lock_visible;
use crate::visit::{Visit, terms_stay};
use crate::words::{
    FLAGS, LOCKED, NOT_SECOND, SECOND, UNLOCKED, has_second, is_locked, lemma_clear_second,
    lemma_masks, lemma_tagged_word, set_locked, set_second,
};

verus! {

/// The wait state of a waiter that is not in use.
pub const EMPTY: usize = 0;

/// The wait state of a waiter in the queue.
pub const WAITING: usize = 1;

/// The wait state of a waiter that may look at the mutex again.
pub const RETRY: usize = 2;

/// The wait state of a waiter that holds the mutex.
pub const ACQUIRED: usize = 3;

/// A value, the word that the mutex's state starts from, and the queue of those
/// who wait. The state itself is the word of the shared memory that the
/// operations work on.
#[derive(Debug)]
pub struct Mutex<T> {
    state: usize,
    value: T,
    queue: List,
}

/// Whether the address can be that of a waiter.
pub open spec fn is_waiter(node: usize) -> bool {
    node != 0
}

impl<T> Mutex<T> {
    pub closed spec fn state(self) -> usize {
        self.state
    }

    pub closed spec fn value(self) -> T {
        self.value
    }

    pub closed spec fn queue(self) -> List {
        self.queue
    }

    pub closed spec fn spec_new(value: T) -> Self {
        Mutex { state: UNLOCKED, value, queue: List::new() }
    }

    #[verifier::when_used_as_spec(spec_new)]
    pub fn new(value: T) -> (mutex: Self)
        ensures
            mutex == Self::spec_new(value),
            mutex.state() == UNLOCKED,
            mutex.value() == value,
            mutex.queue() == List::new(),
    {
        Mutex { state: UNLOCKED, value, queue: List::new() }
    }

    pub fn into_inner(self) -> (value: T)
        ensures
            value == self.value(),
    {
        self.value
    }

    /// Nobody else can have the mutex while it is borrowed to change.
    pub fn as_mut(&mut self) -> (value: &mut T)
        ensures
            *value == old(self).value(),
            final(self).value() == *final(value),
            final(self).state() == old(self).state(),
            final(self).queue() == old(self).queue(),
    {
        &mut self.value
    }

    /// The queue, once its own lock is held.
    pub fn with_queue(&mut self) -> (queue: &mut List)
        ensures
            *queue == old(self).queue(),
            final(self).queue() == *final(queue),
            final(self).state() == old(self).state(),
            final(self).value() == old(self).value(),
    {
        &mut self.queue
    }

    /// Begins to take the mutex if it is free.
    pub fn try_lock(&self) -> (attempt: TryLock)
        ensures
            attempt == TryLock::LoadWord,
            attempt.wf(),
            attempt.begins(),
    {
        TryLock::start()
    }

    /// Begins to take the mutex, waiting by the given waiter if need be.
    pub fn lock(&self, waiter: usize, intel: bool) -> (future: MutexLockFuture)
        requires
            is_waiter(waiter),
        ensures
            future == (MutexLockFuture { waiter, intel, timed: false, step: LockStep::Fast }),
            future.wf(),
            future.begins(),
    {
        MutexLockFuture { waiter, intel, timed: false, step: LockStep::Fast }
    }

    /// Begins to take the mutex as a task: the same operation as `lock`, with
    /// its waits left to the executor.
    pub fn lock_async(&self, waiter: usize, intel: bool) -> (future: MutexLockFuture)
        requires
            is_waiter(waiter),
        ensures
            future == (MutexLockFuture { waiter, intel, timed: false, step: LockStep::Fast }),
            future.wf(),
            future.begins(),
    {
        MutexLockFuture { waiter, intel, timed: false, step: LockStep::Fast }
    }

    /// Begins to take the mutex, waiting no longer than until a deadline that
    /// the runtime keeps.
    pub fn try_lock_until(&self, waiter: usize, intel: bool) -> (future: MutexLockFuture)
        requires
            is_waiter(waiter),
        ensures
            future == (MutexLockFuture { waiter, intel, timed: true, step: LockStep::Fast }),
            future.wf(),
            future.begins(),
    {
        MutexLockFuture { waiter, intel, timed: true, step: LockStep::Fast }
    }

    /// Begins to take the mutex, waiting no longer than for a timeout that the
    /// runtime keeps.
    pub fn try_lock_for(&self, waiter: usize, intel: bool) -> (future: MutexLockFuture)
        requires
            is_waiter(waiter),
        ensures
            future == (MutexLockFuture { waiter, intel, timed: true, step: LockStep::Fast }),
            future.wf(),
            future.begins(),
    {
        MutexLockFuture { waiter, intel, timed: true, step: LockStep::Fast }
    }

    /// Begins to give the mutex up.
    pub fn unlock(&self) -> (unlock: Unlock)
        ensures
            unlock == (Unlock::Release { fair: false }),
            unlock.wf(),
            unlock.begins(),
    {
        Unlock::Release { fair: false }
    }

    /// Begins to give the mutex up, to the waiter that waits longest if there
    /// is one.
    pub fn unlock_fair(&self) -> (unlock: Unlock)
        ensures
            unlock == (Unlock::Release { fair: true }),
            unlock.wf(),
            unlock.begins(),
    {
        Unlock::Release { fair: true }
    }
}

impl<T> From<T> for Mutex<T> {
    fn from(value: T) -> (mutex: Self) {
        Mutex::new(value)
    }
}

impl<T> vstd::std_specs::convert::FromSpecImpl<T> for Mutex<T> {
    open spec fn obeys_from_spec() -> bool {
        true
    }

    open spec fn from_spec(value: T) -> Self {
        Mutex::new(value)
    }
}

impl<T: Default> Default for Mutex<T> {
    fn default() -> (mutex: Self)
        ensures
            mutex.state() == UNLOCKED,
            mutex.queue() == List::new(),
            call_ensures(T::default, (), mutex.value()),
    {
        Mutex::new(T::default())
    }
}

/// The most nanoseconds that a waiter waits before it is handed the mutex.
pub const MAX_TIMEOUT: u32 = 1_000_000;

pub open spec fn spec_first_seed(waiter: usize) -> u16 {
    ((waiter >> 16) & 0xffff) as u16
}

/// The seed of a mutex that has none yet, from the address of a waiter.
#[verifier::when_used_as_spec(spec_first_seed)]
pub fn first_seed(waiter: usize) -> (seed: u16)
    ensures
        seed == spec_first_seed(waiter),
{
    ((waiter >> 16) & 0xffff) as u16
}

pub open spec fn spec_seed_to_draw(stored: usize, waiter: usize) -> u16 {
    if stored == 0 {
        first_seed(waiter)
    } else {
        stored as u16
    }
}

/// The seed to draw from.
#[verifier::when_used_as_spec(spec_seed_to_draw)]
pub fn seed_to_draw(stored: usize, waiter: usize) -> (seed: u16)
    requires
        stored < 65536,
    ensures
        seed == spec_seed_to_draw(stored, waiter),
{
    if stored == 0 {
        first_seed(waiter)
    } else {
        stored as u16
    }
}

pub open spec fn spec_timeout(seed: u16) -> u32 {
    compose(xorshift(seed), xorshift(xorshift(seed))) % MAX_TIMEOUT
}

/// How long the waiter that draws from a seed waits, in nanoseconds.
#[verifier::when_used_as_spec(spec_timeout)]
pub fn timeout(seed: u16) -> (nanos: u32)
    ensures
        nanos == spec_timeout(seed),
{
    let mut prng = Prng(seed);
    prng.gen_u32() % MAX_TIMEOUT
}

pub open spec fn spec_next_seed(seed: u16) -> u16 {
    xorshift(xorshift(seed))
}

/// The seed that is left when a timeout was drawn.
#[verifier::when_used_as_spec(spec_next_seed)]
pub fn next_seed(seed: u16) -> (next: u16)
    ensures
        next == spec_next_seed(seed),
{
    xorshift(xorshift(seed))
}

/// How far an attempt to lock is.
#[derive(Clone, Copy, PartialEq, Eq, Structural, Debug)]
pub enum LockStep {
    /// Takes a mutex that is free and has no waiters.
    Fast,
    LoadWord { spin: Spin },
    /// Takes a free mutex if the state is still `state`.
    Take { state: usize, spin: Spin },
    /// Sets the parked flag if the state is still `state`.
    Announce { state: usize, spin: Spin },
    LockQueue { spin: Spin },
    /// Looks at the state again, under the lock of the queue.
    CheckWord { spin: Spin },
    /// Leaves the queue to try again.
    Leave { spin: Spin },
    /// Makes sure that the waiter is not in use.
    CheckOwn,
    SetWaker,
    LoadSeed,
    StoreSeed { seed: u16 },
    SetDeadline { seed: u16 },
    SetWaiting,
    Push,
    /// Leaves the queue to wait.
    LeaveWaiting,
    Pending,
    /// Asks whether the deadline of the caller has come.
    CheckDeadline,
    /// Looks at whether the waiter was notified.
    LockWait,
    LoadWake,
    ReplaceWaker,
    /// Puts the waiter out of use again.
    Reset { acquired: bool },
    LeaveRetry,
    LeaveAcquired,
    /// Takes the waiter off the queue, to give up.
    LockCancel,
    LoadCancelled,
    SetEmpty { waiting: bool },
    Remove,
    CheckEmpty,
    ClearParked,
    /// Drops the waker of a waiter that was taken off the queue.
    DropWaker,
    LeaveCancelled,
    Locked,
    Failed,
}

/// An attempt to lock: the waiter it waits by, whether the processor is made by
/// Intel, and whether there is a deadline.
#[derive(Clone, Copy, PartialEq, Eq, Structural, Debug)]
pub struct MutexLockFuture {
    pub waiter: usize,
    pub intel: bool,
    pub timed: bool,
    pub step: LockStep,
}

impl MutexLockFuture {
    pub open spec fn spec_cancelled(self) -> Self {
        MutexLockFuture { step: LockStep::LockCancel, ..self }
    }

    /// Begins to give up an attempt that waits.
    pub fn poll_cancel(&mut self)
        requires
            old(self).wf(),
            old(self).step is Pending,
        ensures
            *final(self) == old(self).spec_cancelled(),
            old(self).gives_up(*final(self)),
            final(self).wf(),
    {
        self.step = LockStep::LockCancel;
    }
}

/// How many hints are made on account of a state word.
pub open spec fn poll_hints(state: usize, spin: Spin, intel: bool) -> nat {
    if is_locked(state) && !has_second(state) {
        spin.hints(intel)
    } else {
        0
    }
}

pub open spec fn spec_poll_lock(state: usize, spin: Spin, intel: bool) -> LockStep {
    if !is_locked(state) {
        LockStep::Take { state, spin }
    } else if has_second(state) {
        LockStep::LockQueue { spin }
    } else if spin.spec_yields(intel) {
        LockStep::LoadWord { spin: spin.spec_next(intel) }
    } else {
        LockStep::Announce { state, spin: spin.spec_next(intel) }
    }
}

/// What to do about a state: take the mutex if it is free, spin for a while if
/// nobody waits yet, and join the queue otherwise.
pub fn poll_lock(
    state: usize,
    spin: Spin,
    intel: bool,
    hints: &mut Hints,
) -> (step: LockStep)
    requires
        spin.wf(),
    ensures
        step == spec_poll_lock(state, spin, intel),
        final(hints).made() == old(hints).made() + poll_hints(state, spin, intel),
{
    let mut spin = spin;
    if !is_locked(state) {
        LockStep::Take { state, spin }
    } else if has_second(state) {
        LockStep::LockQueue { spin }
    } else if spin.yield_now(intel, hints) {
        LockStep::LoadWord { spin }
    } else {
        LockStep::Announce { state, spin }
    }
}

impl Operation for MutexLockFuture {
    open spec fn wf(&self) -> bool {
        &&& is_waiter(self.waiter)
        &&& match self.step {
            LockStep::LoadWord { spin }
            | LockStep::LockQueue { spin }
            | LockStep::CheckWord { spin }
            | LockStep::Leave { spin } => spin.wf(),
            LockStep::Take { state, spin } => !is_locked(state) && spin.wf(),
            LockStep::Announce { state, spin } => is_locked(state) && spin.wf(),
            _ => true,
        }
    }

    open spec fn wants(&self) -> Access {
        let node: usize = self.waiter;
        match self.step {
            LockStep::Fast => Access::CompareExchangeWeak(
                Place::Word,
                UNLOCKED,
                LOCKED,
                Order::Acquire,
                Order::Relaxed,
            ),
            LockStep::LoadWord { .. } => Access::Load(Place::Word, Order::Relaxed),
            LockStep::Take { state, .. } => Access::CompareExchangeWeak(
                Place::Word,
                state,
                set_locked(state),
                Order::Acquire,
                Order::Relaxed,
            ),
            LockStep::Announce { state, .. } => Access::CompareExchangeWeak(
                Place::Word,
                state,
                set_second(state),
                Order::Relaxed,
                Order::Relaxed,
            ),
            LockStep::LockQueue { .. } => Access::LockQueue,
            LockStep::CheckWord { .. } => Access::Load(Place::Word, Order::Relaxed),
            LockStep::Leave { .. } => Access::UnlockQueue,
            LockStep::CheckOwn => Access::Load(Place::Wake(node), Order::Relaxed),
            LockStep::SetWaker => Access::StoreWaker(node),
            LockStep::LoadSeed => Access::Load(Place::Prng, Order::Relaxed),
            LockStep::StoreSeed { seed } => Access::Store(
                Place::Prng,
                next_seed(seed) as usize,
                Order::Relaxed,
            ),
            LockStep::SetDeadline { seed } => Access::SetDeadline(node, timeout(seed)),
            LockStep::SetWaiting => Access::Store(Place::Wake(node), WAITING, Order::Relaxed),
            LockStep::Push => Access::PushBack(node),
            LockStep::LeaveWaiting => Access::UnlockQueue,
            LockStep::Pending => if self.timed {
                Access::ParkUntil
            } else {
                Access::Park
            },
            LockStep::CheckDeadline => Access::PastDeadline,
            LockStep::LockWait => Access::LockQueue,
            LockStep::LoadWake => Access::Load(Place::Wake(node), Order::Relaxed),
            LockStep::ReplaceWaker => Access::StoreWaker(node),
            LockStep::Reset { .. } => Access::Store(Place::Wake(node), EMPTY, Order::Relaxed),
            LockStep::LeaveRetry | LockStep::LeaveAcquired => Access::UnlockQueue,
            LockStep::LockCancel => Access::LockQueue,
            LockStep::LoadCancelled => Access::Load(Place::Wake(node), Order::Relaxed),
            LockStep::SetEmpty { .. } => Access::Store(Place::Wake(node), EMPTY, Order::Relaxed),
            LockStep::Remove => Access::Remove(node),
            LockStep::CheckEmpty => Access::IsQueueEmpty,
            LockStep::ClearParked => Access::FetchAnd(Place::Word, NOT_SECOND, Order::Relaxed),
            LockStep::DropWaker => Access::DropWaker(node),
            LockStep::LeaveCancelled => Access::UnlockQueue,
            LockStep::Locked | LockStep::Failed => Access::Done,
        }
    }

    /// A waiter is in use exactly while it is waited by, and in the queue exactly
    /// while it waits.
    open spec fn expects(&self, reply: Reply) -> bool {
        match self.step {
            LockStep::CheckOwn => reply.value == EMPTY,
            LockStep::LoadSeed => reply.value < 65536,
            LockStep::LoadWake | LockStep::LoadCancelled => WAITING <= reply.value <= ACQUIRED,
            LockStep::Remove => reply.ok,
            LockStep::Locked | LockStep::Failed => false,
            _ => true,
        }
    }

    open spec fn after(&self, reply: Reply) -> Self {
        let step = match self.step {
            LockStep::Fast => if reply.ok {
                LockStep::Locked
            } else {
                LockStep::LoadWord { spin: Spin::new() }
            },
            LockStep::LoadWord { spin } => spec_poll_lock(reply.value, spin, self.intel),
            LockStep::Take { spin, .. } => if reply.ok {
                LockStep::Locked
            } else {
                spec_poll_lock(reply.value, spin, self.intel)
            },
            LockStep::Announce { spin, .. } => if reply.ok {
                LockStep::LockQueue { spin }
            } else {
                spec_poll_lock(reply.value, spin, self.intel)
            },
            LockStep::LockQueue { spin } => LockStep::CheckWord { spin },
            LockStep::CheckWord { spin } => if reply.value == FLAGS {
                LockStep::CheckOwn
            } else {
                LockStep::Leave { spin }
            },
            LockStep::Leave { spin } => LockStep::LoadWord { spin },
            LockStep::CheckOwn => LockStep::SetWaker,
            LockStep::SetWaker => LockStep::LoadSeed,
            LockStep::LoadSeed => LockStep::StoreSeed {
                seed: seed_to_draw(reply.value, self.waiter),
            },
            LockStep::StoreSeed { seed } => LockStep::SetDeadline { seed },
            LockStep::SetDeadline { .. } => LockStep::SetWaiting,
            LockStep::SetWaiting => LockStep::Push,
            LockStep::Push => LockStep::LeaveWaiting,
            LockStep::LeaveWaiting => LockStep::Pending,
            LockStep::Pending => if self.timed {
                LockStep::CheckDeadline
            } else {
                LockStep::LockWait
            },
            LockStep::CheckDeadline => if reply.ok {
                LockStep::LockCancel
            } else {
                LockStep::LockWait
            },
            LockStep::LockWait => LockStep::LoadWake,
            LockStep::LoadWake => if reply.value == WAITING {
                LockStep::ReplaceWaker
            } else {
                LockStep::Reset { acquired: reply.value == ACQUIRED }
            },
            LockStep::ReplaceWaker => LockStep::LeaveWaiting,
            LockStep::Reset { acquired } => if acquired {
                LockStep::LeaveAcquired
            } else {
                LockStep::LeaveRetry
            },
            LockStep::LeaveRetry => LockStep::LoadWord { spin: Spin::new() },
            LockStep::LeaveAcquired => LockStep::Locked,
            LockStep::LockCancel => LockStep::LoadCancelled,
            LockStep::LoadCancelled => LockStep::SetEmpty { waiting: reply.value == WAITING },
            LockStep::SetEmpty { waiting } => if waiting {
                LockStep::Remove
            } else {
                LockStep::LeaveCancelled
            },
            LockStep::Remove => LockStep::CheckEmpty,
            LockStep::CheckEmpty => if reply.ok {
                LockStep::ClearParked
            } else {
                LockStep::DropWaker
            },
            LockStep::ClearParked => LockStep::DropWaker,
            LockStep::DropWaker => LockStep::LeaveCancelled,
            LockStep::LeaveCancelled => LockStep::Failed,
            LockStep::Locked => LockStep::Locked,
            LockStep::Failed => LockStep::Failed,
        };
        MutexLockFuture { step, ..*self }
    }

    open spec fn hints(&self, reply: Reply) -> nat {
        match self.step {
            LockStep::LoadWord { spin } => poll_hints(reply.value, spin, self.intel),
            LockStep::Take { spin, .. } if !reply.ok => poll_hints(reply.value, spin, self.intel),
            LockStep::Announce { spin, .. } if !reply.ok => poll_hints(reply.value, spin, self.intel),
            _ => 0,
        }
    }

    fn accepts(&self, reply: Reply) -> (accepted: bool) {
        match self.step {
            LockStep::CheckOwn => reply.value == EMPTY,
            LockStep::LoadSeed => reply.value < 65536,
            LockStep::LoadWake | LockStep::LoadCancelled => WAITING <= reply.value && reply.value <= ACQUIRED,
            LockStep::Remove => reply.ok,
            LockStep::Locked | LockStep::Failed => false,
            _ => true,
        }
    }

    fn access(&self) -> (access: Access) {
        let node: usize = self.waiter;
        match self.step {
            LockStep::Fast => Access::CompareExchangeWeak(
                Place::Word,
                UNLOCKED,
                LOCKED,
                Order::Acquire,
                Order::Relaxed,
            ),
            LockStep::LoadWord { .. } => Access::Load(Place::Word, Order::Relaxed),
            LockStep::Take { state, .. } => Access::CompareExchangeWeak(
                Place::Word,
                state,
                set_locked(state),
                Order::Acquire,
                Order::Relaxed,
            ),
            LockStep::Announce { state, .. } => Access::CompareExchangeWeak(
                Place::Word,
                state,
                set_second(state),
                Order::Relaxed,
                Order::Relaxed,
            ),
            LockStep::LockQueue { .. } => Access::LockQueue,
            LockStep::CheckWord { .. } => Access::Load(Place::Word, Order::Relaxed),
            LockStep::Leave { .. } => Access::UnlockQueue,
            LockStep::CheckOwn => Access::Load(Place::Wake(node), Order::Relaxed),
            LockStep::SetWaker => Access::StoreWaker(node),
            LockStep::LoadSeed => Access::Load(Place::Prng, Order::Relaxed),
            LockStep::StoreSeed { seed } => Access::Store(
                Place::Prng,
                next_seed(seed) as usize,
                Order::Relaxed,
            ),
            LockStep::SetDeadline { seed } => Access::SetDeadline(node, timeout(seed)),
            LockStep::SetWaiting => Access::Store(Place::Wake(node), WAITING, Order::Relaxed),
            LockStep::Push => Access::PushBack(node),
            LockStep::LeaveWaiting => Access::UnlockQueue,
            LockStep::Pending => if self.timed {
                Access::ParkUntil
            } else {
                Access::Park
            },
            LockStep::CheckDeadline => Access::PastDeadline,
            LockStep::LockWait => Access::LockQueue,
            LockStep::LoadWake => Access::Load(Place::Wake(node), Order::Relaxed),
            LockStep::ReplaceWaker => Access::StoreWaker(node),
            LockStep::Reset { .. } => Access::Store(Place::Wake(node), EMPTY, Order::Relaxed),
            LockStep::LeaveRetry | LockStep::LeaveAcquired => Access::UnlockQueue,
            LockStep::LockCancel => Access::LockQueue,
            LockStep::LoadCancelled => Access::Load(Place::Wake(node), Order::Relaxed),
            LockStep::SetEmpty { .. } => Access::Store(Place::Wake(node), EMPTY, Order::Relaxed),
            LockStep::Remove => Access::Remove(node),
            LockStep::CheckEmpty => Access::IsQueueEmpty,
            LockStep::ClearParked => Access::FetchAnd(Place::Word, NOT_SECOND, Order::Relaxed),
            LockStep::DropWaker => Access::DropWaker(node),
            LockStep::LeaveCancelled => Access::UnlockQueue,
            LockStep::Locked | LockStep::Failed => Access::Done,
        }
    }

    fn resume(&mut self, reply: Reply, hints: &mut Hints) {
        self.step =
        match self.step {
            LockStep::Fast => if reply.ok {
                LockStep::Locked
            } else {
                LockStep::LoadWord { spin: Spin::new() }
            },
            LockStep::LoadWord { spin } => poll_lock(reply.value, spin, self.intel, hints),
            LockStep::Take { spin, .. } => if reply.ok {
                LockStep::Locked
            } else {
                poll_lock(reply.value, spin, self.intel, hints)
            },
            LockStep::Announce { spin, .. } => if reply.ok {
                LockStep::LockQueue { spin }
            } else {
                poll_lock(reply.value, spin, self.intel, hints)
            },
            LockStep::LockQueue { spin } => LockStep::CheckWord { spin },
            LockStep::CheckWord { spin } => if reply.value == FLAGS {
                LockStep::CheckOwn
            } else {
                LockStep::Leave { spin }
            },
            LockStep::Leave { spin } => LockStep::LoadWord { spin },
            LockStep::CheckOwn => LockStep::SetWaker,
            LockStep::SetWaker => LockStep::LoadSeed,
            LockStep::LoadSeed => LockStep::StoreSeed {
                seed: seed_to_draw(reply.value, self.waiter),
            },
            LockStep::StoreSeed { seed } => LockStep::SetDeadline { seed },
            LockStep::SetDeadline { .. } => LockStep::SetWaiting,
            LockStep::SetWaiting => LockStep::Push,
            LockStep::Push => LockStep::LeaveWaiting,
            LockStep::LeaveWaiting => LockStep::Pending,
            LockStep::Pending => if self.timed {
                LockStep::CheckDeadline
            } else {
                LockStep::LockWait
            },
            LockStep::CheckDeadline => if reply.ok {
                LockStep::LockCancel
            } else {
                LockStep::LockWait
            },
            LockStep::LockWait => LockStep::LoadWake,
            LockStep::LoadWake => if reply.value == WAITING {
                LockStep::ReplaceWaker
            } else {
                LockStep::Reset { acquired: reply.value == ACQUIRED }
            },
            LockStep::ReplaceWaker => LockStep::LeaveWaiting,
            LockStep::Reset { acquired } => if acquired {
                LockStep::LeaveAcquired
            } else {
                LockStep::LeaveRetry
            },
            LockStep::LeaveRetry => LockStep::LoadWord { spin: Spin::new() },
            LockStep::LeaveAcquired => LockStep::Locked,
            LockStep::LockCancel => LockStep::LoadCancelled,
            LockStep::LoadCancelled => LockStep::SetEmpty { waiting: reply.value == WAITING },
            LockStep::SetEmpty { waiting } => if waiting {
                LockStep::Remove
            } else {
                LockStep::LeaveCancelled
            },
            LockStep::Remove => LockStep::CheckEmpty,
            LockStep::CheckEmpty => if reply.ok {
                LockStep::ClearParked
            } else {
                LockStep::DropWaker
            },
            LockStep::ClearParked => LockStep::DropWaker,
            LockStep::DropWaker => LockStep::LeaveCancelled,
            LockStep::LeaveCancelled => LockStep::Failed,
            LockStep::Locked => LockStep::Locked,
            LockStep::Failed => LockStep::Failed,
        };
    }
}

impl Party for MutexLockFuture {
    open spec fn begins(&self) -> bool {
        self.step is Fast
    }

    open spec fn holds(&self, memory: Shared) -> bool {
        ||| self.step is Locked
        ||| self.step is LeaveAcquired
        ||| self.step == (LockStep::Reset { acquired: true })
        ||| !(self.step is Failed) && wake_of(memory, self.waiter) == ACQUIRED
    }

    open spec fn waiter(&self) -> usize {
        self.waiter
    }

    open spec fn admits(&self, memory: Shared, reply: Reply) -> bool {
        true
    }

    open spec fn gives_up(&self, other: Self) -> bool {
        self.step is Pending && other == self.spec_cancelled()
    }
}

/// How far an unlock is. `fair` says whether the waiter is handed the mutex in
/// any case; `last` whether no other waiter is left in the queue.
#[derive(Clone, Copy, PartialEq, Eq, Structural, Debug)]
pub enum Unlock {
    /// Clears the held flag of a mutex that has no waiters.
    Release { fair: bool },
    LockQueue { fair: bool },
    Pop { fair: bool },
    LoadWake { node: usize, fair: bool },
    SetRetry { node: usize, fair: bool },
    TakeWaker { node: usize, fair: bool },
    CheckEmpty { node: usize, fair: bool },
    /// Asks whether the waiter has waited long enough.
    CheckDeadline { node: usize, last: bool },
    SetAcquired { node: usize, last: bool },
    /// Keeps the held flag, and clears the parked flag.
    KeepLocked,
    StoreWord { word: usize, woke: bool },
    LeaveQueue { woke: bool },
    Wake,
    Released,
}

impl Operation for Unlock {
    open spec fn wf(&self) -> bool {
        match *self {
            Unlock::StoreWord { word, .. } => !is_locked(word),
            _ => true,
        }
    }

    open spec fn wants(&self) -> Access {
        match *self {
            Unlock::Release { .. } => Access::CompareExchange(
                Place::Word,
                LOCKED,
                UNLOCKED,
                Order::Release,
                Order::Relaxed,
            ),
            Unlock::LockQueue { .. } => Access::LockQueue,
            Unlock::Pop { .. } => Access::PopFront,
            Unlock::LoadWake { node, .. } => Access::Load(Place::Wake(node), Order::Relaxed),
            Unlock::SetRetry { node, .. } => Access::Store(Place::Wake(node), RETRY, Order::Relaxed),
            Unlock::TakeWaker { node, .. } => Access::TakeWaker(node),
            Unlock::CheckEmpty { .. } => Access::IsQueueEmpty,
            Unlock::CheckDeadline { node, .. } => Access::Expired(node),
            Unlock::SetAcquired { node, .. } => Access::Store(
                Place::Wake(node),
                ACQUIRED,
                Order::Relaxed,
            ),
            Unlock::KeepLocked => Access::Store(Place::Word, LOCKED, Order::Relaxed),
            Unlock::StoreWord { word, .. } => Access::Store(Place::Word, word, Order::Release),
            Unlock::LeaveQueue { .. } => Access::UnlockQueue,
            Unlock::Wake => Access::Wake,
            Unlock::Released => Access::Done,
        }
    }

    /// Every waiter in the queue waits and has a waker.
    open spec fn expects(&self, reply: Reply) -> bool {
        match *self {
            Unlock::LoadWake { .. } => reply.value == WAITING,
            Unlock::TakeWaker { .. } => reply.ok,
            Unlock::Released => false,
            _ => true,
        }
    }

    open spec fn after(&self, reply: Reply) -> Self {
        match *self {
            Unlock::Release { fair } => if reply.ok {
                Unlock::Released
            } else {
                Unlock::LockQueue { fair }
            },
            Unlock::LockQueue { fair } => Unlock::Pop { fair },
            Unlock::Pop { fair } => if reply.ok {
                Unlock::LoadWake { node: reply.value, fair }
            } else {
                Unlock::StoreWord { word: UNLOCKED, woke: false }
            },
            Unlock::LoadWake { node, fair } => Unlock::SetRetry { node, fair },
            Unlock::SetRetry { node, fair } => Unlock::TakeWaker { node, fair },
            Unlock::TakeWaker { node, fair } => Unlock::CheckEmpty { node, fair },
            Unlock::CheckEmpty { node, fair } => if fair {
                Unlock::SetAcquired { node, last: reply.ok }
            } else {
                Unlock::CheckDeadline { node, last: reply.ok }
            },
            Unlock::CheckDeadline { node, last } => if reply.ok {
                Unlock::SetAcquired { node, last }
            } else if last {
                Unlock::StoreWord { word: UNLOCKED, woke: true }
            } else {
                Unlock::StoreWord { word: SECOND, woke: true }
            },
            Unlock::SetAcquired { last, .. } => if last {
                Unlock::KeepLocked
            } else {
                Unlock::LeaveQueue { woke: true }
            },
            Unlock::KeepLocked => Unlock::LeaveQueue { woke: true },
            Unlock::StoreWord { woke, .. } => Unlock::LeaveQueue { woke },
            Unlock::LeaveQueue { woke } => if woke {
                Unlock::Wake
            } else {
                Unlock::Released
            },
            Unlock::Wake => Unlock::Released,
            Unlock::Released => Unlock::Released,
        }
    }

    fn accepts(&self, reply: Reply) -> (accepted: bool) {
        match *self {
            Unlock::LoadWake { .. } => reply.value == WAITING,
            Unlock::TakeWaker { .. } => reply.ok,
            Unlock::Released => false,
            _ => true,
        }
    }

    fn access(&self) -> (access: Access) {
        match *self {
            Unlock::Release { .. } => Access::CompareExchange(
                Place::Word,
                LOCKED,
                UNLOCKED,
                Order::Release,
                Order::Relaxed,
            ),
            Unlock::LockQueue { .. } => Access::LockQueue,
            Unlock::Pop { .. } => Access::PopFront,
            Unlock::LoadWake { node, .. } => Access::Load(Place::Wake(node), Order::Relaxed),
            Unlock::SetRetry { node, .. } => Access::Store(Place::Wake(node), RETRY, Order::Relaxed),
            Unlock::TakeWaker { node, .. } => Access::TakeWaker(node),
            Unlock::CheckEmpty { .. } => Access::IsQueueEmpty,
            Unlock::CheckDeadline { node, .. } => Access::Expired(node),
            Unlock::SetAcquired { node, .. } => Access::Store(
                Place::Wake(node),
                ACQUIRED,
                Order::Relaxed,
            ),
            Unlock::KeepLocked => Access::Store(Place::Word, LOCKED, Order::Relaxed),
            Unlock::StoreWord { word, .. } => Access::Store(Place::Word, word, Order::Release),
            Unlock::LeaveQueue { .. } => Access::UnlockQueue,
            Unlock::Wake => Access::Wake,
            Unlock::Released => Access::Done,
        }
    }

    fn resume(&mut self, reply: Reply, _hints: &mut Hints) {
        *self =
        match *self {
            Unlock::Release { fair } => if reply.ok {
                Unlock::Released
            } else {
                Unlock::LockQueue { fair }
            },
            Unlock::LockQueue { fair } => Unlock::Pop { fair },
            Unlock::Pop { fair } => if reply.ok {
                Unlock::LoadWake { node: reply.value, fair }
            } else {
                Unlock::StoreWord { word: UNLOCKED, woke: false }
            },
            Unlock::LoadWake { node, fair } => Unlock::SetRetry { node, fair },
            Unlock::SetRetry { node, fair } => Unlock::TakeWaker { node, fair },
            Unlock::TakeWaker { node, fair } => Unlock::CheckEmpty { node, fair },
            Unlock::CheckEmpty { node, fair } => if fair {
                Unlock::SetAcquired { node, last: reply.ok }
            } else {
                Unlock::CheckDeadline { node, last: reply.ok }
            },
            Unlock::CheckDeadline { node, last } => if reply.ok {
                Unlock::SetAcquired { node, last }
            } else if last {
                Unlock::StoreWord { word: UNLOCKED, woke: true }
            } else {
                Unlock::StoreWord { word: SECOND, woke: true }
            },
            Unlock::SetAcquired { last, .. } => if last {
                Unlock::KeepLocked
            } else {
                Unlock::LeaveQueue { woke: true }
            },
            Unlock::KeepLocked => Unlock::LeaveQueue { woke: true },
            Unlock::StoreWord { woke, .. } => Unlock::LeaveQueue { woke },
            Unlock::LeaveQueue { woke } => if woke {
                Unlock::Wake
            } else {
                Unlock::Released
            },
            Unlock::Wake => Unlock::Released,
            Unlock::Released => Unlock::Released,
        };
    }
}

impl Party for Unlock {
    open spec fn begins(&self) -> bool {
        self is Release
    }

    open spec fn holds(&self, memory: Shared) -> bool {
        match *self {
            Unlock::KeepLocked | Unlock::LeaveQueue { .. } | Unlock::Wake | Unlock::Released => false,
            _ => true,
        }
    }

    open spec fn waiter(&self) -> usize {
        0
    }

    open spec fn admits(&self, memory: Shared, reply: Reply) -> bool {
        true
    }
}

/// Taking a free mutex that nobody waits for and giving it up again, with nothing
/// in between, succeeds at once and leaves everything as it was.
pub proof fn undisturbed_round_trip(lock: MutexLockFuture, unlock: Unlock, memory: Shared)
    requires
        lock.begins(),
        unlock.begins(),
        memory.word == UNLOCKED,
    ensures
        alone(lock, memory, 1) == (MutexLockFuture { step: LockStep::Locked, ..lock }, Shared { word: LOCKED, ..memory }),
        alone(unlock, Shared { word: LOCKED, ..memory }, 1) == (Unlock::Released, memory),
{
    reveal_with_fuel(alone, 2);
}

/// The mutex of this module, as [`crate::exclusion`], [`crate::parking`] and
/// [`crate::vigil`] speak of it. Their laws hold of it, among them
/// [`crate::exclusion::mutual_exclusion`],
/// [`crate::parking::every_reply_is_expected`],
/// [`crate::parking::nobody_is_forgotten`] and
/// [`crate::vigil::free_mutex_is_not_left_alone`].
pub struct Kind;

impl Encoding for Kind {
    open spec fn is_held(word: usize) -> bool {
        is_locked(word)
    }

    /// A waiter that is notified as the holder has been handed the mutex.
    open spec fn grants(wake: usize) -> bool {
        wake == ACQUIRED
    }
}

impl LockKind for Kind {
    type Try = TryLock;

    type Lock = MutexLockFuture;

    type Unlock = Unlock;

    proof fn try_frame(party: TryLock, memory: Shared, next: Shared) {
        assert(party.waiter() == 0 && party.holds(memory) == party.holds(next));
    }

    proof fn lock_frame(party: MutexLockFuture, memory: Shared, next: Shared) {
        assert(party.waiter() != 0);
        assert(party.begins() ==> !party.holds(memory) || Self::grants(wake_of(memory, party.waiter())));
    }

    proof fn unlock_frame(party: Unlock, memory: Shared, next: Shared) {
        assert(party.waiter() == 0 && party.holds(memory) == party.holds(next));
    }

    proof fn lock_given_up(party: MutexLockFuture, other: MutexLockFuture, memory: Shared) {
        assert(party.gives_up(other) ==> other.waiter() == party.waiter() && other.holds(memory) == party.holds(memory));
    }

    proof fn try_step(party: TryLock, memory: Shared, reply: Reply, next: Shared) {
        try_lock_is_lawful::<Self>(party, memory, reply, next);
    }

    #[verifier::rlimit(50)]
    proof fn lock_step(party: MutexLockFuture, memory: Shared, reply: Reply, next: Shared) {
        lemma_clear_second(memory.word);
    }

    proof fn unlock_step(party: Unlock, memory: Shared, reply: Reply, next: Shared) {
    }
}

/// Whether the waiter can be woken.
pub open spec fn is_ready(memory: Shared, node: usize) -> bool {
    wake_of(memory, node) == WAITING && (memory.wakers)(node)
}

/// Whether the waiter was notified.
pub open spec fn is_woken(memory: Shared, node: usize) -> bool {
    wake_of(memory, node) == RETRY || wake_of(memory, node) == ACQUIRED
}

/// Where an attempt to lock stands.
pub open spec fn lock_stand(lock: MutexLockFuture) -> Stand {
    let own = lock.waiter;
    match lock.step {
        LockStep::Fast
        | LockStep::LoadWord { .. }
        | LockStep::Take { .. }
        | LockStep::Announce { .. }
        | LockStep::LockQueue { .. }
        | LockStep::Locked
        | LockStep::Failed => Stand { own, ..nowhere() },
        LockStep::CheckWord { .. }
        | LockStep::Leave { .. }
        | LockStep::CheckOwn
        | LockStep::SetWaker
        | LockStep::LoadSeed
        | LockStep::StoreSeed { .. }
        | LockStep::SetDeadline { .. }
        | LockStep::SetWaiting
        | LockStep::Push
        | LockStep::LeaveRetry
        | LockStep::LeaveAcquired
        | LockStep::CheckEmpty
        | LockStep::ClearParked
        | LockStep::DropWaker
        | LockStep::LeaveCancelled => Stand { own, inside: true, ..nowhere() },
        LockStep::Pending
        | LockStep::CheckDeadline
        | LockStep::LockWait
        | LockStep::LockCancel => Stand { own, waits: true, ..nowhere() },
        LockStep::LeaveWaiting
        | LockStep::LoadWake
        | LockStep::ReplaceWaker
        | LockStep::Reset { .. }
        | LockStep::LoadCancelled
        | LockStep::SetEmpty { .. }
        | LockStep::Remove => Stand { own, inside: true, waits: true, ..nowhere() },
    }
}

/// What an attempt to lock knows about the queue and its waiter.
pub open spec fn lock_knows(lock: MutexLockFuture, memory: Shared) -> bool {
    let node = lock.waiter;
    let queue = memory.queue;
    let wake = wake_of(memory, node);
    let joining = is_locked(memory.word) && has_second(memory.word);
    match lock.step {
        LockStep::Fast
        | LockStep::LoadWord { .. }
        | LockStep::Take { .. }
        | LockStep::Announce { .. }
        | LockStep::LockQueue { .. }
        | LockStep::CheckWord { .. }
        | LockStep::Leave { .. }
        | LockStep::LeaveRetry => wake == EMPTY,
        LockStep::CheckOwn => wake == EMPTY && joining,
        LockStep::SetWaker => wake == EMPTY && joining,
        LockStep::LoadSeed
        | LockStep::StoreSeed { .. }
        | LockStep::SetDeadline { .. }
        | LockStep::SetWaiting => wake == EMPTY && joining && (memory.wakers)(node),
        LockStep::Push => joining && is_ready(memory, node),
        LockStep::LoadWake | LockStep::LoadCancelled => {
            ||| queue.contains(node) && is_ready(memory, node)
            ||| !queue.contains(node) && is_woken(memory, node)
        },
        LockStep::ReplaceWaker | LockStep::LeaveWaiting => queue.contains(node) && is_ready(
            memory,
            node,
        ),
        LockStep::Reset { acquired } => {
            !queue.contains(node) && (wake == ACQUIRED ==> acquired)
        },
        LockStep::SetEmpty { waiting } => queue.contains(node) == waiting,
        LockStep::Remove => wake == EMPTY && queue.contains(node),
        LockStep::CheckEmpty | LockStep::DropWaker | LockStep::LeaveCancelled => wake == EMPTY,
        LockStep::ClearParked => wake == EMPTY && queue.len() == 0,
        _ => true,
    }
}

/// Where an unlock stands.
pub open spec fn unlock_stand(unlock: Unlock) -> Stand {
    match unlock {
        Unlock::Pop { .. } => Stand { inside: true, ..nowhere() },
        Unlock::LoadWake { node, .. }
        | Unlock::SetRetry { node, .. }
        | Unlock::TakeWaker { node, .. }
        | Unlock::CheckEmpty { node, .. }
        | Unlock::CheckDeadline { node, .. }
        | Unlock::SetAcquired { node, .. } => Stand { inside: true, grip: node, ..nowhere() },
        Unlock::KeepLocked => Stand { inside: true, roused: true, ..nowhere() },
        Unlock::StoreWord { woke, .. } | Unlock::LeaveQueue { woke } => Stand {
            inside: true,
            roused: woke,
            ..nowhere()
        },
        _ => nowhere(),
    }
}

/// What an unlock knows about the queue and the waiter that it wakes.
pub open spec fn unlock_knows(unlock: Unlock, memory: Shared) -> bool {
    let parked = is_locked(memory.word) && has_second(memory.word);
    match unlock {
        Unlock::LoadWake { node, .. } | Unlock::SetRetry { node, .. } => {
            parked && node != 0 && is_ready(memory, node)
        },
        Unlock::TakeWaker { node, .. } => {
            parked && node != 0 && wake_of(memory, node) == RETRY && (memory.wakers)(node)
        },
        Unlock::CheckEmpty { node, .. } => parked && node != 0 && wake_of(memory, node) == RETRY,
        Unlock::CheckDeadline { node, last } | Unlock::SetAcquired { node, last } => {
            &&& parked
            &&& node != 0
            &&& wake_of(memory, node) == RETRY
            &&& last ==> memory.queue.len() == 0
        },
        Unlock::KeepLocked => parked && memory.queue.len() == 0,
        Unlock::StoreWord { word, woke } => memory.queue.len() > 0 ==> has_second(word) && woke,
        _ => true,
    }
}

impl Parks for Kind {
    open spec fn is_tidy(memory: Shared) -> bool {
        at(memory, Place::Prng) < 65536
    }

    open spec fn is_parked(word: usize) -> bool {
        has_second(word)
    }

    open spec fn ready(memory: Shared, node: usize) -> bool {
        is_ready(memory, node)
    }

    open spec fn woken(memory: Shared, node: usize) -> bool {
        is_woken(memory, node)
    }

    open spec fn fresh(memory: Shared, node: usize) -> bool {
        wake_of(memory, node) == EMPTY
    }

    open spec fn lock_stand(lock: MutexLockFuture) -> Stand {
        lock_stand(lock)
    }

    open spec fn unlock_stand(unlock: Unlock) -> Stand {
        unlock_stand(unlock)
    }

    open spec fn lock_knows(lock: MutexLockFuture, memory: Shared) -> bool {
        lock_knows(lock, memory)
    }

    open spec fn unlock_knows(unlock: Unlock, memory: Shared) -> bool {
        unlock_knows(unlock, memory)
    }

    open spec fn lock_admits(lock: MutexLockFuture, memory: Shared, reply: Reply) -> bool {
        true
    }

    open spec fn unlock_admits(unlock: Unlock, memory: Shared, reply: Reply) -> bool {
        true
    }
}

impl Parking for Kind {
    proof fn of_waiters(memory: Shared, node: usize) {
        assert(is_ready(memory, node) ==> !is_woken(memory, node));
    }

    proof fn waiter_frame(memory: Shared, next: Shared, node: usize) {
        assert(is_ready(memory, node) == is_ready(next, node));
        assert(is_woken(memory, node) == is_woken(next, node));
    }

    proof fn lock_knows_frame(lock: MutexLockFuture, memory: Shared, next: Shared) {
        assert(lock.waiter() == lock.waiter);
        assert(lock_knows(lock, memory) ==> lock_knows(lock, next));
    }

    proof fn unlock_knows_frame(unlock: Unlock, memory: Shared, next: Shared) {
        assert(unlock_knows(unlock, memory) ==> unlock_knows(unlock, next));
    }

    proof fn lock_stands_on(lock: MutexLockFuture, other: MutexLockFuture, memory: Shared) {
        assert(lock.gives_up(other) ==> lock_stand(other) == lock_stand(lock));
    }

    proof fn try_obeys(attempt: TryLock, memory: Shared, reply: Reply, next: Shared) {
        lemma_tagged_word(memory.word, 0);
    }

    #[verifier::rlimit(50)]
    proof fn lock_obeys(lock: MutexLockFuture, memory: Shared, reply: Reply, next: Shared) {
        lemma_tagged_word(memory.word, 0);
        Self::of_waiters(memory, lock.waiter);
        without_one(memory.queue, lock.waiter);
        if lock.step is Push {
            assert(next.queue[memory.queue.len() as int] == lock.waiter);
        }
    }

    #[verifier::rlimit(50)]
    proof fn unlock_obeys(unlock: Unlock, memory: Shared, reply: Reply, next: Shared) {
        lemma_tagged_word(memory.word, 0);
        if memory.queue.len() > 0 {
            assert(memory.queue.contains(memory.queue[0]));
        }
    }
}

impl Watched for Kind {
    open spec fn strives(lock: MutexLockFuture) -> bool {
        match lock.step {
            LockStep::SetEmpty { .. }
            | LockStep::Remove
            | LockStep::CheckEmpty
            | LockStep::ClearParked
            | LockStep::DropWaker
            | LockStep::LeaveCancelled
            | LockStep::Locked
            | LockStep::Failed => false,
            _ => true,
        }
    }

    /// A waiter that gives up after it was told to try again does not pass that on.
    open spec fn heeds(lock: MutexLockFuture, memory: Shared) -> bool {
        lock.step is LoadCancelled ==> wake_of(memory, lock.waiter) != RETRY
    }
}

impl Vigil for Kind {
    proof fn of_striving(lock: MutexLockFuture) {
        assert(lock_stand(lock).own == lock.waiter);
    }

    proof fn try_watches(attempt: TryLock, memory: Shared, reply: Reply, next: Shared) {
        lemma_tagged_word(memory.word, 0);
    }

    proof fn lock_watches(lock: MutexLockFuture, memory: Shared, reply: Reply, next: Shared) {
        lemma_tagged_word(memory.word, 0);
        Self::of_waiters(memory, lock.waiter);
        without_one(memory.queue, lock.waiter);
        if next.queue.len() > 0 {
            assert(next.queue.contains(next.queue[0]));
        }
        assert(lock_is_up::<Self>(lock, memory) || !lock_is_up::<Self>(lock, memory));
    }

    proof fn unlock_watches(unlock: Unlock, memory: Shared, reply: Reply, next: Shared) {
        lemma_tagged_word(memory.word, 0);
        assert(unlock_stand(unlock).own == 0);
    }
}

impl Held for Kind {
    /// A waiter that gives up does not look whether it was handed the mutex: if
    /// it was, the mutex is lost.
    open spec fn clings(lock: MutexLockFuture, memory: Shared) -> bool {
        lock.step is SetEmpty ==> wake_of(memory, lock.waiter) != ACQUIRED
    }
}

impl Custody for Kind {
    proof fn lock_is_handed(lock: MutexLockFuture, memory: Shared) {
        assert(lock.waiter() == lock.waiter);
        assert(Self::grants(ACQUIRED));
    }

    proof fn unlock_grips(unlock: Unlock, memory: Shared) {
        assert(Self::grants(ACQUIRED));
    }

    proof fn try_keeps(attempt: TryLock, memory: Shared, reply: Reply, next: Shared) {
        lemma_tagged_word(memory.word, 0);
    }

    proof fn lock_keeps(lock: MutexLockFuture, memory: Shared, reply: Reply, next: Shared) {
        lemma_tagged_word(memory.word, 0);
        assert(lock.waiter() == lock.waiter);
        assert(Self::grants(ACQUIRED));
    }

    proof fn unlock_keeps(unlock: Unlock, memory: Shared, reply: Reply, next: Shared) {
        lemma_tagged_word(memory.word, 0);
        assert(Self::grants(ACQUIRED));
    }
}

impl LockOwners for Kind {
    open spec fn is_set(memory: Shared, node: usize) -> bool {
        wake_of(memory, node) == WAITING && (memory.wakers)(node)
    }

    open spec fn is_live(memory: Shared, node: usize) -> bool {
        (memory.wakers)(node)
    }

    open spec fn pends(lock: MutexLockFuture) -> bool {
        lock.step is Pending
    }

    open spec fn trusts(lock: MutexLockFuture) -> bool {
        match lock.step {
            LockStep::LoadSeed
            | LockStep::StoreSeed { .. }
            | LockStep::SetDeadline { .. }
            | LockStep::SetWaiting
            | LockStep::Push
            | LockStep::LeaveWaiting => true,
            _ => false,
        }
    }

    open spec fn trusts_if_set(lock: MutexLockFuture) -> bool {
        lock.step is Pending
    }

    open spec fn leaves(lock: MutexLockFuture) -> bool {
        match lock.step {
            LockStep::Pending
            | LockStep::CheckDeadline
            | LockStep::LockWait
            | LockStep::LockCancel => true,
            _ => false,
        }
    }
}

impl ParkOwners for Kind {
    proof fn of_polls(lock: MutexLockFuture, memory: Shared) {
        assert(lock.waiter() == lock.waiter);
    }

    proof fn waker_frame(memory: Shared, next: Shared, node: usize) {
        assert(Self::is_set(next, node) == Self::is_set(memory, node));
    }

    proof fn lock_sees_to(lock: MutexLockFuture, memory: Shared, reply: Reply, next: Shared) {
        assert(lock.waiter() == lock.waiter);
    }

    proof fn try_leaves_wakers(attempt: TryLock) {
        assert(!(attempt.wants() is StoreWaker));
    }

    proof fn lock_takes(lock: MutexLockFuture, memory: Shared, reply: Reply, next: Shared) {
        assert(lock.waiter() == lock.waiter);
    }

    proof fn unlock_takes(unlock: Unlock, memory: Shared, reply: Reply, next: Shared) {
        assert(unlock_stand(unlock).own == 0);
    }
}

impl Keeps<Debt> for Unlock {
    open spec fn fits(&self, ledger: Debt) -> bool {
        &&& match *self {
            Unlock::TakeWaker { node, .. } => ledger.taken is None && ledger.told == Some(node),
            Unlock::CheckEmpty { node, .. }
            | Unlock::CheckDeadline { node, .. }
            | Unlock::SetAcquired { node, .. } => ledger.taken == Some(node) && ledger.told == ledger.taken,
            Unlock::KeepLocked | Unlock::Wake => ledger.taken is Some && ledger.told == ledger.taken,
            Unlock::StoreWord { woke, .. } | Unlock::LeaveQueue { woke } => if woke {
                ledger.taken is Some && ledger.told == ledger.taken
            } else {
                ledger.taken is None
            },
            _ => ledger.taken is None,
        }
        &&& !ledger.missed
        &&& !ledger.lends
    }

    proof fn goes_on(operation: Self, ledger: Debt, reply: Reply) {
    }

    proof fn obeys(operation: Self, ledger: Debt) {
    }
}

/// An unlock that took the waker of a waiter wakes it before it is over, once
/// it has stored the wake state. It takes no waker where there is none.
pub proof fn unlock_wakes_whom_it_took(first: Unlock, replies: Seq<Reply>, i: int, j: int)
    requires
        first.wf(),
        first.begins(),
        is_course(first, replies),
        0 <= i < j <= replies.len(),
    ensures
        ledger(first, replies, Debt::none(), j).allows(point(first, replies, j).wants()),
        !ledger(first, replies, Debt::none(), j).missed,
        ({
            &&& point(first, replies, i).wants() is TakeWaker
            &&& replies[i].ok
            &&& point(first, replies, j).wants() is Done
        }) ==> exists|k: int| i < k < j && #[trigger] point(first, replies, k).wants() is Wake,
{
    always_allowed(first, replies, Debt::none(), j);
    if point(first, replies, i).wants() is TakeWaker && replies[i].ok && point(
        first,
        replies,
        j,
    ).wants() is Done {
        taken_waker_is_woken(first, replies, Debt::none(), i, j);
    }
}

impl Keeps<Handover> for Unlock {
    open spec fn fits(&self, ledger: Handover) -> bool {
        &&& ledger.grant == ACQUIRED
        &&& !ledger.flagged
        &&& !ledger.lenient
        &&& ledger.due
        &&& match *self {
            Unlock::Release { fair } | Unlock::LockQueue { fair } | Unlock::Pop { fair } => {
                &&& ledger.wish == fair
                &&& !ledger.popped
                &&& ledger.fair is None
                &&& !ledger.released
            },
            Unlock::LoadWake { fair, .. } | Unlock::SetRetry { fair, .. } => {
                &&& ledger.popped
                &&& ledger.fair == asked(fair)
                &&& !ledger.released
            },
            Unlock::TakeWaker { fair, .. } | Unlock::CheckEmpty { fair, .. } => {
                &&& ledger.popped
                &&& ledger.fair == asked(fair)
                &&& ledger.wake == Some(RETRY)
                &&& !ledger.released
            },
            Unlock::CheckDeadline { .. } => {
                &&& ledger.popped
                &&& ledger.fair is None
                &&& ledger.wake == Some(RETRY)
                &&& !ledger.released
            },
            Unlock::SetAcquired { .. } => {
                &&& ledger.popped
                &&& ledger.fair == Some(true)
                &&& !ledger.released
            },
            Unlock::KeepLocked => {
                &&& ledger.fair == Some(true)
                &&& ledger.is_settled()
                &&& !ledger.released
            },
            Unlock::StoreWord { .. } => {
                &&& ledger.is_settled()
                &&& ledger.fair != Some(true)
                &&& !ledger.released
            },
            Unlock::LeaveQueue { .. } => {
                &&& ledger.is_settled()
                &&& ledger.released == (ledger.fair != Some(true))
            },
            Unlock::Wake => ledger.is_settled() && ledger.released == (ledger.fair != Some(true)),
            Unlock::Released => {
                &&& ledger.is_settled()
                &&& ledger.released == (ledger.fair != Some(true))
            },
        }
    }

    proof fn goes_on(operation: Self, ledger: Handover, reply: Reply) {
        lemma_masks();
    }

    proof fn obeys(operation: Self, ledger: Handover) {
        lemma_masks();
    }
}

/// A fair unlock that takes a waiter off the queue leaves the held flag set
/// throughout and makes that waiter the holder, without asking how long it has
/// waited and whether or not others are left in the queue. Any other unlock asks
/// once, does the same for a waiter that has waited too long, and otherwise
/// clears the held flag and has the waiter try again.
pub proof fn fair_unlock_hands_over(fair: bool, replies: Seq<Reply>)
    requires
        is_course(Unlock::Release { fair }, replies),
    ensures
        ({
            let first = Unlock::Release { fair };
            let now = point(first, replies, replies.len() as int);
            let course = ledger(first, replies, Handover::by_wish(ACQUIRED, fair), replies.len() as int);
            &&& course.allows(now.wants())
            &&& now.wants() is Done ==> {
                &&& course.released == (course.fair != Some(true))
                &&& course.popped ==> (course.wake == Some(ACQUIRED)) == (course.fair
                    == Some(true))
                &&& course.popped && fair ==> course.fair == Some(true)
            }
        }),
{
    let first = Unlock::Release { fair };
    always_allowed(first, replies, Handover::by_wish(ACQUIRED, fair), replies.len() as int);
    handover::terms_stay(first, replies, Handover::by_wish(ACQUIRED, fair), replies.len() as int);
    if fair {
        let start = Handover::by_wish(ACQUIRED, fair);
        handover::wish_is_granted(first, replies, start, replies.len() as int);
    }
}

impl Keeps<Visit> for MutexLockFuture {
    open spec fn fits(&self, ledger: Visit) -> bool {
        &&& ledger.node == self.waiter
        &&& ledger.timed == self.timed
        &&& ledger.verdict == true
        &&& ledger.drops == true
        &&& ledger.lingers == false
        &&& ledger.seeded == false
        &&& ledger.took ==> self.step is Locked
        &&& ledger.has_to_ask() ==> self.step is CheckDeadline
        &&& !ledger.serves
        &&& match self.step {
            LockStep::Fast => {
                &&& !ledger.quits()
                &&& !ledger.inside
                &&& ledger.word is None
                &&& ledger.looked != Some(ACQUIRED)
            },
            LockStep::LoadWord { .. } | LockStep::LockQueue { .. } => {
                &&& !ledger.quits()
                &&& !ledger.inside
                &&& ledger.looked != Some(ACQUIRED)
            },
            LockStep::Take { state, .. } | LockStep::Announce { state, .. } => {
                &&& !ledger.quits()
                &&& !ledger.inside
                &&& ledger.word == Some(state)
                &&& ledger.looked != Some(ACQUIRED)
            },
            LockStep::CheckWord { .. } => {
                &&& !ledger.quits()
                &&& ledger.inside
                &&& ledger.is_tidy()
                &&& ledger.empty is None
                &&& !ledger.removed
                &&& ledger.word is None
                &&& ledger.looked != Some(ACQUIRED)
            },
            LockStep::Leave { .. } => {
                &&& !ledger.quits()
                &&& ledger.inside
                &&& ledger.is_tidy()
                &&& ledger.looked != Some(ACQUIRED)
            },
            LockStep::CheckOwn => {
                &&& !ledger.quits()
                &&& ledger.inside
                &&& !ledger.cleared
                &&& ledger.empty is None
                &&& !ledger.removed
                &&& ledger.may_join()
                &&& ledger.looked != Some(ACQUIRED)
            },
            LockStep::SetWaker => {
                &&& !ledger.quits()
                &&& ledger.inside
                &&& !ledger.cleared
                &&& ledger.empty is None
                &&& !ledger.removed
                &&& ledger.may_join()
            },
            LockStep::LoadSeed | LockStep::StoreSeed { .. } | LockStep::SetDeadline { .. } => {
                &&& !ledger.quits()
                &&& ledger.inside
                &&& !ledger.cleared
                &&& ledger.empty is None
                &&& !ledger.removed
                &&& ledger.may_join()
                &&& ledger.waker
                &&& ledger.fresh
            },
            LockStep::SetWaiting => {
                &&& !ledger.quits()
                &&& ledger.inside
                &&& !ledger.cleared
                &&& ledger.empty is None
                &&& !ledger.removed
                &&& ledger.may_join()
                &&& ledger.waker
                &&& ledger.fresh
                &&& ledger.deadline
            },
            LockStep::Push => {
                &&& !ledger.quits()
                &&& ledger.inside
                &&& !ledger.cleared
                &&& ledger.empty is None
                &&& !ledger.removed
                &&& ledger.may_join()
                &&& ledger.waits()
                &&& ledger.deadline
            },
            LockStep::LeaveWaiting => {
                &&& !ledger.quits()
                &&& ledger.inside
                &&& ledger.is_tidy()
                &&& ledger.waits()
            },
            LockStep::Pending => {
                &&& !ledger.quits()
                &&& !ledger.inside
                &&& ledger.waits()
            },
            LockStep::CheckDeadline => ledger.has_to_ask() && !ledger.quits() && !ledger.inside && ledger.waker,
            LockStep::LockWait => !ledger.quits() && !ledger.inside && ledger.waker,
            LockStep::LoadWake => {
                &&& !ledger.quits()
                &&& ledger.inside
                &&& ledger.is_tidy()
                &&& ledger.waker
            },
            LockStep::ReplaceWaker => {
                &&& !ledger.quits()
                &&& ledger.inside
                &&& ledger.is_tidy()
                &&& ledger.wake == Some(WAITING)
            },
            LockStep::Reset { acquired } => {
                &&& !ledger.quits()
                &&& ledger.inside
                &&& ledger.is_tidy()
                &&& (ledger.looked == Some(ACQUIRED)) == acquired
            },
            LockStep::LeaveRetry => {
                &&& !ledger.quits()
                &&& ledger.inside
                &&& ledger.is_tidy()
                &&& ledger.looked != Some(ACQUIRED)
            },
            LockStep::LeaveAcquired => {
                &&& !ledger.quits()
                &&& ledger.inside
                &&& ledger.is_tidy()
                &&& ledger.looked == Some(ACQUIRED)
            },
            LockStep::LockCancel => ledger.quits() && !ledger.inside,
            LockStep::LoadCancelled | LockStep::SetEmpty { .. } | LockStep::Remove => {
                &&& ledger.quits()
                &&& ledger.inside
                &&& ledger.is_tidy()
                &&& ledger.empty is None
                &&& !ledger.removed
            },
            LockStep::CheckEmpty => {
                &&& ledger.quits()
                &&& ledger.inside
                &&& ledger.removed
                &&& ledger.empty is None
                &&& !ledger.cleared
            },
            LockStep::ClearParked => {
                &&& ledger.quits()
                &&& ledger.inside
                &&& ledger.removed
                &&& ledger.empty == Some(true)
                &&& !ledger.cleared
            },
            LockStep::DropWaker => {
                &&& ledger.quits()
                &&& ledger.inside
                &&& ledger.removed
                &&& ledger.cleared == (ledger.empty == Some(true))
            },
            LockStep::LeaveCancelled => {
                &&& ledger.quits()
                &&& ledger.inside
                &&& ledger.is_tidy()
            },
            LockStep::Locked => {
                &&& !ledger.quits()
                &&& !ledger.inside
                &&& ledger.took || ledger.looked == Some(ACQUIRED)
            },
            LockStep::Failed => ledger.quits() && !ledger.inside,
        }
    }

    #[verifier::spinoff_prover]
    #[verifier::rlimit(60)]
    proof fn goes_on(operation: Self, ledger: Visit, reply: Reply) {
        lemma_masks();
    }

    proof fn obeys(operation: Self, ledger: Visit) {
        lemma_masks();
    }
}

/// An attempt that nobody cancels fails only if it has a deadline and, when it
/// asked about it last, was answered that it has come. As long as it is answered
/// otherwise it goes on towards the mutex: it takes the mutex, or finds that it was
/// handed it, or waits on, and it waits only as long as it knows of no
/// notification.
pub proof fn only_the_deadline_makes_it_fail(first: MutexLockFuture, replies: Seq<Reply>)
    requires
        first.wf(),
        first.begins(),
        is_course(first, replies),
    ensures
        ({
            let start = Visit::begin(first.waiter, first.timed, true, true, false, false);
            let now = point(first, replies, replies.len() as int);
            let visit = ledger(first, replies, start, replies.len() as int);
            &&& visit.allows(now.wants())
            &&& now.step is Failed ==> first.timed && visit.past == Some(true)
            &&& now.step is Locked ==> {
                &&& visit.took || visit.looked == Some(ACQUIRED)
                &&& !(first.timed && visit.past == Some(true))
            }
        }),
{
    let start = Visit::begin(first.waiter, first.timed, true, true, false, false);
    always_allowed(first, replies, start, replies.len() as int);
    terms_stay(first, replies, start, replies.len() as int);
}

/// An attempt that is cancelled fails, whatever it is answered, and leaves the
/// queue as it should be.
pub proof fn cancelled_attempt_fails(
    first: MutexLockFuture,
    start: Visit,
    replies: Seq<Reply>,
)
    requires
        first.wf(),
        first.step is LockCancel,
        start == Visit::begin(first.waiter, first.timed, true, true, false, false).cancel(),
        is_course(first, replies),
    ensures
        ({
            let now = point(first, replies, replies.len() as int);
            let visit = ledger(first, replies, start, replies.len() as int);
            &&& visit.allows(now.wants())
            &&& now.wants() is Done ==> now.step is Failed
        }),
{
    always_allowed(first, replies, start, replies.len() as int);
    terms_stay(first, replies, start, replies.len() as int);
}

impl Crowd for Kind {
    open spec fn is_quiet(word: usize) -> bool {
        is_locked(word) && !has_second(word)
    }

    open spec fn deadline(word: usize, node: usize) -> u32 {
        0
    }
}

impl Keeps<Patience<Kind>> for MutexLockFuture {
    open spec fn fits(&self, ledger: Patience<Kind>) -> bool {
        &&& ledger.hinted == if self.intel {
            11nat
        } else {
            6
        }
        &&& ledger.rounds == ledger.hinted
        &&& !ledger.forgets
        &&& ledger.inside == lock_stand(*self).inside
        &&& match self.step {
            LockStep::Fast => !ledger.again && !ledger.pauses && !ledger.seen && ledger.spun == 0,
            LockStep::LoadWord { spin } => {
                &&& ledger.spun == spin.iter
                &&& spin.iter <= ledger.rounds
                &&& ledger.just ==> ledger.again
                &&& !ledger.pauses
                &&& spin.max is Some ==> spin.max == Some(last_round(None, self.intel))
            },
            LockStep::Take { state, spin } | LockStep::Announce { state, spin } => {
                &&& ledger.seen
                &&& ledger.spun == spin.iter
                &&& spin.iter <= ledger.rounds
                &&& !ledger.again
                &&& !ledger.pauses
                &&& spin.max is Some ==> spin.max == Some(last_round(None, self.intel))
                &&& Kind::is_quiet(state) ==> ledger.spun >= ledger.rounds
            },
            LockStep::LockQueue { spin } | LockStep::CheckWord { spin } | LockStep::Leave { spin } => {
                &&& ledger.seen
                &&& ledger.spun == spin.iter
                &&& spin.iter <= ledger.rounds
                &&& !ledger.again
                &&& !ledger.pauses
                &&& spin.max is Some ==> spin.max == Some(last_round(None, self.intel))
            },
            LockStep::Reset { .. } | LockStep::LeaveRetry => {
                &&& ledger.spun == 0
                &&& !ledger.again
                &&& !ledger.pauses
            },
            _ => !ledger.again && !ledger.pauses,
        }
    }

    #[verifier::spinoff_prover]
    #[verifier::rlimit(40)]
    proof fn goes_on(operation: Self, ledger: Patience<Kind>, reply: Reply) {
    }

    proof fn obeys(operation: Self, ledger: Patience<Kind>) {
    }
}

/// An attempt that finds the mutex held and the queue empty looks again, eleven times on an Intel processor and six on any
/// other, and joins the queue only then. Each time it makes twice as many hints to
/// the processor as the last time, and it makes no others. It starts over
/// when it was woken.
pub proof fn attempt_spins_before_it_queues(first: MutexLockFuture, replies: Seq<Reply>, reply: Reply)
    requires
        first.wf(),
        first.begins(),
        is_course(first, replies),
    ensures
        ({
            let rounds: nat = if first.intel {
                11
            } else {
                6
            };
            let start = Patience::begin(Kind, rounds, rounds, false);
            let now = point(first, replies, replies.len() as int);
            let patience = ledger(first, replies, start, replies.len() as int);
            &&& patience.allows(now.wants())
            &&& now.expects(reply) ==> now.hints(reply) == patience.hints_after(now.wants(), reply)
        }),
{
    let rounds: nat = if first.intel {
        11
    } else {
        6
    };
    let start = Patience::begin(Kind, rounds, rounds, false);
    always_allowed(first, replies, start, replies.len() as int);
    assert forall|round: u8| spec_hints(round) == pow2(round as nat) by {
        hints_are_powers(round);
    }
}

/// Whoever takes the lock sees what was done under it before.
#[verifier::spinoff_prover]
#[verifier::rlimit(40)]
pub proof fn what_was_done_is_seen(lock: MutexLockFuture, unlock: Unlock)
    requires
        lock.wf(),
        unlock.wf(),
    ensures
        keeps_the_lock_visible(lock.wants()),
        keeps_the_lock_visible(unlock.wants()),
{
    lemma_masks();
    if let LockStep::Announce { state, .. } = lock.step {
        assert(is_locked(set_second(state)) == is_locked(state));
    }
}

/// The seed that an attempt draws its timeout from.
pub struct Draw {
    pub node: usize,
    /// The seed that it read.
    pub seed: Option<u16>,
    /// Whether it stored the seed that follows.
    pub stored: bool,
}

impl Ledger for Draw {
    open spec fn entry(self, access: Access, reply: Reply) -> Draw {
        match access {
            Access::Load(Place::Prng, _) => Draw {
                seed: Some(seed_to_draw(reply.value, self.node)),
                stored: false,
                ..self
            },
            Access::Store(Place::Prng, _, _) => Draw { stored: true, ..self },
            _ => self,
        }
    }

    /// The timeout is drawn from the seed that was read, and the next one is
    /// drawn from the seed that follows.
    open spec fn allows(self, access: Access) -> bool {
        match access {
            Access::Store(Place::Prng, seed, _) => {
                &&& self.seed is Some
                &&& seed == next_seed(self.seed.unwrap())
            },
            Access::SetDeadline(node, nanos) => {
                &&& node == self.node
                &&& self.seed is Some
                &&& self.stored
                &&& nanos == timeout(self.seed.unwrap())
            },
            _ => true,
        }
    }
}

impl Keeps<Draw> for MutexLockFuture {
    open spec fn fits(&self, ledger: Draw) -> bool {
        &&& ledger.node == self.waiter
        &&& match self.step {
            LockStep::StoreSeed { seed } => ledger.seed == Some(seed),
            LockStep::SetDeadline { seed } => ledger.seed == Some(seed) && ledger.stored,
            _ => true,
        }
    }

    proof fn goes_on(operation: Self, ledger: Draw, reply: Reply) {
    }

    proof fn obeys(operation: Self, ledger: Draw) {
    }
}

/// An attempt that joins the queue draws its timeout from the seed that it read,
/// and leaves the seed that follows for the next one.
pub proof fn timeout_is_drawn_from_the_seed(first: MutexLockFuture, replies: Seq<Reply>)
    requires
        first.wf(),
        first.begins(),
        is_course(first, replies),
    ensures
        ({
            let start = Draw { node: first.waiter, seed: None, stored: false };
            let now = point(first, replies, replies.len() as int);
            ledger(first, replies, start, replies.len() as int).allows(now.wants())
        }),
{
    let start = Draw { node: first.waiter, seed: None, stored: false };
    always_allowed(first, replies, start, replies.len() as int);
}

} // verus!
