//! A lock whose held flag is a byte of its own.
//!
//! Taking the lock is a swap of that byte and giving it up is a store. The
//! waking flag and the newest waiter stand in the rest of the state word. On
//! processors where a wake may race, the flag is cleared before the waiter is
//! woken; on the others the woken waiter inherits the flag and clears it when
//! it takes the lock or joins the queue again.
use vstd::arithmetic::power2::pow2;
use vstd::prelude::*;
use crate::access::{Access, Link, Operation, Order, Place, Reply};
use crate::course::{Keeps, Ledger, always_allowed, is_course, ledger, point};
use crate::debt::{Debt, taken_waker_is_woken};
use crate::exclusion::{Encoding, LockKind, Party, wake_of};
use crate::kernel::cpu::{Hints, hints_are_powers, spec_hints, spin_loop_hint};
use crate::kernel::spin::{Spin, last_round};
use crate::memory::{Shared, alone, with_byte};
use crate::owners::{LockOwners, QueueOwners};
use crate::patience::{Crowd, Patience};
use crate::queue::{Queued, Queueing, Stage, leads_to};
use crate::tail::{Search, link};
use crate::tenure::Tenure;
use crate::upkeep::{Upkeep, wakes};
use crate::visibility::{
    keeps_the_lock_visible, keeps_the_queue_visible, keeps_the_wake_visible,
    keeps_the_waker_visible,
};
use crate::wait::{Signs, Wait};
use crate::words::{
    BYTE_FLAG, LOCKED, NOT_BYTE_FLAG, UNLOCKED, above_flag, beside_flags, clear_flag, has_flag,
    is_locked, lemma_byte_word, lemma_clean_word, lemma_clear_flag, lemma_clear_flag_locked,
    lemma_flag_masks, lemma_masks, lemma_with_beside_flags, set_flag, set_locked, with_above_flag,
    with_beside_flags,
};

verus! {

/// The waiter may look at the lock again.
pub const WAKER_EMPTY: usize = 0;

/// The waker of the waiter is ready to be taken.
pub const WAKER_WAITING: usize = 1;

/// The waiter is replacing its waker.
pub const WAKER_UPDATING: usize = 2;

/// An unlocking thread is taking the waker.
pub const WAKER_CONSUMING: usize = 3;

/// The waiter may look at the lock again, and has inherited the waking flag.
pub const WAKER_WAKING: usize = 4;

/// A value, and the word that the lock's state starts from. The state itself is
/// the word of the shared memory that the operations work on.
#[derive(Debug)]
pub struct Lock<T> {
    state: usize,
    value: T,
}

/// Whether the address can be that of a waiter of this lock.
pub open spec fn is_waiter(node: usize) -> bool {
    node != 0 && node % 512 == 0
}

impl<T> Lock<T> {
    pub closed spec fn state(self) -> usize {
        self.state
    }

    pub closed spec fn value(self) -> T {
        self.value
    }

    pub fn new(value: T) -> (lock: Self)
        ensures
            lock.state() == UNLOCKED,
            lock.value() == value,
    {
        Lock { state: UNLOCKED, value }
    }

    pub fn into_inner(self) -> (value: T)
        ensures
            value == self.value(),
    {
        self.value
    }

    /// Whether the waking flag is cleared before a waiter is woken.
    pub fn racy_wake(intel: bool) -> (racy: bool)
        ensures
            racy == intel,
    {
        intel
    }

    /// Begins to take the lock if it is free.
    pub fn try_lock(&self) -> (attempt: TryLock)
        ensures
            attempt == TryLock::Swap,
            attempt.wf(),
            attempt.begins(),
    {
        TryLock::Swap
    }

    /// Begins to take the lock at once, or else by the given waiter.
    pub fn lock_fast(&self, waiter: usize, intel: bool) -> (future: LockFuture)
        requires
            is_waiter(waiter),
        ensures
            future == (LockFuture { waiter, intel, step: LockStep::Fast }),
            future.wf(),
            future.begins(),
    {
        LockFuture { waiter, intel, step: LockStep::Fast }
    }

    /// Begins to take the lock, waiting by the given waiter if need be.
    pub fn lock(&self, waiter: usize, intel: bool) -> (future: LockFuture)
        requires
            is_waiter(waiter),
        ensures
            future == (LockFuture { waiter, intel, step: LockStep::Fast }),
            future.wf(),
            future.begins(),
    {
        self.lock_fast(waiter, intel)
    }

    /// Begins to take the lock as a task: the same operation as `lock`, with
    /// its waits left to the executor.
    pub fn lock_async(&self, waiter: usize, intel: bool) -> (future: LockFuture)
        requires
            is_waiter(waiter),
        ensures
            future == (LockFuture { waiter, intel, step: LockStep::Fast }),
            future.wf(),
            future.begins(),
    {
        self.lock_fast(waiter, intel)
    }

    /// Begins to give the lock up.
    pub fn unlock(&self, intel: bool) -> (unlock: Unlock)
        ensures
            unlock == (Unlock { racy_wake: intel, step: UnlockStep::Release }),
            unlock.wf(),
            unlock.begins(),
    {
        Unlock { racy_wake: Self::racy_wake(intel), step: UnlockStep::Release }
    }
}

/// An attempt to take the lock: one swap of its byte.
#[derive(Clone, Copy, PartialEq, Eq, Structural, Debug)]
pub enum TryLock {
    Swap,
    Locked,
    Failed,
}

impl Operation for TryLock {
    open spec fn wf(&self) -> bool {
        true
    }

    open spec fn wants(&self) -> Access {
        match *self {
            TryLock::Swap => Access::SwapByte(LOCKED, Order::Acquire),
            TryLock::Locked | TryLock::Failed => Access::Done,
        }
    }

    open spec fn expects(&self, reply: Reply) -> bool {
        match *self {
            TryLock::Swap => true,
            _ => false,
        }
    }

    open spec fn after(&self, reply: Reply) -> Self {
        match *self {
            TryLock::Swap => if reply.value == UNLOCKED {
                TryLock::Locked
            } else {
                TryLock::Failed
            },
            done => done,
        }
    }

    fn accepts(&self, reply: Reply) -> (accepted: bool) {
        match *self {
            TryLock::Swap => true,
            _ => false,
        }
    }

    fn access(&self) -> (access: Access) {
        match *self {
            TryLock::Swap => Access::SwapByte(LOCKED, Order::Acquire),
            TryLock::Locked | TryLock::Failed => Access::Done,
        }
    }

    fn resume(&mut self, reply: Reply, _hints: &mut Hints) {
        *self =
        match *self {
            TryLock::Swap => if reply.value == UNLOCKED {
                TryLock::Locked
            } else {
                TryLock::Failed
            },
            done => done,
        };
    }
}

impl Party for TryLock {
    open spec fn begins(&self) -> bool {
        self is Swap
    }

    open spec fn holds(&self, memory: Shared) -> bool {
        self is Locked
    }

    open spec fn waiter(&self) -> usize {
        0
    }

    open spec fn admits(&self, memory: Shared, reply: Reply) -> bool {
        true
    }
}

/// An attempt succeeds exactly when the byte of the lock is clear, and leaves
/// nothing changed but that byte; one that finds the lock held leaves nothing
/// changed at all.
pub proof fn undisturbed_try_lock(memory: Shared)
    ensures
        memory.word % 256 != 0 ==> alone(TryLock::Swap, memory, 1) == (
            TryLock::Failed,
            Shared { word: with_byte(memory.word, 1), ..memory },
        ),
        memory.word % 256 == 1 ==> alone(TryLock::Swap, memory, 1) == (TryLock::Failed, memory),
        memory.word % 256 == 0 ==> alone(TryLock::Swap, memory, 1) == (
            TryLock::Locked,
            Shared { word: (memory.word + 1) as usize, ..memory },
        ),
{
    reveal_with_fuel(alone, 2);
}

/// How far an attempt to lock is.
#[derive(Clone, Copy, PartialEq, Eq, Structural, Debug)]
pub enum LockStep {
    /// Takes a lock that is free.
    Fast,
    /// Looks at what became of the waker.
    LoadWake,
    /// Claims the waker in order to replace it.
    BeginUpdate,
    DropWaker,
    ReplaceWaker,
    /// Hands the replaced waker back.
    EndUpdate,
    /// Drops a waker that came too late; `wake` says how it was overtaken.
    DropLate { wake: usize },
    LoadWord { poll: Poll },
    /// Takes the lock by a swap.
    Swap { poll: Poll },
    /// Links the waiter in front of the newest one of `state`.
    SetNext { state: usize, poll: Poll },
    SetTail { state: usize, poll: Poll },
    SetWaker { state: usize, poll: Poll },
    SetPrev { state: usize, poll: Poll },
    SetWaiting { state: usize, poll: Poll },
    /// Takes the lock, or joins the queue, if the word is still `state`.
    Exchange { state: usize, poll: Poll },
    /// Holds the lock, and drops the waker that was not needed.
    DropUnused,
    Pending,
    Locked,
}

/// What one poll of the lock keeps between its accesses.
#[derive(Clone, Copy, PartialEq, Eq, Structural, Debug)]
pub struct Poll {
    /// Whether the waiter has inherited the waking flag.
    pub is_waking: bool,
    pub has_waker: bool,
    pub spin: Spin,
}

/// An attempt to lock, and the waiter it waits by.
#[derive(Clone, Copy, PartialEq, Eq, Structural, Debug)]
pub struct LockFuture {
    pub waiter: usize,
    pub intel: bool,
    pub step: LockStep,
}

pub open spec fn spec_begin_poll(is_waking: bool) -> LockStep {
    LockStep::LoadWord { poll: Poll { is_waking, has_waker: false, spin: Spin::new() } }
}

/// The first look at the state word in a poll.
#[verifier::when_used_as_spec(spec_begin_poll)]
pub fn begin_poll(is_waking: bool) -> (step: LockStep)
    ensures
        step == spec_begin_poll(is_waking),
{
    LockStep::LoadWord { poll: Poll { is_waking, has_waker: false, spin: Spin::new() } }
}

pub open spec fn spec_poll_wake(wake: usize) -> LockStep {
    if wake == WAKER_EMPTY {
        begin_poll(false)
    } else if wake == WAKER_WAKING {
        begin_poll(true)
    } else {
        LockStep::Pending
    }
}

/// How to go on from a wake state that cannot be updated: look at the lock, or
/// leave the waker to the thread that is taking it.
#[verifier::when_used_as_spec(spec_poll_wake)]
pub fn poll_wake(wake: usize) -> (step: LockStep)
    requires
        wake == WAKER_EMPTY || wake == WAKER_WAKING || wake == WAKER_CONSUMING,
    ensures
        step == spec_poll_wake(wake),
{
    if wake == WAKER_EMPTY {
        begin_poll(false)
    } else if wake == WAKER_WAKING {
        begin_poll(true)
    } else {
        LockStep::Pending
    }
}

/// How many hints are made on account of a state word.
pub open spec fn poll_hints(state: usize, poll: Poll, intel: bool) -> nat {
    if is_locked(state) && beside_flags(state) == 0 {
        poll.spin.hints(intel)
    } else {
        0
    }
}

pub open spec fn spec_poll_lock(state: usize, poll: Poll, intel: bool) -> LockStep {
    let unlocked = !is_locked(state);
    let spun = Poll { spin: poll.spin.spec_next(intel), ..poll };
    if !poll.is_waking && unlocked {
        LockStep::Swap { poll }
    } else if unlocked {
        LockStep::Exchange { state, poll }
    } else if beside_flags(state) != 0 {
        LockStep::SetNext { state, poll }
    } else if poll.spin.spec_yields(intel) {
        LockStep::LoadWord { poll: spun }
    } else {
        LockStep::SetNext { state, poll: spun }
    }
}

/// What to do about a state word: take the lock if it is free, spin for a while
/// if nobody waits yet, and join the queue otherwise.
pub fn poll_lock(
    state: usize,
    poll: Poll,
    intel: bool,
    hints: &mut Hints,
) -> (step: LockStep)
    requires
        poll.spin.wf(),
    ensures
        step == spec_poll_lock(state, poll, intel),
        final(hints).made() == old(hints).made() + poll_hints(state, poll, intel),
{
    let unlocked: bool = !is_locked(state);
    let mut spin = poll.spin;
    if !poll.is_waking && unlocked {
        LockStep::Swap { poll }
    } else if unlocked {
        LockStep::Exchange { state, poll }
    } else if beside_flags(state) == 0 && spin.yield_now(intel, hints) {
        LockStep::LoadWord { poll: Poll { spin, ..poll } }
    } else {
        LockStep::SetNext {
            state,
            poll: if beside_flags(state) == 0 {
                Poll { spin, ..poll }
            } else {
                poll
            },
        }
    }
}

#[verifier::opaque]
pub open spec fn spec_exchanged(state: usize, is_waking: bool, node: usize) -> usize {
    let new: usize = if is_locked(state) {
        with_beside_flags(state, node)
    } else {
        set_locked(state)
    };
    if is_waking {
        clear_flag(new)
    } else {
        new
    }
}

/// The state word that an attempt puts in place of `state`: the held flag set,
/// or the waiter in front. An inherited waking flag is cleared.
#[verifier::when_used_as_spec(spec_exchanged)]
pub fn exchanged(state: usize, is_waking: bool, node: usize) -> (word: usize)
    requires
        is_waiter(node),
    ensures
        word == spec_exchanged(state, is_waking, node),
{
    proof {
        reveal(spec_exchanged);
    }
    let new: usize = if is_locked(state) {
        with_beside_flags(state, node)
    } else {
        set_locked(state)
    };
    if is_waking {
        clear_flag(new)
    } else {
        new
    }
}

/// A state word that an attempt puts in place always has the held flag set.
proof fn lemma_exchanged(state: usize, is_waking: bool, node: usize)
    requires
        is_waiter(node),
    ensures
        is_locked(exchanged(state, is_waking, node)),
{
    reveal(spec_exchanged);
    lemma_with_beside_flags(state, node);
    lemma_clear_flag_locked(with_beside_flags(state, node));
    lemma_clear_flag_locked(set_locked(state));
}

pub open spec fn spec_acquired(poll: Poll) -> LockStep {
    if poll.has_waker {
        LockStep::DropUnused
    } else {
        LockStep::Locked
    }
}

/// Goes on once the lock is taken.
#[verifier::when_used_as_spec(spec_acquired)]
pub fn acquired(poll: Poll) -> (step: LockStep)
    ensures
        step == spec_acquired(poll),
{
    if poll.has_waker {
        LockStep::DropUnused
    } else {
        LockStep::Locked
    }
}

impl Operation for LockFuture {
    open spec fn wf(&self) -> bool {
        &&& is_waiter(self.waiter)
        &&& match self.step {
            LockStep::DropLate { wake } => wake == WAKER_EMPTY || wake == WAKER_WAKING,
            LockStep::LoadWord { poll } => poll.spin.wf(),
            LockStep::Swap { poll } => poll.spin.wf(),
            LockStep::SetNext { state, poll }
            | LockStep::SetTail { state, poll }
            | LockStep::SetWaker { state, poll }
            | LockStep::SetPrev { state, poll }
            | LockStep::SetWaiting { state, poll } => poll.spin.wf() && is_locked(state),
            LockStep::Exchange { poll, .. } => poll.spin.wf(),
            _ => true,
        }
    }

    open spec fn wants(&self) -> Access {
        let node: usize = self.waiter;
        match self.step {
            LockStep::Fast => Access::SwapByte(LOCKED, Order::Acquire),
            LockStep::LoadWake => Access::Load(Place::Wake(node), Order::Relaxed),
            LockStep::BeginUpdate => Access::CompareExchange(
                Place::Wake(node),
                WAKER_WAITING,
                WAKER_UPDATING,
                Order::Acquire,
                Order::Relaxed,
            ),
            LockStep::DropWaker => Access::DropWaker(node),
            LockStep::ReplaceWaker => Access::StoreWaker(node),
            LockStep::EndUpdate => Access::CompareExchange(
                Place::Wake(node),
                WAKER_UPDATING,
                WAKER_WAITING,
                Order::Release,
                Order::Relaxed,
            ),
            LockStep::DropLate { .. } => Access::DropWaker(node),
            LockStep::LoadWord { .. } => Access::Load(Place::Word, Order::Relaxed),
            LockStep::Swap { .. } => Access::SwapByte(LOCKED, Order::Acquire),
            LockStep::SetNext { state, .. } => Access::Store(
                Place::Link(node, Link::Next),
                beside_flags(state),
                Order::Relaxed,
            ),
            LockStep::SetTail { state, .. } => Access::Store(
                Place::Link(node, Link::Tail),
                if beside_flags(state) == 0 {
                    node
                } else {
                    0
                },
                Order::Relaxed,
            ),
            LockStep::SetWaker { .. } => Access::StoreWaker(node),
            LockStep::SetPrev { .. } => Access::Store(Place::Link(node, Link::Prev), 0, Order::Relaxed),
            LockStep::SetWaiting { .. } => Access::Store(
                Place::Wake(node),
                WAKER_WAITING,
                Order::Relaxed,
            ),
            LockStep::Exchange { state, poll } => Access::CompareExchangeWeak(
                Place::Word,
                state,
                exchanged(state, poll.is_waking, node),
                Order::AcqRel,
                Order::Relaxed,
            ),
            LockStep::DropUnused => Access::DropWaker(node),
            LockStep::Pending => Access::Park,
            LockStep::Locked => Access::Done,
        }
    }

    /// Nobody but this thread claims the waker to replace it, and nobody takes
    /// a waker that is being replaced.
    open spec fn expects(&self, reply: Reply) -> bool {
        match self.step {
            LockStep::LoadWake => reply.value <= WAKER_WAKING && reply.value != WAKER_UPDATING,
            LockStep::BeginUpdate => reply.ok || reply.value == WAKER_EMPTY || reply.value
                == WAKER_WAKING || reply.value == WAKER_CONSUMING,
            LockStep::EndUpdate => reply.ok || reply.value == WAKER_EMPTY || reply.value
                == WAKER_WAKING,
            LockStep::Locked => false,
            _ => true,
        }
    }

    open spec fn after(&self, reply: Reply) -> Self {
        let step = match self.step {
            LockStep::Fast => if reply.value == UNLOCKED {
                LockStep::Locked
            } else {
                LockStep::LoadWake
            },
            LockStep::LoadWake => if reply.value == WAKER_WAITING {
                LockStep::BeginUpdate
            } else {
                poll_wake(reply.value)
            },
            LockStep::BeginUpdate => if reply.ok {
                LockStep::DropWaker
            } else {
                poll_wake(reply.value)
            },
            LockStep::DropWaker => LockStep::ReplaceWaker,
            LockStep::ReplaceWaker => LockStep::EndUpdate,
            LockStep::EndUpdate => if reply.ok {
                LockStep::Pending
            } else {
                LockStep::DropLate { wake: reply.value }
            },
            LockStep::DropLate { wake } => poll_wake(wake),
            LockStep::LoadWord { poll } => spec_poll_lock(reply.value, poll, self.intel),
            LockStep::Swap { poll } => if reply.value == UNLOCKED {
                acquired(poll)
            } else {
                LockStep::LoadWord { poll }
            },
            LockStep::SetNext { state, poll } => LockStep::SetTail { state, poll },
            LockStep::SetTail { state, poll } => if poll.has_waker {
                LockStep::Exchange { state, poll }
            } else {
                LockStep::SetWaker { state, poll }
            },
            LockStep::SetWaker { state, poll } => LockStep::SetPrev { state, poll },
            LockStep::SetPrev { state, poll } => LockStep::SetWaiting { state, poll },
            LockStep::SetWaiting { state, poll } => LockStep::Exchange {
                state,
                poll: Poll { has_waker: true, ..poll },
            },
            LockStep::Exchange { state, poll } => if !reply.ok {
                spec_poll_lock(reply.value, poll, self.intel)
            } else if is_locked(state) {
                LockStep::Pending
            } else {
                acquired(poll)
            },
            LockStep::DropUnused => LockStep::Locked,
            LockStep::Pending => LockStep::LoadWake,
            LockStep::Locked => LockStep::Locked,
        };
        LockFuture { step, ..*self }
    }

    open spec fn hints(&self, reply: Reply) -> nat {
        match self.step {
            LockStep::LoadWord { poll } => poll_hints(reply.value, poll, self.intel),
            LockStep::Swap { .. } if reply.value != UNLOCKED => 1,
            LockStep::Exchange { poll, .. } if !reply.ok => poll_hints(
                reply.value,
                poll,
                self.intel,
            ),
            _ => 0,
        }
    }

    fn accepts(&self, reply: Reply) -> (accepted: bool) {
        match self.step {
            LockStep::LoadWake => reply.value <= WAKER_WAKING && reply.value != WAKER_UPDATING,
            LockStep::BeginUpdate => reply.ok || reply.value == WAKER_EMPTY || reply.value
                == WAKER_WAKING || reply.value == WAKER_CONSUMING,
            LockStep::EndUpdate => reply.ok || reply.value == WAKER_EMPTY || reply.value
                == WAKER_WAKING,
            LockStep::Locked => false,
            _ => true,
        }
    }

    fn access(&self) -> (access: Access) {
        let node: usize = self.waiter;
        match self.step {
            LockStep::Fast => Access::SwapByte(LOCKED, Order::Acquire),
            LockStep::LoadWake => Access::Load(Place::Wake(node), Order::Relaxed),
            LockStep::BeginUpdate => Access::CompareExchange(
                Place::Wake(node),
                WAKER_WAITING,
                WAKER_UPDATING,
                Order::Acquire,
                Order::Relaxed,
            ),
            LockStep::DropWaker => Access::DropWaker(node),
            LockStep::ReplaceWaker => Access::StoreWaker(node),
            LockStep::EndUpdate => Access::CompareExchange(
                Place::Wake(node),
                WAKER_UPDATING,
                WAKER_WAITING,
                Order::Release,
                Order::Relaxed,
            ),
            LockStep::DropLate { .. } => Access::DropWaker(node),
            LockStep::LoadWord { .. } => Access::Load(Place::Word, Order::Relaxed),
            LockStep::Swap { .. } => Access::SwapByte(LOCKED, Order::Acquire),
            LockStep::SetNext { state, .. } => Access::Store(
                Place::Link(node, Link::Next),
                beside_flags(state),
                Order::Relaxed,
            ),
            LockStep::SetTail { state, .. } => Access::Store(
                Place::Link(node, Link::Tail),
                if beside_flags(state) == 0 {
                    node
                } else {
                    0
                },
                Order::Relaxed,
            ),
            LockStep::SetWaker { .. } => Access::StoreWaker(node),
            LockStep::SetPrev { .. } => Access::Store(Place::Link(node, Link::Prev), 0, Order::Relaxed),
            LockStep::SetWaiting { .. } => Access::Store(
                Place::Wake(node),
                WAKER_WAITING,
                Order::Relaxed,
            ),
            LockStep::Exchange { state, poll } => Access::CompareExchangeWeak(
                Place::Word,
                state,
                exchanged(state, poll.is_waking, node),
                Order::AcqRel,
                Order::Relaxed,
            ),
            LockStep::DropUnused => Access::DropWaker(node),
            LockStep::Pending => Access::Park,
            LockStep::Locked => Access::Done,
        }
    }

    fn resume(&mut self, reply: Reply, hints: &mut Hints) {
        self.step =
        match self.step {
            LockStep::Fast => if reply.value == UNLOCKED {
                LockStep::Locked
            } else {
                LockStep::LoadWake
            },
            LockStep::LoadWake => if reply.value == WAKER_WAITING {
                LockStep::BeginUpdate
            } else {
                poll_wake(reply.value)
            },
            LockStep::BeginUpdate => if reply.ok {
                LockStep::DropWaker
            } else {
                poll_wake(reply.value)
            },
            LockStep::DropWaker => LockStep::ReplaceWaker,
            LockStep::ReplaceWaker => LockStep::EndUpdate,
            LockStep::EndUpdate => if reply.ok {
                LockStep::Pending
            } else {
                LockStep::DropLate { wake: reply.value }
            },
            LockStep::DropLate { wake } => poll_wake(wake),
            LockStep::LoadWord { poll } => poll_lock(reply.value, poll, self.intel, hints),
            LockStep::Swap { poll } => if reply.value == UNLOCKED {
                acquired(poll)
            } else {
                spin_loop_hint(hints);
                LockStep::LoadWord { poll }
            },
            LockStep::SetNext { state, poll } => LockStep::SetTail { state, poll },
            LockStep::SetTail { state, poll } => if poll.has_waker {
                LockStep::Exchange { state, poll }
            } else {
                LockStep::SetWaker { state, poll }
            },
            LockStep::SetWaker { state, poll } => LockStep::SetPrev { state, poll },
            LockStep::SetPrev { state, poll } => LockStep::SetWaiting { state, poll },
            LockStep::SetWaiting { state, poll } => LockStep::Exchange {
                state,
                poll: Poll { has_waker: true, ..poll },
            },
            LockStep::Exchange { state, poll } => if !reply.ok {
                poll_lock(reply.value, poll, self.intel, hints)
            } else if is_locked(state) {
                LockStep::Pending
            } else {
                acquired(poll)
            },
            LockStep::DropUnused => LockStep::Locked,
            LockStep::Pending => LockStep::LoadWake,
            LockStep::Locked => LockStep::Locked,
        };
    }
}

impl Party for LockFuture {
    open spec fn begins(&self) -> bool {
        self.step is Fast
    }

    open spec fn holds(&self, memory: Shared) -> bool {
        self.step is Locked || self.step is DropUnused
    }

    open spec fn waiter(&self) -> usize {
        self.waiter
    }

    open spec fn admits(&self, memory: Shared, reply: Reply) -> bool {
        true
    }
}

/// How far an unlock is.
#[derive(Clone, Copy, PartialEq, Eq, Structural, Debug)]
pub enum UnlockStep {
    /// Clears the byte of the lock.
    Release,
    /// Sees whether anything is left to do.
    Check,
    LoadWord,
    /// Takes the waking flag if the word is still `state`.
    TakeWaking { state: usize },
    /// Looks for the oldest waiter.
    Find { state: usize, search: Search },
    /// Leaves the queue to the thread that took the lock meanwhile.
    GiveUp { state: usize },
    LoadPrev { state: usize, tail: usize },
    /// Makes the next oldest waiter the oldest one.
    SetTail { state: usize, tail: usize, prev: usize },
    ClearWaking { tail: usize },
    Fence { tail: usize },
    /// Empties the queue of its only waiter.
    Empty { state: usize, tail: usize },
    LoadWake { tail: usize },
    /// Claims the waker in order to take it.
    Consume { tail: usize },
    /// Tells a waiter that is replacing its waker to try again.
    Interrupt { tail: usize },
    Take { tail: usize },
    SetWake { tail: usize },
    Wake,
    Released,
}

/// An unlock.
#[derive(Clone, Copy, PartialEq, Eq, Structural, Debug)]
pub struct Unlock {
    pub racy_wake: bool,
    pub step: UnlockStep,
}

pub open spec fn spec_unlock_slow(state: usize) -> UnlockStep {
    if beside_flags(state) == 0 || is_locked(state) || has_flag(state) {
        UnlockStep::Released
    } else {
        UnlockStep::TakeWaking { state }
    }
}

/// What to do about a state word: wake somebody only if somebody waits, the
/// lock is still free, and no other thread is waking.
#[verifier::when_used_as_spec(spec_unlock_slow)]
pub fn unlock_slow(state: usize) -> (step: UnlockStep)
    ensures
        step == spec_unlock_slow(state),
{
    if beside_flags(state) == 0 || is_locked(state) || has_flag(state) {
        UnlockStep::Released
    } else {
        UnlockStep::TakeWaking { state }
    }
}

pub open spec fn spec_find(state: usize) -> UnlockStep {
    UnlockStep::Find { state, search: Search::start(beside_flags(state), false) }
}

/// Looks for the oldest waiter of a state word.
#[verifier::when_used_as_spec(spec_find)]
pub fn find(state: usize) -> (step: UnlockStep)
    requires
        beside_flags(state) != 0,
    ensures
        step == spec_find(state),
{
    UnlockStep::Find { state, search: Search::start(beside_flags(state), false) }
}

pub open spec fn spec_found(state: usize, tail: usize) -> UnlockStep {
    if is_locked(state) {
        UnlockStep::GiveUp { state }
    } else {
        UnlockStep::LoadPrev { state, tail }
    }
}

/// Goes on once the oldest waiter is found.
#[verifier::when_used_as_spec(spec_found)]
pub fn found(state: usize, tail: usize) -> (step: UnlockStep)
    ensures
        step == spec_found(state, tail),
{
    if is_locked(state) {
        UnlockStep::GiveUp { state }
    } else {
        UnlockStep::LoadPrev { state, tail }
    }
}

pub open spec fn spec_wake(tail: usize, seen: usize) -> UnlockStep {
    if seen == WAKER_UPDATING {
        UnlockStep::Interrupt { tail }
    } else {
        UnlockStep::Consume { tail }
    }
}

/// How to wake a waiter that was removed from the queue.
#[verifier::when_used_as_spec(spec_wake)]
pub fn wake(tail: usize, seen: usize) -> (step: UnlockStep)
    requires
        seen == WAKER_UPDATING || seen == WAKER_WAITING,
    ensures
        step == spec_wake(tail, seen),
{
    if seen == WAKER_UPDATING {
        UnlockStep::Interrupt { tail }
    } else {
        UnlockStep::Consume { tail }
    }
}

pub open spec fn spec_wake_state(racy_wake: bool) -> usize {
    if racy_wake {
        WAKER_EMPTY
    } else {
        WAKER_WAKING
    }
}

/// The wake state of a woken waiter: whether it inherits the waking flag.
#[verifier::when_used_as_spec(spec_wake_state)]
pub fn wake_state(racy_wake: bool) -> (state: usize)
    ensures
        state == spec_wake_state(racy_wake),
{
    if racy_wake {
        WAKER_EMPTY
    } else {
        WAKER_WAKING
    }
}

impl Operation for Unlock {
    open spec fn wf(&self) -> bool {
        match self.step {
            UnlockStep::TakeWaking { state } => !is_locked(state) && beside_flags(state) != 0,
            UnlockStep::Find { state, search } => {
                &&& search.wf()
                &&& search.found() is None
                &&& search.head == beside_flags(state)
            },
            UnlockStep::GiveUp { state } => beside_flags(state) != 0 && is_locked(state),
            UnlockStep::LoadPrev { state, tail } => {
                &&& beside_flags(state) != 0
                &&& !is_locked(state)
                &&& tail != 0
            },
            UnlockStep::Empty { state, tail } => {
                &&& beside_flags(state) != 0
                &&& !is_locked(state)
                &&& tail != 0
            },
            _ => true,
        }
    }

    open spec fn wants(&self) -> Access {
        match self.step {
            UnlockStep::Release => Access::StoreByte(UNLOCKED, Order::Release),
            UnlockStep::Check | UnlockStep::LoadWord => Access::Load(Place::Word, Order::Relaxed),
            UnlockStep::TakeWaking { state } => Access::CompareExchangeWeak(
                Place::Word,
                state,
                set_flag(state),
                Order::Acquire,
                Order::Relaxed,
            ),
            UnlockStep::Find { search, .. } => search.wants(),
            UnlockStep::GiveUp { state } => Access::CompareExchangeWeak(
                Place::Word,
                state,
                clear_flag(state),
                Order::AcqRel,
                Order::Acquire,
            ),
            UnlockStep::LoadPrev { tail, .. } => Access::Load(
                Place::Link(tail, Link::Prev),
                Order::Relaxed,
            ),
            UnlockStep::SetTail { state, prev, .. } => Access::Store(
                Place::Link(beside_flags(state), Link::Tail),
                prev,
                Order::Relaxed,
            ),
            UnlockStep::ClearWaking { .. } => Access::FetchAnd(
                Place::Word,
                NOT_BYTE_FLAG,
                Order::Release,
            ),
            UnlockStep::Fence { .. } => Access::Fence(Order::Release),
            UnlockStep::Empty { state, .. } => Access::CompareExchangeWeak(
                Place::Word,
                state,
                if self.racy_wake {
                    UNLOCKED
                } else {
                    BYTE_FLAG
                },
                Order::AcqRel,
                Order::Acquire,
            ),
            UnlockStep::LoadWake { tail } => Access::Load(Place::Wake(tail), Order::Relaxed),
            UnlockStep::Consume { tail } => Access::CompareExchangeWeak(
                Place::Wake(tail),
                WAKER_WAITING,
                WAKER_CONSUMING,
                Order::Acquire,
                Order::Relaxed,
            ),
            UnlockStep::Interrupt { tail } => Access::CompareExchangeWeak(
                Place::Wake(tail),
                WAKER_UPDATING,
                wake_state(self.racy_wake),
                Order::Relaxed,
                Order::Relaxed,
            ),
            UnlockStep::Take { tail } => Access::TakeWaker(tail),
            UnlockStep::SetWake { tail } => Access::Store(
                Place::Wake(tail),
                wake_state(self.racy_wake),
                Order::Release,
            ),
            UnlockStep::Wake => Access::Wake,
            UnlockStep::Released => Access::Done,
        }
    }

    /// Waiters do not leave the queue by themselves, and a waiter that is
    /// removed from it has a waker that nobody else takes.
    open spec fn expects(&self, reply: Reply) -> bool {
        match self.step {
            UnlockStep::Find { search, .. } => search.expects(reply),
            UnlockStep::GiveUp { .. } | UnlockStep::Empty { .. } => reply.ok || beside_flags(
                reply.value,
            ) != 0,
            UnlockStep::LoadWake { .. } => reply.value == WAKER_UPDATING || reply.value
                == WAKER_WAITING,
            UnlockStep::Consume { .. } | UnlockStep::Interrupt { .. } => reply.ok || reply.value
                == WAKER_UPDATING || reply.value == WAKER_WAITING,
            UnlockStep::Take { .. } => reply.ok,
            UnlockStep::Released => false,
            _ => true,
        }
    }

    open spec fn after(&self, reply: Reply) -> Self {
        let step = match self.step {
            UnlockStep::Release => UnlockStep::Check,
            UnlockStep::Check => if reply.value == UNLOCKED {
                UnlockStep::Released
            } else {
                UnlockStep::LoadWord
            },
            UnlockStep::LoadWord => unlock_slow(reply.value),
            UnlockStep::TakeWaking { state } => if reply.ok {
                find(set_flag(state))
            } else {
                unlock_slow(reply.value)
            },
            UnlockStep::Find { state, search } => {
                let next = search.after(reply);
                match next.found() {
                    Some(tail) => found(state, tail),
                    None => UnlockStep::Find { state, search: next },
                }
            },
            UnlockStep::GiveUp { .. } => if reply.ok {
                UnlockStep::Released
            } else {
                find(reply.value)
            },
            UnlockStep::LoadPrev { state, tail } => if reply.value == 0 {
                UnlockStep::Empty { state, tail }
            } else {
                UnlockStep::SetTail { state, tail, prev: reply.value }
            },
            UnlockStep::SetTail { tail, .. } => if self.racy_wake {
                UnlockStep::ClearWaking { tail }
            } else {
                UnlockStep::Fence { tail }
            },
            UnlockStep::ClearWaking { tail } => UnlockStep::LoadWake { tail },
            UnlockStep::Fence { tail } => UnlockStep::LoadWake { tail },
            UnlockStep::Empty { tail, .. } => if reply.ok {
                UnlockStep::LoadWake { tail }
            } else {
                find(reply.value)
            },
            UnlockStep::LoadWake { tail } => wake(tail, reply.value),
            UnlockStep::Consume { tail } => if reply.ok {
                UnlockStep::Take { tail }
            } else {
                wake(tail, reply.value)
            },
            UnlockStep::Interrupt { tail } => if reply.ok {
                UnlockStep::Released
            } else {
                wake(tail, reply.value)
            },
            UnlockStep::Take { tail } => UnlockStep::SetWake { tail },
            UnlockStep::SetWake { .. } => UnlockStep::Wake,
            UnlockStep::Wake => UnlockStep::Released,
            UnlockStep::Released => UnlockStep::Released,
        };
        Unlock { step, ..*self }
    }

    fn accepts(&self, reply: Reply) -> (accepted: bool) {
        match self.step {
            UnlockStep::Find { search, .. } => search.accepts(reply),
            UnlockStep::GiveUp { .. } | UnlockStep::Empty { .. } => reply.ok || beside_flags(
                reply.value,
            ) != 0,
            UnlockStep::LoadWake { .. } => reply.value == WAKER_UPDATING || reply.value
                == WAKER_WAITING,
            UnlockStep::Consume { .. } | UnlockStep::Interrupt { .. } => reply.ok || reply.value
                == WAKER_UPDATING || reply.value == WAKER_WAITING,
            UnlockStep::Take { .. } => reply.ok,
            UnlockStep::Released => false,
            _ => true,
        }
    }

    fn access(&self) -> (access: Access) {
        match self.step {
            UnlockStep::Release => Access::StoreByte(UNLOCKED, Order::Release),
            UnlockStep::Check | UnlockStep::LoadWord => Access::Load(Place::Word, Order::Relaxed),
            UnlockStep::TakeWaking { state } => Access::CompareExchangeWeak(
                Place::Word,
                state,
                set_flag(state),
                Order::Acquire,
                Order::Relaxed,
            ),
            UnlockStep::Find { search, .. } => search.access(),
            UnlockStep::GiveUp { state } => Access::CompareExchangeWeak(
                Place::Word,
                state,
                clear_flag(state),
                Order::AcqRel,
                Order::Acquire,
            ),
            UnlockStep::LoadPrev { tail, .. } => Access::Load(
                Place::Link(tail, Link::Prev),
                Order::Relaxed,
            ),
            UnlockStep::SetTail { state, prev, .. } => Access::Store(
                Place::Link(beside_flags(state), Link::Tail),
                prev,
                Order::Relaxed,
            ),
            UnlockStep::ClearWaking { .. } => Access::FetchAnd(
                Place::Word,
                NOT_BYTE_FLAG,
                Order::Release,
            ),
            UnlockStep::Fence { .. } => Access::Fence(Order::Release),
            UnlockStep::Empty { state, .. } => Access::CompareExchangeWeak(
                Place::Word,
                state,
                if self.racy_wake {
                    UNLOCKED
                } else {
                    BYTE_FLAG
                },
                Order::AcqRel,
                Order::Acquire,
            ),
            UnlockStep::LoadWake { tail } => Access::Load(Place::Wake(tail), Order::Relaxed),
            UnlockStep::Consume { tail } => Access::CompareExchangeWeak(
                Place::Wake(tail),
                WAKER_WAITING,
                WAKER_CONSUMING,
                Order::Acquire,
                Order::Relaxed,
            ),
            UnlockStep::Interrupt { tail } => Access::CompareExchangeWeak(
                Place::Wake(tail),
                WAKER_UPDATING,
                wake_state(self.racy_wake),
                Order::Relaxed,
                Order::Relaxed,
            ),
            UnlockStep::Take { tail } => Access::TakeWaker(tail),
            UnlockStep::SetWake { tail } => Access::Store(
                Place::Wake(tail),
                wake_state(self.racy_wake),
                Order::Release,
            ),
            UnlockStep::Wake => Access::Wake,
            UnlockStep::Released => Access::Done,
        }
    }

    fn resume(&mut self, reply: Reply, _hints: &mut Hints) {
        self.step =
        match self.step {
            UnlockStep::Release => UnlockStep::Check,
            UnlockStep::Check => if reply.value == UNLOCKED {
                UnlockStep::Released
            } else {
                UnlockStep::LoadWord
            },
            UnlockStep::LoadWord => unlock_slow(reply.value),
            UnlockStep::TakeWaking { state } => if reply.ok {
                find(set_flag(state))
            } else {
                unlock_slow(reply.value)
            },
            UnlockStep::Find { state, search } => {
                let next = search.resumed(reply);
                match next.found() {
                    Some(tail) => found(state, tail),
                    None => UnlockStep::Find { state, search: next },
                }
            },
            UnlockStep::GiveUp { .. } => if reply.ok {
                UnlockStep::Released
            } else {
                find(reply.value)
            },
            UnlockStep::LoadPrev { state, tail } => if reply.value == 0 {
                UnlockStep::Empty { state, tail }
            } else {
                UnlockStep::SetTail { state, tail, prev: reply.value }
            },
            UnlockStep::SetTail { tail, .. } => if self.racy_wake {
                UnlockStep::ClearWaking { tail }
            } else {
                UnlockStep::Fence { tail }
            },
            UnlockStep::ClearWaking { tail } => UnlockStep::LoadWake { tail },
            UnlockStep::Fence { tail } => UnlockStep::LoadWake { tail },
            UnlockStep::Empty { tail, .. } => if reply.ok {
                UnlockStep::LoadWake { tail }
            } else {
                find(reply.value)
            },
            UnlockStep::LoadWake { tail } => wake(tail, reply.value),
            UnlockStep::Consume { tail } => if reply.ok {
                UnlockStep::Take { tail }
            } else {
                wake(tail, reply.value)
            },
            UnlockStep::Interrupt { tail } => if reply.ok {
                UnlockStep::Released
            } else {
                wake(tail, reply.value)
            },
            UnlockStep::Take { tail } => UnlockStep::SetWake { tail },
            UnlockStep::SetWake { .. } => UnlockStep::Wake,
            UnlockStep::Wake => UnlockStep::Released,
            UnlockStep::Released => UnlockStep::Released,
        };
    }
}

impl Party for Unlock {
    open spec fn begins(&self) -> bool {
        self.step is Release
    }

    open spec fn holds(&self, memory: Shared) -> bool {
        self.step is Release
    }

    open spec fn waiter(&self) -> usize {
        0
    }

    open spec fn admits(&self, memory: Shared, reply: Reply) -> bool {
        true
    }
}

/// Taking a free lock that nobody waits for and giving it up again, with nothing
/// in between, succeeds at once and leaves everything as it was.
pub proof fn undisturbed_round_trip(lock: LockFuture, unlock: Unlock, memory: Shared)
    requires
        lock.begins(),
        unlock.begins(),
        memory.word == UNLOCKED,
    ensures
        alone(lock, memory, 1) == (LockFuture { step: LockStep::Locked, ..lock }, Shared { word: LOCKED, ..memory }),
        alone(unlock, Shared { word: LOCKED, ..memory }, 2) == (Unlock { step: UnlockStep::Released, ..unlock }, memory),
{
    reveal_with_fuel(alone, 3);
}

/// The lock of this module, as [`crate::exclusion`], [`crate::queue`] and
/// [`crate::upkeep`] speak of it. Their laws hold of it, among them
/// [`crate::exclusion::mutual_exclusion`],
/// [`crate::queue::every_reply_is_expected`],
/// [`crate::queue::nobody_is_forgotten`] and
/// [`crate::upkeep::free_lock_is_not_left_alone`].
pub struct Kind;

impl Encoding for Kind {
    open spec fn is_held(word: usize) -> bool {
        is_locked(word)
    }

    /// A woken waiter has to take the lock by itself.
    open spec fn grants(wake: usize) -> bool {
        false
    }
}

impl LockKind for Kind {
    type Try = TryLock;

    type Lock = LockFuture;

    type Unlock = Unlock;

    proof fn try_frame(party: TryLock, memory: Shared, next: Shared) {
        assert(party.waiter() == 0 && party.holds(memory) == party.holds(next));
    }

    proof fn lock_frame(party: LockFuture, memory: Shared, next: Shared) {
        assert(party.waiter() != 0 && party.holds(memory) == party.holds(next));
    }

    proof fn unlock_frame(party: Unlock, memory: Shared, next: Shared) {
        assert(party.waiter() == 0 && party.holds(memory) == party.holds(next));
    }

    proof fn lock_given_up(party: LockFuture, other: LockFuture, memory: Shared) {
        assert(!party.gives_up(other));
    }

    proof fn try_step(party: TryLock, memory: Shared, reply: Reply, next: Shared) {
    }

    #[verifier::spinoff_prover]
    #[verifier::rlimit(50)]
    proof fn lock_step(party: LockFuture, memory: Shared, reply: Reply, next: Shared) {
        if let LockStep::Exchange { state, poll } = party.step {
            lemma_exchanged(state, poll.is_waking, party.waiter);
        }
    }

    #[verifier::spinoff_prover]
    #[verifier::rlimit(100)]
    proof fn unlock_step(party: Unlock, memory: Shared, reply: Reply, next: Shared) {
        lemma_clear_flag(memory.word);
        assert(is_locked(clear_flag(memory.word)) == is_locked(memory.word));
        if next.word != memory.word {
            assert(forall|node: usize| wake_of(next, node) == wake_of(memory, node));
        }
    }
}

/// Whether the waiter can be woken: its waker is ready, or being replaced.
pub open spec fn is_ready(memory: Shared, node: usize) -> bool {
    &&& node != 0
    &&& wake_of(memory, node) == WAKER_WAITING && (memory.wakers)(node) || wake_of(memory, node)
        == WAKER_UPDATING
}

/// Whether the waiter was woken.
pub open spec fn is_woken(memory: Shared, node: usize) -> bool {
    wake_of(memory, node) == WAKER_EMPTY || wake_of(memory, node) == WAKER_WAKING
}

/// Whether an attempt to lock waits by its waiter.
pub open spec fn waits(lock: LockFuture) -> bool {
    match lock.step {
        LockStep::Pending
        | LockStep::LoadWake
        | LockStep::BeginUpdate
        | LockStep::DropWaker
        | LockStep::ReplaceWaker
        | LockStep::EndUpdate
        | LockStep::DropLate { .. } => true,
        _ => false,
    }
}

/// What an attempt to lock knows about its waiter.
pub open spec fn lock_knows(lock: LockFuture, memory: Shared) -> bool {
    let node = lock.waiter;
    let wake = wake_of(memory, node);
    let waker = (memory.wakers)(node);
    let stored = wake == WAKER_WAITING && waker;
    let reset = stored && link(memory, node, Link::Prev) == 0;
    match lock.step {
        LockStep::DropUnused | LockStep::Locked => true,
        LockStep::Fast => wake == WAKER_EMPTY,
        LockStep::Pending | LockStep::LoadWake | LockStep::BeginUpdate => stored || wake
            == WAKER_CONSUMING || is_woken(memory, node),
        LockStep::DropWaker | LockStep::ReplaceWaker => wake == WAKER_UPDATING || is_woken(
            memory,
            node,
        ),
        LockStep::EndUpdate => wake == WAKER_UPDATING && waker || is_woken(memory, node),
        LockStep::DropLate { wake: seen } => seen == wake && is_woken(memory, node),
        LockStep::LoadWord { poll } | LockStep::SetNext { poll, .. } => poll.has_waker ==> reset,
        LockStep::Swap { poll } => !poll.is_waking && (poll.has_waker ==> reset),
        LockStep::SetTail { state, poll } => {
            &&& poll.has_waker ==> reset
            &&& link(memory, node, Link::Next) == beside_flags(state)
        },
        LockStep::SetWaker { state, .. } => {
            &&& link(memory, node, Link::Next) == beside_flags(state)
            &&& link(memory, node, Link::Tail) == if beside_flags(state) == 0 {
                node
            } else {
                0
            }
        },
        LockStep::SetPrev { state, .. } => {
            &&& link(memory, node, Link::Next) == beside_flags(state)
            &&& link(memory, node, Link::Tail) == if beside_flags(state) == 0 {
                node
            } else {
                0
            }
            &&& waker
        },
        LockStep::SetWaiting { state, .. } => leads_to(memory, node, beside_flags(state)) && waker,
        LockStep::Exchange { state, poll } => {
            &&& poll.has_waker ==> reset
            &&& is_locked(state) ==> poll.has_waker && leads_to(memory, node, beside_flags(state))
        },
    }
}

/// Whether an attempt to lock was handed the waking flag, and has not cleared it
/// yet.
pub open spec fn carries(lock: LockFuture, memory: Shared) -> bool {
    match lock.step {
        LockStep::Fast | LockStep::DropUnused | LockStep::Locked => false,
        LockStep::LoadWord { poll }
        | LockStep::Swap { poll }
        | LockStep::SetNext { poll, .. }
        | LockStep::SetTail { poll, .. }
        | LockStep::SetWaker { poll, .. }
        | LockStep::SetPrev { poll, .. }
        | LockStep::SetWaiting { poll, .. }
        | LockStep::Exchange { poll, .. } => poll.is_waking,
        _ => wake_of(memory, lock.waiter) == WAKER_WAKING,
    }
}

/// The part that an unlock has in the queue.
pub open spec fn stage(unlock: Unlock) -> Stage {
    match unlock.step {
        UnlockStep::Find { state, search } => Stage::Find { head: beside_flags(state), search },
        UnlockStep::GiveUp { state } => Stage::Settled { head: beside_flags(state) },
        UnlockStep::LoadPrev { state, tail } => Stage::Found { head: beside_flags(state), tail },
        UnlockStep::SetTail { state, tail, prev } => Stage::Cut {
            head: beside_flags(state),
            tail,
            prev,
        },
        UnlockStep::Empty { state, tail } => Stage::Last { head: beside_flags(state), tail },
        UnlockStep::ClearWaking { .. } | UnlockStep::Fence { .. } => Stage::Leaving,
        _ => Stage::Idle,
    }
}

/// The waiter that an unlock has taken off the queue and not woken yet, or 0.
pub open spec fn grip(unlock: Unlock) -> usize {
    match unlock.step {
        UnlockStep::ClearWaking { tail }
        | UnlockStep::Fence { tail }
        | UnlockStep::LoadWake { tail }
        | UnlockStep::Consume { tail }
        | UnlockStep::Interrupt { tail }
        | UnlockStep::Take { tail }
        | UnlockStep::SetWake { tail } => tail,
        _ => 0,
    }
}

/// Whether an unlock hands the waking flag to the waiter that it wakes.
pub open spec fn passes(unlock: Unlock) -> bool {
    &&& !unlock.racy_wake
    &&& match unlock.step {
        UnlockStep::LoadWake { .. }
        | UnlockStep::Consume { .. }
        | UnlockStep::Interrupt { .. }
        | UnlockStep::Take { .. }
        | UnlockStep::SetWake { .. } => true,
        _ => false,
    }
}

/// What an unlock knows about that waiter, and about the word it looked at.
pub open spec fn unlock_knows(unlock: Unlock, memory: Shared) -> bool {
    match unlock.step {
        UnlockStep::TakeWaking { state } => !has_flag(state),
        UnlockStep::ClearWaking { tail } => unlock.racy_wake && is_ready(memory, tail),
        UnlockStep::Fence { tail } => !unlock.racy_wake && is_ready(memory, tail),
        UnlockStep::LoadWake { tail }
        | UnlockStep::Consume { tail }
        | UnlockStep::Interrupt { tail } => is_ready(memory, tail),
        UnlockStep::Take { tail } => {
            tail != 0 && wake_of(memory, tail) == WAKER_CONSUMING && (memory.wakers)(tail)
        },
        UnlockStep::SetWake { tail } => tail != 0 && wake_of(memory, tail) == WAKER_CONSUMING,
        _ => true,
    }
}

impl Queued for Kind {
    open spec fn newest(word: usize) -> usize {
        beside_flags(word)
    }

    open spec fn is_node(node: usize) -> bool {
        is_waiter(node)
    }

    open spec fn flagged() -> bool {
        true
    }

    open spec fn flag(word: usize) -> bool {
        has_flag(word)
    }

    open spec fn is_tidy(word: usize) -> bool {
        word % 256 <= 1
    }

    open spec fn ready(memory: Shared, node: usize) -> bool {
        is_ready(memory, node)
    }

    open spec fn woken(memory: Shared, node: usize) -> bool {
        is_woken(memory, node)
    }

    open spec fn fresh(memory: Shared, node: usize) -> bool {
        wake_of(memory, node) == WAKER_EMPTY
    }

    open spec fn waits(lock: LockFuture) -> bool {
        waits(lock)
    }

    open spec fn joins(lock: LockFuture, reply: Reply) -> bool {
        lock.step matches LockStep::Exchange { state, .. } && reply.ok && is_locked(state)
    }

    open spec fn lock_knows(lock: LockFuture, memory: Shared) -> bool {
        lock_knows(lock, memory)
    }

    open spec fn carries(lock: LockFuture, memory: Shared) -> bool {
        carries(lock, memory)
    }

    open spec fn stage(unlock: Unlock) -> Stage {
        stage(unlock)
    }

    open spec fn reads_prev(unlock: Unlock) -> bool {
        unlock.step is LoadPrev
    }

    open spec fn grip(unlock: Unlock) -> usize {
        grip(unlock)
    }

    open spec fn passes(unlock: Unlock) -> bool {
        passes(unlock)
    }

    open spec fn unlock_knows(unlock: Unlock, memory: Shared) -> bool {
        unlock_knows(unlock, memory)
    }

    open spec fn lock_admits(lock: LockFuture, memory: Shared, reply: Reply) -> bool {
        true
    }

    open spec fn unlock_admits(unlock: Unlock, memory: Shared, reply: Reply) -> bool {
        true
    }
}

/// A state word with nothing in its lowest byte but the held flag, with another
/// newest waiter, and with its flags changed.
#[verifier::spinoff_prover]
proof fn words_of(word: usize, node: usize)
    requires
        node % 512 == 0,
        word % 256 <= 1,
    ensures
        beside_flags(word) == above_flag(word),
        with_beside_flags(word, node) == with_above_flag(word, node),
        above_flag(with_above_flag(word, node)) == node,
        has_flag(with_above_flag(word, node)) == has_flag(word),
        with_above_flag(word, node) % 256 == word % 256,
        above_flag(set_locked(word)) == above_flag(word),
        has_flag(set_locked(word)) == has_flag(word),
        set_locked(word) % 256 == 1,
        above_flag(set_flag(word)) == above_flag(word),
        has_flag(set_flag(word)),
        set_flag(word) % 256 == word % 256,
        above_flag(clear_flag(word)) == above_flag(word),
        !has_flag(clear_flag(word)),
        clear_flag(word) % 256 == word % 256,
        word & NOT_BYTE_FLAG == clear_flag(word),
{
    lemma_byte_word(word, node, LOCKED);
    lemma_clean_word(word, node);
    lemma_clear_flag(word);
}

/// A state word with another held byte.
proof fn bytes_of(word: usize)
    requires
        word % 256 <= 1,
    ensures
        beside_flags(with_byte(word, LOCKED)) == beside_flags(word),
        has_flag(with_byte(word, LOCKED)) == has_flag(word),
        with_byte(word, LOCKED) % 256 == 1,
        beside_flags(with_byte(word, UNLOCKED)) == beside_flags(word),
        has_flag(with_byte(word, UNLOCKED)) == has_flag(word),
        with_byte(word, UNLOCKED) % 256 == 0,
        beside_flags(BYTE_FLAG) == 0 && has_flag(BYTE_FLAG),
        beside_flags(UNLOCKED) == 0 && !has_flag(UNLOCKED),
{
    lemma_byte_word(word, 0, LOCKED);
    lemma_byte_word(word, 0, UNLOCKED);
    words_of(word, 0);
    words_of(with_byte(word, LOCKED), 0);
    words_of(with_byte(word, UNLOCKED), 0);
}

/// A state word with another waking flag.
proof fn flags_of(word: usize)
    requires
        word % 256 <= 1,
    ensures
        beside_flags(set_flag(word)) == beside_flags(word),
        has_flag(set_flag(word)),
        set_flag(word) % 256 <= 1,
        beside_flags(clear_flag(word)) == beside_flags(word),
        !has_flag(clear_flag(word)),
        clear_flag(word) % 256 <= 1,
        word & NOT_BYTE_FLAG == clear_flag(word),
{
    words_of(word, 0);
    words_of(set_flag(word), 0);
    words_of(clear_flag(word), 0);
}

/// The state word that an attempt to lock leaves.
proof fn exchanged_of(state: usize, is_waking: bool, node: usize)
    requires
        node % 512 == 0,
        state % 256 <= 1,
    ensures
        beside_flags(exchanged(state, is_waking, node)) == if is_locked(state) {
            node
        } else {
            beside_flags(state)
        },
        has_flag(exchanged(state, is_waking, node)) == (!is_waking && has_flag(state)),
        exchanged(state, is_waking, node) % 256 == 1,
{
    let joined = with_beside_flags(state, node);
    let taken = set_locked(state);
    words_of(state, node);
    words_of(joined, node);
    words_of(taken, node);
    words_of(clear_flag(joined), node);
    words_of(clear_flag(taken), node);
    assert(state % 256 % 2 == state % 2);
    assert(exchanged(state, is_waking, node) == if is_locked(state) {
        if is_waking {
            clear_flag(joined)
        } else {
            joined
        }
    } else {
        if is_waking {
            clear_flag(taken)
        } else {
            taken
        }
    }) by {
        reveal(spec_exchanged);
    }
}

impl Queueing for Kind {
    proof fn of_nodes(memory: Shared, node: usize) {
        assert(is_ready(memory, node) || !is_ready(memory, node));
    }

    proof fn node_frame(memory: Shared, next: Shared, node: usize) {
        assert(is_ready(memory, node) == is_ready(next, node));
    }

    proof fn lock_knows_frame(lock: LockFuture, memory: Shared, next: Shared) {
        assert(lock.waiter() == lock.waiter);
        assert(waits(lock) || !waits(lock));
        assert(lock_knows(lock, memory) ==> lock_knows(lock, next));
    }

    proof fn unlock_knows_frame(unlock: Unlock, memory: Shared, next: Shared) {
        assert(grip(unlock) == 0 || grip(unlock) != 0);
        assert(unlock_knows(unlock, memory) ==> unlock_knows(unlock, next));
    }

    proof fn try_obeys(attempt: TryLock, memory: Shared, reply: Reply, next: Shared) {
        bytes_of(memory.word);
    }

    #[verifier::spinoff_prover]
    #[verifier::rlimit(40)]
    proof fn lock_obeys(lock: LockFuture, memory: Shared, reply: Reply, next: Shared) {
        bytes_of(memory.word);
        if let LockStep::Exchange { state, poll } = lock.step {
            if reply.ok {
                exchanged_of(state, poll.is_waking, lock.waiter);
            }
        }
        assert(lock.waiter() == lock.waiter);
        assert(is_ready(memory, lock.waiter) || !is_ready(memory, lock.waiter));
    }

    #[verifier::rlimit(50)]
    proof fn lock_obeys_grip(
        lock: LockFuture,
        unlock: Unlock,
        memory: Shared,
        reply: Reply,
        next: Shared,
    ) {
        assert(lock.waiter() == lock.waiter);
        assert(grip(unlock) == lock.waiter);
    }

    #[verifier::spinoff_prover]
    #[verifier::rlimit(40)]
    proof fn unlock_obeys(unlock: Unlock, memory: Shared, reply: Reply, next: Shared) {
        flags_of(memory.word);
        bytes_of(memory.word);
        assert(stage(unlock) is Idle || !(stage(unlock) is Idle));
    }

    #[verifier::rlimit(50)]
    proof fn unlock_obeys_lock(
        unlock: Unlock,
        lock: LockFuture,
        memory: Shared,
        reply: Reply,
        next: Shared,
    ) {
        assert(lock.waiter() == lock.waiter);
        assert(grip(unlock) == lock.waiter);
    }
}

impl Upkeep for Kind {
    open spec fn tends(unlock: Unlock) -> bool {
        !(unlock.step is Release || unlock.step is Wake || unlock.step is Released)
    }

    proof fn lock_is_up(lock: LockFuture, memory: Shared) {
        assert(lock.waiter() == lock.waiter);
    }

    proof fn unlock_is_up(unlock: Unlock) {
        assert(stage(unlock) is Idle || !(stage(unlock) is Idle));
    }

    proof fn try_tends(attempt: TryLock, memory: Shared, reply: Reply, next: Shared) {
        bytes_of(memory.word);
    }

    #[verifier::rlimit(50)]
    proof fn lock_tends(lock: LockFuture, memory: Shared, reply: Reply, next: Shared) {
        assert(lock.waiter() == lock.waiter);
        bytes_of(memory.word);
        if let LockStep::Exchange { state, poll } = lock.step {
            if reply.ok {
                exchanged_of(state, poll.is_waking, lock.waiter);
                lemma_exchanged(state, poll.is_waking, lock.waiter);
            }
        }
    }

    #[verifier::rlimit(50)]
    proof fn unlock_tends(unlock: Unlock, memory: Shared, reply: Reply, next: Shared) {
        flags_of(memory.word);
        bytes_of(memory.word);
        assert(wakes::<Self>(unlock, reply) || !wakes::<Self>(unlock, reply));
    }

    proof fn lock_inherits(
        unlock: Unlock,
        lock: LockFuture,
        memory: Shared,
        reply: Reply,
        next: Shared,
    ) {
        assert(lock.waiter() == lock.waiter);
        assert(grip(unlock) == lock.waiter);
    }
}

impl Tenure for Kind {
    proof fn lock_is_handed(lock: LockFuture, memory: Shared) {
        assert(lock.waiter() == lock.waiter);
    }

    proof fn try_keeps(attempt: TryLock, memory: Shared, reply: Reply, next: Shared) {
        bytes_of(memory.word);
    }

    proof fn lock_keeps(lock: LockFuture, memory: Shared, reply: Reply, next: Shared) {
        assert(lock.waiter() == lock.waiter);
        bytes_of(memory.word);
        if let LockStep::Exchange { state, poll } = lock.step {
            if reply.ok {
                exchanged_of(state, poll.is_waking, lock.waiter);
                lemma_exchanged(state, poll.is_waking, lock.waiter);
            }
        }
    }

    proof fn unlock_keeps(unlock: Unlock, memory: Shared, reply: Reply, next: Shared) {
        flags_of(memory.word);
        bytes_of(memory.word);
        assert(stage(unlock) is Idle || !(stage(unlock) is Idle));
    }
}

impl LockOwners for Kind {
    open spec fn is_set(memory: Shared, node: usize) -> bool {
        wake_of(memory, node) == WAKER_WAITING && (memory.wakers)(node)
    }

    open spec fn is_live(memory: Shared, node: usize) -> bool {
        let wake = wake_of(memory, node);
        (wake == WAKER_WAITING || wake == WAKER_CONSUMING) && (memory.wakers)(node)
    }

    open spec fn pends(lock: LockFuture) -> bool {
        lock.step is Pending
    }

    open spec fn trusts(lock: LockFuture) -> bool {
        match lock.step {
            LockStep::EndUpdate | LockStep::SetPrev { .. } | LockStep::SetWaiting { .. } => true,
            LockStep::LoadWord { poll }
            | LockStep::Swap { poll }
            | LockStep::SetNext { poll, .. }
            | LockStep::SetTail { poll, .. }
            | LockStep::Exchange { poll, .. } => poll.has_waker,
            _ => false,
        }
    }

    open spec fn trusts_if_set(lock: LockFuture) -> bool {
        lock.step is Pending
    }

    open spec fn leaves(lock: LockFuture) -> bool {
        lock.step is Pending || lock.step is LoadWake || lock.step is BeginUpdate
    }
}

impl QueueOwners for Kind {
    proof fn of_polls(lock: LockFuture, memory: Shared) {
        assert(lock.waiter() == lock.waiter);
    }

    proof fn waker_frame(memory: Shared, next: Shared, node: usize) {
        assert(Self::is_set(next, node) == Self::is_set(memory, node));
    }

    proof fn lock_sees_to(lock: LockFuture, memory: Shared, reply: Reply, next: Shared) {
        assert(lock.waiter() == lock.waiter);
    }

    proof fn try_stores_none(attempt: TryLock) {
        assert(!(attempt.wants() is StoreWaker));
    }

    proof fn unlock_stores_none(unlock: Unlock) {
        assert(grip(unlock) == 0 || grip(unlock) != 0);
    }

    proof fn unlock_gives_none(unlock: Unlock, memory: Shared, reply: Reply, next: Shared) {
        assert(grip(unlock) == 0 || grip(unlock) != 0);
    }

    proof fn unlock_takes(unlock: Unlock, lock: LockFuture, memory: Shared) {
        assert(lock.waiter() == lock.waiter);
        assert(grip(unlock) == lock.waiter);
    }
}

impl Keeps<Debt> for Unlock {
    open spec fn fits(&self, ledger: Debt) -> bool {
        &&& match self.step {
            UnlockStep::SetWake { tail } => ledger.taken == Some(tail),
            UnlockStep::Wake => ledger.taken is Some && ledger.told == ledger.taken,
            _ => ledger.taken is None,
        }
        &&& !ledger.missed
        &&& !ledger.lends
    }

    proof fn goes_on(operation: Self, ledger: Debt, reply: Reply) {
    }

    proof fn obeys(operation: Self, ledger: Debt) {
    }
}

/// An unlock that took the waker of a waiter wakes it before it is over, once
/// it has stored the wake state. It takes no waker where there is none.
pub proof fn unlock_wakes_whom_it_took(first: Unlock, replies: Seq<Reply>, i: int, j: int)
    requires
        first.wf(),
        first.begins(),
        is_course(first, replies),
        0 <= i < j <= replies.len(),
    ensures
        ledger(first, replies, Debt::none(), j).allows(point(first, replies, j).wants()),
        !ledger(first, replies, Debt::none(), j).missed,
        ({
            &&& point(first, replies, i).wants() is TakeWaker
            &&& replies[i].ok
            &&& point(first, replies, j).wants() is Done
        }) ==> exists|k: int| i < k < j && #[trigger] point(first, replies, k).wants() is Wake,
{
    always_allowed(first, replies, Debt::none(), j);
    if point(first, replies, i).wants() is TakeWaker && replies[i].ok && point(
        first,
        replies,
        j,
    ).wants() is Done {
        taken_waker_is_woken(first, replies, Debt::none(), i, j);
    }
}

impl Signs for Kind {
    open spec fn is_up(wake: usize) -> bool {
        wake == WAKER_EMPTY || wake == WAKER_WAKING
    }
}

impl Keeps<Wait<Kind>> for LockFuture {
    open spec fn fits(&self, ledger: Wait<Kind>) -> bool {
        &&& ledger.node == self.waiter
        &&& ledger.drops
        &&& match self.step {
            LockStep::Fast => ledger.is_free() && ledger.word is None,
            LockStep::LoadWake => !ledger.took && !ledger.updating && !ledger.late,
            LockStep::BeginUpdate => {
                &&& !ledger.took
                &&& ledger.queued
                &&& !ledger.updating
                &&& !ledger.late
            },
            LockStep::DropWaker | LockStep::ReplaceWaker => {
                &&& !ledger.took
                &&& ledger.queued
                &&& ledger.updating
                &&& !ledger.late
            },
            LockStep::EndUpdate => {
                &&& !ledger.took
                &&& ledger.queued
                &&& ledger.updating
                &&& ledger.fresh
                &&& !ledger.late
            },
            LockStep::DropLate { wake } => {
                &&& !ledger.took
                &&& !ledger.queued
                &&& !ledger.updating
                &&& ledger.late
                &&& ledger.wake == Some(wake)
            },
            LockStep::LoadWord { poll } | LockStep::Swap { poll } => {
                &&& ledger.is_free()
                &&& poll.has_waker ==> ledger.is_ready() && ledger.waker
            },
            LockStep::SetNext { state, poll } | LockStep::SetTail { state, poll } => {
                &&& ledger.is_free()
                &&& ledger.word == Some(state)
                &&& poll.has_waker ==> ledger.is_ready() && ledger.waker
            },
            LockStep::SetWaker { state, poll } => {
                &&& ledger.is_free()
                &&& ledger.word == Some(state)
            },
            LockStep::SetPrev { state, poll } | LockStep::SetWaiting { state, poll } => {
                &&& ledger.is_free()
                &&& ledger.word == Some(state)
                &&& ledger.waker
            },
            LockStep::Exchange { state, poll } => {
                &&& ledger.is_free()
                &&& ledger.word == Some(state)
                &&& poll.has_waker || is_locked(state) ==> ledger.is_ready() && ledger.waker
            },
            LockStep::DropUnused => ledger.took && !ledger.updating && !ledger.late && ledger.waker,
            LockStep::Pending => {
                &&& !ledger.took
                &&& ledger.queued
                &&& ledger.is_down()
                &&& !ledger.updating
                &&& !ledger.late
            },
            LockStep::Locked => ledger.took && !ledger.updating && !ledger.late,
        }
    }

    #[verifier::spinoff_prover]
    #[verifier::rlimit(40)]
    proof fn goes_on(operation: Self, ledger: Wait<Kind>, reply: Reply) {
    }

    proof fn obeys(operation: Self, ledger: Wait<Kind>) {
    }
}

/// An attempt is over exactly when it has the lock. It joins the queue ready to
/// be woken, waits only if it saw since it waited last that it was not woken,
/// and is woken by the waker of its last poll.
pub proof fn attempt_waits_until_it_is_woken(first: LockFuture, replies: Seq<Reply>)
    requires
        first.wf(),
        first.begins(),
        is_course(first, replies),
    ensures
        ({
            let start = Wait::begin(Kind, first.waiter, true);
            let now = point(first, replies, replies.len() as int);
            let wait = ledger(first, replies, start, replies.len() as int);
            &&& wait.allows(now.wants())
            &&& now.step is Locked ==> wait.took
        }),
{
    let start = Wait::begin(Kind, first.waiter, true);
    always_allowed(first, replies, start, replies.len() as int);
}

impl Crowd for Kind {
    open spec fn is_quiet(word: usize) -> bool {
        is_locked(word) && beside_flags(word) == 0
    }

    open spec fn deadline(word: usize, node: usize) -> u32 {
        0
    }
}

impl Keeps<Patience<Kind>> for LockFuture {
    open spec fn fits(&self, ledger: Patience<Kind>) -> bool {
        &&& ledger.hinted == if self.intel {
            11nat
        } else {
            6
        }
        &&& ledger.rounds == ledger.hinted
        &&& !ledger.forgets
        &&& !ledger.inside
        &&& match self.step {
            LockStep::Fast => !ledger.again && !ledger.pauses && !ledger.seen,
            LockStep::LoadWord { poll } => {
                &&& ledger.spun == poll.spin.iter
                &&& poll.spin.iter <= ledger.rounds
                &&& ledger.just ==> ledger.again
                &&& !ledger.pauses
                &&& poll.spin.max is Some ==> poll.spin.max == Some(last_round(None, self.intel))
            },
            LockStep::Swap { poll } => {
                &&& ledger.seen
                &&& ledger.spun == poll.spin.iter
                &&& poll.spin.iter <= ledger.rounds
                &&& !ledger.again
                &&& !ledger.pauses
                &&& poll.spin.max is Some ==> poll.spin.max == Some(last_round(None, self.intel))
            },
            LockStep::SetNext { state, poll }
            | LockStep::SetTail { state, poll }
            | LockStep::SetWaker { state, poll }
            | LockStep::SetPrev { state, poll }
            | LockStep::SetWaiting { state, poll }
            | LockStep::Exchange { state, poll } => {
                &&& ledger.seen
                &&& ledger.spun == poll.spin.iter
                &&& poll.spin.iter <= ledger.rounds
                &&& !ledger.again
                &&& !ledger.pauses
                &&& poll.spin.max is Some ==> poll.spin.max == Some(last_round(None, self.intel))
                &&& Kind::is_quiet(state) ==> ledger.spun >= ledger.rounds
            },
            LockStep::DropLate { .. } => {
                &&& ledger.spun == 0
                &&& !ledger.just
                &&& !ledger.again
                &&& !ledger.pauses
            },
            _ => !ledger.again && !ledger.pauses,
        }
    }

    #[verifier::spinoff_prover]
    #[verifier::rlimit(40)]
    proof fn goes_on(operation: Self, ledger: Patience<Kind>, reply: Reply) {
    }

    proof fn obeys(operation: Self, ledger: Patience<Kind>) {
    }
}

/// An attempt that finds the lock held and the queue empty looks again, eleven times on an Intel processor and six on any
/// other, and joins the queue only then. Each time it makes twice as many hints to
/// the processor as the last time, and one if it
/// just missed a free lock. It starts over
/// when it was woken.
pub proof fn attempt_spins_before_it_queues(first: LockFuture, replies: Seq<Reply>, reply: Reply)
    requires
        first.wf(),
        first.begins(),
        is_course(first, replies),
    ensures
        ({
            let rounds: nat = if first.intel {
                11
            } else {
                6
            };
            let start = Patience::begin(Kind, rounds, rounds, false);
            let now = point(first, replies, replies.len() as int);
            let patience = ledger(first, replies, start, replies.len() as int);
            &&& patience.allows(now.wants())
            &&& now.expects(reply) ==> now.hints(reply) == patience.hints_after(now.wants(), reply)
        }),
{
    let rounds: nat = if first.intel {
        11
    } else {
        6
    };
    let start = Patience::begin(Kind, rounds, rounds, false);
    always_allowed(first, replies, start, replies.len() as int);
    assert forall|round: u8| spec_hints(round) == pow2(round as nat) by {
        hints_are_powers(round);
    }
}

/// Whoever takes the lock sees what was done under it before, whoever looks
/// through the queue sees the waiters in it, and a waiter that sees that it was
/// woken sees what was done before that.
#[verifier::spinoff_prover]
#[verifier::rlimit(40)]
pub proof fn what_was_done_is_seen(attempt: TryLock, lock: LockFuture, unlock: Unlock)
    requires
        attempt.wf(),
        lock.wf(),
        unlock.wf(),
    ensures
        keeps_the_lock_visible(attempt.wants()),
        keeps_the_lock_visible(lock.wants()),
        keeps_the_lock_visible(unlock.wants()),
        keeps_the_queue_visible(lock.wants()),
        keeps_the_wake_visible(unlock.wants()),
        keeps_the_waker_visible(lock.wants(), WAKER_UPDATING, WAKER_CONSUMING),
        keeps_the_waker_visible(unlock.wants(), WAKER_UPDATING, WAKER_CONSUMING),
{
    lemma_masks();
    lemma_flag_masks();
}

} // verus!
