//! A mutex that is handed over once a waiter has waited for too long.
//!
//! The state word holds the held flag, the starved flag and the newest waiter.
//! The thread that holds the mutex owns the queue. A waiter that joins the
//! queue more than a millisecond after it first did sets the starved flag;
//! from then on an unlock wakes the oldest waiter as the holder.
use vstd::arithmetic::power2::pow2;
use vstd::prelude::*;
use crate::access::{Access, Link, Operation, Order, Place, Reply};
use crate::course::{Keeps, Ledger, always_allowed, is_course, ledger, point};
use crate::debt::{Debt, taken_waker_is_woken};
use crate::exclusion::{Encoding, LockKind, Party, wake_of};
use crate::handover::{self, Handover};
use crate::kernel::cpu::{Hints, hints_are_powers, spec_hints, spin_round};
use crate::memory::{Shared, alone};
use crate::patience::{Crowd, Patience};
use crate::queue::{Queued, Queueing, Stage, leads_to};
use crate::starving::Starving;
use crate::tail::{Search, link};
use crate::tenure::Tenure;
use crate::upkeep::{Upkeep, wakes};
use crate::visibility::{keeps_the_lock_visible, keeps_the_queue_visible, keeps_the_wake_visible};
use crate::wait::{Signs, Wait};
use crate::words::{
    LOCKED, NOT_LOCKED, UNLOCKED, has_second, is_locked, lemma_clear_locked, lemma_flag_masks,
    lemma_masks, lemma_tagged_word, newest, set_locked, set_second, with_newest,
};

verus! {

/// The wake state of a waiter that may look at the mutex again.
pub const WOKEN: usize = 0;

/// The wake state of a waiter that waits.
pub const WAITING: usize = 1;

/// The wake state of a waiter that holds the mutex.
pub const HANDED: usize = 2;

/// How long a waiter waits before it counts as starved, in nanoseconds.
pub const STARVED_AFTER: usize = 1_000_000;

/// The last spin that only waits in place.
pub const LAST_HINT: u8 = 3;

/// The last spin before a thread joins the queue.
pub const LAST_SPIN: u8 = 10;

/// A value, and the word that the mutex's state starts from. The state itself is
/// the word of the shared memory that the operations work on.
#[derive(Debug)]
pub struct Mutex<T> {
    state: usize,
    value: T,
}

/// Whether the address can be that of a waiter of this mutex.
pub open spec fn is_waiter(node: usize) -> bool {
    node != 0 && node % 4 == 0
}

impl<T> Mutex<T> {
    pub closed spec fn state(self) -> usize {
        self.state
    }

    pub closed spec fn value(self) -> T {
        self.value
    }

    pub open spec fn spec_new(value: T) -> Self {
        Self::with(UNLOCKED, value)
    }

    pub closed spec fn with(state: usize, value: T) -> Self {
        Mutex { state, value }
    }

    #[verifier::when_used_as_spec(spec_new)]
    pub fn new(value: T) -> (mutex: Self)
        ensures
            mutex == Self::spec_new(value),
            mutex.state() == UNLOCKED,
            mutex.value() == value,
    {
        Mutex { state: UNLOCKED, value }
    }

    pub fn into_inner(self) -> (value: T)
        ensures
            value == self.value(),
    {
        self.value
    }

    /// Nobody else can have the mutex while it is borrowed to change.
    pub fn as_mut(&mut self) -> (value: &mut T)
        ensures
            *value == old(self).value(),
            final(self).value() == *final(value),
            final(self).state() == old(self).state(),
    {
        &mut self.value
    }

    /// Begins to take the mutex if it is free.
    pub fn try_lock(&self) -> (attempt: TryLock)
        ensures
            attempt == TryLock::LoadWord,
            attempt.wf(),
            attempt.begins(),
    {
        TryLock::LoadWord
    }

    /// Begins to take the mutex, waiting by the given waiter if need be.
    pub fn lock(&self, waiter: usize) -> (lock: Locking)
        requires
            is_waiter(waiter),
        ensures
            lock == (Locking { waiter, step: LockStep::Fast }),
            lock.wf(),
            lock.begins(),
    {
        Locking { waiter, step: LockStep::Fast }
    }

    /// Begins to give the mutex up.
    pub fn force_unlock(&self) -> (unlock: Unlock)
        ensures
            unlock == Unlock::Release,
            unlock.wf(),
            unlock.begins(),
    {
        Unlock::Release
    }
}

impl<T> From<T> for Mutex<T> {
    fn from(value: T) -> (mutex: Self) {
        Mutex::new(value)
    }
}

impl<T> vstd::std_specs::convert::FromSpecImpl<T> for Mutex<T> {
    open spec fn obeys_from_spec() -> bool {
        true
    }

    open spec fn from_spec(value: T) -> Self {
        Mutex::new(value)
    }
}

impl<T: Default> Default for Mutex<T> {
    fn default() -> (mutex: Self)
        ensures
            mutex.state() == UNLOCKED,
            call_ensures(T::default, (), mutex.value()),
    {
        Mutex::new(T::default())
    }
}

/// An attempt to take the mutex without waiting.
#[derive(Clone, Copy, PartialEq, Eq, Structural, Debug)]
pub enum TryLock {
    LoadWord,
    Exchange { state: usize },
    Locked,
    Failed,
}

pub open spec fn spec_attempt(state: usize) -> TryLock {
    if is_locked(state) || has_second(state) {
        TryLock::Failed
    } else {
        TryLock::Exchange { state }
    }
}

/// What to do about a state word: give up if the mutex is held or a waiter starved.
#[verifier::when_used_as_spec(spec_attempt)]
pub fn attempt(state: usize) -> (next: TryLock)
    ensures
        next == spec_attempt(state),
{
    if is_locked(state) || has_second(state) {
        TryLock::Failed
    } else {
        TryLock::Exchange { state }
    }
}

impl Operation for TryLock {
    open spec fn wf(&self) -> bool {
        *self matches TryLock::Exchange { state } ==> !is_locked(state)
    }

    open spec fn wants(&self) -> Access {
        match *self {
            TryLock::LoadWord => Access::Load(Place::Word, Order::Relaxed),
            TryLock::Exchange { state } => Access::CompareExchangeWeak(
                Place::Word,
                state,
                set_locked(state),
                Order::Acquire,
                Order::Relaxed,
            ),
            TryLock::Locked | TryLock::Failed => Access::Done,
        }
    }

    open spec fn expects(&self, reply: Reply) -> bool {
        match *self {
            TryLock::LoadWord | TryLock::Exchange { .. } => true,
            _ => false,
        }
    }

    open spec fn after(&self, reply: Reply) -> Self {
        match *self {
            TryLock::LoadWord => attempt(reply.value),
            TryLock::Exchange { .. } => if reply.ok {
                TryLock::Locked
            } else {
                attempt(reply.value)
            },
            done => done,
        }
    }

    fn accepts(&self, reply: Reply) -> (accepted: bool) {
        match *self {
            TryLock::LoadWord | TryLock::Exchange { .. } => true,
            _ => false,
        }
    }

    fn access(&self) -> (access: Access) {
        match *self {
            TryLock::LoadWord => Access::Load(Place::Word, Order::Relaxed),
            TryLock::Exchange { state } => Access::CompareExchangeWeak(
                Place::Word,
                state,
                set_locked(state),
                Order::Acquire,
                Order::Relaxed,
            ),
            TryLock::Locked | TryLock::Failed => Access::Done,
        }
    }

    fn resume(&mut self, reply: Reply, _hints: &mut Hints) {
        *self =
        match *self {
            TryLock::LoadWord => attempt(reply.value),
            TryLock::Exchange { .. } => if reply.ok {
                TryLock::Locked
            } else {
                attempt(reply.value)
            },
            done => done,
        };
    }
}

impl Party for TryLock {
    open spec fn begins(&self) -> bool {
        self is LoadWord
    }

    open spec fn holds(&self, memory: Shared) -> bool {
        self is Locked
    }

    open spec fn waiter(&self) -> usize {
        0
    }

    open spec fn admits(&self, memory: Shared, reply: Reply) -> bool {
        true
    }
}

/// What a locking thread remembers while it looks at the state word.
#[derive(Clone, Copy, PartialEq, Eq, Structural, Debug)]
pub struct Attempt {
    /// How often it has spun.
    pub spin: u8,
    /// Whether it has waited for too long.
    pub is_starved: bool,
    /// Whether its waiter has to be made ready before it joins the queue.
    pub reset_waiter: bool,
}

/// How far an attempt to lock is.
#[derive(Clone, Copy, PartialEq, Eq, Structural, Debug)]
pub enum LockStep {
    /// Takes a mutex that is free and has no waiters.
    Fast,
    LoadWord { attempt: Attempt },
    /// Lets other threads run between two spins.
    Pause { attempt: Attempt },
    /// Links the waiter in front of the newest one of `state`.
    SetNext { state: usize, attempt: Attempt },
    SetTail { state: usize, attempt: Attempt },
    SetPrev { state: usize, attempt: Attempt },
    SetWaker { state: usize, attempt: Attempt },
    SetWaiting { state: usize, attempt: Attempt },
    /// Asks how long ago the thread first joined the queue.
    Elapsed { state: usize, attempt: Attempt },
    /// Takes the mutex, or joins the queue, if the word is still `state`.
    Exchange { state: usize, attempt: Attempt },
    LoadWake { attempt: Attempt },
    Park { attempt: Attempt },
    Locked,
}

/// An attempt to lock, and the waiter it waits by.
#[derive(Clone, Copy, PartialEq, Eq, Structural, Debug)]
pub struct Locking {
    pub waiter: usize,
    pub step: LockStep,
}

/// How many hints are made on account of a state word.
pub open spec fn slow_hints(state: usize, attempt: Attempt) -> nat {
    if (is_locked(state) || has_second(state)) && newest(state) == 0 && attempt.spin <= LAST_HINT {
        spec_hints(attempt.spin)
    } else {
        0
    }
}

pub open spec fn spec_lock_slow(state: usize, attempt: Attempt) -> LockStep {
    if !is_locked(state) && !has_second(state) {
        LockStep::Exchange { state, attempt }
    } else if newest(state) == 0 && attempt.spin <= LAST_HINT {
        LockStep::LoadWord { attempt: Attempt { spin: (attempt.spin + 1) as u8, ..attempt } }
    } else if newest(state) == 0 && attempt.spin <= LAST_SPIN {
        LockStep::Pause { attempt }
    } else {
        LockStep::SetNext { state, attempt }
    }
}

/// What to do about a state word: take the mutex if it is free and nobody
/// starved, spin for a while if nobody waits yet, and join the queue otherwise.
pub fn lock_slow(
    state: usize,
    attempt: Attempt,
    hints: &mut Hints,
) -> (step: LockStep)
    ensures
        step == spec_lock_slow(state, attempt),
        final(hints).made() == old(hints).made() + slow_hints(state, attempt),
{
    if !is_locked(state) && !has_second(state) {
        LockStep::Exchange { state, attempt }
    } else if newest(state) == 0 && attempt.spin <= LAST_HINT {
        spin_round(attempt.spin, hints);
        LockStep::LoadWord { attempt: Attempt { spin: attempt.spin + 1, ..attempt } }
    } else if newest(state) == 0 && attempt.spin <= LAST_SPIN {
        LockStep::Pause { attempt }
    } else {
        LockStep::SetNext { state, attempt }
    }
}

pub open spec fn spec_ready(state: usize, attempt: Attempt) -> LockStep {
    if attempt.is_starved {
        LockStep::Exchange { state, attempt }
    } else {
        LockStep::Elapsed { state, attempt }
    }
}

/// Goes on once the waiter is ready: a starved thread stays starved.
#[verifier::when_used_as_spec(spec_ready)]
pub fn ready(state: usize, attempt: Attempt) -> (step: LockStep)
    ensures
        step == spec_ready(state, attempt),
{
    if attempt.is_starved {
        LockStep::Exchange { state, attempt }
    } else {
        LockStep::Elapsed { state, attempt }
    }
}

pub open spec fn spec_exchanged(state: usize, is_starved: bool, node: usize) -> usize {
    if !is_locked(state) && !has_second(state) {
        set_locked(state)
    } else if is_starved {
        set_second(with_newest(state, node))
    } else {
        with_newest(state, node)
    }
}

/// The state word that an attempt puts in place of `state`: the held flag set,
/// or the waiter in front, with the starved flag if it is starved.
#[verifier::when_used_as_spec(spec_exchanged)]
pub fn exchanged(state: usize, is_starved: bool, node: usize) -> (word: usize)
    requires
        is_waiter(node),
    ensures
        word == spec_exchanged(state, is_starved, node),
{
    if !is_locked(state) && !has_second(state) {
        set_locked(state)
    } else if is_starved {
        set_second(with_newest(state, node))
    } else {
        with_newest(state, node)
    }
}

impl Operation for Locking {
    open spec fn wf(&self) -> bool {
        &&& is_waiter(self.waiter)
        &&& match self.step {
            LockStep::Pause { attempt } => attempt.spin <= LAST_SPIN,
            LockStep::SetNext { state, .. }
            | LockStep::SetTail { state, .. }
            | LockStep::SetPrev { state, .. }
            | LockStep::SetWaker { state, .. }
            | LockStep::SetWaiting { state, .. }
            | LockStep::Elapsed { state, .. } => is_locked(state) || has_second(state),
            _ => true,
        }
    }

    open spec fn wants(&self) -> Access {
        let node: usize = self.waiter;
        match self.step {
            LockStep::Fast => Access::CompareExchangeWeak(
                Place::Word,
                UNLOCKED,
                LOCKED,
                Order::Acquire,
                Order::Relaxed,
            ),
            LockStep::LoadWord { .. } => Access::Load(Place::Word, Order::Relaxed),
            LockStep::Pause { .. } => Access::Pause,
            LockStep::SetNext { state, .. } => Access::Store(
                Place::Link(node, Link::Next),
                newest(state),
                Order::Relaxed,
            ),
            LockStep::SetTail { state, .. } => Access::Store(
                Place::Link(node, Link::Tail),
                if newest(state) == 0 {
                    node
                } else {
                    0
                },
                Order::Relaxed,
            ),
            LockStep::SetPrev { .. } => Access::Store(Place::Link(node, Link::Prev), 0, Order::Relaxed),
            LockStep::SetWaker { .. } => Access::StoreWaker(node),
            LockStep::SetWaiting { .. } => Access::Store(Place::Wake(node), WAITING, Order::Relaxed),
            LockStep::Elapsed { .. } => Access::Elapsed,
            LockStep::Exchange { state, attempt } => Access::CompareExchangeWeak(
                Place::Word,
                state,
                exchanged(state, attempt.is_starved, node),
                Order::AcqRel,
                Order::Relaxed,
            ),
            LockStep::LoadWake { .. } => Access::Load(Place::Wake(node), Order::Acquire),
            LockStep::Park { .. } => Access::Park,
            LockStep::Locked => Access::Done,
        }
    }

    /// A waiter has no other wake states than the three.
    open spec fn expects(&self, reply: Reply) -> bool {
        match self.step {
            LockStep::LoadWake { .. } => reply.value <= HANDED,
            LockStep::Locked => false,
            _ => true,
        }
    }

    open spec fn after(&self, reply: Reply) -> Self {
        let step = match self.step {
            LockStep::Fast => if reply.ok {
                LockStep::Locked
            } else {
                LockStep::LoadWord {
                    attempt: Attempt { spin: 0, is_starved: false, reset_waiter: true },
                }
            },
            LockStep::LoadWord { attempt } => spec_lock_slow(reply.value, attempt),
            LockStep::Pause { attempt } => LockStep::LoadWord {
                attempt: Attempt { spin: (attempt.spin + 1) as u8, ..attempt },
            },
            LockStep::SetNext { state, attempt } => LockStep::SetTail { state, attempt },
            LockStep::SetTail { state, attempt } => if attempt.reset_waiter {
                LockStep::SetPrev { state, attempt }
            } else {
                ready(state, attempt)
            },
            LockStep::SetPrev { state, attempt } => LockStep::SetWaker { state, attempt },
            LockStep::SetWaker { state, attempt } => LockStep::SetWaiting { state, attempt },
            LockStep::SetWaiting { state, attempt } => ready(
                state,
                Attempt { reset_waiter: false, ..attempt },
            ),
            LockStep::Elapsed { state, attempt } => LockStep::Exchange {
                state,
                attempt: Attempt { is_starved: reply.value > STARVED_AFTER, ..attempt },
            },
            LockStep::Exchange { state, attempt } => if !reply.ok {
                spec_lock_slow(reply.value, attempt)
            } else if is_locked(state) {
                LockStep::LoadWake { attempt }
            } else {
                LockStep::Locked
            },
            LockStep::LoadWake { attempt } => if reply.value == HANDED {
                LockStep::Locked
            } else if reply.value == WAITING {
                LockStep::Park { attempt }
            } else {
                LockStep::LoadWord { attempt: Attempt { spin: 0, reset_waiter: true, ..attempt } }
            },
            LockStep::Park { attempt } => LockStep::LoadWake { attempt },
            LockStep::Locked => LockStep::Locked,
        };
        Locking { step, ..*self }
    }

    open spec fn hints(&self, reply: Reply) -> nat {
        match self.step {
            LockStep::LoadWord { attempt } => slow_hints(reply.value, attempt),
            LockStep::Exchange { attempt, .. } if !reply.ok => slow_hints(reply.value, attempt),
            _ => 0,
        }
    }

    fn accepts(&self, reply: Reply) -> (accepted: bool) {
        match self.step {
            LockStep::LoadWake { .. } => reply.value <= HANDED,
            LockStep::Locked => false,
            _ => true,
        }
    }

    fn access(&self) -> (access: Access) {
        let node: usize = self.waiter;
        match self.step {
            LockStep::Fast => Access::CompareExchangeWeak(
                Place::Word,
                UNLOCKED,
                LOCKED,
                Order::Acquire,
                Order::Relaxed,
            ),
            LockStep::LoadWord { .. } => Access::Load(Place::Word, Order::Relaxed),
            LockStep::Pause { .. } => Access::Pause,
            LockStep::SetNext { state, .. } => Access::Store(
                Place::Link(node, Link::Next),
                newest(state),
                Order::Relaxed,
            ),
            LockStep::SetTail { state, .. } => Access::Store(
                Place::Link(node, Link::Tail),
                if newest(state) == 0 {
                    node
                } else {
                    0
                },
                Order::Relaxed,
            ),
            LockStep::SetPrev { .. } => Access::Store(Place::Link(node, Link::Prev), 0, Order::Relaxed),
            LockStep::SetWaker { .. } => Access::StoreWaker(node),
            LockStep::SetWaiting { .. } => Access::Store(Place::Wake(node), WAITING, Order::Relaxed),
            LockStep::Elapsed { .. } => Access::Elapsed,
            LockStep::Exchange { state, attempt } => Access::CompareExchangeWeak(
                Place::Word,
                state,
                exchanged(state, attempt.is_starved, node),
                Order::AcqRel,
                Order::Relaxed,
            ),
            LockStep::LoadWake { .. } => Access::Load(Place::Wake(node), Order::Acquire),
            LockStep::Park { .. } => Access::Park,
            LockStep::Locked => Access::Done,
        }
    }

    fn resume(&mut self, reply: Reply, hints: &mut Hints) {
        self.step =
        match self.step {
            LockStep::Fast => if reply.ok {
                LockStep::Locked
            } else {
                LockStep::LoadWord {
                    attempt: Attempt { spin: 0, is_starved: false, reset_waiter: true },
                }
            },
            LockStep::LoadWord { attempt } => lock_slow(reply.value, attempt, hints),
            LockStep::Pause { attempt } => LockStep::LoadWord {
                attempt: Attempt { spin: attempt.spin + 1, ..attempt },
            },
            LockStep::SetNext { state, attempt } => LockStep::SetTail { state, attempt },
            LockStep::SetTail { state, attempt } => if attempt.reset_waiter {
                LockStep::SetPrev { state, attempt }
            } else {
                ready(state, attempt)
            },
            LockStep::SetPrev { state, attempt } => LockStep::SetWaker { state, attempt },
            LockStep::SetWaker { state, attempt } => LockStep::SetWaiting { state, attempt },
            LockStep::SetWaiting { state, attempt } => ready(
                state,
                Attempt { reset_waiter: false, ..attempt },
            ),
            LockStep::Elapsed { state, attempt } => LockStep::Exchange {
                state,
                attempt: Attempt { is_starved: reply.value > STARVED_AFTER, ..attempt },
            },
            LockStep::Exchange { state, attempt } => if !reply.ok {
                lock_slow(reply.value, attempt, hints)
            } else if is_locked(state) {
                LockStep::LoadWake { attempt }
            } else {
                LockStep::Locked
            },
            LockStep::LoadWake { attempt } => if reply.value == HANDED {
                LockStep::Locked
            } else if reply.value == WAITING {
                LockStep::Park { attempt }
            } else {
                LockStep::LoadWord { attempt: Attempt { spin: 0, reset_waiter: true, ..attempt } }
            },
            LockStep::Park { attempt } => LockStep::LoadWake { attempt },
            LockStep::Locked => LockStep::Locked,
        };
    }
}

impl Party for Locking {
    open spec fn begins(&self) -> bool {
        self.step is Fast
    }

    open spec fn holds(&self, memory: Shared) -> bool {
        self.step is Locked || wake_of(memory, self.waiter) == HANDED
    }

    open spec fn waiter(&self) -> usize {
        self.waiter
    }

    /// A thread that joins the queue of a word that is free but starved counts
    /// itself as the holder. Schedules with such an exchange are not under
    /// study.
    open spec fn admits(&self, memory: Shared, reply: Reply) -> bool {
        self.step matches LockStep::Exchange { state, .. } ==> !reply.ok || is_locked(state)
            || !has_second(state)
    }
}

/// How far an unlock is. `starved` says whether the oldest waiter is handed the
/// mutex.
#[derive(Clone, Copy, PartialEq, Eq, Structural, Debug)]
pub enum Unlock {
    /// Clears the held flag of a mutex that has no waiters.
    Release,
    /// Looks for the oldest waiter.
    Find { state: usize, search: Search },
    LoadPrev { state: usize, tail: usize },
    /// Makes the next oldest waiter the oldest one.
    SetTail { state: usize, tail: usize, prev: usize },
    /// Makes what was done to the queue visible.
    Fence { tail: usize },
    ClearLocked { tail: usize },
    /// Empties the queue of its only waiter.
    Empty { state: usize, tail: usize },
    Take { tail: usize, starved: bool },
    SetWake { tail: usize, starved: bool },
    Wake,
    Released,
}

pub open spec fn spec_unlock_slow(state: usize) -> Unlock {
    Unlock::Find { state, search: Search::start(newest(state), false) }
}

/// Looks for the oldest waiter of a state word.
#[verifier::when_used_as_spec(spec_unlock_slow)]
pub fn unlock_slow(state: usize) -> (next: Unlock)
    requires
        newest(state) != 0,
    ensures
        next == spec_unlock_slow(state),
{
    Unlock::Find { state, search: Search::start(newest(state), false) }
}

impl Operation for Unlock {
    open spec fn wf(&self) -> bool {
        match *self {
            Unlock::Find { state, search } => {
                &&& search.wf()
                &&& search.found() is None
                &&& search.head == newest(state)
            },
            _ => true,
        }
    }

    open spec fn wants(&self) -> Access {
        match *self {
            Unlock::Release => Access::CompareExchange(
                Place::Word,
                LOCKED,
                UNLOCKED,
                Order::Release,
                Order::Relaxed,
            ),
            Unlock::Find { search, .. } => search.wants(),
            Unlock::LoadPrev { tail, .. } => Access::Load(
                Place::Link(tail, Link::Prev),
                Order::Relaxed,
            ),
            Unlock::SetTail { state, prev, .. } => Access::Store(
                Place::Link(newest(state), Link::Tail),
                prev,
                Order::Relaxed,
            ),
            Unlock::Fence { .. } => Access::Fence(Order::Release),
            Unlock::ClearLocked { .. } => Access::FetchAnd(Place::Word, NOT_LOCKED, Order::Release),
            Unlock::Empty { state, .. } => Access::CompareExchangeWeak(
                Place::Word,
                state,
                if has_second(state) {
                    LOCKED
                } else {
                    UNLOCKED
                },
                Order::AcqRel,
                Order::Acquire,
            ),
            Unlock::Take { tail, .. } => Access::TakeWaker(tail),
            Unlock::SetWake { tail, starved } => Access::Store(
                Place::Wake(tail),
                if starved {
                    HANDED
                } else {
                    WOKEN
                },
                Order::Release,
            ),
            Unlock::Wake => Access::Wake,
            Unlock::Released => Access::Done,
        }
    }

    /// The mutex has waiters whenever its state word is anything but the held
    /// flag, and a waiter that is removed from the queue has a waker.
    open spec fn expects(&self, reply: Reply) -> bool {
        match *self {
            Unlock::Release => reply.ok || newest(reply.value) != 0,
            Unlock::Find { search, .. } => search.expects(reply),
            Unlock::Empty { .. } => reply.ok || newest(reply.value) != 0,
            Unlock::Take { .. } => reply.ok,
            Unlock::Released => false,
            _ => true,
        }
    }

    open spec fn after(&self, reply: Reply) -> Self {
        match *self {
            Unlock::Release => if reply.ok {
                Unlock::Released
            } else {
                unlock_slow(reply.value)
            },
            Unlock::Find { state, search } => {
                let next = search.after(reply);
                match next.found() {
                    Some(tail) => Unlock::LoadPrev { state, tail },
                    None => Unlock::Find { state, search: next },
                }
            },
            Unlock::LoadPrev { state, tail } => if reply.value == 0 {
                Unlock::Empty { state, tail }
            } else {
                Unlock::SetTail { state, tail, prev: reply.value }
            },
            Unlock::SetTail { state, tail, .. } => if has_second(state) {
                Unlock::Fence { tail }
            } else {
                Unlock::ClearLocked { tail }
            },
            Unlock::Fence { tail } => Unlock::Take { tail, starved: true },
            Unlock::ClearLocked { tail } => Unlock::Take { tail, starved: false },
            Unlock::Empty { state, tail } => if reply.ok {
                Unlock::Take { tail, starved: has_second(state) }
            } else {
                unlock_slow(reply.value)
            },
            Unlock::Take { tail, starved } => Unlock::SetWake { tail, starved },
            Unlock::SetWake { .. } => Unlock::Wake,
            Unlock::Wake => Unlock::Released,
            Unlock::Released => Unlock::Released,
        }
    }

    fn accepts(&self, reply: Reply) -> (accepted: bool) {
        match *self {
            Unlock::Release => reply.ok || newest(reply.value) != 0,
            Unlock::Find { search, .. } => search.accepts(reply),
            Unlock::Empty { .. } => reply.ok || newest(reply.value) != 0,
            Unlock::Take { .. } => reply.ok,
            Unlock::Released => false,
            _ => true,
        }
    }

    fn access(&self) -> (access: Access) {
        match *self {
            Unlock::Release => Access::CompareExchange(
                Place::Word,
                LOCKED,
                UNLOCKED,
                Order::Release,
                Order::Relaxed,
            ),
            Unlock::Find { search, .. } => search.access(),
            Unlock::LoadPrev { tail, .. } => Access::Load(
                Place::Link(tail, Link::Prev),
                Order::Relaxed,
            ),
            Unlock::SetTail { state, prev, .. } => Access::Store(
                Place::Link(newest(state), Link::Tail),
                prev,
                Order::Relaxed,
            ),
            Unlock::Fence { .. } => Access::Fence(Order::Release),
            Unlock::ClearLocked { .. } => Access::FetchAnd(Place::Word, NOT_LOCKED, Order::Release),
            Unlock::Empty { state, .. } => Access::CompareExchangeWeak(
                Place::Word,
                state,
                if has_second(state) {
                    LOCKED
                } else {
                    UNLOCKED
                },
                Order::AcqRel,
                Order::Acquire,
            ),
            Unlock::Take { tail, .. } => Access::TakeWaker(tail),
            Unlock::SetWake { tail, starved } => Access::Store(
                Place::Wake(tail),
                if starved {
                    HANDED
                } else {
                    WOKEN
                },
                Order::Release,
            ),
            Unlock::Wake => Access::Wake,
            Unlock::Released => Access::Done,
        }
    }

    fn resume(&mut self, reply: Reply, _hints: &mut Hints) {
        *self =
        match *self {
            Unlock::Release => if reply.ok {
                Unlock::Released
            } else {
                unlock_slow(reply.value)
            },
            Unlock::Find { state, search } => {
                let next = search.resumed(reply);
                match next.found() {
                    Some(tail) => Unlock::LoadPrev { state, tail },
                    None => Unlock::Find { state, search: next },
                }
            },
            Unlock::LoadPrev { state, tail } => if reply.value == 0 {
                Unlock::Empty { state, tail }
            } else {
                Unlock::SetTail { state, tail, prev: reply.value }
            },
            Unlock::SetTail { state, tail, .. } => if has_second(state) {
                Unlock::Fence { tail }
            } else {
                Unlock::ClearLocked { tail }
            },
            Unlock::Fence { tail } => Unlock::Take { tail, starved: true },
            Unlock::ClearLocked { tail } => Unlock::Take { tail, starved: false },
            Unlock::Empty { state, tail } => if reply.ok {
                Unlock::Take { tail, starved: has_second(state) }
            } else {
                unlock_slow(reply.value)
            },
            Unlock::Take { tail, starved } => Unlock::SetWake { tail, starved },
            Unlock::SetWake { .. } => Unlock::Wake,
            Unlock::Wake => Unlock::Released,
            Unlock::Released => Unlock::Released,
        };
    }
}

impl Party for Unlock {
    open spec fn begins(&self) -> bool {
        self is Release
    }

    open spec fn holds(&self, memory: Shared) -> bool {
        match *self {
            Unlock::Release
            | Unlock::Find { .. }
            | Unlock::LoadPrev { .. }
            | Unlock::SetTail { .. }
            | Unlock::Fence { .. }
            | Unlock::ClearLocked { .. }
            | Unlock::Empty { .. } => true,
            Unlock::Take { starved, .. } | Unlock::SetWake { starved, .. } => starved,
            _ => false,
        }
    }

    open spec fn waiter(&self) -> usize {
        0
    }

    open spec fn admits(&self, memory: Shared, reply: Reply) -> bool {
        true
    }
}

/// Taking a free mutex that nobody waits for and giving it up again, with nothing
/// in between, succeeds at once and leaves everything as it was.
pub proof fn undisturbed_round_trip(lock: Locking, unlock: Unlock, memory: Shared)
    requires
        lock.begins(),
        unlock.begins(),
        memory.word == UNLOCKED,
    ensures
        alone(lock, memory, 1) == (Locking { step: LockStep::Locked, ..lock }, Shared { word: LOCKED, ..memory }),
        alone(unlock, Shared { word: LOCKED, ..memory }, 1) == (Unlock::Released, memory),
{
    reveal_with_fuel(alone, 2);
}

/// The mutex of this module, as [`crate::exclusion`], [`crate::queue`] and
/// [`crate::upkeep`] speak of it. Their laws hold of it, among them
/// [`crate::exclusion::mutual_exclusion`],
/// [`crate::queue::every_reply_is_expected`],
/// [`crate::queue::nobody_is_forgotten`] and
/// [`crate::upkeep::free_lock_is_not_left_alone`].
pub struct Kind;

impl Encoding for Kind {
    open spec fn is_held(word: usize) -> bool {
        is_locked(word)
    }

    /// A waiter that is woken as the holder has been handed the mutex.
    open spec fn grants(wake: usize) -> bool {
        wake == HANDED
    }
}

impl LockKind for Kind {
    type Try = TryLock;

    type Lock = Locking;

    type Unlock = Unlock;

    proof fn try_frame(party: TryLock, memory: Shared, next: Shared) {
        assert(party.waiter() == 0 && party.holds(memory) == party.holds(next));
    }

    proof fn lock_frame(party: Locking, memory: Shared, next: Shared) {
        assert(party.waiter() != 0);
        assert(party.begins() ==> !party.holds(memory) || Self::grants(wake_of(memory, party.waiter())));
    }

    proof fn unlock_frame(party: Unlock, memory: Shared, next: Shared) {
        assert(party.waiter() == 0 && party.holds(memory) == party.holds(next));
    }

    proof fn lock_given_up(party: Locking, other: Locking, memory: Shared) {
        assert(party.gives_up(other) ==> other.waiter() == party.waiter() && other.holds(memory) == party.holds(memory));
    }

    proof fn try_step(party: TryLock, memory: Shared, reply: Reply, next: Shared) {
    }

    proof fn lock_step(party: Locking, memory: Shared, reply: Reply, next: Shared) {
    }

    #[verifier::spinoff_prover]
    #[verifier::rlimit(50)]
    proof fn unlock_step(party: Unlock, memory: Shared, reply: Reply, next: Shared) {
        lemma_clear_locked(memory.word);
    }
}

/// Whether the waiter can be woken.
pub open spec fn is_ready(memory: Shared, node: usize) -> bool {
    node != 0 && wake_of(memory, node) == WAITING && (memory.wakers)(node)
}

/// Whether an attempt to lock waits by its waiter.
pub open spec fn waits(lock: Locking) -> bool {
    lock.step is LoadWake || lock.step is Park
}

/// What an attempt to lock knows about its waiter.
pub open spec fn lock_knows(lock: Locking, memory: Shared) -> bool {
    let node = lock.waiter;
    let wake = wake_of(memory, node);
    let reset = is_ready(memory, node) && link(memory, node, Link::Prev) == 0;
    match lock.step {
        LockStep::Locked => true,
        LockStep::Fast => wake != HANDED,
        LockStep::LoadWord { attempt } | LockStep::Pause { attempt } | LockStep::SetNext {
            attempt,
            ..
        } => wake != HANDED && (attempt.reset_waiter || reset),
        LockStep::SetTail { state, attempt } => {
            &&& wake != HANDED && (attempt.reset_waiter || reset)
            &&& link(memory, node, Link::Next) == newest(state)
        },
        LockStep::SetPrev { state, attempt } => {
            &&& wake != HANDED && attempt.reset_waiter
            &&& link(memory, node, Link::Next) == newest(state)
            &&& link(memory, node, Link::Tail) == if newest(state) == 0 {
                node
            } else {
                0
            }
        },
        LockStep::SetWaker { state, attempt } => {
            &&& wake != HANDED && attempt.reset_waiter
            &&& leads_to(memory, node, newest(state))
        },
        LockStep::SetWaiting { state, attempt } => {
            &&& wake != HANDED && attempt.reset_waiter
            &&& leads_to(memory, node, newest(state))
            &&& (memory.wakers)(node)
        },
        LockStep::Elapsed { state, attempt } => {
            &&& !attempt.reset_waiter
            &&& is_ready(memory, node)
            &&& leads_to(memory, node, newest(state))
        },
        LockStep::Exchange { state, attempt } => {
            &&& wake != HANDED && (attempt.reset_waiter || reset)
            &&& is_locked(state) ==> is_ready(memory, node) && leads_to(memory, node, newest(state))
        },
        LockStep::LoadWake { .. } | LockStep::Park { .. } => wake <= HANDED,
    }
}

/// The part that an unlock has in the queue.
pub open spec fn stage(unlock: Unlock) -> Stage {
    match unlock {
        Unlock::Find { state, search } => Stage::Find { head: newest(state), search },
        Unlock::LoadPrev { state, tail } => Stage::Found { head: newest(state), tail },
        Unlock::SetTail { state, tail, prev } => Stage::Cut { head: newest(state), tail, prev },
        Unlock::Empty { state, tail } => Stage::Last { head: newest(state), tail },
        Unlock::Fence { .. } | Unlock::ClearLocked { .. } => Stage::Leaving,
        _ => Stage::Idle,
    }
}

/// The waiter that an unlock has taken off the queue and not woken yet, or 0.
pub open spec fn grip(unlock: Unlock) -> usize {
    match unlock {
        Unlock::Fence { tail }
        | Unlock::ClearLocked { tail }
        | Unlock::Take { tail, .. }
        | Unlock::SetWake { tail, .. } => tail,
        _ => 0,
    }
}

/// What an unlock knows about that waiter.
pub open spec fn unlock_knows(unlock: Unlock, memory: Shared) -> bool {
    match unlock {
        Unlock::Fence { tail }
        | Unlock::ClearLocked { tail }
        | Unlock::Take { tail, .. } => is_ready(memory, tail),
        Unlock::SetWake { tail, .. } => tail != 0 && wake_of(memory, tail) == WAITING,
        _ => true,
    }
}

impl Queued for Kind {
    open spec fn newest(word: usize) -> usize {
        newest(word)
    }

    open spec fn is_node(node: usize) -> bool {
        is_waiter(node)
    }

    open spec fn flagged() -> bool {
        false
    }

    open spec fn flag(word: usize) -> bool {
        false
    }

    open spec fn is_tidy(word: usize) -> bool {
        has_second(word) ==> newest(word) != 0
    }

    open spec fn ready(memory: Shared, node: usize) -> bool {
        is_ready(memory, node)
    }

    open spec fn woken(memory: Shared, node: usize) -> bool {
        wake_of(memory, node) == WOKEN || wake_of(memory, node) == HANDED
    }

    open spec fn fresh(memory: Shared, node: usize) -> bool {
        wake_of(memory, node) != HANDED
    }

    open spec fn waits(lock: Locking) -> bool {
        waits(lock)
    }

    open spec fn joins(lock: Locking, reply: Reply) -> bool {
        lock.step matches LockStep::Exchange { state, .. } && reply.ok && is_locked(state)
    }

    open spec fn lock_knows(lock: Locking, memory: Shared) -> bool {
        lock_knows(lock, memory)
    }

    open spec fn carries(lock: Locking, memory: Shared) -> bool {
        false
    }

    open spec fn stage(unlock: Unlock) -> Stage {
        stage(unlock)
    }

    open spec fn reads_prev(unlock: Unlock) -> bool {
        unlock is LoadPrev
    }

    open spec fn grip(unlock: Unlock) -> usize {
        grip(unlock)
    }

    open spec fn passes(unlock: Unlock) -> bool {
        false
    }

    open spec fn unlock_knows(unlock: Unlock, memory: Shared) -> bool {
        unlock_knows(unlock, memory)
    }

    open spec fn lock_admits(lock: Locking, memory: Shared, reply: Reply) -> bool {
        true
    }

    open spec fn unlock_admits(unlock: Unlock, memory: Shared, reply: Reply) -> bool {
        true
    }
}

/// The state word with another newest waiter, and with its flags changed.
proof fn words_of(word: usize, node: usize)
    requires
        node % 4 == 0,
    ensures
        newest(with_newest(word, node)) == node,
        has_second(with_newest(word, node)) == has_second(word),
        is_locked(with_newest(word, node)) == is_locked(word),
        newest(set_second(with_newest(word, node))) == node,
        newest(set_locked(word)) == newest(word),
        has_second(set_locked(word)) == has_second(word),
        newest(word & NOT_LOCKED) == newest(word),
        has_second(word & NOT_LOCKED) == has_second(word),
        is_locked(word) && word != LOCKED && !has_second(word) ==> newest(word) != 0,
        newest(LOCKED) == 0 && !has_second(LOCKED),
        newest(UNLOCKED) == 0 && !has_second(UNLOCKED),
{
    lemma_tagged_word(word, node);
    lemma_tagged_word(with_newest(word, node), node);
}

impl Queueing for Kind {
    proof fn of_nodes(memory: Shared, node: usize) {
        assert(is_ready(memory, node) || !is_ready(memory, node));
    }

    proof fn node_frame(memory: Shared, next: Shared, node: usize) {
        assert(is_ready(memory, node) == is_ready(next, node));
    }

    proof fn lock_knows_frame(lock: Locking, memory: Shared, next: Shared) {
        assert(lock.waiter() == lock.waiter);
        assert(waits(lock) || !waits(lock));
        assert(lock_knows(lock, memory) ==> lock_knows(lock, next));
    }

    proof fn unlock_knows_frame(unlock: Unlock, memory: Shared, next: Shared) {
        assert(grip(unlock) == 0 || grip(unlock) != 0);
        assert(unlock_knows(unlock, memory) ==> unlock_knows(unlock, next));
    }

    proof fn try_obeys(attempt: TryLock, memory: Shared, reply: Reply, next: Shared) {
        words_of(memory.word, 0);
    }

    #[verifier::rlimit(50)]
    proof fn lock_obeys(lock: Locking, memory: Shared, reply: Reply, next: Shared) {
        words_of(memory.word, lock.waiter);
        assert(lock.waiter() == lock.waiter);
        assert(is_ready(memory, lock.waiter) || !is_ready(memory, lock.waiter));
    }

    #[verifier::rlimit(50)]
    proof fn lock_obeys_grip(
        lock: Locking,
        unlock: Unlock,
        memory: Shared,
        reply: Reply,
        next: Shared,
    ) {
        assert(lock.waiter() == lock.waiter);
        assert(grip(unlock) == lock.waiter);
    }

    #[verifier::rlimit(50)]
    proof fn unlock_obeys(unlock: Unlock, memory: Shared, reply: Reply, next: Shared) {
        words_of(memory.word, 0);
        assert(stage(unlock) is Idle || !(stage(unlock) is Idle));
    }

    #[verifier::rlimit(50)]
    proof fn unlock_obeys_lock(
        unlock: Unlock,
        lock: Locking,
        memory: Shared,
        reply: Reply,
        next: Shared,
    ) {
        assert(lock.waiter() == lock.waiter);
        assert(grip(unlock) == lock.waiter);
    }
}

impl Upkeep for Kind {
    open spec fn tends(unlock: Unlock) -> bool {
        !(unlock is Release || unlock is Wake || unlock is Released)
    }

    proof fn lock_is_up(lock: Locking, memory: Shared) {
        assert(lock.waiter() == lock.waiter);
    }

    proof fn unlock_is_up(unlock: Unlock) {
        assert(stage(unlock) is Idle || !(stage(unlock) is Idle));
    }

    proof fn try_tends(attempt: TryLock, memory: Shared, reply: Reply, next: Shared) {
        words_of(memory.word, 0);
    }

    #[verifier::rlimit(50)]
    proof fn lock_tends(lock: Locking, memory: Shared, reply: Reply, next: Shared) {
        assert(lock.waiter() == lock.waiter);
        words_of(memory.word, lock.waiter);
    }

    #[verifier::rlimit(50)]
    proof fn unlock_tends(unlock: Unlock, memory: Shared, reply: Reply, next: Shared) {
        words_of(memory.word, 0);
        assert(wakes::<Self>(unlock, reply) || !wakes::<Self>(unlock, reply));
    }

    proof fn lock_inherits(
        unlock: Unlock,
        lock: Locking,
        memory: Shared,
        reply: Reply,
        next: Shared,
    ) {
        assert(lock.waiter() == lock.waiter);
        assert(grip(unlock) == lock.waiter);
    }
}

impl Tenure for Kind {
    proof fn lock_is_handed(lock: Locking, memory: Shared) {
        assert(lock.waiter() == lock.waiter);
    }

    proof fn try_keeps(attempt: TryLock, memory: Shared, reply: Reply, next: Shared) {
        words_of(memory.word, 0);
    }

    proof fn lock_keeps(lock: Locking, memory: Shared, reply: Reply, next: Shared) {
        assert(lock.waiter() == lock.waiter);
        words_of(memory.word, lock.waiter);
    }

    proof fn unlock_keeps(unlock: Unlock, memory: Shared, reply: Reply, next: Shared) {
        lemma_clear_locked(memory.word);
        words_of(memory.word, 0);
        assert(grip(unlock) == 0 || grip(unlock) != 0);
        assert(Self::grants(HANDED));
    }
}

impl Keeps<Debt> for Unlock {
    open spec fn fits(&self, ledger: Debt) -> bool {
        &&& match *self {
            Unlock::SetWake { tail, .. } => ledger.taken == Some(tail),
            Unlock::Wake => ledger.taken is Some && ledger.told == ledger.taken,
            _ => ledger.taken is None,
        }
        &&& !ledger.missed
        &&& !ledger.lends
    }

    proof fn goes_on(operation: Self, ledger: Debt, reply: Reply) {
    }

    proof fn obeys(operation: Self, ledger: Debt) {
    }
}

/// An unlock that took the waker of a waiter wakes it before it is over, once
/// it has stored the wake state. It takes no waker where there is none.
pub proof fn unlock_wakes_whom_it_took(first: Unlock, replies: Seq<Reply>, i: int, j: int)
    requires
        first.wf(),
        first.begins(),
        is_course(first, replies),
        0 <= i < j <= replies.len(),
    ensures
        ledger(first, replies, Debt::none(), j).allows(point(first, replies, j).wants()),
        !ledger(first, replies, Debt::none(), j).missed,
        ({
            &&& point(first, replies, i).wants() is TakeWaker
            &&& replies[i].ok
            &&& point(first, replies, j).wants() is Done
        }) ==> exists|k: int| i < k < j && #[trigger] point(first, replies, k).wants() is Wake,
{
    always_allowed(first, replies, Debt::none(), j);
    if point(first, replies, i).wants() is TakeWaker && replies[i].ok && point(
        first,
        replies,
        j,
    ).wants() is Done {
        taken_waker_is_woken(first, replies, Debt::none(), i, j);
    }
}

impl Keeps<Handover> for Unlock {
    open spec fn fits(&self, ledger: Handover) -> bool {
        &&& ledger.grant == HANDED
        &&& !ledger.wish
        &&& ledger.flagged
        &&& !ledger.popped
        &&& ledger.due
        &&& match *self {
            Unlock::Release => ledger.fair is None && !ledger.released,
            Unlock::Find { state, .. }
            | Unlock::LoadPrev { state, .. }
            | Unlock::SetTail { state, .. }
            | Unlock::Empty { state, .. } => {
                &&& ledger.fair == Some(has_second(state))
                &&& !ledger.released
            },
            Unlock::Fence { .. } => ledger.fair == Some(true) && !ledger.released,
            Unlock::ClearLocked { .. } => ledger.fair == Some(false) && !ledger.released,
            Unlock::Take { starved, .. } | Unlock::SetWake { starved, .. } => {
                &&& ledger.fair == Some(starved)
                &&& ledger.released == !starved
            },
            Unlock::Wake => {
                &&& ledger.fair is Some
                &&& ledger.released == (ledger.fair == Some(false))
                &&& ledger.is_settled()
            },
            Unlock::Released => {
                &&& ledger.released == (ledger.fair != Some(true))
                &&& ledger.is_settled()
            },
        }
    }

    proof fn goes_on(operation: Self, ledger: Handover, reply: Reply) {
        lemma_masks();
    }

    proof fn obeys(operation: Self, ledger: Handover) {
        lemma_masks();
    }
}

/// An unlock that finds the starved flag set in the word that it works on leaves
/// the held flag set throughout and makes the oldest waiter the holder, however
/// many waiters are left in the queue. One that finds it clear clears the held
/// flag, and the waiter has to try again.
pub proof fn starved_waiter_is_handed_the_mutex(first: Unlock, replies: Seq<Reply>)
    requires
        first.begins(),
        is_course(first, replies),
    ensures
        ({
            let now = point(first, replies, replies.len() as int);
            let course = ledger(first, replies, Handover::by_flag(HANDED), replies.len() as int);
            &&& course.allows(now.wants())
            &&& now.wants() is Done ==> {
                &&& course.released == (course.fair != Some(true))
                &&& course.fair is Some ==> (course.wake == Some(HANDED)) == (course.fair
                    == Some(true))
            }
        }),
{
    always_allowed(first, replies, Handover::by_flag(HANDED), replies.len() as int);
    handover::terms_stay(first, replies, Handover::by_flag(HANDED), replies.len() as int);
}

impl Signs for Kind {
    open spec fn is_up(wake: usize) -> bool {
        wake != WAITING
    }
}

impl Keeps<Wait<Kind>> for Locking {
    open spec fn fits(&self, ledger: Wait<Kind>) -> bool {
        &&& ledger.node == self.waiter
        &&& !ledger.drops
        &&& match self.step {
            LockStep::Fast => ledger.is_free() && ledger.word is None,
            LockStep::LoadWord { attempt } | LockStep::Pause { attempt } => {
                &&& ledger.is_free()
                &&& !attempt.reset_waiter ==> ledger.is_ready()
            },
            LockStep::SetNext { state, attempt } | LockStep::SetTail { state, attempt } => {
                &&& ledger.is_free()
                &&& ledger.word == Some(state)
                &&& !attempt.reset_waiter ==> ledger.is_ready()
            },
            LockStep::SetPrev { state, .. } | LockStep::SetWaker { state, .. } => {
                &&& ledger.is_free()
                &&& ledger.word == Some(state)
            },
            LockStep::SetWaiting { state, .. } => {
                &&& ledger.is_free()
                &&& ledger.word == Some(state)
                &&& ledger.waker
            },
            LockStep::Elapsed { state, .. } => {
                &&& ledger.is_free()
                &&& ledger.word == Some(state)
                &&& ledger.is_ready()
            },
            LockStep::Exchange { state, attempt } => {
                &&& ledger.is_free()
                &&& ledger.word == Some(state)
                &&& !attempt.reset_waiter || is_locked(state) ==> ledger.is_ready()
            },
            LockStep::LoadWake { .. } => {
                &&& !ledger.took
                &&& ledger.queued
                &&& !ledger.updating
                &&& !ledger.late
            },
            LockStep::Park { .. } => {
                &&& !ledger.took
                &&& ledger.queued
                &&& ledger.is_down()
                &&& !ledger.updating
                &&& !ledger.late
            },
            LockStep::Locked => ledger.took && !ledger.updating && !ledger.late,
        }
    }

    #[verifier::spinoff_prover]
    #[verifier::rlimit(40)]
    proof fn goes_on(operation: Self, ledger: Wait<Kind>, reply: Reply) {
    }

    proof fn obeys(operation: Self, ledger: Wait<Kind>) {
    }
}

/// An attempt is over exactly when it has the lock. It joins the queue ready to
/// be woken, waits only if it saw since it waited last that it was not woken,
/// and is woken by the waker of its last poll.
pub proof fn attempt_waits_until_it_is_woken(first: Locking, replies: Seq<Reply>)
    requires
        first.wf(),
        first.begins(),
        is_course(first, replies),
    ensures
        ({
            let start = Wait::begin(Kind, first.waiter, false);
            let now = point(first, replies, replies.len() as int);
            let wait = ledger(first, replies, start, replies.len() as int);
            &&& wait.allows(now.wants())
            &&& now.step is Locked ==> wait.took
        }),
{
    let start = Wait::begin(Kind, first.waiter, false);
    always_allowed(first, replies, start, replies.len() as int);
}

impl Crowd for Kind {
    open spec fn is_quiet(word: usize) -> bool {
        (is_locked(word) || has_second(word)) && newest(word) == 0
    }

    open spec fn deadline(word: usize, node: usize) -> u32 {
        0
    }
}

impl Keeps<Patience<Kind>> for Locking {
    open spec fn fits(&self, ledger: Patience<Kind>) -> bool {
        &&& ledger.hinted == 4
        &&& ledger.rounds == 11
        &&& !ledger.forgets
        &&& !ledger.inside
        &&& match self.step {
            LockStep::Fast => !ledger.again && !ledger.pauses && !ledger.seen && ledger.spun == 0,
            LockStep::LoadWord { attempt } => {
                &&& ledger.spun == attempt.spin
                &&& attempt.spin <= ledger.rounds
                &&& ledger.just ==> ledger.again
                &&& !ledger.pauses
            },
            LockStep::Pause { attempt } => {
                &&& ledger.spun == attempt.spin + 1
                &&& ledger.seen
                &&& attempt.spin < ledger.rounds
                &&& ledger.again
                &&& ledger.pauses
            },
            LockStep::SetNext { state, attempt }
            | LockStep::SetTail { state, attempt }
            | LockStep::SetPrev { state, attempt }
            | LockStep::SetWaker { state, attempt }
            | LockStep::SetWaiting { state, attempt }
            | LockStep::Elapsed { state, attempt }
            | LockStep::Exchange { state, attempt } => {
                &&& ledger.seen
                &&& ledger.spun == attempt.spin
                &&& attempt.spin <= ledger.rounds
                &&& !ledger.again
                &&& !ledger.pauses
                &&& Kind::is_quiet(state) ==> ledger.spun >= ledger.rounds
            },
            _ => !ledger.again && !ledger.pauses,
        }
    }

    #[verifier::spinoff_prover]
    #[verifier::rlimit(40)]
    proof fn goes_on(operation: Self, ledger: Patience<Kind>, reply: Reply) {
    }

    proof fn obeys(operation: Self, ledger: Patience<Kind>) {
    }
}

/// An attempt that finds the mutex held and the queue empty looks again, eleven
/// times, and joins the queue only then. The first four times it makes twice as
/// many hints to the processor as the last time, and after that it pauses. It
/// makes no other hints, and starts over when it was woken.
pub proof fn attempt_spins_before_it_queues(first: Locking, replies: Seq<Reply>, reply: Reply)
    requires
        first.wf(),
        first.begins(),
        is_course(first, replies),
    ensures
        ({
            let start = Patience::begin(Kind, 4, 11, false);
            let now = point(first, replies, replies.len() as int);
            let patience = ledger(first, replies, start, replies.len() as int);
            &&& patience.allows(now.wants())
            &&& now.expects(reply) ==> now.hints(reply) == patience.hints_after(now.wants(), reply)
        }),
{
    let start = Patience::begin(Kind, 4, 11, false);
    always_allowed(first, replies, start, replies.len() as int);
    assert forall|round: u8| spec_hints(round) == pow2(round as nat) by {
        hints_are_powers(round);
    }
}

impl Keeps<Starving> for Locking {
    open spec fn fits(&self, ledger: Starving) -> bool {
        &&& ledger.limit == 1_000_000
        &&& match self.step {
            LockStep::Fast => !ledger.starved,
            LockStep::LoadWord { attempt }
            | LockStep::Pause { attempt }
            | LockStep::SetNext { attempt, .. }
            | LockStep::SetTail { attempt, .. }
            | LockStep::SetPrev { attempt, .. }
            | LockStep::SetWaker { attempt, .. }
            | LockStep::SetWaiting { attempt, .. }
            | LockStep::LoadWake { attempt }
            | LockStep::Park { attempt } => ledger.starved == attempt.is_starved,
            LockStep::Elapsed { attempt, .. } => !attempt.is_starved && !ledger.starved,
            LockStep::Exchange { state, attempt } => {
                &&& ledger.starved == attempt.is_starved
                &&& is_locked(state) || has_second(state) ==> ledger.starved || ledger.asked
            },
            LockStep::Locked => true,
        }
    }

    proof fn goes_on(operation: Self, ledger: Starving, reply: Reply) {
    }

    proof fn obeys(operation: Self, ledger: Starving) {
        if let LockStep::Exchange { state, .. } = operation.step {
            lemma_tagged_word(state, operation.waiter);
        }
    }
}

/// An attempt that is about to join the queue asks how long ago it began, and sets
/// the starved flag if that is more than a millisecond. It does so from then
/// on whenever it joins the queue again. Any other attempt leaves the flag as it
/// is.
pub proof fn attempt_says_that_it_starves(first: Locking, replies: Seq<Reply>)
    requires
        first.wf(),
        first.begins(),
        is_course(first, replies),
    ensures
        ({
            let start = Starving { limit: 1_000_000, starved: false, asked: false };
            let now = point(first, replies, replies.len() as int);
            ledger(first, replies, start, replies.len() as int).allows(now.wants())
        }),
{
    let start = Starving { limit: 1_000_000, starved: false, asked: false };
    always_allowed(first, replies, start, replies.len() as int);
}

/// Whoever takes the lock sees what was done under it before, whoever looks
/// through the queue sees the waiters in it, and a waiter that sees that it was
/// woken sees what was done before that.
#[verifier::spinoff_prover]
#[verifier::rlimit(40)]
pub proof fn what_was_done_is_seen(attempt: TryLock, lock: Locking, unlock: Unlock)
    requires
        attempt.wf(),
        lock.wf(),
        unlock.wf(),
    ensures
        keeps_the_lock_visible(attempt.wants()),
        keeps_the_lock_visible(lock.wants()),
        keeps_the_lock_visible(unlock.wants()),
        keeps_the_queue_visible(lock.wants()),
        keeps_the_wake_visible(unlock.wants()),
{
    lemma_masks();
    lemma_flag_masks();
}

} // verus!
