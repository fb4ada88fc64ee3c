//! A mutex that favours throughput over fairness.
//!
//! The held flag is the lowest byte of the state word, the waking flag the bit
//! above it, and the newest waiter the rest. Whoever finds the byte clear may
//! take it. A thread that unlocks takes the waking flag, removes the oldest
//! waiter and wakes it; that waiter clears the flag when it takes the mutex or
//! joins the queue again.
use vstd::arithmetic::power2::pow2;
use vstd::prelude::*;
use crate::access::{Access, Link, Operation, Order, Place, Reply};
use crate::course::{Keeps, Ledger, always_allowed, is_course, ledger, point};
use crate::debt::{Debt, taken_waker_is_woken};
use crate::exclusion::{Encoding, LockKind, Party, wake_of};
use crate::kernel::cpu::{Hints, hints_are_powers, spec_hints, spin_round};
use crate::memory::{Shared, alone, with_byte};
use crate::patience::{Crowd, Patience};
use crate::queue::{Queued, Queueing, Stage, leads_to};
use crate::tail::{Search, link};
use crate::tenure::Tenure;
use crate::upkeep::{Upkeep, wakes};
use crate::visibility::{keeps_the_lock_visible, keeps_the_queue_visible, keeps_the_wake_visible};
use crate::wait::{Signs, Wait};
use crate::words::{
    LOCKED, UNLOCKED, above_flag, clear_flag, flag_only, has_flag, is_locked, lemma_byte_word,
    lemma_clear_flag_locked, lemma_flag_masks, lemma_masks, lemma_with_above_flag, set_flag,
    set_locked, with_above_flag,
};

verus! {

/// The waiter waits.
pub const WAITING: usize = 0;

/// The waiter may look at the mutex again.
pub const NOTIFIED: usize = 1;

/// The last spin that only waits in place.
pub const LAST_HINT: u8 = 3;

/// The last spin before a thread joins the queue.
pub const LAST_SPIN: u8 = 10;

/// A value, and the word that the mutex's state starts from. The state itself is
/// the word of the shared memory that the operations work on.
#[derive(Debug)]
pub struct Mutex<T> {
    state: usize,
    value: T,
}

/// Whether the address can be that of a waiter of this mutex.
pub open spec fn is_waiter(node: usize) -> bool {
    node != 0 && node % 512 == 0
}

impl<T> Mutex<T> {
    pub closed spec fn state(self) -> usize {
        self.state
    }

    pub closed spec fn value(self) -> T {
        self.value
    }

    pub open spec fn spec_new(value: T) -> Self {
        Self::with(UNLOCKED, value)
    }

    pub closed spec fn with(state: usize, value: T) -> Self {
        Mutex { state, value }
    }

    #[verifier::when_used_as_spec(spec_new)]
    pub fn new(value: T) -> (mutex: Self)
        ensures
            mutex == Self::spec_new(value),
            mutex.state() == UNLOCKED,
            mutex.value() == value,
    {
        Mutex { state: UNLOCKED, value }
    }

    pub fn into_inner(self) -> (value: T)
        ensures
            value == self.value(),
    {
        self.value
    }

    /// Nobody else can have the mutex while it is borrowed to change.
    pub fn as_mut(&mut self) -> (value: &mut T)
        ensures
            *value == old(self).value(),
            final(self).value() == *final(value),
            final(self).state() == old(self).state(),
    {
        &mut self.value
    }

    /// Begins to take the mutex if it is free.
    pub fn try_lock(&self) -> (attempt: TryLock)
        ensures
            attempt == TryLock::Exchange,
            attempt.wf(),
            attempt.begins(),
    {
        TryLock::Exchange
    }

    /// Begins to take the mutex, waiting by the given waiter if need be.
    pub fn lock(&self, waiter: usize) -> (lock: Locking)
        requires
            is_waiter(waiter),
        ensures
            lock == (Locking { waiter, step: LockStep::Fast }),
            lock.wf(),
            lock.begins(),
    {
        Locking { waiter, step: LockStep::Fast }
    }

    /// Begins to give the mutex up.
    pub fn force_unlock(&self) -> (unlock: Unlock)
        ensures
            unlock == Unlock::Release,
            unlock.wf(),
            unlock.begins(),
    {
        Unlock::Release
    }
}

impl<T> From<T> for Mutex<T> {
    fn from(value: T) -> (mutex: Self) {
        Mutex::new(value)
    }
}

impl<T> vstd::std_specs::convert::FromSpecImpl<T> for Mutex<T> {
    open spec fn obeys_from_spec() -> bool {
        true
    }

    open spec fn from_spec(value: T) -> Self {
        Mutex::new(value)
    }
}

impl<T: Default> Default for Mutex<T> {
    fn default() -> (mutex: Self)
        ensures
            mutex.state() == UNLOCKED,
            call_ensures(T::default, (), mutex.value()),
    {
        Mutex::new(T::default())
    }
}

/// An attempt to take the mutex without waiting.
#[derive(Clone, Copy, PartialEq, Eq, Structural, Debug)]
pub enum TryLock {
    /// Sets the held byte if it is clear.
    Exchange,
    Locked,
    Failed,
}

impl Operation for TryLock {
    open spec fn wf(&self) -> bool {
        true
    }

    open spec fn wants(&self) -> Access {
        match *self {
            TryLock::Exchange => Access::CompareExchangeByte(
                UNLOCKED,
                LOCKED,
                Order::Acquire,
                Order::Relaxed,
            ),
            TryLock::Locked | TryLock::Failed => Access::Done,
        }
    }

    open spec fn expects(&self, reply: Reply) -> bool {
        match *self {
            TryLock::Exchange => true,
            _ => false,
        }
    }

    open spec fn after(&self, reply: Reply) -> Self {
        match *self {
            TryLock::Exchange => if reply.ok {
                TryLock::Locked
            } else {
                TryLock::Failed
            },
            done => done,
        }
    }

    fn accepts(&self, reply: Reply) -> (accepted: bool) {
        match *self {
            TryLock::Exchange => true,
            _ => false,
        }
    }

    fn access(&self) -> (access: Access) {
        match *self {
            TryLock::Exchange => Access::CompareExchangeByte(
                UNLOCKED,
                LOCKED,
                Order::Acquire,
                Order::Relaxed,
            ),
            TryLock::Locked | TryLock::Failed => Access::Done,
        }
    }

    fn resume(&mut self, reply: Reply, _hints: &mut Hints) {
        *self =
        match *self {
            TryLock::Exchange => if reply.ok {
                TryLock::Locked
            } else {
                TryLock::Failed
            },
            done => done,
        };
    }
}

impl Party for TryLock {
    open spec fn begins(&self) -> bool {
        self is Exchange
    }

    open spec fn holds(&self, memory: Shared) -> bool {
        self is Locked
    }

    open spec fn waiter(&self) -> usize {
        0
    }

    open spec fn admits(&self, memory: Shared, reply: Reply) -> bool {
        true
    }
}

/// What a locking thread remembers while it looks at the state word.
#[derive(Clone, Copy, PartialEq, Eq, Structural, Debug)]
pub struct Attempt {
    /// How often it has spun.
    pub spin: u8,
    /// Whether it was woken and has the waking flag to clear.
    pub is_waking: bool,
    /// Whether its waiter is ready to be notified.
    pub has_event: bool,
}

/// How far an attempt to lock is.
#[derive(Clone, Copy, PartialEq, Eq, Structural, Debug)]
pub enum LockStep {
    /// Takes a mutex that is free and has no waiters.
    Fast,
    LoadWord { attempt: Attempt },
    /// Lets other threads run between two spins.
    Pause { attempt: Attempt },
    /// Links the waiter in front of the newest one of `state`.
    SetNext { state: usize, attempt: Attempt },
    SetTail { state: usize, attempt: Attempt },
    SetPrev { state: usize, attempt: Attempt },
    SetWaker { state: usize, attempt: Attempt },
    SetWaiting { state: usize, attempt: Attempt },
    /// Takes the mutex, or joins the queue, if the word is still `state`.
    Exchange { state: usize, attempt: Attempt },
    LoadWake,
    Park,
    Locked,
}

/// An attempt to lock, and the waiter it waits by.
#[derive(Clone, Copy, PartialEq, Eq, Structural, Debug)]
pub struct Locking {
    pub waiter: usize,
    pub step: LockStep,
}

/// How many hints are made on account of a state word.
pub open spec fn slow_hints(state: usize, attempt: Attempt) -> nat {
    if is_locked(state) && above_flag(state) == 0 && attempt.spin <= LAST_HINT {
        spec_hints(attempt.spin)
    } else {
        0
    }
}

pub open spec fn spec_lock_slow(state: usize, attempt: Attempt) -> LockStep {
    if !is_locked(state) {
        LockStep::Exchange { state, attempt }
    } else if above_flag(state) == 0 && attempt.spin <= LAST_HINT {
        LockStep::LoadWord { attempt: Attempt { spin: (attempt.spin + 1) as u8, ..attempt } }
    } else if above_flag(state) == 0 && attempt.spin <= LAST_SPIN {
        LockStep::Pause { attempt }
    } else {
        LockStep::SetNext { state, attempt }
    }
}

/// What to do about a state word: try to take the mutex if it is free, spin for
/// a while if nobody waits yet, and join the queue otherwise.
pub fn lock_slow(
    state: usize,
    attempt: Attempt,
    hints: &mut Hints,
) -> (step: LockStep)
    ensures
        step == spec_lock_slow(state, attempt),
        final(hints).made() == old(hints).made() + slow_hints(state, attempt),
{
    if !is_locked(state) {
        LockStep::Exchange { state, attempt }
    } else if above_flag(state) == 0 && attempt.spin <= LAST_HINT {
        spin_round(attempt.spin, hints);
        LockStep::LoadWord { attempt: Attempt { spin: attempt.spin + 1, ..attempt } }
    } else if above_flag(state) == 0 && attempt.spin <= LAST_SPIN {
        LockStep::Pause { attempt }
    } else {
        LockStep::SetNext { state, attempt }
    }
}

#[verifier::opaque]
pub open spec fn spec_exchanged(state: usize, is_waking: bool, node: usize) -> usize {
    let new = if is_locked(state) {
        with_above_flag(state, node)
    } else if is_waking || !has_flag(state) {
        set_locked(state)
    } else {
        state
    };
    if is_waking {
        clear_flag(new)
    } else {
        new
    }
}

/// The state word that an attempt puts in place of `state`: the waiter in
/// front, or the held flag set. A free word whose waking flag belongs to another
/// thread is left as it is.
#[verifier::when_used_as_spec(spec_exchanged)]
pub fn exchanged(state: usize, is_waking: bool, node: usize) -> (word: usize)
    requires
        is_waiter(node),
    ensures
        word == spec_exchanged(state, is_waking, node),
{
    proof {
        reveal(spec_exchanged);
    }
    let new: usize = if is_locked(state) {
        with_above_flag(state, node)
    } else if is_waking || !has_flag(state) {
        set_locked(state)
    } else {
        state
    };
    if is_waking {
        clear_flag(new)
    } else {
        new
    }
}

/// An attempt leaves the held flag set, but on a free word whose waking flag
/// belongs to another thread.
#[verifier::spinoff_prover]
#[verifier::rlimit(40)]
proof fn lemma_exchanged(state: usize, is_waking: bool, node: usize)
    requires
        is_waiter(node),
        is_locked(state) || is_waking || !has_flag(state),
    ensures
        is_locked(exchanged(state, is_waking, node)),
{
    let joined = with_above_flag(state, node);
    let taken = set_locked(state);
    lemma_with_above_flag(state, node);
    lemma_clear_flag_locked(joined);
    lemma_clear_flag_locked(taken);
    assert(is_locked(taken));
    assert(exchanged(state, is_waking, node) == if is_locked(state) {
        if is_waking {
            clear_flag(joined)
        } else {
            joined
        }
    } else {
        if is_waking {
            clear_flag(taken)
        } else {
            taken
        }
    }) by {
        reveal(spec_exchanged);
    }
}

impl Operation for Locking {
    open spec fn wf(&self) -> bool {
        &&& is_waiter(self.waiter)
        &&& match self.step {
            LockStep::Pause { attempt } => attempt.spin <= LAST_SPIN,
            LockStep::SetNext { state, .. }
            | LockStep::SetTail { state, .. }
            | LockStep::SetPrev { state, .. }
            | LockStep::SetWaker { state, .. }
            | LockStep::SetWaiting { state, .. } => is_locked(state),
            _ => true,
        }
    }

    open spec fn wants(&self) -> Access {
        let node: usize = self.waiter;
        match self.step {
            LockStep::Fast => Access::CompareExchangeWeak(
                Place::Word,
                UNLOCKED,
                LOCKED,
                Order::Acquire,
                Order::Relaxed,
            ),
            LockStep::LoadWord { .. } => Access::Load(Place::Word, Order::Relaxed),
            LockStep::Pause { .. } => Access::Pause,
            LockStep::SetNext { state, .. } => Access::Store(
                Place::Link(node, Link::Next),
                above_flag(state),
                Order::Relaxed,
            ),
            LockStep::SetTail { state, .. } => Access::Store(
                Place::Link(node, Link::Tail),
                if above_flag(state) == 0 {
                    node
                } else {
                    0
                },
                Order::Relaxed,
            ),
            LockStep::SetPrev { .. } => Access::Store(Place::Link(node, Link::Prev), 0, Order::Relaxed),
            LockStep::SetWaker { .. } => Access::StoreWaker(node),
            LockStep::SetWaiting { .. } => Access::Store(Place::Wake(node), WAITING, Order::Relaxed),
            LockStep::Exchange { state, attempt } => Access::CompareExchangeWeak(
                Place::Word,
                state,
                exchanged(state, attempt.is_waking, node),
                Order::AcqRel,
                Order::Relaxed,
            ),
            LockStep::LoadWake => Access::Load(Place::Wake(node), Order::Relaxed),
            LockStep::Park => Access::Park,
            LockStep::Locked => Access::Done,
        }
    }

    open spec fn expects(&self, reply: Reply) -> bool {
        match self.step {
            LockStep::Locked => false,
            _ => true,
        }
    }

    open spec fn after(&self, reply: Reply) -> Self {
        let step = match self.step {
            LockStep::Fast => if reply.ok {
                LockStep::Locked
            } else {
                LockStep::LoadWord {
                    attempt: Attempt { spin: 0, is_waking: false, has_event: false },
                }
            },
            LockStep::LoadWord { attempt } => spec_lock_slow(reply.value, attempt),
            LockStep::Pause { attempt } => LockStep::LoadWord {
                attempt: Attempt { spin: (attempt.spin + 1) as u8, ..attempt },
            },
            LockStep::SetNext { state, attempt } => LockStep::SetTail { state, attempt },
            LockStep::SetTail { state, attempt } => if attempt.has_event {
                LockStep::Exchange { state, attempt }
            } else {
                LockStep::SetPrev { state, attempt }
            },
            LockStep::SetPrev { state, attempt } => LockStep::SetWaker { state, attempt },
            LockStep::SetWaker { state, attempt } => LockStep::SetWaiting { state, attempt },
            LockStep::SetWaiting { state, attempt } => LockStep::Exchange {
                state,
                attempt: Attempt { has_event: true, ..attempt },
            },
            LockStep::Exchange { state, attempt } => if !reply.ok {
                spec_lock_slow(reply.value, attempt)
            } else if is_locked(state) {
                LockStep::LoadWake
            } else {
                LockStep::Locked
            },
            LockStep::LoadWake => if reply.value == WAITING {
                LockStep::Park
            } else {
                LockStep::LoadWord {
                    attempt: Attempt { spin: 0, is_waking: true, has_event: false },
                }
            },
            LockStep::Park => LockStep::LoadWake,
            LockStep::Locked => LockStep::Locked,
        };
        Locking { step, ..*self }
    }

    open spec fn hints(&self, reply: Reply) -> nat {
        match self.step {
            LockStep::LoadWord { attempt } => slow_hints(reply.value, attempt),
            LockStep::Exchange { attempt, .. } if !reply.ok => slow_hints(reply.value, attempt),
            _ => 0,
        }
    }

    fn accepts(&self, reply: Reply) -> (accepted: bool) {
        match self.step {
            LockStep::Locked => false,
            _ => true,
        }
    }

    fn access(&self) -> (access: Access) {
        let node: usize = self.waiter;
        match self.step {
            LockStep::Fast => Access::CompareExchangeWeak(
                Place::Word,
                UNLOCKED,
                LOCKED,
                Order::Acquire,
                Order::Relaxed,
            ),
            LockStep::LoadWord { .. } => Access::Load(Place::Word, Order::Relaxed),
            LockStep::Pause { .. } => Access::Pause,
            LockStep::SetNext { state, .. } => Access::Store(
                Place::Link(node, Link::Next),
                above_flag(state),
                Order::Relaxed,
            ),
            LockStep::SetTail { state, .. } => Access::Store(
                Place::Link(node, Link::Tail),
                if above_flag(state) == 0 {
                    node
                } else {
                    0
                },
                Order::Relaxed,
            ),
            LockStep::SetPrev { .. } => Access::Store(Place::Link(node, Link::Prev), 0, Order::Relaxed),
            LockStep::SetWaker { .. } => Access::StoreWaker(node),
            LockStep::SetWaiting { .. } => Access::Store(Place::Wake(node), WAITING, Order::Relaxed),
            LockStep::Exchange { state, attempt } => Access::CompareExchangeWeak(
                Place::Word,
                state,
                exchanged(state, attempt.is_waking, node),
                Order::AcqRel,
                Order::Relaxed,
            ),
            LockStep::LoadWake => Access::Load(Place::Wake(node), Order::Relaxed),
            LockStep::Park => Access::Park,
            LockStep::Locked => Access::Done,
        }
    }

    fn resume(&mut self, reply: Reply, hints: &mut Hints) {
        self.step =
        match self.step {
            LockStep::Fast => if reply.ok {
                LockStep::Locked
            } else {
                LockStep::LoadWord {
                    attempt: Attempt { spin: 0, is_waking: false, has_event: false },
                }
            },
            LockStep::LoadWord { attempt } => lock_slow(reply.value, attempt, hints),
            LockStep::Pause { attempt } => LockStep::LoadWord {
                attempt: Attempt { spin: attempt.spin + 1, ..attempt },
            },
            LockStep::SetNext { state, attempt } => LockStep::SetTail { state, attempt },
            LockStep::SetTail { state, attempt } => if attempt.has_event {
                LockStep::Exchange { state, attempt }
            } else {
                LockStep::SetPrev { state, attempt }
            },
            LockStep::SetPrev { state, attempt } => LockStep::SetWaker { state, attempt },
            LockStep::SetWaker { state, attempt } => LockStep::SetWaiting { state, attempt },
            LockStep::SetWaiting { state, attempt } => LockStep::Exchange {
                state,
                attempt: Attempt { has_event: true, ..attempt },
            },
            LockStep::Exchange { state, attempt } => if !reply.ok {
                lock_slow(reply.value, attempt, hints)
            } else if is_locked(state) {
                LockStep::LoadWake
            } else {
                LockStep::Locked
            },
            LockStep::LoadWake => if reply.value == WAITING {
                LockStep::Park
            } else {
                LockStep::LoadWord {
                    attempt: Attempt { spin: 0, is_waking: true, has_event: false },
                }
            },
            LockStep::Park => LockStep::LoadWake,
            LockStep::Locked => LockStep::Locked,
        };
    }
}

impl Party for Locking {
    open spec fn begins(&self) -> bool {
        self.step is Fast
    }

    open spec fn holds(&self, memory: Shared) -> bool {
        self.step is Locked
    }

    open spec fn waiter(&self) -> usize {
        self.waiter
    }

    /// An exchange on a free word whose waking flag belongs to another thread
    /// changes nothing, and yet the attempt counts it as a success. Schedules
    /// with such an exchange are not under study.
    open spec fn admits(&self, memory: Shared, reply: Reply) -> bool {
        self.step matches LockStep::Exchange { state, attempt } ==> !reply.ok || is_locked(state)
            || attempt.is_waking || !has_flag(state)
    }
}

/// How far an unlock is.
#[derive(Clone, Copy, PartialEq, Eq, Structural, Debug)]
pub enum Unlock {
    /// Clears the held byte.
    Release,
    LoadWord,
    /// Takes the waking flag if the word is still `state`.
    TakeWaking { state: usize },
    /// Makes what was done to the queue before visible.
    FenceIn { state: usize },
    /// Looks for the oldest waiter.
    Find { state: usize, search: Search },
    /// Leaves the queue to the thread that took the mutex meanwhile.
    GiveUp { state: usize },
    LoadPrev { state: usize, tail: usize },
    /// Makes the next oldest waiter the oldest one.
    SetTail { state: usize, tail: usize, prev: usize },
    FenceOut { tail: usize },
    /// Empties the queue of its only waiter.
    Empty { state: usize, tail: usize },
    Take { tail: usize },
    SetNotified { tail: usize, took: bool },
    Wake,
    Released,
}

pub open spec fn spec_unlock_slow(state: usize) -> Unlock {
    if above_flag(state) == 0 || has_flag(state) || is_locked(state) {
        Unlock::Released
    } else {
        Unlock::TakeWaking { state }
    }
}

/// What to do about a state word: wake somebody only if somebody waits, the
/// mutex is still free, and no other thread is waking.
#[verifier::when_used_as_spec(spec_unlock_slow)]
pub fn unlock_slow(state: usize) -> (next: Unlock)
    ensures
        next == spec_unlock_slow(state),
{
    if above_flag(state) == 0 || has_flag(state) || is_locked(state) {
        Unlock::Released
    } else {
        Unlock::TakeWaking { state }
    }
}

pub open spec fn spec_find(state: usize) -> Unlock {
    Unlock::Find { state, search: Search::start(above_flag(state), false) }
}

/// Looks for the oldest waiter of a state word.
#[verifier::when_used_as_spec(spec_find)]
pub fn find(state: usize) -> (next: Unlock)
    requires
        above_flag(state) != 0,
    ensures
        next == spec_find(state),
{
    Unlock::Find { state, search: Search::start(above_flag(state), false) }
}

pub open spec fn spec_found(state: usize, tail: usize) -> Unlock {
    if is_locked(state) {
        Unlock::GiveUp { state }
    } else {
        Unlock::LoadPrev { state, tail }
    }
}

/// Goes on once the oldest waiter is found.
#[verifier::when_used_as_spec(spec_found)]
pub fn found(state: usize, tail: usize) -> (next: Unlock)
    ensures
        next == spec_found(state, tail),
{
    if is_locked(state) {
        Unlock::GiveUp { state }
    } else {
        Unlock::LoadPrev { state, tail }
    }
}

impl Operation for Unlock {
    open spec fn wf(&self) -> bool {
        match *self {
            Unlock::TakeWaking { state } => above_flag(state) != 0 && !is_locked(state),
            Unlock::FenceIn { state } => above_flag(state) != 0,
            Unlock::Find { state, search } => {
                &&& search.wf()
                &&& search.found() is None
                &&& search.head == above_flag(state)
            },
            Unlock::GiveUp { state } => above_flag(state) != 0 && is_locked(state),
            Unlock::LoadPrev { state, tail } => above_flag(state) != 0 && !is_locked(state) && tail
                != 0,
            Unlock::SetTail { state, tail, prev } => above_flag(state) != 0 && tail != 0 && prev != 0,
            Unlock::Empty { state, tail } => above_flag(state) != 0 && !is_locked(state) && tail != 0,
            _ => true,
        }
    }

    open spec fn wants(&self) -> Access {
        match *self {
            Unlock::Release => Access::StoreByte(UNLOCKED, Order::Release),
            Unlock::LoadWord => Access::Load(Place::Word, Order::Relaxed),
            Unlock::TakeWaking { state } => Access::CompareExchangeWeak(
                Place::Word,
                state,
                set_flag(state),
                Order::Acquire,
                Order::Relaxed,
            ),
            Unlock::FenceIn { .. } => Access::Fence(Order::Acquire),
            Unlock::Find { search, .. } => search.wants(),
            Unlock::GiveUp { state } => Access::CompareExchangeWeak(
                Place::Word,
                state,
                clear_flag(state),
                Order::AcqRel,
                Order::Acquire,
            ),
            Unlock::LoadPrev { tail, .. } => Access::Load(
                Place::Link(tail, Link::Prev),
                Order::Relaxed,
            ),
            Unlock::SetTail { state, prev, .. } => Access::Store(
                Place::Link(above_flag(state), Link::Tail),
                prev,
                Order::Relaxed,
            ),
            Unlock::FenceOut { .. } => Access::Fence(Order::Release),
            Unlock::Empty { state, .. } => Access::CompareExchangeWeak(
                Place::Word,
                state,
                flag_only(state),
                Order::AcqRel,
                Order::Acquire,
            ),
            Unlock::Take { tail } => Access::TakeWaker(tail),
            Unlock::SetNotified { tail, .. } => Access::Store(
                Place::Wake(tail),
                NOTIFIED,
                Order::Release,
            ),
            Unlock::Wake => Access::Wake,
            Unlock::Released => Access::Done,
        }
    }

    /// Waiters do not leave the queue by themselves.
    open spec fn expects(&self, reply: Reply) -> bool {
        match *self {
            Unlock::Find { search, .. } => search.expects(reply),
            Unlock::GiveUp { .. } | Unlock::Empty { .. } => reply.ok || above_flag(reply.value) != 0,
            Unlock::Released => false,
            _ => true,
        }
    }

    open spec fn after(&self, reply: Reply) -> Self {
        match *self {
            Unlock::Release => Unlock::LoadWord,
            Unlock::LoadWord => unlock_slow(reply.value),
            Unlock::TakeWaking { state } => if reply.ok {
                Unlock::FenceIn { state }
            } else {
                unlock_slow(reply.value)
            },
            Unlock::FenceIn { state } => find(state),
            Unlock::Find { state, search } => {
                let next = search.after(reply);
                match next.found() {
                    Some(tail) => found(state, tail),
                    None => Unlock::Find { state, search: next },
                }
            },
            Unlock::GiveUp { .. } => if reply.ok {
                Unlock::Released
            } else {
                find(reply.value)
            },
            Unlock::LoadPrev { state, tail } => if reply.value == 0 {
                Unlock::Empty { state, tail }
            } else {
                Unlock::SetTail { state, tail, prev: reply.value }
            },
            Unlock::SetTail { tail, .. } => Unlock::FenceOut { tail },
            Unlock::FenceOut { tail } => Unlock::Take { tail },
            Unlock::Empty { tail, .. } => if reply.ok {
                Unlock::Take { tail }
            } else {
                find(reply.value)
            },
            Unlock::Take { tail } => Unlock::SetNotified { tail, took: reply.ok },
            Unlock::SetNotified { took, .. } => if took {
                Unlock::Wake
            } else {
                Unlock::Released
            },
            Unlock::Wake => Unlock::Released,
            Unlock::Released => Unlock::Released,
        }
    }

    fn accepts(&self, reply: Reply) -> (accepted: bool) {
        match *self {
            Unlock::Find { search, .. } => search.accepts(reply),
            Unlock::GiveUp { .. } | Unlock::Empty { .. } => reply.ok || above_flag(reply.value) != 0,
            Unlock::Released => false,
            _ => true,
        }
    }

    fn access(&self) -> (access: Access) {
        match *self {
            Unlock::Release => Access::StoreByte(UNLOCKED, Order::Release),
            Unlock::LoadWord => Access::Load(Place::Word, Order::Relaxed),
            Unlock::TakeWaking { state } => Access::CompareExchangeWeak(
                Place::Word,
                state,
                set_flag(state),
                Order::Acquire,
                Order::Relaxed,
            ),
            Unlock::FenceIn { .. } => Access::Fence(Order::Acquire),
            Unlock::Find { search, .. } => search.access(),
            Unlock::GiveUp { state } => Access::CompareExchangeWeak(
                Place::Word,
                state,
                clear_flag(state),
                Order::AcqRel,
                Order::Acquire,
            ),
            Unlock::LoadPrev { tail, .. } => Access::Load(
                Place::Link(tail, Link::Prev),
                Order::Relaxed,
            ),
            Unlock::SetTail { state, prev, .. } => Access::Store(
                Place::Link(above_flag(state), Link::Tail),
                prev,
                Order::Relaxed,
            ),
            Unlock::FenceOut { .. } => Access::Fence(Order::Release),
            Unlock::Empty { state, .. } => Access::CompareExchangeWeak(
                Place::Word,
                state,
                flag_only(state),
                Order::AcqRel,
                Order::Acquire,
            ),
            Unlock::Take { tail } => Access::TakeWaker(tail),
            Unlock::SetNotified { tail, .. } => Access::Store(
                Place::Wake(tail),
                NOTIFIED,
                Order::Release,
            ),
            Unlock::Wake => Access::Wake,
            Unlock::Released => Access::Done,
        }
    }

    fn resume(&mut self, reply: Reply, _hints: &mut Hints) {
        *self =
        match *self {
            Unlock::Release => Unlock::LoadWord,
            Unlock::LoadWord => unlock_slow(reply.value),
            Unlock::TakeWaking { state } => if reply.ok {
                Unlock::FenceIn { state }
            } else {
                unlock_slow(reply.value)
            },
            Unlock::FenceIn { state } => find(state),
            Unlock::Find { state, search } => {
                let next = search.resumed(reply);
                match next.found() {
                    Some(tail) => found(state, tail),
                    None => Unlock::Find { state, search: next },
                }
            },
            Unlock::GiveUp { .. } => if reply.ok {
                Unlock::Released
            } else {
                find(reply.value)
            },
            Unlock::LoadPrev { state, tail } => if reply.value == 0 {
                Unlock::Empty { state, tail }
            } else {
                Unlock::SetTail { state, tail, prev: reply.value }
            },
            Unlock::SetTail { tail, .. } => Unlock::FenceOut { tail },
            Unlock::FenceOut { tail } => Unlock::Take { tail },
            Unlock::Empty { tail, .. } => if reply.ok {
                Unlock::Take { tail }
            } else {
                find(reply.value)
            },
            Unlock::Take { tail } => Unlock::SetNotified { tail, took: reply.ok },
            Unlock::SetNotified { took, .. } => if took {
                Unlock::Wake
            } else {
                Unlock::Released
            },
            Unlock::Wake => Unlock::Released,
            Unlock::Released => Unlock::Released,
        };
    }
}

impl Party for Unlock {
    open spec fn begins(&self) -> bool {
        self is Release
    }

    open spec fn holds(&self, memory: Shared) -> bool {
        self is Release
    }

    open spec fn waiter(&self) -> usize {
        0
    }

    open spec fn admits(&self, memory: Shared, reply: Reply) -> bool {
        true
    }
}

/// Taking a free mutex that nobody waits for and giving it up again, with nothing
/// in between, succeeds at once and leaves everything as it was.
pub proof fn undisturbed_round_trip(lock: Locking, unlock: Unlock, memory: Shared)
    requires
        lock.begins(),
        unlock.begins(),
        memory.word == UNLOCKED,
    ensures
        alone(lock, memory, 1) == (Locking { step: LockStep::Locked, ..lock }, Shared { word: LOCKED, ..memory }),
        alone(unlock, Shared { word: LOCKED, ..memory }, 2) == (Unlock::Released, memory),
{
    reveal_with_fuel(alone, 3);
}

/// The mutex of this module, as [`crate::exclusion`], [`crate::queue`] and
/// [`crate::upkeep`] speak of it. Their laws hold of it, among them
/// [`crate::exclusion::mutual_exclusion`],
/// [`crate::queue::every_reply_is_expected`],
/// [`crate::queue::nobody_is_forgotten`] and
/// [`crate::upkeep::free_lock_is_not_left_alone`].
pub struct Kind;

impl Encoding for Kind {
    open spec fn is_held(word: usize) -> bool {
        is_locked(word)
    }

    /// A woken waiter has to take the mutex by itself.
    open spec fn grants(wake: usize) -> bool {
        false
    }
}

impl LockKind for Kind {
    type Try = TryLock;

    type Lock = Locking;

    type Unlock = Unlock;

    proof fn try_frame(party: TryLock, memory: Shared, next: Shared) {
        assert(party.waiter() == 0 && party.holds(memory) == party.holds(next));
    }

    proof fn lock_frame(party: Locking, memory: Shared, next: Shared) {
        assert(party.waiter() != 0);
        assert(party.begins() ==> !party.holds(memory) || Self::grants(wake_of(memory, party.waiter())));
    }

    proof fn unlock_frame(party: Unlock, memory: Shared, next: Shared) {
        assert(party.waiter() == 0 && party.holds(memory) == party.holds(next));
    }

    proof fn lock_given_up(party: Locking, other: Locking, memory: Shared) {
        assert(party.gives_up(other) ==> other.waiter() == party.waiter() && other.holds(memory) == party.holds(memory));
    }

    proof fn try_step(party: TryLock, memory: Shared, reply: Reply, next: Shared) {
    }

    #[verifier::spinoff_prover]
    #[verifier::rlimit(50)]
    proof fn lock_step(party: Locking, memory: Shared, reply: Reply, next: Shared) {
        if let LockStep::Exchange { state, attempt } = party.step {
            if reply.ok {
                lemma_exchanged(state, attempt.is_waking, party.waiter);
            }
        }
    }

    #[verifier::spinoff_prover]
    #[verifier::rlimit(50)]
    proof fn unlock_step(party: Unlock, memory: Shared, reply: Reply, next: Shared) {
        if let Unlock::GiveUp { state } = party {
            lemma_clear_flag_locked(state);
        }
    }
}

/// Whether the waiter can be woken.
pub open spec fn is_ready(memory: Shared, node: usize) -> bool {
    node != 0 && wake_of(memory, node) == WAITING && (memory.wakers)(node)
}

/// Whether an attempt to lock waits by its waiter.
pub open spec fn waits(lock: Locking) -> bool {
    lock.step is LoadWake || lock.step is Park
}

/// What an attempt to lock knows about its waiter.
pub open spec fn lock_knows(lock: Locking, memory: Shared) -> bool {
    let node = lock.waiter;
    let reset = is_ready(memory, node) && link(memory, node, Link::Prev) == 0;
    match lock.step {
        LockStep::Fast | LockStep::Locked => true,
        LockStep::LoadWord { attempt } | LockStep::Pause { attempt } | LockStep::SetNext {
            attempt,
            ..
        } => attempt.has_event ==> reset,
        LockStep::SetTail { state, attempt } => {
            &&& attempt.has_event ==> reset
            &&& link(memory, node, Link::Next) == above_flag(state)
        },
        LockStep::SetPrev { state, .. } => {
            &&& link(memory, node, Link::Next) == above_flag(state)
            &&& link(memory, node, Link::Tail) == if above_flag(state) == 0 {
                node
            } else {
                0
            }
        },
        LockStep::SetWaker { state, .. } => leads_to(memory, node, above_flag(state)),
        LockStep::SetWaiting { state, .. } => {
            &&& leads_to(memory, node, above_flag(state))
            &&& (memory.wakers)(node)
        },
        LockStep::Exchange { state, attempt } => {
            &&& attempt.has_event ==> reset
            &&& is_locked(state) ==> is_ready(memory, node) && leads_to(
                memory,
                node,
                above_flag(state),
            )
        },
        LockStep::LoadWake | LockStep::Park => {
            wake_of(memory, node) == WAITING || wake_of(memory, node) == NOTIFIED
        },
    }
}

/// Whether an attempt to lock was handed the waking flag, and has not cleared it
/// yet.
pub open spec fn carries(lock: Locking, memory: Shared) -> bool {
    match lock.step {
        LockStep::Fast | LockStep::Locked => false,
        LockStep::LoadWord { attempt }
        | LockStep::Pause { attempt }
        | LockStep::SetNext { attempt, .. }
        | LockStep::SetTail { attempt, .. }
        | LockStep::SetPrev { attempt, .. }
        | LockStep::SetWaker { attempt, .. }
        | LockStep::SetWaiting { attempt, .. }
        | LockStep::Exchange { attempt, .. } => attempt.is_waking,
        LockStep::LoadWake | LockStep::Park => wake_of(memory, lock.waiter) == NOTIFIED,
    }
}

/// The part that an unlock has in the queue.
pub open spec fn stage(unlock: Unlock) -> Stage {
    match unlock {
        Unlock::FenceIn { state } => Stage::Ready { head: above_flag(state) },
        Unlock::Find { state, search } => Stage::Find { head: above_flag(state), search },
        Unlock::GiveUp { state } => Stage::Settled { head: above_flag(state) },
        Unlock::LoadPrev { state, tail } => Stage::Found { head: above_flag(state), tail },
        Unlock::SetTail { state, tail, prev } => Stage::Cut { head: above_flag(state), tail, prev },
        Unlock::Empty { state, tail } => Stage::Last { head: above_flag(state), tail },
        Unlock::FenceOut { .. } => Stage::Leaving,
        _ => Stage::Idle,
    }
}

/// The waiter that an unlock has taken off the queue and not woken yet, or 0.
pub open spec fn grip(unlock: Unlock) -> usize {
    match unlock {
        Unlock::FenceOut { tail } | Unlock::Take { tail } | Unlock::SetNotified { tail, .. } => {
            tail
        },
        _ => 0,
    }
}

/// What an unlock knows about that waiter, and about the word it looked at.
pub open spec fn unlock_knows(unlock: Unlock, memory: Shared) -> bool {
    match unlock {
        Unlock::TakeWaking { state } => !has_flag(state),
        Unlock::FenceOut { tail } | Unlock::Take { tail } => is_ready(memory, tail),
        Unlock::SetNotified { tail, took } => {
            &&& tail != 0
            &&& took
            &&& wake_of(memory, tail) == WAITING
        },
        _ => true,
    }
}

impl Queued for Kind {
    open spec fn newest(word: usize) -> usize {
        above_flag(word)
    }

    open spec fn is_node(node: usize) -> bool {
        is_waiter(node)
    }

    open spec fn flagged() -> bool {
        true
    }

    open spec fn flag(word: usize) -> bool {
        has_flag(word)
    }

    open spec fn is_tidy(word: usize) -> bool {
        true
    }

    open spec fn ready(memory: Shared, node: usize) -> bool {
        is_ready(memory, node)
    }

    open spec fn woken(memory: Shared, node: usize) -> bool {
        wake_of(memory, node) == NOTIFIED
    }

    open spec fn fresh(memory: Shared, node: usize) -> bool {
        true
    }

    open spec fn waits(lock: Locking) -> bool {
        waits(lock)
    }

    open spec fn joins(lock: Locking, reply: Reply) -> bool {
        lock.step matches LockStep::Exchange { state, .. } && reply.ok && is_locked(state)
    }

    open spec fn lock_knows(lock: Locking, memory: Shared) -> bool {
        lock_knows(lock, memory)
    }

    open spec fn carries(lock: Locking, memory: Shared) -> bool {
        carries(lock, memory)
    }

    open spec fn stage(unlock: Unlock) -> Stage {
        stage(unlock)
    }

    open spec fn reads_prev(unlock: Unlock) -> bool {
        unlock is LoadPrev
    }

    open spec fn grip(unlock: Unlock) -> usize {
        grip(unlock)
    }

    open spec fn passes(unlock: Unlock) -> bool {
        unlock is Take || unlock is SetNotified
    }

    open spec fn unlock_knows(unlock: Unlock, memory: Shared) -> bool {
        unlock_knows(unlock, memory)
    }

    open spec fn lock_admits(lock: Locking, memory: Shared, reply: Reply) -> bool {
        true
    }

    open spec fn unlock_admits(unlock: Unlock, memory: Shared, reply: Reply) -> bool {
        true
    }
}

/// The state word with another newest waiter, and with its flags changed.
proof fn words_of(word: usize, node: usize)
    requires
        node % 512 == 0,
    ensures
        above_flag(with_above_flag(word, node)) == node,
        has_flag(with_above_flag(word, node)) == has_flag(word),
        above_flag(clear_flag(with_above_flag(word, node))) == node,
        !has_flag(clear_flag(with_above_flag(word, node))),
        above_flag(set_locked(word)) == above_flag(word),
        has_flag(set_locked(word)) == has_flag(word),
        above_flag(clear_flag(set_locked(word))) == above_flag(word),
        !has_flag(clear_flag(set_locked(word))),
        above_flag(set_flag(word)) == above_flag(word),
        has_flag(set_flag(word)),
        above_flag(clear_flag(word)) == above_flag(word),
        !has_flag(clear_flag(word)),
        above_flag(with_byte(word, LOCKED)) == above_flag(word),
        has_flag(with_byte(word, LOCKED)) == has_flag(word),
        above_flag(with_byte(word, UNLOCKED)) == above_flag(word),
        has_flag(with_byte(word, UNLOCKED)) == has_flag(word),
        above_flag(flag_only(word)) == 0,
        has_flag(flag_only(word)) == has_flag(word),
        above_flag(LOCKED) == 0 && !has_flag(LOCKED),
        above_flag(UNLOCKED) == 0 && !has_flag(UNLOCKED),
{
    lemma_byte_word(word, node, LOCKED);
    lemma_byte_word(word, node, UNLOCKED);
    lemma_byte_word(with_above_flag(word, node), node, LOCKED);
    lemma_byte_word(set_locked(word), node, LOCKED);
}

impl Queueing for Kind {
    proof fn of_nodes(memory: Shared, node: usize) {
        assert(is_ready(memory, node) || !is_ready(memory, node));
    }

    proof fn node_frame(memory: Shared, next: Shared, node: usize) {
        assert(is_ready(memory, node) == is_ready(next, node));
    }

    proof fn lock_knows_frame(lock: Locking, memory: Shared, next: Shared) {
        assert(lock.waiter() == lock.waiter);
        assert(waits(lock) || !waits(lock));
        assert(lock_knows(lock, memory) ==> lock_knows(lock, next));
    }

    proof fn unlock_knows_frame(unlock: Unlock, memory: Shared, next: Shared) {
        assert(grip(unlock) == 0 || grip(unlock) != 0);
        assert(unlock_knows(unlock, memory) ==> unlock_knows(unlock, next));
    }

    proof fn try_obeys(attempt: TryLock, memory: Shared, reply: Reply, next: Shared) {
        words_of(memory.word, 0);
    }

    #[verifier::rlimit(50)]
    proof fn lock_obeys(lock: Locking, memory: Shared, reply: Reply, next: Shared) {
        reveal(spec_exchanged);
        words_of(memory.word, lock.waiter);
        assert(lock.waiter() == lock.waiter);
        assert(is_ready(memory, lock.waiter) || !is_ready(memory, lock.waiter));
    }

    #[verifier::rlimit(50)]
    proof fn lock_obeys_grip(
        lock: Locking,
        unlock: Unlock,
        memory: Shared,
        reply: Reply,
        next: Shared,
    ) {
        assert(lock.waiter() == lock.waiter);
        assert(grip(unlock) == lock.waiter);
    }

    #[verifier::rlimit(50)]
    proof fn unlock_obeys(unlock: Unlock, memory: Shared, reply: Reply, next: Shared) {
        words_of(memory.word, 0);
        assert(stage(unlock) is Idle || !(stage(unlock) is Idle));
    }

    #[verifier::rlimit(50)]
    proof fn unlock_obeys_lock(
        unlock: Unlock,
        lock: Locking,
        memory: Shared,
        reply: Reply,
        next: Shared,
    ) {
        assert(lock.waiter() == lock.waiter);
        assert(grip(unlock) == lock.waiter);
    }
}

impl Upkeep for Kind {
    open spec fn tends(unlock: Unlock) -> bool {
        !(unlock is Release || unlock is Wake || unlock is Released)
    }

    proof fn lock_is_up(lock: Locking, memory: Shared) {
        assert(lock.waiter() == lock.waiter);
    }

    proof fn unlock_is_up(unlock: Unlock) {
        assert(stage(unlock) is Idle || !(stage(unlock) is Idle));
    }

    proof fn try_tends(attempt: TryLock, memory: Shared, reply: Reply, next: Shared) {
        words_of(memory.word, 0);
    }

    #[verifier::rlimit(50)]
    proof fn lock_tends(lock: Locking, memory: Shared, reply: Reply, next: Shared) {
        assert(lock.waiter() == lock.waiter);
        words_of(memory.word, lock.waiter);
        if let LockStep::Exchange { state, attempt } = lock.step {
            if reply.ok {
                lemma_exchanged(state, attempt.is_waking, lock.waiter);
                reveal(spec_exchanged);
            }
        }
    }

    #[verifier::spinoff_prover]
    #[verifier::rlimit(40)]
    proof fn unlock_tends(unlock: Unlock, memory: Shared, reply: Reply, next: Shared) {
        words_of(memory.word, 0);
        assert(wakes::<Self>(unlock, reply) || !wakes::<Self>(unlock, reply));
    }

    proof fn lock_inherits(
        unlock: Unlock,
        lock: Locking,
        memory: Shared,
        reply: Reply,
        next: Shared,
    ) {
        assert(lock.waiter() == lock.waiter);
        assert(grip(unlock) == lock.waiter);
    }
}

impl Tenure for Kind {
    proof fn lock_is_handed(lock: Locking, memory: Shared) {
        assert(lock.waiter() == lock.waiter);
    }

    proof fn try_keeps(attempt: TryLock, memory: Shared, reply: Reply, next: Shared) {
        words_of(memory.word, 0);
    }

    proof fn lock_keeps(lock: Locking, memory: Shared, reply: Reply, next: Shared) {
        assert(lock.waiter() == lock.waiter);
        words_of(memory.word, lock.waiter);
        if let LockStep::Exchange { state, attempt } = lock.step {
            if reply.ok {
                lemma_exchanged(state, attempt.is_waking, lock.waiter);
                reveal(spec_exchanged);
            }
        }
    }

    proof fn unlock_keeps(unlock: Unlock, memory: Shared, reply: Reply, next: Shared) {
        if let Unlock::GiveUp { state } = unlock {
            lemma_clear_flag_locked(state);
        }
    }
}

impl Keeps<Debt> for Unlock {
    open spec fn fits(&self, ledger: Debt) -> bool {
        &&& match *self {
            Unlock::SetNotified { tail, took } => if took {
                ledger.taken == Some(tail)
            } else {
                ledger.taken is None
            },
            Unlock::Wake => ledger.taken is Some && ledger.told == ledger.taken,
            _ => ledger.taken is None,
        }
        &&& !ledger.lends
    }

    proof fn goes_on(operation: Self, ledger: Debt, reply: Reply) {
    }

    proof fn obeys(operation: Self, ledger: Debt) {
    }
}

/// An unlock that took the waker of a waiter wakes it before it is over, once
/// it has stored the wake state. A waiter without a waker is told nothing more.
pub proof fn unlock_wakes_whom_it_took(first: Unlock, replies: Seq<Reply>, i: int, j: int)
    requires
        first.wf(),
        first.begins(),
        is_course(first, replies),
        0 <= i < j <= replies.len(),
    ensures
        ledger(first, replies, Debt::none(), j).allows(point(first, replies, j).wants()),
        ({
            &&& point(first, replies, i).wants() is TakeWaker
            &&& replies[i].ok
            &&& point(first, replies, j).wants() is Done
        }) ==> exists|k: int| i < k < j && #[trigger] point(first, replies, k).wants() is Wake,
{
    always_allowed(first, replies, Debt::none(), j);
    if point(first, replies, i).wants() is TakeWaker && replies[i].ok && point(
        first,
        replies,
        j,
    ).wants() is Done {
        taken_waker_is_woken(first, replies, Debt::none(), i, j);
    }
}

impl Signs for Kind {
    open spec fn is_up(wake: usize) -> bool {
        wake != WAITING
    }
}

impl Keeps<Wait<Kind>> for Locking {
    open spec fn fits(&self, ledger: Wait<Kind>) -> bool {
        &&& ledger.node == self.waiter
        &&& !ledger.drops
        &&& match self.step {
            LockStep::Fast => ledger.is_free() && ledger.word is None,
            LockStep::LoadWord { attempt } | LockStep::Pause { attempt } => {
                &&& ledger.is_free()
                &&& attempt.has_event ==> ledger.is_ready()
            },
            LockStep::SetNext { state, attempt } | LockStep::SetTail { state, attempt } => {
                &&& ledger.is_free()
                &&& ledger.word == Some(state)
                &&& attempt.has_event ==> ledger.is_ready()
            },
            LockStep::SetPrev { state, .. } | LockStep::SetWaker { state, .. } => {
                &&& ledger.is_free()
                &&& ledger.word == Some(state)
            },
            LockStep::SetWaiting { state, .. } => {
                &&& ledger.is_free()
                &&& ledger.word == Some(state)
                &&& ledger.waker
            },
            LockStep::Exchange { state, attempt } => {
                &&& ledger.is_free()
                &&& ledger.word == Some(state)
                &&& attempt.has_event || is_locked(state) ==> ledger.is_ready()
            },
            LockStep::LoadWake => {
                &&& !ledger.took
                &&& ledger.queued
                &&& !ledger.updating
                &&& !ledger.late
            },
            LockStep::Park => {
                &&& !ledger.took
                &&& ledger.queued
                &&& ledger.is_down()
                &&& !ledger.updating
                &&& !ledger.late
            },
            LockStep::Locked => ledger.took && !ledger.updating && !ledger.late,
        }
    }

    #[verifier::spinoff_prover]
    #[verifier::rlimit(40)]
    proof fn goes_on(operation: Self, ledger: Wait<Kind>, reply: Reply) {
    }

    proof fn obeys(operation: Self, ledger: Wait<Kind>) {
    }
}

/// An attempt is over exactly when it has the lock. It joins the queue ready to
/// be woken, waits only if it saw since it waited last that it was not woken,
/// and is woken by the waker of its last poll.
pub proof fn attempt_waits_until_it_is_woken(first: Locking, replies: Seq<Reply>)
    requires
        first.wf(),
        first.begins(),
        is_course(first, replies),
    ensures
        ({
            let start = Wait::begin(Kind, first.waiter, false);
            let now = point(first, replies, replies.len() as int);
            let wait = ledger(first, replies, start, replies.len() as int);
            &&& wait.allows(now.wants())
            &&& now.step is Locked ==> wait.took
        }),
{
    let start = Wait::begin(Kind, first.waiter, false);
    always_allowed(first, replies, start, replies.len() as int);
}

impl Crowd for Kind {
    open spec fn is_quiet(word: usize) -> bool {
        is_locked(word) && above_flag(word) == 0
    }

    open spec fn deadline(word: usize, node: usize) -> u32 {
        0
    }
}

impl Keeps<Patience<Kind>> for Locking {
    open spec fn fits(&self, ledger: Patience<Kind>) -> bool {
        &&& ledger.hinted == 4
        &&& ledger.rounds == 11
        &&& !ledger.forgets
        &&& !ledger.inside
        &&& match self.step {
            LockStep::Fast => !ledger.again && !ledger.pauses && !ledger.seen && ledger.spun == 0,
            LockStep::LoadWord { attempt } => {
                &&& ledger.spun == attempt.spin
                &&& attempt.spin <= ledger.rounds
                &&& ledger.just ==> ledger.again
                &&& !ledger.pauses
            },
            LockStep::Pause { attempt } => {
                &&& ledger.spun == attempt.spin + 1
                &&& ledger.seen
                &&& attempt.spin < ledger.rounds
                &&& ledger.again
                &&& ledger.pauses
            },
            LockStep::SetNext { state, attempt }
            | LockStep::SetTail { state, attempt }
            | LockStep::SetPrev { state, attempt }
            | LockStep::SetWaker { state, attempt }
            | LockStep::SetWaiting { state, attempt }
            | LockStep::Exchange { state, attempt } => {
                &&& ledger.seen
                &&& ledger.spun == attempt.spin
                &&& attempt.spin <= ledger.rounds
                &&& !ledger.again
                &&& !ledger.pauses
                &&& Kind::is_quiet(state) ==> ledger.spun >= ledger.rounds
            },
            _ => !ledger.again && !ledger.pauses,
        }
    }

    #[verifier::spinoff_prover]
    #[verifier::rlimit(40)]
    proof fn goes_on(operation: Self, ledger: Patience<Kind>, reply: Reply) {
    }

    proof fn obeys(operation: Self, ledger: Patience<Kind>) {
    }
}

/// An attempt that finds the mutex held and the queue empty looks again, eleven
/// times, and joins the queue only then. The first four times it makes twice as
/// many hints to the processor as the last time, and after that it pauses. It
/// makes no other hints, and starts over when it was woken.
pub proof fn attempt_spins_before_it_queues(first: Locking, replies: Seq<Reply>, reply: Reply)
    requires
        first.wf(),
        first.begins(),
        is_course(first, replies),
    ensures
        ({
            let start = Patience::begin(Kind, 4, 11, false);
            let now = point(first, replies, replies.len() as int);
            let patience = ledger(first, replies, start, replies.len() as int);
            &&& patience.allows(now.wants())
            &&& now.expects(reply) ==> now.hints(reply) == patience.hints_after(now.wants(), reply)
        }),
{
    let start = Patience::begin(Kind, 4, 11, false);
    always_allowed(first, replies, start, replies.len() as int);
    assert forall|round: u8| spec_hints(round) == pow2(round as nat) by {
        hints_are_powers(round);
    }
}

/// Whoever takes the lock sees what was done under it before, whoever looks
/// through the queue sees the waiters in it, and a waiter that sees that it was
/// woken sees what was done before that.
#[verifier::spinoff_prover]
#[verifier::rlimit(40)]
pub proof fn what_was_done_is_seen(attempt: TryLock, lock: Locking, unlock: Unlock)
    requires
        attempt.wf(),
        lock.wf(),
        unlock.wf(),
    ensures
        keeps_the_lock_visible(attempt.wants()),
        keeps_the_lock_visible(lock.wants()),
        keeps_the_lock_visible(unlock.wants()),
        keeps_the_queue_visible(lock.wants()),
        keeps_the_wake_visible(unlock.wants()),
{
    lemma_masks();
    lemma_flag_masks();
}

} // verus!
