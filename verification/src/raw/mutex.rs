//! A mutex that can be taken and given up, but not waited for.
//!
//! The state word holds the held flag and the parked flag. Taking a mutex that
//! is not free fails, and giving up one whose parked flag is set does nothing.
use vstd::prelude::*;
use crate::access::{Access, Operation, Order, Place, Reply};
use crate::exclusion::{
    Encoding, LockKind, Party, System, always_sound, holds, moves, schedule, sound, thread_wf,
    wake_of,
};
use crate::kernel::cpu::Hints;
use crate::memory::{Shared, alone};
use crate::tenure::is_tenanted;
use crate::try_lock::{TryLock, try_lock_is_lawful};
use crate::visibility::keeps_the_lock_visible;
use crate::words::{LOCKED, UNLOCKED, is_locked};

verus! {

/// A value, and the word that the mutex's state starts from. The state itself is
/// the word of the shared memory that the operations work on.
#[derive(Debug)]
pub struct RawMutex<T> {
    state: usize,
    value: T,
}

/// Whether the address can be that of a waiter of this mutex.
pub open spec fn is_waiter(node: usize) -> bool {
    node != 0
}

impl<T> RawMutex<T> {
    pub closed spec fn state(self) -> usize {
        self.state
    }

    pub closed spec fn value(self) -> T {
        self.value
    }

    pub open spec fn spec_new(value: T) -> Self {
        Self::with(UNLOCKED, value)
    }

    pub closed spec fn with(state: usize, value: T) -> Self {
        RawMutex { state, value }
    }

    #[verifier::when_used_as_spec(spec_new)]
    pub fn new(value: T) -> (mutex: Self)
        ensures
            mutex == Self::spec_new(value),
            mutex.state() == UNLOCKED,
            mutex.value() == value,
    {
        RawMutex { state: UNLOCKED, value }
    }

    pub fn into_inner(self) -> (value: T)
        ensures
            value == self.value(),
    {
        self.value
    }

    /// Nobody else can have the mutex while it is borrowed to change.
    pub fn as_mut(&mut self) -> (value: &mut T)
        ensures
            *value == old(self).value(),
            final(self).value() == *final(value),
            final(self).state() == old(self).state(),
    {
        &mut self.value
    }

    /// Begins to take the mutex if it is free.
    pub fn try_lock(&self) -> (attempt: TryLock)
        ensures
            attempt == TryLock::LoadWord,
            attempt.wf(),
            attempt.begins(),
    {
        TryLock::LoadWord
    }

    /// Begins to take the mutex. The attempt ends contended where it would have to
    /// wait.
    pub fn lock(&self, waiter: usize) -> (future: RawMutexFuture)
        requires
            is_waiter(waiter),
        ensures
            future == (RawMutexFuture { waiter, step: LockStep::Fast }),
            future.wf(),
            future.begins(),
    {
        self.lock_fast(waiter)
    }

    /// Begins to take the mutex as a task. The attempt ends contended where it
    /// would have to wait.
    pub fn lock_async(&self, waiter: usize) -> (future: RawMutexFuture)
        requires
            is_waiter(waiter),
        ensures
            future == (RawMutexFuture { waiter, step: LockStep::Fast }),
            future.wf(),
            future.begins(),
    {
        self.lock_fast(waiter)
    }

    /// Begins to take a mutex that is free and that nobody waits for.
    pub fn lock_fast(&self, waiter: usize) -> (future: RawMutexFuture)
        requires
            is_waiter(waiter),
        ensures
            future == (RawMutexFuture { waiter, step: LockStep::Fast }),
            future.wf(),
            future.begins(),
    {
        RawMutexFuture { waiter, step: LockStep::Fast }
    }

    /// Begins to give the mutex up.
    pub fn unlock(&self) -> (unlock: Unlock)
        ensures
            unlock == (Unlock::Release { fair: false }),
            unlock.wf(),
            unlock.begins(),
    {
        Unlock::Release { fair: false }
    }

    /// Begins to give the mutex up fairly.
    pub fn unlock_fair(&self) -> (unlock: Unlock)
        ensures
            unlock == (Unlock::Release { fair: true }),
            unlock.wf(),
            unlock.begins(),
    {
        Unlock::Release { fair: true }
    }
}

impl<T> From<T> for RawMutex<T> {
    fn from(value: T) -> (mutex: Self) {
        RawMutex::new(value)
    }
}

impl<T> vstd::std_specs::convert::FromSpecImpl<T> for RawMutex<T> {
    open spec fn obeys_from_spec() -> bool {
        true
    }

    open spec fn from_spec(value: T) -> Self {
        RawMutex::new(value)
    }
}

impl<T: Default> Default for RawMutex<T> {
    fn default() -> (mutex: Self)
        ensures
            mutex.state() == UNLOCKED,
            call_ensures(T::default, (), mutex.value()),
    {
        RawMutex::new(T::default())
    }
}

/// How far an attempt to lock is.
#[derive(Clone, Copy, PartialEq, Eq, Structural, Debug)]
pub enum LockStep {
    Fast,
    Locked,
    /// The mutex is held, or somebody waits for it.
    Contended,
}

/// An attempt to lock, and the waiter it would wait by.
#[derive(Clone, Copy, PartialEq, Eq, Structural, Debug)]
pub struct RawMutexFuture {
    pub waiter: usize,
    pub step: LockStep,
}

impl Operation for RawMutexFuture {
    open spec fn wf(&self) -> bool {
        is_waiter(self.waiter)
    }

    open spec fn wants(&self) -> Access {
        match self.step {
            LockStep::Fast => Access::CompareExchangeWeak(
                Place::Word,
                UNLOCKED,
                LOCKED,
                Order::Acquire,
                Order::Relaxed,
            ),
            LockStep::Locked | LockStep::Contended => Access::Done,
        }
    }

    open spec fn expects(&self, reply: Reply) -> bool {
        match self.step {
            LockStep::Fast => true,
            _ => false,
        }
    }

    open spec fn after(&self, reply: Reply) -> Self {
        let step = match self.step {
            LockStep::Fast => if reply.ok {
                LockStep::Locked
            } else {
                LockStep::Contended
            },
            LockStep::Locked => LockStep::Locked,
            LockStep::Contended => LockStep::Contended,
        };
        RawMutexFuture { step, ..*self }
    }

    fn accepts(&self, reply: Reply) -> (accepted: bool) {
        match self.step {
            LockStep::Fast => true,
            _ => false,
        }
    }

    fn access(&self) -> (access: Access) {
        match self.step {
            LockStep::Fast => Access::CompareExchangeWeak(
                Place::Word,
                UNLOCKED,
                LOCKED,
                Order::Acquire,
                Order::Relaxed,
            ),
            LockStep::Locked | LockStep::Contended => Access::Done,
        }
    }

    fn resume(&mut self, reply: Reply, _hints: &mut Hints) {
        self.step =
        match self.step {
            LockStep::Fast => if reply.ok {
                LockStep::Locked
            } else {
                LockStep::Contended
            },
            LockStep::Locked => LockStep::Locked,
            LockStep::Contended => LockStep::Contended,
        };
    }
}

impl Party for RawMutexFuture {
    open spec fn begins(&self) -> bool {
        self.step is Fast
    }

    open spec fn holds(&self, memory: Shared) -> bool {
        self.step is Locked
    }

    open spec fn waiter(&self) -> usize {
        self.waiter
    }

    open spec fn admits(&self, memory: Shared, reply: Reply) -> bool {
        true
    }
}

/// How far an unlock is.
#[derive(Clone, Copy, PartialEq, Eq, Structural, Debug)]
pub enum Unlock {
    /// Clears the held flag of a mutex that nobody waits for.
    Release { fair: bool },
    Released,
}

impl Operation for Unlock {
    open spec fn wf(&self) -> bool {
        true
    }

    open spec fn wants(&self) -> Access {
        match *self {
            Unlock::Release { .. } => Access::CompareExchange(
                Place::Word,
                LOCKED,
                UNLOCKED,
                Order::Release,
                Order::Relaxed,
            ),
            Unlock::Released => Access::Done,
        }
    }

    open spec fn expects(&self, reply: Reply) -> bool {
        match *self {
            Unlock::Release { .. } => true,
            Unlock::Released => false,
        }
    }

    open spec fn after(&self, reply: Reply) -> Self {
        match *self {
            Unlock::Release { .. } => Unlock::Released,
            Unlock::Released => Unlock::Released,
        }
    }

    fn accepts(&self, reply: Reply) -> (accepted: bool) {
        match *self {
            Unlock::Release { .. } => true,
            Unlock::Released => false,
        }
    }

    fn access(&self) -> (access: Access) {
        match *self {
            Unlock::Release { .. } => Access::CompareExchange(
                Place::Word,
                LOCKED,
                UNLOCKED,
                Order::Release,
                Order::Relaxed,
            ),
            Unlock::Released => Access::Done,
        }
    }

    fn resume(&mut self, reply: Reply, _hints: &mut Hints) {
        *self =
        match *self {
            Unlock::Release { .. } => Unlock::Released,
            Unlock::Released => Unlock::Released,
        };
    }
}

impl Party for Unlock {
    open spec fn begins(&self) -> bool {
        self is Release
    }

    open spec fn holds(&self, memory: Shared) -> bool {
        self is Release
    }

    open spec fn waiter(&self) -> usize {
        0
    }

    open spec fn admits(&self, memory: Shared, reply: Reply) -> bool {
        true
    }
}

/// Taking a free mutex that nobody waits for and giving it up again, with nothing
/// in between, succeeds at once and leaves everything as it was.
pub proof fn undisturbed_round_trip(lock: RawMutexFuture, unlock: Unlock, memory: Shared)
    requires
        lock.begins(),
        unlock.begins(),
        memory.word == UNLOCKED,
    ensures
        alone(lock, memory, 1) == (RawMutexFuture { step: LockStep::Locked, ..lock }, Shared { word: LOCKED, ..memory }),
        alone(unlock, Shared { word: LOCKED, ..memory }, 1) == (Unlock::Released, memory),
{
    reveal_with_fuel(alone, 2);
}

/// The mutex of this module, as [`crate::exclusion`] speaks of it. Mutual
/// exclusion, [`crate::exclusion::mutual_exclusion`], holds of it.
pub struct Kind;

impl Encoding for Kind {
    open spec fn is_held(word: usize) -> bool {
        is_locked(word)
    }

    /// Nobody is handed the mutex.
    open spec fn grants(wake: usize) -> bool {
        false
    }
}

impl LockKind for Kind {
    type Try = TryLock;

    type Lock = RawMutexFuture;

    type Unlock = Unlock;

    proof fn try_frame(party: TryLock, memory: Shared, next: Shared) {
        assert(party.waiter() == 0 && party.holds(memory) == party.holds(next));
    }

    proof fn lock_frame(party: RawMutexFuture, memory: Shared, next: Shared) {
        assert(party.waiter() != 0);
        assert(party.begins() ==> !party.holds(memory) || Self::grants(wake_of(memory, party.waiter())));
    }

    proof fn unlock_frame(party: Unlock, memory: Shared, next: Shared) {
        assert(party.waiter() == 0 && party.holds(memory) == party.holds(next));
    }

    proof fn lock_given_up(party: RawMutexFuture, other: RawMutexFuture, memory: Shared) {
        assert(party.gives_up(other) ==> other.waiter() == party.waiter() && other.holds(memory) == party.holds(memory));
    }

    proof fn try_step(party: TryLock, memory: Shared, reply: Reply, next: Shared) {
        try_lock_is_lawful::<Self>(party, memory, reply, next);
    }

    proof fn lock_step(party: RawMutexFuture, memory: Shared, reply: Reply, next: Shared) {
    }

    proof fn unlock_step(party: Unlock, memory: Shared, reply: Reply, next: Shared) {
    }
}

/// Whether the state word has no flag but the held flag, which is set exactly
/// while somebody holds the mutex.
pub open spec fn is_tidy(system: System<Kind>) -> bool {
    &&& system.memory.word == UNLOCKED || system.memory.word == LOCKED
    &&& is_tenanted(system)
}

/// A step keeps the state word tidy.
proof fn step_stays_tidy(system: System<Kind>, t: int, reply: Reply, next: System<Kind>)
    requires
        sound(system),
        is_tidy(system),
        moves(system, t, reply, next),
    ensures
        is_tidy(next),
{
    let thread = (system.threads)(t);
    assert(thread_wf(thread));
    assert(is_locked(LOCKED) && !is_locked(UNLOCKED));
    if Kind::is_held(next.memory.word) {
        if Kind::is_held(system.memory.word) {
            let v = choose|v: int| holds(#[trigger] (system.threads)(v), system.memory);
            assert(holds((next.threads)(v), next.memory));
        } else {
            assert(holds((next.threads)(t), next.memory));
        }
    }
}

/// At every point of every schedule of a mutex that nobody waits for, the state
/// word says that the mutex is held exactly when some thread holds it.
pub proof fn held_mutex_has_a_holder(
    systems: Seq<System<Kind>>,
    who: Seq<int>,
    replies: Seq<Reply>,
    i: int,
)
    requires
        schedule(systems, who, replies),
        systems[0].memory.word == UNLOCKED,
        0 <= i < systems.len(),
    ensures
        is_tidy(systems[i]),
        is_locked(systems[i].memory.word) <==> exists|t: int|
            holds(#[trigger] (systems[i].threads)(t), systems[i].memory),
    decreases i,
{
    always_sound(systems, who, replies, i);
    if i > 0 {
        held_mutex_has_a_holder(systems, who, replies, i - 1);
        always_sound(systems, who, replies, i - 1);
        assert(moves(systems[i - 1], who[i - 1], replies[i - 1], systems[i]));
        step_stays_tidy(systems[i - 1], who[i - 1], replies[i - 1], systems[i]);
    }
    assert(sound(systems[i]));
    assert(Kind::is_held(systems[i].memory.word) == is_locked(systems[i].memory.word));
}

/// Whoever takes the mutex sees what was done under it before.
pub proof fn what_was_done_is_seen(lock: RawMutexFuture, unlock: Unlock)
    ensures
        keeps_the_lock_visible(lock.wants()),
        keeps_the_lock_visible(unlock.wants()),
{
}

} // verus!
