//! Why a lock whose state word says that it is held has a holder.
//!
//! A thread that holds the lock goes on to hold it, clears the held flag, or
//! hands the lock to a waiter that some thread waits by. A lock ([`Tenure`])
//! shows so of each of its operations, and that only the new holder sets the
//! flag. With [`one_holder`](crate::queue::one_holder) it follows for every
//! history that the state word says that the lock is held exactly when one
//! thread holds it.
use vstd::prelude::*;
use crate::access::{Operation, Reply};
use crate::exclusion::{
    Encoding, LockKind, Party, System, Thread, holds, sound, thread_wf, waiter, wake_of,
};
use crate::memory::{Shared, alone, performs};
use crate::queue::{
    Picture, acts, always_whole, fits, grip_of, history, is_peopled, is_waited_by, is_waiting,
    starts, step_is_sound, turn, unlock_step, whole,
};
use crate::try_lock::{IsLocked, TryLock, look_foretells_the_attempt};
use crate::upkeep::{Upkeep, same_wake_for_others};
use crate::words::is_locked;

verus! {

/// A lock that is held only by somebody: what its single steps do.
pub trait Tenure: Upkeep {
    /// Whoever waits holds the lock once it was handed over, and was woken then.
    proof fn lock_is_handed(lock: Self::Lock, memory: Shared)
        requires
            lock.wf(),
            Self::waits(lock),
        ensures
            Self::grants(wake_of(memory, lock.waiter())) ==> lock.holds(memory),
            Self::lock_knows(lock, memory) && lock.holds(memory) ==> Self::woken(
                memory,
                lock.waiter(),
            ),
    ;

    /// Only the attempt that takes the lock sets the held flag.
    proof fn try_keeps(attempt: Self::Try, memory: Shared, reply: Reply, next: Shared)
        requires
            attempt.wf(),
            !(attempt.wants() is Done),
            attempt.admits(memory, reply),
            Self::is_tidy(memory.word),
            performs(memory, attempt.wants(), reply, next),
        ensures
            !Self::is_held(memory.word) && Self::is_held(next.word) ==> attempt.after(reply).holds(
                next,
            ),
            attempt.holds(memory) ==> attempt.after(reply).holds(next),
    ;

    /// Only the attempt that takes the lock sets the held flag, and one that was
    /// handed the lock keeps it.
    proof fn lock_keeps(lock: Self::Lock, memory: Shared, reply: Reply, next: Shared)
        requires
            lock.wf(),
            !(lock.wants() is Done),
            lock.admits(memory, reply),
            Self::is_tidy(memory.word),
            Self::lock_admits(lock, memory, reply),
            Self::lock_knows(lock, memory),
            performs(memory, lock.wants(), reply, next),
            lock.holds(memory) ==> Self::is_held(memory.word),
        ensures
            !Self::is_held(memory.word) && Self::is_held(next.word) ==> lock.after(reply).holds(
                next,
            ),
            lock.holds(memory) ==> lock.after(reply).holds(next),
    ;

    /// An unlock leaves the held flag set only for the waiter that it hands the
    /// lock to.
    proof fn unlock_keeps(unlock: Self::Unlock, memory: Shared, reply: Reply, next: Shared)
        requires
            unlock.wf(),
            !(unlock.wants() is Done),
            unlock.admits(memory, reply),
            Self::is_tidy(memory.word),
            Self::unlock_admits(unlock, memory, reply),
            Self::unlock_knows(unlock, memory),
            performs(memory, unlock.wants(), reply, next),
            unlock.holds(memory) ==> Self::is_held(memory.word),
            unlock_step::<Self>(unlock, memory, reply, next),
        ensures
            Self::is_held(next.word) ==> Self::is_held(memory.word),
            unlock.holds(memory) && !unlock.after(reply).holds(next) && Self::is_held(next.word)
                ==> Self::grip(unlock) != 0 && Self::grants(wake_of(next, Self::grip(unlock))),
    ;
}

/// Whether some thread holds the lock whenever the state word says that it is
/// held.
pub open spec fn is_tenanted<K: LockKind>(system: System<K>) -> bool {
    K::is_held(system.memory.word) ==> exists|t: int|
        holds(#[trigger] (system.threads)(t), system.memory)
}

/// A thread that holds the lock goes on to hold it while another one makes a
/// step.
proof fn still_holds<K: Tenure>(
    system: System<K>,
    picture: Picture,
    t: int,
    reply: Reply,
    next: System<K>,
    v: int,
)
    requires
        whole(system, picture),
        forall|other: int|
            other != t ==> #[trigger] (next.threads)(other) == (system.threads)(other),
        acts((system.threads)(t), system.memory, reply, (next.threads)(t), next.memory),
        v != t,
        holds((system.threads)(v), system.memory),
    ensures
        holds((next.threads)(v), next.memory),
{
    let memory = system.memory;
    let after = next.memory;
    assert((next.threads)(v) == (system.threads)(v));
    assert(thread_wf((system.threads)(v)));
    assert(fits((system.threads)(v), memory, picture.queue));
    match (system.threads)(v) {
        Thread::Idle => {},
        Thread::Trying(attempt) => {
            K::try_frame(attempt, memory, after);
        },
        Thread::Locking(lock) => {
            K::lock_frame(lock, memory, after);
            let node = lock.waiter();
            assert(waiter((system.threads)(v)) == node);
            assert(grip_of((system.threads)(t)) != node) by {
                assert(thread_wf((system.threads)(t)));
                assert(fits((system.threads)(t), memory, picture.queue));
                if grip_of((system.threads)(t)) == node {
                    assert(waiter((system.threads)(v)) == grip_of((system.threads)(t)));
                    assert(is_waiting((system.threads)(v)));
                    K::lock_is_handed(lock, memory);
                    if let Thread::Unlocking(unlock) = (system.threads)(t) {
                        K::unlock_knows_frame(unlock, memory, memory);
                    }
                }
            }
            same_wake_for_others(system, picture, t, reply, next, v);
        },
        Thread::Unlocking(unlock) => {
            K::unlock_frame(unlock, memory, after);
        },
    }
}

/// The waiter that was handed the lock holds it.
proof fn handed_on<K: Tenure>(system: System<K>, t: int, next: System<K>, node: usize)
    requires
        sound(system),
        forall|other: int|
            other != t ==> #[trigger] (next.threads)(other) == (system.threads)(other),
        (system.threads)(t) is Unlocking,
        is_waited_by(system, node),
        K::grants(wake_of(next.memory, node)),
    ensures
        exists|v: int| holds(#[trigger] (next.threads)(v), next.memory),
{
    let v = choose|v: int|
        is_waiting(#[trigger] (system.threads)(v)) && waiter((system.threads)(v)) == node;
    assert((next.threads)(v) == (system.threads)(v));
    assert(thread_wf((system.threads)(v)));
    if let Thread::Locking(lock) = (system.threads)(v) {
        K::lock_is_handed(lock, next.memory);
    }
    assert(holds((next.threads)(v), next.memory));
}

/// A step leaves a lock that is held with a holder.
pub proof fn turn_keeps_tenure<K: Tenure>(
    system: System<K>,
    picture: Picture,
    t: int,
    reply: Reply,
    next: System<K>,
)
    requires
        whole(system, picture),
        is_peopled(system, picture.queue),
        is_tenanted(system),
        turn(system, t, reply, next),
    ensures
        is_tenanted(next),
{
    let memory = system.memory;
    let after = next.memory;
    let thread = (system.threads)(t);
    assert(thread_wf(thread));
    if K::is_held(after.word) {
        if acts(thread, memory, reply, (next.threads)(t), after) {
            step_is_sound(system, picture, t, reply, (next.threads)(t), after);
            assert(fits(thread, memory, picture.queue));
            assert(holds(thread, memory) ==> K::is_held(memory.word));
            match thread {
                Thread::Idle => {},
                Thread::Trying(attempt) => {
                    K::try_keeps(attempt, memory, reply, after);
                },
                Thread::Locking(lock) => {
                    K::lock_keeps(lock, memory, reply, after);
                },
                Thread::Unlocking(unlock) => {
                    K::unlock_keeps(unlock, memory, reply, after);
                },
            }
            if !K::is_held(memory.word) {
                assert(holds((next.threads)(t), after));
            } else {
                let v = choose|v: int| holds(#[trigger] (system.threads)(v), memory);
                if v != t {
                    still_holds(system, picture, t, reply, next, v);
                } else if !holds((next.threads)(t), after) {
                    let node = grip_of((system.threads)(t));
                    assert(is_waited_by(system, node));
                    handed_on(system, t, next, node);
                }
            }
        } else {
            assert(starts(system, thread, (next.threads)(t)));
            let v = choose|v: int| holds(#[trigger] (system.threads)(v), memory);
            if v != t {
                assert((next.threads)(v) == (system.threads)(v));
            } else {
                assert(holds((next.threads)(t), after));
            }
        }
    }
}

/// A history leads through systems only in which a lock that is held has a
/// holder.
proof fn always_tenanted<K: Tenure>(
    systems: Seq<System<K>>,
    who: Seq<int>,
    replies: Seq<Reply>,
    i: int,
)
    requires
        history(systems, who, replies),
        0 <= i < systems.len(),
    ensures
        is_tenanted(systems[i]),
    decreases i,
{
    if i > 0 {
        always_tenanted(systems, who, replies, i - 1);
        always_whole(systems, who, replies, i - 1);
        let before = systems[i - 1];
        let picture = choose|picture: Picture|
            #[trigger] whole(before, picture) && is_peopled(before, picture.queue);
        assert(turn(systems[i - 1], who[i - 1], replies[i - 1], systems[i]));
        turn_keeps_tenure(systems[i - 1], picture, who[i - 1], replies[i - 1], systems[i]);
    }
}

/// At every point of every history, the state word says that the lock is held
/// exactly when some thread holds it.
pub proof fn held_lock_has_a_holder<K: Tenure>(
    systems: Seq<System<K>>,
    who: Seq<int>,
    replies: Seq<Reply>,
    i: int,
)
    requires
        history(systems, who, replies),
        0 <= i < systems.len(),
    ensures
        K::is_held(systems[i].memory.word) <==> exists|t: int|
            holds(#[trigger] (systems[i].threads)(t), systems[i].memory),
{
    always_tenanted(systems, who, replies, i);
    always_whole(systems, who, replies, i);
    let picture = choose|picture: Picture|
        #[trigger] whole(systems[i], picture) && is_peopled(systems[i], picture.queue);
    assert(sound(systems[i]));
}

/// At every point of every history of a lock whose held flag is the lowest bit
/// of its state word, a look finds the lock held exactly when some thread holds
/// it, which is when an attempt to take it would fail; and it changes nothing.
pub proof fn look_finds_the_holder<K: Tenure>(
    systems: Seq<System<K>>,
    who: Seq<int>,
    replies: Seq<Reply>,
    i: int,
)
    requires
        history(systems, who, replies),
        0 <= i < systems.len(),
        forall|word: usize| #[trigger] K::is_held(word) == is_locked(word),
    ensures
        ({
            let memory = systems[i].memory;
            let held = exists|t: int| holds(#[trigger] (systems[i].threads)(t), memory);
            &&& alone(IsLocked::LoadWord, memory, 1) == (IsLocked::Done { held }, memory)
            &&& held <==> alone(TryLock::LoadWord, memory, 2).0 is Failed
        }),
{
    held_lock_has_a_holder(systems, who, replies, i);
    look_foretells_the_attempt(systems[i].memory);
}

} // verus!
