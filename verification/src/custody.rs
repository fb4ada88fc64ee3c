//! Why a mutex whose state word says that it is held has a holder.
//!
//! A thread that holds the mutex goes on to hold it, clears the held flag, or
//! hands the mutex to a waiter that some thread waits by. A mutex ([`Custody`])
//! shows so of each of its operations, and that only the new holder sets the
//! flag.
//!
//! The one exception is a waiter that was handed the mutex and gives up all the
//! same. Some mutexes then lose the mutex: the held flag stays set, and nobody
//! is left to clear it. [`Held::clings`] says when that does not happen, and the
//! law is about the histories in which it never does. The mutex of
//! [`sync`](crate::sync) unlocks on behalf of such a waiter, so of that one the
//! law holds in every history.
use vstd::prelude::*;
use crate::access::{Operation, Reply};
use crate::exclusion::{
    Encoding, LockKind, Party, System, Thread, give_up, holds, sound, thread_wf, wake_of,
};
use crate::memory::{Shared, alone, performs};
use crate::parking::{
    Parking, Parks, acts, always_whole, goes_on, history, is_in_order, is_waited_by, knows,
    own_waiter, same_waiter, stand_of, stands, starts, step_is_sound, thread_stands, turn, whole,
};
use crate::tenure::is_tenanted;
use crate::try_lock::{IsLocked, TryLock, look_foretells_the_attempt};
use crate::words::is_locked;

verus! {

/// A mutex whose attempts to lock may be given up: which of them lose the mutex.
pub trait Held: Parks {
    /// Whether the attempt does not lose a mutex that it was handed.
    spec fn clings(lock: Self::Lock, memory: Shared) -> bool;
}

/// A mutex that is held only by somebody: what its single steps do.
pub trait Custody: Parking + Held {
    /// Whoever waits outside the queue holds the mutex exactly when it was handed
    /// over.
    proof fn lock_is_handed(lock: Self::Lock, memory: Shared)
        requires
            lock.wf(),
        ensures
            Self::lock_stand(lock).waits && !Self::lock_stand(lock).inside ==> lock.holds(memory)
                == Self::grants(wake_of(memory, lock.waiter())),
            Self::lock_knows(lock, memory) && Self::lock_stand(lock).grip != 0 ==> !Self::grants(
                wake_of(memory, Self::lock_stand(lock).grip),
            ),
    ;

    /// A waiter that is taken off the queue was not handed the mutex yet.
    proof fn unlock_grips(unlock: Self::Unlock, memory: Shared)
        requires
            unlock.wf(),
            Self::unlock_knows(unlock, memory),
        ensures
            Self::unlock_stand(unlock).grip != 0 ==> !Self::grants(
                wake_of(memory, Self::unlock_stand(unlock).grip),
            ),
    ;

    /// Only the attempt that takes the mutex sets the held flag.
    proof fn try_keeps(attempt: Self::Try, memory: Shared, reply: Reply, next: Shared)
        requires
            attempt.wf(),
            !(attempt.wants() is Done),
            attempt.admits(memory, reply),
            performs(memory, attempt.wants(), reply, next),
        ensures
            !Self::is_held(memory.word) && Self::is_held(next.word) ==> attempt.after(reply).holds(
                next,
            ),
            attempt.holds(memory) ==> attempt.after(reply).holds(next),
    ;

    /// Only the attempt that takes the mutex sets the held flag. One that holds
    /// the mutex keeps it, or hands it to the waiter that it wakes.
    proof fn lock_keeps(lock: Self::Lock, memory: Shared, reply: Reply, next: Shared)
        requires
            lock.wf(),
            !(lock.wants() is Done),
            lock.admits(memory, reply),
            Self::lock_admits(lock, memory, reply),
            Self::lock_knows(lock, memory),
            Self::clings(lock, memory),
            is_in_order::<Self>(memory),
            stands::<Self>(Self::lock_stand(lock), memory),
            lock.holds(memory) ==> Self::is_held(memory.word),
            performs(memory, lock.wants(), reply, next),
        ensures
            !Self::is_held(memory.word) && Self::is_held(next.word) ==> lock.after(reply).holds(
                next,
            ),
            lock.holds(memory) && !lock.after(reply).holds(next) && Self::is_held(next.word) ==> {
                &&& Self::lock_stand(lock).grip != 0
                &&& Self::grants(wake_of(next, Self::lock_stand(lock).grip))
            },
    ;

    /// An unlock leaves the held flag set only for the waiter that it hands the
    /// mutex to.
    proof fn unlock_keeps(unlock: Self::Unlock, memory: Shared, reply: Reply, next: Shared)
        requires
            unlock.wf(),
            !(unlock.wants() is Done),
            unlock.admits(memory, reply),
            Self::unlock_admits(unlock, memory, reply),
            Self::unlock_knows(unlock, memory),
            is_in_order::<Self>(memory),
            stands::<Self>(Self::unlock_stand(unlock), memory),
            unlock.holds(memory) ==> Self::is_held(memory.word),
            performs(memory, unlock.wants(), reply, next),
        ensures
            Self::is_held(next.word) ==> Self::is_held(memory.word),
            unlock.holds(memory) && !unlock.after(reply).holds(next) && Self::is_held(next.word)
                ==> {
                &&& Self::unlock_stand(unlock).grip != 0
                &&& Self::grants(wake_of(next, Self::unlock_stand(unlock).grip))
            },
    ;
}

/// A thread that holds the mutex goes on to hold it while another one makes a
/// step.
proof fn still_holds<K: Custody>(
    system: System<K>,
    t: int,
    reply: Reply,
    next: System<K>,
    v: int,
)
    requires
        whole(system),
        forall|other: int|
            other != t ==> #[trigger] (next.threads)(other) == (system.threads)(other),
        acts((system.threads)(t), system.memory, reply, (next.threads)(t), next.memory),
        v != t,
        holds((system.threads)(v), system.memory),
    ensures
        holds((next.threads)(v), next.memory),
{
    let memory = system.memory;
    let after = next.memory;
    let mine = stand_of((system.threads)(t));
    assert((next.threads)(v) == (system.threads)(v));
    assert(thread_wf((system.threads)(v)));
    assert(thread_wf((system.threads)(t)));
    assert(knows((system.threads)(t), memory));
    match (system.threads)(v) {
        Thread::Idle => {},
        Thread::Trying(attempt) => {
            K::try_frame(attempt, memory, after);
        },
        Thread::Locking(lock) => {
            K::lock_frame(lock, memory, after);
            let node = lock.waiter();
            step_is_sound(system, t, reply, (next.threads)(t), after);
            own_waiter(system, t);
            own_waiter(system, v);
            assert(stand_of((system.threads)(v)).own == node);
            assert(mine.grip != node) by {
                if mine.grip == node {
                    assert(is_waited_by(system, stand_of((system.threads)(t)).grip));
                    let u = choose|u: int|
                        stand_of(#[trigger] (system.threads)(u)).waits && stand_of(
                            (system.threads)(u),
                        ).own == node;
                    assert(u == v);
                    assert(stand_of((system.threads)(t)).inside);
                    assert(!stand_of((system.threads)(v)).inside);
                    K::lock_is_handed(lock, memory);
                    match (system.threads)(t) {
                        Thread::Locking(other) => {
                            K::lock_is_handed(other, memory);
                        },
                        Thread::Unlocking(unlock) => {
                            K::unlock_grips(unlock, memory);
                        },
                        _ => {},
                    }
                }
            }
            assert(goes_on::<K>(mine, stand_of((next.threads)(t)), memory, after));
            assert(same_waiter(memory, after, node)) by {
                assert(wake_of(after, node) == wake_of(memory, node));
            }
        },
        Thread::Unlocking(unlock) => {
            K::unlock_frame(unlock, memory, after);
        },
    }
}

/// The waiter that was handed the mutex holds it.
proof fn handed_on<K: Custody>(system: System<K>, t: int, next: System<K>)
    requires
        whole(system),
        forall|other: int|
            other != t ==> #[trigger] (next.threads)(other) == (system.threads)(other),
        stand_of((system.threads)(t)).grip != 0,
        K::grants(wake_of(next.memory, stand_of((system.threads)(t)).grip)),
    ensures
        exists|v: int| holds(#[trigger] (next.threads)(v), next.memory),
{
    let node = stand_of((system.threads)(t)).grip;
    own_waiter(system, t);
    assert(is_waited_by(system, stand_of((system.threads)(t)).grip));
    let v = choose|v: int|
        stand_of(#[trigger] (system.threads)(v)).waits && stand_of((system.threads)(v)).own == node;
    own_waiter(system, v);
    assert(v != t);
    assert((next.threads)(v) == (system.threads)(v));
    assert(thread_wf((system.threads)(v)));
    assert(stand_of((system.threads)(t)).inside);
    assert(!stand_of((system.threads)(v)).inside);
    match (system.threads)(v) {
        Thread::Locking(lock) => {
            K::lock_is_handed(lock, next.memory);
        },
        Thread::Unlocking(unlock) => {
            K::unlock_knows_frame(unlock, system.memory, system.memory);
        },
        _ => {},
    }
    assert(holds((next.threads)(v), next.memory));
}

/// A step leaves a mutex that is held with a holder, unless an attempt loses it.
pub proof fn turn_keeps_custody<K: Custody>(
    system: System<K>,
    t: int,
    reply: Reply,
    next: System<K>,
)
    requires
        whole(system),
        is_tenanted(system),
        turn(system, t, reply, next),
        (system.threads)(t) matches Thread::Locking(lock) ==> K::clings(lock, system.memory),
    ensures
        is_tenanted(next),
{
    let memory = system.memory;
    let after = next.memory;
    let thread = (system.threads)(t);
    assert(thread_wf(thread));
    if K::is_held(after.word) {
        if acts(thread, memory, reply, (next.threads)(t), after) {
            step_is_sound(system, t, reply, (next.threads)(t), after);
            thread_stands(system, t);
            assert(knows(thread, memory));
            assert(holds(thread, memory) ==> K::is_held(memory.word));
            match thread {
                Thread::Idle => {},
                Thread::Trying(attempt) => {
                    K::try_keeps(attempt, memory, reply, after);
                },
                Thread::Locking(lock) => {
                    K::lock_keeps(lock, memory, reply, after);
                },
                Thread::Unlocking(unlock) => {
                    K::unlock_keeps(unlock, memory, reply, after);
                },
            }
            if !K::is_held(memory.word) {
                assert(holds((next.threads)(t), after));
            } else {
                let v = choose|v: int| holds(#[trigger] (system.threads)(v), memory);
                if v != t {
                    still_holds(system, t, reply, next, v);
                } else if !holds((next.threads)(t), after) {
                    handed_on(system, t, next);
                }
            }
        } else {
            let v = choose|v: int| holds(#[trigger] (system.threads)(v), memory);
            if v != t {
                assert((next.threads)(v) == (system.threads)(v));
            } else {
                if give_up(thread, (next.threads)(t)) {
                    K::lock_given_up(thread->Locking_0, (next.threads)(t)->Locking_0, memory);
                } else {
                    assert(starts(system, thread, (next.threads)(t)));
                }
                assert(holds((next.threads)(t), after));
            }
        }
    }
}

/// Whether no attempt loses the mutex in a history.
pub open spec fn is_clung_to<K: Custody>(systems: Seq<System<K>>, who: Seq<int>) -> bool {
    forall|i: int|
        #![trigger who[i]]
        0 <= i < who.len() ==> match (systems[i].threads)(who[i]) {
            Thread::Locking(lock) => K::clings(lock, systems[i].memory),
            _ => true,
        }
}

/// A history in which no attempt loses the mutex leads through systems only in
/// which a mutex that is held has a holder.
proof fn always_tenanted<K: Custody>(
    systems: Seq<System<K>>,
    who: Seq<int>,
    replies: Seq<Reply>,
    i: int,
)
    requires
        history(systems, who, replies),
        is_clung_to(systems, who),
        0 <= i < systems.len(),
    ensures
        is_tenanted(systems[i]),
    decreases i,
{
    if i > 0 {
        always_tenanted(systems, who, replies, i - 1);
        always_whole(systems, who, replies, i - 1);
        assert(turn(systems[i - 1], who[i - 1], replies[i - 1], systems[i]));
        turn_keeps_custody(systems[i - 1], who[i - 1], replies[i - 1], systems[i]);
    }
}

/// At every point of every history in which no attempt loses the mutex, the
/// state word says that the mutex is held exactly when some thread holds it.
pub proof fn held_mutex_has_a_holder<K: Custody>(
    systems: Seq<System<K>>,
    who: Seq<int>,
    replies: Seq<Reply>,
    i: int,
)
    requires
        history(systems, who, replies),
        is_clung_to(systems, who),
        0 <= i < systems.len(),
    ensures
        K::is_held(systems[i].memory.word) <==> exists|t: int|
            holds(#[trigger] (systems[i].threads)(t), systems[i].memory),
{
    always_tenanted(systems, who, replies, i);
    always_whole(systems, who, replies, i);
    assert(sound(systems[i]));
}

/// At every point of every history in which no attempt loses the mutex, a look
/// finds the mutex held exactly when some thread holds it, which is when an
/// attempt to take it would fail; and it changes nothing.
pub proof fn look_finds_the_holder<K: Custody>(
    systems: Seq<System<K>>,
    who: Seq<int>,
    replies: Seq<Reply>,
    i: int,
)
    requires
        history(systems, who, replies),
        is_clung_to(systems, who),
        0 <= i < systems.len(),
        forall|word: usize| #[trigger] K::is_held(word) == is_locked(word),
    ensures
        ({
            let memory = systems[i].memory;
            let held = exists|t: int| holds(#[trigger] (systems[i].threads)(t), memory);
            &&& alone(IsLocked::LoadWord, memory, 1) == (IsLocked::Done { held }, memory)
            &&& held <==> alone(TryLock::LoadWord, memory, 2).0 is Failed
        }),
{
    held_mutex_has_a_holder(systems, who, replies, i);
    look_foretells_the_attempt(systems[i].memory);
}

} // verus!
