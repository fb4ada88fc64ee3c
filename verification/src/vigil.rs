//! Why a free mutex is not left alone while somebody stands in its queue.
//!
//! A thread is *up* when it is on its way to take the mutex, or was woken to do
//! so. A mutex ([`Vigil`]) shows of each of its operations that a thread which
//! stops being up, or which releases the mutex, leaves the mutex held, the queue
//! empty, or a waiter woken. From that it follows for every history in which
//! nobody gives up who was woken that a free mutex with waiters has a thread
//! that is up: no wake is lost.
use vstd::prelude::*;
use crate::access::{Operation, Reply};
use crate::exclusion::{
    Encoding, LockKind, Party, System, Thread, give_up, holds, thread_wf, waiter, wake_of,
};
use crate::memory::{Shared, performs};
use crate::parking::{
    Parking, Parks, Stand, acts, always_whole, goes_on, history, is_in_order, is_waited_by, knows,
    own_waiter, queue_after, same_waiter, stand_of, stands, step_is_sound, thread_stands, turn,
    whole,
};

verus! {

/// A mutex whose attempts to lock may be given up: which of them are.
pub trait Watched: Parks {
    /// Whether an attempt to lock means to take the mutex, rather than to give
    /// up.
    spec fn strives(lock: Self::Lock) -> bool;

    /// Whether the attempt does not give up after it was woken.
    spec fn heeds(lock: Self::Lock, memory: Shared) -> bool;
}

/// A mutex that looks after its queue: what its single steps leave behind.
pub trait Vigil: Parking + Watched {
    /// Whoever waits outside the queue means to take the mutex.
    proof fn of_striving(lock: Self::Lock)
        requires
            lock.wf(),
        ensures
            Self::lock_stand(lock).waits && !Self::lock_stand(lock).inside ==> Self::strives(lock),
            lock.wants() is Done ==> !Self::strives(lock),
            forall|other: Self::Lock| #[trigger]
                lock.gives_up(other) && Self::strives(lock) ==> Self::strives(other),
    ;

    proof fn try_watches(attempt: Self::Try, memory: Shared, reply: Reply, next: Shared)
        requires
            attempt.wf(),
            !(attempt.wants() is Done),
            attempt.admits(memory, reply),
            performs(memory, attempt.wants(), reply, next),
        ensures
            Self::is_held(memory.word) ==> Self::is_held(next.word),
    ;

    /// An attempt to lock that is not up after its step leaves the mutex held,
    /// the queue empty, or things as they were.
    proof fn lock_watches(lock: Self::Lock, memory: Shared, reply: Reply, next: Shared)
        requires
            lock.wf(),
            !(lock.wants() is Done),
            lock.admits(memory, reply),
            Self::lock_admits(lock, memory, reply),
            Self::lock_knows(lock, memory),
            Self::heeds(lock, memory),
            is_in_order::<Self>(memory),
            stands::<Self>(Self::lock_stand(lock), memory),
            lock.holds(memory) ==> Self::is_held(memory.word),
            performs(memory, lock.wants(), reply, next),
        ensures
            !Self::is_held(next.word) && next.queue.len() > 0 && !lock_is_up::<Self>(
                lock.after(reply),
                next,
            ) ==> {
                ||| Self::lock_stand(lock).roused
                ||| {
                    &&& !lock_is_up::<Self>(lock, memory)
                    &&& !Self::is_held(memory.word)
                    &&& memory.queue.len() > 0
                }
            },
    ;

    /// An unlock that releases a mutex with waiters has woken one of them.
    proof fn unlock_watches(unlock: Self::Unlock, memory: Shared, reply: Reply, next: Shared)
        requires
            unlock.wf(),
            !(unlock.wants() is Done),
            unlock.admits(memory, reply),
            Self::unlock_admits(unlock, memory, reply),
            Self::unlock_knows(unlock, memory),
            is_in_order::<Self>(memory),
            stands::<Self>(Self::unlock_stand(unlock), memory),
            performs(memory, unlock.wants(), reply, next),
        ensures
            Self::is_held(memory.word) && !Self::is_held(next.word) && next.queue.len() > 0
                ==> Self::unlock_stand(unlock).roused,
    ;
}

/// Whether an attempt to lock is on its way to take the mutex, or was woken to do
/// so.
pub open spec fn lock_is_up<K: Watched>(lock: K::Lock, memory: Shared) -> bool {
    &&& K::strives(lock)
    &&& K::lock_stand(lock).waits ==> K::woken(memory, K::lock_stand(lock).own)
}

/// Whether the thread is up.
pub open spec fn is_up<K: Vigil>(thread: Thread<K>, memory: Shared) -> bool {
    match thread {
        Thread::Locking(lock) => lock_is_up::<K>(lock, memory),
        _ => false,
    }
}

/// Whether the thread was woken, and has not locked the queue yet to see it.
pub open spec fn is_roused<K: Vigil>(thread: Thread<K>, memory: Shared) -> bool {
    let stand = stand_of(thread);
    stand.waits && !stand.inside && K::woken(memory, stand.own)
}

/// Whether the waiter that the thread inside has woken is still there, and some
/// thread is up whenever the mutex is free and has waiters.
pub open spec fn is_attended<K: Vigil>(system: System<K>) -> bool {
    let memory = system.memory;
    &&& (exists|t: int| stand_of(#[trigger] (system.threads)(t)).roused) ==> exists|v: int|
        is_roused(#[trigger] (system.threads)(v), memory)
    &&& !K::is_held(memory.word) && memory.queue.len() > 0 ==> exists|v: int|
        is_up(#[trigger] (system.threads)(v), memory)
}

/// A thread that was woken is up.
proof fn roused_is_up<K: Vigil>(system: System<K>, v: int)
    requires
        thread_wf((system.threads)(v)),
        is_roused((system.threads)(v), system.memory),
    ensures
        is_up((system.threads)(v), system.memory),
{
    match (system.threads)(v) {
        Thread::Locking(lock) => {
            K::of_striving(lock);
        },
        Thread::Unlocking(unlock) => {
            K::unlock_knows_frame(unlock, system.memory, system.memory);
        },
        _ => {},
    }
}

/// A waiter that was woken stays so while another thread makes a step.
proof fn woken_stays<K: Vigil>(system: System<K>, t: int, after: Stand, next: Shared, v: int)
    requires
        whole(system),
        goes_on::<K>(stand_of((system.threads)(t)), after, system.memory, next),
        v != t,
        stand_of((system.threads)(v)).waits,
        K::woken(system.memory, stand_of((system.threads)(v)).own),
    ensures
        K::woken(next, stand_of((system.threads)(v)).own),
{
    let memory = system.memory;
    let mine = stand_of((system.threads)(t));
    let node = stand_of((system.threads)(v)).own;
    own_waiter(system, t);
    own_waiter(system, v);
    if mine.grip != node {
        assert(same_waiter(memory, next, node)) by {
            assert(wake_of(next, node) == wake_of(memory, node));
        }
        K::waiter_frame(memory, next, node);
    }
}

/// A thread that is up stays up while another one makes a step.
proof fn still_up<K: Vigil>(system: System<K>, t: int, reply: Reply, next: System<K>, v: int)
    requires
        whole(system),
        forall|other: int|
            other != t ==> #[trigger] (next.threads)(other) == (system.threads)(other),
        acts((system.threads)(t), system.memory, reply, (next.threads)(t), next.memory),
        v != t,
        is_up((system.threads)(v), system.memory),
    ensures
        is_up((next.threads)(v), next.memory),
{
    step_is_sound(system, t, reply, (next.threads)(t), next.memory);
    assert((next.threads)(v) == (system.threads)(v));
    if stand_of((system.threads)(v)).waits {
        woken_stays(system, t, stand_of((next.threads)(t)), next.memory, v);
    }
}

/// The waiter that the thread inside has woken is still there after a step.
proof fn somebody_stays_roused<K: Vigil>(
    system: System<K>,
    t: int,
    reply: Reply,
    next: System<K>,
    u: int,
)
    requires
        whole(system),
        is_attended(system),
        forall|other: int|
            other != t ==> #[trigger] (next.threads)(other) == (system.threads)(other),
        acts((system.threads)(t), system.memory, reply, (next.threads)(t), next.memory),
        stand_of((next.threads)(u)).roused || stand_of((system.threads)(u)).roused,
    ensures
        exists|v: int| is_roused(#[trigger] (next.threads)(v), next.memory),
{
    let memory = system.memory;
    let after = next.memory;
    let mine = stand_of((system.threads)(t));
    let moved = stand_of((next.threads)(t));
    step_is_sound(system, t, reply, (next.threads)(t), after);
    own_waiter(system, t);
    if stand_of((system.threads)(u)).roused {
        own_waiter(system, u);
        let v = choose|v: int| is_roused(#[trigger] (system.threads)(v), memory);
        assert(u != v);
        if v != t {
            woken_stays(system, t, moved, after, v);
            assert((next.threads)(v) == (system.threads)(v));
        } else {
            assert(memory.guarded);
            assert(same_waiter(memory, after, mine.own)) by {
                assert(wake_of(after, mine.own) == wake_of(memory, mine.own));
            }
            K::waiter_frame(memory, after, mine.own);
        }
        assert(is_roused((next.threads)(v), after));
    } else {
        assert(u == t) by {
            if u != t {
                assert((next.threads)(u) == (system.threads)(u));
            }
        }
        let node = mine.grip;
        assert(is_waited_by(system, stand_of((system.threads)(t)).grip));
        let v = choose|v: int|
            stand_of(#[trigger] (system.threads)(v)).waits && stand_of((system.threads)(v)).own
                == node;
        assert(v != t);
        assert((next.threads)(v) == (system.threads)(v));
        assert(stand_of((system.threads)(t)).inside);
        assert(!stand_of((system.threads)(v)).inside);
        assert(is_roused((next.threads)(v), after));
    }
}

/// A free mutex with waiters is not left alone by a step.
proof fn somebody_stays_up<K: Vigil>(system: System<K>, t: int, reply: Reply, next: System<K>)
    requires
        whole(system),
        whole(next),
        is_attended(system),
        forall|other: int|
            other != t ==> #[trigger] (next.threads)(other) == (system.threads)(other),
        acts((system.threads)(t), system.memory, reply, (next.threads)(t), next.memory),
        (system.threads)(t) matches Thread::Locking(lock) ==> K::heeds(lock, system.memory),
        !K::is_held(next.memory.word),
        next.memory.queue.len() > 0,
    ensures
        exists|v: int| is_up(#[trigger] (next.threads)(v), next.memory),
{
    let memory = system.memory;
    let after = next.memory;
    let thread = (system.threads)(t);
    let mine = stand_of(thread);
    let moved = stand_of((next.threads)(t));
    step_is_sound(system, t, reply, (next.threads)(t), after);
    thread_stands(system, t);
    own_waiter(system, t);
    queue_after::<K>(mine, moved, memory, after);
    assert(thread_wf(thread));
    assert(knows(thread, memory));
    assert(holds(thread, memory) ==> K::is_held(memory.word));
    assert(after.queue.contains(after.queue[0]));
    if is_up((next.threads)(t), after) {
    } else if mine.roused && (thread is Locking || K::is_held(memory.word)) {
        somebody_stays_roused(system, t, reply, next, t);
        let v = choose|v: int| is_roused(#[trigger] (next.threads)(v), after);
        assert(thread_wf((next.threads)(v)));
        roused_is_up(next, v);
    } else {
        match thread {
            Thread::Idle => {},
            Thread::Trying(attempt) => {
                K::try_watches(attempt, memory, reply, after);
            },
            Thread::Locking(lock) => {
                K::lock_watches(lock, memory, reply, after);
            },
            Thread::Unlocking(unlock) => {
                K::unlock_watches(unlock, memory, reply, after);
                K::unlock_knows_frame(unlock, memory, memory);
            },
        }
        assert(memory.queue.len() > 0);
        let v = choose|v: int| is_up(#[trigger] (system.threads)(v), memory);
        assert(v != t);
        still_up(system, t, reply, next, v);
    }
}

/// A step keeps the mutex attended, as long as nobody gives up who was woken.
pub proof fn turn_attends<K: Vigil>(system: System<K>, t: int, reply: Reply, next: System<K>)
    requires
        whole(system),
        whole(next),
        is_attended(system),
        turn(system, t, reply, next),
        (system.threads)(t) matches Thread::Locking(lock) ==> K::heeds(lock, system.memory),
    ensures
        is_attended(next),
{
    let memory = system.memory;
    let after = next.memory;
    let thread = (system.threads)(t);
    let moved = (next.threads)(t);
    assert(thread_wf(thread));
    assert(thread_wf(moved));
    if acts(thread, memory, reply, moved, after) {
        if exists|u: int| stand_of(#[trigger] (next.threads)(u)).roused {
            let u = choose|u: int| stand_of(#[trigger] (next.threads)(u)).roused;
            somebody_stays_roused(system, t, reply, next, u);
        }
        if !K::is_held(after.word) && after.queue.len() > 0 {
            somebody_stays_up(system, t, reply, next);
        }
    } else {
        own_waiter(system, t);
        own_waiter(next, t);
        match thread {
            Thread::Locking(lock) => {
                K::of_striving(lock);
                K::lock_knows_frame(lock, memory, memory);
                if give_up(thread, moved) {
                    K::lock_stands_on(lock, moved->Locking_0, memory);
                }
            },
            Thread::Unlocking(unlock) => {
                K::unlock_knows_frame(unlock, memory, memory);
            },
            _ => {},
        }
        match moved {
            Thread::Locking(lock) => {
                K::lock_knows_frame(lock, memory, memory);
            },
            Thread::Unlocking(unlock) => {
                K::unlock_knows_frame(unlock, memory, memory);
            },
            _ => {},
        }
        assert(stand_of(moved).roused ==> stand_of(thread).roused);
        assert(is_roused(thread, memory) ==> is_roused(moved, memory));
        assert(is_up(thread, memory) ==> is_up(moved, memory));
        if exists|u: int| stand_of(#[trigger] (next.threads)(u)).roused {
            let u = choose|u: int| stand_of(#[trigger] (next.threads)(u)).roused;
            assert(stand_of((system.threads)(u)).roused);
            let v = choose|v: int| is_roused(#[trigger] (system.threads)(v), memory);
            assert(is_roused((next.threads)(v), memory));
        }
        if !K::is_held(memory.word) && memory.queue.len() > 0 {
            let v = choose|v: int| is_up(#[trigger] (system.threads)(v), memory);
            assert(is_up((next.threads)(v), memory));
        }
    }
}

/// Whether nobody gives up in a history who was woken.
pub open spec fn is_heeded<K: Vigil>(systems: Seq<System<K>>, who: Seq<int>) -> bool {
    forall|i: int|
        #![trigger who[i]]
        0 <= i < who.len() ==> match (systems[i].threads)(who[i]) {
            Thread::Locking(lock) => K::heeds(lock, systems[i].memory),
            _ => true,
        }
}

/// A history in which nobody gives up who was woken leads through attended
/// systems only.
pub proof fn always_attended<K: Vigil>(
    systems: Seq<System<K>>,
    who: Seq<int>,
    replies: Seq<Reply>,
    i: int,
)
    requires
        history(systems, who, replies),
        is_heeded(systems, who),
        0 <= i < systems.len(),
    ensures
        is_attended(systems[i]),
    decreases i,
{
    if i == 0 {
        assert forall|t: int| (#[trigger] (systems[0].threads)(t)) is Idle by {
        }
    } else {
        always_attended(systems, who, replies, i - 1);
        always_whole(systems, who, replies, i - 1);
        always_whole(systems, who, replies, i);
        assert(turn(systems[i - 1], who[i - 1], replies[i - 1], systems[i]));
        turn_attends(systems[i - 1], who[i - 1], replies[i - 1], systems[i]);
    }
}

/// At no point of a history in which nobody gives up who was woken is a free
/// mutex left alone while somebody stands in its queue: some thread is on its
/// way to take the mutex, or was woken to do so.
pub proof fn free_mutex_is_not_left_alone<K: Vigil>(
    systems: Seq<System<K>>,
    who: Seq<int>,
    replies: Seq<Reply>,
    i: int,
)
    requires
        history(systems, who, replies),
        is_heeded(systems, who),
        0 <= i < systems.len(),
        !K::is_held(systems[i].memory.word),
        systems[i].memory.queue.len() > 0,
    ensures
        exists|v: int| is_up(#[trigger] (systems[i].threads)(v), systems[i].memory),
{
    always_attended(systems, who, replies, i);
}

} // verus!
