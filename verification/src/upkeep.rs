//! Why a free lock is not left alone while somebody waits for it.
//!
//! A thread is *up* when it is on its way to take the lock, when it was woken to
//! do so, or when it looks after the queue on its way out. A lock ([`Upkeep`])
//! shows of each of its operations that a thread which stops being up leaves the
//! lock held, the queue empty, or another thread up. From that it follows for
//! every history that a free lock with waiters has a thread that is up: no wake
//! is lost.
use vstd::prelude::*;
use crate::access::{Operation, Reply};
use crate::exclusion::{Encoding, LockKind, Party, System, Thread, holds, thread_wf, waiter};
use crate::memory::{Shared, performs};
use crate::queue::{
    Picture, Queued, Queueing, acts, always_whole, busy_links_stay, fits, grip_of, has_token,
    history, is_peopled, is_waited_by, is_waiting, same_links, same_wake, starts, step_is_sound,
    turn, unlock_has_token, unlock_step, unlock_touches, whole,
};

verus! {

/// A lock that looks after its queue: what its single steps leave behind.
pub trait Upkeep: Queueing {
    /// Whether an unlock is on its way to look after the queue.
    spec fn tends(unlock: Self::Unlock) -> bool;

    /// An attempt to lock that was handed the flag was woken.
    proof fn lock_is_up(lock: Self::Lock, memory: Shared)
        requires
            lock.wf(),
            Self::lock_knows(lock, memory),
        ensures
            Self::carries(lock, memory) && Self::waits(lock) ==> Self::woken(memory, lock.waiter()),
    ;

    /// An unlock that has the flag for itself looks after the queue.
    proof fn unlock_is_up(unlock: Self::Unlock)
        requires
            unlock.wf(),
        ensures
            unlock_has_token::<Self>(unlock) ==> Self::tends(unlock),
            unlock.wants() is Done ==> !Self::tends(unlock),
    ;

    proof fn try_tends(attempt: Self::Try, memory: Shared, reply: Reply, next: Shared)
        requires
            attempt.wf(),
            !(attempt.wants() is Done),
            attempt.admits(memory, reply),
            Self::is_tidy(memory.word),
            performs(memory, attempt.wants(), reply, next),
        ensures
            Self::is_held(memory.word) ==> Self::is_held(next.word),
    ;

    /// An attempt to lock ends only as the holder, and joins only a queue of a
    /// lock that is held.
    proof fn lock_tends(lock: Self::Lock, memory: Shared, reply: Reply, next: Shared)
        requires
            lock.wf(),
            !(lock.wants() is Done),
            lock.admits(memory, reply),
            Self::is_tidy(memory.word),
            Self::lock_admits(lock, memory, reply),
            Self::lock_knows(lock, memory),
            performs(memory, lock.wants(), reply, next),
            lock.holds(memory) ==> Self::is_held(memory.word),
        ensures
            Self::is_held(memory.word) ==> Self::is_held(next.word),
            Self::joins(lock, reply) ==> Self::is_held(next.word),
            lock.after(reply).wants() is Done ==> Self::is_held(next.word),
            Self::carries(lock, memory) && !Self::carries(lock.after(reply), next) ==> !Self::flag(
                next.word,
            ),
    ;

    /// An unlock stops tending to a free lock with waiters only once it has woken
    /// one of them, or because another thread has the flag.
    proof fn unlock_tends(unlock: Self::Unlock, memory: Shared, reply: Reply, next: Shared)
        requires
            unlock.wf(),
            !(unlock.wants() is Done),
            unlock.admits(memory, reply),
            Self::is_tidy(memory.word),
            Self::unlock_admits(unlock, memory, reply),
            Self::unlock_knows(unlock, memory),
            performs(memory, unlock.wants(), reply, next),
            unlock.holds(memory) ==> Self::is_held(memory.word),
            unlock_step::<Self>(unlock, memory, reply, next),
        ensures
            !Self::is_held(next.word) && Self::newest(next.word) != 0 && !Self::tends(
                unlock.after(reply),
            ) ==> {
                ||| wakes::<Self>(unlock, reply) && Self::woken(next, Self::grip(unlock))
                ||| Self::flagged() && Self::flag(memory.word) && !unlock_has_token::<Self>(unlock)
                    && Self::stage(unlock) is Idle
                ||| !Self::tends(unlock) && !Self::is_held(memory.word) && Self::stage(
                    unlock,
                ) is Idle
            },
            Self::flagged() && unlock_has_token::<Self>(unlock) && !unlock_has_token::<Self>(
                unlock.after(reply),
            ) && Self::flag(next.word) ==> wakes::<Self>(unlock, reply) && Self::passes(unlock),
    ;

    /// The waiter that is woken gets the flag that the unlock passes on.
    proof fn lock_inherits(
        unlock: Self::Unlock,
        lock: Self::Lock,
        memory: Shared,
        reply: Reply,
        next: Shared,
    )
        requires
            lock.wf(),
            unlock.wf(),
            !(unlock.wants() is Done),
            Self::waits(lock),
            Self::lock_knows(lock, memory),
            Self::unlock_knows(unlock, memory),
            Self::grip(unlock) == lock.waiter(),
            Self::unlock_admits(unlock, memory, reply),
            performs(memory, unlock.wants(), reply, next),
        ensures
            wakes::<Self>(unlock, reply) && Self::passes(unlock) ==> Self::carries(lock, next),
    ;
}

/// Whether an unlock wakes the waiter that it has taken off the queue.
pub open spec fn wakes<K: Queued>(unlock: K::Unlock, reply: Reply) -> bool {
    &&& K::stage(unlock) is Idle
    &&& K::grip(unlock) != 0
    &&& K::grip(unlock.after(reply)) == 0
}

/// Whether the thread is up: on its way to take the lock, woken to do so, or on
/// its way to look after the queue.
pub open spec fn is_up<K: Upkeep>(thread: Thread<K>, memory: Shared) -> bool {
    match thread {
        Thread::Locking(lock) => {
            &&& !(lock.wants() is Done)
            &&& K::waits(lock) ==> K::woken(memory, lock.waiter())
        },
        Thread::Unlocking(unlock) => K::tends(unlock),
        _ => false,
    }
}

/// Whether some thread has the flag whenever it is set, and some thread is up
/// whenever the lock is free and has waiters.
pub open spec fn is_attended<K: Upkeep>(system: System<K>) -> bool {
    let memory = system.memory;
    &&& K::flagged() && K::flag(memory.word) ==> exists|t: int|
        has_token(#[trigger] (system.threads)(t), memory)
    &&& !K::is_held(memory.word) && K::newest(memory.word) != 0 ==> exists|t: int|
        is_up(#[trigger] (system.threads)(t), memory)
}

/// A step of another thread leaves the wake state of a waiter alone, unless it
/// wakes it.
pub(crate) proof fn same_wake_for_others<K: Upkeep>(
    system: System<K>,
    picture: Picture,
    t: int,
    reply: Reply,
    next: System<K>,
    v: int,
)
    requires
        whole(system, picture),
        forall|other: int|
            other != t ==> #[trigger] (next.threads)(other) == (system.threads)(other),
        acts((system.threads)(t), system.memory, reply, (next.threads)(t), next.memory),
        v != t,
        (system.threads)(v) is Locking,
        grip_of((system.threads)(t)) != waiter((system.threads)(v)),
    ensures
        same_wake(system.memory, next.memory, waiter((system.threads)(v))),
        !is_waiting((system.threads)(v)) ==> same_links(
            system.memory,
            next.memory,
            waiter((system.threads)(v)),
        ),
{
    let memory = system.memory;
    let after = next.memory;
    let thread = (system.threads)(t);
    let node = waiter((system.threads)(v));
    step_is_sound(system, picture, t, reply, (next.threads)(t), after);
    assert(thread_wf(thread));
    assert(thread_wf((system.threads)(v)));
    assert(fits((system.threads)(v), memory, picture.queue));
    if let Thread::Locking(lock) = (system.threads)(v) {
        K::lock_frame(lock, memory, memory);
    }
    match thread {
        Thread::Locking(mine) => {
            K::lock_frame(mine, memory, memory);
            assert(waiter((system.threads)(t)) == mine.waiter());
            assert(node != mine.waiter());
        },
        Thread::Unlocking(unlock) => {
            unlock_touches::<K>(unlock, memory, reply, after, node);
            if !is_waiting((system.threads)(v)) {
                busy_links_stay(system, picture, t, unlock, reply, after, node);
            }
        },
        _ => {},
    }
}

/// A thread that is up stays up while another one makes a step.
proof fn still_up<K: Upkeep>(
    system: System<K>,
    picture: Picture,
    t: int,
    reply: Reply,
    next: System<K>,
    v: int,
)
    requires
        whole(system, picture),
        forall|other: int|
            other != t ==> #[trigger] (next.threads)(other) == (system.threads)(other),
        acts((system.threads)(t), system.memory, reply, (next.threads)(t), next.memory),
        v != t,
        is_up((system.threads)(v), system.memory),
    ensures
        is_up((next.threads)(v), next.memory),
{
    let memory = system.memory;
    let thread = (system.threads)(v);
    assert((next.threads)(v) == thread);
    if let Thread::Locking(lock) = thread {
        assert(thread_wf(thread));
        K::lock_frame(lock, memory, memory);
        assert(waiter((system.threads)(v)) == lock.waiter());
        if K::waits(lock) {
            assert(grip_of((system.threads)(t)) != lock.waiter()) by {
                assert(thread_wf((system.threads)(t)));
                assert(fits((system.threads)(t), memory, picture.queue));
                if let Thread::Unlocking(unlock) = (system.threads)(t) {
                    K::unlock_knows_frame(unlock, memory, memory);
                }
            }
            same_wake_for_others(system, picture, t, reply, next, v);
            K::node_frame(memory, next.memory, lock.waiter());
        }
    }
}

/// A waiter that was woken is up.
proof fn woken_is_up<K: Upkeep>(
    system: System<K>,
    picture: Picture,
    t: int,
    next: System<K>,
    node: usize,
)
    requires
        whole(system, picture),
        forall|other: int|
            other != t ==> #[trigger] (next.threads)(other) == (system.threads)(other),
        (system.threads)(t) is Unlocking,
        is_waited_by(system, node),
        K::woken(next.memory, node),
    ensures
        exists|v: int| is_up(#[trigger] (next.threads)(v), next.memory),
{
    let memory = system.memory;
    let v = choose|v: int|
        is_waiting(#[trigger] (system.threads)(v)) && waiter((system.threads)(v)) == node;
    assert((next.threads)(v) == (system.threads)(v));
    assert(thread_wf((system.threads)(v)));
    if let Thread::Locking(lock) = (system.threads)(v) {
        K::lock_knows_frame(lock, memory, memory);
    }
    assert(is_up((next.threads)(v), next.memory));
}

/// A thread that has the flag is up.
proof fn token_is_up<K: Upkeep>(system: System<K>, picture: Picture, v: int)
    requires
        whole(system, picture),
        has_token((system.threads)(v), system.memory),
    ensures
        is_up((system.threads)(v), system.memory),
{
    let memory = system.memory;
    let thread = (system.threads)(v);
    assert(thread_wf(thread));
    assert(fits(thread, memory, picture.queue));
    match thread {
        Thread::Locking(lock) => {
            K::lock_knows_frame(lock, memory, memory);
            if K::waits(lock) {
                K::lock_is_up(lock, memory);
            }
        },
        Thread::Unlocking(unlock) => {
            K::unlock_is_up(unlock);
        },
        _ => {},
    }
}

/// The flag is with some thread after a step, if it is still set.
proof fn flag_stays_with_somebody<K: Upkeep>(
    system: System<K>,
    picture: Picture,
    t: int,
    reply: Reply,
    next: System<K>,
)
    requires
        whole(system, picture),
        is_peopled(system, picture.queue),
        is_attended(system),
        forall|other: int|
            other != t ==> #[trigger] (next.threads)(other) == (system.threads)(other),
        acts((system.threads)(t), system.memory, reply, (next.threads)(t), next.memory),
        K::flagged(),
        K::flag(next.memory.word),
    ensures
        exists|v: int| has_token(#[trigger] (next.threads)(v), next.memory),
{
    let memory = system.memory;
    let after = next.memory;
    let thread = (system.threads)(t);
    let moved = (next.threads)(t);
    let queue = picture.queue;
    step_is_sound(system, picture, t, reply, moved, after);
    assert(thread_wf(thread));
    assert(fits(thread, memory, queue));
    if !K::flag(memory.word) {
        assert(has_token((next.threads)(t), after));
    } else {
        let v = choose|v: int| has_token(#[trigger] (system.threads)(v), memory);
        let other = (system.threads)(v);
        assert(thread_wf(other));
        assert(fits(other, memory, queue));
        if v != t {
            assert((next.threads)(v) == other);
            if let Thread::Locking(lock) = other {
                K::lock_frame(lock, memory, memory);
                let node = lock.waiter();
                assert(waiter((system.threads)(v)) == node);
                assert(grip_of((system.threads)(t)) != node) by {
                    if grip_of((system.threads)(t)) == node {
                        assert(waiter((system.threads)(v)) == grip_of((system.threads)(t)));
                        assert(is_waiting((system.threads)(v)));
                        K::lock_is_up(lock, memory);
                        if let Thread::Unlocking(unlock) = thread {
                            K::unlock_knows_frame(unlock, memory, memory);
                        }
                    }
                }
                same_wake_for_others(system, picture, t, reply, next, v);
                K::lock_knows_frame(lock, memory, after);
            }
            assert(has_token((next.threads)(v), after));
        } else {
            match thread {
                Thread::Locking(lock) => {
                    assert(holds(thread, memory) ==> K::is_held(memory.word));
                    K::lock_tends(lock, memory, reply, after);
                    assert(has_token((next.threads)(t), after));
                },
                Thread::Unlocking(unlock) => {
                    assert(holds(thread, memory) ==> K::is_held(memory.word));
                    K::unlock_tends(unlock, memory, reply, after);
                    if unlock_has_token::<K>(unlock.after(reply)) {
                        assert(has_token((next.threads)(t), after));
                    } else {
                        let node = K::grip(unlock);
                        assert(grip_of((system.threads)(t)) == node);
                        assert(is_waited_by(system, grip_of((system.threads)(t))));
                        let u = choose|u: int|
                            is_waiting(#[trigger] (system.threads)(u)) && waiter(
                                (system.threads)(u),
                            ) == node;
                        assert((next.threads)(u) == (system.threads)(u));
                        assert(thread_wf((system.threads)(u)));
                        assert(fits((system.threads)(u), memory, queue));
                        if let Thread::Locking(lock) = (system.threads)(u) {
                            K::lock_inherits(unlock, lock, memory, reply, after);
                        }
                        assert(has_token((next.threads)(u), after));
                    }
                },
                _ => {},
            }
        }
    }
}

/// A free lock with waiters is not left alone by a step.
proof fn somebody_stays_up<K: Upkeep>(
    system: System<K>,
    picture: Picture,
    t: int,
    reply: Reply,
    next: System<K>,
)
    requires
        whole(system, picture),
        is_peopled(system, picture.queue),
        is_attended(system),
        forall|other: int|
            other != t ==> #[trigger] (next.threads)(other) == (system.threads)(other),
        acts((system.threads)(t), system.memory, reply, (next.threads)(t), next.memory),
        !K::is_held(next.memory.word),
        K::newest(next.memory.word) != 0,
    ensures
        exists|v: int| is_up(#[trigger] (next.threads)(v), next.memory),
{
    let memory = system.memory;
    let after = next.memory;
    let thread = (system.threads)(t);
    let moved = (next.threads)(t);
    step_is_sound(system, picture, t, reply, moved, after);
    assert(thread_wf(thread));
    assert(fits(thread, memory, picture.queue));
    assert(holds(thread, memory) ==> K::is_held(memory.word));
    if is_up(moved, after) {
        assert(is_up((next.threads)(t), after));
    } else {
        match thread {
            Thread::Idle => {},
            Thread::Trying(attempt) => {
                K::try_tends(attempt, memory, reply, after);
                let v = choose|v: int| is_up(#[trigger] (system.threads)(v), memory);
                assert(v != t);
                still_up(system, picture, t, reply, next, v);
            },
            Thread::Locking(lock) => {
                K::lock_frame(lock, memory, memory);
                K::lock_step(lock, memory, reply, after);
                K::lock_tends(lock, memory, reply, after);
                let v = choose|v: int| is_up(#[trigger] (system.threads)(v), memory);
                assert(v != t);
                still_up(system, picture, t, reply, next, v);
            },
            Thread::Unlocking(unlock) => {
                K::unlock_tends(unlock, memory, reply, after);
                if wakes::<K>(unlock, reply) && K::woken(after, K::grip(unlock)) {
                    assert(is_waited_by(system, grip_of((system.threads)(t))));
                    woken_is_up(system, picture, t, next, K::grip(unlock));
                } else {
                    let v = if K::flagged() && K::flag(memory.word) && !unlock_has_token::<K>(
                        unlock,
                    ) {
                        choose|v: int| has_token(#[trigger] (system.threads)(v), memory)
                    } else {
                        choose|v: int| is_up(#[trigger] (system.threads)(v), memory)
                    };
                    if K::flagged() && K::flag(memory.word) && !unlock_has_token::<K>(unlock) {
                        token_is_up(system, picture, v);
                    }
                    assert(v != t);
                    still_up(system, picture, t, reply, next, v);
                }
            },
        }
    }
}

/// A step keeps the lock attended.
pub proof fn turn_attends<K: Upkeep>(
    system: System<K>,
    picture: Picture,
    t: int,
    reply: Reply,
    next: System<K>,
)
    requires
        whole(system, picture),
        is_peopled(system, picture.queue),
        is_attended(system),
        turn(system, t, reply, next),
    ensures
        is_attended(next),
{
    let memory = system.memory;
    let thread = (system.threads)(t);
    if acts(thread, memory, reply, (next.threads)(t), next.memory) {
        if K::flagged() && K::flag(next.memory.word) {
            flag_stays_with_somebody(system, picture, t, reply, next);
        }
        if !K::is_held(next.memory.word) && K::newest(next.memory.word) != 0 {
            somebody_stays_up(system, picture, t, reply, next);
        }
    } else {
        assert(starts(system, thread, (next.threads)(t)));
        assert(thread_wf(thread));
        match thread {
            Thread::Locking(lock) => {
                K::lock_knows_frame(lock, memory, memory);
            },
            Thread::Unlocking(unlock) => {
                K::unlock_is_up(unlock);
            },
            _ => {},
        }
        assert(!is_up(thread, memory) && !has_token(thread, memory));
        if K::flagged() && K::flag(memory.word) {
            let v = choose|v: int| has_token(#[trigger] (system.threads)(v), memory);
            assert(v != t);
            assert((next.threads)(v) == (system.threads)(v));
        }
        if !K::is_held(memory.word) && K::newest(memory.word) != 0 {
            let v = choose|v: int| is_up(#[trigger] (system.threads)(v), memory);
            assert(v != t);
            assert((next.threads)(v) == (system.threads)(v));
        }
    }
}

/// A history leads through attended systems only.
pub proof fn always_attended<K: Upkeep>(
    systems: Seq<System<K>>,
    who: Seq<int>,
    replies: Seq<Reply>,
    i: int,
)
    requires
        history(systems, who, replies),
        0 <= i < systems.len(),
    ensures
        is_attended(systems[i]),
    decreases i,
{
    if i == 0 {
        K::of_nodes(systems[0].memory, 0);
    } else {
        always_attended(systems, who, replies, i - 1);
        always_whole(systems, who, replies, i - 1);
        let before = systems[i - 1];
        let picture = choose|picture: Picture|
            #[trigger] whole(before, picture) && is_peopled(before, picture.queue);
        assert(turn(systems[i - 1], who[i - 1], replies[i - 1], systems[i]));
        turn_attends(systems[i - 1], picture, who[i - 1], replies[i - 1], systems[i]);
    }
}

/// At no point of any history is a free lock left alone while somebody waits for
/// it: some thread looks after the queue, is on its way to take the lock, or
/// was woken to do so.
pub proof fn free_lock_is_not_left_alone<K: Upkeep>(
    systems: Seq<System<K>>,
    who: Seq<int>,
    replies: Seq<Reply>,
    i: int,
)
    requires
        history(systems, who, replies),
        0 <= i < systems.len(),
        !K::is_held(systems[i].memory.word),
        K::newest(systems[i].memory.word) != 0,
    ensures
        exists|t: int| is_up(#[trigger] (systems[i].threads)(t), systems[i].memory),
{
    always_attended(systems, who, replies, i);
}

} // verus!
