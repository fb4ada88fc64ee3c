//! Why the queue of a mutex stays whole that is touched under a lock of its own.
//!
//! A thread locks the queue, changes it, and lets it go again; one thread at a
//! time is *inside*. It may join the queue with its own waiter, take that waiter
//! off again, or take the first waiter off to wake it. [`whole`] says how the
//! queue, the wake states and the operations of all threads fit together. A
//! mutex ([`Parking`]) shows of each of its operations what a single step does.
//! From that it follows, for every history of the mutex, that no operation ever
//! gets a reply that it does not expect, that two threads never hold the mutex,
//! that no waiter is forgotten, and that waiters are woken in the order in which
//! they joined.
use vstd::prelude::*;
use crate::access::{Operation, Place, Reply};
use crate::exclusion::{
    Encoding, LockKind, Party, System, Thread, begin, give_up, go_on, holds, initial, moves, sound,
    step_keeps, steps, thread_wf, waiter, wake_of,
};
use crate::memory::{Shared, at, performs, without};
use crate::words::UNLOCKED;

verus! {

/// Where an operation stands.
pub struct Stand {
    /// Its own waiter, or 0.
    pub own: usize,
    /// Whether it has locked the queue.
    pub inside: bool,
    /// Whether it has joined the queue by its waiter, and not made an end of it.
    pub waits: bool,
    /// The waiter that it has taken off the queue and is waking, or 0.
    pub grip: usize,
    /// Whether it has woken a waiter since it locked the queue.
    pub roused: bool,
}

/// A mutex with a queue of waiters: how its operations and its memory are to be
/// read.
pub trait Parks: LockKind {
    /// Whether the memory beside the waiters is in order.
    spec fn is_tidy(memory: Shared) -> bool;

    /// Whether the state word says that there may be waiters.
    spec fn is_parked(word: usize) -> bool;

    /// Whether a waiter in the queue can be woken.
    spec fn ready(memory: Shared, node: usize) -> bool;

    /// Whether a waiter was woken.
    spec fn woken(memory: Shared, node: usize) -> bool;

    /// Whether a waiter was not used yet.
    spec fn fresh(memory: Shared, node: usize) -> bool;

    spec fn lock_stand(lock: Self::Lock) -> Stand;

    spec fn unlock_stand(unlock: Self::Unlock) -> Stand;

    /// What an attempt to lock knows about the memory.
    spec fn lock_knows(lock: Self::Lock, memory: Shared) -> bool;

    /// What an unlock knows about the memory.
    spec fn unlock_knows(unlock: Self::Unlock, memory: Shared) -> bool;

    /// Whether the histories under study let this reply come now.
    spec fn lock_admits(lock: Self::Lock, memory: Shared, reply: Reply) -> bool;

    spec fn unlock_admits(unlock: Self::Unlock, memory: Shared, reply: Reply) -> bool;
}

/// A mutex that keeps its queue whole: what its single steps do.
pub trait Parking: Parks {
    proof fn of_waiters(memory: Shared, node: usize)
        ensures
            !(Self::ready(memory, node) && Self::woken(memory, node)),
    ;

    /// What is said of a waiter depends on that waiter alone.
    proof fn waiter_frame(memory: Shared, next: Shared, node: usize)
        requires
            same_waiter(memory, next, node),
        ensures
            Self::ready(next, node) == Self::ready(memory, node),
            Self::woken(next, node) == Self::woken(memory, node),
    ;

    proof fn lock_knows_frame(lock: Self::Lock, memory: Shared, next: Shared)
        requires
            lock.wf(),
            same_for::<Self>(Self::lock_stand(lock), memory, next),
        ensures
            Self::lock_knows(lock, memory) ==> Self::lock_knows(lock, next),
            stand_wf(Self::lock_stand(lock)),
            Self::lock_stand(lock).own == lock.waiter(),
            lock.wants() is Done ==> {
                &&& !Self::lock_stand(lock).inside
                &&& !Self::lock_stand(lock).waits
            },
            lock.begins() && Self::fresh(memory, lock.waiter()) ==> {
                &&& !Self::lock_stand(lock).inside
                &&& !Self::lock_stand(lock).waits
                &&& Self::lock_knows(lock, memory)
            },
    ;

    proof fn unlock_knows_frame(unlock: Self::Unlock, memory: Shared, next: Shared)
        requires
            unlock.wf(),
            same_for::<Self>(Self::unlock_stand(unlock), memory, next),
        ensures
            Self::unlock_knows(unlock, memory) ==> Self::unlock_knows(unlock, next),
            stand_wf(Self::unlock_stand(unlock)),
            Self::unlock_stand(unlock).own == 0,
            !Self::unlock_stand(unlock).waits,
            unlock.wants() is Done ==> !Self::unlock_stand(unlock).inside,
            unlock.begins() ==> !Self::unlock_stand(unlock).inside && Self::unlock_knows(
                unlock,
                memory,
            ),
    ;

    /// Giving an attempt up changes nothing about where it stands.
    proof fn lock_stands_on(lock: Self::Lock, other: Self::Lock, memory: Shared)
        requires
            lock.wf(),
        ensures
            lock.gives_up(other) ==> {
                &&& Self::lock_stand(other) == Self::lock_stand(lock)
                &&& Self::lock_knows(lock, memory) ==> Self::lock_knows(other, memory)
            },
    ;

    proof fn try_obeys(attempt: Self::Try, memory: Shared, reply: Reply, next: Shared)
        requires
            attempt.wf(),
            !(attempt.wants() is Done),
            attempt.admits(memory, reply),
            is_in_order::<Self>(memory),
            performs(memory, attempt.wants(), reply, next),
        ensures
            attempt.expects(reply),
            goes_on::<Self>(nowhere(), nowhere(), memory, next),
    ;

    proof fn lock_obeys(lock: Self::Lock, memory: Shared, reply: Reply, next: Shared)
        requires
            lock.wf(),
            !(lock.wants() is Done),
            lock.admits(memory, reply),
            Self::lock_admits(lock, memory, reply),
            Self::lock_knows(lock, memory),
            is_in_order::<Self>(memory),
            stands::<Self>(Self::lock_stand(lock), memory),
            lock.holds(memory) ==> Self::is_held(memory.word),
            performs(memory, lock.wants(), reply, next),
        ensures
            lock.expects(reply),
            Self::lock_knows(lock.after(reply), next),
            goes_on::<Self>(
                Self::lock_stand(lock),
                Self::lock_stand(lock.after(reply)),
                memory,
                next,
            ),
    ;

    proof fn unlock_obeys(unlock: Self::Unlock, memory: Shared, reply: Reply, next: Shared)
        requires
            unlock.wf(),
            !(unlock.wants() is Done),
            unlock.admits(memory, reply),
            Self::unlock_admits(unlock, memory, reply),
            Self::unlock_knows(unlock, memory),
            is_in_order::<Self>(memory),
            stands::<Self>(Self::unlock_stand(unlock), memory),
            unlock.holds(memory) ==> Self::is_held(memory.word),
            performs(memory, unlock.wants(), reply, next),
        ensures
            unlock.expects(reply),
            Self::unlock_knows(unlock.after(reply), next),
            goes_on::<Self>(
                Self::unlock_stand(unlock),
                Self::unlock_stand(unlock.after(reply)),
                memory,
                next,
            ),
    ;
}

/// Whether all that belongs to a waiter is the same.
pub open spec fn same_waiter(memory: Shared, next: Shared, node: usize) -> bool {
    &&& wake_of(next, node) == wake_of(memory, node)
    &&& (next.wakers)(node) == (memory.wakers)(node)
    &&& at(next, Place::Seed(node)) == at(memory, Place::Seed(node))
}

/// Where a thread stands that has nothing to do with the queue.
pub open spec fn nowhere() -> Stand {
    Stand { own: 0, inside: false, waits: false, grip: 0, roused: false }
}

/// Only a thread that has locked the queue takes waiters off it to wake them.
pub open spec fn stand_wf(stand: Stand) -> bool {
    &&& !stand.inside ==> stand.grip == 0 && !stand.roused
    &&& stand.roused ==> stand.grip == 0
}

/// Whether what an operation may know is the same after a step of another
/// thread: its own waiter and the one that it wakes, that there may be waiters,
/// and the queue once it has locked it.
pub open spec fn same_for<K: Parks>(stand: Stand, memory: Shared, next: Shared) -> bool {
    &&& stand.own != 0 && (!stand.waits || stand.inside) ==> same_waiter(memory, next, stand.own)
    &&& stand.grip != 0 ==> same_waiter(memory, next, stand.grip)
    &&& stand.inside ==> {
        &&& next.queue == memory.queue
        &&& K::is_parked(memory.word) ==> K::is_parked(next.word)
        &&& K::is_parked(memory.word) && K::is_held(memory.word) ==> K::is_held(next.word)
    }
}

/// Whether the memory beside the waiters is in order, and the state word tells
/// of the waiters in the queue.
pub open spec fn is_in_order<K: Parks>(memory: Shared) -> bool {
    &&& K::is_tidy(memory)
    &&& memory.queue.len() > 0 ==> K::is_parked(memory.word)
    &&& memory.queue.no_duplicates()
    &&& !memory.queue.contains(0)
}

/// What holds of the queue and the waiter of an operation that stands so.
pub open spec fn stands<K: Parks>(stand: Stand, memory: Shared) -> bool {
    let queue = memory.queue;
    &&& stand.inside ==> memory.guarded
    &&& stand.inside || !memory.guarded ==> forall|node: usize|
        #[trigger] queue.contains(node) && !(stand.inside && node == stand.own) ==> K::ready(
            memory,
            node,
        )
    &&& stand.own != 0 && !stand.waits ==> !queue.contains(stand.own)
    &&& stand.waits && !stand.inside && !memory.guarded ==> queue.contains(stand.own) || K::woken(
        memory,
        stand.own,
    )
    &&& stand.grip != 0 ==> !queue.contains(stand.grip) && stand.grip != stand.own
}

/// What a step may do.
pub open spec fn goes_on<K: Parks>(
    stand: Stand,
    after: Stand,
    memory: Shared,
    next: Shared,
) -> bool {
    let queue = memory.queue;
    &&& after.own == stand.own
    &&& K::is_tidy(next)
    &&& next.queue.len() > 0 ==> K::is_parked(next.word)
    // The lock of the queue.
    &&& if stand.inside {
        next.guarded == after.inside
    } else if after.inside {
        !memory.guarded && next.guarded
    } else {
        next.guarded == memory.guarded
    }
    // The queue, which only the thread inside changes.
    &&& {
        ||| {
            &&& next.queue == queue
            &&& after.waits ==> stand.waits
            &&& after.grip == stand.grip || after.grip == 0 && K::woken(next, stand.grip)
        }
        ||| {
            // It joins.
            &&& stand.inside && after.inside
            &&& next.queue == queue.push(stand.own)
            &&& stand.own != 0
            &&& !stand.waits && after.waits
            &&& after.grip == stand.grip
        }
        ||| {
            // It goes.
            &&& stand.inside && after.inside
            &&& next.queue == without(queue, stand.own)
            &&& stand.waits && !after.waits
            &&& after.grip == stand.grip
        }
        ||| {
            // It takes the first waiter off to wake it.
            &&& stand.inside && after.inside
            &&& queue.len() > 0
            &&& next.queue == queue.skip(1)
            &&& after.waits == stand.waits
            &&& stand.grip == 0
            &&& after.grip == queue[0]
            &&& after.grip != stand.own
        }
    }
    &&& stand.waits && !after.waits ==> !next.queue.contains(stand.own)
    &&& after.roused && !stand.roused ==> stand.grip != 0 && after.grip == 0
    &&& stand.grip != 0 && K::woken(memory, stand.grip) ==> K::woken(next, stand.grip)
    // The waiters, of which it touches its own and the one that it wakes.
    &&& forall|node: usize|
        #![trigger wake_of(next, node)]
        #![trigger (next.wakers)(node)]
        #![trigger at(next, Place::Seed(node))]
        node != stand.grip && (node != stand.own || stand.waits && !stand.inside) ==> same_waiter(
            memory,
            next,
            node,
        )
    // Letting the queue go, and waiting.
    &&& stand.inside && !after.inside && after.waits ==> queue.contains(stand.own) && K::ready(
        next,
        stand.own,
    )
    &&& stand.waits && !stand.inside ==> after.waits
    // The state word, of which only the thread inside clears what tells of
    // waiters.
    &&& !stand.inside ==> {
        &&& K::is_parked(memory.word) ==> K::is_parked(next.word)
        &&& K::is_parked(memory.word) && K::is_held(memory.word) ==> K::is_held(next.word)
    }
}

/// Where the operation of a thread stands.
pub open spec fn stand_of<K: Parking>(thread: Thread<K>) -> Stand {
    match thread {
        Thread::Locking(lock) => K::lock_stand(lock),
        Thread::Unlocking(unlock) => K::unlock_stand(unlock),
        _ => nowhere(),
    }
}

/// What the operation of a thread knows.
pub open spec fn knows<K: Parking>(thread: Thread<K>, memory: Shared) -> bool {
    match thread {
        Thread::Locking(lock) => K::lock_knows(lock, memory),
        Thread::Unlocking(unlock) => K::unlock_knows(unlock, memory),
        _ => true,
    }
}

/// Whether some thread waits by the waiter.
pub open spec fn is_waited_by<K: Parking>(system: System<K>, node: usize) -> bool {
    exists|t: int|
        stand_of(#[trigger] (system.threads)(t)).waits && stand_of((system.threads)(t)).own == node
}

/// Whether the waiter is that of the thread inside, or one that it is waking.
pub open spec fn is_in_hand<K: Parking>(system: System<K>, node: usize) -> bool {
    exists|t: int|
        stand_of(#[trigger] (system.threads)(t)).inside && (stand_of((system.threads)(t)).own
            == node || stand_of((system.threads)(t)).grip == node)
}

/// How the queue, the wake states and the operations of all threads fit
/// together.
pub open spec fn whole<K: Parking>(system: System<K>) -> bool {
    let memory = system.memory;
    let queue = memory.queue;
    &&& sound(system)
    &&& is_in_order::<K>(memory)
    &&& forall|t: int| knows(#[trigger] (system.threads)(t), memory)
    &&& forall|t: int| stand_of(#[trigger] (system.threads)(t)).inside ==> memory.guarded
    &&& forall|t: int, u: int|
        t != u && stand_of(#[trigger] (system.threads)(t)).inside ==> !stand_of(
            #[trigger] (system.threads)(u),
        ).inside
    &&& forall|node: usize| #[trigger] queue.contains(node) ==> is_waited_by(system, node)
    &&& forall|node: usize|
        #[trigger] queue.contains(node) ==> K::ready(memory, node) || is_in_hand(system, node)
    &&& forall|t: int|
        stand_of(#[trigger] (system.threads)(t)).own != 0 && !stand_of((system.threads)(t)).waits
            ==> !queue.contains(stand_of((system.threads)(t)).own)
    &&& forall|t: int|
        stand_of(#[trigger] (system.threads)(t)).waits ==> is_minded(
            system,
            stand_of((system.threads)(t)).own,
        )
    &&& forall|t: int|
        stand_of(#[trigger] (system.threads)(t)).grip != 0 ==> {
            let node = stand_of((system.threads)(t)).grip;
            &&& !queue.contains(node)
            &&& node != stand_of((system.threads)(t)).own
            &&& is_waited_by(system, node)
        }
}

/// Whether a thread that waits is not forgotten: its waiter stands in the
/// queue, some thread has it in hand, or it was woken.
pub open spec fn is_minded<K: Parking>(system: System<K>, node: usize) -> bool {
    ||| system.memory.queue.contains(node)
    ||| is_in_hand(system, node)
    ||| K::woken(system.memory, node)
}

/// A thread begins an operation. A new waiter was not used yet.
pub open spec fn starts<K: Parking>(
    system: System<K>,
    thread: Thread<K>,
    next: Thread<K>,
) -> bool {
    &&& begin(system, thread, next)
    &&& next matches Thread::Locking(lock) ==> K::fresh(system.memory, lock.waiter())
}

/// A thread makes the access its operation wants, and gets any reply that the
/// access can have.
pub open spec fn acts<K: Parking>(
    thread: Thread<K>,
    memory: Shared,
    reply: Reply,
    after: Thread<K>,
    next: Shared,
) -> bool {
    match thread {
        Thread::Idle => false,
        Thread::Trying(party) => {
            &&& !(party.wants() is Done)
            &&& party.admits(memory, reply)
            &&& performs(memory, party.wants(), reply, next)
            &&& after == Thread::<K>::Trying(party.after(reply))
        },
        Thread::Locking(party) => {
            &&& !(party.wants() is Done)
            &&& party.admits(memory, reply)
            &&& K::lock_admits(party, memory, reply)
            &&& performs(memory, party.wants(), reply, next)
            &&& after == Thread::<K>::Locking(party.after(reply))
        },
        Thread::Unlocking(party) => {
            &&& !(party.wants() is Done)
            &&& party.admits(memory, reply)
            &&& K::unlock_admits(party, memory, reply)
            &&& performs(memory, party.wants(), reply, next)
            &&& after == Thread::<K>::Unlocking(party.after(reply))
        },
    }
}

/// Whether the reply is one that the operation of the thread expects.
pub open spec fn expected<K: Parking>(thread: Thread<K>, reply: Reply) -> bool {
    match thread {
        Thread::Idle => true,
        Thread::Trying(party) => party.expects(reply),
        Thread::Locking(party) => party.expects(reply),
        Thread::Unlocking(party) => party.expects(reply),
    }
}

/// One step of the system, made by thread `t`.
pub open spec fn turn<K: Parking>(
    system: System<K>,
    t: int,
    reply: Reply,
    next: System<K>,
) -> bool {
    &&& forall|other: int|
        other != t ==> #[trigger] (next.threads)(other) == (system.threads)(other)
    &&& {
        ||| starts(system, (system.threads)(t), (next.threads)(t)) && next.memory == system.memory
        ||| give_up((system.threads)(t), (next.threads)(t)) && next.memory == system.memory
        ||| acts((system.threads)(t), system.memory, reply, (next.threads)(t), next.memory)
    }
}

/// The waiter of a thread is its own.
pub(crate) proof fn own_waiter<K: Parking>(system: System<K>, t: int)
    requires
        whole(system),
    ensures
        stand_wf(stand_of((system.threads)(t))),
        stand_of((system.threads)(t)).own == waiter((system.threads)(t)),
        stand_of((system.threads)(t)).waits ==> stand_of((system.threads)(t)).own != 0,
        forall|u: int|
            u != t && stand_of((system.threads)(t)).own != 0 ==> stand_of(
                #[trigger] (system.threads)(u),
            ).own != stand_of((system.threads)(t)).own,
{
    let memory = system.memory;
    assert forall|u: int|
        stand_of(#[trigger] (system.threads)(u)).own == waiter((system.threads)(u)) && stand_wf(
            stand_of((system.threads)(u)),
        ) && (stand_of((system.threads)(u)).waits ==> stand_of((system.threads)(u)).own != 0) by {
        assert(thread_wf((system.threads)(u)));
        match (system.threads)(u) {
            Thread::Locking(lock) => {
                K::lock_knows_frame(lock, memory, memory);
                K::lock_frame(lock, memory, memory);
            },
            Thread::Unlocking(unlock) => {
                K::unlock_knows_frame(unlock, memory, memory);
            },
            _ => {},
        }
    }
    assert(stand_of((system.threads)(t)).own == waiter((system.threads)(t)));
    assert forall|u: int|
        u != t && stand_of((system.threads)(t)).own != 0 implies stand_of(
        #[trigger] (system.threads)(u),
    ).own != stand_of((system.threads)(t)).own by {
        assert(stand_of((system.threads)(u)).own == waiter((system.threads)(u)));
        assert(waiter((system.threads)(t)) != 0);
    }
}

/// What holds of the queue and the waiter of any thread.
pub(crate) proof fn thread_stands<K: Parking>(system: System<K>, t: int)
    requires
        whole(system),
    ensures
        stands::<K>(stand_of((system.threads)(t)), system.memory),
{
    let memory = system.memory;
    let queue = memory.queue;
    let stand = stand_of((system.threads)(t));
    own_waiter(system, t);
    assert(stand.inside || !memory.guarded ==> forall|node: usize|
        #[trigger] queue.contains(node) && !(stand.inside && node == stand.own) ==> K::ready(
            memory,
            node,
        )) by {
        assert forall|node: usize|
            (stand.inside || !memory.guarded) && #[trigger] queue.contains(node) && !(stand.inside
                && node == stand.own) implies K::ready(memory, node) by {
            if is_in_hand(system, node) {
                let u = choose|u: int|
                    stand_of(#[trigger] (system.threads)(u)).inside && (stand_of(
                        (system.threads)(u),
                    ).own == node || stand_of((system.threads)(u)).grip == node);
                assert(u == t);
                assert(stand_of((system.threads)(t)).grip == node);
                assert(node != 0);
            }
        }
    }
    if stand.waits && !stand.inside && !memory.guarded {
        assert(is_minded(system, stand_of((system.threads)(t)).own));
        assert(!is_in_hand(system, stand.own));
    }
}

/// No reply comes that the operation does not expect, and the step is one that
/// the mutex allows.
pub(crate) proof fn step_is_sound<K: Parking>(
    system: System<K>,
    t: int,
    reply: Reply,
    after: Thread<K>,
    next: Shared,
)
    requires
        whole(system),
        acts((system.threads)(t), system.memory, reply, after, next),
    ensures
        expected((system.threads)(t), reply),
        knows(after, next),
        goes_on::<K>(stand_of((system.threads)(t)), stand_of(after), system.memory, next),
{
    let thread = (system.threads)(t);
    let memory = system.memory;
    thread_stands(system, t);
    assert(knows(thread, memory));
    assert(thread_wf(thread));
    assert(holds(thread, memory) ==> K::is_held(memory.word));
    match thread {
        Thread::Idle => {},
        Thread::Trying(party) => {
            K::try_obeys(party, memory, reply, next);
        },
        Thread::Locking(party) => {
            K::lock_obeys(party, memory, reply, next);
        },
        Thread::Unlocking(party) => {
            K::unlock_obeys(party, memory, reply, next);
        },
    }
}

/// What another thread knows is not touched by a step.
proof fn others_know<K: Parking>(
    system: System<K>,
    t: int,
    after: Stand,
    next: Shared,
    v: int,
)
    requires
        whole(system),
        goes_on::<K>(stand_of((system.threads)(t)), after, system.memory, next),
        v != t,
    ensures
        same_for::<K>(stand_of((system.threads)(v)), system.memory, next),
        knows((system.threads)(v), next),
{
    let memory = system.memory;
    let mine = stand_of((system.threads)(t));
    let theirs = stand_of((system.threads)(v));
    own_waiter(system, t);
    own_waiter(system, v);
    assert(knows((system.threads)(v), memory));
    assert(thread_wf((system.threads)(v)));
    if theirs.own != 0 && (!theirs.waits || theirs.inside) {
        if mine.grip == theirs.own {
            assert(is_waited_by(system, stand_of((system.threads)(t)).grip));
            let w = choose|w: int|
                stand_of(#[trigger] (system.threads)(w)).waits && stand_of(
                    (system.threads)(w),
                ).own == theirs.own;
            assert(w == v);
        }
        assert(same_waiter(memory, next, theirs.own)) by {
            assert(wake_of(next, theirs.own) == wake_of(memory, theirs.own));
        }
    }
    if theirs.grip != 0 {
        assert(is_waited_by(system, stand_of((system.threads)(v)).grip));
        let w = choose|w: int|
            stand_of(#[trigger] (system.threads)(w)).waits && stand_of((system.threads)(w)).own
                == theirs.grip;
        assert(mine.own == theirs.grip ==> w == t);
        assert(same_waiter(memory, next, theirs.grip)) by {
            assert(wake_of(next, theirs.grip) == wake_of(memory, theirs.grip));
        }
    }
    match (system.threads)(v) {
        Thread::Locking(lock) => {
            K::lock_knows_frame(lock, memory, next);
        },
        Thread::Unlocking(unlock) => {
            K::unlock_knows_frame(unlock, memory, next);
        },
        _ => {},
    }
}

/// The waiters without one of them.
pub(crate) proof fn without_one(queue: Seq<usize>, node: usize)
    requires
        queue.no_duplicates(),
    ensures
        without(queue, node).no_duplicates(),
        forall|other: usize|
            #[trigger] without(queue, node).contains(other) <==> queue.contains(other) && other
                != node,
        !queue.contains(node) ==> without(queue, node) == queue,
    decreases queue.len(),
{
    reveal(Seq::filter);
    if queue.len() > 0 {
        let shorter = queue.drop_last();
        let last = queue.last();
        assert(queue == shorter.push(last));
        assert(shorter.no_duplicates());
        without_one(shorter, node);
        assert forall|other: usize| queue.contains(other) <==> shorter.contains(other) || other
            == last by {
            if queue.contains(other) {
                let i = choose|i: int| 0 <= i < queue.len() && queue[i] == other;
                if i < shorter.len() {
                    assert(shorter[i] == other);
                }
            }
            if shorter.contains(other) {
                let i = choose|i: int| 0 <= i < shorter.len() && shorter[i] == other;
                assert(queue[i] == other);
            }
            if other == last {
                assert(queue[queue.len() - 1] == other);
            }
        }
        assert(!shorter.contains(last)) by {
            if shorter.contains(last) {
                let i = choose|i: int| 0 <= i < shorter.len() && shorter[i] == last;
                assert(queue[i] == queue[queue.len() - 1]);
            }
        }
        let rest = without(shorter, node);
        if last != node {
            assert(without(queue, node) == rest.push(last));
            assert(!rest.contains(last));
            assert(rest.push(last).no_duplicates());
            assert forall|other: usize| #[trigger] rest.push(last).contains(other) <==> rest.contains(
                other,
            ) || other == last by {
                if rest.contains(other) {
                    let i = choose|i: int| 0 <= i < rest.len() && rest[i] == other;
                    assert(rest.push(last)[i] == other);
                }
                if other == last {
                    assert(rest.push(last)[rest.len() as int] == last);
                }
                if rest.push(last).contains(other) {
                    let i = choose|i: int|
                        0 <= i < rest.push(last).len() && rest.push(last)[i] == other;
                    if i < rest.len() {
                        assert(rest[i] == other);
                    }
                }
            }
        } else {
            assert(without(queue, node) == rest);
        }
    }
}

/// The queue after a step.
pub(crate) proof fn queue_after<K: Parks>(
    stand: Stand,
    after: Stand,
    memory: Shared,
    next: Shared,
)
    requires
        goes_on::<K>(stand, after, memory, next),
        is_in_order::<K>(memory),
        stand.own != 0 && !stand.waits ==> !memory.queue.contains(stand.own),
    ensures
        is_in_order::<K>(next),
        forall|node: usize|
            #[trigger] next.queue.contains(node) ==> memory.queue.contains(node) || node
                == stand.own && after.waits && !stand.waits,
        forall|node: usize|
            memory.queue.contains(node) && !(#[trigger] next.queue.contains(node)) ==> {
                ||| node == after.grip && after.inside
                ||| node == stand.own && !after.waits
            },
        after.grip != 0 && after.grip != stand.grip ==> memory.queue.contains(after.grip)
            && !next.queue.contains(after.grip),
        !stand.inside || !after.inside ==> next.queue == memory.queue,
{
    let queue = memory.queue;
    let own = stand.own;
    without_one(queue, own);
    if next.queue == queue {
    } else if next.queue == queue.push(own) && !stand.waits {
        let longer = next.queue;
        assert forall|node: usize| #[trigger] longer.contains(node) <==> queue.contains(node)
            || node == own by {
            if longer.contains(node) {
                let i = choose|i: int| 0 <= i < longer.len() && longer[i] == node;
                if i < queue.len() {
                    assert(queue[i] == node);
                }
            }
            if queue.contains(node) {
                let i = choose|i: int| 0 <= i < queue.len() && queue[i] == node;
                assert(longer[i] == node);
            }
            if node == own {
                assert(longer[queue.len() as int] == node);
            }
        }
        assert(longer.no_duplicates()) by {
            assert forall|i: int, j: int|
                0 <= i < longer.len() && 0 <= j < longer.len() && i != j implies longer[i]
                != longer[j] by {
                if i < queue.len() {
                    assert(queue.contains(queue[i]));
                }
                if j < queue.len() {
                    assert(queue.contains(queue[j]));
                }
            }
        }
    } else if next.queue == without(queue, own) && stand.waits && !after.waits {
    } else {
        let shorter = next.queue;
        assert(shorter == queue.skip(1));
        assert forall|node: usize| #[trigger] shorter.contains(node) <==> queue.contains(node)
            && node != queue[0] by {
            if shorter.contains(node) {
                let i = choose|i: int| 0 <= i < shorter.len() && shorter[i] == node;
                assert(queue[i + 1] == node);
            }
            if queue.contains(node) && node != queue[0] {
                let i = choose|i: int| 0 <= i < queue.len() && queue[i] == node;
                assert(shorter[i - 1] == node);
            }
        }
        assert(queue.contains(queue[0]));
    }
}

/// A step keeps the queue whole.
#[verifier::spinoff_prover]
#[verifier::rlimit(40)]
proof fn step_keeps_whole<K: Parking>(system: System<K>, t: int, reply: Reply, next: System<K>)
    requires
        whole(system),
        sound(next),
        forall|other: int|
            other != t ==> #[trigger] (next.threads)(other) == (system.threads)(other),
        acts((system.threads)(t), system.memory, reply, (next.threads)(t), next.memory),
    ensures
        whole(next),
{
    let memory = system.memory;
    let after = next.memory;
    let queue = memory.queue;
    let longer = after.queue;
    let mine = stand_of((system.threads)(t));
    let moved = stand_of((next.threads)(t));
    step_is_sound(system, t, reply, (next.threads)(t), after);
    own_waiter(system, t);
    queue_after::<K>(mine, moved, memory, after);
    assert(stand_wf(moved)) by {
        assert(thread_wf((next.threads)(t)));
        match (next.threads)(t) {
            Thread::Locking(lock) => {
                K::lock_knows_frame(lock, after, after);
            },
            Thread::Unlocking(unlock) => {
                K::unlock_knows_frame(unlock, after, after);
            },
            _ => {},
        }
    }
    assert forall|v: int| knows(#[trigger] (next.threads)(v), after) by {
        if v != t {
            assert((next.threads)(v) == (system.threads)(v));
            others_know(system, t, moved, after, v);
        }
    }
    assert forall|v: int| stand_of(#[trigger] (next.threads)(v)).inside implies after.guarded by {
        assert(v != t ==> (next.threads)(v) == (system.threads)(v));
    }
    assert forall|u: int, v: int|
        u != v && stand_of(#[trigger] (next.threads)(u)).inside implies !stand_of(
        #[trigger] (next.threads)(v),
    ).inside by {
        assert(u != t ==> (next.threads)(u) == (system.threads)(u));
        assert(v != t ==> (next.threads)(v) == (system.threads)(v));
    }
    assert forall|node: usize|
        is_waited_by(system, node) && (node != mine.own || moved.waits) implies #[trigger] is_waited_by(
        next,
        node,
    ) by {
        still_waited_by(system, t, next, node);
    }
    assert forall|node: usize| #[trigger] longer.contains(node) implies is_waited_by(next, node) by {
        if queue.contains(node) {
            assert(is_waited_by(system, node));
        } else {
            assert(stand_of((next.threads)(t)).waits && stand_of((next.threads)(t)).own == node);
        }
    }
    assert forall|v: int|
        stand_of(#[trigger] (next.threads)(v)).own != 0 && !stand_of(
            (next.threads)(v),
        ).waits implies !longer.contains(stand_of((next.threads)(v)).own) by {
        if v != t {
            assert((next.threads)(v) == (system.threads)(v));
            assert(!queue.contains(stand_of((system.threads)(v)).own));
        }
    }
    assert forall|node: usize| #[trigger] longer.contains(node) implies K::ready(after, node)
        || is_in_hand(next, node) by {
        stays_ready(system, t, reply, next, node);
    }
    assert forall|v: int| stand_of(#[trigger] (next.threads)(v)).waits implies is_minded(
        next,
        stand_of((next.threads)(v)).own,
    ) by {
        stays_minded(system, t, reply, next, v);
    }
    assert forall|v: int| stand_of(#[trigger] (next.threads)(v)).grip != 0 implies ({
        let node = stand_of((next.threads)(v)).grip;
        &&& !longer.contains(node)
        &&& node != stand_of((next.threads)(v)).own
        &&& is_waited_by(next, node)
    }) by {
        let node = stand_of((next.threads)(v)).grip;
        if v != t {
            assert((next.threads)(v) == (system.threads)(v));
            own_waiter(system, v);
            assert(stand_of((system.threads)(v)).inside);
            assert(is_waited_by(system, node));
            assert(!mine.inside);
        } else if moved.grip == mine.grip {
            assert(is_waited_by(system, stand_of((system.threads)(t)).grip));
        } else {
            assert(queue.contains(node));
            assert(is_waited_by(system, node));
        }
    }
}

/// A thread that waits by a waiter still does so, unless it makes an end of it.
pub(crate) proof fn still_waited_by<K: Parking>(system: System<K>, t: int, next: System<K>, node: usize)
    requires
        forall|other: int|
            other != t ==> #[trigger] (next.threads)(other) == (system.threads)(other),
        is_waited_by(system, node),
        node != stand_of((system.threads)(t)).own || stand_of((next.threads)(t)).waits,
        stand_of((next.threads)(t)).own == stand_of((system.threads)(t)).own,
    ensures
        is_waited_by(next, node),
{
    let v = choose|v: int|
        stand_of(#[trigger] (system.threads)(v)).waits && stand_of((system.threads)(v)).own == node;
    assert(stand_of((next.threads)(v)).waits && stand_of((next.threads)(v)).own == node) by {
        if v != t {
            assert((next.threads)(v) == (system.threads)(v));
        }
    }
}

/// A waiter that another thread has in hand stays there.
proof fn still_in_hand<K: Parking>(system: System<K>, t: int, next: System<K>, u: int, node: usize)
    requires
        forall|other: int|
            other != t ==> #[trigger] (next.threads)(other) == (system.threads)(other),
        u != t,
        stand_of((system.threads)(u)).inside,
        stand_of((system.threads)(u)).own == node || stand_of((system.threads)(u)).grip == node,
    ensures
        is_in_hand(next, node),
{
    assert((next.threads)(u) == (system.threads)(u));
    assert(stand_of((next.threads)(u)).inside);
}

/// A waiter in the queue can be woken after a step, or is in hand.
proof fn stays_ready<K: Parking>(
    system: System<K>,
    t: int,
    reply: Reply,
    next: System<K>,
    node: usize,
)
    requires
        whole(system),
        forall|other: int|
            other != t ==> #[trigger] (next.threads)(other) == (system.threads)(other),
        acts((system.threads)(t), system.memory, reply, (next.threads)(t), next.memory),
        next.memory.queue.contains(node),
    ensures
        K::ready(next.memory, node) || is_in_hand(next, node),
{
    let memory = system.memory;
    let after = next.memory;
    let queue = memory.queue;
    let mine = stand_of((system.threads)(t));
    let moved = stand_of((next.threads)(t));
    step_is_sound(system, t, reply, (next.threads)(t), after);
    own_waiter(system, t);
    queue_after::<K>(mine, moved, memory, after);
    if node == mine.own && moved.inside {
        assert(stand_of((next.threads)(t)).inside && stand_of((next.threads)(t)).own == node);
    } else if node == mine.own && mine.inside {
        assert(moved.waits);
    } else {
        assert(queue.contains(node));
        assert(node != mine.grip) by {
            if mine.grip == node {
                assert(stand_of((system.threads)(t)).grip == node);
                assert(node != 0);
            }
        }
        if is_in_hand(system, node) {
            let u = choose|u: int|
                stand_of(#[trigger] (system.threads)(u)).inside && (stand_of(
                    (system.threads)(u),
                ).own == node || stand_of((system.threads)(u)).grip == node);
            assert(u != t);
            still_in_hand(system, t, next, u, node);
        } else {
            assert(K::ready(memory, node));
            assert(node == mine.own ==> mine.waits);
            assert(same_waiter(memory, after, node)) by {
                assert(wake_of(after, node) == wake_of(memory, node));
            }
            K::waiter_frame(memory, after, node);
        }
    }
}

/// A thread that waits after a step is not forgotten.
proof fn stays_minded<K: Parking>(
    system: System<K>,
    t: int,
    reply: Reply,
    next: System<K>,
    v: int,
)
    requires
        whole(system),
        forall|other: int|
            other != t ==> #[trigger] (next.threads)(other) == (system.threads)(other),
        acts((system.threads)(t), system.memory, reply, (next.threads)(t), next.memory),
        stand_of((next.threads)(v)).waits,
        stand_wf(stand_of((next.threads)(t))),
    ensures
        is_minded(next, stand_of((next.threads)(v)).own),
{
    let memory = system.memory;
    let after = next.memory;
    let queue = memory.queue;
    let mine = stand_of((system.threads)(t));
    let moved = stand_of((next.threads)(t));
    let node = stand_of((next.threads)(v)).own;
    step_is_sound(system, t, reply, (next.threads)(t), after);
    own_waiter(system, t);
    own_waiter(system, v);
    queue_after::<K>(mine, moved, memory, after);
    if v == t && moved.inside {
        assert(stand_of((next.threads)(t)).inside && stand_of((next.threads)(t)).own == node);
    } else if v == t && mine.inside {
    } else {
        if v != t {
            assert((next.threads)(v) == (system.threads)(v));
        }
        assert(stand_of((system.threads)(v)).waits && stand_of((system.threads)(v)).own == node);
        assert(is_minded(system, stand_of((system.threads)(v)).own));
        if mine.grip == node {
            if moved.grip == node {
                assert(stand_of((next.threads)(t)).inside && stand_of((next.threads)(t)).grip
                    == node);
            }
        } else if queue.contains(node) {
            if !after.queue.contains(node) {
                assert(stand_of((next.threads)(t)).inside && stand_of((next.threads)(t)).grip
                    == node);
            }
        } else if is_in_hand(system, node) {
            let u = choose|u: int|
                stand_of(#[trigger] (system.threads)(u)).inside && (stand_of(
                    (system.threads)(u),
                ).own == node || stand_of((system.threads)(u)).grip == node);
            assert(u != t);
            still_in_hand(system, t, next, u, node);
        } else {
            assert(K::woken(memory, node));
            assert(same_waiter(memory, after, node)) by {
                assert(wake_of(after, node) == wake_of(memory, node));
            }
            K::waiter_frame(memory, after, node);
        }
    }
}

/// Whether a step lets waiters in and out in turn: it leaves the queue as it is,
/// lets a thread join at its end, lets a thread that gives up go, or takes the
/// first waiter off to wake it.
pub open spec fn goes_in_turn<K: Parking>(
    queue: Seq<usize>,
    next_queue: Seq<usize>,
    thread: Thread<K>,
    moved: Thread<K>,
) -> bool {
    ||| next_queue == queue
    ||| stand_of(moved).waits && next_queue == queue.push(waiter(thread))
    ||| !stand_of(moved).waits && next_queue == without(queue, waiter(thread))
    ||| queue.len() > 0 && next_queue == queue.skip(1) && stand_of(moved).grip == queue[0]
}

/// A step keeps the queue whole, and lets waiters in and out in turn: those who
/// join first are woken first.
pub proof fn turn_keeps<K: Parking>(system: System<K>, t: int, reply: Reply, next: System<K>)
    requires
        whole(system),
        turn(system, t, reply, next),
    ensures
        moves(system, t, reply, next),
        whole(next),
        goes_in_turn(
            system.memory.queue,
            next.memory.queue,
            (system.threads)(t),
            (next.threads)(t),
        ),
{
    let thread = (system.threads)(t);
    let moved = (next.threads)(t);
    let memory = system.memory;
    own_waiter(system, t);
    assert(thread_wf(thread));
    if acts(thread, memory, reply, moved, next.memory) {
        step_is_sound(system, t, reply, moved, next.memory);
        assert(go_on(thread, memory, reply, moved, next.memory));
        step_keeps(system, t, reply, next);
        step_keeps_whole(system, t, reply, next);
    } else {
        step_keeps(system, t, reply, next);
        assert(knows(thread, memory));
        assert(thread_wf(moved));
        match thread {
            Thread::Locking(lock) => {
                K::lock_knows_frame(lock, memory, memory);
                if give_up(thread, moved) {
                    K::lock_stands_on(lock, moved->Locking_0, memory);
                }
            },
            Thread::Unlocking(unlock) => {
                K::unlock_knows_frame(unlock, memory, memory);
            },
            _ => {},
        }
        match moved {
            Thread::Locking(lock) => {
                K::lock_knows_frame(lock, memory, memory);
            },
            Thread::Unlocking(unlock) => {
                K::unlock_knows_frame(unlock, memory, memory);
            },
            _ => {},
        }
        assert(knows(moved, memory));
        rest_stays(system, t, next);
    }
}

/// A system whose memory is the same, and in which one thread has begun or given
/// up something, is whole.
proof fn rest_stays<K: Parking>(system: System<K>, t: int, next: System<K>)
    requires
        whole(system),
        sound(next),
        next.memory == system.memory,
        forall|other: int|
            other != t ==> #[trigger] (next.threads)(other) == (system.threads)(other),
        knows((next.threads)(t), next.memory),
        stand_wf(stand_of((next.threads)(t))),
        stand_of((next.threads)(t)).own == waiter((next.threads)(t)),
        ({
            ||| stand_of((next.threads)(t)) == stand_of((system.threads)(t))
            ||| {
                &&& !stand_of((system.threads)(t)).inside && !stand_of((system.threads)(t)).waits
                &&& !stand_of((next.threads)(t)).inside && !stand_of((next.threads)(t)).waits
                &&& waiter((next.threads)(t)) != 0 ==> forall|u: int|
                    waiter(#[trigger] (system.threads)(u)) != waiter((next.threads)(t))
            }
        }),
    ensures
        whole(next),
{
    let memory = system.memory;
    let queue = memory.queue;
    let mine = stand_of((system.threads)(t));
    let moved = stand_of((next.threads)(t));
    own_waiter(system, t);
    assert forall|node: usize| is_waited_by(system, node) implies #[trigger] is_waited_by(
        next,
        node,
    ) by {
        let v = choose|v: int|
            stand_of(#[trigger] (system.threads)(v)).waits && stand_of((system.threads)(v)).own
                == node;
        assert(stand_of((next.threads)(v)).waits && stand_of((next.threads)(v)).own == node);
    }
    assert forall|node: usize| is_in_hand(system, node) implies #[trigger] is_in_hand(
        next,
        node,
    ) by {
        let v = choose|v: int|
            stand_of(#[trigger] (system.threads)(v)).inside && (stand_of((system.threads)(v)).own
                == node || stand_of((system.threads)(v)).grip == node);
        assert(stand_of((next.threads)(v)).inside);
    }
    assert forall|v: int| knows(#[trigger] (next.threads)(v), memory) by {
        if v != t {
            assert(knows((system.threads)(v), memory));
        }
    }
    assert forall|v: int| stand_of(#[trigger] (next.threads)(v)).inside implies memory.guarded by {
        assert(stand_of((system.threads)(v)).inside);
    }
    assert forall|u: int, v: int|
        u != v && stand_of(#[trigger] (next.threads)(u)).inside implies !stand_of(
        #[trigger] (next.threads)(v),
    ).inside by {
        assert(stand_of((system.threads)(u)).inside);
        assert(!stand_of((system.threads)(v)).inside);
    }
    assert forall|v: int|
        stand_of(#[trigger] (next.threads)(v)).own != 0 && !stand_of(
            (next.threads)(v),
        ).waits implies !queue.contains(stand_of((next.threads)(v)).own) by {
        if v != t || moved == mine {
            assert(!queue.contains(stand_of((system.threads)(v)).own));
        } else if queue.contains(moved.own) {
            assert(is_waited_by(system, moved.own));
            let w = choose|w: int|
                stand_of(#[trigger] (system.threads)(w)).waits && stand_of(
                    (system.threads)(w),
                ).own == moved.own;
            own_waiter(system, w);
            assert(waiter((system.threads)(w)) == moved.own);
        }
    }
    assert forall|v: int| stand_of(#[trigger] (next.threads)(v)).waits implies is_minded(
        next,
        stand_of((next.threads)(v)).own,
    ) by {
        assert(stand_of((system.threads)(v)).waits);
        assert(stand_of((system.threads)(v)).own == stand_of((next.threads)(v)).own);
        assert(is_minded(system, stand_of((system.threads)(v)).own));
    }
    assert forall|v: int| stand_of(#[trigger] (next.threads)(v)).grip != 0 implies ({
        let node = stand_of((next.threads)(v)).grip;
        &&& !queue.contains(node)
        &&& node != stand_of((next.threads)(v)).own
        &&& is_waited_by(next, node)
    }) by {
        assert(stand_of((next.threads)(v)) == stand_of((system.threads)(v)));
        assert(is_waited_by(system, stand_of((system.threads)(v)).grip));
    }
}

/// A history: systems each of which is one step from the one before, from a free
/// mutex that no thread has touched on.
pub open spec fn history<K: Parking>(
    systems: Seq<System<K>>,
    who: Seq<int>,
    replies: Seq<Reply>,
) -> bool {
    &&& systems.len() > 0
    &&& who.len() == systems.len() - 1
    &&& replies.len() == systems.len() - 1
    &&& initial(systems[0])
    &&& systems[0].memory.word == UNLOCKED
    &&& systems[0].memory.queue == Seq::<usize>::empty()
    &&& K::is_tidy(systems[0].memory)
    &&& forall|i: int|
        0 <= i < systems.len() - 1 ==> turn(
            systems[i],
            #[trigger] who[i],
            replies[i],
            systems[i + 1],
        )
}

/// A history leads through whole systems only.
pub proof fn always_whole<K: Parking>(
    systems: Seq<System<K>>,
    who: Seq<int>,
    replies: Seq<Reply>,
    i: int,
)
    requires
        history(systems, who, replies),
        0 <= i < systems.len(),
    ensures
        whole(systems[i]),
    decreases i,
{
    if i == 0 {
        let system = systems[0];
        assert forall|t: int| (#[trigger] (system.threads)(t)) is Idle by {
        }
    } else {
        always_whole(systems, who, replies, i - 1);
        assert(turn(systems[i - 1], who[i - 1], replies[i - 1], systems[i]));
        turn_keeps(systems[i - 1], who[i - 1], replies[i - 1], systems[i]);
    }
}

/// At no point of any history does an operation get a reply that it does not
/// expect: whatever the next access of a thread gives back, the operation goes
/// on from it.
pub proof fn every_reply_is_expected<K: Parking>(
    systems: Seq<System<K>>,
    who: Seq<int>,
    replies: Seq<Reply>,
    i: int,
    t: int,
    reply: Reply,
    after: Thread<K>,
    next: Shared,
)
    requires
        history(systems, who, replies),
        0 <= i < systems.len(),
        acts((systems[i].threads)(t), systems[i].memory, reply, after, next),
    ensures
        expected((systems[i].threads)(t), reply),
{
    always_whole(systems, who, replies, i);
    step_is_sound(systems[i], t, reply, after, next);
}

/// At no point of any history do two threads hold the mutex.
pub proof fn one_holder<K: Parking>(
    systems: Seq<System<K>>,
    who: Seq<int>,
    replies: Seq<Reply>,
    i: int,
    t: int,
    u: int,
)
    requires
        history(systems, who, replies),
        0 <= i < systems.len(),
        holds((systems[i].threads)(t), systems[i].memory),
        holds((systems[i].threads)(u), systems[i].memory),
    ensures
        t == u,
        K::is_held(systems[i].memory.word),
{
    always_whole(systems, who, replies, i);
    let system = systems[i];
    let one = (system.threads)(t);
    let two = (system.threads)(u);
    assert(sound(system));
}

/// At no point of any history is a thread that waits forgotten: its waiter
/// stands in the queue of the mutex, or a thread has it in hand, or it was
/// woken.
pub proof fn nobody_is_forgotten<K: Parking>(
    systems: Seq<System<K>>,
    who: Seq<int>,
    replies: Seq<Reply>,
    i: int,
    t: int,
)
    requires
        history(systems, who, replies),
        0 <= i < systems.len(),
        stand_of((systems[i].threads)(t)).waits,
    ensures
        is_minded(systems[i], waiter((systems[i].threads)(t))),
{
    always_whole(systems, who, replies, i);
    let system = systems[i];
    own_waiter(system, t);
    assert(is_minded(system, stand_of((system.threads)(t)).own));
}

} // verus!
