//! Why the queue that threads its way through the waiters of a lock stays whole.
//!
//! Threads join the queue at any time, and one thread at a time takes waiters
//! off it: the one that has set a flag for it, or the one that holds the lock.
//! [`whole`] says how the state word, the links, the wake states and the
//! operations of all threads fit together. A lock ([`Queueing`]) shows of each
//! of its operations what a single step does. From that it follows, for every
//! history of the lock, that no operation ever gets a reply that it does not
//! expect, that two threads never hold the lock, that no waiter is forgotten,
//! and that waiters are woken in the order in which they joined.
use vstd::prelude::*;
use crate::access::{Access, Link, Operation, Place, Reply};
use crate::exclusion::{
    Encoding, LockKind, Party, System, Thread, begin, go_on, holds, initial, moves, sound,
    step_keeps, steps, thread_wf, waiter, wake_of,
};
use crate::memory::{Shared, at, performs};
use crate::tail::{Search, SearchStep, link};
use crate::words::UNLOCKED;

verus! {

/// What an unlock has to do with the queue.
pub enum Stage {
    /// Nothing.
    Idle,
    /// It is about to look for the oldest waiter, and knows that there is one.
    Poised,
    /// It is about to look for the oldest waiter, from the one that was the
    /// newest.
    Ready { head: usize },
    /// It looks for the oldest waiter, from the one that was the newest.
    Find { head: usize, search: Search },
    /// It has found the oldest waiter, and leaves it alone.
    Settled { head: usize },
    /// It has found the oldest waiter.
    Found { head: usize, tail: usize },
    /// It makes the next oldest waiter the oldest one.
    Cut { head: usize, tail: usize, prev: usize },
    /// It takes the only waiter off the queue.
    Last { head: usize, tail: usize },
    /// It has taken a waiter off the queue, and lets others at it again.
    Leaving,
}

/// A lock whose waiters form a queue that threads its way through them: how its
/// operations and its memory are to be read.
pub trait Queued: LockKind {
    /// The newest waiter of a state word, or 0.
    spec fn newest(word: usize) -> usize;

    /// Whether the address can be that of a waiter.
    spec fn is_node(node: usize) -> bool;

    /// Whether a flag in the state word says that a thread is at the queue.
    /// Otherwise that thread holds the lock.
    spec fn flagged() -> bool;

    spec fn flag(word: usize) -> bool;

    /// Whether the state word is one that the lock can have.
    spec fn is_tidy(word: usize) -> bool;

    /// Whether a waiter in the queue can be woken.
    spec fn ready(memory: Shared, node: usize) -> bool;

    /// Whether a waiter was woken.
    spec fn woken(memory: Shared, node: usize) -> bool;

    /// Whether a waiter was not used yet.
    spec fn fresh(memory: Shared, node: usize) -> bool;

    /// Whether an attempt to lock waits by its waiter, rather than having it
    /// for itself.
    spec fn waits(lock: Self::Lock) -> bool;

    /// Whether an attempt to lock joins the queue when it gets this reply.
    spec fn joins(lock: Self::Lock, reply: Reply) -> bool;

    /// What an attempt to lock knows about its waiter.
    spec fn lock_knows(lock: Self::Lock, memory: Shared) -> bool;

    /// Whether an attempt to lock was handed the flag.
    spec fn carries(lock: Self::Lock, memory: Shared) -> bool;

    spec fn stage(unlock: Self::Unlock) -> Stage;

    /// Whether an unlock that has found the oldest waiter reads its prev link.
    spec fn reads_prev(unlock: Self::Unlock) -> bool;

    /// The waiter that an unlock has taken off the queue and not woken yet,
    /// or 0.
    spec fn grip(unlock: Self::Unlock) -> usize;

    /// Whether an unlock hands the flag to the waiter that it wakes.
    spec fn passes(unlock: Self::Unlock) -> bool;

    /// What an unlock knows about the waiter that it has taken off the queue.
    spec fn unlock_knows(unlock: Self::Unlock, memory: Shared) -> bool;

    /// Whether the histories under study let this reply come now.
    spec fn lock_admits(lock: Self::Lock, memory: Shared, reply: Reply) -> bool;

    spec fn unlock_admits(unlock: Self::Unlock, memory: Shared, reply: Reply) -> bool;
}

/// A lock that keeps its queue whole: what its single steps do.
pub trait Queueing: Queued {
    proof fn of_nodes(memory: Shared, node: usize)
        ensures
            Self::is_node(node) ==> node != 0,
            !(Self::ready(memory, node) && Self::woken(memory, node)),
            Self::newest(UNLOCKED) == 0,
            Self::is_tidy(UNLOCKED),
            !Self::flag(UNLOCKED),
    ;

    /// What is said of a waiter depends on its wake state and its waker alone.
    proof fn node_frame(memory: Shared, next: Shared, node: usize)
        requires
            same_wake(memory, next, node),
        ensures
            Self::ready(next, node) == Self::ready(memory, node),
            Self::woken(next, node) == Self::woken(memory, node),
    ;

    proof fn lock_knows_frame(lock: Self::Lock, memory: Shared, next: Shared)
        requires
            lock.wf(),
            same_wake(memory, next, lock.waiter()),
            !Self::waits(lock) ==> same_links(memory, next, lock.waiter()),
        ensures
            Self::lock_knows(lock, memory) ==> Self::lock_knows(lock, next),
            Self::carries(lock, next) == Self::carries(lock, memory),
            Self::is_node(lock.waiter()),
            lock.wants() is Done ==> !Self::waits(lock) && !Self::carries(lock, memory),
            lock.begins() && Self::fresh(memory, lock.waiter()) ==> {
                &&& !Self::waits(lock)
                &&& !Self::carries(lock, memory)
                &&& Self::lock_knows(lock, memory)
            },
    ;

    proof fn unlock_knows_frame(unlock: Self::Unlock, memory: Shared, next: Shared)
        requires
            unlock.wf(),
            Self::grip(unlock) != 0 ==> same_wake(memory, next, Self::grip(unlock)),
        ensures
            Self::unlock_knows(unlock, memory) ==> Self::unlock_knows(unlock, next),
            Self::unlock_knows(unlock, memory) && Self::grip(unlock) != 0 ==> !Self::woken(
                memory,
                Self::grip(unlock),
            ),
            Self::grip(unlock) != 0 ==> Self::stage(unlock) is Idle || Self::stage(unlock)
                is Leaving,
            unlock.begins() || unlock.wants() is Done ==> {
                &&& Self::stage(unlock) is Idle
                &&& Self::grip(unlock) == 0
                &&& !Self::passes(unlock)
                &&& Self::unlock_knows(unlock, memory)
            },
            !Self::flagged() && !(Self::stage(unlock) is Idle) ==> unlock.holds(memory),
            Self::stage(unlock) matches Stage::Find { search, .. } ==> unlock.wants()
                == search.wants(),
    ;

    proof fn try_obeys(attempt: Self::Try, memory: Shared, reply: Reply, next: Shared)
        requires
            attempt.wf(),
            !(attempt.wants() is Done),
            attempt.admits(memory, reply),
            Self::is_tidy(memory.word),
            performs(memory, attempt.wants(), reply, next),
        ensures
            try_step::<Self>(attempt, memory, reply, next),
    ;

    proof fn lock_obeys(lock: Self::Lock, memory: Shared, reply: Reply, next: Shared)
        requires
            lock.wf(),
            !(lock.wants() is Done),
            lock.admits(memory, reply),
            Self::is_tidy(memory.word),
            Self::lock_admits(lock, memory, reply),
            Self::lock_knows(lock, memory),
            performs(memory, lock.wants(), reply, next),
        ensures
            lock_step::<Self>(lock, memory, reply, next),
    ;

    /// An attempt to lock that waits leaves its waiter to the thread that wakes
    /// it.
    proof fn lock_obeys_grip(
        lock: Self::Lock,
        unlock: Self::Unlock,
        memory: Shared,
        reply: Reply,
        next: Shared,
    )
        requires
            lock.wf(),
            unlock.wf(),
            !(lock.wants() is Done),
            Self::waits(lock),
            Self::lock_knows(lock, memory),
            Self::unlock_knows(unlock, memory),
            Self::grip(unlock) == lock.waiter(),
            Self::lock_admits(lock, memory, reply),
            performs(memory, lock.wants(), reply, next),
        ensures
            Self::unlock_knows(unlock, next),
    ;

    proof fn unlock_obeys(unlock: Self::Unlock, memory: Shared, reply: Reply, next: Shared)
        requires
            unlock.wf(),
            !(unlock.wants() is Done),
            unlock.admits(memory, reply),
            Self::is_tidy(memory.word),
            Self::unlock_admits(unlock, memory, reply),
            Self::unlock_knows(unlock, memory),
            performs(memory, unlock.wants(), reply, next),
            unlock.holds(memory) ==> Self::is_held(memory.word),
            !(Self::stage(unlock) is Idle) ==> Self::newest(memory.word) != 0,
            Self::flagged() && (!(Self::stage(unlock) is Idle) || Self::passes(unlock))
                ==> Self::flag(memory.word),
            Self::stage(unlock) matches Stage::Find { search, .. } ==> search.expects(reply),
        ensures
            unlock_step::<Self>(unlock, memory, reply, next),
    ;

    /// An unlock that wakes a waiter leaves the attempt to lock that waits by it
    /// something to go on with.
    proof fn unlock_obeys_lock(
        unlock: Self::Unlock,
        lock: Self::Lock,
        memory: Shared,
        reply: Reply,
        next: Shared,
    )
        requires
            lock.wf(),
            unlock.wf(),
            !(unlock.wants() is Done),
            Self::waits(lock),
            Self::lock_knows(lock, memory),
            Self::unlock_knows(unlock, memory),
            Self::grip(unlock) == lock.waiter(),
            Self::stage(unlock) is Idle,
            Self::unlock_admits(unlock, memory, reply),
            performs(memory, unlock.wants(), reply, next),
        ensures
            Self::lock_knows(lock, next),
            Self::carries(lock, next) ==> Self::carries(lock, memory) || Self::passes(unlock)
                && !Self::passes(unlock.after(reply)),
    ;
}

/// Whether the wake state and the waker of a waiter are the same.
pub open spec fn same_wake(memory: Shared, next: Shared, node: usize) -> bool {
    &&& wake_of(next, node) == wake_of(memory, node)
    &&& (next.wakers)(node) == (memory.wakers)(node)
}

/// Whether the links of a waiter are the same.
pub open spec fn same_links(memory: Shared, next: Shared, node: usize) -> bool {
    &&& link(next, node, Link::Prev) == link(memory, node, Link::Prev)
    &&& link(next, node, Link::Next) == link(memory, node, Link::Next)
    &&& link(next, node, Link::Tail) == link(memory, node, Link::Tail)
}

/// Whether all links, wake states and wakers but those of one waiter are the
/// same.
pub open spec fn only_touches(memory: Shared, next: Shared, node: usize) -> bool {
    &&& forall|other: usize|
        other != node ==> #[trigger] wake_of(next, other) == wake_of(memory, other)
    &&& forall|other: usize|
        other != node ==> #[trigger] (next.wakers)(other) == (memory.wakers)(other)
    &&& forall|other: usize, which: Link|
        other != node ==> #[trigger] link(next, other, which) == link(memory, other, which)
}

/// Whether all links, wake states and wakers are the same.
pub open spec fn same_cells(memory: Shared, next: Shared) -> bool {
    &&& forall|other: usize| #[trigger] wake_of(next, other) == wake_of(memory, other)
    &&& forall|other: usize| #[trigger] (next.wakers)(other) == (memory.wakers)(other)
    &&& forall|other: usize, which: Link|
        #[trigger] link(next, other, which) == link(memory, other, which)
}

/// Whether the links of a waiter lead to a queue with that newest waiter.
pub open spec fn leads_to(memory: Shared, node: usize, newest: usize) -> bool {
    &&& link(memory, node, Link::Prev) == 0
    &&& link(memory, node, Link::Next) == newest
    &&& link(memory, node, Link::Tail) == if newest == 0 {
        node
    } else {
        0
    }
}

/// What a step of an attempt that does not wait may do.
pub open spec fn try_step<K: Queued>(
    attempt: K::Try,
    memory: Shared,
    reply: Reply,
    next: Shared,
) -> bool {
    &&& attempt.expects(reply)
    &&& same_cells(memory, next)
    &&& K::newest(next.word) == K::newest(memory.word)
    &&& K::flag(next.word) == K::flag(memory.word)
    &&& K::is_tidy(next.word)
}

/// What a step of an attempt to lock may do.
pub open spec fn lock_step<K: Queued>(
    lock: K::Lock,
    memory: Shared,
    reply: Reply,
    next: Shared,
) -> bool {
    let node = lock.waiter();
    let after = lock.after(reply);
    &&& lock.expects(reply)
    &&& K::is_tidy(next.word)
    &&& K::lock_knows(after, next)
    &&& if K::joins(lock, reply) {
        &&& !K::waits(lock)
        &&& K::waits(after)
        &&& K::newest(next.word) == node
        &&& same_cells(memory, next)
        &&& leads_to(memory, node, K::newest(memory.word))
        &&& K::ready(memory, node)
    } else {
        &&& K::newest(next.word) == K::newest(memory.word)
        &&& only_touches(memory, next, node)
        &&& K::waits(lock) ==> {
            &&& same_links(memory, next, node)
            &&& K::ready(memory, node) ==> K::ready(next, node)
            &&& K::woken(memory, node) ==> K::woken(next, node)
            &&& !K::waits(after) ==> K::woken(memory, node)
        }
        &&& !K::waits(lock) && K::waits(after) ==> K::woken(next, node)
    }
    &&& K::flagged() ==> {
        &&& K::carries(after, next) ==> K::carries(lock, memory)
        &&& K::flag(memory.word) && !K::flag(next.word) ==> K::carries(lock, memory)
            && !K::carries(after, next)
        &&& K::flag(next.word) ==> K::flag(memory.word)
    }
}

/// Whether an unlock begins to look for the oldest waiter.
pub open spec fn starts_to_find<K: Queued>(unlock: K::Unlock, memory: Shared) -> bool {
    &&& K::stage(unlock) matches Stage::Find { head, search }
    &&& head == K::newest(memory.word)
    &&& head != 0
    &&& search == Search::start(head, search.write_back)
}

/// Whether an unlock has the queue, or the flag that guards it, for itself.
pub open spec fn unlock_has_token<K: Queued>(unlock: K::Unlock) -> bool {
    !(K::stage(unlock) is Idle) || K::passes(unlock)
}

/// What a step of an unlock may do.
pub open spec fn unlock_step<K: Queued>(
    unlock: K::Unlock,
    memory: Shared,
    reply: Reply,
    next: Shared,
) -> bool {
    let node = K::grip(unlock);
    let after = unlock.after(reply);
    let enters = K::stage(unlock) is Idle && !(K::stage(after) is Idle);
    &&& unlock.expects(reply)
    &&& K::is_tidy(next.word)
    &&& match K::stage(unlock) {
        Stage::Idle => {
            &&& K::newest(next.word) == K::newest(memory.word)
            &&& if node == 0 {
                &&& same_cells(memory, next)
                &&& K::grip(after) == 0
                &&& match K::stage(after) {
                    Stage::Idle => true,
                    Stage::Poised => K::newest(memory.word) != 0,
                    Stage::Ready { head } => head == K::newest(memory.word) && head != 0,
                    _ => starts_to_find::<K>(after, memory),
                }
            } else {
                &&& only_touches(memory, next, node)
                &&& same_links(memory, next, node)
                &&& K::stage(after) is Idle
                &&& {
                    ||| K::grip(after) == node && K::unlock_knows(after, next)
                    ||| K::grip(after) == 0 && K::woken(next, node)
                }
            }
        },
        Stage::Poised => {
            &&& K::newest(next.word) == K::newest(memory.word)
            &&& same_cells(memory, next)
            &&& starts_to_find::<K>(after, memory)
            &&& K::grip(after) == 0
        },
        Stage::Ready { head } => {
            &&& K::newest(next.word) == K::newest(memory.word)
            &&& same_cells(memory, next)
            &&& K::grip(after) == 0
            &&& K::stage(after) matches Stage::Find { head: from, search }
            &&& from == head
            &&& search == Search::start(head, search.write_back)
        },
        Stage::Find { head, search } => {
            &&& K::grip(after) == 0
            &&& match search.after(reply).found() {
                None => K::stage(after) == (Stage::Find { head, search: search.after(reply) }),
                Some(tail) => K::stage(after) == (Stage::Settled { head }) || K::stage(after) == (
                Stage::Found { head, tail }),
            }
        },
        Stage::Settled { head } => {
            &&& K::newest(next.word) == K::newest(memory.word)
            &&& same_cells(memory, next)
            &&& K::grip(after) == 0
            &&& K::stage(after) is Idle || starts_to_find::<K>(after, memory)
        },
        Stage::Found { head, tail } => {
            &&& K::newest(next.word) == K::newest(memory.word)
            &&& same_cells(memory, next)
            &&& K::grip(after) == 0
            &&& if K::reads_prev(unlock) {
                &&& unlock.wants() matches Access::Load(Place::Link(from, Link::Prev), _)
                &&& from == tail
                &&& K::stage(after) == if reply.value == 0 {
                    Stage::Last { head, tail }
                } else {
                    Stage::Cut { head, tail, prev: reply.value }
                }
            } else {
                K::stage(after) == K::stage(unlock)
            }
        },
        Stage::Cut { head, tail, prev } => {
            &&& unlock.wants() matches Access::Store(Place::Link(to, Link::Tail), value, _)
            &&& to == head
            &&& value == prev
            &&& K::stage(after) is Leaving || K::stage(after) is Idle
            &&& K::grip(after) == tail
            &&& K::ready(memory, tail) ==> K::unlock_knows(after, next)
        },
        Stage::Last { head, tail } => {
            &&& same_cells(memory, next)
            &&& if reply.ok {
                &&& K::newest(memory.word) == head
                &&& K::newest(next.word) == 0
                &&& K::stage(after) is Idle
                &&& K::grip(after) == tail
                &&& K::ready(memory, tail) ==> K::unlock_knows(after, next)
            } else {
                &&& K::newest(next.word) == K::newest(memory.word)
                &&& starts_to_find::<K>(after, memory)
                &&& K::grip(after) == 0
            }
        },
        Stage::Leaving => {
            &&& K::newest(next.word) == K::newest(memory.word)
            &&& same_cells(memory, next)
            &&& K::stage(after) is Idle || K::stage(after) is Leaving
            &&& K::grip(after) == node
            &&& K::unlock_knows(after, next)
        },
    }
    &&& K::grip(after) == 0 && !(K::stage(unlock) is Cut) && !(K::stage(unlock) is Last
        && reply.ok) ==> K::unlock_knows(after, next)
    &&& enters && !K::flagged() ==> unlock.holds(memory)
    &&& K::flagged() ==> {
        &&& enters ==> !K::flag(memory.word) && K::flag(next.word)
        &&& unlock_has_token::<K>(after) ==> K::flag(next.word) && (enters || unlock_has_token::<K>(
            unlock,
        ))
        &&& K::flag(memory.word) && !K::flag(next.word) ==> unlock_has_token::<K>(unlock)
            && !unlock_has_token::<K>(after)
        &&& !K::flag(memory.word) && K::flag(next.word) ==> enters
        &&& K::passes(unlock) ==> K::flag(next.word)
        &&& K::passes(unlock) && !K::passes(after) ==> !unlock_has_token::<K>(after)
    }
}

/// What the links of the queue stand for.
pub struct Picture {
    /// The waiters in the queue, the oldest first.
    pub queue: Seq<usize>,
    /// The place of the newest waiter whose tail link is set.
    pub resolved: int,
    /// Whether a thread is at the queue, and which one.
    pub busy: bool,
    pub by: int,
    /// The place of the waiter that was the newest when that thread last looked.
    pub from: int,
    /// The place that its search has come to.
    pub at: int,
}

/// The newest waiter of a queue, or 0.
pub open spec fn newest_of(queue: Seq<usize>) -> usize {
    if queue.len() == 0 {
        0
    } else {
        queue.last()
    }
}

/// Whether the links of the queue are as the picture says.
pub open spec fn linked<K: Queueing>(memory: Shared, picture: Picture) -> bool {
    let queue = picture.queue;
    let k = picture.resolved;
    &&& queue.no_duplicates()
    &&& forall|i: int| 0 <= i < queue.len() ==> K::is_node(#[trigger] queue[i])
    &&& forall|i: int| 0 <= i < queue.len() ==> K::ready(memory, #[trigger] queue[i])
    &&& forall|i: int|
        0 < i < queue.len() ==> link(memory, #[trigger] queue[i], Link::Next) == queue[i - 1]
    &&& queue.len() == 0 ==> k == 0
    &&& queue.len() > 0 ==> 0 <= k < queue.len() && link(memory, queue[k], Link::Tail) == queue[0]
    &&& forall|i: int|
        k < i < queue.len() ==> link(memory, #[trigger] queue[i], Link::Tail) == 0
    &&& forall|i: int|
        0 <= i < k ==> link(memory, #[trigger] queue[i], Link::Prev) == queue[i + 1]
}

/// The first place whose prev link is clear for sure. A thread that searches
/// sets those before the place where it began.
pub open spec fn first_clear(picture: Picture) -> int {
    if picture.busy {
        picture.from
    } else {
        picture.resolved
    }
}

/// Whether the prev links that were not brought up to date yet are clear.
pub open spec fn clear(memory: Shared, picture: Picture) -> bool {
    let queue = picture.queue;
    &&& picture.busy ==> queue.len() > 0 && picture.resolved <= picture.from < queue.len()
    &&& forall|i: int|
        first_clear(picture) <= i < queue.len() ==> link(memory, #[trigger] queue[i], Link::Prev)
            == 0
}

pub open spec fn stage_of<K: Queueing>(thread: Thread<K>) -> Stage {
    match thread {
        Thread::Unlocking(unlock) => K::stage(unlock),
        _ => Stage::Idle,
    }
}

/// Whether the thread is at the queue.
pub open spec fn is_busy<K: Queueing>(thread: Thread<K>) -> bool {
    !(stage_of(thread) is Idle)
}

/// The waiter that the thread has taken off the queue and not woken yet, or 0.
pub open spec fn grip_of<K: Queueing>(thread: Thread<K>) -> usize {
    match thread {
        Thread::Unlocking(unlock) => K::grip(unlock),
        _ => 0,
    }
}

/// Whether the thread waits by its waiter.
pub open spec fn is_waiting<K: Queueing>(thread: Thread<K>) -> bool {
    match thread {
        Thread::Locking(lock) => K::waits(lock),
        _ => false,
    }
}

/// Whether the thread has the flag for itself.
pub open spec fn has_token<K: Queueing>(thread: Thread<K>, memory: Shared) -> bool {
    match thread {
        Thread::Locking(lock) => K::carries(lock, memory),
        Thread::Unlocking(unlock) => unlock_has_token::<K>(unlock),
        _ => false,
    }
}

/// Whether the prev links between two places of the queue are set.
pub open spec fn walked(memory: Shared, queue: Seq<usize>, first: int, last: int) -> bool {
    forall|i: int| first <= i < last ==> link(memory, #[trigger] queue[i], Link::Prev) == queue[i + 1]
}

/// How far the search of the thread at the queue is.
pub open spec fn searches(search: Search, memory: Shared, picture: Picture) -> bool {
    let queue = picture.queue;
    let k = picture.resolved;
    let j = picture.from;
    let at = picture.at;
    &&& search.head == queue[j]
    &&& match search.step {
        SearchStep::HeadTail => true,
        SearchStep::Next { current } => {
            &&& k < at <= j
            &&& current == queue[at]
            &&& walked(memory, queue, at, j)
        },
        SearchStep::Prev { current, next } => {
            &&& k < at <= j
            &&& current == queue[at]
            &&& next == queue[at - 1]
            &&& walked(memory, queue, at, j)
        },
        SearchStep::Tail { current } => {
            &&& k <= at < j
            &&& current == queue[at]
            &&& walked(memory, queue, at, j)
        },
        SearchStep::Keep { tail } => {
            &&& tail == queue[0]
            &&& walked(memory, queue, 0, j)
        },
        SearchStep::Found { .. } => false,
    }
}

/// What the thread at the queue knows about it.
pub open spec fn stage_fits(stage: Stage, memory: Shared, picture: Picture) -> bool {
    let queue = picture.queue;
    let j = picture.from;
    match stage {
        Stage::Idle | Stage::Poised => true,
        Stage::Ready { head } => head == queue[j],
        Stage::Find { head, search } => {
            &&& head == queue[j]
            &&& searches(search, memory, picture)
        },
        Stage::Settled { head } => head == queue[j] && picture.resolved == j,
        Stage::Found { head, tail } => {
            &&& head == queue[j]
            &&& picture.resolved == j
            &&& tail == queue[0]
        },
        Stage::Cut { head, tail, prev } => {
            &&& head == queue[j]
            &&& picture.resolved == j
            &&& j > 0
            &&& tail == queue[0]
            &&& prev == queue[1]
        },
        Stage::Last { head, tail } => {
            &&& head == queue[j]
            &&& picture.resolved == j
            &&& j == 0
            &&& tail == queue[0]
        },
        Stage::Leaving => picture.resolved == j,
    }
}

/// What holds of one thread.
pub open spec fn fits<K: Queueing>(thread: Thread<K>, memory: Shared, queue: Seq<usize>) -> bool {
    match thread {
        Thread::Locking(lock) => {
            &&& K::lock_knows(lock, memory)
            &&& !K::waits(lock) ==> !queue.contains(lock.waiter())
        },
        Thread::Unlocking(unlock) => {
            &&& K::unlock_knows(unlock, memory)
            &&& K::grip(unlock) != 0 ==> !queue.contains(K::grip(unlock))
        },
        _ => true,
    }
}

/// Whether a thread that waits is not forgotten: its waiter stands in the
/// queue, some thread has taken it off to wake it, or it was woken.
pub open spec fn is_minded<K: Queueing>(
    system: System<K>,
    queue: Seq<usize>,
    node: usize,
) -> bool {
    ||| queue.contains(node)
    ||| exists|u: int| grip_of(#[trigger] (system.threads)(u)) == node
    ||| K::woken(system.memory, node)
}

/// Whether the state word is tidy, and at most one thread has its flag.
pub open spec fn flags_fit<K: Queueing>(system: System<K>) -> bool {
    &&& K::is_tidy(system.memory.word)
    &&& K::flagged() ==> {
        &&& forall|t: int|
            has_token(#[trigger] (system.threads)(t), system.memory) ==> K::flag(
                system.memory.word,
            )
        &&& forall|t: int, u: int|
            t != u && has_token(#[trigger] (system.threads)(t), system.memory) ==> !has_token(
                #[trigger] (system.threads)(u),
                system.memory,
            )
    }
}

/// How the state word, the links, the wake states and the operations of all
/// threads fit together.
pub open spec fn whole<K: Queueing>(system: System<K>, picture: Picture) -> bool {
    let memory = system.memory;
    let queue = picture.queue;
    &&& sound(system)
    &&& K::newest(memory.word) == newest_of(queue)
    &&& linked::<K>(memory, picture)
    &&& clear(memory, picture)
    &&& forall|t: int|
        is_busy(#[trigger] (system.threads)(t)) <==> picture.busy && t == picture.by
    &&& picture.busy ==> stage_fits(stage_of((system.threads)(picture.by)), memory, picture)
    &&& forall|t: int| fits(#[trigger] (system.threads)(t), memory, queue)
    &&& forall|t: int, u: int|
        t != u && grip_of(#[trigger] (system.threads)(t)) != 0 ==> grip_of(
            #[trigger] (system.threads)(u),
        ) != grip_of((system.threads)(t))
    &&& forall|t: int, u: int|
        grip_of(#[trigger] (system.threads)(t)) != 0 && waiter(#[trigger] (system.threads)(u))
            == grip_of((system.threads)(t)) ==> is_waiting((system.threads)(u))
    &&& forall|t: int|
        is_waiting(#[trigger] (system.threads)(t)) ==> is_minded(
            system,
            queue,
            waiter((system.threads)(t)),
        )
    &&& flags_fit(system)
}

/// Whether some thread waits by the waiter.
pub open spec fn is_waited_by<K: Queueing>(system: System<K>, node: usize) -> bool {
    exists|t: int|
        is_waiting(#[trigger] (system.threads)(t)) && waiter((system.threads)(t)) == node
}

/// Whether every waiter in the queue, or taken off it to be woken, is one that a
/// thread waits by.
pub open spec fn is_peopled<K: Queueing>(system: System<K>, queue: Seq<usize>) -> bool {
    &&& forall|i: int| 0 <= i < queue.len() ==> is_waited_by(system, #[trigger] queue[i])
    &&& forall|t: int|
        grip_of(#[trigger] (system.threads)(t)) != 0 ==> is_waited_by(
            system,
            grip_of((system.threads)(t)),
        )
}

/// A thread begins an operation. A new waiter was not used yet.
pub open spec fn starts<K: Queueing>(
    system: System<K>,
    thread: Thread<K>,
    next: Thread<K>,
) -> bool {
    &&& begin(system, thread, next)
    &&& next matches Thread::Locking(lock) ==> K::fresh(system.memory, lock.waiter())
}

/// A thread makes the access its operation wants, and gets any reply that the
/// access can have.
pub open spec fn acts<K: Queueing>(
    thread: Thread<K>,
    memory: Shared,
    reply: Reply,
    after: Thread<K>,
    next: Shared,
) -> bool {
    match thread {
        Thread::Idle => false,
        Thread::Trying(party) => {
            &&& !(party.wants() is Done)
            &&& party.admits(memory, reply)
            &&& performs(memory, party.wants(), reply, next)
            &&& after == Thread::<K>::Trying(party.after(reply))
        },
        Thread::Locking(party) => {
            &&& !(party.wants() is Done)
            &&& party.admits(memory, reply)
            &&& K::lock_admits(party, memory, reply)
            &&& performs(memory, party.wants(), reply, next)
            &&& after == Thread::<K>::Locking(party.after(reply))
        },
        Thread::Unlocking(party) => {
            &&& !(party.wants() is Done)
            &&& party.admits(memory, reply)
            &&& K::unlock_admits(party, memory, reply)
            &&& performs(memory, party.wants(), reply, next)
            &&& after == Thread::<K>::Unlocking(party.after(reply))
        },
    }
}

/// Whether the reply is one that the operation of the thread expects.
pub open spec fn expected<K: Queueing>(thread: Thread<K>, reply: Reply) -> bool {
    match thread {
        Thread::Idle => true,
        Thread::Trying(party) => party.expects(reply),
        Thread::Locking(party) => party.expects(reply),
        Thread::Unlocking(party) => party.expects(reply),
    }
}

/// One step of the system, made by thread `t`.
pub open spec fn turn<K: Queueing>(
    system: System<K>,
    t: int,
    reply: Reply,
    next: System<K>,
) -> bool {
    &&& forall|other: int|
        other != t ==> #[trigger] (next.threads)(other) == (system.threads)(other)
    &&& {
        ||| starts(system, (system.threads)(t), (next.threads)(t)) && next.memory == system.memory
        ||| acts((system.threads)(t), system.memory, reply, (next.threads)(t), next.memory)
    }
}

/// What a step of an unlock makes of the picture.
pub open spec fn redrawn_by_unlock<K: Queueing>(
    picture: Picture,
    t: int,
    unlock: K::Unlock,
    reply: Reply,
) -> Picture {
    let queue = picture.queue;
    let last = queue.len() - 1;
    let busy = !(K::stage(unlock.after(reply)) is Idle);
    let begun = Picture { busy, by: t, from: last, ..picture };
    match K::stage(unlock) {
        Stage::Idle => if busy {
            begun
        } else {
            picture
        },
        Stage::Poised => begun,
        Stage::Ready { .. } => picture,
        Stage::Find { search, .. } => match search.step {
            SearchStep::HeadTail => if search.after(reply).step is Keep {
                picture
            } else {
                Picture { at: picture.from, ..picture }
            },
            SearchStep::Prev { .. } => Picture { at: picture.at - 1, ..picture },
            SearchStep::Keep { .. } => Picture { resolved: picture.from, ..picture },
            _ => picture,
        },
        Stage::Settled { .. } => if busy {
            begun
        } else {
            Picture { busy, ..picture }
        },
        Stage::Found { .. } => picture,
        Stage::Cut { .. } => Picture {
            queue: queue.skip(1),
            resolved: picture.from - 1,
            from: picture.from - 1,
            busy,
            ..picture
        },
        Stage::Last { .. } => if reply.ok {
            Picture { queue: Seq::empty(), busy: false, ..picture }
        } else {
            begun
        },
        Stage::Leaving => Picture { busy, ..picture },
    }
}

/// What a step makes of the picture.
pub open spec fn redrawn<K: Queueing>(
    picture: Picture,
    t: int,
    thread: Thread<K>,
    reply: Reply,
) -> Picture {
    let queue = picture.queue;
    match thread {
        Thread::Locking(lock) => if K::joins(lock, reply) {
            Picture {
                queue: queue.push(lock.waiter()),
                resolved: if queue.len() == 0 {
                    0
                } else {
                    picture.resolved
                },
                ..picture
            }
        } else {
            picture
        },
        Thread::Unlocking(unlock) => redrawn_by_unlock::<K>(picture, t, unlock, reply),
        _ => picture,
    }
}

/// No reply comes that the operation does not expect, and the step is one that
/// the lock allows.
pub(crate) proof fn step_is_sound<K: Queueing>(
    system: System<K>,
    picture: Picture,
    t: int,
    reply: Reply,
    after: Thread<K>,
    next: Shared,
)
    requires
        whole(system, picture),
        acts((system.threads)(t), system.memory, reply, after, next),
    ensures
        expected((system.threads)(t), reply),
        match (system.threads)(t) {
            Thread::Idle => true,
            Thread::Trying(party) => try_step::<K>(party, system.memory, reply, next),
            Thread::Locking(party) => lock_step::<K>(party, system.memory, reply, next),
            Thread::Unlocking(party) => unlock_step::<K>(party, system.memory, reply, next),
        },
{
    let thread = (system.threads)(t);
    let memory = system.memory;
    let queue = picture.queue;
    assert(fits(thread, memory, queue));
    assert(thread_wf(thread));
    match thread {
        Thread::Idle => {},
        Thread::Trying(party) => {
            K::try_obeys(party, memory, reply, next);
        },
        Thread::Locking(party) => {
            K::lock_obeys(party, memory, reply, next);
        },
        Thread::Unlocking(party) => {
            if !(K::stage(party) is Idle) {
                assert(is_busy(thread));
                assert(K::is_node(queue[queue.len() - 1]));
                K::of_nodes(memory, queue[queue.len() - 1]);
            }
            if K::flagged() && unlock_has_token::<K>(party) {
                assert(has_token(thread, memory));
            }
            if let Stage::Find { head, search } = K::stage(party) {
                assert(is_busy(thread));
                assert(stage_fits(stage_of(thread), memory, picture));
                K::unlock_knows_frame(party, memory, memory);
                if let SearchStep::Next { current } = search.step {
                    assert(link(memory, queue[picture.at], Link::Next) == queue[picture.at - 1]);
                    assert(K::is_node(queue[picture.at - 1]));
                    K::of_nodes(memory, queue[picture.at - 1]);
                }
            }
            assert(party.holds(memory) ==> K::is_held(memory.word)) by {
                assert(holds(thread, memory) == party.holds(memory));
            }
            K::unlock_obeys(party, memory, reply, next);
        },
    }
}

/// Whether a step changed nothing but one waiter, the links of waiters in the
/// queue, and the queue by that one waiter.
pub open spec fn is_calm(
    memory: Shared,
    next: Shared,
    queue: Seq<usize>,
    next_queue: Seq<usize>,
    touched: usize,
) -> bool {
    &&& forall|node: usize|
        node != touched ==> #[trigger] wake_of(next, node) == wake_of(memory, node)
    &&& forall|node: usize|
        node != touched ==> #[trigger] (next.wakers)(node) == (memory.wakers)(node)
    &&& forall|node: usize, which: Link|
        node != touched && !queue.contains(node) ==> #[trigger] link(next, node, which) == link(
            memory,
            node,
            which,
        )
    &&& forall|node: usize|
        #[trigger] next_queue.contains(node) ==> queue.contains(node) || node == touched
}

/// A thread that has nothing to do with the waiter that was touched fits as
/// before.
proof fn stranger_fits<K: Queueing>(
    thread: Thread<K>,
    memory: Shared,
    next: Shared,
    queue: Seq<usize>,
    next_queue: Seq<usize>,
    touched: usize,
)
    requires
        fits(thread, memory, queue),
        is_calm(memory, next, queue, next_queue, touched),
        touched != 0 ==> waiter(thread) != touched && grip_of(thread) != touched,
        thread_wf(thread),
    ensures
        fits(thread, next, next_queue),
        has_token(thread, next) == has_token(thread, memory),
{
    match thread {
        Thread::Locking(lock) => {
            let node = lock.waiter();
            K::lock_frame(lock, memory, memory);
            assert(waiter(thread) == node);
            assert(wake_of(next, node) == wake_of(memory, node));
            assert((next.wakers)(node) == (memory.wakers)(node));
            if !K::waits(lock) {
                assert(link(next, node, Link::Prev) == link(memory, node, Link::Prev));
                assert(link(next, node, Link::Next) == link(memory, node, Link::Next));
                assert(link(next, node, Link::Tail) == link(memory, node, Link::Tail));
            }
            K::lock_knows_frame(lock, memory, next);
        },
        Thread::Unlocking(unlock) => {
            let node = K::grip(unlock);
            if node != 0 {
                assert(grip_of(thread) == node);
                assert(wake_of(next, node) == wake_of(memory, node));
                assert((next.wakers)(node) == (memory.wakers)(node));
            }
            K::unlock_knows_frame(unlock, memory, next);
        },
        _ => {},
    }
}

/// The system is whole after a step, once all that the step can have changed is
/// looked at.
proof fn stays_whole<K: Queueing>(
    system: System<K>,
    picture: Picture,
    t: int,
    next: System<K>,
    drawn: Picture,
    touched: usize,
)
    requires
        whole(system, picture),
        sound(next),
        flags_fit(next),
        forall|other: int|
            other != t ==> #[trigger] (next.threads)(other) == (system.threads)(other),
        K::newest(next.memory.word) == newest_of(drawn.queue),
        linked::<K>(next.memory, drawn),
        clear(next.memory, drawn),
        is_calm(system.memory, next.memory, picture.queue, drawn.queue, touched),
        forall|u: int| is_busy(#[trigger] (next.threads)(u)) <==> drawn.busy && u == drawn.by,
        drawn.busy ==> stage_fits(stage_of((next.threads)(drawn.by)), next.memory, drawn),
        fits((next.threads)(t), next.memory, drawn.queue),
        forall|u: int|
            u != t && touched != 0 && (waiter(#[trigger] (next.threads)(u)) == touched || grip_of(
                (next.threads)(u),
            ) == touched) ==> fits((next.threads)(u), next.memory, drawn.queue),
        forall|u: int|
            u != t && grip_of((next.threads)(t)) != 0 ==> grip_of(#[trigger] (next.threads)(u))
                != grip_of((next.threads)(t)),
        forall|u: int|
            grip_of((next.threads)(t)) != 0 && waiter(#[trigger] (next.threads)(u)) == grip_of(
                (next.threads)(t),
            ) ==> is_waiting((next.threads)(u)),
        forall|u: int|
            grip_of(#[trigger] (next.threads)(u)) != 0 && waiter((next.threads)(t)) == grip_of(
                (next.threads)(u),
            ) ==> is_waiting((next.threads)(t)),
        forall|u: int|
            is_waiting(#[trigger] (next.threads)(u)) ==> is_minded(
                next,
                drawn.queue,
                waiter((next.threads)(u)),
            ),
    ensures
        whole(next, drawn),
{
    assert forall|u: int| fits(#[trigger] (next.threads)(u), next.memory, drawn.queue) by {
        let thread = (next.threads)(u);
        if u != t {
            assert(thread == (system.threads)(u));
            assert(thread_wf(thread));
            if touched == 0 || waiter(thread) != touched && grip_of(thread) != touched {
                stranger_fits(
                    thread,
                    system.memory,
                    next.memory,
                    picture.queue,
                    drawn.queue,
                    touched,
                );
            }
        }
    }
    assert forall|a: int, b: int|
        a != b && grip_of(#[trigger] (next.threads)(a)) != 0 implies grip_of(
        #[trigger] (next.threads)(b),
    ) != grip_of((next.threads)(a)) by {
        assert(a != t ==> (next.threads)(a) == (system.threads)(a));
        assert(b != t ==> (next.threads)(b) == (system.threads)(b));
    }
    assert forall|a: int, b: int|
        grip_of(#[trigger] (next.threads)(a)) != 0 && waiter(#[trigger] (next.threads)(b))
            == grip_of((next.threads)(a)) implies is_waiting((next.threads)(b)) by {
        assert(a != t ==> (next.threads)(a) == (system.threads)(a));
        assert(b != t ==> (next.threads)(b) == (system.threads)(b));
    }
}

/// Nobody is forgotten as long as the queue loses nobody, all grips stay, and no
/// wake state but that of one waiter changes.
proof fn stays_minded<K: Queueing>(
    system: System<K>,
    picture: Picture,
    t: int,
    next: System<K>,
    next_queue: Seq<usize>,
    touched: usize,
)
    requires
        whole(system, picture),
        forall|other: int|
            other != t ==> #[trigger] (next.threads)(other) == (system.threads)(other),
        is_calm(system.memory, next.memory, picture.queue, next_queue, touched),
        forall|node: usize|
            picture.queue.contains(node) ==> #[trigger] next_queue.contains(node) || node
                == touched,
        grip_of((system.threads)(t)) == 0 || grip_of((system.threads)(t)) == touched || grip_of(
            (next.threads)(t),
        ) == grip_of((system.threads)(t)),
        touched != 0 && (exists|u: int|
            #[trigger] waiter((next.threads)(u)) == touched && is_waiting((next.threads)(u)))
            ==> is_minded(next, next_queue, touched),
        is_waiting((next.threads)(t)) ==> is_minded(next, next_queue, waiter((next.threads)(t))),
    ensures
        forall|u: int|
            is_waiting(#[trigger] (next.threads)(u)) ==> is_minded(
                next,
                next_queue,
                waiter((next.threads)(u)),
            ),
{
    assert forall|u: int| is_waiting(#[trigger] (next.threads)(u)) implies is_minded(
        next,
        next_queue,
        waiter((next.threads)(u)),
    ) by {
        let node = waiter((next.threads)(u));
        if u != t {
            assert((next.threads)(u) == (system.threads)(u));
            assert(thread_wf((system.threads)(u)));
            if let Thread::Locking(lock) = (system.threads)(u) {
                K::lock_frame(lock, system.memory, system.memory);
            }
            assert(is_minded(system, picture.queue, node));
            if node == touched {
                assert(waiter((next.threads)(u)) == touched);
            } else if picture.queue.contains(node) {
                assert(next_queue.contains(node));
            } else if K::woken(system.memory, node) {
                K::node_frame(system.memory, next.memory, node);
            } else {
                let v = choose|v: int| grip_of(#[trigger] (system.threads)(v)) == node;
                assert(grip_of((next.threads)(v)) == node);
            }
        }
    }
}

/// The links stay as long as no link and no waiter of the queue changes, and the
/// thread at the queue comes and goes only when the prev links allow it.
proof fn links_stay<K: Queueing>(memory: Shared, after: Shared, picture: Picture, drawn: Picture)
    requires
        linked::<K>(memory, picture),
        clear(memory, picture),
        drawn.queue == picture.queue,
        drawn.resolved == picture.resolved,
        forall|i: int, which: Link|
            0 <= i < picture.queue.len() ==> #[trigger] link(after, picture.queue[i], which)
                == link(memory, picture.queue[i], which),
        forall|i: int|
            0 <= i < picture.queue.len() ==> K::ready(after, #[trigger] picture.queue[i]),
        drawn.busy ==> picture.queue.len() > 0 && picture.resolved <= drawn.from
            < picture.queue.len(),
        first_clear(picture) <= first_clear(drawn),
    ensures
        linked::<K>(after, drawn),
        clear(after, drawn),
{
    let queue = picture.queue;
    assert forall|i: int| 0 < i < queue.len() implies link(after, #[trigger] queue[i], Link::Next)
        == queue[i - 1] by {
        assert(link(after, queue[i], Link::Next) == link(memory, queue[i], Link::Next));
    }
    assert forall|i: int| picture.resolved < i < queue.len() implies link(
        after,
        #[trigger] queue[i],
        Link::Tail,
    ) == 0 by {
        assert(link(after, queue[i], Link::Tail) == link(memory, queue[i], Link::Tail));
    }
    assert forall|i: int| 0 <= i < picture.resolved implies link(
        after,
        #[trigger] queue[i],
        Link::Prev,
    ) == queue[i + 1] by {
        assert(link(after, queue[i], Link::Prev) == link(memory, queue[i], Link::Prev));
    }
    assert forall|i: int| first_clear(drawn) <= i < queue.len() implies link(
        after,
        #[trigger] queue[i],
        Link::Prev,
    ) == 0 by {
        assert(link(after, queue[i], Link::Prev) == link(memory, queue[i], Link::Prev));
    }
    if queue.len() > 0 {
        let k = picture.resolved;
        assert(link(after, queue[k], Link::Tail) == link(memory, queue[k], Link::Tail));
    }
}

/// The flag is with one thread at most, after a step as before.
proof fn flags_stay<K: Queueing>(
    system: System<K>,
    picture: Picture,
    t: int,
    reply: Reply,
    next: System<K>,
)
    requires
        whole(system, picture),
        forall|other: int|
            other != t ==> #[trigger] (next.threads)(other) == (system.threads)(other),
        acts((system.threads)(t), system.memory, reply, (next.threads)(t), next.memory),
    ensures
        flags_fit(next),
{
    step_is_sound(system, picture, t, reply, (next.threads)(t), next.memory);
    if K::flagged() {
        let memory = system.memory;
        let after = next.memory;
        let thread = (system.threads)(t);
        let moved = (next.threads)(t);
        assert(thread_wf(thread));
        assert(fits(thread, memory, picture.queue));
        // What the step can have done to the flag of another thread.
        assert forall|u: int| u != t && has_token(#[trigger] (next.threads)(u), after) implies ({
            ||| has_token((system.threads)(u), memory)
            ||| has_token(thread, memory) && !has_token(moved, after) && K::flag(after.word)
                && waiter((system.threads)(u)) == grip_of(thread) && grip_of(thread) != 0
        }) by {
            let other = (system.threads)(u);
            assert((next.threads)(u) == other);
            assert(thread_wf(other));
            assert(fits(other, memory, picture.queue));
            if let Thread::Locking(lock) = other {
                K::lock_frame(lock, memory, memory);
                let node = lock.waiter();
                assert(waiter(other) == node);
                match thread {
                    Thread::Unlocking(unlock) => {
                        K::unlock_knows_frame(unlock, memory, memory);
                        if K::grip(unlock) == node && K::stage(unlock) is Idle {
                            assert(grip_of((system.threads)(t)) == waiter((system.threads)(u)));
                            assert(is_waiting((system.threads)(u)));
                            K::unlock_obeys_lock(unlock, lock, memory, reply, after);
                        } else {
                            unlock_touches::<K>(unlock, memory, reply, after, node);
                            if !K::waits(lock) {
                                assert(!picture.queue.contains(node));
                                busy_links_stay(system, picture, t, unlock, reply, after, node);
                            }
                            K::lock_knows_frame(lock, memory, after);
                        }
                    },
                    Thread::Locking(mine) => {
                        K::lock_frame(mine, memory, memory);
                        assert(waiter((system.threads)(t)) == mine.waiter());
                        assert(node != mine.waiter());
                        assert(same_wake(memory, after, node));
                        assert(same_links(memory, after, node));
                        K::lock_knows_frame(lock, memory, after);
                    },
                    Thread::Trying(_) => {
                        assert(same_wake(memory, after, node));
                        assert(same_links(memory, after, node));
                        K::lock_knows_frame(lock, memory, after);
                    },
                    Thread::Idle => {},
                }
            }
        }
        assert forall|u: int| has_token(#[trigger] (next.threads)(u), after) implies K::flag(
            after.word,
        ) by {
            assert(u != t ==> (next.threads)(u) == (system.threads)(u));
        }
        assert forall|a: int, b: int|
            a != b && has_token(#[trigger] (next.threads)(a), after) implies !has_token(
            #[trigger] (next.threads)(b),
            after,
        ) by {
            assert(a != t ==> (next.threads)(a) == (system.threads)(a));
            assert(b != t ==> (next.threads)(b) == (system.threads)(b));
            if has_token((next.threads)(b), after) {
                assert(waiter((system.threads)(a)) != 0 ==> waiter((system.threads)(b)) != waiter(
                    (system.threads)(a),
                ));
            }
        }
    }
}

/// An unlock changes no wake state but that of the waiter it wakes.
pub(crate) proof fn unlock_touches<K: Queueing>(
    unlock: K::Unlock,
    memory: Shared,
    reply: Reply,
    next: Shared,
    node: usize,
)
    requires
        unlock.wf(),
        unlock_step::<K>(unlock, memory, reply, next),
        performs(memory, unlock.wants(), reply, next),
        node != 0,
        K::grip(unlock) != node || !(K::stage(unlock) is Idle),
    ensures
        same_wake(memory, next, node),
{
    K::unlock_knows_frame(unlock, memory, memory);
    match K::stage(unlock) {
        Stage::Idle => {},
        Stage::Find { search, .. } => {
            assert(unlock.wants() == search.wants());
        },
        _ => {},
    }
}

/// An unlock changes no links but those of waiters in the queue.
pub(crate) proof fn busy_links_stay<K: Queueing>(
    system: System<K>,
    picture: Picture,
    t: int,
    unlock: K::Unlock,
    reply: Reply,
    next: Shared,
    node: usize,
)
    requires
        whole(system, picture),
        (system.threads)(t) == Thread::<K>::Unlocking(unlock),
        unlock_step::<K>(unlock, system.memory, reply, next),
        performs(system.memory, unlock.wants(), reply, next),
        !picture.queue.contains(node),
        node != 0,
    ensures
        same_links(system.memory, next, node),
{
    let thread = (system.threads)(t);
    let queue = picture.queue;
    assert(thread_wf(thread));
    K::unlock_knows_frame(unlock, system.memory, system.memory);
    match K::stage(unlock) {
        Stage::Idle => {},
        Stage::Find { search, .. } => {
            assert(is_busy(thread));
            assert(stage_fits(stage_of(thread), system.memory, picture));
            assert(unlock.wants() == search.wants());
            assert(queue.contains(queue[picture.from]));
            if let SearchStep::Prev { current, next } = search.step {
                assert(queue.contains(queue[picture.at - 1]));
            }
        },
        Stage::Cut { .. } => {
            assert(is_busy(thread));
            assert(stage_fits(stage_of(thread), system.memory, picture));
            assert(queue.contains(queue[picture.from]));
        },
        _ => {},
    }
}

/// A step that leaves the queue as it is, made by a thread that is not at it.
proof fn outside_keeps<K: Queueing>(
    system: System<K>,
    picture: Picture,
    t: int,
    next: System<K>,
    touched: usize,
)
    requires
        whole(system, picture),
        sound(next),
        flags_fit(next),
        forall|other: int|
            other != t ==> #[trigger] (next.threads)(other) == (system.threads)(other),
        !is_busy((system.threads)(t)),
        !is_busy((next.threads)(t)),
        K::newest(next.memory.word) == K::newest(system.memory.word),
        is_calm(system.memory, next.memory, picture.queue, picture.queue, touched),
        forall|i: int, which: Link|
            0 <= i < picture.queue.len() ==> #[trigger] link(
                next.memory,
                picture.queue[i],
                which,
            ) == link(system.memory, picture.queue[i], which),
        forall|i: int|
            0 <= i < picture.queue.len() ==> K::ready(next.memory, #[trigger] picture.queue[i]),
        fits((next.threads)(t), next.memory, picture.queue),
        grip_of((system.threads)(t)) == 0 || grip_of((system.threads)(t)) == touched,
        grip_of((next.threads)(t)) == 0 || grip_of((next.threads)(t)) == grip_of(
            (system.threads)(t),
        ),
        forall|u: int|
            u != t && touched != 0 && (waiter(#[trigger] (next.threads)(u)) == touched || grip_of(
                (next.threads)(u),
            ) == touched) ==> fits((next.threads)(u), next.memory, picture.queue),
        forall|u: int|
            grip_of(#[trigger] (next.threads)(u)) != 0 && waiter((next.threads)(t)) == grip_of(
                (next.threads)(u),
            ) ==> is_waiting((next.threads)(t)),
        touched != 0 && (exists|u: int|
            #[trigger] waiter((next.threads)(u)) == touched && is_waiting((next.threads)(u)))
            ==> is_minded(next, picture.queue, touched),
        is_waiting((next.threads)(t)) ==> is_minded(
            next,
            picture.queue,
            waiter((next.threads)(t)),
        ),
    ensures
        whole(next, picture),
{
    let memory = system.memory;
    let after = next.memory;
    let queue = picture.queue;
    let moved = (next.threads)(t);
    let drawn = picture;
    links_stay::<K>(memory, after, picture, picture);
    stays_minded(system, picture, t, next, queue, touched);
    assert forall|u: int| is_busy(#[trigger] (next.threads)(u)) <==> drawn.busy && u
        == drawn.by by {
        assert(is_busy((system.threads)(u)) <==> picture.busy && u == picture.by);
        assert(u != t ==> (next.threads)(u) == (system.threads)(u));
    }
    if picture.busy {
        let stage = stage_of((system.threads)(picture.by));
        assert(is_busy((system.threads)(picture.by)));
        assert((next.threads)(picture.by) == (system.threads)(picture.by));
        assert(stage_fits(stage, memory, picture));
        assert forall|first: int, last: int|
            0 <= first && last < queue.len() && walked(memory, queue, first, last) implies
            #[trigger] walked(after, queue, first, last) by {
            assert forall|i: int| first <= i < last implies link(
                after,
                #[trigger] queue[i],
                Link::Prev,
            ) == queue[i + 1] by {
                assert(link(after, queue[i], Link::Prev) == link(memory, queue[i], Link::Prev));
            }
        }
        assert(stage_fits(stage, after, picture));
    }
    assert forall|u: int|
        u != t && grip_of(moved) != 0 implies grip_of(#[trigger] (next.threads)(u)) != grip_of(
        moved,
    ) by {
        assert((next.threads)(u) == (system.threads)(u));
        assert(grip_of((system.threads)(u)) != grip_of((system.threads)(t)));
    }
    assert forall|u: int|
        grip_of(moved) != 0 && waiter(#[trigger] (next.threads)(u)) == grip_of(
            moved,
        ) implies is_waiting((next.threads)(u)) by {
        if u != t {
            assert((next.threads)(u) == (system.threads)(u));
            assert(waiter((system.threads)(u)) == grip_of((system.threads)(t)));
        }
    }
    stays_whole(system, picture, t, next, picture, touched);
}

/// An attempt that does not wait.
proof fn trying_keeps<K: Queueing>(
    system: System<K>,
    picture: Picture,
    t: int,
    attempt: K::Try,
    reply: Reply,
    next: System<K>,
)
    requires
        whole(system, picture),
        sound(next),
        flags_fit(next),
        (system.threads)(t) == Thread::<K>::Trying(attempt),
        forall|other: int|
            other != t ==> #[trigger] (next.threads)(other) == (system.threads)(other),
        acts((system.threads)(t), system.memory, reply, (next.threads)(t), next.memory),
    ensures
        whole(next, picture),
{
    let memory = system.memory;
    let after = next.memory;
    let queue = picture.queue;
    step_is_sound(system, picture, t, reply, (next.threads)(t), after);
    assert(is_calm(memory, after, queue, queue, 0));
    assert forall|i: int| 0 <= i < queue.len() implies K::ready(after, #[trigger] queue[i]) by {
        assert(K::ready(memory, queue[i]));
        assert(same_wake(memory, after, queue[i]));
        K::node_frame(memory, after, queue[i]);
    }
    outside_keeps(system, picture, t, next, 0);
}

/// An attempt to lock that does not join the queue.
proof fn locking_keeps<K: Queueing>(
    system: System<K>,
    picture: Picture,
    t: int,
    lock: K::Lock,
    reply: Reply,
    next: System<K>,
)
    requires
        whole(system, picture),
        sound(next),
        flags_fit(next),
        (system.threads)(t) == Thread::<K>::Locking(lock),
        forall|other: int|
            other != t ==> #[trigger] (next.threads)(other) == (system.threads)(other),
        acts((system.threads)(t), system.memory, reply, (next.threads)(t), next.memory),
        !K::joins(lock, reply),
    ensures
        whole(next, picture),
{
    let memory = system.memory;
    let after = next.memory;
    let queue = picture.queue;
    let node = lock.waiter();
    let thread = (system.threads)(t);
    let moved = (next.threads)(t);
    step_is_sound(system, picture, t, reply, moved, after);
    assert(fits(thread, memory, queue));
    assert(thread_wf(thread));
    assert(thread_wf(moved));
    K::lock_frame(lock, memory, memory);
    assert(waiter(thread) == node);
    assert(waiter(moved) == node) by {
        K::lock_step(lock, memory, reply, after);
    }
    assert(is_calm(memory, after, queue, queue, node));
    assert forall|i: int| 0 <= i < queue.len() implies K::ready(after, #[trigger] queue[i]) by {
        assert(K::ready(memory, queue[i]));
        assert(queue.contains(queue[i]));
        if queue[i] != node {
            assert(wake_of(after, queue[i]) == wake_of(memory, queue[i]));
            assert((after.wakers)(queue[i]) == (memory.wakers)(queue[i]));
            K::node_frame(memory, after, queue[i]);
        }
    }
    assert forall|i: int, which: Link| 0 <= i < queue.len() implies #[trigger] link(
        after,
        queue[i],
        which,
    ) == link(memory, queue[i], which) by {
        assert(queue.contains(queue[i]));
    }
    // A waiter that this thread has for itself is not to be woken.
    assert forall|u: int| grip_of(#[trigger] (system.threads)(u)) == node implies is_waiting(
        thread,
    ) && !K::woken(memory, node) by {
        assert(grip_of((system.threads)(u)) == waiter((system.threads)(t)));
        assert(fits((system.threads)(u), memory, queue));
        assert(thread_wf((system.threads)(u)));
        if let Thread::Unlocking(unlock) = (system.threads)(u) {
            K::unlock_knows_frame(unlock, memory, memory);
        }
    }
    assert(is_waiting(moved) ==> is_minded(next, queue, node)) by {
        if is_waiting(thread) && is_waiting(moved) {
            assert(is_minded(system, queue, node));
            if !queue.contains(node) && !K::woken(memory, node) {
                let v = choose|v: int| grip_of(#[trigger] (system.threads)(v)) == node;
                assert(grip_of((next.threads)(v)) == node);
            }
        }
    }
    assert(!is_waiting(moved) ==> !queue.contains(node)) by {
        if queue.contains(node) {
            let i = choose|i: int| 0 <= i < queue.len() && queue[i] == node;
            assert(K::ready(memory, queue[i]));
            K::of_nodes(memory, node);
        }
    }
    assert forall|u: int|
        u != t && (waiter(#[trigger] (next.threads)(u)) == node || grip_of((next.threads)(u))
            == node) implies fits((next.threads)(u), after, queue) by {
        assert((next.threads)(u) == (system.threads)(u));
        assert(fits((system.threads)(u), memory, queue));
        assert(waiter((system.threads)(u)) != node);
        assert(grip_of((system.threads)(u)) == node);
        assert(thread_wf((system.threads)(u)));
        if let Thread::Unlocking(unlock) = (system.threads)(u) {
            K::lock_obeys_grip(lock, unlock, memory, reply, after);
        }
    }
    assert forall|u: int|
        grip_of(#[trigger] (next.threads)(u)) != 0 && waiter(moved) == grip_of(
            (next.threads)(u),
        ) implies is_waiting(moved) by {
        assert(u != t);
        assert((next.threads)(u) == (system.threads)(u));
        assert(grip_of((system.threads)(u)) == node);
    }
    assert((exists|u: int| #[trigger] waiter((next.threads)(u)) == node && is_waiting(
        (next.threads)(u),
    )) ==> is_minded(next, queue, node)) by {
        if exists|u: int| #[trigger] waiter((next.threads)(u)) == node && is_waiting(
            (next.threads)(u),
        ) {
            let u = choose|u: int| #[trigger] waiter((next.threads)(u)) == node && is_waiting(
                (next.threads)(u),
            );
            if u != t {
                assert((next.threads)(u) == (system.threads)(u));
                assert(waiter((system.threads)(u)) != node);
            }
        }
    }
    outside_keeps(system, picture, t, next, node);
}

/// The links once a waiter joined the queue.
proof fn pushed_links<K: Queueing>(
    memory: Shared,
    after: Shared,
    picture: Picture,
    drawn: Picture,
    node: usize,
)
    requires
        linked::<K>(memory, picture),
        clear(memory, picture),
        K::newest(memory.word) == newest_of(picture.queue),
        K::is_node(node),
        K::ready(memory, node),
        link(memory, node, Link::Prev) == 0,
        link(memory, node, Link::Next) == K::newest(memory.word),
        link(memory, node, Link::Tail) == if K::newest(memory.word) == 0 {
            node
        } else {
            0
        },
        !picture.queue.contains(node),
        same_cells(memory, after),
        drawn.queue == picture.queue.push(node),
        drawn.resolved == if picture.queue.len() == 0 {
            0
        } else {
            picture.resolved
        },
        drawn.from == picture.from,
        drawn.busy == picture.busy,
    ensures
        linked::<K>(after, drawn),
        clear(after, drawn),
{
    let queue = picture.queue;
    let longer = drawn.queue;
    let k = drawn.resolved;
    assert forall|i: int| 0 <= i < queue.len() implies #[trigger] longer[i] == queue[i] && queue[i]
        != node by {
        assert(queue.contains(queue[i]));
    }
    assert forall|i: int| 0 <= i < longer.len() implies K::is_node(#[trigger] longer[i]) by {
        if i < queue.len() {
            assert(K::is_node(queue[i]));
        }
    }
    assert forall|i: int| 0 <= i < longer.len() implies K::ready(after, #[trigger] longer[i]) by {
        assert(same_wake(memory, after, longer[i]));
        K::node_frame(memory, after, longer[i]);
        if i < queue.len() {
            assert(K::ready(memory, queue[i]));
        }
    }
    assert forall|i: int| 0 < i < longer.len() implies link(after, #[trigger] longer[i], Link::Next)
        == longer[i - 1] by {
        if i < queue.len() {
            assert(link(memory, queue[i], Link::Next) == queue[i - 1]);
        }
    }
    assert forall|i: int| k < i < longer.len() implies link(after, #[trigger] longer[i], Link::Tail)
        == 0 by {
        if i < queue.len() {
            assert(link(memory, queue[i], Link::Tail) == 0);
        } else {
            assert(K::is_node(queue[queue.len() - 1]));
            K::of_nodes(memory, queue[queue.len() - 1]);
        }
    }
    assert forall|i: int| 0 <= i < k implies link(after, #[trigger] longer[i], Link::Prev)
        == longer[i + 1] by {
        assert(link(memory, queue[i], Link::Prev) == queue[i + 1]);
    }
    assert(longer.no_duplicates());
    if queue.len() > 0 {
        assert(longer[k] == queue[k]);
    }
    assert forall|i: int| first_clear(drawn) <= i < longer.len() implies link(
        after,
        #[trigger] longer[i],
        Link::Prev,
    ) == 0 by {
        if i < queue.len() {
            assert(link(memory, queue[i], Link::Prev) == 0);
        }
    }
}

/// A waiter joins the queue.
proof fn push_keeps<K: Queueing>(
    system: System<K>,
    picture: Picture,
    t: int,
    lock: K::Lock,
    reply: Reply,
    next: System<K>,
)
    requires
        whole(system, picture),
        sound(next),
        flags_fit(next),
        (system.threads)(t) == Thread::<K>::Locking(lock),
        forall|other: int|
            other != t ==> #[trigger] (next.threads)(other) == (system.threads)(other),
        acts((system.threads)(t), system.memory, reply, (next.threads)(t), next.memory),
        K::joins(lock, reply),
    ensures
        whole(next, redrawn(picture, t, (system.threads)(t), reply)),
{
    let memory = system.memory;
    let after = next.memory;
    let queue = picture.queue;
    let node = lock.waiter();
    let thread = (system.threads)(t);
    let moved = (next.threads)(t);
    let drawn = redrawn(picture, t, thread, reply);
    let longer = drawn.queue;
    step_is_sound(system, picture, t, reply, moved, after);
    assert(fits(thread, memory, queue));
    assert(thread_wf(thread));
    K::lock_frame(lock, memory, memory);
    K::lock_knows_frame(lock, memory, memory);
    assert(waiter(thread) == node);
    assert(waiter(moved) == node) by {
        K::lock_step(lock, memory, reply, after);
    }
    assert forall|other: usize| #[trigger] longer.contains(other) implies queue.contains(other)
        || other == node by {
        let i = choose|i: int| 0 <= i < longer.len() && longer[i] == other;
        if i < queue.len() {
            assert(queue[i] == other);
        }
    }
    assert forall|other: usize| queue.contains(other) implies #[trigger] longer.contains(other) by {
        let i = choose|i: int| 0 <= i < queue.len() && queue[i] == other;
        assert(longer[i] == other);
    }
    assert(longer.contains(node)) by {
        assert(longer[queue.len() as int] == node);
    }
    assert(is_calm(memory, after, queue, longer, node));
    pushed_links::<K>(memory, after, picture, drawn, node);
    stays_minded(system, picture, t, next, longer, node);
    assert forall|u: int|
        u != t && (waiter(#[trigger] (next.threads)(u)) == node || grip_of((next.threads)(u))
            == node) implies fits((next.threads)(u), after, longer) by {
        assert((next.threads)(u) == (system.threads)(u));
        assert(waiter((system.threads)(u)) != node);
        assert(grip_of((system.threads)(u)) == waiter((system.threads)(t)));
        assert(is_waiting((system.threads)(t)));
    }
    assert forall|u: int| is_busy(#[trigger] (next.threads)(u)) <==> drawn.busy && u
        == drawn.by by {
        assert(is_busy((system.threads)(u)) <==> picture.busy && u == picture.by);
        assert(u != t ==> (next.threads)(u) == (system.threads)(u));
    }
    if drawn.busy {
        let stage = stage_of((system.threads)(picture.by));
        assert(is_busy((system.threads)(picture.by)));
        assert((next.threads)(picture.by) == (system.threads)(picture.by));
        assert(stage_fits(stage, memory, picture));
        assert forall|first: int, last: int|
            0 <= first && last < queue.len() && walked(memory, queue, first, last) implies
            #[trigger] walked(after, longer, first, last) by {
            assert forall|i: int| first <= i < last implies link(
                after,
                #[trigger] longer[i],
                Link::Prev,
            ) == longer[i + 1] by {
                assert(link(memory, queue[i], Link::Prev) == queue[i + 1]);
            }
        }
        assert(stage_fits(stage, after, drawn));
    }
    stays_whole(system, picture, t, next, drawn, node);
}

/// A thread begins an operation.
proof fn start_keeps<K: Queueing>(
    system: System<K>,
    picture: Picture,
    t: int,
    next: System<K>,
)
    requires
        whole(system, picture),
        is_peopled(system, picture.queue),
        sound(next),
        forall|other: int|
            other != t ==> #[trigger] (next.threads)(other) == (system.threads)(other),
        starts(system, (system.threads)(t), (next.threads)(t)),
        next.memory == system.memory,
    ensures
        whole(next, picture),
        is_peopled(next, picture.queue),
{
    let thread = (system.threads)(t);
    let moved = (next.threads)(t);
    let memory = system.memory;
    let queue = picture.queue;
    assert(fits(thread, memory, queue));
    assert(thread_wf(thread));
    assert(thread_wf(moved));
    match thread {
        Thread::Locking(lock) => {
            K::lock_knows_frame(lock, memory, memory);
        },
        Thread::Unlocking(unlock) => {
            K::unlock_knows_frame(unlock, memory, memory);
        },
        _ => {},
    }
    match moved {
        Thread::Locking(lock) => {
            K::lock_knows_frame(lock, memory, memory);
            assert(!queue.contains(lock.waiter())) by {
                if queue.contains(lock.waiter()) {
                    let i = choose|i: int| 0 <= i < queue.len() && queue[i] == lock.waiter();
                    assert(is_waited_by(system, queue[i]));
                }
            }
        },
        Thread::Unlocking(unlock) => {
            K::unlock_knows_frame(unlock, memory, memory);
        },
        _ => {},
    }
    assert forall|u: int| grip_of(#[trigger] (next.threads)(u)) != 0 implies waiter(moved)
        != grip_of((next.threads)(u)) by {
        assert(u != t);
        assert((next.threads)(u) == (system.threads)(u));
        assert(is_waited_by(system, grip_of((system.threads)(u))));
        assert(K::is_node(waiter(moved)) || waiter(moved) == 0);
    }
    assert(flags_fit(next)) by {
        if K::flagged() {
            assert(!has_token(moved, memory));
            assert forall|u: int| has_token(#[trigger] (next.threads)(u), memory) implies has_token(
                (system.threads)(u),
                memory,
            ) && u != t by {
                assert(u != t ==> (next.threads)(u) == (system.threads)(u));
            }
        }
    }
    assert(is_calm(memory, memory, queue, queue, 0));
    outside_keeps(system, picture, t, next, 0);
    assert forall|node: usize| is_waited_by(system, node) implies #[trigger] is_waited_by(
        next,
        node,
    ) by {
        let v = choose|v: int|
            is_waiting(#[trigger] (system.threads)(v)) && waiter((system.threads)(v)) == node;
        assert(v != t);
        assert((next.threads)(v) == (system.threads)(v));
    }
    assert forall|i: int| 0 <= i < queue.len() implies is_waited_by(next, #[trigger] queue[i]) by {
        assert(is_waited_by(system, queue[i]));
    }
    assert forall|u: int| grip_of(#[trigger] (next.threads)(u)) != 0 implies is_waited_by(
        next,
        grip_of((next.threads)(u)),
    ) by {
        assert(u != t);
        assert((next.threads)(u) == (system.threads)(u));
    }
}

/// An unlock that has nothing to do with the queue yet.
proof fn idle_keeps<K: Queueing>(
    system: System<K>,
    picture: Picture,
    t: int,
    unlock: K::Unlock,
    reply: Reply,
    next: System<K>,
)
    requires
        whole(system, picture),
        sound(next),
        flags_fit(next),
        (system.threads)(t) == Thread::<K>::Unlocking(unlock),
        forall|other: int|
            other != t ==> #[trigger] (next.threads)(other) == (system.threads)(other),
        acts((system.threads)(t), system.memory, reply, (next.threads)(t), next.memory),
        K::stage(unlock) is Idle,
        K::grip(unlock) == 0,
    ensures
        whole(next, redrawn(picture, t, (system.threads)(t), reply)),
{
    let memory = system.memory;
    let after = next.memory;
    let queue = picture.queue;
    let thread = (system.threads)(t);
    let moved = (next.threads)(t);
    let drawn = redrawn(picture, t, thread, reply);
    step_is_sound(system, picture, t, reply, moved, after);
    assert(fits(thread, memory, queue));
    assert(thread_wf(thread));
    assert(thread_wf(moved));
    K::unlock_knows_frame(unlock, memory, memory);
    assert(waiter(moved) == 0 && waiter(thread) == 0);
    assert(is_calm(memory, after, queue, queue, 0));
    assert forall|i: int| 0 <= i < queue.len() implies K::ready(after, #[trigger] queue[i]) by {
        assert(K::ready(memory, queue[i]));
        assert(same_wake(memory, after, queue[i]));
        K::node_frame(memory, after, queue[i]);
    }
    if is_busy(moved) {
        assert(!picture.busy) by {
            if picture.busy {
                let other = (system.threads)(picture.by);
                assert(is_busy(other));
                assert(thread_wf(other));
                if let Thread::Unlocking(theirs) = other {
                    K::unlock_knows_frame(theirs, memory, memory);
                    if K::flagged() {
                        assert(has_token((system.threads)(picture.by), memory));
                    } else {
                        assert(holds(thread, memory));
                        assert(holds(other, memory));
                    }
                }
            }
        }
        if queue.len() == 0 {
            assert(K::newest(memory.word) == 0);
        }
        links_stay::<K>(memory, after, picture, drawn);
        stays_minded(system, picture, t, next, queue, 0);
        assert forall|u: int| is_busy(#[trigger] (next.threads)(u)) <==> drawn.busy && u
            == drawn.by by {
            assert(!is_busy((system.threads)(u)));
            assert(u != t ==> (next.threads)(u) == (system.threads)(u));
        }
        stays_whole(system, picture, t, next, drawn, 0);
    } else {
        outside_keeps(system, picture, t, next, 0);
    }
}

/// An unlock wakes the waiter that it has taken off the queue.
proof fn wake_keeps<K: Queueing>(
    system: System<K>,
    picture: Picture,
    t: int,
    unlock: K::Unlock,
    reply: Reply,
    next: System<K>,
)
    requires
        whole(system, picture),
        sound(next),
        flags_fit(next),
        (system.threads)(t) == Thread::<K>::Unlocking(unlock),
        forall|other: int|
            other != t ==> #[trigger] (next.threads)(other) == (system.threads)(other),
        acts((system.threads)(t), system.memory, reply, (next.threads)(t), next.memory),
        K::stage(unlock) is Idle,
        K::grip(unlock) != 0,
    ensures
        whole(next, picture),
{
    let memory = system.memory;
    let after = next.memory;
    let queue = picture.queue;
    let thread = (system.threads)(t);
    let moved = (next.threads)(t);
    let node = K::grip(unlock);
    step_is_sound(system, picture, t, reply, moved, after);
    assert(fits(thread, memory, queue));
    assert(thread_wf(thread));
    assert(thread_wf(moved));
    K::unlock_knows_frame(unlock, memory, memory);
    assert(grip_of(thread) == node);
    assert(waiter(moved) == 0 && waiter(thread) == 0);
    assert(!queue.contains(node));
    assert(is_calm(memory, after, queue, queue, node));
    assert forall|i: int| 0 <= i < queue.len() implies K::ready(after, #[trigger] queue[i]) by {
        assert(K::ready(memory, queue[i]));
        assert(queue.contains(queue[i]));
        assert(same_wake(memory, after, queue[i]));
        K::node_frame(memory, after, queue[i]);
    }
    assert forall|i: int, which: Link| 0 <= i < queue.len() implies #[trigger] link(
        after,
        queue[i],
        which,
    ) == link(memory, queue[i], which) by {
        assert(queue.contains(queue[i]));
    }
    assert(is_minded(next, queue, node)) by {
        if grip_of(moved) == node {
            assert(grip_of((next.threads)(t)) == node);
        }
    }
    assert forall|u: int|
        u != t && (waiter(#[trigger] (next.threads)(u)) == node || grip_of((next.threads)(u))
            == node) implies fits((next.threads)(u), after, queue) by {
        let other = (system.threads)(u);
        assert((next.threads)(u) == other);
        assert(fits(other, memory, queue));
        assert(thread_wf(other));
        assert(grip_of((system.threads)(u)) != grip_of((system.threads)(t)));
        assert(waiter((system.threads)(u)) == grip_of((system.threads)(t)));
        assert(is_waiting((system.threads)(u)));
        if let Thread::Locking(lock) = other {
            K::lock_frame(lock, memory, memory);
            K::unlock_obeys_lock(unlock, lock, memory, reply, after);
        }
    }
    outside_keeps(system, picture, t, next, node);
}

/// The thread at the queue changes links of waiters in it, or nothing; the queue
/// stays.
proof fn busy_step_keeps<K: Queueing>(
    system: System<K>,
    picture: Picture,
    t: int,
    next: System<K>,
    drawn: Picture,
)
    requires
        whole(system, picture),
        sound(next),
        flags_fit(next),
        forall|other: int|
            other != t ==> #[trigger] (next.threads)(other) == (system.threads)(other),
        is_busy((system.threads)(t)),
        drawn.queue == picture.queue,
        drawn.by == t,
        drawn.busy == is_busy((next.threads)(t)),
        K::newest(next.memory.word) == K::newest(system.memory.word),
        is_calm(system.memory, next.memory, picture.queue, picture.queue, 0),
        linked::<K>(next.memory, drawn),
        clear(next.memory, drawn),
        grip_of((next.threads)(t)) == grip_of((system.threads)(t)),
        fits((next.threads)(t), next.memory, picture.queue),
        waiter((next.threads)(t)) == 0,
        (next.threads)(t) is Unlocking,
        drawn.busy ==> stage_fits(stage_of((next.threads)(t)), next.memory, drawn),
    ensures
        whole(next, drawn),
{
    let queue = picture.queue;
    stays_minded(system, picture, t, next, queue, 0);
    assert forall|u: int| is_busy(#[trigger] (next.threads)(u)) <==> drawn.busy && u
        == drawn.by by {
        assert(is_busy((system.threads)(u)) <==> u == t);
        assert(u != t ==> (next.threads)(u) == (system.threads)(u));
    }
    assert forall|u: int|
        u != t && grip_of((next.threads)(t)) != 0 implies grip_of(#[trigger] (next.threads)(u))
        != grip_of((next.threads)(t)) by {
        assert((next.threads)(u) == (system.threads)(u));
        assert(grip_of((system.threads)(u)) != grip_of((system.threads)(t)));
    }
    assert forall|u: int|
        grip_of((next.threads)(t)) != 0 && waiter(#[trigger] (next.threads)(u)) == grip_of(
            (next.threads)(t),
        ) implies is_waiting((next.threads)(u)) by {
        assert(u != t ==> (next.threads)(u) == (system.threads)(u));
        assert(waiter((system.threads)(u)) == grip_of((system.threads)(t)));
    }
    stays_whole(system, picture, t, next, drawn, 0);
}

/// What the search leaves in the links.
#[verifier::spinoff_prover]
#[verifier::rlimit(40)]
proof fn found_links<K: Queueing>(
    memory: Shared,
    after: Shared,
    picture: Picture,
    drawn: Picture,
    search: Search,
    reply: Reply,
)
    requires
        linked::<K>(memory, picture),
        clear(memory, picture),
        picture.busy,
        drawn.busy,
        searches(search, memory, picture),
        search.expects(reply),
        performs(memory, search.wants(), reply, after),
        drawn == (match search.step {
            SearchStep::HeadTail => if search.after(reply).step is Keep {
                picture
            } else {
                Picture { at: picture.from, ..picture }
            },
            SearchStep::Prev { .. } => Picture { at: picture.at - 1, ..picture },
            SearchStep::Keep { .. } => Picture { resolved: picture.from, ..picture },
            _ => picture,
        }),
    ensures
        linked::<K>(after, drawn),
        clear(after, drawn),
        match search.after(reply).found() {
            None => searches(search.after(reply), after, drawn),
            Some(tail) => drawn.resolved == drawn.from && tail == drawn.queue[0],
        },
        after.word == memory.word,
        is_calm(memory, after, picture.queue, picture.queue, 0),
{
    let queue = picture.queue;
    let k = picture.resolved;
    let j = picture.from;
    let at = picture.at;
    assert forall|i: int| 0 <= i < queue.len() implies queue.contains(#[trigger] queue[i]) by {
    }
    assert(K::is_node(queue[0]));
    K::of_nodes(memory, queue[0]);
    match search.step {
        SearchStep::Prev { current, next: before } => {
            assert(forall|node: usize, which: Link|
                node != before || which != Link::Prev ==> #[trigger] link(after, node, which)
                    == link(memory, node, which));
            assert(link(after, queue[at - 1], Link::Prev) == queue[at]);
            assert forall|i: int|
                0 <= i < queue.len() && i != at - 1 implies #[trigger] queue[i] != before by {
            }
            assert(walked(after, queue, at - 1, j)) by {
                assert forall|i: int| at - 1 <= i < j implies link(
                    after,
                    #[trigger] queue[i],
                    Link::Prev,
                ) == queue[i + 1] by {
                    if i >= at {
                        assert(link(memory, queue[i], Link::Prev) == queue[i + 1]);
                    }
                }
            }
        },
        SearchStep::Keep { tail } => {
            assert(forall|node: usize, which: Link|
                node != queue[j] || which != Link::Tail ==> #[trigger] link(after, node, which)
                    == link(memory, node, which));
            assert(link(after, queue[j], Link::Tail) == queue[0]);
            assert forall|i: int| 0 <= i < queue.len() && i != j implies #[trigger] queue[i]
                != queue[j] by {
            }
        },
        SearchStep::HeadTail => {
            if j > k {
                assert(link(memory, queue[j], Link::Tail) == 0);
            } else {
                assert(walked(memory, queue, 0, j));
            }
        },
        SearchStep::Tail { current } => {
            if at > k {
                assert(link(memory, queue[at], Link::Tail) == 0);
            } else {
                assert(walked(memory, queue, 0, j)) by {
                    assert forall|i: int| 0 <= i < j implies link(
                        memory,
                        #[trigger] queue[i],
                        Link::Prev,
                    ) == queue[i + 1] by {
                    }
                }
            }
        },
        SearchStep::Next { current } => {
            assert(link(memory, queue[at], Link::Next) == queue[at - 1]);
        },
        _ => {},
    }
    assert forall|i: int| 0 <= i < queue.len() implies K::ready(after, #[trigger] queue[i]) by {
        assert(K::ready(memory, queue[i]));
        assert(same_wake(memory, after, queue[i]));
        K::node_frame(memory, after, queue[i]);
    }
    assert(linked::<K>(after, drawn)) by {
        assert forall|i: int| 0 < i < queue.len() implies link(after, #[trigger] queue[i], Link::Next)
            == queue[i - 1] by {
            assert(link(memory, queue[i], Link::Next) == queue[i - 1]);
        }
        assert forall|i: int| drawn.resolved < i < queue.len() implies link(
            after,
            #[trigger] queue[i],
            Link::Tail,
        ) == 0 by {
            assert(link(memory, queue[i], Link::Tail) == 0);
        }
        assert forall|i: int| 0 <= i < drawn.resolved implies link(
            after,
            #[trigger] queue[i],
            Link::Prev,
        ) == queue[i + 1] by {
            assert(link(memory, queue[i], Link::Prev) == queue[i + 1]);
        }
    }
    assert(clear(after, drawn)) by {
        assert forall|i: int| drawn.from <= i < queue.len() implies link(
            after,
            #[trigger] queue[i],
            Link::Prev,
        ) == 0 by {
            assert(link(memory, queue[i], Link::Prev) == 0);
        }
    }
}

/// The search goes on.
proof fn find_keeps<K: Queueing>(
    system: System<K>,
    picture: Picture,
    t: int,
    unlock: K::Unlock,
    reply: Reply,
    next: System<K>,
)
    requires
        whole(system, picture),
        sound(next),
        flags_fit(next),
        (system.threads)(t) == Thread::<K>::Unlocking(unlock),
        forall|other: int|
            other != t ==> #[trigger] (next.threads)(other) == (system.threads)(other),
        acts((system.threads)(t), system.memory, reply, (next.threads)(t), next.memory),
        K::stage(unlock) is Find,
    ensures
        whole(next, redrawn(picture, t, (system.threads)(t), reply)),
{
    let memory = system.memory;
    let after = next.memory;
    let queue = picture.queue;
    let thread = (system.threads)(t);
    let moved = (next.threads)(t);
    let drawn = redrawn(picture, t, thread, reply);
    step_is_sound(system, picture, t, reply, moved, after);
    assert(fits(thread, memory, queue));
    assert(thread_wf(thread));
    assert(thread_wf(moved));
    K::unlock_knows_frame(unlock, memory, memory);
    assert(is_busy(thread));
    assert(stage_fits(K::stage(unlock), memory, picture));
    if let Stage::Find { head, search } = K::stage(unlock) {
        assert(search.expects(reply)) by {
            if let SearchStep::Next { current } = search.step {
                assert(link(memory, queue[picture.at], Link::Next) == queue[picture.at - 1]);
                assert(K::is_node(queue[picture.at - 1]));
                K::of_nodes(memory, queue[picture.at - 1]);
            }
        }
        found_links::<K>(memory, after, picture, drawn, search, reply);
        busy_step_keeps(system, picture, t, next, drawn);
    }
}

/// The thread at the queue looks at the state word or at a link, or leaves the
/// queue.
proof fn look_keeps<K: Queueing>(
    system: System<K>,
    picture: Picture,
    t: int,
    unlock: K::Unlock,
    reply: Reply,
    next: System<K>,
)
    requires
        whole(system, picture),
        sound(next),
        flags_fit(next),
        (system.threads)(t) == Thread::<K>::Unlocking(unlock),
        forall|other: int|
            other != t ==> #[trigger] (next.threads)(other) == (system.threads)(other),
        acts((system.threads)(t), system.memory, reply, (next.threads)(t), next.memory),
        match K::stage(unlock) {
            Stage::Poised | Stage::Ready { .. } | Stage::Settled { .. } | Stage::Found { .. } | Stage::Leaving => true,
            Stage::Last { .. } => !reply.ok,
            _ => false,
        },
    ensures
        whole(next, redrawn(picture, t, (system.threads)(t), reply)),
{
    let memory = system.memory;
    let after = next.memory;
    let queue = picture.queue;
    let thread = (system.threads)(t);
    let moved = (next.threads)(t);
    let drawn = redrawn(picture, t, thread, reply);
    step_is_sound(system, picture, t, reply, moved, after);
    assert(fits(thread, memory, queue));
    assert(thread_wf(thread));
    assert(thread_wf(moved));
    K::unlock_knows_frame(unlock, memory, memory);
    assert(is_busy(thread));
    assert(stage_fits(K::stage(unlock), memory, picture));
    assert(is_calm(memory, after, queue, queue, 0));
    assert forall|i: int| 0 <= i < queue.len() implies K::ready(after, #[trigger] queue[i]) by {
        assert(K::ready(memory, queue[i]));
        assert(same_wake(memory, after, queue[i]));
        K::node_frame(memory, after, queue[i]);
    }
    assert(K::is_node(queue[0]));
    K::of_nodes(memory, queue[0]);
    if K::stage(unlock) is Found {
        if picture.from > 0 {
            assert(link(memory, queue[0], Link::Prev) == queue[1]);
            assert(K::is_node(queue[1]));
            K::of_nodes(memory, queue[1]);
        } else {
            assert(link(memory, queue[0], Link::Prev) == 0);
        }
    }
    links_stay::<K>(memory, after, picture, drawn);
    busy_step_keeps(system, picture, t, next, drawn);
}

/// The oldest waiter leaves the queue.
proof fn removal_keeps<K: Queueing>(
    system: System<K>,
    picture: Picture,
    t: int,
    next: System<K>,
    drawn: Picture,
)
    requires
        whole(system, picture),
        sound(next),
        flags_fit(next),
        forall|other: int|
            other != t ==> #[trigger] (next.threads)(other) == (system.threads)(other),
        is_busy((system.threads)(t)),
        grip_of((system.threads)(t)) == 0,
        picture.queue.len() > 0,
        drawn.queue == picture.queue.skip(1),
        drawn.by == t,
        drawn.busy == is_busy((next.threads)(t)),
        K::newest(next.memory.word) == newest_of(drawn.queue),
        is_calm(
            system.memory,
            next.memory,
            picture.queue,
            drawn.queue,
            picture.queue[0],
        ),
        linked::<K>(next.memory, drawn),
        clear(next.memory, drawn),
        grip_of((next.threads)(t)) == picture.queue[0],
        waiter((next.threads)(t)) == 0,
        (next.threads)(t) matches Thread::Unlocking(unlock) && K::unlock_knows(
            unlock,
            next.memory,
        ),
        drawn.busy ==> stage_fits(stage_of((next.threads)(t)), next.memory, drawn),
        same_wake(system.memory, next.memory, picture.queue[0]),
    ensures
        whole(next, drawn),
{
    let memory = system.memory;
    let after = next.memory;
    let queue = picture.queue;
    let shorter = drawn.queue;
    let moved = (next.threads)(t);
    let node = queue[0];
    assert(t == picture.by);
    assert(K::is_node(node));
    K::of_nodes(memory, node);
    assert(queue.contains(node));
    assert(!shorter.contains(node)) by {
        if shorter.contains(node) {
            let i = choose|i: int| 0 <= i < shorter.len() && shorter[i] == node;
            assert(queue[i + 1] == queue[0]);
        }
    }
    assert forall|other: usize|
        queue.contains(other) implies #[trigger] shorter.contains(other) || other == node by {
        let i = choose|i: int| 0 <= i < queue.len() && queue[i] == other;
        if i > 0 {
            assert(shorter[i - 1] == other);
        }
    }
    assert(is_minded(next, shorter, node)) by {
        assert(grip_of((next.threads)(t)) == node);
    }
    stays_minded(system, picture, t, next, shorter, node);
    assert forall|u: int|
        u != t && (waiter(#[trigger] (next.threads)(u)) == node || grip_of((next.threads)(u))
            == node) implies fits((next.threads)(u), after, shorter) by {
        let other = (system.threads)(u);
        assert((next.threads)(u) == other);
        assert(fits(other, memory, queue));
        assert(thread_wf(other));
        if let Thread::Locking(lock) = other {
            K::lock_frame(lock, memory, memory);
            assert(lock.waiter() == node);
            K::lock_knows_frame(lock, memory, after);
        }
    }
    assert forall|u: int| is_busy(#[trigger] (next.threads)(u)) <==> drawn.busy && u
        == drawn.by by {
        assert(is_busy((system.threads)(u)) <==> u == t);
        assert(u != t ==> (next.threads)(u) == (system.threads)(u));
    }
    assert forall|u: int| u != t implies grip_of(#[trigger] (next.threads)(u)) != grip_of(moved) by {
        assert((next.threads)(u) == (system.threads)(u));
        assert(fits((system.threads)(u), memory, queue));
    }
    assert forall|u: int| waiter(#[trigger] (next.threads)(u)) == grip_of(
        moved,
    ) implies is_waiting((next.threads)(u)) by {
        assert(u != t);
        assert((next.threads)(u) == (system.threads)(u));
        assert(fits((system.threads)(u), memory, queue));
        assert(thread_wf((system.threads)(u)));
        if let Thread::Locking(lock) = (system.threads)(u) {
            K::lock_frame(lock, memory, memory);
        }
    }
    stays_whole(system, picture, t, next, drawn, node);
}

/// The links once the oldest waiter of several has left the queue.
proof fn cut_links<K: Queueing>(memory: Shared, after: Shared, picture: Picture, drawn: Picture)
    requires
        linked::<K>(memory, picture),
        clear(memory, picture),
        picture.busy,
        picture.resolved == picture.from,
        picture.from > 0,
        forall|node: usize, which: Link|
            node != picture.queue[picture.from] || which != Link::Tail ==> #[trigger] link(
                after,
                node,
                which,
            ) == link(memory, node, which),
        link(after, picture.queue[picture.from], Link::Tail) == picture.queue[1],
        forall|i: int|
            0 <= i < picture.queue.len() ==> K::ready(after, #[trigger] picture.queue[i]),
        drawn.queue == picture.queue.skip(1),
        drawn.resolved == picture.from - 1,
        drawn.from == picture.from - 1,
    ensures
        linked::<K>(after, drawn),
        clear(after, drawn),
        newest_of(drawn.queue) == newest_of(picture.queue),
{
    let queue = picture.queue;
    let shorter = drawn.queue;
    let j = picture.from;
    assert forall|i: int| 0 <= i < queue.len() && i != j implies #[trigger] queue[i] != queue[j] by {
    }
    assert forall|i: int| 0 <= i < shorter.len() implies #[trigger] shorter[i] == queue[i + 1] by {
    }
    assert forall|i: int| 0 <= i < shorter.len() implies K::is_node(#[trigger] shorter[i]) by {
        assert(K::is_node(queue[i + 1]));
    }
    assert forall|i: int| 0 <= i < shorter.len() implies K::ready(after, #[trigger] shorter[i]) by {
        assert(K::ready(after, queue[i + 1]));
    }
    assert forall|i: int| 0 < i < shorter.len() implies link(
        after,
        #[trigger] shorter[i],
        Link::Next,
    ) == shorter[i - 1] by {
        assert(link(memory, queue[i + 1], Link::Next) == queue[i]);
    }
    assert forall|i: int| j - 1 < i < shorter.len() implies link(
        after,
        #[trigger] shorter[i],
        Link::Tail,
    ) == 0 by {
        assert(link(memory, queue[i + 1], Link::Tail) == 0);
    }
    assert forall|i: int| 0 <= i < j - 1 implies link(after, #[trigger] shorter[i], Link::Prev)
        == shorter[i + 1] by {
        assert(link(memory, queue[i + 1], Link::Prev) == queue[i + 2]);
    }
    assert(shorter[j - 1] == queue[j]);
    assert(shorter[0] == queue[1]);
    assert(shorter.no_duplicates());
    assert forall|i: int| j - 1 <= i < shorter.len() implies link(
        after,
        #[trigger] shorter[i],
        Link::Prev,
    ) == 0 by {
        assert(link(memory, queue[i + 1], Link::Prev) == 0);
    }
    assert(shorter.last() == queue.last());
}

/// The oldest waiter of several leaves the queue.
proof fn cut_keeps<K: Queueing>(
    system: System<K>,
    picture: Picture,
    t: int,
    unlock: K::Unlock,
    reply: Reply,
    next: System<K>,
)
    requires
        whole(system, picture),
        sound(next),
        flags_fit(next),
        (system.threads)(t) == Thread::<K>::Unlocking(unlock),
        forall|other: int|
            other != t ==> #[trigger] (next.threads)(other) == (system.threads)(other),
        acts((system.threads)(t), system.memory, reply, (next.threads)(t), next.memory),
        K::stage(unlock) is Cut,
    ensures
        whole(next, redrawn(picture, t, (system.threads)(t), reply)),
{
    let memory = system.memory;
    let after = next.memory;
    let queue = picture.queue;
    let thread = (system.threads)(t);
    let moved = (next.threads)(t);
    let drawn = redrawn(picture, t, thread, reply);
    let shorter = drawn.queue;
    let j = picture.from;
    step_is_sound(system, picture, t, reply, moved, after);
    assert(fits(thread, memory, queue));
    assert(thread_wf(thread));
    assert(thread_wf(moved));
    K::unlock_knows_frame(unlock, memory, memory);
    assert(is_busy(thread));
    assert(stage_fits(K::stage(unlock), memory, picture));
    assert(forall|node: usize, which: Link|
        node != queue[j] || which != Link::Tail ==> #[trigger] link(after, node, which) == link(
            memory,
            node,
            which,
        ));
    assert(link(after, queue[j], Link::Tail) == queue[1]);
    assert forall|node: usize| #[trigger] wake_of(after, node) == wake_of(memory, node) by {
    }
    assert forall|i: int| 0 <= i < queue.len() implies K::ready(after, #[trigger] queue[i]) by {
        assert(K::ready(memory, queue[i]));
        assert(same_wake(memory, after, queue[i]));
        K::node_frame(memory, after, queue[i]);
    }
    cut_links::<K>(memory, after, picture, drawn);
    assert forall|node: usize| #[trigger] shorter.contains(node) implies queue.contains(node) by {
        let i = choose|i: int| 0 <= i < shorter.len() && shorter[i] == node;
        assert(queue[i + 1] == node);
    }
    assert(queue.contains(queue[j]));
    assert(is_calm(memory, after, queue, shorter, queue[0]));
    assert(K::ready(memory, queue[0]));
    assert(after.word == memory.word);
    removal_keeps(system, picture, t, next, drawn);
}

/// The only waiter leaves the queue.
proof fn last_keeps<K: Queueing>(
    system: System<K>,
    picture: Picture,
    t: int,
    unlock: K::Unlock,
    reply: Reply,
    next: System<K>,
)
    requires
        whole(system, picture),
        sound(next),
        flags_fit(next),
        (system.threads)(t) == Thread::<K>::Unlocking(unlock),
        forall|other: int|
            other != t ==> #[trigger] (next.threads)(other) == (system.threads)(other),
        acts((system.threads)(t), system.memory, reply, (next.threads)(t), next.memory),
        K::stage(unlock) is Last,
        reply.ok,
    ensures
        whole(next, redrawn(picture, t, (system.threads)(t), reply)),
{
    let memory = system.memory;
    let after = next.memory;
    let queue = picture.queue;
    let thread = (system.threads)(t);
    let moved = (next.threads)(t);
    let drawn = redrawn(picture, t, thread, reply);
    step_is_sound(system, picture, t, reply, moved, after);
    assert(fits(thread, memory, queue));
    assert(thread_wf(thread));
    assert(thread_wf(moved));
    K::unlock_knows_frame(unlock, memory, memory);
    assert(is_busy(thread));
    assert(stage_fits(K::stage(unlock), memory, picture));
    assert(queue[0] == queue[queue.len() - 1]);
    assert(queue.len() == 1);
    assert(queue.skip(1) =~= Seq::<usize>::empty());
    assert(K::ready(memory, queue[0]));
    assert(is_calm(memory, after, queue, drawn.queue, queue[0]));
    removal_keeps(system, picture, t, next, drawn);
}

/// A step of an unlock.
proof fn unlocking_keeps<K: Queueing>(
    system: System<K>,
    picture: Picture,
    t: int,
    unlock: K::Unlock,
    reply: Reply,
    next: System<K>,
)
    requires
        whole(system, picture),
        sound(next),
        flags_fit(next),
        (system.threads)(t) == Thread::<K>::Unlocking(unlock),
        forall|other: int|
            other != t ==> #[trigger] (next.threads)(other) == (system.threads)(other),
        acts((system.threads)(t), system.memory, reply, (next.threads)(t), next.memory),
    ensures
        whole(next, redrawn(picture, t, (system.threads)(t), reply)),
{
    match K::stage(unlock) {
        Stage::Idle => {
            if K::grip(unlock) == 0 {
                idle_keeps(system, picture, t, unlock, reply, next);
            } else {
                step_is_sound(system, picture, t, reply, (next.threads)(t), next.memory);
                wake_keeps(system, picture, t, unlock, reply, next);
            }
        },
        Stage::Find { .. } => {
            find_keeps(system, picture, t, unlock, reply, next);
        },
        Stage::Cut { .. } => {
            cut_keeps(system, picture, t, unlock, reply, next);
        },
        Stage::Last { .. } => {
            if reply.ok {
                last_keeps(system, picture, t, unlock, reply, next);
            } else {
                look_keeps(system, picture, t, unlock, reply, next);
            }
        },
        _ => {
            look_keeps(system, picture, t, unlock, reply, next);
        },
    }
}

/// Whether a step lets waiters in and out in turn: it leaves the queue as it is,
/// lets a thread join at its end, or takes the oldest waiter off to wake it.
pub open spec fn goes_in_turn<K: Queueing>(
    queue: Seq<usize>,
    next_queue: Seq<usize>,
    thread: Thread<K>,
    moved: Thread<K>,
) -> bool {
    ||| next_queue == queue
    ||| is_waiting(moved) && next_queue == queue.push(waiter(thread))
    ||| queue.len() > 0 && next_queue == queue.skip(1) && grip_of(moved) == queue[0]
}

/// The queue before and after a step.
proof fn redrawn_in_turn<K: Queueing>(
    system: System<K>,
    picture: Picture,
    t: int,
    reply: Reply,
    next: System<K>,
)
    requires
        whole(system, picture),
        acts((system.threads)(t), system.memory, reply, (next.threads)(t), next.memory),
    ensures
        goes_in_turn(
            picture.queue,
            redrawn(picture, t, (system.threads)(t), reply).queue,
            (system.threads)(t),
            (next.threads)(t),
        ),
{
    let thread = (system.threads)(t);
    let queue = picture.queue;
    step_is_sound(system, picture, t, reply, (next.threads)(t), next.memory);
    assert(thread_wf(thread));
    match thread {
        Thread::Locking(lock) => {
            K::lock_frame(lock, system.memory, system.memory);
        },
        Thread::Unlocking(unlock) => {
            if K::stage(unlock) is Cut || K::stage(unlock) is Last {
                assert(is_busy(thread));
                assert(stage_fits(K::stage(unlock), system.memory, picture));
                if K::stage(unlock) is Last && reply.ok {
                    assert(queue[0] == queue[queue.len() - 1]);
                    assert(queue.len() == 1);
                    assert(queue.skip(1) =~= Seq::<usize>::empty());
                }
            }
        },
        _ => {},
    }
}

/// A thread that waits by a waiter still does so after a step of another one,
/// and after a step of its own unless it was woken.
proof fn still_waited_by<K: Queueing>(
    system: System<K>,
    picture: Picture,
    t: int,
    reply: Reply,
    next: System<K>,
    node: usize,
)
    requires
        whole(system, picture),
        forall|other: int|
            other != t ==> #[trigger] (next.threads)(other) == (system.threads)(other),
        acts((system.threads)(t), system.memory, reply, (next.threads)(t), next.memory),
        is_waited_by(system, node),
        !K::woken(system.memory, node),
    ensures
        is_waited_by(next, node),
{
    let memory = system.memory;
    let v = choose|v: int|
        is_waiting(#[trigger] (system.threads)(v)) && waiter((system.threads)(v)) == node;
    assert(thread_wf((system.threads)(v)));
    assert(is_waiting((next.threads)(v)) && waiter((next.threads)(v)) == node) by {
        if v != t {
            assert((next.threads)(v) == (system.threads)(v));
        } else {
            step_is_sound(system, picture, t, reply, (next.threads)(t), next.memory);
            if let Thread::Locking(lock) = (system.threads)(t) {
                K::lock_frame(lock, memory, memory);
                K::lock_step(lock, memory, reply, next.memory);
            }
        }
    }
}

/// After a step, too, every waiter is one that a thread waits by.
proof fn stays_peopled<K: Queueing>(
    system: System<K>,
    picture: Picture,
    t: int,
    reply: Reply,
    next: System<K>,
)
    requires
        whole(system, picture),
        is_peopled(system, picture.queue),
        forall|other: int|
            other != t ==> #[trigger] (next.threads)(other) == (system.threads)(other),
        acts((system.threads)(t), system.memory, reply, (next.threads)(t), next.memory),
    ensures
        is_peopled(next, redrawn(picture, t, (system.threads)(t), reply).queue),
{
    let memory = system.memory;
    let thread = (system.threads)(t);
    let moved = (next.threads)(t);
    let queue = picture.queue;
    let drawn = redrawn(picture, t, thread, reply);
    redrawn_in_turn(system, picture, t, reply, next);
    step_is_sound(system, picture, t, reply, moved, next.memory);
    assert(thread_wf(thread));
    assert(fits(thread, memory, queue));
    assert forall|i: int| 0 <= i < queue.len() implies is_waited_by(next, #[trigger] queue[i]) by {
        assert(K::ready(memory, queue[i]));
        K::of_nodes(memory, queue[i]);
        assert(is_waited_by(system, queue[i]));
        still_waited_by(system, picture, t, reply, next, queue[i]);
    }
    assert forall|i: int| 0 <= i < drawn.queue.len() implies is_waited_by(
        next,
        #[trigger] drawn.queue[i],
    ) by {
        if drawn.queue == queue {
        } else if is_waiting(moved) && drawn.queue == queue.push(waiter(thread)) {
            if i < queue.len() {
                assert(drawn.queue[i] == queue[i]);
            } else {
                if let Thread::Locking(lock) = thread {
                    K::lock_step(lock, memory, reply, next.memory);
                }
                assert(is_waiting((next.threads)(t)) && waiter((next.threads)(t))
                    == drawn.queue[i]);
            }
        } else {
            assert(drawn.queue[i] == queue[i + 1]);
        }
    }
    assert forall|u: int| grip_of(#[trigger] (next.threads)(u)) != 0 implies is_waited_by(
        next,
        grip_of((next.threads)(u)),
    ) by {
        let node = grip_of((next.threads)(u));
        if grip_of((system.threads)(u)) == node {
            assert(fits((system.threads)(u), memory, queue));
            assert(thread_wf((system.threads)(u)));
            if let Thread::Unlocking(unlock) = (system.threads)(u) {
                K::unlock_knows_frame(unlock, memory, memory);
            }
            assert(is_waited_by(system, grip_of((system.threads)(u))));
            still_waited_by(system, picture, t, reply, next, node);
        } else {
            assert(u == t);
            if let Thread::Unlocking(unlock) = thread {
                K::unlock_knows_frame(unlock, memory, memory);
                assert(is_busy(thread));
                assert(stage_fits(K::stage(unlock), memory, picture));
                assert(node == queue[0]);
            }
        }
    }
}

/// A step keeps the system whole, and lets waiters in and out in turn: those who
/// join first are woken first.
pub proof fn turn_keeps<K: Queueing>(
    system: System<K>,
    picture: Picture,
    t: int,
    reply: Reply,
    next: System<K>,
)
    requires
        whole(system, picture),
        is_peopled(system, picture.queue),
        turn(system, t, reply, next),
    ensures
        moves(system, t, reply, next),
        exists|drawn: Picture|
            #[trigger] whole(next, drawn) && is_peopled(next, drawn.queue) && goes_in_turn(
                picture.queue,
                drawn.queue,
                (system.threads)(t),
                (next.threads)(t),
            ),
{
    let thread = (system.threads)(t);
    let moved = (next.threads)(t);
    let memory = system.memory;
    if acts(thread, memory, reply, moved, next.memory) {
        step_is_sound(system, picture, t, reply, moved, next.memory);
        assert(thread_wf(thread));
        assert(go_on(thread, memory, reply, moved, next.memory));
        step_keeps(system, t, reply, next);
        flags_stay(system, picture, t, reply, next);
        let drawn = redrawn(picture, t, thread, reply);
        match thread {
            Thread::Idle => {},
            Thread::Trying(attempt) => {
                trying_keeps(system, picture, t, attempt, reply, next);
            },
            Thread::Locking(lock) => {
                if K::joins(lock, reply) {
                    push_keeps(system, picture, t, lock, reply, next);
                } else {
                    locking_keeps(system, picture, t, lock, reply, next);
                }
            },
            Thread::Unlocking(unlock) => {
                unlocking_keeps(system, picture, t, unlock, reply, next);
            },
        }
        redrawn_in_turn(system, picture, t, reply, next);
        stays_peopled(system, picture, t, reply, next);
        assert(whole(next, drawn));
    } else {
        assert(starts(system, thread, moved));
        step_keeps(system, t, reply, next);
        start_keeps(system, picture, t, next);
        assert(whole(next, picture));
    }
}

/// A history: systems each of which is one step from the one before, from a free
/// lock that no thread has touched on.
pub open spec fn history<K: Queueing>(
    systems: Seq<System<K>>,
    who: Seq<int>,
    replies: Seq<Reply>,
) -> bool {
    &&& systems.len() > 0
    &&& who.len() == systems.len() - 1
    &&& replies.len() == systems.len() - 1
    &&& initial(systems[0])
    &&& systems[0].memory.word == UNLOCKED
    &&& forall|i: int|
        0 <= i < systems.len() - 1 ==> turn(
            systems[i],
            #[trigger] who[i],
            replies[i],
            systems[i + 1],
        )
}

/// A history leads through whole systems only.
pub proof fn always_whole<K: Queueing>(
    systems: Seq<System<K>>,
    who: Seq<int>,
    replies: Seq<Reply>,
    i: int,
)
    requires
        history(systems, who, replies),
        0 <= i < systems.len(),
    ensures
        exists|picture: Picture|
            #[trigger] whole(systems[i], picture) && is_peopled(systems[i], picture.queue),
    decreases i,
{
    if i == 0 {
        let system = systems[0];
        let picture = Picture {
            queue: Seq::empty(),
            resolved: 0,
            busy: false,
            by: 0,
            from: 0,
            at: 0,
        };
        assert forall|t: int| (#[trigger] (system.threads)(t)) is Idle by {
        }
        K::of_nodes(system.memory, 0);
        assert(whole(system, picture));
    } else {
        always_whole(systems, who, replies, i - 1);
        let before = systems[i - 1];
        let picture = choose|picture: Picture|
            #[trigger] whole(before, picture) && is_peopled(before, picture.queue);
        assert(turn(systems[i - 1], who[i - 1], replies[i - 1], systems[i]));
        turn_keeps(systems[i - 1], picture, who[i - 1], replies[i - 1], systems[i]);
    }
}

/// At no point of any history does an operation get a reply that it does not
/// expect: whatever the next access of a thread gives back, the operation goes
/// on from it.
pub proof fn every_reply_is_expected<K: Queueing>(
    systems: Seq<System<K>>,
    who: Seq<int>,
    replies: Seq<Reply>,
    i: int,
    t: int,
    reply: Reply,
    after: Thread<K>,
    next: Shared,
)
    requires
        history(systems, who, replies),
        0 <= i < systems.len(),
        acts((systems[i].threads)(t), systems[i].memory, reply, after, next),
    ensures
        expected((systems[i].threads)(t), reply),
{
    always_whole(systems, who, replies, i);
    let system = systems[i];
    let picture = choose|picture: Picture| whole(system, picture);
    step_is_sound(systems[i], picture, t, reply, after, next);
}

/// At no point of any history do two threads hold the lock.
pub proof fn one_holder<K: Queueing>(
    systems: Seq<System<K>>,
    who: Seq<int>,
    replies: Seq<Reply>,
    i: int,
    t: int,
    u: int,
)
    requires
        history(systems, who, replies),
        0 <= i < systems.len(),
        holds((systems[i].threads)(t), systems[i].memory),
        holds((systems[i].threads)(u), systems[i].memory),
    ensures
        t == u,
        K::is_held(systems[i].memory.word),
{
    always_whole(systems, who, replies, i);
    let system = systems[i];
    let picture = choose|picture: Picture| whole(system, picture);
    let one = (system.threads)(t);
    let two = (system.threads)(u);
    assert(sound(system));
}

/// At no point of any history is a thread that waits forgotten: its waiter
/// stands in the queue of the lock, or another thread is about to wake it, or it
/// was woken.
pub proof fn nobody_is_forgotten<K: Queueing>(
    systems: Seq<System<K>>,
    who: Seq<int>,
    replies: Seq<Reply>,
    i: int,
    t: int,
)
    requires
        history(systems, who, replies),
        0 <= i < systems.len(),
        is_waiting((systems[i].threads)(t)),
    ensures
        exists|picture: Picture|
            #[trigger] whole(systems[i], picture) && is_minded(
                systems[i],
                picture.queue,
                waiter((systems[i].threads)(t)),
            ),
{
    always_whole(systems, who, replies, i);
    let system = systems[i];
    let picture = choose|picture: Picture| whole(system, picture);
    assert(is_minded(system, picture.queue, waiter((system.threads)(t))));
}

} // verus!
