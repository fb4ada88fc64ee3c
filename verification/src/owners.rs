//! Whose waker it is that is taken.
//!
//! A future may be polled by one task after another, and each poll that ends
//! pending leaves the waker of its own task behind. So it is to be shown that
//! the waker which is taken in the end is that of the last such poll.
//!
//! The memory tells only whether a waiter has a waker. A *ledger* runs along
//! with a history and tells the rest: whose waker a waiter has, which task polls
//! on behalf of a thread, and which task the wake is due to. The waker that a
//! poll stores is that of its task; a waker that is found to wake the task is
//! its own; and a wake is due to the task of the last poll that left its waker
//! in place. Every poll that ends pending does, but for one that finds the waker
//! being taken: that one stores nothing, and the wake that is under way goes to
//! the task before it.
use vstd::prelude::*;
use crate::access::{Access, Operation, Reply};
use crate::exclusion::{
    LockKind, Party, System, Thread, give_up, sound, thread_wf, waiter, wake_of,
};
use crate::meeting::{Meeting, Scene, always_agree, play};
use crate::memory::{Shared, performs, put_waker};
use crate::parking::Parking;
use crate::upkeep::{Upkeep, same_wake_for_others};
use crate::{parking, queue};

verus! {

/// Whose wakers the waiters have after an access of the task.
pub open spec fn owners_after(
    access: Access,
    task: int,
    owner: spec_fn(usize) -> int,
) -> spec_fn(usize) -> int {
    match access {
        Access::StoreWaker(node) => |other: usize|
            if other == node {
                task
            } else {
                owner(other)
            },
        _ => owner,
    }
}

/// A waker wakes the task that asks only if it is a waker of that task.
pub open spec fn is_truthful(
    access: Access,
    reply: Reply,
    task: int,
    owner: spec_fn(usize) -> int,
) -> bool {
    match access {
        Access::WillWake(node) => reply.ok ==> owner(node) == task,
        _ => true,
    }
}

/// Whether the access leaves the waiter with a waker of the task.
pub open spec fn leaves_own(access: Access, reply: Reply, node: usize) -> bool {
    ||| access == Access::StoreWaker(node)
    ||| access == Access::WillWake(node) && reply.ok
}

/// A cell by which one task after another waits: how its waker is to be read.
pub trait CellOwners: Meeting {
    /// The waiter whose waker it is.
    spec fn cell(wait: Self::Wait) -> usize;

    /// Whether the waker is in its place, and nobody is taking it.
    spec fn is_set(memory: Shared, node: usize) -> bool;

    /// Whether the waker may still be taken.
    spec fn is_live(memory: Shared, node: usize) -> bool;

    /// Whether the poll is over, and the task waits.
    spec fn pends(wait: Self::Wait) -> bool;

    /// Whether the waker is one that the poll under way has seen to.
    spec fn trusts(wait: Self::Wait) -> bool;

    /// Whether the poll leaves the waker to the thread that takes it.
    spec fn leaves(wait: Self::Wait) -> bool;

    proof fn of_waiting(memory: Shared, wait: Self::Wait, notify: Self::Notify)
        ensures
            Self::begins(memory, wait, notify) ==> Self::leaves(wait) && !Self::trusts(wait)
                && !Self::pends(wait),
            Self::pends(wait) ==> {
                &&& Self::leaves(wait)
                &&& !Self::trusts(wait)
                &&& wait.wants() is Done
            },
            Self::is_set(memory, Self::cell(wait)) ==> Self::is_live(memory, Self::cell(wait)),
            forall|next: Self::Wait| #[trigger]
                Self::waits_again(wait, next) ==> {
                    &&& Self::cell(next) == Self::cell(wait)
                    &&& Self::pends(wait)
                    &&& !Self::pends(next)
                    &&& !Self::trusts(next)
                },
    ;

    /// A poll that ends pending has seen to the waker, unless it is being taken.
    proof fn wait_sees_to(
        memory: Shared,
        wait: Self::Wait,
        notify: Self::Notify,
        reply: Reply,
        next: Shared,
    )
        requires
            Self::agree(memory, wait, notify),
            !(wait.wants() is Done),
            performs(memory, wait.wants(), reply, next),
        ensures
            ({
                let node = Self::cell(wait);
                let after = wait.after(reply);
                let own = leaves_own(wait.wants(), reply, node) || Self::trusts(wait);
                &&& Self::cell(after) == node
                &&& wait.wants() matches Access::StoreWaker(other) ==> other == node
                &&& Self::trusts(after) ==> own
                &&& Self::pends(after) && Self::is_set(next, node) ==> own
                &&& Self::leaves(after) && Self::is_live(next, node) ==> {
                    ||| Self::pends(after) && Self::is_set(next, node)
                    ||| Self::leaves(wait) && Self::is_live(memory, node) && !leaves_own(
                        wait.wants(),
                        reply,
                        node,
                    )
                }
            }),
    ;

    /// The thread that wakes stores no waker, and takes only one that the poll
    /// leaves to it.
    proof fn notify_takes(
        memory: Shared,
        wait: Self::Wait,
        notify: Self::Notify,
        reply: Reply,
        next: Shared,
    )
        requires
            Self::agree(memory, wait, notify),
            !(notify.wants() is Done),
            performs(memory, notify.wants(), reply, next),
        ensures
            !(notify.wants() is StoreWaker),
            Self::is_set(next, Self::cell(wait)) ==> Self::is_set(memory, Self::cell(wait)),
            Self::is_live(next, Self::cell(wait)) ==> Self::is_live(memory, Self::cell(wait)),
            notify.wants() matches Access::TakeWaker(node) ==> {
                &&& node == Self::cell(wait)
                &&& Self::leaves(wait)
                &&& Self::is_live(memory, node)
            },
    ;
}

/// What runs along with the scenes at a cell.
pub struct CellLedger {
    /// Whose waker each waiter has.
    pub owner: spec_fn(usize) -> int,
    /// Which task polls, or polled last.
    pub task: int,
    /// Which task the wake is due to.
    pub due: int,
}

/// How the ledger goes on when a scene does.
pub open spec fn goes_along<M: CellOwners>(
    scene: Scene<M>,
    reply: Reply,
    next: Scene<M>,
    ledger: CellLedger,
    after: CellLedger,
) -> bool {
    ||| {
        // A poll goes on.
        &&& !(scene.wait.wants() is Done)
        &&& performs(scene.memory, scene.wait.wants(), reply, next.memory)
        &&& next.wait == scene.wait.after(reply)
        &&& next.notify == scene.notify
        &&& is_truthful(scene.wait.wants(), reply, ledger.task, ledger.owner)
        &&& after.owner == owners_after(scene.wait.wants(), ledger.task, ledger.owner)
        &&& after.task == ledger.task
        &&& after.due == if M::pends(next.wait) && M::is_set(next.memory, M::cell(next.wait)) {
            ledger.task
        } else {
            ledger.due
        }
    }
    ||| {
        // The waking thread goes on.
        &&& !(scene.notify.wants() is Done)
        &&& performs(scene.memory, scene.notify.wants(), reply, next.memory)
        &&& next.notify == scene.notify.after(reply)
        &&& next.wait == scene.wait
        &&& after == ledger
    }
    ||| {
        // Some task polls again.
        &&& M::waits_again(scene.wait, next.wait)
        &&& next.notify == scene.notify
        &&& next.memory == scene.memory
        &&& after.owner == ledger.owner
        &&& after.due == ledger.due
    }
}

/// Scenes at a cell with their ledgers. At first the wake is due to the task that
/// made the cell ready.
pub open spec fn told_of<M: CellOwners>(
    scenes: Seq<Scene<M>>,
    replies: Seq<Reply>,
    ledgers: Seq<CellLedger>,
) -> bool {
    &&& play(scenes, replies)
    &&& ledgers.len() == scenes.len()
    &&& (ledgers[0].owner)(M::cell(scenes[0].wait)) == ledgers[0].due
    &&& forall|i: int|
        0 <= i < scenes.len() - 1 ==> goes_along(
            scenes[i],
            #[trigger] replies[i],
            scenes[i + 1],
            ledgers[i],
            ledgers[i + 1],
        )
}

/// How a ledger and a scene agree.
spec fn is_kept<M: CellOwners>(scene: Scene<M>, ledger: CellLedger) -> bool {
    let node = M::cell(scene.wait);
    let owner = (ledger.owner)(node);
    &&& M::trusts(scene.wait) ==> owner == ledger.task
    &&& M::pends(scene.wait) && M::is_set(scene.memory, node) ==> owner == ledger.task
    &&& M::leaves(scene.wait) && M::is_live(scene.memory, node) ==> owner == ledger.due
}

/// At every point, the ledger of a cell agrees with the scene.
proof fn always_kept<M: CellOwners>(
    scenes: Seq<Scene<M>>,
    replies: Seq<Reply>,
    ledgers: Seq<CellLedger>,
    i: int,
)
    requires
        told_of(scenes, replies, ledgers),
        0 <= i < scenes.len(),
    ensures
        is_kept(scenes[i], ledgers[i]),
    decreases i,
{
    if i == 0 {
        M::of_waiting(scenes[0].memory, scenes[0].wait, scenes[0].notify);
    } else {
        always_kept(scenes, replies, ledgers, i - 1);
        always_agree(scenes, replies, i - 1);
        let scene = scenes[i - 1];
        let next = scenes[i];
        let reply = replies[i - 1];
        let ledger = ledgers[i - 1];
        let after = ledgers[i];
        assert(goes_along(scene, reply, next, ledger, after));
        M::of_waiting(scene.memory, scene.wait, scene.notify);
        M::of_waiting(next.memory, next.wait, next.notify);
        if !(scene.wait.wants() is Done) && performs(
            scene.memory,
            scene.wait.wants(),
            reply,
            next.memory,
        ) && next.wait == scene.wait.after(reply) && next.notify == scene.notify && is_truthful(
            scene.wait.wants(),
            reply,
            ledger.task,
            ledger.owner,
        ) && after.owner == owners_after(scene.wait.wants(), ledger.task, ledger.owner) && after.task
            == ledger.task && after.due == (if M::pends(next.wait) && M::is_set(
            next.memory,
            M::cell(next.wait),
        ) {
            ledger.task
        } else {
            ledger.due
        }) {
            M::wait_sees_to(scene.memory, scene.wait, scene.notify, reply, next.memory);
        } else if M::waits_again(scene.wait, next.wait) && next.notify == scene.notify
            && next.memory == scene.memory && after.owner == ledger.owner && after.due
            == ledger.due {
            assert(M::leaves(scene.wait));
        } else {
            M::notify_takes(scene.memory, scene.wait, scene.notify, reply, next.memory);
        }
    }
}

/// The waker that is taken from a cell is that of the task that the wake is due
/// to: the task of the last poll that ended pending while nobody was taking the
/// waker.
pub proof fn cell_wakes_the_last_task<M: CellOwners>(
    scenes: Seq<Scene<M>>,
    replies: Seq<Reply>,
    ledgers: Seq<CellLedger>,
    i: int,
)
    requires
        told_of(scenes, replies, ledgers),
        0 <= i < scenes.len(),
    ensures
        M::pends(scenes[i].wait) && M::is_set(scenes[i].memory, M::cell(scenes[i].wait))
            ==> ledgers[i].due == ledgers[i].task,
        scenes[i].notify.wants() matches Access::TakeWaker(node) ==> (ledgers[i].owner)(node)
            == ledgers[i].due,
{
    always_kept(scenes, replies, ledgers, i);
    always_agree(scenes, replies, i);
    let scene = scenes[i];
    M::of_waiting(scene.memory, scene.wait, scene.notify);
    if let Access::TakeWaker(node) = scene.notify.wants() {
        let reply = Reply { ok: (scene.memory.wakers)(node), value: 0 };
        let next = put_waker(scene.memory, node, false);
        assert(performs(scene.memory, scene.notify.wants(), reply, next));
        M::notify_takes(scene.memory, scene.wait, scene.notify, reply, next);
    }
}

/// While nobody polls, the wake stays due to the same task.
proof fn cell_stays_due<M: CellOwners>(
    scenes: Seq<Scene<M>>,
    replies: Seq<Reply>,
    ledgers: Seq<CellLedger>,
    i: int,
    j: int,
)
    requires
        told_of(scenes, replies, ledgers),
        0 <= i <= j < scenes.len(),
        M::pends(scenes[i].wait),
        forall|k: int| i <= k <= j ==> (#[trigger] scenes[k]).wait == scenes[i].wait,
    ensures
        ledgers[j].due == ledgers[i].due,
    decreases j,
{
    if i < j {
        assert(scenes[j - 1].wait == scenes[i].wait);
        cell_stays_due(scenes, replies, ledgers, i, j - 1);
        let scene = scenes[j - 1];
        assert(scenes[j].wait == scenes[i].wait);
        M::of_waiting(scene.memory, scene.wait, scene.notify);
        assert(goes_along(scene, replies[j - 1], scenes[j], ledgers[j - 1], ledgers[j]));
    }
}

/// Once a poll of a cell has ended pending, and unless the waker was being taken
/// then, the next waker that is taken is that of the task which polled, unless a
/// task polls again before that.
pub proof fn cell_wakes_the_polling_task<M: CellOwners>(
    scenes: Seq<Scene<M>>,
    replies: Seq<Reply>,
    ledgers: Seq<CellLedger>,
    i: int,
    j: int,
    node: usize,
)
    requires
        told_of(scenes, replies, ledgers),
        0 <= i <= j < scenes.len(),
        M::pends(scenes[i].wait),
        M::is_set(scenes[i].memory, M::cell(scenes[i].wait)),
        forall|k: int| i <= k <= j ==> (#[trigger] scenes[k]).wait == scenes[i].wait,
        scenes[j].notify.wants() == Access::TakeWaker(node),
    ensures
        (ledgers[j].owner)(node) == ledgers[i].task,
{
    cell_wakes_the_last_task(scenes, replies, ledgers, i);
    cell_wakes_the_last_task(scenes, replies, ledgers, j);
    cell_stays_due(scenes, replies, ledgers, i, j);
}

/// A lock whose attempts to take it may be polled by one task after another: how
/// the wakers of its waiters are to be read.
pub trait LockOwners: LockKind {
    /// Whether the waker is in its place, and nobody is taking it.
    spec fn is_set(memory: Shared, node: usize) -> bool;

    /// Whether the waker may still be taken.
    spec fn is_live(memory: Shared, node: usize) -> bool;

    /// Whether the poll is over, and the task waits.
    spec fn pends(lock: Self::Lock) -> bool;

    /// Whether the waker is one that the poll under way has seen to.
    spec fn trusts(lock: Self::Lock) -> bool;

    /// Whether the waker, if it is set, is one that the poll under way has seen
    /// to.
    spec fn trusts_if_set(lock: Self::Lock) -> bool;

    /// Whether the attempt leaves the waker to the thread that takes it.
    spec fn leaves(lock: Self::Lock) -> bool;
}

/// What holds of an attempt to lock, wherever it stands.
pub open spec fn polls_well<K: LockOwners>(lock: K::Lock, memory: Shared) -> bool {
    &&& K::pends(lock) ==> K::leaves(lock) && K::trusts_if_set(lock)
    &&& K::is_set(memory, lock.waiter()) ==> K::is_live(memory, lock.waiter())
}

/// Whether an attempt to lock has seen to no waker yet, and left none behind.
pub open spec fn has_none<K: LockOwners>(lock: K::Lock, memory: Shared) -> bool {
    &&& !K::leaves(lock)
    &&& !K::trusts(lock)
    &&& K::trusts_if_set(lock) ==> !K::is_set(memory, lock.waiter())
}

/// What a step of an attempt to lock does about its waker: a poll that ends
/// pending has seen to it, unless it is being taken.
pub open spec fn sees_to<K: LockOwners>(
    lock: K::Lock,
    memory: Shared,
    reply: Reply,
    next: Shared,
) -> bool {
    let node = lock.waiter();
    let after = lock.after(reply);
    let own = !K::pends(lock) && (leaves_own(lock.wants(), reply, node) || K::trusts(lock)
        || K::trusts_if_set(lock) && K::is_set(memory, node));
    &&& lock.wants() matches Access::StoreWaker(other) ==> other == node
    &&& K::trusts(after) ==> own
    &&& K::trusts_if_set(after) && K::is_set(next, node) ==> own
    &&& K::leaves(after) && K::is_live(next, node) ==> {
        ||| !K::leaves(lock) && K::is_set(next, node) && own
        ||| K::leaves(lock) && K::is_live(memory, node) && !leaves_own(lock.wants(), reply, node)
    }
}

/// Whether a step of an attempt to lock leaves its waker in place.
pub open spec fn puts_in_place<K: LockOwners>(
    thread: Thread<K>,
    moved: Thread<K>,
    next: Shared,
) -> bool {
    match (thread, moved) {
        (Thread::Locking(lock), Thread::Locking(after)) => {
            &&& !K::leaves(lock)
            &&& K::leaves(after)
            &&& K::is_set(next, after.waiter())
        },
        _ => false,
    }
}

/// Whether a step of another thread gives the waiter no waker.
pub open spec fn gives_none<K: LockOwners>(memory: Shared, next: Shared, node: usize) -> bool {
    &&& K::is_set(next, node) ==> K::is_set(memory, node)
    &&& K::is_live(next, node) ==> K::is_live(memory, node)
}

/// What runs along with a history.
pub struct Ledger {
    /// Whose waker each waiter has.
    pub owner: spec_fn(usize) -> int,
    /// Which task acts on behalf of each thread, or did so last.
    pub task: spec_fn(int) -> int,
    /// Which task the wake of each thread is due to.
    pub due: spec_fn(int) -> int,
}

/// The access that the thread is about to make.
pub open spec fn access_of<K: LockKind>(thread: Thread<K>) -> Access {
    match thread {
        Thread::Idle => Access::Done,
        Thread::Trying(party) => party.wants(),
        Thread::Locking(party) => party.wants(),
        Thread::Unlocking(party) => party.wants(),
    }
}

/// Whether the thread waits in an attempt to lock that was polled.
pub open spec fn pends_of<K: LockOwners>(thread: Thread<K>) -> bool {
    match thread {
        Thread::Locking(lock) => K::pends(lock),
        _ => false,
    }
}

/// The ledger stays as it was for all threads but one.
pub open spec fn same_for_others(ledger: Ledger, after: Ledger, t: int) -> bool {
    &&& forall|other: int| other != t ==> #[trigger] (after.task)(other) == (ledger.task)(other)
    &&& forall|other: int| other != t ==> #[trigger] (after.due)(other) == (ledger.due)(other)
}

/// How the ledger goes on when thread `t` makes an access. Another task may take
/// over only between two polls.
pub open spec fn enters<K: LockOwners>(
    system: System<K>,
    t: int,
    reply: Reply,
    next: System<K>,
    ledger: Ledger,
    after: Ledger,
) -> bool {
    let access = access_of((system.threads)(t));
    let task = (ledger.task)(t);
    let moved = (next.threads)(t);
    &&& same_for_others(ledger, after, t)
    &&& is_truthful(access, reply, task, ledger.owner)
    &&& after.owner == owners_after(access, task, ledger.owner)
    &&& (after.task)(t) == task || pends_of((system.threads)(t))
    &&& (after.due)(t) == if puts_in_place((system.threads)(t), moved, next.memory) {
        task
    } else {
        (ledger.due)(t)
    }
}

/// Whether the ledger agrees with the operation of the thread.
pub open spec fn is_entered<K: LockOwners>(
    thread: Thread<K>,
    memory: Shared,
    ledger: Ledger,
    t: int,
) -> bool {
    match thread {
        Thread::Locking(lock) => {
            let node = lock.waiter();
            let owner = (ledger.owner)(node);
            &&& K::trusts(lock) ==> owner == (ledger.task)(t)
            &&& K::trusts_if_set(lock) && K::is_set(memory, node) ==> owner == (ledger.task)(t)
            &&& K::leaves(lock) && K::is_live(memory, node) ==> owner == (ledger.due)(t)
        },
        _ => true,
    }
}

/// The step of an attempt to lock keeps its own entry right.
proof fn own_entry<K: LockOwners>(
    system: System<K>,
    t: int,
    lock: K::Lock,
    reply: Reply,
    next: System<K>,
    ledger: Ledger,
    after: Ledger,
)
    requires
        (system.threads)(t) == Thread::<K>::Locking(lock),
        (next.threads)(t) == Thread::<K>::Locking(lock.after(reply)),
        lock.after(reply).waiter() == lock.waiter(),
        sees_to::<K>(lock, system.memory, reply, next.memory),
        polls_well::<K>(lock.after(reply), next.memory),
        is_entered((system.threads)(t), system.memory, ledger, t),
        enters(system, t, reply, next, ledger, after),
    ensures
        is_entered((next.threads)(t), next.memory, after, t),
{
    assert(access_of((system.threads)(t)) == lock.wants());
    assert(waiter((next.threads)(t)) == lock.waiter());
}

/// A step of another thread leaves the entry of a thread right.
proof fn entry_of_another<K: LockOwners>(
    system: System<K>,
    t: int,
    reply: Reply,
    next: System<K>,
    ledger: Ledger,
    after: Ledger,
    v: int,
)
    requires
        v != t,
        (next.threads)(v) == (system.threads)(v),
        is_entered((system.threads)(v), system.memory, ledger, v),
        same_for_others(ledger, after, t),
        (system.threads)(v) matches Thread::Locking(lock) ==> gives_none::<K>(
            system.memory,
            next.memory,
            lock.waiter(),
        ) && (after.owner)(lock.waiter()) == (ledger.owner)(lock.waiter()),
    ensures
        is_entered((next.threads)(v), next.memory, after, v),
{
    assert((after.task)(v) == (ledger.task)(v));
    assert((after.due)(v) == (ledger.due)(v));
}

/// A lock with a queue through its waiters: what its single steps do about their
/// wakers.
pub trait QueueOwners: Upkeep + LockOwners {
    proof fn of_polls(lock: Self::Lock, memory: Shared)
        requires
            lock.wf(),
        ensures
            polls_well::<Self>(lock, memory),
            lock.begins() && Self::fresh(memory, lock.waiter()) ==> has_none::<Self>(lock, memory),
    ;

    /// What is said of a waker depends on the wake state and the waker alone.
    proof fn waker_frame(memory: Shared, next: Shared, node: usize)
        requires
            queue::same_wake(memory, next, node),
        ensures
            gives_none::<Self>(memory, next, node),
    ;

    proof fn lock_sees_to(lock: Self::Lock, memory: Shared, reply: Reply, next: Shared)
        requires
            lock.wf(),
            !(lock.wants() is Done),
            lock.admits(memory, reply),
            Self::is_tidy(memory.word),
            Self::lock_admits(lock, memory, reply),
            Self::lock_knows(lock, memory),
            performs(memory, lock.wants(), reply, next),
        ensures
            sees_to::<Self>(lock, memory, reply, next),
    ;

    proof fn try_stores_none(attempt: Self::Try)
        ensures
            !(attempt.wants() is StoreWaker),
    ;

    /// An unlock takes only the waker of the waiter that it wakes.
    proof fn unlock_stores_none(unlock: Self::Unlock)
        ensures
            !(unlock.wants() is StoreWaker),
            unlock.wants() matches Access::TakeWaker(node) ==> node == Self::grip(unlock),
    ;

    proof fn unlock_gives_none(unlock: Self::Unlock, memory: Shared, reply: Reply, next: Shared)
        requires
            unlock.wf(),
            !(unlock.wants() is Done),
            Self::unlock_knows(unlock, memory),
            Self::unlock_admits(unlock, memory, reply),
            performs(memory, unlock.wants(), reply, next),
        ensures
            Self::grip(unlock) != 0 ==> gives_none::<Self>(memory, next, Self::grip(unlock)),
    ;

    /// A waker that is taken is one that the attempt to lock leaves alone.
    proof fn unlock_takes(unlock: Self::Unlock, lock: Self::Lock, memory: Shared)
        requires
            lock.wf(),
            unlock.wf(),
            Self::waits(lock),
            Self::lock_knows(lock, memory),
            Self::unlock_knows(unlock, memory),
            Self::grip(unlock) == lock.waiter(),
        ensures
            unlock.wants() is TakeWaker ==> Self::leaves(lock) && Self::is_live(
                memory,
                lock.waiter(),
            ),
    ;
}

/// One step of the system with its ledger.
pub open spec fn turns_with<K: QueueOwners>(
    system: System<K>,
    t: int,
    reply: Reply,
    next: System<K>,
    ledger: Ledger,
    after: Ledger,
) -> bool {
    ||| {
        &&& queue::acts((system.threads)(t), system.memory, reply, (next.threads)(t), next.memory)
        &&& enters(system, t, reply, next, ledger, after)
    }
    ||| {
        &&& queue::starts(system, (system.threads)(t), (next.threads)(t))
        &&& next.memory == system.memory
        &&& same_for_others(ledger, after, t)
        &&& after.owner == ledger.owner
    }
}

/// A history of a lock with its ledgers.
pub open spec fn history_with<K: QueueOwners>(
    systems: Seq<System<K>>,
    who: Seq<int>,
    replies: Seq<Reply>,
    ledgers: Seq<Ledger>,
) -> bool {
    &&& queue::history(systems, who, replies)
    &&& ledgers.len() == systems.len()
    &&& forall|i: int|
        0 <= i < systems.len() - 1 ==> turns_with(
            systems[i],
            #[trigger] who[i],
            replies[i],
            systems[i + 1],
            ledgers[i],
            ledgers[i + 1],
        )
}

/// A step keeps the ledger right.
proof fn turn_keeps_ledger<K: QueueOwners>(
    system: System<K>,
    picture: queue::Picture,
    t: int,
    reply: Reply,
    next: System<K>,
    ledger: Ledger,
    after: Ledger,
)
    requires
        queue::whole(system, picture),
        forall|v: int| is_entered(#[trigger] (system.threads)(v), system.memory, ledger, v),
        queue::turn(system, t, reply, next),
        turns_with(system, t, reply, next, ledger, after),
    ensures
        forall|v: int| is_entered(#[trigger] (next.threads)(v), next.memory, after, v),
{
    let memory = system.memory;
    let thread = (system.threads)(t);
    assert(thread_wf(thread));
    assert(queue::fits(thread, memory, picture.queue));
    if queue::acts(thread, memory, reply, (next.threads)(t), next.memory) && enters(
        system,
        t,
        reply,
        next,
        ledger,
        after,
    ) {
        queue::step_is_sound(system, picture, t, reply, (next.threads)(t), next.memory);
        assert forall|v: int| is_entered(#[trigger] (next.threads)(v), next.memory, after, v) by {
            assert(is_entered((system.threads)(v), memory, ledger, v));
            if v == t {
                if let Thread::Locking(lock) = thread {
                    K::lock_sees_to(lock, memory, reply, next.memory);
                    K::lock_step(lock, memory, reply, next.memory);
                    K::of_polls(lock.after(reply), next.memory);
                    own_entry(system, t, lock, reply, next, ledger, after);
                }
            } else {
                assert((next.threads)(v) == (system.threads)(v));
                assert(thread_wf((system.threads)(v)));
                if let Thread::Locking(mine) = (system.threads)(v) {
                    K::lock_frame(mine, memory, memory);
                    let node = mine.waiter();
                    assert(waiter((system.threads)(v)) == node);
                    stores_elsewhere(system, picture, t, reply, next, node);
                    if queue::grip_of(thread) == node {
                        if let Thread::Unlocking(unlock) = thread {
                            K::unlock_gives_none(unlock, memory, reply, next.memory);
                        }
                    } else {
                        same_wake_for_others(system, picture, t, reply, next, v);
                        K::waker_frame(memory, next.memory, node);
                    }
                    assert((after.owner)(node) == (ledger.owner)(node));
                }
                entry_of_another(system, t, reply, next, ledger, after, v);
            }
        }
    } else {
        assert(queue::starts(system, thread, (next.threads)(t)));
        assert forall|v: int| is_entered(#[trigger] (next.threads)(v), next.memory, after, v) by {
            assert(is_entered((system.threads)(v), memory, ledger, v));
            if v == t {
                if let Thread::Locking(lock) = (next.threads)(t) {
                    K::of_polls(lock, memory);
                }
            } else {
                assert((next.threads)(v) == (system.threads)(v));
                entry_of_another(system, t, reply, next, ledger, after, v);
            }
        }
    }
}

/// The waker that a thread stores is not that of a waiter of another thread.
proof fn stores_elsewhere<K: QueueOwners>(
    system: System<K>,
    picture: queue::Picture,
    t: int,
    reply: Reply,
    next: System<K>,
    node: usize,
)
    requires
        queue::whole(system, picture),
        queue::acts(
            (system.threads)(t),
            system.memory,
            reply,
            (next.threads)(t),
            next.memory,
        ),
        node != 0,
        node != waiter((system.threads)(t)),
    ensures
        access_of((system.threads)(t)) != Access::StoreWaker(node),
{
    let memory = system.memory;
    let thread = (system.threads)(t);
    assert(thread_wf(thread));
    assert(queue::fits(thread, memory, picture.queue));
    match thread {
        Thread::Idle => {},
        Thread::Trying(attempt) => {
            K::try_stores_none(attempt);
        },
        Thread::Locking(lock) => {
            K::lock_sees_to(lock, memory, reply, next.memory);
        },
        Thread::Unlocking(unlock) => {
            K::unlock_stores_none(unlock);
        },
    }
}

/// At every point, the ledger of a history is right.
proof fn always_entered<K: QueueOwners>(
    systems: Seq<System<K>>,
    who: Seq<int>,
    replies: Seq<Reply>,
    ledgers: Seq<Ledger>,
    i: int,
)
    requires
        history_with(systems, who, replies, ledgers),
        0 <= i < systems.len(),
    ensures
        forall|v: int|
            is_entered(#[trigger] (systems[i].threads)(v), systems[i].memory, ledgers[i], v),
    decreases i,
{
    if i == 0 {
        assert forall|v: int|
            is_entered(#[trigger] (systems[0].threads)(v), systems[0].memory, ledgers[0], v) by {
            assert((systems[0].threads)(v) is Idle);
        }
    } else {
        always_entered(systems, who, replies, ledgers, i - 1);
        queue::always_whole(systems, who, replies, i - 1);
        let before = systems[i - 1];
        let picture = choose|picture: queue::Picture|
            #[trigger] queue::whole(before, picture) && queue::is_peopled(before, picture.queue);
        assert(queue::turn(systems[i - 1], who[i - 1], replies[i - 1], systems[i]));
        assert(turns_with(
            systems[i - 1],
            who[i - 1],
            replies[i - 1],
            systems[i],
            ledgers[i - 1],
            ledgers[i],
        ));
        turn_keeps_ledger(
            systems[i - 1],
            picture,
            who[i - 1],
            replies[i - 1],
            systems[i],
            ledgers[i - 1],
            ledgers[i],
        );
    }
}

/// After a poll that ends pending, and unless the waker was being taken then, the
/// wake is due to the task that polled, and the waker is its own.
pub proof fn pending_task_is_owed<K: QueueOwners>(
    systems: Seq<System<K>>,
    who: Seq<int>,
    replies: Seq<Reply>,
    ledgers: Seq<Ledger>,
    i: int,
    t: int,
)
    requires
        history_with(systems, who, replies, ledgers),
        0 <= i < systems.len(),
        pends_of((systems[i].threads)(t)),
        K::is_set(systems[i].memory, waiter((systems[i].threads)(t))),
    ensures
        (ledgers[i].due)(t) == (ledgers[i].task)(t),
        (ledgers[i].owner)(waiter((systems[i].threads)(t))) == (ledgers[i].task)(t),
{
    always_entered(systems, who, replies, ledgers, i);
    queue::always_whole(systems, who, replies, i);
    let thread = (systems[i].threads)(t);
    assert(sound(systems[i]));
    assert(thread_wf((systems[i].threads)(t)));
    assert(is_entered((systems[i].threads)(t), systems[i].memory, ledgers[i], t));
    if let Thread::Locking(lock) = thread {
        K::of_polls(lock, systems[i].memory);
    }
}

/// The waker that an unlock takes is that of the task that the wake is due to:
/// the task of the last poll that left its waker in place.
pub proof fn unlock_wakes_the_last_task<K: QueueOwners>(
    systems: Seq<System<K>>,
    who: Seq<int>,
    replies: Seq<Reply>,
    ledgers: Seq<Ledger>,
    i: int,
    u: int,
    node: usize,
)
    requires
        history_with(systems, who, replies, ledgers),
        0 <= i < systems.len(),
        (systems[i].threads)(u) is Unlocking,
        access_of((systems[i].threads)(u)) == Access::TakeWaker(node),
        node != 0,
    ensures
        exists|t: int|
            {
                &&& waiter(#[trigger] (systems[i].threads)(t)) == node
                &&& (ledgers[i].owner)(node) == (ledgers[i].due)(t)
            },
{
    always_entered(systems, who, replies, ledgers, i);
    queue::always_whole(systems, who, replies, i);
    let system = systems[i];
    let memory = system.memory;
    let picture = choose|picture: queue::Picture|
        #[trigger] queue::whole(system, picture) && queue::is_peopled(system, picture.queue);
    let thread = (system.threads)(u);
    assert(thread_wf((system.threads)(u)));
    assert(queue::fits((system.threads)(u), memory, picture.queue));
    if let Thread::Unlocking(unlock) = thread {
        K::unlock_stores_none(unlock);
        assert(queue::grip_of((system.threads)(u)) == node);
        assert(queue::is_waited_by(system, queue::grip_of((system.threads)(u))));
        let t = choose|t: int|
            queue::is_waiting(#[trigger] (system.threads)(t)) && waiter((system.threads)(t)) == node;
        assert(thread_wf((system.threads)(t)));
        assert(queue::fits((system.threads)(t), memory, picture.queue));
        if let Thread::Locking(lock) = (system.threads)(t) {
            K::unlock_takes(unlock, lock, memory);
        }
        assert(is_entered((system.threads)(t), memory, ledgers[i], t));
    }
}

/// While the thread does not act, its wake stays due to the same task.
proof fn stays_due<K: QueueOwners>(
    systems: Seq<System<K>>,
    who: Seq<int>,
    replies: Seq<Reply>,
    ledgers: Seq<Ledger>,
    i: int,
    j: int,
    t: int,
)
    requires
        history_with(systems, who, replies, ledgers),
        0 <= i <= j < systems.len(),
        forall|k: int| i <= k < j ==> #[trigger] who[k] != t,
    ensures
        (ledgers[j].due)(t) == (ledgers[i].due)(t),
        (systems[j].threads)(t) == (systems[i].threads)(t),
    decreases j,
{
    if i < j {
        stays_due(systems, who, replies, ledgers, i, j - 1, t);
        assert(who[j - 1] != t);
        assert(queue::turn(systems[j - 1], who[j - 1], replies[j - 1], systems[j]));
        assert(turns_with(
            systems[j - 1],
            who[j - 1],
            replies[j - 1],
            systems[j],
            ledgers[j - 1],
            ledgers[j],
        ));
        assert((ledgers[j].due)(t) == (ledgers[j - 1].due)(t));
    }
}

/// Once a poll has ended pending, and unless the waker was being taken then, the
/// next waker that is taken off the waiter is that of the task which polled,
/// unless a task polls again before that.
pub proof fn unlock_wakes_the_polling_task<K: QueueOwners>(
    systems: Seq<System<K>>,
    who: Seq<int>,
    replies: Seq<Reply>,
    ledgers: Seq<Ledger>,
    i: int,
    j: int,
    t: int,
    u: int,
)
    requires
        history_with(systems, who, replies, ledgers),
        0 <= i <= j < systems.len(),
        pends_of((systems[i].threads)(t)),
        K::is_set(systems[i].memory, waiter((systems[i].threads)(t))),
        forall|k: int| i <= k < j ==> #[trigger] who[k] != t,
        (systems[j].threads)(u) is Unlocking,
        access_of((systems[j].threads)(u)) == Access::TakeWaker(waiter((systems[i].threads)(t))),
    ensures
        (ledgers[j].owner)(waiter((systems[i].threads)(t))) == (ledgers[i].task)(t),
{
    let node = waiter((systems[i].threads)(t));
    pending_task_is_owed(systems, who, replies, ledgers, i, t);
    stays_due(systems, who, replies, ledgers, i, j, t);
    queue::always_whole(systems, who, replies, j);
    assert(sound(systems[j]));
    assert(thread_wf((systems[j].threads)(t)));
    if let Thread::Locking(lock) = (systems[j].threads)(t) {
        K::lock_frame(lock, systems[j].memory, systems[j].memory);
    }
    unlock_wakes_the_last_task(systems, who, replies, ledgers, j, u, node);
    let v = choose|v: int|
        {
            &&& waiter(#[trigger] (systems[j].threads)(v)) == node
            &&& (ledgers[j].owner)(node) == (ledgers[j].due)(v)
        };
    assert(waiter((systems[j].threads)(t)) == node);
    assert(v == t);
}

/// A mutex with a queue under a lock of its own: what its single steps do about
/// the wakers of its waiters.
pub trait ParkOwners: Parking + LockOwners {
    proof fn of_polls(lock: Self::Lock, memory: Shared)
        requires
            lock.wf(),
        ensures
            polls_well::<Self>(lock, memory),
            lock.begins() && Self::fresh(memory, lock.waiter()) ==> has_none::<Self>(lock, memory),
            Self::lock_stand(lock).waits && !Self::lock_stand(lock).inside ==> Self::leaves(lock),
            forall|other: Self::Lock| #[trigger]
                lock.gives_up(other) ==> {
                    &&& Self::leaves(other) ==> Self::leaves(lock)
                    &&& Self::trusts(other) ==> Self::trusts(lock)
                    &&& Self::trusts_if_set(other) ==> Self::trusts_if_set(lock)
                },
    ;

    /// What is said of a waker depends on that waiter alone.
    proof fn waker_frame(memory: Shared, next: Shared, node: usize)
        requires
            parking::same_waiter(memory, next, node),
        ensures
            gives_none::<Self>(memory, next, node),
    ;

    proof fn lock_sees_to(lock: Self::Lock, memory: Shared, reply: Reply, next: Shared)
        requires
            lock.wf(),
            !(lock.wants() is Done),
            lock.admits(memory, reply),
            Self::lock_admits(lock, memory, reply),
            Self::lock_knows(lock, memory),
            parking::is_in_order::<Self>(memory),
            parking::stands::<Self>(Self::lock_stand(lock), memory),
            performs(memory, lock.wants(), reply, next),
        ensures
            sees_to::<Self>(lock, memory, reply, next),
    ;

    proof fn try_leaves_wakers(attempt: Self::Try)
        ensures
            !(attempt.wants() is StoreWaker),
            !(attempt.wants() is TakeWaker),
    ;

    /// An attempt to lock takes only the waker of the waiter that it wakes, and
    /// gives that waiter none.
    proof fn lock_takes(lock: Self::Lock, memory: Shared, reply: Reply, next: Shared)
        requires
            lock.wf(),
            !(lock.wants() is Done),
            Self::lock_knows(lock, memory),
            performs(memory, lock.wants(), reply, next),
        ensures
            lock.wants() matches Access::TakeWaker(node) ==> {
                &&& node == Self::lock_stand(lock).grip
                &&& node != 0
                &&& Self::is_live(memory, node)
            },
            Self::lock_stand(lock).grip != 0 && Self::lock_stand(lock).grip != lock.waiter()
                ==> gives_none::<Self>(memory, next, Self::lock_stand(lock).grip),
    ;

    /// An unlock takes only the waker of the waiter that it wakes, and stores
    /// none.
    proof fn unlock_takes(unlock: Self::Unlock, memory: Shared, reply: Reply, next: Shared)
        requires
            unlock.wf(),
            !(unlock.wants() is Done),
            Self::unlock_knows(unlock, memory),
            performs(memory, unlock.wants(), reply, next),
        ensures
            !(unlock.wants() is StoreWaker),
            unlock.wants() matches Access::TakeWaker(node) ==> {
                &&& node == Self::unlock_stand(unlock).grip
                &&& node != 0
                &&& Self::is_live(memory, node)
            },
            Self::unlock_stand(unlock).grip != 0 ==> gives_none::<Self>(
                memory,
                next,
                Self::unlock_stand(unlock).grip,
            ),
    ;
}

/// One step of the system with its ledger.
pub open spec fn parks_with<K: ParkOwners>(
    system: System<K>,
    t: int,
    reply: Reply,
    next: System<K>,
    ledger: Ledger,
    after: Ledger,
) -> bool {
    ||| {
        &&& parking::acts((system.threads)(t), system.memory, reply, (next.threads)(t), next.memory)
        &&& enters(system, t, reply, next, ledger, after)
    }
    ||| {
        &&& parking::starts(system, (system.threads)(t), (next.threads)(t))
        &&& next.memory == system.memory
        &&& same_for_others(ledger, after, t)
        &&& after.owner == ledger.owner
    }
    ||| {
        &&& give_up((system.threads)(t), (next.threads)(t))
        &&& next.memory == system.memory
        &&& after == ledger
    }
}

/// A history of a mutex with its ledgers.
pub open spec fn parking_history_with<K: ParkOwners>(
    systems: Seq<System<K>>,
    who: Seq<int>,
    replies: Seq<Reply>,
    ledgers: Seq<Ledger>,
) -> bool {
    &&& parking::history(systems, who, replies)
    &&& ledgers.len() == systems.len()
    &&& forall|i: int|
        0 <= i < systems.len() - 1 ==> parks_with(
            systems[i],
            #[trigger] who[i],
            replies[i],
            systems[i + 1],
            ledgers[i],
            ledgers[i + 1],
        )
}

/// A step gives no waiter of another thread a waker.
proof fn parks_elsewhere<K: ParkOwners>(
    system: System<K>,
    t: int,
    reply: Reply,
    next: System<K>,
    v: int,
    node: usize,
)
    requires
        parking::whole(system),
        parking::acts(
            (system.threads)(t),
            system.memory,
            reply,
            (next.threads)(t),
            next.memory,
        ),
        v != t,
        (system.threads)(v) is Locking,
        node == waiter((system.threads)(v)),
    ensures
        access_of((system.threads)(t)) != Access::StoreWaker(node),
        gives_none::<K>(system.memory, next.memory, node),
{
    let memory = system.memory;
    let thread = (system.threads)(t);
    let mine = parking::stand_of((system.threads)(t));
    assert(thread_wf(thread));
    assert(thread_wf((system.threads)(v)));
    assert(parking::knows(thread, memory));
    parking::step_is_sound(system, t, reply, (next.threads)(t), next.memory);
    parking::thread_stands(system, t);
    parking::own_waiter(system, t);
    parking::own_waiter(system, v);
    if let Thread::Locking(lock) = (system.threads)(v) {
        K::lock_frame(lock, memory, memory);
    }
    assert(node != 0 && node != mine.own);
    match thread {
        Thread::Idle => {},
        Thread::Trying(attempt) => {
            K::try_leaves_wakers(attempt);
        },
        Thread::Locking(lock) => {
            K::lock_sees_to(lock, memory, reply, next.memory);
            K::lock_takes(lock, memory, reply, next.memory);
        },
        Thread::Unlocking(unlock) => {
            K::unlock_takes(unlock, memory, reply, next.memory);
        },
    }
    if mine.grip != node {
        assert(parking::goes_on::<K>(
            mine,
            parking::stand_of((next.threads)(t)),
            memory,
            next.memory,
        ));
        assert(parking::same_waiter(memory, next.memory, node)) by {
            assert(wake_of(next.memory, node) == wake_of(memory, node));
        }
        K::waker_frame(memory, next.memory, node);
    }
}

/// A step keeps the ledger right.
proof fn parking_keeps_ledger<K: ParkOwners>(
    system: System<K>,
    t: int,
    reply: Reply,
    next: System<K>,
    ledger: Ledger,
    after: Ledger,
)
    requires
        parking::whole(system),
        forall|v: int| is_entered(#[trigger] (system.threads)(v), system.memory, ledger, v),
        parking::turn(system, t, reply, next),
        parks_with(system, t, reply, next, ledger, after),
    ensures
        forall|v: int| is_entered(#[trigger] (next.threads)(v), next.memory, after, v),
{
    let memory = system.memory;
    let thread = (system.threads)(t);
    assert(thread_wf(thread));
    assert(parking::knows(thread, memory));
    assert forall|v: int| is_entered(#[trigger] (next.threads)(v), next.memory, after, v) by {
        assert(is_entered((system.threads)(v), memory, ledger, v));
        if parking::acts(thread, memory, reply, (next.threads)(t), next.memory) && enters(
            system,
            t,
            reply,
            next,
            ledger,
            after,
        ) {
            if v == t {
                if let Thread::Locking(lock) = thread {
                    parking::step_is_sound(system, t, reply, (next.threads)(t), next.memory);
                    parking::thread_stands(system, t);
                    K::lock_sees_to(lock, memory, reply, next.memory);
                    K::lock_step(lock, memory, reply, next.memory);
                    K::of_polls(lock.after(reply), next.memory);
                    own_entry(system, t, lock, reply, next, ledger, after);
                }
            } else {
                assert((next.threads)(v) == (system.threads)(v));
                if let Thread::Locking(mine) = (system.threads)(v) {
                    parks_elsewhere(system, t, reply, next, v, mine.waiter());
                }
                entry_of_another(system, t, reply, next, ledger, after, v);
            }
        } else if give_up(thread, (next.threads)(t)) && next.memory == memory && after == ledger {
            if v == t {
                K::of_polls(thread->Locking_0, memory);
                K::lock_given_up(thread->Locking_0, (next.threads)(t)->Locking_0, memory);
            } else {
                assert((next.threads)(v) == (system.threads)(v));
            }
        } else {
            assert(parking::starts(system, thread, (next.threads)(t)));
            if v == t {
                if let Thread::Locking(lock) = (next.threads)(t) {
                    K::of_polls(lock, memory);
                }
            } else {
                assert((next.threads)(v) == (system.threads)(v));
                entry_of_another(system, t, reply, next, ledger, after, v);
            }
        }
    }
}

/// At every point, the ledger of a history is right.
proof fn parking_always_entered<K: ParkOwners>(
    systems: Seq<System<K>>,
    who: Seq<int>,
    replies: Seq<Reply>,
    ledgers: Seq<Ledger>,
    i: int,
)
    requires
        parking_history_with(systems, who, replies, ledgers),
        0 <= i < systems.len(),
    ensures
        forall|v: int|
            is_entered(#[trigger] (systems[i].threads)(v), systems[i].memory, ledgers[i], v),
    decreases i,
{
    if i == 0 {
        assert forall|v: int|
            is_entered(#[trigger] (systems[0].threads)(v), systems[0].memory, ledgers[0], v) by {
            assert((systems[0].threads)(v) is Idle);
        }
    } else {
        parking_always_entered(systems, who, replies, ledgers, i - 1);
        parking::always_whole(systems, who, replies, i - 1);
        assert(parking::turn(systems[i - 1], who[i - 1], replies[i - 1], systems[i]));
        assert(parks_with(
            systems[i - 1],
            who[i - 1],
            replies[i - 1],
            systems[i],
            ledgers[i - 1],
            ledgers[i],
        ));
        parking_keeps_ledger(
            systems[i - 1],
            who[i - 1],
            replies[i - 1],
            systems[i],
            ledgers[i - 1],
            ledgers[i],
        );
    }
}

/// After a poll that ends pending, and for as long as nobody has woken the waiter,
/// the wake is due to the task that polled, and the waker is its own.
pub proof fn parked_task_is_owed<K: ParkOwners>(
    systems: Seq<System<K>>,
    who: Seq<int>,
    replies: Seq<Reply>,
    ledgers: Seq<Ledger>,
    i: int,
    t: int,
)
    requires
        parking_history_with(systems, who, replies, ledgers),
        0 <= i < systems.len(),
        pends_of((systems[i].threads)(t)),
        K::is_set(systems[i].memory, waiter((systems[i].threads)(t))),
    ensures
        (ledgers[i].due)(t) == (ledgers[i].task)(t),
        (ledgers[i].owner)(waiter((systems[i].threads)(t))) == (ledgers[i].task)(t),
{
    parking_always_entered(systems, who, replies, ledgers, i);
    parking::always_whole(systems, who, replies, i);
    let thread = (systems[i].threads)(t);
    assert(sound(systems[i]));
    assert(thread_wf((systems[i].threads)(t)));
    assert(is_entered((systems[i].threads)(t), systems[i].memory, ledgers[i], t));
    if let Thread::Locking(lock) = thread {
        K::of_polls(lock, systems[i].memory);
    }
}

/// The waker that a thread takes off a mutex's waiter is that of the task that
/// the wake is due to: the task of the last poll that left its waker in place.
pub proof fn mutex_wakes_the_last_task<K: ParkOwners>(
    systems: Seq<System<K>>,
    who: Seq<int>,
    replies: Seq<Reply>,
    ledgers: Seq<Ledger>,
    i: int,
    u: int,
    node: usize,
)
    requires
        parking_history_with(systems, who, replies, ledgers),
        0 <= i < systems.len(),
        access_of((systems[i].threads)(u)) == Access::TakeWaker(node),
    ensures
        exists|t: int|
            {
                &&& waiter(#[trigger] (systems[i].threads)(t)) == node
                &&& (ledgers[i].owner)(node) == (ledgers[i].due)(t)
            },
{
    parking_always_entered(systems, who, replies, ledgers, i);
    parking::always_whole(systems, who, replies, i);
    let system = systems[i];
    let memory = system.memory;
    let thread = (system.threads)(u);
    assert(thread_wf((system.threads)(u)));
    assert(parking::knows((system.threads)(u), memory));
    parking::own_waiter(system, u);
    let reply = Reply { ok: (memory.wakers)(node), value: 0 };
    let next = put_waker(memory, node, false);
    assert(performs(memory, Access::TakeWaker(node), reply, next));
    match thread {
        Thread::Locking(lock) => {
            K::lock_takes(lock, memory, reply, next);
        },
        Thread::Unlocking(unlock) => {
            K::unlock_takes(unlock, memory, reply, next);
        },
        Thread::Trying(attempt) => {
            K::try_leaves_wakers(attempt);
        },
        Thread::Idle => {},
    }
    assert(parking::stand_of((system.threads)(u)).grip == node);
    assert(parking::is_waited_by(system, parking::stand_of((system.threads)(u)).grip));
    let t = choose|t: int|
        parking::stand_of(#[trigger] (system.threads)(t)).waits && parking::stand_of(
            (system.threads)(t),
        ).own == node;
    parking::own_waiter(system, t);
    assert(thread_wf((system.threads)(t)));
    assert(parking::stand_of((system.threads)(u)).inside);
    assert(u != t);
    assert(!parking::stand_of((system.threads)(t)).inside);
    match (system.threads)(t) {
        Thread::Locking(lock) => {
            K::of_polls(lock, memory);
        },
        Thread::Unlocking(unlock) => {
            K::unlock_knows_frame(unlock, memory, memory);
        },
        _ => {},
    }
    assert(is_entered((system.threads)(t), memory, ledgers[i], t));
    assert(waiter((system.threads)(t)) == node);
}

/// While the thread does not act, its wake stays due to the same task.
proof fn parking_stays_due<K: ParkOwners>(
    systems: Seq<System<K>>,
    who: Seq<int>,
    replies: Seq<Reply>,
    ledgers: Seq<Ledger>,
    i: int,
    j: int,
    t: int,
)
    requires
        parking_history_with(systems, who, replies, ledgers),
        0 <= i <= j < systems.len(),
        forall|k: int| i <= k < j ==> #[trigger] who[k] != t,
    ensures
        (ledgers[j].due)(t) == (ledgers[i].due)(t),
        (systems[j].threads)(t) == (systems[i].threads)(t),
    decreases j,
{
    if i < j {
        parking_stays_due(systems, who, replies, ledgers, i, j - 1, t);
        assert(who[j - 1] != t);
        assert(parking::turn(systems[j - 1], who[j - 1], replies[j - 1], systems[j]));
        assert(parks_with(
            systems[j - 1],
            who[j - 1],
            replies[j - 1],
            systems[j],
            ledgers[j - 1],
            ledgers[j],
        ));
        assert((ledgers[j].due)(t) == (ledgers[j - 1].due)(t));
    }
}

/// Once a poll has ended pending, the next waker that is taken off the waiter is
/// that of the task which polled, unless a task polls again or gives up before
/// that.
pub proof fn mutex_wakes_the_polling_task<K: ParkOwners>(
    systems: Seq<System<K>>,
    who: Seq<int>,
    replies: Seq<Reply>,
    ledgers: Seq<Ledger>,
    i: int,
    j: int,
    t: int,
    u: int,
)
    requires
        parking_history_with(systems, who, replies, ledgers),
        0 <= i <= j < systems.len(),
        pends_of((systems[i].threads)(t)),
        K::is_set(systems[i].memory, waiter((systems[i].threads)(t))),
        forall|k: int| i <= k < j ==> #[trigger] who[k] != t,
        access_of((systems[j].threads)(u)) == Access::TakeWaker(waiter((systems[i].threads)(t))),
    ensures
        (ledgers[j].owner)(waiter((systems[i].threads)(t))) == (ledgers[i].task)(t),
{
    let node = waiter((systems[i].threads)(t));
    parked_task_is_owed(systems, who, replies, ledgers, i, t);
    parking_stays_due(systems, who, replies, ledgers, i, j, t);
    parking::always_whole(systems, who, replies, j);
    assert(sound(systems[j]));
    assert(thread_wf((systems[j].threads)(t)));
    if let Thread::Locking(lock) = (systems[j].threads)(t) {
        K::lock_frame(lock, systems[j].memory, systems[j].memory);
    }
    mutex_wakes_the_last_task(systems, who, replies, ledgers, j, u, node);
    let v = choose|v: int|
        {
            &&& waiter(#[trigger] (systems[j].threads)(v)) == node
            &&& (ledgers[j].owner)(node) == (ledgers[j].due)(v)
        };
    assert(waiter((systems[j].threads)(t)) == node);
    assert(v == t);
}

} // verus!
