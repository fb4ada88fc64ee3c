//! Why two threads never hold a lock at once.
//!
//! The argument is the same for every lock of this crate, so it stands here
//! once. Any number of threads share a lock. In one step a thread either makes
//! the access its operation wants, begins a new operation, or gives an attempt
//! up.
//!
//! A thread *holds* the lock when it has acquired it and has not given it up,
//! or when another thread has handed it over by writing a wake state that the
//! lock grants by. A lock ([`LockKind`]) shows of each of its operations that
//! a single step is [`lawful`]: it begins to hold only on a word that is not
//! held, clears the held flag only to stop holding, and grants at most one
//! waiter, in place of itself. From that, [`mutual_exclusion`] follows for
//! every schedule.
use vstd::prelude::*;
use crate::access::{Operation, Place, Reply};
use crate::memory::{Shared, at, performs};

verus! {

/// An operation of one thread on a lock, as the others see it.
pub trait Party: Operation {
    /// Whether the operation may stand so at its beginning.
    spec fn begins(&self) -> bool;

    /// Whether the thread holds the lock.
    spec fn holds(&self, memory: Shared) -> bool;

    /// The waiter that the operation waits by, or 0.
    spec fn waiter(&self) -> usize;

    /// Whether the schedules under study let this reply come now.
    spec fn admits(&self, memory: Shared, reply: Reply) -> bool;

    /// Whether the thread may give the operation up, and go on with the given
    /// one in its place.
    open spec fn gives_up(&self, other: Self) -> bool {
        false
    }
}

/// How the memory of a lock says that it is held.
pub trait Encoding: Sized {
    /// Whether the state word says that the lock is held.
    spec fn is_held(word: usize) -> bool;

    /// Whether a wake state hands the lock to the waiter that has it.
    spec fn grants(wake: usize) -> bool;
}

/// A lock and its operations.
pub trait LockKind: Encoding {
    type Try: Party;

    type Lock: Party;

    type Unlock: Party;

    /// A try holds the lock at no time but after its success.
    proof fn try_frame(party: Self::Try, memory: Shared, next: Shared)
        requires
            party.wf(),
        ensures
            party.waiter() == 0,
            party.holds(memory) == party.holds(next),
            party.begins() ==> !party.holds(memory),
    ;

    /// Whether a locking thread holds the lock depends on its own wake state
    /// alone, and other threads can only bring it about by a grant.
    proof fn lock_frame(party: Self::Lock, memory: Shared, next: Shared)
        requires
            party.wf(),
        ensures
            party.waiter() != 0,
            wake_of(memory, party.waiter()) == wake_of(next, party.waiter()) ==> party.holds(memory)
                == party.holds(next),
            !Self::grants(wake_of(next, party.waiter())) && party.holds(next) ==> party.holds(
                memory,
            ),
            party.begins() && !Self::grants(wake_of(memory, party.waiter())) ==> !party.holds(
                memory,
            ),
    ;

    /// Whether an unlocking thread still holds the lock is its own affair.
    proof fn unlock_frame(party: Self::Unlock, memory: Shared, next: Shared)
        requires
            party.wf(),
        ensures
            party.waiter() == 0,
            party.holds(memory) == party.holds(next),
    ;

    /// Giving an attempt up neither takes the lock nor loses it.
    proof fn lock_given_up(party: Self::Lock, other: Self::Lock, memory: Shared)
        requires
            party.wf(),
        ensures
            party.gives_up(other) ==> {
                &&& other.wf()
                &&& other.waiter() == party.waiter()
                &&& other.holds(memory) == party.holds(memory)
            },
    ;

    proof fn try_step(party: Self::Try, memory: Shared, reply: Reply, next: Shared)
        requires
            steps(party, memory, reply, next),
        ensures
            lawful::<Self, Self::Try>(party, memory, party.after(reply), next),
    ;

    proof fn lock_step(party: Self::Lock, memory: Shared, reply: Reply, next: Shared)
        requires
            steps(party, memory, reply, next),
        ensures
            lawful::<Self, Self::Lock>(party, memory, party.after(reply), next),
    ;

    proof fn unlock_step(party: Self::Unlock, memory: Shared, reply: Reply, next: Shared)
        requires
            steps(party, memory, reply, next),
        ensures
            lawful::<Self, Self::Unlock>(party, memory, party.after(reply), next),
    ;
}

/// The wake state of a waiter.
pub open spec fn wake_of(memory: Shared, node: usize) -> usize {
    at(memory, Place::Wake(node))
}

/// One step of an operation: the access it wants gives the reply.
pub open spec fn steps<P: Party>(party: P, memory: Shared, reply: Reply, next: Shared) -> bool {
    &&& party.wf()
    &&& party.expects(reply)
    &&& party.admits(memory, reply)
    &&& performs(memory, party.wants(), reply, next)
}

/// What a step may do to the lock.
pub open spec fn lawful<K: Encoding, P: Party>(
    party: P,
    memory: Shared,
    after: P,
    next: Shared,
) -> bool {
    let held = party.holds(memory);
    let holds = after.holds(next);
    &&& after.wf()
    &&& after.waiter() == party.waiter()
    &&& !held && holds ==> !K::is_held(memory.word) && K::is_held(next.word)
    &&& K::is_held(memory.word) && !K::is_held(next.word) ==> held && !holds
    &&& forall|node: usize|
        #![trigger wake_of(next, node)]
        node != party.waiter() && wake_of(next, node) != wake_of(memory, node) && K::grants(
            wake_of(next, node),
        ) ==> held && !holds && next.word == memory.word
    &&& forall|one: usize, two: usize|
        #![trigger wake_of(next, one), wake_of(next, two)]
        wake_of(next, one) != wake_of(memory, one) && wake_of(next, two) != wake_of(memory, two)
            ==> one == two
}

/// What a thread is doing.
#[verifier::reject_recursive_types(K)]
pub enum Thread<K: LockKind> {
    Idle,
    Trying(K::Try),
    Locking(K::Lock),
    Unlocking(K::Unlock),
}

/// A lock and the threads around it, numbered.
#[verifier::reject_recursive_types(K)]
pub struct System<K: LockKind> {
    pub memory: Shared,
    pub threads: spec_fn(int) -> Thread<K>,
}

/// Whether the thread holds the lock.
pub open spec fn holds<K: LockKind>(thread: Thread<K>, memory: Shared) -> bool {
    match thread {
        Thread::Idle => false,
        Thread::Trying(party) => party.holds(memory),
        Thread::Locking(party) => party.holds(memory),
        Thread::Unlocking(party) => party.holds(memory),
    }
}

/// The waiter a thread waits by, or 0.
pub open spec fn waiter<K: LockKind>(thread: Thread<K>) -> usize {
    match thread {
        Thread::Locking(party) => party.waiter(),
        _ => 0,
    }
}

/// Whether the operation of the thread is over.
pub open spec fn rests<K: LockKind>(thread: Thread<K>) -> bool {
    match thread {
        Thread::Idle => true,
        Thread::Trying(party) => party.wants() is Done,
        Thread::Locking(party) => party.wants() is Done,
        Thread::Unlocking(party) => party.wants() is Done,
    }
}

pub open spec fn thread_wf<K: LockKind>(thread: Thread<K>) -> bool {
    match thread {
        Thread::Idle => true,
        Thread::Trying(party) => party.wf(),
        Thread::Locking(party) => party.wf(),
        Thread::Unlocking(party) => party.wf(),
    }
}

/// A thread whose last operation is over begins another one. It unlocks only
/// what it holds, and it waits by a waiter of its own with a wake state that
/// grants nothing.
pub open spec fn begin<K: LockKind>(
    system: System<K>,
    thread: Thread<K>,
    next: Thread<K>,
) -> bool {
    &&& rests(thread)
    &&& thread_wf(next)
    &&& match next {
        Thread::Idle => !holds(thread, system.memory),
        Thread::Trying(party) => party.begins() && !holds(thread, system.memory),
        Thread::Locking(party) => {
            &&& party.begins()
            &&& !holds(thread, system.memory)
            &&& !K::grants(wake_of(system.memory, party.waiter()))
            &&& forall|t: int| waiter(#[trigger] (system.threads)(t)) != party.waiter()
        },
        Thread::Unlocking(party) => {
            &&& party.begins()
            &&& holds(thread, system.memory)
            &&& party.holds(system.memory)
        },
    }
}

/// A thread makes the access that its operation wants.
pub open spec fn go_on<K: LockKind>(
    thread: Thread<K>,
    memory: Shared,
    reply: Reply,
    after: Thread<K>,
    next: Shared,
) -> bool {
    match thread {
        Thread::Idle => false,
        Thread::Trying(party) => {
            &&& steps(party, memory, reply, next)
            &&& after == Thread::<K>::Trying(party.after(reply))
        },
        Thread::Locking(party) => {
            &&& steps(party, memory, reply, next)
            &&& after == Thread::<K>::Locking(party.after(reply))
        },
        Thread::Unlocking(party) => {
            &&& steps(party, memory, reply, next)
            &&& after == Thread::<K>::Unlocking(party.after(reply))
        },
    }
}

/// A thread gives up its attempt to lock.
pub open spec fn give_up<K: LockKind>(thread: Thread<K>, after: Thread<K>) -> bool {
    match thread {
        Thread::Locking(party) => {
            &&& after is Locking
            &&& party.gives_up(after->Locking_0)
        },
        _ => false,
    }
}

/// One step of the system, made by thread `t`.
pub open spec fn moves<K: LockKind>(
    system: System<K>,
    t: int,
    reply: Reply,
    next: System<K>,
) -> bool {
    &&& forall|other: int| other != t ==> #[trigger] (next.threads)(other) == (system.threads)(other)
    &&& {
        ||| {
            &&& begin(system, (system.threads)(t), (next.threads)(t))
            &&& next.memory == system.memory
        }
        ||| {
            &&& give_up((system.threads)(t), (next.threads)(t))
            &&& next.memory == system.memory
        }
        ||| go_on((system.threads)(t), system.memory, reply, (next.threads)(t), next.memory)
    }
}

/// No thread has begun anything, and the lock is free.
pub open spec fn initial<K: LockKind>(system: System<K>) -> bool {
    &&& !K::is_held(system.memory.word)
    &&& forall|t: int| #[trigger] (system.threads)(t) is Idle
}

/// A schedule: systems each of which is one step from the one before.
pub open spec fn schedule<K: LockKind>(
    systems: Seq<System<K>>,
    who: Seq<int>,
    replies: Seq<Reply>,
) -> bool {
    &&& systems.len() > 0
    &&& who.len() == systems.len() - 1
    &&& replies.len() == systems.len() - 1
    &&& initial(systems[0])
    &&& forall|i: int|
        0 <= i < systems.len() - 1 ==> moves(
            systems[i],
            #[trigger] who[i],
            replies[i],
            systems[i + 1],
        )
}

/// What holds of the system at every point of a schedule.
pub open spec fn sound<K: LockKind>(system: System<K>) -> bool {
    &&& forall|t: int| thread_wf(#[trigger] (system.threads)(t))
    &&& forall|t: int|
        holds(#[trigger] (system.threads)(t), system.memory) ==> K::is_held(system.memory.word)
    &&& forall|t: int, u: int|
        t != u && holds(#[trigger] (system.threads)(t), system.memory) ==> !holds(
            #[trigger] (system.threads)(u),
            system.memory,
        )
    &&& forall|t: int, u: int|
        t != u && waiter(#[trigger] (system.threads)(t)) != 0 ==> waiter(
            #[trigger] (system.threads)(u),
        ) != waiter((system.threads)(t))
}

/// Beginning an operation neither takes the lock nor gives it up.
proof fn begin_keeps<K: LockKind>(system: System<K>, t: int, next: System<K>)
    requires
        sound(system),
        forall|other: int| other != t ==> #[trigger] (next.threads)(other) == (system.threads)(other),
        begin(system, (system.threads)(t), (next.threads)(t)),
        next.memory == system.memory,
    ensures
        sound(next),
{
    let before = (system.threads)(t);
    let after = (next.threads)(t);
    match after {
        Thread::Idle => {},
        Thread::Trying(party) => {
            K::try_frame(party, system.memory, system.memory);
        },
        Thread::Locking(party) => {
            K::lock_frame(party, system.memory, system.memory);
        },
        Thread::Unlocking(party) => {
            K::unlock_frame(party, system.memory, system.memory);
        },
    }
    assert(holds(after, next.memory) ==> holds(before, system.memory));
}

/// Giving an attempt up keeps the system sound.
proof fn give_up_keeps<K: LockKind>(system: System<K>, t: int, next: System<K>)
    requires
        sound(system),
        forall|other: int| other != t ==> #[trigger] (next.threads)(other) == (system.threads)(other),
        give_up((system.threads)(t), (next.threads)(t)),
        next.memory == system.memory,
    ensures
        sound(next),
{
    let before = (system.threads)(t);
    let after = (next.threads)(t);
    assert(thread_wf(before));
    K::lock_given_up(before->Locking_0, after->Locking_0, system.memory);
    assert(holds(after, next.memory) == holds(before, system.memory));
    assert(waiter(after) == waiter(before));
}

/// An access keeps the system sound.
proof fn go_on_keeps<K: LockKind>(system: System<K>, t: int, reply: Reply, next: System<K>)
    requires
        sound(system),
        forall|other: int| other != t ==> #[trigger] (next.threads)(other) == (system.threads)(other),
        go_on((system.threads)(t), system.memory, reply, (next.threads)(t), next.memory),
    ensures
        sound(next),
{
    let before = (system.threads)(t);
    let after = (next.threads)(t);
    let m = system.memory;
    let n = next.memory;
    let held = holds(before, m);
    let stays = holds(after, n);
    match before {
        Thread::Idle => {},
        Thread::Trying(party) => {
            K::try_step(party, m, reply, n);
            K::try_frame(party, m, n);
        },
        Thread::Locking(party) => {
            K::lock_step(party, m, reply, n);
            K::lock_frame(party, m, n);
        },
        Thread::Unlocking(party) => {
            K::unlock_step(party, m, reply, n);
            K::unlock_frame(party, m, n);
        },
    }
    assert(waiter(after) == waiter(before));
    assert forall|u: int| u != t && holds(#[trigger] (next.threads)(u), n) implies ({
        ||| holds((system.threads)(u), m)
        ||| {
            &&& held && !stays && n.word == m.word
            &&& waiter((system.threads)(u)) != 0
            &&& wake_of(n, waiter((system.threads)(u))) != wake_of(
                m,
                waiter((system.threads)(u)),
            )
        }
    }) by {
        let thread = (system.threads)(u);
        assert((next.threads)(u) == thread);
        assert(thread_wf(thread));
        match thread {
            Thread::Idle => {},
            Thread::Trying(party) => {
                K::try_frame(party, m, n);
            },
            Thread::Locking(party) => {
                K::lock_frame(party, m, n);
                assert(waiter(before) != 0 ==> waiter(thread) != waiter(before));
                assert(wake_of(n, party.waiter()) == wake_of(n, party.waiter()));
            },
            Thread::Unlocking(party) => {
                K::unlock_frame(party, m, n);
            },
        }
    }
    assert forall|u: int, v: int|
        u != v && holds(#[trigger] (next.threads)(u), n) implies !holds(
        #[trigger] (next.threads)(v),
        n,
    ) by {
        assert(u != t ==> (next.threads)(u) == (system.threads)(u));
        assert(v != t ==> (next.threads)(v) == (system.threads)(v));
        if holds((next.threads)(v), n) {
            assert(waiter((system.threads)(u)) != 0 ==> waiter((system.threads)(v)) != waiter(
                (system.threads)(u),
            ));
        }
    }
    assert forall|u: int| holds(#[trigger] (next.threads)(u), n) implies K::is_held(n.word) by {
        assert(u != t ==> (next.threads)(u) == (system.threads)(u));
    }
    assert forall|u: int, v: int| u != v && waiter(#[trigger] (next.threads)(u)) != 0 implies waiter(
        #[trigger] (next.threads)(v),
    ) != waiter((next.threads)(u)) by {
        assert(u != t ==> (next.threads)(u) == (system.threads)(u));
        assert(v != t ==> (next.threads)(v) == (system.threads)(v));
        assert(waiter((system.threads)(u)) != 0 ==> waiter((system.threads)(v)) != waiter(
            (system.threads)(u),
        ));
    }
    assert forall|u: int| thread_wf(#[trigger] (next.threads)(u)) by {
        assert(u != t ==> (next.threads)(u) == (system.threads)(u));
    }
}

/// A step keeps the system sound.
pub proof fn step_keeps<K: LockKind>(system: System<K>, t: int, reply: Reply, next: System<K>)
    requires
        sound(system),
        moves(system, t, reply, next),
    ensures
        sound(next),
{
    if go_on((system.threads)(t), system.memory, reply, (next.threads)(t), next.memory) {
        go_on_keeps(system, t, reply, next);
    } else if give_up((system.threads)(t), (next.threads)(t)) && next.memory == system.memory {
        give_up_keeps(system, t, next);
    } else {
        begin_keeps(system, t, next);
    }
}

/// A schedule leads through sound systems only.
pub proof fn always_sound<K: LockKind>(
    systems: Seq<System<K>>,
    who: Seq<int>,
    replies: Seq<Reply>,
    i: int,
)
    requires
        schedule(systems, who, replies),
        0 <= i < systems.len(),
    ensures
        sound(systems[i]),
    decreases i,
{
    if i > 0 {
        always_sound(systems, who, replies, i - 1);
        assert(moves(systems[i - 1], who[i - 1], replies[i - 1], systems[i]));
        step_keeps(systems[i - 1], who[i - 1], replies[i - 1], systems[i]);
    }
}

/// Mutual exclusion: at no point of any schedule do two threads hold the
/// lock, and while one does, the state word says so.
pub proof fn mutual_exclusion<K: LockKind>(
    systems: Seq<System<K>>,
    who: Seq<int>,
    replies: Seq<Reply>,
    i: int,
    t: int,
    u: int,
)
    requires
        schedule(systems, who, replies),
        0 <= i < systems.len(),
        holds((systems[i].threads)(t), systems[i].memory),
    ensures
        K::is_held(systems[i].memory.word),
        holds((systems[i].threads)(u), systems[i].memory) ==> u == t,
{
    always_sound(systems, who, replies, i);
    assert(u != t ==> !holds((systems[i].threads)(u), systems[i].memory)) by {
        let a = (systems[i].threads)(t);
        let b = (systems[i].threads)(u);
    }
}

} // verus!
