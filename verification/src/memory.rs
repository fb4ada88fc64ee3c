//! The memory that the threads around a lock share.
//!
//! [`Shared`] and [`performs`] say what each access does when the accesses of
//! all threads are made one after the other. [`Memory`] is such a memory that
//! runs.
use vstd::prelude::*;
use crate::access::{Access, Link, Operation, Place, Reply};

verus! {

/// The shared memory around one lock.
pub struct Shared {
    /// The state word.
    pub word: usize,
    /// Every other word: the links and the wake states of the waiters.
    pub cells: spec_fn(Place) -> usize,
    /// Whether a waiter has a waker.
    pub wakers: spec_fn(usize) -> bool,
    /// Whether a waiter has a deadline.
    pub deadlines: spec_fn(usize) -> bool,
    /// The queue of waiters of a lock that keeps one of its own.
    pub queue: Seq<usize>,
    /// Whether the lock that guards the queue is held.
    pub guarded: bool,
}

/// The value at a place.
pub open spec fn at(memory: Shared, place: Place) -> usize {
    if place is Word {
        memory.word
    } else {
        (memory.cells)(place)
    }
}

/// The memory with another value at a place.
pub open spec fn put(memory: Shared, place: Place, value: usize) -> Shared {
    if place is Word {
        Shared { word: value, ..memory }
    } else {
        Shared {
            cells: |other: Place| if other == place { value } else { (memory.cells)(other) },
            ..memory
        }
    }
}

/// The memory in which a waiter has a waker, or has none.
pub open spec fn put_waker(memory: Shared, node: usize, present: bool) -> Shared {
    Shared {
        wakers: |other: usize| if other == node { present } else { (memory.wakers)(other) },
        ..memory
    }
}

/// The memory in which a waiter has a deadline.
pub open spec fn put_deadline(memory: Shared, node: usize) -> Shared {
    Shared {
        deadlines: |other: usize| other == node || (memory.deadlines)(other),
        ..memory
    }
}

/// The memory with another queue.
pub open spec fn put_queue(memory: Shared, queue: Seq<usize>) -> Shared {
    Shared { queue, ..memory }
}

/// Which waiters are not the given one.
pub open spec fn other_than(node: usize) -> spec_fn(usize) -> bool {
    |other: usize| other != node
}

/// The queue without a waiter.
pub open spec fn without(queue: Seq<usize>, node: usize) -> Seq<usize> {
    queue.filter(other_than(node))
}

/// The word with another lowest byte.
pub open spec fn with_byte(word: usize, byte: usize) -> usize {
    (word - word % 256 + byte % 256) as usize
}

/// Whether an access can give this reply and leave this memory. An access
/// that reads neither memory nor a waker (a clock, a scheduler) may give any
/// reply.
pub open spec fn performs(memory: Shared, access: Access, reply: Reply, next: Shared) -> bool {
    match access {
        Access::Load(place, _) => {
            &&& reply.value == at(memory, place)
            &&& next == memory
        },
        Access::Store(place, value, _) => next == put(memory, place, value),
        Access::CompareExchange(place, current, new, _, _) => {
            &&& reply.value == at(memory, place)
            &&& reply.ok <==> at(memory, place) == current
            &&& next == if reply.ok {
                put(memory, place, new)
            } else {
                memory
            }
        },
        Access::CompareExchangeWeak(place, current, new, _, _) => {
            &&& reply.value == at(memory, place)
            &&& reply.ok ==> at(memory, place) == current
            &&& next == if reply.ok {
                put(memory, place, new)
            } else {
                memory
            }
        },
        Access::FetchAnd(place, mask, _) => {
            &&& reply.value == at(memory, place)
            &&& next == put(memory, place, at(memory, place) & mask)
        },
        Access::FetchSub(place, value, _) => {
            &&& reply.value == at(memory, place)
            &&& next == put(memory, place, at(memory, place).wrapping_sub(value))
        },
        Access::SwapByte(byte, _) => {
            &&& reply.value == memory.word % 256
            &&& next == put(memory, Place::Word, with_byte(memory.word, byte))
        },
        Access::StoreByte(byte, _) => next == put(
            memory,
            Place::Word,
            with_byte(memory.word, byte),
        ),
        Access::CompareExchangeByte(current, new, _, _) => {
            &&& reply.value == memory.word % 256
            &&& reply.ok <==> memory.word % 256 == current
            &&& next == if reply.ok {
                put(memory, Place::Word, with_byte(memory.word, new))
            } else {
                memory
            }
        },
        Access::HasWaker(node) => {
            &&& reply.ok == (memory.wakers)(node)
            &&& next == memory
        },
        Access::StoreWaker(node) => next == put_waker(memory, node, true),
        Access::DropWaker(node) => next == put_waker(memory, node, false),
        Access::TakeWaker(node) => {
            &&& reply.ok == (memory.wakers)(node)
            &&& next == put_waker(memory, node, false)
        },
        Access::HasDeadline(node) => {
            &&& reply.ok == (memory.deadlines)(node)
            &&& next == memory
        },
        Access::SetDeadline(node, _) => next == put_deadline(memory, node),
        Access::LockQueue => {
            &&& !memory.guarded
            &&& next == (Shared { guarded: true, ..memory })
        },
        Access::UnlockQueue => next == (Shared { guarded: false, ..memory }),
        Access::PushBack(node) => next == put_queue(memory, memory.queue.push(node)),
        Access::PopFront => {
            &&& reply.ok == (memory.queue.len() > 0)
            &&& reply.ok ==> reply.value == memory.queue[0]
            &&& next == if reply.ok {
                put_queue(memory, memory.queue.skip(1))
            } else {
                memory
            }
        },
        Access::Remove(node) => {
            &&& memory.queue.contains(node) ==> reply.ok
            &&& reply.ok ==> memory.queue.len() > 0
            &&& next == put_queue(memory, without(memory.queue, node))
        },
        Access::IsQueueEmpty => {
            &&& reply.ok == (memory.queue.len() == 0)
            &&& next == memory
        },
        Access::LastWaiter => {
            &&& reply.ok == (memory.queue.len() > 0)
            &&& reply.ok ==> reply.value == memory.queue.last()
            &&& next == memory
        },
        _ => next == memory,
    }
}

/// Whether an access to the queue, on whatever memory, can give this reply and
/// leave the queue so.
pub open spec fn queues(queue: Seq<usize>, access: Access, reply: Reply, after: Seq<usize>) -> bool {
    forall|memory: Shared|
        #![trigger put_queue(memory, queue)]
        performs(put_queue(memory, queue), access, reply, put_queue(memory, after))
}

/// The reply that tells of the waiter that was taken off the queue, if any.
pub open spec fn told(popped: Option<usize>) -> Reply {
    match popped {
        Some(node) => Reply { ok: true, value: node },
        None => Reply { ok: false, value: 0 },
    }
}

/// Taking a waiter out of the queue leaves those before and behind it.
pub proof fn without_is_removal(queue: Seq<usize>, k: int)
    requires
        queue.no_duplicates(),
        0 <= k < queue.len(),
    ensures
        without(queue, queue[k]) == queue.remove(k),
    decreases queue.len(),
{
    reveal(Seq::filter);
    let node = queue[k];
    let shorter = queue.drop_last();
    let last = queue.last();
    assert(queue == shorter.push(last));
    if k == queue.len() - 1 {
        assert(!shorter.contains(node)) by {
            if shorter.contains(node) {
                let i = choose|i: int| 0 <= i < shorter.len() && shorter[i] == node;
                assert(queue[i] == queue[k]);
            }
        }
        without_stranger(shorter, node);
        assert(queue.remove(k) =~= shorter);
    } else {
        assert(shorter[k] == node);
        without_is_removal(shorter, k);
        assert(last != node);
        assert(queue.remove(k) =~= shorter.remove(k).push(last));
    }
}

/// Taking a waiter out of a queue that it does not stand in changes nothing.
pub proof fn without_stranger(queue: Seq<usize>, node: usize)
    requires
        !queue.contains(node),
    ensures
        without(queue, node) == queue,
    decreases queue.len(),
{
    reveal(Seq::filter);
    if queue.len() > 0 {
        let shorter = queue.drop_last();
        assert(queue == shorter.push(queue.last()));
        assert(queue.contains(queue[queue.len() - 1]));
        assert(!shorter.contains(node)) by {
            if shorter.contains(node) {
                let i = choose|i: int| 0 <= i < shorter.len() && shorter[i] == node;
                assert(queue[i] == node);
            }
        }
        without_stranger(shorter, node);
    }
}

/// What an access replies when it is made on this memory and does not fail
/// without need. Clocks and schedulers answer no.
pub open spec fn answer(memory: Shared, access: Access) -> Reply {
    match access {
        Access::Load(place, _) => Reply { ok: true, value: at(memory, place) },
        Access::CompareExchange(place, current, _, _, _)
        | Access::CompareExchangeWeak(place, current, _, _, _) => Reply {
            ok: at(memory, place) == current,
            value: at(memory, place),
        },
        Access::FetchAnd(place, _, _) | Access::FetchSub(place, _, _) => Reply {
            ok: true,
            value: at(memory, place),
        },
        Access::SwapByte(_, _) => Reply { ok: true, value: memory.word % 256 },
        Access::CompareExchangeByte(current, _, _, _) => Reply {
            ok: memory.word % 256 == current,
            value: memory.word % 256,
        },
        Access::HasWaker(node) | Access::TakeWaker(node) => Reply {
            ok: (memory.wakers)(node),
            value: 0,
        },
        Access::HasDeadline(node) => Reply { ok: (memory.deadlines)(node), value: 0 },
        Access::PopFront => Reply {
            ok: memory.queue.len() > 0,
            value: if memory.queue.len() > 0 {
                memory.queue[0]
            } else {
                0
            },
        },
        Access::Remove(node) => Reply { ok: memory.queue.contains(node), value: 0 },
        Access::IsQueueEmpty => Reply { ok: memory.queue.len() == 0, value: 0 },
        Access::LastWaiter => Reply {
            ok: memory.queue.len() > 0,
            value: if memory.queue.len() > 0 {
                memory.queue.last()
            } else {
                0
            },
        },
        _ => Reply { ok: false, value: 0 },
    }
}

/// The memory that such an access leaves.
pub open spec fn effect(memory: Shared, access: Access) -> Shared {
    match access {
        Access::Store(place, value, _) => put(memory, place, value),
        Access::CompareExchange(place, current, new, _, _)
        | Access::CompareExchangeWeak(place, current, new, _, _) => if at(memory, place)
            == current {
            put(memory, place, new)
        } else {
            memory
        },
        Access::FetchAnd(place, mask, _) => put(memory, place, at(memory, place) & mask),
        Access::FetchSub(place, value, _) => put(
            memory,
            place,
            at(memory, place).wrapping_sub(value),
        ),
        Access::SwapByte(byte, _) | Access::StoreByte(byte, _) => put(
            memory,
            Place::Word,
            with_byte(memory.word, byte),
        ),
        Access::CompareExchangeByte(current, new, _, _) => if memory.word % 256 == current {
            put(memory, Place::Word, with_byte(memory.word, new))
        } else {
            memory
        },
        Access::StoreWaker(node) => put_waker(memory, node, true),
        Access::DropWaker(node) | Access::TakeWaker(node) => put_waker(memory, node, false),
        Access::SetDeadline(node, _) => put_deadline(memory, node),
        Access::LockQueue => Shared { guarded: true, ..memory },
        Access::UnlockQueue => Shared { guarded: false, ..memory },
        Access::PushBack(node) => put_queue(memory, memory.queue.push(node)),
        Access::PopFront => if memory.queue.len() > 0 {
            put_queue(memory, memory.queue.skip(1))
        } else {
            memory
        },
        Access::Remove(node) => put_queue(memory, without(memory.queue, node)),
        _ => memory,
    }
}

/// `answer` and `effect` are one of the outcomes that an access can have. The
/// lock of the queue can be taken only while nobody has it.
pub proof fn answer_is_possible(memory: Shared, access: Access)
    requires
        access is LockQueue ==> !memory.guarded,
    ensures
        performs(memory, access, answer(memory, access), effect(memory, access)),
{
}

/// Whether an operation that makes `count` accesses with no other thread in
/// between gets only replies that it expects.
pub open spec fn runs<P: Operation>(operation: P, memory: Shared, count: nat) -> bool
    decreases count,
{
    count == 0 || {
        let reply = answer(memory, operation.wants());
        &&& operation.expects(reply)
        &&& runs(
            operation.after(reply),
            effect(memory, operation.wants()),
            (count - 1) as nat,
        )
    }
}

/// An operation and the memory after it made `count` accesses with no other
/// thread in between.
pub open spec fn alone<P: Operation>(operation: P, memory: Shared, count: nat) -> (P, Shared)
    decreases count,
{
    if count == 0 {
        (operation, memory)
    } else {
        let access = operation.wants();
        alone(
            operation.after(answer(memory, access)),
            effect(memory, access),
            (count - 1) as nat,
        )
    }
}

/// A run can be cut in two.
pub proof fn run_in_two<P: Operation>(operation: P, memory: Shared, first: nat, rest: nat)
    ensures
        ({
            let (middle, between) = alone(operation, memory, first);
            &&& alone(operation, memory, first + rest) == alone(middle, between, rest)
            &&& runs(operation, memory, first + rest) == (runs(operation, memory, first) && runs(
                middle,
                between,
                rest,
            ))
        }),
    decreases first,
{
    if first > 0 {
        let reply = answer(memory, operation.wants());
        let next = effect(memory, operation.wants());
        run_in_two(operation.after(reply), next, (first - 1) as nat, rest);
        assert((first + rest - 1) as nat == (first - 1) as nat + rest);
    }
}

/// The distance between the addresses of two waiters of a [`Memory`].
pub const STRIDE: usize = 512;

/// The words of a waiter.
#[derive(Clone, Copy, PartialEq, Eq, Structural, Debug)]
pub struct Cells {
    pub prev: usize,
    pub next: usize,
    pub tail: usize,
    pub wake: usize,
    pub seed: usize,
    pub waker: bool,
    pub deadline: bool,
}

/// A memory that runs: a state word, and waiters at the addresses that are
/// multiples of [`STRIDE`]. A waiter that was never touched holds zeros.
#[derive(Debug)]
pub struct Memory {
    word: usize,
    prng: usize,
    waiters: Vec<Cells>,
    queue: Vec<usize>,
    guarded: bool,
}

impl Memory {
    /// Whether the memory has a waiter at this address.
    pub closed spec fn has(&self, node: usize) -> bool {
        &&& node % STRIDE == 0
        &&& 0 < node / STRIDE <= self.waiters.len()
    }

    /// The words of the waiter at this address.
    pub closed spec fn cells(&self, node: usize) -> Cells {
        self.waiters@[node / STRIDE - 1]
    }

    pub closed spec fn view(&self) -> Shared {
        Shared {
            word: self.word,
            cells: |place: Place|
                match place {
                    Place::Word => 0,
                    Place::Link(node, which) => if !self.has(node) {
                        0
                    } else {
                        match which {
                            Link::Prev => self.cells(node).prev,
                            Link::Next => self.cells(node).next,
                            Link::Tail => self.cells(node).tail,
                        }
                    },
                    Place::Wake(node) => if self.has(node) {
                        self.cells(node).wake
                    } else {
                        0
                    },
                    Place::Seed(node) => if self.has(node) {
                        self.cells(node).seed
                    } else {
                        0
                    },
                    Place::Prng => self.prng,
                },
            wakers: |node: usize| self.has(node) && self.cells(node).waker,
            deadlines: |node: usize| self.has(node) && self.cells(node).deadline,
            queue: self.queue@,
            guarded: self.guarded,
        }
    }

    /// Whether the memory has the place.
    pub open spec fn reaches(&self, place: Place) -> bool {
        match place {
            Place::Word | Place::Prng => true,
            Place::Link(node, _) | Place::Wake(node) | Place::Seed(node) => self.has(node),
        }
    }

    /// Whether the access can be made on this memory.
    pub open spec fn allows(&self, access: Access) -> bool {
        match access {
            Access::Load(place, _)
            | Access::Store(place, _, _)
            | Access::CompareExchange(place, _, _, _, _)
            | Access::CompareExchangeWeak(place, _, _, _, _)
            | Access::FetchAnd(place, _, _)
            | Access::FetchSub(place, _, _) => self.reaches(place),
            Access::HasWaker(node)
            | Access::StoreWaker(node)
            | Access::DropWaker(node)
            | Access::TakeWaker(node)
            | Access::HasDeadline(node)
            | Access::SetDeadline(node, _) => self.has(node),
            _ => true,
        }
    }

    /// A memory with a state word and `count` waiters.
    pub fn new(word: usize, count: usize) -> (memory: Self)
        requires
            count < usize::MAX / STRIDE,
        ensures
            memory@.word == word,
            forall|place: Place| #[trigger] (memory@.cells)(place) == 0,
            forall|node: usize| !(#[trigger] (memory@.wakers)(node)),
            forall|node: usize| !(#[trigger] (memory@.deadlines)(node)),
            memory@.queue == Seq::<usize>::empty(),
            !memory@.guarded,
            forall|i: usize|
                1 <= i <= count ==> #[trigger] memory.has((i * STRIDE) as usize),
    {
        let empty = Cells {
            prev: 0,
            next: 0,
            tail: 0,
            wake: 0,
            seed: 0,
            waker: false,
            deadline: false,
        };
        let mut waiters: Vec<Cells> = Vec::new();
        let mut i: usize = 0;
        while i < count
            invariant
                i <= count,
                waiters.len() == i,
                forall|j: int| 0 <= j < i ==> waiters@[j] == empty,
            decreases count - i,
        {
            waiters.push(empty);
            i = i + 1;
        }
        Memory { word, prng: 0, waiters, queue: Vec::new(), guarded: false }
    }

    pub open spec fn spec_address(i: usize) -> usize {
        ((i + 1) * STRIDE) as usize
    }

    /// The address of a waiter.
    #[verifier::when_used_as_spec(spec_address)]
    pub fn address(i: usize) -> (node: usize)
        requires
            i < usize::MAX / STRIDE,
        ensures
            node == Self::spec_address(i),
    {
        (i + 1) * STRIDE
    }

    /// The value at a place.
    pub fn get(&self, place: Place) -> (value: usize)
        requires
            self.reaches(place),
        ensures
            value == at(self@, place),
    {
        match place {
            Place::Word => self.word,
            Place::Prng => self.prng,
            Place::Link(node, which) => {
                let cells = self.waiters[node / STRIDE - 1];
                match which {
                    Link::Prev => cells.prev,
                    Link::Next => cells.next,
                    Link::Tail => cells.tail,
                }
            },
            Place::Wake(node) => self.waiters[node / STRIDE - 1].wake,
            Place::Seed(node) => self.waiters[node / STRIDE - 1].seed,
        }
    }

    /// Puts a value at a place.
    pub fn set(&mut self, place: Place, value: usize)
        requires
            old(self).reaches(place),
        ensures
            final(self)@ == put(old(self)@, place, value),
            forall|node: usize| #[trigger] final(self).has(node) == old(self).has(node),
    {
        match place {
            Place::Word => {
                self.word = value;
            },
            Place::Prng => {
                self.prng = value;
            },
            Place::Link(node, which) => {
                let i: usize = node / STRIDE - 1;
                let cells = self.waiters[i];
                let changed = match which {
                    Link::Prev => Cells { prev: value, ..cells },
                    Link::Next => Cells { next: value, ..cells },
                    Link::Tail => Cells { tail: value, ..cells },
                };
                self.waiters.set(i, changed);
            },
            Place::Wake(node) => {
                let i: usize = node / STRIDE - 1;
                let cells = self.waiters[i];
                self.waiters.set(i, Cells { wake: value, ..cells });
            },
            Place::Seed(node) => {
                let i: usize = node / STRIDE - 1;
                let cells = self.waiters[i];
                self.waiters.set(i, Cells { seed: value, ..cells });
            },
        }
        proof {
            let want = put(old(self)@, place, value);
            assert(self@.cells =~= want.cells);
            assert(self@.wakers =~= want.wakers);
            assert(self@.deadlines =~= want.deadlines);
        }
    }

    /// Whether a waiter has a waker.
    pub fn has_waker(&self, node: usize) -> (present: bool)
        requires
            self.has(node),
        ensures
            present == (self@.wakers)(node),
    {
        self.waiters[node / STRIDE - 1].waker
    }

    fn set_waker(&mut self, node: usize, present: bool)
        requires
            old(self).has(node),
        ensures
            final(self)@ == put_waker(old(self)@, node, present),
            forall|other: usize| #[trigger] final(self).has(other) == old(self).has(other),
    {
        let i: usize = node / STRIDE - 1;
        let cells = self.waiters[i];
        self.waiters.set(i, Cells { waker: present, ..cells });
        proof {
            let want = put_waker(old(self)@, node, present);
            assert(self@.cells =~= want.cells);
            assert(self@.wakers =~= want.wakers);
            assert(self@.deadlines =~= want.deadlines);
        }
    }

    fn set_deadline(&mut self, node: usize)
        requires
            old(self).has(node),
        ensures
            final(self)@ == put_deadline(old(self)@, node),
            forall|other: usize| #[trigger] final(self).has(other) == old(self).has(other),
    {
        let i: usize = node / STRIDE - 1;
        let cells = self.waiters[i];
        self.waiters.set(i, Cells { deadline: true, ..cells });
        proof {
            let want = put_deadline(old(self)@, node);
            assert(self@.cells =~= want.cells);
            assert(self@.wakers =~= want.wakers);
            assert(self@.deadlines =~= want.deadlines);
        }
    }

    /// Whether the lock of the queue is held.
    pub fn is_guarded(&self) -> (guarded: bool)
        ensures
            guarded == self@.guarded,
    {
        self.guarded
    }

    /// The queue.
    pub fn waiting(&self) -> (queue: &Vec<usize>)
        ensures
            queue@ == self@.queue,
    {
        &self.queue
    }

    fn remove(&mut self, node: usize) -> (found: bool)
        ensures
            found == old(self)@.queue.contains(node),
            final(self)@ == put_queue(old(self)@, without(old(self)@.queue, node)),
            forall|other: usize| #[trigger] final(self).has(other) == old(self).has(other),
    {
        let mut kept: Vec<usize> = Vec::new();
        let mut found: bool = false;
        let mut i: usize = 0;
        let ghost differs = other_than(node);
        while i < self.queue.len()
            invariant
                *self == *old(self),
                i <= self.queue.len(),
                differs == other_than(node),
                kept@ == self.queue@.take(i as int).filter(differs),
                found == self.queue@.take(i as int).contains(node),
            decreases self.queue.len() - i,
        {
            let ghost before = self.queue@.take(i as int);
            let other: usize = self.queue[i];
            proof {
                assert(self.queue@.take(i + 1) =~= before.push(other));
                reveal(Seq::filter);
                assert(before.push(other).drop_last() =~= before);
                assert(before.push(other).contains(node) == (before.contains(node) || other
                    == node)) by {
                    if before.contains(node) {
                        let j = choose|j: int| 0 <= j < before.len() && before[j] == node;
                        assert(before.push(other)[j] == node);
                    }
                    if other == node {
                        assert(before.push(other)[before.len() as int] == node);
                    }
                }
            }
            if other == node {
                found = true;
            } else {
                kept.push(other);
            }
            i = i + 1;
        }
        proof {
            assert(self.queue@.take(i as int) =~= self.queue@);
        }
        self.queue = kept;
        proof {
            let want = put_queue(old(self)@, without(old(self)@.queue, node));
            assert(self@.cells =~= want.cells);
            assert(self@.wakers =~= want.wakers);
            assert(self@.deadlines =~= want.deadlines);
        }
        found
    }

    /// Makes an access. Clocks and schedulers answer no.
    pub fn perform(&mut self, access: Access) -> (reply: Reply)
        requires
            old(self).allows(access),
        ensures
            reply == answer(old(self)@, access),
            final(self)@ == effect(old(self)@, access),
            forall|node: usize| #[trigger] final(self).has(node) == old(self).has(node),
    {
        let no = Reply { ok: false, value: 0 };
        match access {
            Access::Load(place, _) => Reply { ok: true, value: self.get(place) },
            Access::Store(place, value, _) => {
                self.set(place, value);
                no
            },
            Access::CompareExchange(place, current, new, _, _)
            | Access::CompareExchangeWeak(place, current, new, _, _) => {
                let value: usize = self.get(place);
                if value == current {
                    self.set(place, new);
                }
                Reply { ok: value == current, value }
            },
            Access::FetchAnd(place, mask, _) => {
                let value: usize = self.get(place);
                self.set(place, value & mask);
                Reply { ok: true, value }
            },
            Access::FetchSub(place, amount, _) => {
                let value: usize = self.get(place);
                self.set(place, value.wrapping_sub(amount));
                Reply { ok: true, value }
            },
            Access::SwapByte(byte, _) => {
                let value: usize = self.word;
                self.set(Place::Word, value - value % 256 + byte % 256);
                Reply { ok: true, value: value % 256 }
            },
            Access::StoreByte(byte, _) => {
                let value: usize = self.word;
                self.set(Place::Word, value - value % 256 + byte % 256);
                no
            },
            Access::CompareExchangeByte(current, new, _, _) => {
                let value: usize = self.word;
                if value % 256 == current {
                    self.set(Place::Word, value - value % 256 + new % 256);
                }
                Reply { ok: value % 256 == current, value: value % 256 }
            },
            Access::HasWaker(node) => Reply { ok: self.has_waker(node), value: 0 },
            Access::StoreWaker(node) => {
                self.set_waker(node, true);
                no
            },
            Access::DropWaker(node) => {
                self.set_waker(node, false);
                no
            },
            Access::TakeWaker(node) => {
                let ok: bool = self.has_waker(node);
                self.set_waker(node, false);
                Reply { ok, value: 0 }
            },
            Access::HasDeadline(node) => Reply {
                ok: self.waiters[node / STRIDE - 1].deadline,
                value: 0,
            },
            Access::SetDeadline(node, _) => {
                self.set_deadline(node);
                no
            },
            Access::LockQueue => {
                self.guarded = true;
                proof {
                    self.same_waiters(old(self));
                }
                no
            },
            Access::UnlockQueue => {
                self.guarded = false;
                proof {
                    self.same_waiters(old(self));
                }
                no
            },
            Access::PushBack(node) => {
                self.queue.push(node);
                proof {
                    self.same_waiters(old(self));
                }
                no
            },
            Access::PopFront => if self.queue.len() > 0 {
                let node: usize = self.queue.remove(0);
                proof {
                    self.same_waiters(old(self));
                    assert(self.queue@ =~= old(self).queue@.skip(1));
                }
                Reply { ok: true, value: node }
            } else {
                no
            },
            Access::Remove(node) => Reply { ok: self.remove(node), value: 0 },
            Access::IsQueueEmpty => Reply { ok: self.queue.len() == 0, value: 0 },
            Access::LastWaiter => if self.queue.len() > 0 {
                Reply { ok: true, value: self.queue[self.queue.len() - 1] }
            } else {
                no
            },
            _ => no,
        }
    }

    proof fn same_waiters(&self, other: &Memory)
        requires
            self.waiters == other.waiters,
            self.prng == other.prng,
        ensures
            self@.cells == other@.cells,
            self@.wakers == other@.wakers,
            self@.deadlines == other@.deadlines,
            forall|node: usize| #[trigger] self.has(node) == other.has(node),
    {
        assert(self@.cells =~= other@.cells);
        assert(self@.wakers =~= other@.wakers);
        assert(self@.deadlines =~= other@.deadlines);
    }
}

} // verus!
