//! The search for the oldest waiter of a queue.
//!
//! A waiter that joins a queue puts itself in front: its next link leads to
//! the waiter that was the newest so far. The oldest one is found by walking
//! along the next links. Some waiter on the way has its tail link set, which
//! leads to the oldest one at once. The walk sets the prev links it passes,
//! and the tail link of the newest waiter, so that no stretch is walked twice.
use vstd::prelude::*;
use crate::access::{Access, Link, Operation, Order, Place, Reply};
use crate::kernel::cpu::Hints;
use crate::memory::{Shared, alone, at, effect, run_in_two, runs};

verus! {

/// How far a search is.
#[derive(Clone, Copy, PartialEq, Eq, Structural, Debug)]
pub enum SearchStep {
    /// Reads the tail link of the newest waiter.
    HeadTail,
    /// Reads the next link of `current`.
    Next { current: usize },
    /// Lets the prev link of `next` lead back to `current`.
    Prev { current: usize, next: usize },
    /// Reads the tail link of `current`.
    Tail { current: usize },
    /// Keeps what was found in the tail link of the newest waiter.
    Keep { tail: usize },
    Found { tail: usize },
}

/// A search for the oldest waiter, from the newest one.
#[derive(Clone, Copy, PartialEq, Eq, Structural, Debug)]
pub struct Search {
    pub head: usize,
    /// Whether a tail link found on the newest waiter itself is written back.
    pub write_back: bool,
    pub step: SearchStep,
}

impl Search {
    pub open spec fn spec_start(head: usize, write_back: bool) -> Self {
        Search { head, write_back, step: SearchStep::HeadTail }
    }

    /// Begins a search at the newest waiter.
    #[verifier::when_used_as_spec(spec_start)]
    pub fn start(head: usize, write_back: bool) -> (search: Self)
        requires
            head != 0,
        ensures
            search == Self::spec_start(head, write_back),
            search.wf(),
    {
        Search { head, write_back, step: SearchStep::HeadTail }
    }

    /// The search after its access was answered.
    pub fn resumed(self, reply: Reply) -> (next: Self)
        requires
            self.wf(),
            self.expects(reply),
        ensures
            next == self.after(reply),
            next.wf(),
    {
        let mut next = self;
        next.resume(reply, &mut Hints::new());
        next
    }

    pub open spec fn spec_found(self) -> Option<usize> {
        match self.step {
            SearchStep::Found { tail } => Some(tail),
            _ => None,
        }
    }

    /// The oldest waiter, once it is found.
    #[verifier::when_used_as_spec(spec_found)]
    pub fn found(self) -> (tail: Option<usize>)
        ensures
            tail == self.spec_found(),
    {
        match self.step {
            SearchStep::Found { tail } => Some(tail),
            _ => None,
        }
    }
}

impl Operation for Search {
    open spec fn wf(&self) -> bool {
        &&& self.head != 0
        &&& match self.step {
            SearchStep::HeadTail => true,
            SearchStep::Next { current } => current != 0,
            SearchStep::Prev { current, next } => current != 0 && next != 0,
            SearchStep::Tail { current } => current != 0,
            SearchStep::Keep { tail } => tail != 0,
            SearchStep::Found { tail } => tail != 0,
        }
    }

    open spec fn wants(&self) -> Access {
        match self.step {
            SearchStep::HeadTail => Access::Load(
                Place::Link(self.head, Link::Tail),
                Order::Relaxed,
            ),
            SearchStep::Next { current } => Access::Load(
                Place::Link(current, Link::Next),
                Order::Relaxed,
            ),
            SearchStep::Prev { current, next } => Access::Store(
                Place::Link(next, Link::Prev),
                current,
                Order::Relaxed,
            ),
            SearchStep::Tail { current } => Access::Load(
                Place::Link(current, Link::Tail),
                Order::Relaxed,
            ),
            SearchStep::Keep { tail } => Access::Store(
                Place::Link(self.head, Link::Tail),
                tail,
                Order::Relaxed,
            ),
            SearchStep::Found { .. } => Access::Done,
        }
    }

    /// A waiter without a tail link has a next link.
    open spec fn expects(&self, reply: Reply) -> bool {
        match self.step {
            SearchStep::Next { .. } => reply.value != 0,
            SearchStep::Found { .. } => false,
            _ => true,
        }
    }

    open spec fn after(&self, reply: Reply) -> Self {
        let step = match self.step {
            SearchStep::HeadTail => if reply.value == 0 {
                SearchStep::Next { current: self.head }
            } else if self.write_back {
                SearchStep::Keep { tail: reply.value }
            } else {
                SearchStep::Found { tail: reply.value }
            },
            SearchStep::Next { current } => SearchStep::Prev { current, next: reply.value },
            SearchStep::Prev { next, .. } => SearchStep::Tail { current: next },
            SearchStep::Tail { current } => if reply.value == 0 {
                SearchStep::Next { current }
            } else {
                SearchStep::Keep { tail: reply.value }
            },
            SearchStep::Keep { tail } => SearchStep::Found { tail },
            SearchStep::Found { tail } => SearchStep::Found { tail },
        };
        Search { step, ..*self }
    }

    open spec fn hints(&self, reply: Reply) -> nat {
        0
    }

    fn accepts(&self, reply: Reply) -> (accepted: bool) {
        match self.step {
            SearchStep::Next { .. } => reply.value != 0,
            SearchStep::Found { .. } => false,
            _ => true,
        }
    }

    fn access(&self) -> (access: Access) {
        match self.step {
            SearchStep::HeadTail => Access::Load(
                Place::Link(self.head, Link::Tail),
                Order::Relaxed,
            ),
            SearchStep::Next { current } => Access::Load(
                Place::Link(current, Link::Next),
                Order::Relaxed,
            ),
            SearchStep::Prev { current, next } => Access::Store(
                Place::Link(next, Link::Prev),
                current,
                Order::Relaxed,
            ),
            SearchStep::Tail { current } => Access::Load(
                Place::Link(current, Link::Tail),
                Order::Relaxed,
            ),
            SearchStep::Keep { tail } => Access::Store(
                Place::Link(self.head, Link::Tail),
                tail,
                Order::Relaxed,
            ),
            SearchStep::Found { .. } => Access::Done,
        }
    }

    fn resume(&mut self, reply: Reply, _hints: &mut Hints) {
        self.step =
        match self.step {
            SearchStep::HeadTail => if reply.value == 0 {
                SearchStep::Next { current: self.head }
            } else if self.write_back {
                SearchStep::Keep { tail: reply.value }
            } else {
                SearchStep::Found { tail: reply.value }
            },
            SearchStep::Next { current } => SearchStep::Prev { current, next: reply.value },
            SearchStep::Prev { next, .. } => SearchStep::Tail { current: next },
            SearchStep::Tail { current } => if reply.value == 0 {
                SearchStep::Next { current }
            } else {
                SearchStep::Keep { tail: reply.value }
            },
            SearchStep::Keep { tail } => SearchStep::Found { tail },
            SearchStep::Found { tail } => SearchStep::Found { tail },
        };
    }
}

/// The given link of a waiter.
pub open spec fn link(memory: Shared, node: usize, which: Link) -> usize {
    at(memory, Place::Link(node, which))
}

/// Whether the waiters of `queue`, the newest first, are linked in that order,
/// and a search from the newest one walks past `resolved` of them.
pub open spec fn is_queue(memory: Shared, queue: Seq<usize>, resolved: int) -> bool {
    &&& queue.no_duplicates()
    &&& 0 <= resolved < queue.len()
    &&& forall|i: int| 0 <= i < queue.len() ==> #[trigger] queue[i] != 0
    &&& forall|i: int|
        0 <= i < queue.len() - 1 ==> link(memory, #[trigger] queue[i], Link::Next) == queue[i + 1]
    &&& forall|i: int| 0 <= i < resolved ==> link(memory, #[trigger] queue[i], Link::Tail) == 0
    &&& link(memory, queue[resolved], Link::Tail) == queue.last()
    &&& forall|i: int|
        resolved < i < queue.len() ==> link(memory, #[trigger] queue[i], Link::Prev) == queue[i
            - 1]
}

/// Whether two memories differ in nothing but the prev links of the waiters of
/// a queue and the tail link of the newest one.
pub open spec fn same_but_links(memory: Shared, next: Shared, queue: Seq<usize>) -> bool {
    &&& next.word == memory.word
    &&& next.wakers == memory.wakers
    &&& next.deadlines == memory.deadlines
    &&& next.queue == memory.queue
    &&& next.guarded == memory.guarded
    &&& forall|place: Place|
        #![trigger (next.cells)(place)]
        (next.cells)(place) != (memory.cells)(place) ==> {
            ||| place == Place::Link(queue[0], Link::Tail)
            ||| exists|i: int| 0 < i < queue.len() && place == Place::Link(queue[i], Link::Prev)
        }
}

/// How many accesses a search makes.
pub open spec fn search_length(resolved: int, write_back: bool) -> nat {
    if resolved == 0 {
        if write_back {
            2
        } else {
            1
        }
    } else {
        (3 * resolved + 2) as nat
    }
}

/// The walk from place `i` of a queue to the first waiter with a tail link.
proof fn walk(search: Search, memory: Shared, queue: Seq<usize>, resolved: int, i: int)
    requires
        is_queue(memory, queue, resolved),
        0 <= i < resolved,
        search.head == queue[0],
        search.step == (SearchStep::Next { current: queue[i] }),
        forall|j: int|
            0 < j <= i ==> link(memory, #[trigger] queue[j], Link::Prev) == queue[j - 1],
    ensures
        ({
            let count = (3 * (resolved - i) + 1) as nat;
            let (after, next) = alone(search, memory, count);
            &&& runs(search, memory, count)
            &&& after == (Search { step: SearchStep::Found { tail: queue.last() }, ..search })
            &&& is_queue(next, queue, 0)
            &&& same_but_links(memory, next, queue)
        }),
    decreases resolved - i,
{
    reveal_with_fuel(alone, 5);
    reveal_with_fuel(runs, 5);
    let current = queue[i];
    let following = queue[i + 1];
    assert(link(memory, queue[i], Link::Next) == following);
    let middle = effect(memory, Access::Store(Place::Link(following, Link::Prev), current, Order::Relaxed));
    let (after, next) = alone(search, memory, 3);
    assert(next == middle);
    assert(is_queue(middle, queue, resolved)) by {
        assert forall|j: int| 0 <= j < queue.len() - 1 implies link(
            middle,
            #[trigger] queue[j],
            Link::Next,
        ) == queue[j + 1] by {
            assert(link(memory, queue[j], Link::Next) == queue[j + 1]);
        }
        assert forall|j: int| 0 <= j < resolved implies link(
            middle,
            #[trigger] queue[j],
            Link::Tail,
        ) == 0 by {
            assert(link(memory, queue[j], Link::Tail) == 0);
        }
        assert forall|j: int| resolved < j < queue.len() implies link(
            middle,
            #[trigger] queue[j],
            Link::Prev,
        ) == queue[j - 1] by {
            assert(link(memory, queue[j], Link::Prev) == queue[j - 1]);
        }
    }
    assert forall|j: int| 0 < j <= i + 1 implies link(middle, #[trigger] queue[j], Link::Prev)
        == queue[j - 1] by {
        if j <= i {
            assert(link(memory, queue[j], Link::Prev) == queue[j - 1]);
        }
    }
    assert(same_but_links(memory, middle, queue));
    let rest = (3 * (resolved - i) - 2) as nat;
    run_in_two(search, memory, 3, rest);
    if i + 1 < resolved {
        assert(link(memory, queue[i + 1], Link::Tail) == 0);
        walk(after, middle, queue, resolved, i + 1);
    } else {
        assert(link(memory, queue[resolved], Link::Tail) == queue.last());
        assert(rest == 1);
        let last = effect(
            middle,
            Access::Store(Place::Link(queue[0], Link::Tail), queue.last(), Order::Relaxed),
        );
        assert(alone(after, middle, 1).1 == last);
        assert(is_queue(last, queue, 0)) by {
            assert forall|j: int| 0 <= j < queue.len() - 1 implies link(
                last,
                #[trigger] queue[j],
                Link::Next,
            ) == queue[j + 1] by {
                assert(link(middle, queue[j], Link::Next) == queue[j + 1]);
            }
            assert forall|j: int| 0 < j < queue.len() implies link(
                last,
                #[trigger] queue[j],
                Link::Prev,
            ) == queue[j - 1] by {
                assert(link(middle, queue[j], Link::Prev) == queue[j - 1]);
            }
        }
    }
}

/// A search finds the oldest waiter of a queue, however far the links beside the
/// next links were brought up to date, and leaves them up to date: the next
/// search is over at once.
pub proof fn search_finds_the_oldest(
    head: usize,
    write_back: bool,
    memory: Shared,
    queue: Seq<usize>,
    resolved: int,
)
    requires
        is_queue(memory, queue, resolved),
        head == queue[0],
    ensures
        ({
            let count = search_length(resolved, write_back);
            let (after, next) = alone(Search::start(head, write_back), memory, count);
            &&& runs(Search::start(head, write_back), memory, count)
            &&& after.found() == Some(queue.last())
            &&& is_queue(next, queue, 0)
            &&& same_but_links(memory, next, queue)
        }),
{
    reveal_with_fuel(alone, 3);
    reveal_with_fuel(runs, 3);
    let search = Search::start(head, write_back);
    if resolved == 0 {
        let next = effect(
            memory,
            Access::Store(Place::Link(queue[0], Link::Tail), queue.last(), Order::Relaxed),
        );
        assert(is_queue(next, queue, 0)) by {
            assert forall|j: int| 0 <= j < queue.len() - 1 implies link(
                next,
                #[trigger] queue[j],
                Link::Next,
            ) == queue[j + 1] by {
                assert(link(memory, queue[j], Link::Next) == queue[j + 1]);
            }
            assert forall|j: int| 0 < j < queue.len() implies link(
                next,
                #[trigger] queue[j],
                Link::Prev,
            ) == queue[j - 1] by {
                assert(link(memory, queue[j], Link::Prev) == queue[j - 1]);
            }
        }
    } else {
        assert(link(memory, queue[0], Link::Tail) == 0);
        let (after, next) = alone(search, memory, 1);
        run_in_two(search, memory, 1, (3 * resolved + 1) as nat);
        walk(after, next, queue, resolved, 0);
    }
}

} // verus!
