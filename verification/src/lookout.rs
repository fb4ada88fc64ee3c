//! How a thread waits by a parker.
//!
//! It looks at the state of the parker before it blocks and each time that it
//! was unblocked, and is over as soon as it sees that it was notified, or that
//! its deadline has come.
use vstd::prelude::*;

use crate::access::{Access, Operation, Place, Reply};
use crate::course::{Ledger, ledger};

verus! {

/// What a park was told since it blocked last.
pub struct Lookout {
    /// The parker that it waits by.
    pub node: usize,
    /// The state of a parker that was not notified.
    pub waiting: usize,
    /// Whether it has a deadline.
    pub timed: bool,
    /// Whether it counts the time from when it began, and not until the deadline.
    pub since: bool,
    /// Whether it looks again and again and never blocks.
    pub spins: bool,
    /// The state that it saw.
    pub seen: Option<usize>,
    /// What it was told of the deadline.
    pub past: Option<bool>,
}

impl Ledger for Lookout {
    open spec fn entry(self, access: Access, reply: Reply) -> Lookout {
        match access {
            Access::Load(Place::Wake(_), _) => Lookout {
                seen: Some(reply.value),
                past: None,
                ..self
            },
            Access::PastDeadline => Lookout { past: Some(reply.ok), ..self },
            Access::Park | Access::ParkUntil | Access::ParkSince => Lookout {
                seen: None,
                past: None,
                ..self
            },
            _ => self,
        }
    }

    /// A park looks first. It is over at once if it was notified. Otherwise it
    /// asks about its deadline, if it has one, and is over if that has come. It
    /// blocks only if neither holds.
    open spec fn allows(self, access: Access) -> bool {
        match access {
            Access::Load(place, _) => {
                &&& place == Place::Wake(self.node)
                &&& self.seen is None || self.spins && self.seen == Some(self.waiting)
            },
            Access::PastDeadline => {
                &&& self.timed
                &&& self.seen == Some(self.waiting)
                &&& self.past is None
            },
            Access::Park => {
                &&& !self.timed
                &&& !self.spins
                &&& self.seen == Some(self.waiting)
            },
            Access::ParkUntil | Access::ParkSince => {
                &&& self.timed
                &&& self.since == (access is ParkSince)
                &&& !self.spins
                &&& self.seen == Some(self.waiting)
                &&& self.past == Some(false)
            },
            Access::Done => {
                &&& self.seen is Some
                &&& self.seen == Some(self.waiting) ==> self.timed && self.past == Some(true)
            },
            _ => false,
        }
    }
}

/// What is said at the beginning of the park stays so.
pub proof fn terms_stay<P: Operation>(first: P, replies: Seq<Reply>, start: Lookout, i: int)
    ensures
        ledger(first, replies, start, i).node == start.node,
        ledger(first, replies, start, i).waiting == start.waiting,
        ledger(first, replies, start, i).timed == start.timed,
    decreases i,
{
    if i > 0 {
        terms_stay(first, replies, start, i - 1);
    }
}

/// What a thread has done to make a parker ready.
pub struct Readiness {
    /// The parker that it makes ready.
    pub node: usize,
    /// Whether somebody can be woken by the parker.
    pub kept: bool,
    /// Whether it found that the parker is ready already.
    pub ready: bool,
    /// The state that it stored last.
    pub state: Option<usize>,
    /// Whether it needs a waker.
    pub keeps: bool,
    /// Whether it needs a state.
    pub tells: bool,
    /// The state of a parker that was not notified, and how many states there are.
    pub waiting: usize,
    pub states: usize,
}

impl Readiness {
    /// A parker that nothing has been done to yet.
    pub open spec fn begin(node: usize, keeps: bool, tells: bool, waiting: usize) -> Readiness {
        Readiness {
            node,
            kept: false,
            ready: false,
            state: None,
            keeps,
            tells,
            waiting,
            states: usize::MAX,
        }
    }

    /// Whether the thread can be woken by the parker, which says that it waits.
    pub open spec fn is_complete(self) -> bool {
        &&& self.keeps ==> self.kept
        &&& self.tells ==> self.state == Some(self.waiting)
    }
}

impl Ledger for Readiness {
    open spec fn entry(self, access: Access, reply: Reply) -> Readiness {
        match access {
            Access::HasWaker(_) => Readiness { ready: reply.ok, ..self },
            Access::Load(Place::Wake(_), _) => Readiness {
                ready: reply.value % self.states == self.waiting,
                ..self
            },
            Access::StoreWaker(_) => Readiness { kept: true, ..self },
            Access::Store(Place::Wake(_), state, _) => Readiness { state: Some(state), ..self },
            _ => self,
        }
    }

    /// A parker that is ready already is left alone. Another one gets the waker
    /// first, and is told then. Nobody is over before that.
    open spec fn allows(self, access: Access) -> bool {
        match access {
            Access::HasWaker(node) => node == self.node && self.keeps,
            Access::Load(place, _) => place == Place::Wake(self.node) && self.keeps,
            Access::StoreWaker(node) => node == self.node && self.keeps && !self.ready,
            Access::Store(place, state, _) => {
                &&& place == Place::Wake(self.node)
                &&& self.tells
                &&& state == self.waiting
                &&& self.keeps ==> self.kept
                &&& !self.ready
            },
            Access::Done => self.ready || self.is_complete(),
            _ => false,
        }
    }
}

} // verus!
