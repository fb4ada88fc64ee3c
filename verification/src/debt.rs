//! A waker that is taken is woken.
//!
//! Who takes the waker of a waiter is the only one who can wake it. The waiter
//! looks at its wake state when it is woken, so it has to be told before.
use vstd::prelude::*;

use crate::access::{Access, Operation, Place, Reply};
use crate::course::{Keeps, Ledger, always_allowed, is_course, ledger, point};

verus! {

/// What an operation owes to the waiters that it deals with.
pub struct Debt {
    /// The waiter whose waker it took and did not wake yet.
    pub taken: Option<usize>,
    /// The waiter whose wake state it stored last.
    pub told: Option<usize>,
    /// The waiter that it woke last.
    pub woken: Option<usize>,
    /// Whether it looked for a waker where there was none.
    pub missed: bool,
    /// The waiter that it was begun for, if it was begun for one.
    pub subject: usize,
    /// Whether it leaves the waker that it took to whoever it works for.
    pub lends: bool,
}

impl Debt {
    /// The debt of an operation that begins.
    pub open spec fn none() -> Debt {
        Debt { taken: None, told: None, woken: None, missed: false, subject: 0, lends: false }
    }

    /// That of one that is begun for the given waiter.
    pub open spec fn of(node: usize) -> Debt {
        Debt { subject: node, ..Debt::none() }
    }

    /// That of one that leaves the waker that it takes to somebody else.
    pub open spec fn lent() -> Debt {
        Debt { lends: true, ..Debt::none() }
    }
}

impl Ledger for Debt {
    open spec fn entry(self, access: Access, reply: Reply) -> Debt {
        match access {
            Access::TakeWaker(node) => if reply.ok {
                Debt { taken: Some(node), ..self }
            } else {
                Debt { missed: true, ..self }
            },
            Access::Store(Place::Wake(node), _, _) => Debt { told: Some(node), ..self },
            Access::Wake => Debt { taken: None, woken: self.taken, ..self },
            Access::WakeThread(node) => Debt { woken: Some(node), ..self },
            _ => self,
        }
    }

    /// No operation is over, or takes another waker, while it holds one. It
    /// wakes a waker that it holds, and no other, and only after it stored the
    /// wake state of that waiter. The same goes for leaving it to somebody else.
    open spec fn allows(self, access: Access) -> bool {
        match access {
            Access::TakeWaker(_) => self.taken is None,
            Access::Wake => self.taken is Some && self.told == self.taken,
            Access::WakeThread(node) => self.told == Some(node),
            Access::Done => self.taken is None || self.lends && self.told == self.taken,
            _ => true,
        }
    }
}

/// What is said at the beginning of whom an operation works for stays so.
pub proof fn terms_stay<P: Operation>(first: P, replies: Seq<Reply>, start: Debt, i: int)
    ensures
        ledger(first, replies, start, i).lends == start.lends,
        ledger(first, replies, start, i).subject == start.subject,
    decreases i,
{
    if i > 0 {
        terms_stay(first, replies, start, i - 1);
    }
}

/// As long as a waker that was taken at place `i` is not woken, the ledger says
/// so.
proof fn debt_lasts<P: Keeps<Debt>>(first: P, replies: Seq<Reply>, start: Debt, i: int, j: int)
    requires
        first.wf(),
        first.fits(start),
        is_course(first, replies),
        0 <= i < j <= replies.len(),
        point(first, replies, i).wants() is TakeWaker,
        replies[i].ok,
        forall|k: int| i < k < j ==> !(#[trigger] point(first, replies, k).wants() is Wake),
    ensures
        ledger(first, replies, start, j).taken is Some,
    decreases j,
{
    if j > i + 1 {
        debt_lasts(first, replies, start, i, j - 1);
        always_allowed(first, replies, start, j - 1);
        assert(!(point(first, replies, j - 1).wants() is Wake));
    }
}

/// An operation that took a waker wakes it before it is over.
pub proof fn taken_waker_is_woken<P: Keeps<Debt>>(
    first: P,
    replies: Seq<Reply>,
    start: Debt,
    i: int,
    j: int,
)
    requires
        first.wf(),
        first.fits(start),
        !start.lends,
        is_course(first, replies),
        0 <= i < j <= replies.len(),
        point(first, replies, i).wants() is TakeWaker,
        replies[i].ok,
        point(first, replies, j).wants() is Done,
    ensures
        exists|k: int| i < k < j && #[trigger] point(first, replies, k).wants() is Wake,
{
    if forall|k: int| i < k < j ==> !(#[trigger] point(first, replies, k).wants() is Wake) {
        debt_lasts(first, replies, start, i, j);
        terms_stay(first, replies, start, j);
        always_allowed(first, replies, start, j);
    }
}

} // verus!
