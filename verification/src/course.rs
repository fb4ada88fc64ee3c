//! What an operation does from its beginning on, whatever it is answered.
//!
//! A course is a run of an operation that other threads may cut into at any
//! place: the replies are free, but for those that the operation cannot
//! expect. A ledger is kept of the accesses that the operation made and of the
//! replies that it got, and of nothing else. It says which accesses the
//! operation may want next. So a rule on ledgers says what an operation does in
//! terms of what it was told, and not of the steps that it is made of.
use vstd::prelude::*;

use crate::access::{Access, Operation, Reply};

verus! {

/// An operation that began as `first` after it got `i` of the replies.
pub open spec fn point<P: Operation>(first: P, replies: Seq<Reply>, i: int) -> P
    decreases i,
{
    if i <= 0 {
        first
    } else {
        point(first, replies, i - 1).after(replies[i - 1])
    }
}

/// Whether an operation that began as `first` can get these replies, one after
/// the other.
pub open spec fn is_course<P: Operation>(first: P, replies: Seq<Reply>) -> bool {
    forall|i: int|
        0 <= i < replies.len() ==> {
            &&& !(point(first, replies, i).wants() is Done)
            &&& point(first, replies, i).expects(#[trigger] replies[i])
        }
}

/// What is noted of the accesses of an operation.
pub trait Ledger: Sized {
    /// The ledger after one more access and its reply.
    spec fn entry(self, access: Access, reply: Reply) -> Self;

    /// Whether the operation may want the access now.
    spec fn allows(self, access: Access) -> bool;
}

/// The ledger of an operation that began as `first`, after it got `i` of the
/// replies.
pub open spec fn ledger<P: Operation, L: Ledger>(
    first: P,
    replies: Seq<Reply>,
    start: L,
    i: int,
) -> L
    decreases i,
{
    if i <= 0 {
        start
    } else {
        ledger(first, replies, start, i - 1).entry(
            point(first, replies, i - 1).wants(),
            replies[i - 1],
        )
    }
}

/// An operation that keeps to the rule of a ledger.
pub trait Keeps<L: Ledger>: Operation {
    /// What the ledger says of an operation that is where this one is.
    spec fn fits(&self, ledger: L) -> bool;

    proof fn goes_on(operation: Self, ledger: L, reply: Reply)
        requires
            operation.wf(),
            operation.fits(ledger),
            operation.expects(reply),
            !(operation.wants() is Done),
        ensures
            operation.after(reply).wf(),
            operation.after(reply).fits(ledger.entry(operation.wants(), reply)),
    ;

    proof fn obeys(operation: Self, ledger: L)
        requires
            operation.wf(),
            operation.fits(ledger),
        ensures
            ledger.allows(operation.wants()),
    ;
}

/// An operation that keeps to the rule of a ledger never wants an access that
/// the ledger does not allow.
pub proof fn always_allowed<L: Ledger, P: Keeps<L>>(
    first: P,
    replies: Seq<Reply>,
    start: L,
    i: int,
)
    requires
        first.wf(),
        first.fits(start),
        is_course(first, replies),
        0 <= i <= replies.len(),
    ensures
        point(first, replies, i).wf(),
        point(first, replies, i).fits(ledger(first, replies, start, i)),
        ledger(first, replies, start, i).allows(point(first, replies, i).wants()),
    decreases i,
{
    if i > 0 {
        always_allowed(first, replies, start, i - 1);
        assert(point(first, replies, i - 1).expects(replies[i - 1]));
        P::goes_on(
            point(first, replies, i - 1),
            ledger(first, replies, start, i - 1),
            replies[i - 1],
        );
    }
    P::obeys(point(first, replies, i), ledger(first, replies, start, i));
}

} // verus!
