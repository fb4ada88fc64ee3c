//! Parkers, and those among them that can wait until a deadline.
use vstd::prelude::*;
use crate::access::Operation;
use crate::thread_parker::std_parker::{Park, Parker, Prepare, Unpark};

verus! {

/// A way for a thread to wait until another one wakes it.
///
/// A parker is named by an address. Its operations are run by the runtime, like
/// those of the locks.
pub trait ThreadParker: Sized {
    type Prepare: Operation;

    type Park: Operation;

    type Unpark: Operation;

    spec fn preparation(node: usize) -> Self::Prepare;

    spec fn parking(node: usize) -> Self::Park;

    spec fn waking(node: usize) -> Self::Unpark;

    fn new() -> Self;

    /// Begins to make the parker ready for the current thread.
    fn prepare_park(&self, node: usize) -> (prepare: Self::Prepare)
        ensures
            prepare == Self::preparation(node),
            prepare.wf(),
    ;

    /// Begins to wait until the parker is woken.
    fn park(&self, node: usize) -> (park: Self::Park)
        ensures
            park == Self::parking(node),
            park.wf(),
    ;

    /// Begins to wake the parked thread.
    fn unpark(&self, node: usize) -> (unpark: Self::Unpark)
        ensures
            unpark == Self::waking(node),
            unpark.wf(),
    ;
}

/// A parker that can also wait until a deadline that the runtime keeps.
pub trait ThreadParkerTimed: ThreadParker {
    spec fn timed_parking(node: usize) -> Self::Park;

    /// Begins to wait until the parker is woken or a deadline has come.
    fn park_until(&self, node: usize) -> (park: Self::Park)
        ensures
            park == Self::timed_parking(node),
            park.wf(),
    ;
}

impl ThreadParker for Parker {
    type Prepare = Prepare;

    type Park = Park;

    type Unpark = Unpark;

    open spec fn preparation(node: usize) -> Prepare {
        Prepare::SetWaiting { node }
    }

    open spec fn parking(node: usize) -> Park {
        Park::Load { node, timed: false }
    }

    open spec fn waking(node: usize) -> Unpark {
        Unpark::SetNotified { node }
    }

    fn new() -> (parker: Self)
        ensures
            parker == (Parker { notified: 0 }),
    {
        Parker { notified: 0 }
    }

    fn prepare_park(&self, node: usize) -> (prepare: Prepare) {
        Prepare::SetWaiting { node }
    }

    fn park(&self, node: usize) -> (park: Park) {
        Park::Load { node, timed: false }
    }

    fn unpark(&self, node: usize) -> (unpark: Unpark) {
        Unpark::SetNotified { node }
    }
}

impl ThreadParkerTimed for Parker {
    open spec fn timed_parking(node: usize) -> Park {
        Park::Load { node, timed: true }
    }

    fn park_until(&self, node: usize) -> (park: Park) {
        Park::Load { node, timed: true }
    }
}

} // verus!
