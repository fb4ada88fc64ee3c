//! Parkers that wait without saying why they were woken.
use vstd::prelude::*;
use crate::access::Operation;
use crate::kernel::cpu::Hints;
use crate::parker::Rest;

pub mod spin_parker;
pub mod std_parker;

verus! {

/// A way for a thread to wait until another one wakes it.
///
/// A parker is named by an address. Its operations are run by the runtime, like
/// those of the locks.
pub trait ThreadParker: Sized {
    type Prepare: Operation;

    type Park: Operation;

    type Unpark: Operation;

    spec fn preparation(node: usize) -> Self::Prepare;

    spec fn parking(node: usize, timed: bool) -> Self::Park;

    spec fn waking(node: usize) -> Self::Unpark;

    /// What a wait may do in its given iteration.
    spec fn rest(iteration: usize) -> Rest;

    /// How many hints a wait makes to the processor in its given iteration.
    spec fn rest_hints(iteration: usize) -> nat;

    fn new() -> Self;

    /// Begins to make the parker ready for the current thread.
    fn prepare_park(&self, node: usize) -> (prepare: Self::Prepare)
        ensures
            prepare == Self::preparation(node),
            prepare.wf(),
    ;

    /// Begins to wait until the parker is woken.
    fn park(&self, node: usize) -> (park: Self::Park)
        ensures
            park == Self::parking(node, false),
            park.wf(),
    ;

    /// Begins to wait until the parker is woken or a deadline has come.
    fn park_until(&self, node: usize) -> (park: Self::Park)
        ensures
            park == Self::parking(node, true),
            park.wf(),
    ;

    /// Begins to wake the parked thread.
    fn unpark(&self, node: usize) -> (unpark: Self::Unpark)
        ensures
            unpark == Self::waking(node),
            unpark.wf(),
    ;

    /// Spins as long as the given iteration of a wait is worth.
    fn yield_now(iteration: usize, made: &mut Hints) -> (rest: Rest)
        ensures
            rest == Self::rest(iteration),
            final(made).made() == old(made).made() + Self::rest_hints(iteration),
    ;
}

} // verus!
