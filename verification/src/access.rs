//! The accesses an operation makes, and the replies it gets.
//!
//! A lock is shared by threads that run at the same time, so an operation on
//! it never sees the shared memory at rest: between two of its accesses any
//! other thread may have made any number of its own. Every operation of this
//! crate is therefore a value that names the one access it wants next
//! ([`Operation::access`]) and goes on once it is told what that access gave
//! back ([`Operation::resume`]). A runtime performs the accesses on real
//! memory; a schedule, on a [`crate::memory::Memory`].
use vstd::prelude::*;
use crate::kernel::cpu::Hints;

verus! {

/// The memory order that an access asks for.
#[derive(Clone, Copy, PartialEq, Eq, Structural, Debug)]
pub enum Order {
    Relaxed,
    Acquire,
    Release,
    AcqRel,
}

/// The three links of a waiter. A link holds the address of a waiter, or 0.
#[derive(Clone, Copy, PartialEq, Eq, Structural, Debug)]
pub enum Link {
    Prev,
    Next,
    Tail,
}

/// A word of shared memory. Waiters are named by their address.
#[derive(Clone, Copy, PartialEq, Eq, Structural, Debug)]
pub enum Place {
    /// The state word of the lock itself.
    Word,
    /// The given link of the given waiter.
    Link(usize, Link),
    /// The wake state of the given waiter.
    Wake(usize),
    /// The seed that the given waiter carries.
    Seed(usize),
    /// The seed that the lock itself carries.
    Prng,
}

/// What an operation asks of the runtime.
#[derive(Clone, Copy, PartialEq, Eq, Structural, Debug)]
pub enum Access {
    /// Replies with the value at the place.
    Load(Place, Order),
    Store(Place, usize, Order),
    /// Place, expected value, new value, order on success, order on failure.
    /// Replies with whether the exchange took place, and the value found.
    CompareExchange(Place, usize, usize, Order, Order),
    /// Like `CompareExchange`, but may fail though the value was the expected
    /// one.
    CompareExchangeWeak(Place, usize, usize, Order, Order),
    /// Replies with the value found.
    FetchAnd(Place, usize, Order),
    /// Replies with the value found; the subtraction wraps.
    FetchSub(Place, usize, Order),
    /// Swaps the lowest byte of the state word; replies with the byte found.
    SwapByte(usize, Order),
    /// Stores the lowest byte of the state word.
    StoreByte(usize, Order),
    /// `CompareExchange` on the lowest byte of the state word.
    CompareExchangeByte(usize, usize, Order, Order),
    Fence(Order),
    /// Replies with whether the waiter has a waker.
    HasWaker(usize),
    /// Gives the waiter a waker for the current thread or task.
    StoreWaker(usize),
    /// Drops the waker of the waiter.
    DropWaker(usize),
    /// Replies with whether the waker of the waiter wakes the current task.
    WillWake(usize),
    /// Takes the waker out of the waiter; replies with whether there was one.
    TakeWaker(usize),
    /// Wakes the waker that was taken last.
    Wake,
    /// Wakes the thread that a parker belongs to.
    WakeThread(usize),
    /// Replies with whether the waiter has a deadline.
    HasDeadline(usize),
    /// Gives the waiter a deadline this many nanoseconds from now.
    SetDeadline(usize, u32),
    /// Replies with whether the deadline of the waiter has come.
    Expired(usize),
    /// Replies with the nanoseconds since the operation first asked this.
    Elapsed,
    /// Offers the processor to another thread for the given iteration of a
    /// wait; replies with whether another iteration is worth while.
    Yield(usize),
    /// Gives up the rest of the time slice.
    Pause,
    /// Waits until woken: blocks the thread, or reports the task as pending.
    Park,
    /// Waits until woken or until the deadline of the caller.
    ParkUntil,
    /// Waits until woken, or for the time that has passed since the deadline of
    /// the caller: for none while the deadline is ahead.
    ParkSince,
    /// Replies with whether the deadline of the caller has come.
    PastDeadline,
    /// Waits for the lock that guards the queue of waiters.
    LockQueue,
    /// Releases the lock that guards the queue of waiters.
    UnlockQueue,
    /// Puts the waiter at the end of the queue.
    PushBack(usize),
    /// Takes the first waiter off the queue. Replies with whether there was
    /// one, and which.
    PopFront,
    /// Takes the waiter off the queue wherever it stands. Replies with whether
    /// it was taken off; of a waiter that does not stand in the queue, the
    /// reply may be either, but is no if the queue is empty.
    Remove(usize),
    /// Replies with whether the queue is empty.
    IsQueueEmpty,
    /// Replies with whether the queue has a last waiter, and which it is.
    LastWaiter,
    /// Nothing: the operation is over.
    Done,
}

/// What came back from an access. `ok` answers the accesses that succeed or
/// fail, `value` those that read a word.
#[derive(Clone, Copy, PartialEq, Eq, Structural, Debug)]
pub struct Reply {
    pub ok: bool,
    pub value: usize,
}

/// An operation in progress.
pub trait Operation: Sized {
    /// What holds of the operation at every point.
    spec fn wf(&self) -> bool;

    /// The access the operation wants next.
    spec fn wants(&self) -> Access;

    /// The replies the operation can go on from. The others cannot come as
    /// long as every party keeps to its protocol.
    spec fn expects(&self, reply: Reply) -> bool;

    /// The operation after its access was answered.
    spec fn after(&self, reply: Reply) -> Self;

    fn access(&self) -> (access: Access)
        requires
            self.wf(),
        ensures
            access == self.wants(),
    ;

    /// Whether the operation can go on from a reply.
    fn accepts(&self, reply: Reply) -> (accepted: bool)
        requires
            self.wf(),
        ensures
            accepted == self.expects(reply),
    ;

    /// How many hints the operation makes to the processor before it wants its
    /// next access.
    open spec fn hints(&self, reply: Reply) -> nat {
        0
    }

    fn resume(&mut self, reply: Reply, hints: &mut Hints)
        requires
            old(self).wf(),
            old(self).expects(reply),
        ensures
            *final(self) == old(self).after(reply),
            final(self).wf(),
            final(hints).made() == old(hints).made() + old(self).hints(reply),
    ;
}

} // verus!
