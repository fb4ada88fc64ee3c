//! What has to be seen by whom.
//!
//! Whoever takes a lock has to see what was done under it, so the lock is
//! taken by an access that acquires and given up by one that releases. The
//! same holds of the queue, of the waker of a waiter, and of a parker.
use vstd::prelude::*;

use crate::access::{Access, Order, Place};
use crate::words::is_locked;

verus! {

/// Whether what was done before a releasing access is seen after the access.
pub open spec fn acquires(order: Order) -> bool {
    order is Acquire || order is AcqRel
}

/// Whether what was done before the access is seen after an acquiring one.
pub open spec fn releases(order: Order) -> bool {
    order is Release || order is AcqRel
}

/// Whether the access acquires if it takes the lock, and releases if it gives
/// the lock up.
pub open spec fn keeps_the_lock_visible(access: Access) -> bool {
    match access {
        Access::CompareExchange(Place::Word, current, new, order, _)
        | Access::CompareExchangeWeak(Place::Word, current, new, order, _) => {
            &&& !is_locked(current) && is_locked(new) ==> acquires(order)
            &&& is_locked(current) && !is_locked(new) ==> releases(order)
        },
        Access::CompareExchangeByte(_, new, order, _) | Access::SwapByte(new, order) => is_locked(
            new,
        ) ==> acquires(order),
        Access::StoreByte(new, order) => !is_locked(new) ==> releases(order),
        Access::FetchSub(Place::Word, _, order) => releases(order),
        Access::FetchAnd(Place::Word, mask, order) => !is_locked(mask) ==> releases(order),
        Access::Store(Place::Word, new, order) => !is_locked(new) ==> releases(order),
        _ => true,
    }
}

/// Whether the access releases if it puts a waiter into a queue that is kept in
/// the state word.
pub open spec fn keeps_the_queue_visible(access: Access) -> bool {
    match access {
        Access::CompareExchangeWeak(Place::Word, current, _, order, _) => is_locked(current)
            ==> releases(order),
        _ => true,
    }
}

/// Whether the access acquires if it claims a waker, and releases if it gives the
/// claim back: `claim` is the state of a waker that is replaced, and `taking`
/// that of one that is taken.
pub open spec fn keeps_the_waker_visible(access: Access, claim: usize, taking: usize) -> bool {
    match access {
        Access::CompareExchange(Place::Wake(_), current, new, order, _)
        | Access::CompareExchangeWeak(Place::Wake(_), current, new, order, _) => {
            &&& new == claim || new == taking ==> acquires(order)
            &&& access is CompareExchange && current == claim ==> releases(order)
        },
        _ => true,
    }
}

/// Whether the access releases if it tells a waiter that it was woken.
pub open spec fn keeps_the_wake_visible(access: Access) -> bool {
    match access {
        Access::Store(Place::Wake(_), _, order) => releases(order),
        _ => true,
    }
}

} // verus!
