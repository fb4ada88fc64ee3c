//! A lock is either released or handed over.
//!
//! An unlock that takes a waiter off the queue decides for it: either it clears
//! the held flag and has the waiter try again, or it keeps the held flag set
//! throughout and makes the waiter the holder.
use vstd::prelude::*;

use crate::access::{Access, Operation, Place, Reply};
use crate::course::{Keeps, Ledger, always_allowed, is_course, ledger};
use crate::words::{has_second, is_locked};

verus! {

/// What an unlock was told of the waiter that it deals with, and what it did.
pub struct Handover {
    /// The wake state that makes a waiter the holder.
    pub grant: usize,
    /// Whether the caller wants the lock to be handed over.
    pub wish: bool,
    /// Whether the second flag of the word says that it is to be handed over.
    pub flagged: bool,
    /// Whether the operation has to give the lock up.
    pub due: bool,
    /// Whether it took a waiter off the queue by itself.
    pub popped: bool,
    /// Whether the lock is to be handed over, once that is known.
    pub fair: Option<bool>,
    /// The wake state that it wrote last.
    pub wake: Option<usize>,
    /// Whether it cleared the held flag.
    pub released: bool,
    /// The wake state that it saw last.
    pub seen: Option<usize>,
    /// Whether a waiter can be found that was notified already, and is left as
    /// it is.
    pub lenient: bool,
}

impl Handover {
    /// An unlock that hands over to a waiter that has waited too long.
    pub open spec fn by_deadline(grant: usize) -> Handover {
        Handover {
            grant,
            wish: false,
            flagged: false,
            due: true,
            popped: false,
            fair: None,
            wake: None,
            released: false,
            seen: None,
            lenient: false,
        }
    }

    /// An unlock that hands over if the second flag of the word is set.
    pub open spec fn by_flag(grant: usize) -> Handover {
        Handover { flagged: true, ..Handover::by_deadline(grant) }
    }

    /// An unlock that hands over if the caller wants it to, or to a waiter that
    /// has waited too long.
    pub open spec fn by_wish(grant: usize, wish: bool) -> Handover {
        Handover { wish, ..Handover::by_deadline(grant) }
    }

    /// An operation that has nothing to give up unless it begins to take waiters
    /// off the queue.
    pub open spec fn none_due(grant: usize) -> Handover {
        Handover { due: false, ..Handover::by_deadline(grant) }
    }

    /// Whether the waiter was found to be notified already.
    pub open spec fn is_moot(self) -> bool {
        &&& self.lenient
        &&& self.wake is None
        &&& self.seen matches Some(seen) && seen % 4 == 3
    }

    /// Whether the last wake state that was written suits the decision.
    pub open spec fn is_settled(self) -> bool {
        match self.fair {
            Some(fair) => {
                ||| self.wake is Some && (self.wake == Some(self.grant)) == fair
                ||| self.is_moot()
            },
            None => !self.popped,
        }
    }
}

impl Ledger for Handover {
    open spec fn entry(self, access: Access, reply: Reply) -> Handover {
        match access {
            Access::PopFront => if reply.ok {
                Handover {
                    due: true,
                    popped: true,
                    fair: if self.wish {
                        Some(true)
                    } else {
                        None
                    },
                    ..self
                }
            } else {
                Handover { due: true, ..self }
            },
            Access::Expired(_) => Handover { fair: Some(reply.ok), ..self },
            Access::Store(Place::Wake(_), wake, _) => Handover { wake: Some(wake), ..self },
            Access::CompareExchange(Place::Wake(_), _, wake, _, _)
            | Access::CompareExchangeWeak(Place::Wake(_), _, wake, _, _) => if reply.ok {
                Handover { wake: Some(wake), ..self }
            } else {
                Handover { seen: Some(reply.value), ..self }
            },
            Access::Load(Place::Wake(_), _) => Handover { seen: Some(reply.value), ..self },
            Access::Store(Place::Word, word, _) => if is_locked(word) {
                self
            } else {
                Handover { released: true, ..self }
            },
            Access::FetchAnd(Place::Word, mask, _) => if is_locked(mask) {
                self
            } else {
                Handover { released: true, ..self }
            },
            Access::CompareExchange(Place::Word, _, new, _, _)
            | Access::CompareExchangeWeak(Place::Word, _, new, _, _) => if reply.ok {
                if is_locked(new) {
                    self
                } else {
                    Handover { released: true, ..self }
                }
            } else if self.flagged {
                Handover { fair: Some(has_second(reply.value)), ..self }
            } else {
                self
            },
            _ => self,
        }
    }

    /// Whether to hand over is asked at most once, and only if the caller has
    /// not said so already. The held flag is cleared only by an operation that
    /// releases the lock, and a waiter is made the holder only by one that
    /// hands it over. Nobody is over before either is done, nor before the
    /// waiter was told which.
    open spec fn allows(self, access: Access) -> bool {
        match access {
            Access::Expired(_) => self.fair is None,
            Access::Store(Place::Wake(_), wake, _) => wake == self.grant ==> self.fair == Some(true),
            Access::CompareExchange(Place::Wake(_), _, wake, _, _)
            | Access::CompareExchangeWeak(Place::Wake(_), _, wake, _, _) => wake == self.grant
                ==> self.fair == Some(true),
            Access::Store(Place::Word, word, _) => !is_locked(word) ==> self.fair != Some(true),
            Access::FetchAnd(Place::Word, mask, _) => !is_locked(mask) ==> self.fair != Some(true),
            Access::CompareExchange(Place::Word, _, new, _, _)
            | Access::CompareExchangeWeak(Place::Word, _, new, _, _) => !is_locked(new)
                ==> self.fair != Some(true),
            Access::Done => self.due ==> {
                &&& self.released == (self.fair != Some(true))
                &&& self.is_settled()
            },
            _ => true,
        }
    }
}

/// What is known of the decision once a waiter was taken off the queue.
pub open spec fn asked(wish: bool) -> Option<bool> {
    if wish {
        Some(true)
    } else {
        None
    }
}

/// Whoever wants the lock to be handed over is not asked again.
pub proof fn wish_is_granted<P: Keeps<Handover>>(
    first: P,
    replies: Seq<Reply>,
    start: Handover,
    i: int,
)
    requires
        first.wf(),
        first.fits(start),
        is_course(first, replies),
        0 <= i <= replies.len(),
        start.wish,
        !start.flagged,
        !start.popped,
        start.fair is None,
    ensures
        ledger(first, replies, start, i).popped ==> ledger(first, replies, start, i).fair == Some(
            true,
        ),
    decreases i,
{
    if i > 0 {
        wish_is_granted(first, replies, start, i - 1);
        terms_stay(first, replies, start, i - 1);
        always_allowed(first, replies, start, i - 1);
    }
}

/// What is said at the beginning of how an unlock decides stays so.
pub proof fn terms_stay<P: Operation>(first: P, replies: Seq<Reply>, start: Handover, i: int)
    ensures
        ledger(first, replies, start, i).grant == start.grant,
        ledger(first, replies, start, i).wish == start.wish,
        ledger(first, replies, start, i).flagged == start.flagged,
        ledger(first, replies, start, i).lenient == start.lenient,
        start.due ==> ledger(first, replies, start, i).due,
    decreases i,
{
    if i > 0 {
        terms_stay(first, replies, start, i - 1);
    }
}

} // verus!
