//! How an attempt to lock a mutex with a queue goes about it.
//!
//! The attempt waits only if it knows that it is waited for, gives up only if
//! it is told to, and leaves the queue as it should be.
use vstd::prelude::*;

use crate::access::{Access, Operation, Place, Reply};
use crate::course::{Ledger, ledger};
use crate::words::{FLAGS, has_second, is_locked};

verus! {

/// The wake state of a waiter that waits.
pub const WAITING: usize = 1;

/// The wake state of a waiter that was handed the mutex.
pub const ACQUIRED: usize = 3;

/// What an attempt was told, and what it did.
pub struct Visit {
    /// The waiter that the attempt waits by.
    pub node: usize,
    /// Whether it has a deadline.
    pub timed: bool,
    /// The answer about the deadline on which it gives up.
    pub verdict: bool,
    /// Whether the caller gave it up.
    pub cancelled: bool,
    /// Whether it drops the waker of a waiter that it takes off the queue.
    pub drops: bool,
    /// Whether it waits for a notification that is under way when it gives up.
    pub lingers: bool,
    /// Whether the state word holds a seed beside the flags.
    pub seeded: bool,
    /// Whether it has the lock of the queue.
    pub inside: bool,
    /// The state word that it saw last, if it has the lock of the queue since it
    /// took that lock.
    pub word: Option<usize>,
    /// Whether it took the mutex.
    pub took: bool,
    /// Its wake state as far as it knows.
    pub wake: Option<usize>,
    /// Its wake state as it saw it last.
    pub looked: Option<usize>,
    /// Whether its waker is stored.
    pub waker: bool,
    /// Whether that waker is the one by which it wants to be woken now.
    pub fresh: bool,
    /// Whether the time from which on it is to be preferred is set.
    pub deadline: bool,
    /// Whether it has waited yet.
    pub parked: bool,
    /// What it was told of the deadline after it waited last.
    pub past: Option<bool>,
    /// Whether it joined the queue since it took the lock of the queue.
    pub pushed: bool,
    /// Whether it took its waiter off the queue.
    pub removed: bool,
    /// Whether it dropped the waker of that waiter.
    pub dropped: bool,
    /// Whether it deals with the waiters of others.
    pub serves: bool,
    /// Whether it found the queue to be empty.
    pub empty: Option<bool>,
    /// Whether it cleared the parked flag.
    pub cleared: bool,
}

impl Visit {
    /// The visit of an attempt that begins.
    pub open spec fn begin(
        node: usize,
        timed: bool,
        verdict: bool,
        drops: bool,
        lingers: bool,
        seeded: bool,
    ) -> Visit {
        Visit {
            node,
            timed,
            verdict,
            cancelled: false,
            drops,
            lingers,
            seeded,
            inside: false,
            word: None,
            took: false,
            wake: None,
            looked: None,
            waker: false,
            fresh: false,
            deadline: false,
            parked: false,
            past: None,
            pushed: false,
            removed: false,
            dropped: false,
            serves: false,
            empty: None,
            cleared: false,
        }
    }

    /// The visit of an attempt that the caller gives up.
    pub open spec fn cancel(self) -> Visit {
        Visit { cancelled: true, ..self }
    }

    /// Whether the attempt has been told to give up.
    pub open spec fn quits(self) -> bool {
        self.cancelled || self.timed && self.past == Some(self.verdict)
    }

    /// Whether it has waited and did not ask about the deadline since.
    pub open spec fn has_to_ask(self) -> bool {
        self.timed && !self.cancelled && self.parked && self.past is None
    }

    /// Whether it waits, as far as it knows, and can be woken.
    pub open spec fn waits(self) -> bool {
        self.wake == Some(WAITING) && self.waker && self.fresh
    }

    /// Whether it saw, under the lock of the queue, that the mutex is held and
    /// that whoever unlocks it will look at the queue.
    pub open spec fn may_join(self) -> bool {
        &&& self.word is Some
        &&& is_locked(self.word.unwrap())
        &&& has_second(self.word.unwrap())
        &&& self.seeded || self.word.unwrap() == FLAGS
    }

    /// Whether the queue is left as it should be: whoever could join it has done
    /// so.
    pub open spec fn is_tidy(self) -> bool {
        &&& self.cleared == (self.empty == Some(true))
        &&& self.removed && self.drops ==> self.dropped
        &&& self.may_join() && !self.quits() ==> self.pushed
    }
}

impl Ledger for Visit {
    open spec fn entry(self, access: Access, reply: Reply) -> Visit {
        match access {
            Access::LockQueue => Visit {
                inside: true,
                word: None,
                pushed: false,
                removed: false,
                dropped: false,
                empty: None,
                cleared: false,
                ..self
            },
            Access::UnlockQueue => Visit { inside: false, ..self },
            Access::Load(Place::Wake(node), _) => if node == self.node && !self.serves {
                Visit {
                    wake: Some(reply.value),
                    looked: Some(reply.value),
                    fresh: false,
                    ..self
                }
            } else {
                self
            },
            Access::Store(Place::Wake(node), wake, _) => if node == self.node && !self.serves {
                Visit { wake: Some(wake), ..self }
            } else {
                self
            },
            Access::StoreWaker(_) => Visit { waker: true, fresh: true, ..self },
            Access::WillWake(_) => Visit { fresh: reply.ok, ..self },
            Access::DropWaker(_) => Visit { waker: false, dropped: true, ..self },
            Access::SetDeadline(_, _) => Visit { deadline: true, ..self },
            Access::Load(Place::Word, _) => Visit { word: Some(reply.value), ..self },
            Access::CompareExchangeWeak(Place::Word, current, new, _, _) => if reply.ok {
                if !is_locked(current) && is_locked(new) {
                    Visit { took: true, ..self }
                } else {
                    self
                }
            } else {
                Visit { word: Some(reply.value), ..self }
            },
            Access::Store(Place::Word, word, _) => if has_second(word) {
                self
            } else {
                Visit { cleared: true, ..self }
            },
            Access::FetchAnd(Place::Word, mask, _) => if has_second(mask) {
                self
            } else {
                Visit { cleared: true, ..self }
            },
            Access::IsQueueEmpty => Visit { empty: Some(reply.ok), ..self },
            Access::PopFront => Visit {
                serves: true,
                empty: if reply.ok {
                    None
                } else {
                    Some(true)
                },
                ..self
            },
            Access::PushBack(_) => Visit { pushed: true, ..self },
            Access::Remove(_) => Visit { removed: reply.ok, ..self },
            Access::Park => Visit { parked: true, ..self },
            Access::ParkUntil => Visit { parked: true, past: None, ..self },
            Access::PastDeadline => Visit { past: Some(reply.ok), ..self },
            _ => self,
        }
    }

    /// After it has waited, an attempt with a deadline asks about it before all
    /// else, and an attempt that has the mutex does nothing more. One that is
    /// told to give up takes nothing and waits for nothing any more, and nobody
    /// else takes a waiter off the queue. An attempt joins the queue only
    /// while the mutex is held and parked, and ready to be woken, and it waits
    /// only as long as it knows of no notification. The queue is touched only
    /// by whoever has its lock, and nobody waits, wakes or is over with that
    /// lock.
    open spec fn allows(self, access: Access) -> bool {
        &&& self.has_to_ask() ==> access is PastDeadline
        &&& self.took ==> access is Done
        &&& match access {
            Access::LockQueue => !self.inside,
            Access::UnlockQueue => self.inside && self.is_tidy(),
            Access::StoreWaker(node) | Access::WillWake(node) => self.inside && node == self.node,
            Access::DropWaker(node) => self.removed && node == self.node,
            Access::SetDeadline(node, _) => self.inside && node == self.node,
            Access::LastWaiter => self.inside && self.may_join(),
            Access::PushBack(node) => {
                &&& self.inside
                &&& node == self.node
                &&& self.may_join()
                &&& self.waits()
                &&& self.deadline
                &&& !self.quits()
            },
            Access::Remove(node) => self.inside && node == self.node && self.quits(),
            Access::IsQueueEmpty | Access::PopFront => self.inside && self.quits(),
            Access::CompareExchangeWeak(Place::Word, current, _, _, _) => {
                &&& !self.quits()
                &&& self.word is Some ==> self.word == Some(current)
                &&& self.looked != Some(ACQUIRED) || self.wake == Some(WAITING)
            },
            Access::PastDeadline => self.has_to_ask(),
            Access::ParkUntil => {
                &&& !self.inside
                &&& self.timed
                &&& !self.quits()
                &&& self.waits()
            },
            Access::Park => {
                &&& !self.inside
                &&& self.quits() || !self.timed
                &&& if self.quits() {
                    self.lingers && self.looked != Some(WAITING)
                } else {
                    self.waits()
                }
            },
            Access::Wake => !self.inside,
            Access::Done => !self.inside,
            _ => true,
        }
    }
}

/// What is said at the beginning of the attempt stays so.
pub proof fn terms_stay<P: Operation>(first: P, replies: Seq<Reply>, start: Visit, i: int)
    ensures
        ledger(first, replies, start, i).timed == start.timed,
        ledger(first, replies, start, i).verdict == start.verdict,
        ledger(first, replies, start, i).cancelled == start.cancelled,
    decreases i,
{
    if i > 0 {
        terms_stay(first, replies, start, i - 1);
    }
}

} // verus!
