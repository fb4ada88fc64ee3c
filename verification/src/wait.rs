//! How an attempt to lock waits in the queue of a lock.
//!
//! The attempt looks at the state word as long as it is not in the queue, and
//! at its wake state as long as it is. It joins the queue ready to be woken, waits
//! only as long as it knows of no notification, and goes back to the state word
//! when it is woken.
use vstd::prelude::*;

use crate::access::{Access, Place, Reply};
use crate::course::Ledger;
use crate::exclusion::Encoding;

verus! {

/// How a lock tells a waiter that it was woken.
pub trait Signs: Encoding {
    /// Whether a waiter with the wake state is not in the queue any more.
    spec fn is_up(wake: usize) -> bool;
}

/// What an attempt was told, and what it did.
pub struct Wait<K> {
    pub kind: K,
    /// The waiter that the attempt waits by.
    pub node: usize,
    /// Whether the attempt drops a waker that it does not need any more.
    pub drops: bool,
    /// The state word as it saw it last.
    pub word: Option<usize>,
    /// Whether it has the lock.
    pub took: bool,
    /// Whether it is in the queue, as far as it knows.
    pub queued: bool,
    /// Its wake state as far as it knows.
    pub wake: Option<usize>,
    /// Whether it stored its waker.
    pub waker: bool,
    /// Whether it found that its waker is stored.
    pub found: bool,
    /// Whether it has claimed the waker to replace it.
    pub updating: bool,
    /// Whether the waker is the one by which it wants to be woken now.
    pub fresh: bool,
    /// Whether it was woken while it replaced the waker, which is still there.
    pub late: bool,
}

impl<K: Signs> Wait<K> {
    /// An attempt that begins.
    pub open spec fn begin(kind: K, node: usize, drops: bool) -> Wait<K> {
        Wait {
            kind,
            node,
            drops,
            word: None,
            took: false,
            queued: false,
            wake: None,
            waker: false,
            found: false,
            updating: false,
            fresh: false,
            late: false,
        }
    }

    /// After it saw its wake state.
    pub open spec fn sees(self, wake: usize) -> Wait<K> {
        Wait {
            wake: Some(wake),
            queued: !K::is_up(wake),
            took: self.took || K::grants(wake),
            found: false,
            updating: false,
            late: self.updating && self.drops,
            ..self
        }
    }

    /// Whether it is about to look at the state word or has done so.
    pub open spec fn is_free(self) -> bool {
        !self.took && !self.queued && !self.updating && !self.late
    }

    /// Whether it can be woken, and was not woken as far as it knows.
    pub open spec fn is_ready(self) -> bool {
        ||| self.found
        ||| self.waker && self.wake is Some && !K::is_up(self.wake.unwrap())
    }

    /// Whether it waits as far as it knows.
    pub open spec fn is_down(self) -> bool {
        ||| self.found
        ||| self.wake is Some && !K::is_up(self.wake.unwrap())
    }
}

impl<K: Signs> Ledger for Wait<K> {
    open spec fn entry(self, access: Access, reply: Reply) -> Wait<K> {
        match access {
            Access::Load(Place::Word, _) => Wait { word: Some(reply.value), ..self },
            Access::CompareExchangeWeak(Place::Word, current, _, _, _) => if !reply.ok {
                Wait { word: Some(reply.value), ..self }
            } else if K::is_held(current) {
                Wait { queued: true, word: None, ..self }
            } else {
                Wait { took: true, ..self }
            },
            Access::SwapByte(_, _) => Wait { took: reply.value == 0, word: None, ..self },
            Access::Load(Place::Wake(_), _) => self.sees(reply.value),
            Access::CompareExchange(Place::Wake(_), _, wake, _, _)
            | Access::CompareExchangeWeak(Place::Wake(_), _, wake, _, _) => if reply.ok {
                Wait {
                    wake: Some(wake),
                    updating: !self.updating,
                    fresh: self.updating && self.fresh,
                    found: false,
                    ..self
                }
            } else {
                self.sees(reply.value)
            },
            Access::Store(Place::Wake(_), wake, _) => Wait { wake: Some(wake), ..self },
            Access::HasWaker(_) => Wait { found: reply.ok, ..self },
            Access::StoreWaker(_) => Wait { waker: true, fresh: true, ..self },
            Access::WillWake(_) => Wait { fresh: reply.ok, ..self },
            Access::DropWaker(_) => Wait { waker: false, late: false, ..self },
            Access::Park => Wait { wake: None, found: false, ..self },
            _ => self,
        }
    }

    /// An attempt that has the lock is over, but for a waker that it drops. One
    /// that is in the queue does nothing but look at its wake state, see to its
    /// waker and wait, and it waits only if it saw, since it waited last,
    /// that it was not woken. It replaces the waker only after it has claimed
    /// it, and gives up the claim only once the waker is the right one. It
    /// takes the lock or joins the queue only by what it saw last of the
    /// state word, and joins only if it can be woken.
    open spec fn allows(self, access: Access) -> bool {
        &&& self.took ==> access is Done || access is DropWaker && self.drops
        &&& self.late ==> access is DropWaker
        &&& match access {
            Access::Load(Place::Wake(node), _) => node == self.node && !self.updating,
            Access::CompareExchange(Place::Wake(node), _, _, _, _)
            | Access::CompareExchangeWeak(Place::Wake(node), _, _, _, _) => {
                &&& node == self.node
                &&& self.queued
                &&& self.updating ==> self.fresh
            },
            Access::StoreWaker(node) => {
                &&& node == self.node
                &&& self.queued ==> self.updating
            },
            Access::HasWaker(node) | Access::WillWake(node) => {
                &&& node == self.node
                &&& self.queued ==> self.updating
            },
            Access::DropWaker(node) => {
                &&& node == self.node
                &&& self.updating || self.drops && (self.late || self.took && self.waker)
            },
            Access::Park => self.queued && self.is_down() && !self.updating,
            Access::CompareExchangeWeak(Place::Word, current, _, _, _) => {
                &&& self.is_free()
                &&& self.word == Some(current) || self.word is None && current == 0
                &&& K::is_held(current) ==> self.is_ready()
            },
            Access::Done => self.took && !self.updating,
            Access::Store(Place::Wake(node), _, _) => node == self.node && self.is_free(),
            _ => self.is_free(),
        }
    }
}

} // verus!
