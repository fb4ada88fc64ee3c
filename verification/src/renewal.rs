//! How a task that waits by a cell sees to its waker.
//!
//! The task claims the waker before it replaces it, and gives the claim back once
//! the waker is its own. If it was woken meanwhile, it takes its waker out
//! again.
use vstd::prelude::*;

use crate::access::{Access, Place, Reply};
use crate::course::Ledger;

verus! {

/// What a poll was told of the cell, and what it did.
pub struct Renewal {
    /// The cell that is polled.
    pub node: usize,
    /// Whether the poll has claimed the waker.
    pub claimed: bool,
    /// Whether the waker in the cell is that of the task since then.
    pub fresh: bool,
    /// Whether the claim was given back.
    pub kept: bool,
    /// Whether the task was woken while the waker was claimed, and the waker is
    /// still in the cell.
    pub late: bool,
    /// The state of the cell as it was seen last.
    pub seen: Option<usize>,
}

impl Renewal {
    /// A poll that begins.
    pub open spec fn begin(node: usize) -> Renewal {
        Renewal { node, claimed: false, fresh: false, kept: false, late: false, seen: None }
    }
}

impl Ledger for Renewal {
    open spec fn entry(self, access: Access, reply: Reply) -> Renewal {
        match access {
            Access::Load(Place::Wake(_), _) => Renewal { seen: Some(reply.value), ..self },
            Access::CompareExchange(Place::Wake(_), _, _, _, _)
            | Access::CompareExchangeWeak(Place::Wake(_), _, _, _, _) => if reply.ok {
                Renewal { claimed: !self.claimed, fresh: false, kept: self.claimed, ..self }
            } else {
                Renewal { claimed: false, late: self.claimed, seen: Some(reply.value), ..self }
            },
            Access::StoreWaker(_) => Renewal { fresh: true, ..self },
            Access::WillWake(_) => Renewal { fresh: reply.ok, ..self },
            Access::DropWaker(_) => Renewal { late: false, ..self },
            _ => self,
        }
    }

    /// The waker is touched only while it is claimed, or to take it out of a cell
    /// by which the task was woken. The claim is given back only with
    /// the waker of the task. Nobody is over with a claim.
    open spec fn allows(self, access: Access) -> bool {
        match access {
            Access::Load(Place::Wake(node), _) => {
                &&& node == self.node
                &&& !self.claimed
                &&& !self.late
            },
            Access::CompareExchange(Place::Wake(node), _, _, _, _)
            | Access::CompareExchangeWeak(Place::Wake(node), _, _, _, _) => {
                &&& node == self.node
                &&& !self.late
                &&& !self.kept
                &&& self.claimed ==> self.fresh
            },
            Access::StoreWaker(node) | Access::WillWake(node) | Access::HasWaker(node) => {
                &&& node == self.node
                &&& self.claimed
            },
            Access::DropWaker(node) => {
                &&& node == self.node
                &&& self.claimed && !self.fresh || self.late
            },
            Access::Done => !self.claimed && !self.late,
            _ => false,
        }
    }
}

} // verus!
