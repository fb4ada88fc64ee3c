//! An attempt that has waited too long says so.
use vstd::prelude::*;

use crate::access::{Access, Place, Reply};
use crate::course::Ledger;
use crate::words::{has_second, is_locked};

verus! {

/// What an attempt was told of the time.
pub struct Starving {
    /// After how many nanoseconds it starves.
    pub limit: usize,
    /// Whether it starves.
    pub starved: bool,
    /// Whether it has asked for the time since it looked at the state word.
    pub asked: bool,
}

impl Ledger for Starving {
    open spec fn entry(self, access: Access, reply: Reply) -> Starving {
        match access {
            Access::Elapsed => Starving {
                starved: reply.value > self.limit,
                asked: true,
                ..self
            },
            Access::Load(Place::Word, _)
            | Access::CompareExchangeWeak(Place::Word, _, _, _, _) => Starving {
                asked: false,
                ..self
            },
            _ => self,
        }
    }

    /// An attempt asks for the time before it joins the queue, unless it starves
    /// already. If it starves it sets the starved flag, and if not it leaves
    /// that flag as it is. Whoever takes the mutex leaves the flag as it is.
    open spec fn allows(self, access: Access) -> bool {
        match access {
            Access::Elapsed => !self.starved,
            Access::CompareExchangeWeak(Place::Word, current, new, _, _) => if is_locked(current)
                || has_second(current) {
                &&& self.starved || self.asked
                &&& has_second(new) == (has_second(current) || self.starved)
            } else {
                !has_second(new)
            },
            _ => true,
        }
    }
}

} // verus!
