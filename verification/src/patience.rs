//! How long an attempt looks at a lock before it joins the queue.
//!
//! While the lock is held and nobody waits, it pays to look again for a while. A
//! lock without a scheduler to ask spins for a number of rounds, each twice
//! as long as the last. Others ask a scheduler each time.
use vstd::arithmetic::power2::pow2;
use vstd::prelude::*;

use crate::access::{Access, Place, Reply};
use crate::course::Ledger;
use crate::words::is_locked;

verus! {

/// How a lock tells that it is held and that nobody waits.
pub trait Crowd {
    /// Whether the lock cannot be taken, and the queue is empty.
    spec fn is_quiet(word: usize) -> bool;

    /// After how many nanoseconds a waiter that joins the queue of a lock with
    /// the state word is preferred.
    spec fn deadline(word: usize, node: usize) -> u32;
}

/// Whether the access is a look at the state word.
pub open spec fn is_look(access: Access) -> bool {
    match access {
        Access::Load(Place::Word, _) => true,
        _ => false,
    }
}

/// How often an attempt has looked.
pub struct Patience<K> {
    pub kind: K,
    /// How many rounds are spun with hints to the processor.
    pub hinted: nat,
    /// How many rounds are spun, with the pauses.
    pub rounds: nat,
    /// Whether leaving the lock of the queue starts over.
    pub forgets: bool,
    /// How many rounds were spun since the attempt was woken last.
    pub spun: nat,
    /// Whether it has the lock of the queue.
    pub inside: bool,
    /// Whether it has looked at the state word at all.
    pub seen: bool,
    /// Whether it is still to act on what it saw of the state word.
    pub just: bool,
    /// Whether it has to look again.
    pub again: bool,
    /// Whether it has to pause before.
    pub pauses: bool,
}

impl<K: Crowd> Patience<K> {
    /// An attempt that begins.
    pub open spec fn begin(kind: K, hinted: nat, rounds: nat, forgets: bool) -> Patience<K> {
        Patience {
            kind,
            hinted,
            rounds,
            forgets,
            spun: 0,
            inside: false,
            seen: false,
            just: false,
            again: false,
            pauses: false,
        }
    }

    /// After it saw the state word.
    pub open spec fn sees(self, word: usize) -> Patience<K> {
        let again = K::is_quiet(word) && self.spun < self.rounds;
        Patience {
            spun: if again {
                self.spun + 1
            } else {
                self.spun
            },
            seen: true,
            just: true,
            again,
            pauses: again && self.spun >= self.hinted,
            ..self
        }
    }

    /// How many hints the attempt makes when it sees the state word.
    pub open spec fn hints(self, word: usize) -> nat {
        if K::is_quiet(word) && self.spun < self.hinted {
            pow2(self.spun)
        } else {
            0
        }
    }

    /// How many hints it makes when its access is answered.
    pub open spec fn hints_after(self, access: Access, reply: Reply) -> nat {
        match access {
            Access::Load(Place::Word, _) => if self.inside {
                0
            } else {
                self.hints(reply.value)
            },
            Access::CompareExchangeWeak(Place::Word, _, _, _, _) => if reply.ok || !self.seen {
                0
            } else {
                self.hints(reply.value)
            },
            Access::SwapByte(_, _) => if reply.value == 0 || !self.seen {
                0
            } else {
                1
            },
            _ => 0,
        }
    }
}

impl<K: Crowd> Ledger for Patience<K> {
    open spec fn entry(self, access: Access, reply: Reply) -> Patience<K> {
        match access {
            Access::Load(Place::Word, _) => if self.inside {
                self
            } else {
                self.sees(reply.value)
            },
            Access::CompareExchangeWeak(Place::Word, _, _, _, _) => if reply.ok || !self.seen {
                Patience { just: false, again: false, pauses: false, ..self }
            } else {
                self.sees(reply.value)
            },
            Access::Load(Place::Wake(_), _)
            | Access::CompareExchange(Place::Wake(_), _, _, _, _)
            | Access::CompareExchangeWeak(Place::Wake(_), _, _, _, _) => Patience {
                spun: 0,
                just: false,
                again: false,
                pauses: false,
                ..self
            },
            Access::SwapByte(_, _) => Patience { just: false, ..self },
            Access::LockQueue => Patience { inside: true, ..self },
            Access::UnlockQueue => Patience {
                inside: false,
                spun: if self.forgets {
                    0
                } else {
                    self.spun
                },
                just: false,
                ..self
            },
            Access::Pause => Patience { pauses: false, ..self },
            _ => self,
        }
    }

    /// An attempt that has to look again does that next, and it looks again only
    /// then, or after it acted on what it saw: it took the lock, or
    /// joined the queue and was woken. It pauses only if it has to. It joins an
    /// empty queue only after all rounds were spun.
    open spec fn allows(self, access: Access) -> bool {
        &&& self.again && self.pauses ==> access is Pause
        &&& self.again && !self.pauses ==> is_look(access)
        &&& match access {
            Access::Pause => self.again && self.pauses,
            Access::Load(Place::Word, _) => self.just && !self.inside ==> self.again,
            Access::CompareExchangeWeak(Place::Word, current, _, _, _) => K::is_quiet(current)
                ==> self.spun >= self.rounds,
            _ => true,
        }
    }
}

/// What an attempt was told by the scheduler.
pub struct Waver<K> {
    pub kind: K,
    /// Whether leaving the lock of the queue starts over.
    pub forgets: bool,
    /// How often the scheduler let it spin since it was woken last.
    pub count: usize,
    /// Whether it has the lock of the queue.
    pub inside: bool,
    /// The state word as it saw it last.
    pub word: Option<usize>,
    /// Whether it is still to act on what it saw of the state word.
    pub just: bool,
    /// Whether the scheduler let it spin, and it did not look since.
    pub again: bool,
    /// Whether the scheduler told it not to spin, since it looked last.
    pub refused: bool,
    /// Whether a waiter of the lock has a time from which on it is preferred.
    pub dates: bool,
    /// Whether that time is set.
    pub dated: bool,
}

impl<K: Crowd> Waver<K> {
    /// An attempt that begins.
    pub open spec fn begin(kind: K, forgets: bool, dates: bool) -> Waver<K> {
        Waver {
            kind,
            forgets,
            count: 0,
            inside: false,
            word: None,
            just: false,
            again: false,
            refused: false,
            dates,
            dated: false,
        }
    }

    /// After it saw the state word.
    pub open spec fn sees(self, word: usize) -> Waver<K> {
        Waver { word: Some(word), just: true, again: false, refused: false, ..self }
    }

    /// Whether it has to ask the scheduler.
    pub open spec fn has_to_ask(self) -> bool {
        &&& self.just
        &&& !self.again
        &&& !self.refused
        &&& self.word is Some
        &&& K::is_quiet(self.word.unwrap())
    }
}

impl<K: Crowd> Ledger for Waver<K> {
    open spec fn entry(self, access: Access, reply: Reply) -> Waver<K> {
        match access {
            Access::Load(Place::Word, _) => if self.inside {
                self
            } else {
                self.sees(reply.value)
            },
            Access::CompareExchangeWeak(Place::Word, _, _, _, _) => if reply.ok || self.word is None {
                Waver { just: false, ..self }
            } else {
                self.sees(reply.value)
            },
            Access::Yield(_) => if reply.ok {
                Waver { count: self.count.wrapping_add(1), again: true, ..self }
            } else {
                Waver { refused: true, ..self }
            },
            Access::HasDeadline(_) => Waver { dated: reply.ok, ..self },
            Access::SetDeadline(_, _) => Waver { dated: true, ..self },
            Access::Load(Place::Wake(_), _)
            | Access::CompareExchange(Place::Wake(_), _, _, _, _)
            | Access::CompareExchangeWeak(Place::Wake(_), _, _, _, _) => Waver {
                count: 0,
                just: false,
                ..self
            },
            Access::LockQueue => Waver { inside: true, ..self },
            Access::UnlockQueue => Waver {
                inside: false,
                count: if self.forgets {
                    0
                } else {
                    self.count
                },
                just: false,
                ..self
            },
            _ => self,
        }
    }

    /// An attempt that finds the lock held and the queue empty asks whether to
    /// spin, and says how often it has done so. If so it looks again, and it
    /// looks again only then, or after it acted on what it saw: it took the
    /// lock, or joined the queue and was woken. If not it may join the queue,
    /// once the time from which on it is preferred is set, where there is one.
    open spec fn allows(self, access: Access) -> bool {
        &&& self.has_to_ask() ==> access is Yield
        &&& self.again ==> is_look(access)
        &&& match access {
            Access::Yield(count) => self.has_to_ask() && count == self.count,
            Access::CompareExchangeWeak(Place::Word, current, _, _, _) => {
                &&& K::is_quiet(current) ==> self.refused
                &&& self.dates && is_locked(current) ==> self.dated
            },
            Access::SetDeadline(node, nanos) => self.dates ==> {
                &&& !self.dated
                &&& self.word is Some
                &&& nanos == K::deadline(self.word.unwrap(), node)
            },
            Access::Load(Place::Word, _) => self.just ==> self.again || self.inside,
            _ => true,
        }
    }
}

} // verus!
