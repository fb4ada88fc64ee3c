//! A parker that blocks the thread that made it.
use vstd::prelude::*;
use crate::access::{Access, Operation, Order, Place, Reply};
use crate::course::{Keeps, Ledger, always_allowed, is_course, ledger, point};
use crate::debt::{Debt, terms_stay};
use crate::kernel::cpu::{Hints, spec_hints, spin_round};
use crate::lookout::{self, Lookout, Readiness};
use crate::memory::{Shared, alone};
use crate::parker::Rest;
use crate::thread_parker::ThreadParker;
use crate::visibility::{acquires, keeps_the_wake_visible};

verus! {

/// Nobody has woken the parker.
pub const WAITING: usize = 0;

/// The parker was woken.
pub const NOTIFIED: usize = 1;

/// The state of a parker that nobody has woken yet.
#[derive(Clone, Copy, PartialEq, Eq, Structural, Debug)]
pub struct Parker {
    pub notified: usize,
}

/// Makes a parker ready.
#[derive(Clone, Copy, PartialEq, Eq, Structural, Debug)]
pub enum Prepare {
    SetWaiting { node: usize },
    Done,
}

impl Operation for Prepare {
    open spec fn wf(&self) -> bool {
        true
    }

    open spec fn wants(&self) -> Access {
        match *self {
            Prepare::SetWaiting { node } => Access::Store(Place::Wake(node), WAITING, Order::Relaxed),
            Prepare::Done => Access::Done,
        }
    }

    open spec fn expects(&self, reply: Reply) -> bool {
        match *self {
            Prepare::SetWaiting { .. } => true,
            Prepare::Done => false,
        }
    }

    open spec fn after(&self, reply: Reply) -> Self {
        match *self {
            Prepare::SetWaiting { .. } => Prepare::Done,
            Prepare::Done => Prepare::Done,
        }
    }

    fn accepts(&self, reply: Reply) -> (accepted: bool) {
        match *self {
            Prepare::SetWaiting { .. } => true,
            Prepare::Done => false,
        }
    }

    fn access(&self) -> (access: Access) {
        match *self {
            Prepare::SetWaiting { node } => Access::Store(Place::Wake(node), WAITING, Order::Relaxed),
            Prepare::Done => Access::Done,
        }
    }

    fn resume(&mut self, reply: Reply, _hints: &mut Hints) {
        *self =
        match *self {
            Prepare::SetWaiting { .. } => Prepare::Done,
            Prepare::Done => Prepare::Done,
        };
    }
}

/// Waits until a parker is woken, or until the deadline of the caller if it is
/// timed. `woken` says which of the two came about.
#[derive(Clone, Copy, PartialEq, Eq, Structural, Debug)]
pub enum Park {
    Load { node: usize, timed: bool },
    /// Asks whether the deadline has come.
    CheckDeadline { node: usize },
    Block { node: usize, timed: bool },
    Done { woken: bool },
}

impl Operation for Park {
    open spec fn wf(&self) -> bool {
        true
    }

    open spec fn wants(&self) -> Access {
        match *self {
            Park::Load { node, .. } => Access::Load(Place::Wake(node), Order::Acquire),
            Park::CheckDeadline { .. } => Access::PastDeadline,
            Park::Block { timed, .. } => if timed {
                Access::ParkUntil
            } else {
                Access::Park
            },
            Park::Done { .. } => Access::Done,
        }
    }

    open spec fn expects(&self, reply: Reply) -> bool {
        match *self {
            Park::Done { .. } => false,
            _ => true,
        }
    }

    open spec fn after(&self, reply: Reply) -> Self {
        match *self {
            Park::Load { node, timed } => if reply.value != WAITING {
                Park::Done { woken: true }
            } else if timed {
                Park::CheckDeadline { node }
            } else {
                Park::Block { node, timed }
            },
            Park::CheckDeadline { node } => if reply.ok {
                Park::Done { woken: false }
            } else {
                Park::Block { node, timed: true }
            },
            Park::Block { node, timed } => Park::Load { node, timed },
            Park::Done { woken } => Park::Done { woken },
        }
    }

    fn accepts(&self, reply: Reply) -> (accepted: bool) {
        match *self {
            Park::Done { .. } => false,
            _ => true,
        }
    }

    fn access(&self) -> (access: Access) {
        match *self {
            Park::Load { node, .. } => Access::Load(Place::Wake(node), Order::Acquire),
            Park::CheckDeadline { .. } => Access::PastDeadline,
            Park::Block { timed, .. } => if timed {
                Access::ParkUntil
            } else {
                Access::Park
            },
            Park::Done { .. } => Access::Done,
        }
    }

    fn resume(&mut self, reply: Reply, _hints: &mut Hints) {
        *self =
        match *self {
            Park::Load { node, timed } => if reply.value != WAITING {
                Park::Done { woken: true }
            } else if timed {
                Park::CheckDeadline { node }
            } else {
                Park::Block { node, timed }
            },
            Park::CheckDeadline { node } => if reply.ok {
                Park::Done { woken: false }
            } else {
                Park::Block { node, timed: true }
            },
            Park::Block { node, timed } => Park::Load { node, timed },
            Park::Done { woken } => Park::Done { woken },
        };
    }
}

/// Wakes a parker and its thread.
#[derive(Clone, Copy, PartialEq, Eq, Structural, Debug)]
pub enum Unpark {
    SetNotified { node: usize },
    Wake { node: usize },
    Done,
}

impl Operation for Unpark {
    open spec fn wf(&self) -> bool {
        true
    }

    open spec fn wants(&self) -> Access {
        match *self {
            Unpark::SetNotified { node } => Access::Store(
                Place::Wake(node),
                NOTIFIED,
                Order::Release,
            ),
            Unpark::Wake { node } => Access::WakeThread(node),
            Unpark::Done => Access::Done,
        }
    }

    open spec fn expects(&self, reply: Reply) -> bool {
        match *self {
            Unpark::Done => false,
            _ => true,
        }
    }

    open spec fn after(&self, reply: Reply) -> Self {
        match *self {
            Unpark::SetNotified { node } => Unpark::Wake { node },
            Unpark::Wake { .. } => Unpark::Done,
            Unpark::Done => Unpark::Done,
        }
    }

    fn accepts(&self, reply: Reply) -> (accepted: bool) {
        match *self {
            Unpark::Done => false,
            _ => true,
        }
    }

    fn access(&self) -> (access: Access) {
        match *self {
            Unpark::SetNotified { node } => Access::Store(
                Place::Wake(node),
                NOTIFIED,
                Order::Release,
            ),
            Unpark::Wake { node } => Access::WakeThread(node),
            Unpark::Done => Access::Done,
        }
    }

    fn resume(&mut self, reply: Reply, _hints: &mut Hints) {
        *self =
        match *self {
            Unpark::SetNotified { node } => Unpark::Wake { node },
            Unpark::Wake { .. } => Unpark::Done,
            Unpark::Done => Unpark::Done,
        };
    }
}

impl ThreadParker for Parker {
    type Prepare = Prepare;

    type Park = Park;

    type Unpark = Unpark;

    open spec fn preparation(node: usize) -> Prepare {
        Prepare::SetWaiting { node }
    }

    open spec fn parking(node: usize, timed: bool) -> Park {
        Park::Load { node, timed }
    }

    open spec fn waking(node: usize) -> Unpark {
        Unpark::SetNotified { node }
    }

    open spec fn rest(iteration: usize) -> Rest {
        if iteration <= 3 {
            Rest::Spun
        } else if iteration <= 10 {
            Rest::Pause
        } else {
            Rest::Enough
        }
    }

    open spec fn rest_hints(iteration: usize) -> nat {
        if iteration <= 3 {
            spec_hints(iteration as u8)
        } else {
            0
        }
    }

    fn new() -> (parker: Self)
        ensures
            parker == (Parker { notified: WAITING }),
    {
        Parker { notified: WAITING }
    }

    fn prepare_park(&self, node: usize) -> (prepare: Prepare) {
        Prepare::SetWaiting { node }
    }

    fn park(&self, node: usize) -> (park: Park) {
        Park::Load { node, timed: false }
    }

    fn park_until(&self, node: usize) -> (park: Park) {
        Park::Load { node, timed: true }
    }

    fn unpark(&self, node: usize) -> (unpark: Unpark) {
        Unpark::SetNotified { node }
    }

    fn yield_now(iteration: usize, made: &mut Hints) -> (rest: Rest) {
        if iteration <= 3 {
            spin_round(iteration as u8, made);
            Rest::Spun
        } else if iteration <= 10 {
            Rest::Pause
        } else {
            Rest::Enough
        }
    }
}

/// A parker that was woken does not wait: a park that begins afterwards is over
/// after its first look.
pub proof fn wake_is_kept(node: usize, memory: Shared)
    ensures
        alone(Unpark::SetNotified { node }, memory, 2).0 is Done,
        alone(Park::Load { node, timed: false }, alone(Unpark::SetNotified { node }, memory, 2).1, 1).0 is Done,
{
    reveal_with_fuel(alone, 3);
}

/// A parker that was made ready waits: a park that begins afterwards is not
/// over after its first look.
pub proof fn ready_parker_waits(node: usize, memory: Shared)
    ensures
        !(alone(Park::Load { node, timed: false }, alone(Prepare::SetWaiting { node }, memory, 1).1, 1).0 is Done),
{
    reveal_with_fuel(alone, 2);
}

impl Keeps<Debt> for Unpark {
    open spec fn fits(&self, ledger: Debt) -> bool {
        &&& ledger.taken is None
        &&& match *self {
            Unpark::SetNotified { node } => node == ledger.subject,
            Unpark::Wake { node } => node == ledger.subject && ledger.told == Some(node),
            Unpark::Done => {
                &&& ledger.told == Some(ledger.subject)
                &&& ledger.woken == Some(ledger.subject)
            },
        }
    }

    proof fn goes_on(operation: Self, ledger: Debt, reply: Reply) {
    }

    proof fn obeys(operation: Self, ledger: Debt) {
    }
}

/// An unpark is over only once it has stored the notification and then woken
/// the thread of the parker, so that a park that is blocked meanwhile goes on.
pub proof fn unpark_wakes_the_thread(node: usize, replies: Seq<Reply>)
    requires
        is_course(Unpark::SetNotified { node }, replies),
    ensures
        ({
            let first = Unpark::SetNotified { node };
            let now = point(first, replies, replies.len() as int);
            let debt = ledger(first, replies, Debt::of(node), replies.len() as int);
            &&& debt.allows(now.wants())
            &&& now.wants() is Done ==> {
                &&& debt.told == Some(node)
                &&& debt.woken == Some(node)
            }
        }),
{
    let first = Unpark::SetNotified { node };
    always_allowed(first, replies, Debt::of(node), replies.len() as int);
    terms_stay(first, replies, Debt::of(node), replies.len() as int);
}

impl Keeps<Lookout> for Park {
    open spec fn fits(&self, ledger: Lookout) -> bool {
        &&& ledger.waiting == WAITING
        &&& !ledger.spins
        &&& !ledger.since
        &&& match *self {
            Park::Load { node, timed } => {
                &&& node == ledger.node
                &&& timed == ledger.timed
                &&& ledger.seen is None
                &&& ledger.past is None
            },
            Park::CheckDeadline { node } => {
                &&& node == ledger.node
                &&& ledger.timed
                &&& ledger.seen == Some(WAITING)
                &&& ledger.past is None
            },
            Park::Block { node, timed } => {
                &&& node == ledger.node
                &&& timed == ledger.timed
                &&& ledger.seen == Some(WAITING)
                &&& timed ==> ledger.past == Some(false)
            },
            Park::Done { woken } => {
                &&& ledger.seen is Some
                &&& woken == (ledger.seen != Some(WAITING))
                &&& !woken ==> ledger.timed && ledger.past == Some(true)
            },
        }
    }

    proof fn goes_on(operation: Self, ledger: Lookout, reply: Reply) {
    }

    proof fn obeys(operation: Self, ledger: Lookout) {
    }
}

/// A park is over as woken exactly if it saw that it was notified when it looked
/// last, and as not woken exactly if it saw that it was not and was then told
/// that its deadline has come. It blocks only as long as neither holds.
pub proof fn park_ends_when_notified_or_late(node: usize, timed: bool, replies: Seq<Reply>)
    requires
        is_course(Park::Load { node, timed }, replies),
    ensures
        ({
            let first = Park::Load { node, timed };
            let start = Lookout {
                node,
                waiting: WAITING,
                timed,
                since: false,
                spins: false,
                seen: None,
                past: None,
            };
            let now = point(first, replies, replies.len() as int);
            let lookout = ledger(first, replies, start, replies.len() as int);
            &&& lookout.allows(now.wants())
            &&& now matches Park::Done { woken } ==> {
                &&& lookout.seen is Some
                &&& woken == (lookout.seen != Some(WAITING))
                &&& !woken ==> timed && lookout.past == Some(true)
            }
        }),
{
    let first = Park::Load { node, timed };
    let start = Lookout {
        node,
        waiting: WAITING,
        timed,
        since: false,
        spins: false,
        seen: None,
        past: None,
    };
    always_allowed(first, replies, start, replies.len() as int);
    lookout::terms_stay(first, replies, start, replies.len() as int);
}

impl Keeps<Readiness> for Prepare {
    open spec fn fits(&self, ledger: Readiness) -> bool {
        &&& ledger.keeps == false
        &&& ledger.tells == true
        &&& ledger.waiting == WAITING
        &&& match *self {
            Prepare::SetWaiting { node } => node == ledger.node && !ledger.ready,
            Prepare::Done => ledger.is_complete(),
        }
    }

    proof fn goes_on(operation: Self, ledger: Readiness, reply: Reply) {
    }

    proof fn obeys(operation: Self, ledger: Readiness) {
    }
}

/// A parker says that somebody waits once it has been made ready.
pub proof fn prepared_parker_is_ready(node: usize, replies: Seq<Reply>)
    requires
        is_course(Prepare::SetWaiting { node }, replies),
    ensures
        ({
            let first = Prepare::SetWaiting { node };
            let start = Readiness::begin(node, false, true, WAITING);
            let now = point(first, replies, replies.len() as int);
            let readiness = ledger(first, replies, start, replies.len() as int);
            &&& readiness.allows(now.wants())
            &&& now.wants() is Done ==> readiness.ready || readiness.is_complete()
        }),
{
    let first = Prepare::SetWaiting { node };
    let start = Readiness::begin(node, false, true, WAITING);
    always_allowed(first, replies, start, replies.len() as int);
}

/// Whoever is unparked sees what was done before the unpark.
pub proof fn what_was_done_is_seen(park: Park, unpark: Unpark)
    ensures
        park.wants() matches Access::Load(_, order) ==> acquires(order),
        keeps_the_wake_visible(unpark.wants()),
{
}

} // verus!
