//! A parker that leaves everything to the thread.
use vstd::prelude::*;
use crate::access::{Access, Operation, Reply};
use crate::course::{Keeps, Ledger, always_allowed, is_course, ledger, point};
use crate::debt::{Debt, terms_stay};
use crate::kernel::cpu::Hints;
use crate::lookout::Readiness;

verus! {

/// A way for a thread to wait until another one wakes it.
///
/// A parker is named by an address. Its operations are run by the runtime, like
/// those of the locks.
pub trait ThreadParker: Sized {
    type Prepare: Operation;

    type Park: Operation;

    type Unpark: Operation;

    spec fn preparation(node: usize) -> Self::Prepare;

    spec fn parking(node: usize, timed: bool) -> Self::Park;

    spec fn waking(node: usize) -> Self::Unpark;

    fn new() -> Self;

    /// Begins to make the parker ready for the current thread.
    fn prepare_park(&self, node: usize) -> (prepare: Self::Prepare)
        ensures
            prepare == Self::preparation(node),
            prepare.wf(),
    ;

    /// Begins to wait until the parker is woken.
    fn park(&self, node: usize) -> (park: Self::Park)
        ensures
            park == Self::parking(node, false),
            park.wf(),
    ;

    /// Begins to wait until the parker is woken or a deadline has come.
    fn park_until(&self, node: usize) -> (park: Self::Park)
        ensures
            park == Self::parking(node, true),
            park.wf(),
    ;

    /// Begins to wake the parked thread.
    fn unpark(&self, node: usize) -> (unpark: Self::Unpark)
        ensures
            unpark == Self::waking(node),
            unpark.wf(),
    ;
}

/// A parker that keeps its thread while it waits.
#[derive(Clone, Copy, PartialEq, Eq, Structural, Debug)]
pub struct StdThreadParker;

/// Makes a parker ready.
#[derive(Clone, Copy, PartialEq, Eq, Structural, Debug)]
pub enum Prepare {
    Keep { node: usize },
    Done,
}

impl Operation for Prepare {
    open spec fn wf(&self) -> bool {
        true
    }

    open spec fn wants(&self) -> Access {
        match *self {
            Prepare::Keep { node } => Access::StoreWaker(node),
            Prepare::Done => Access::Done,
        }
    }

    open spec fn expects(&self, reply: Reply) -> bool {
        match *self {
            Prepare::Keep { .. } => true,
            Prepare::Done => false,
        }
    }

    open spec fn after(&self, reply: Reply) -> Self {
        match *self {
            Prepare::Keep { .. } => Prepare::Done,
            Prepare::Done => Prepare::Done,
        }
    }

    fn accepts(&self, reply: Reply) -> (accepted: bool) {
        match *self {
            Prepare::Keep { .. } => true,
            Prepare::Done => false,
        }
    }

    fn access(&self) -> (access: Access) {
        match *self {
            Prepare::Keep { node } => Access::StoreWaker(node),
            Prepare::Done => Access::Done,
        }
    }

    fn resume(&mut self, reply: Reply, _hints: &mut Hints) {
        *self =
        match *self {
            Prepare::Keep { .. } => Prepare::Done,
            Prepare::Done => Prepare::Done,
        };
    }
}

/// Blocks the thread once.
#[derive(Clone, Copy, PartialEq, Eq, Structural, Debug)]
pub enum Park {
    Block { timed: bool },
    Done,
}

impl Operation for Park {
    open spec fn wf(&self) -> bool {
        true
    }

    open spec fn wants(&self) -> Access {
        match *self {
            Park::Block { timed } => if timed {
                Access::ParkUntil
            } else {
                Access::Park
            },
            Park::Done => Access::Done,
        }
    }

    open spec fn expects(&self, reply: Reply) -> bool {
        match *self {
            Park::Block { .. } => true,
            Park::Done => false,
        }
    }

    open spec fn after(&self, reply: Reply) -> Self {
        match *self {
            Park::Block { .. } => Park::Done,
            Park::Done => Park::Done,
        }
    }

    fn accepts(&self, reply: Reply) -> (accepted: bool) {
        match *self {
            Park::Block { .. } => true,
            Park::Done => false,
        }
    }

    fn access(&self) -> (access: Access) {
        match *self {
            Park::Block { timed } => if timed {
                Access::ParkUntil
            } else {
                Access::Park
            },
            Park::Done => Access::Done,
        }
    }

    fn resume(&mut self, reply: Reply, _hints: &mut Hints) {
        *self =
        match *self {
            Park::Block { .. } => Park::Done,
            Park::Done => Park::Done,
        };
    }
}

/// Wakes the thread that keeps a parker.
#[derive(Clone, Copy, PartialEq, Eq, Structural, Debug)]
pub enum Unpark {
    Take { node: usize },
    Wake,
    Done,
}

impl Operation for Unpark {
    open spec fn wf(&self) -> bool {
        true
    }

    open spec fn wants(&self) -> Access {
        match *self {
            Unpark::Take { node } => Access::TakeWaker(node),
            Unpark::Wake => Access::Wake,
            Unpark::Done => Access::Done,
        }
    }

    /// The parker was made ready.
    open spec fn expects(&self, reply: Reply) -> bool {
        match *self {
            Unpark::Take { .. } => reply.ok,
            Unpark::Done => false,
            _ => true,
        }
    }

    open spec fn after(&self, reply: Reply) -> Self {
        match *self {
            Unpark::Take { .. } => Unpark::Wake,
            Unpark::Wake => Unpark::Done,
            Unpark::Done => Unpark::Done,
        }
    }

    fn accepts(&self, reply: Reply) -> (accepted: bool) {
        match *self {
            Unpark::Take { .. } => reply.ok,
            Unpark::Done => false,
            _ => true,
        }
    }

    fn access(&self) -> (access: Access) {
        match *self {
            Unpark::Take { node } => Access::TakeWaker(node),
            Unpark::Wake => Access::Wake,
            Unpark::Done => Access::Done,
        }
    }

    fn resume(&mut self, reply: Reply, _hints: &mut Hints) {
        *self =
        match *self {
            Unpark::Take { .. } => Unpark::Wake,
            Unpark::Wake => Unpark::Done,
            Unpark::Done => Unpark::Done,
        };
    }
}

impl ThreadParker for StdThreadParker {
    type Prepare = Prepare;

    type Park = Park;

    type Unpark = Unpark;

    open spec fn preparation(node: usize) -> Prepare {
        Prepare::Keep { node }
    }

    open spec fn parking(node: usize, timed: bool) -> Park {
        Park::Block { timed }
    }

    open spec fn waking(node: usize) -> Unpark {
        Unpark::Take { node }
    }

    fn new() -> (parker: Self)
        ensures
            parker == StdThreadParker,
    {
        StdThreadParker
    }

    fn prepare_park(&self, node: usize) -> (prepare: Prepare) {
        Prepare::Keep { node }
    }

    fn park(&self, node: usize) -> (park: Park) {
        Park::Block { timed: false }
    }

    fn park_until(&self, node: usize) -> (park: Park) {
        Park::Block { timed: true }
    }

    fn unpark(&self, node: usize) -> (unpark: Unpark) {
        Unpark::Take { node }
    }
}

impl Keeps<Debt> for Unpark {
    open spec fn fits(&self, ledger: Debt) -> bool {
        &&& ledger.told == Some(ledger.subject)
        &&& match *self {
            Unpark::Take { node } => ledger.taken is None && node == ledger.subject,
            Unpark::Wake => ledger.taken == Some(ledger.subject),
            Unpark::Done => ledger.taken is None && ledger.woken == Some(ledger.subject),
        }
        &&& !ledger.missed
    }

    proof fn goes_on(operation: Self, ledger: Debt, reply: Reply) {
    }

    proof fn obeys(operation: Self, ledger: Debt) {
    }
}

/// An unpark is over only once it has taken the thread of the parker and woken
/// it. It takes no thread where there is none. The parker keeps no state that
/// would have to be told first.
pub proof fn unpark_wakes_the_thread(node: usize, replies: Seq<Reply>)
    requires
        is_course(Unpark::Take { node }, replies),
    ensures
        ({
            let first = Unpark::Take { node };
            let start = Debt { told: Some(node), ..Debt::of(node) };
            let now = point(first, replies, replies.len() as int);
            let debt = ledger(first, replies, start, replies.len() as int);
            &&& debt.allows(now.wants())
            &&& !debt.missed
            &&& now.wants() is Done ==> debt.woken == Some(node)
        }),
{
    let first = Unpark::Take { node };
    let start = Debt { told: Some(node), ..Debt::of(node) };
    always_allowed(first, replies, start, replies.len() as int);
    terms_stay(first, replies, start, replies.len() as int);
}

impl Keeps<Readiness> for Prepare {
    open spec fn fits(&self, ledger: Readiness) -> bool {
        &&& ledger.keeps == true
        &&& ledger.tells == false
        &&& ledger.waiting == 0
        &&& match *self {
            Prepare::Keep { node } => node == ledger.node && !ledger.ready,
            Prepare::Done => ledger.is_complete(),
        }
    }

    proof fn goes_on(operation: Self, ledger: Readiness, reply: Reply) {
    }

    proof fn obeys(operation: Self, ledger: Readiness) {
    }
}

/// Whoever makes a parker ready can be woken by it then.
pub proof fn prepared_parker_is_ready(node: usize, replies: Seq<Reply>)
    requires
        is_course(Prepare::Keep { node }, replies),
    ensures
        ({
            let first = Prepare::Keep { node };
            let start = Readiness::begin(node, true, false, 0);
            let now = point(first, replies, replies.len() as int);
            let readiness = ledger(first, replies, start, replies.len() as int);
            &&& readiness.allows(now.wants())
            &&& now.wants() is Done ==> readiness.ready || readiness.is_complete()
        }),
{
    let first = Prepare::Keep { node };
    let start = Readiness::begin(node, true, false, 0);
    always_allowed(first, replies, start, replies.len() as int);
}

} // verus!
