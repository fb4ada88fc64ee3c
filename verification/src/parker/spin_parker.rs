//! A parker that waits in place.
use vstd::prelude::*;
use crate::access::{Access, Operation, Order, Place, Reply};
use crate::course::{Keeps, Ledger, always_allowed, is_course, ledger, point};
use crate::debt::{Debt, terms_stay};
use crate::kernel::cpu::{Hints, spin_loop_hint};
use crate::lookout::{Lookout, Readiness};
use crate::memory::{Shared, alone};
use crate::parker::{Parker, Rest};
use crate::visibility::{acquires, keeps_the_wake_visible};

verus! {

/// Nobody has woken the parker.
pub const WAITING: usize = 0;

/// The parker was woken.
pub const NOTIFIED: usize = 1;

/// The state of a parker that nobody has woken yet.
#[derive(Clone, Copy, PartialEq, Eq, Structural, Debug)]
pub struct SpinParker {
    pub notified: usize,
}

/// Makes a parker ready.
#[derive(Clone, Copy, PartialEq, Eq, Structural, Debug)]
pub enum Prepare {
    SetWaiting { node: usize },
    Done,
}

impl Operation for Prepare {
    open spec fn wf(&self) -> bool {
        true
    }

    open spec fn wants(&self) -> Access {
        match *self {
            Prepare::SetWaiting { node } => Access::Store(Place::Wake(node), WAITING, Order::Relaxed),
            Prepare::Done => Access::Done,
        }
    }

    open spec fn expects(&self, reply: Reply) -> bool {
        match *self {
            Prepare::SetWaiting { .. } => true,
            Prepare::Done => false,
        }
    }

    open spec fn after(&self, reply: Reply) -> Self {
        match *self {
            Prepare::SetWaiting { .. } => Prepare::Done,
            Prepare::Done => Prepare::Done,
        }
    }

    fn accepts(&self, reply: Reply) -> (accepted: bool) {
        match *self {
            Prepare::SetWaiting { .. } => true,
            Prepare::Done => false,
        }
    }

    fn access(&self) -> (access: Access) {
        match *self {
            Prepare::SetWaiting { node } => Access::Store(Place::Wake(node), WAITING, Order::Relaxed),
            Prepare::Done => Access::Done,
        }
    }

    fn resume(&mut self, reply: Reply, _hints: &mut Hints) {
        *self =
        match *self {
            Prepare::SetWaiting { .. } => Prepare::Done,
            Prepare::Done => Prepare::Done,
        };
    }
}

/// Waits in place until a parker is woken.
#[derive(Clone, Copy, PartialEq, Eq, Structural, Debug)]
pub enum Park {
    Load { node: usize },
    Done,
}

impl Operation for Park {
    open spec fn wf(&self) -> bool {
        true
    }

    open spec fn wants(&self) -> Access {
        match *self {
            Park::Load { node } => Access::Load(Place::Wake(node), Order::Acquire),
            Park::Done => Access::Done,
        }
    }

    open spec fn expects(&self, reply: Reply) -> bool {
        match *self {
            Park::Load { .. } => true,
            Park::Done => false,
        }
    }

    open spec fn after(&self, reply: Reply) -> Self {
        match *self {
            Park::Load { node } => if reply.value == WAITING {
                Park::Load { node }
            } else {
                Park::Done
            },
            Park::Done => Park::Done,
        }
    }

    open spec fn hints(&self, reply: Reply) -> nat {
        if self is Load && reply.value == WAITING {
            1
        } else {
            0
        }
    }

    fn accepts(&self, reply: Reply) -> (accepted: bool) {
        match *self {
            Park::Load { .. } => true,
            Park::Done => false,
        }
    }

    fn access(&self) -> (access: Access) {
        match *self {
            Park::Load { node } => Access::Load(Place::Wake(node), Order::Acquire),
            Park::Done => Access::Done,
        }
    }

    fn resume(&mut self, reply: Reply, hints: &mut Hints) {
        *self =
        match *self {
            Park::Load { node } => if reply.value == WAITING {
                spin_loop_hint(hints);
                Park::Load { node }
            } else {
                Park::Done
            },
            Park::Done => Park::Done,
        };
    }
}

/// Wakes a parker.
#[derive(Clone, Copy, PartialEq, Eq, Structural, Debug)]
pub enum Unpark {
    SetNotified { node: usize },
    Done,
}

impl Operation for Unpark {
    open spec fn wf(&self) -> bool {
        true
    }

    open spec fn wants(&self) -> Access {
        match *self {
            Unpark::SetNotified { node } => Access::Store(
                Place::Wake(node),
                NOTIFIED,
                Order::Release,
            ),
            Unpark::Done => Access::Done,
        }
    }

    open spec fn expects(&self, reply: Reply) -> bool {
        match *self {
            Unpark::SetNotified { .. } => true,
            Unpark::Done => false,
        }
    }

    open spec fn after(&self, reply: Reply) -> Self {
        match *self {
            Unpark::SetNotified { .. } => Unpark::Done,
            Unpark::Done => Unpark::Done,
        }
    }

    fn accepts(&self, reply: Reply) -> (accepted: bool) {
        match *self {
            Unpark::SetNotified { .. } => true,
            Unpark::Done => false,
        }
    }

    fn access(&self) -> (access: Access) {
        match *self {
            Unpark::SetNotified { node } => Access::Store(
                Place::Wake(node),
                NOTIFIED,
                Order::Release,
            ),
            Unpark::Done => Access::Done,
        }
    }

    fn resume(&mut self, reply: Reply, _hints: &mut Hints) {
        *self =
        match *self {
            Unpark::SetNotified { .. } => Unpark::Done,
            Unpark::Done => Unpark::Done,
        };
    }
}

impl Parker for SpinParker {
    type Prepare = Prepare;

    type Park = Park;

    type Unpark = Unpark;

    open spec fn preparation(node: usize) -> Prepare {
        Prepare::SetWaiting { node }
    }

    open spec fn parking(node: usize, timed: bool) -> Park {
        Park::Load { node }
    }

    open spec fn waking(node: usize) -> Unpark {
        Unpark::SetNotified { node }
    }

    open spec fn rest(iteration: usize) -> Rest {
        Rest::Enough
    }

    open spec fn rest_hints(iteration: usize) -> nat {
        1
    }

    fn new() -> (parker: Self)
        ensures
            parker == (SpinParker { notified: WAITING }),
    {
        SpinParker { notified: WAITING }
    }

    fn prepare(&self, node: usize) -> (prepare: Prepare) {
        Prepare::SetWaiting { node }
    }

    fn park(&self, node: usize) -> (park: Park) {
        Park::Load { node }
    }

    fn park_until(&self, node: usize) -> (park: Park) {
        Park::Load { node }
    }

    fn unpark(&self, node: usize) -> (unpark: Unpark) {
        Unpark::SetNotified { node }
    }

    fn yield_now(iteration: usize, made: &mut Hints) -> (rest: Rest) {
        spin_loop_hint(made);
        Rest::Enough
    }
}

impl Default for SpinParker {
    fn default() -> (parker: Self)
        ensures
            parker.notified == WAITING,
    {
        SpinParker { notified: WAITING }
    }
}

/// A time of a clock that does not run. Two such times are equal, and neither
/// comes before the other or after it.
#[derive(Clone, Copy, PartialEq, Structural, Debug)]
pub struct SpinInstant {}

impl SpinInstant {
    pub open spec fn spec_now() -> Self {
        SpinInstant {  }
    }

    #[verifier::when_used_as_spec(spec_now)]
    pub fn now() -> (now: Self)
        ensures
            now == Self::spec_now(),
    {
        SpinInstant {  }
    }

    /// The time this many nanoseconds later: the same.
    pub fn later(self, nanos: u64) -> (later: Self)
        ensures
            later == self,
    {
        self
    }
}

impl PartialOrd for SpinInstant {
    fn partial_cmp(&self, other: &Self) -> (order: Option<std::cmp::Ordering>) {
        None
    }
}

impl vstd::std_specs::cmp::PartialOrdSpecImpl for SpinInstant {
    open spec fn obeys_partial_cmp_spec() -> bool {
        true
    }

    open spec fn partial_cmp_spec(&self, other: &Self) -> Option<std::cmp::Ordering> {
        None
    }
}

impl Default for SpinInstant {
    fn default() -> (now: Self)
        ensures
            now == Self::spec_now(),
    {
        SpinInstant {  }
    }
}

/// A parker that was woken does not wait: a park that begins afterwards is over
/// after its first look.
pub proof fn wake_is_kept(node: usize, memory: Shared)
    ensures
        alone(Unpark::SetNotified { node }, memory, 1).0 is Done,
        alone(Park::Load { node }, alone(Unpark::SetNotified { node }, memory, 1).1, 1).0 is Done,
{
    reveal_with_fuel(alone, 2);
}

/// A parker that was made ready waits: a park that begins afterwards is not
/// over after its first look.
pub proof fn ready_parker_waits(node: usize, memory: Shared)
    ensures
        !(alone(Park::Load { node }, alone(Prepare::SetWaiting { node }, memory, 1).1, 1).0 is Done),
{
    reveal_with_fuel(alone, 2);
}

impl Keeps<Debt> for Unpark {
    open spec fn fits(&self, ledger: Debt) -> bool {
        &&& ledger.taken is None
        &&& match *self {
            Unpark::SetNotified { node } => node == ledger.subject,
            Unpark::Done => ledger.told == Some(ledger.subject),
        }
    }

    proof fn goes_on(operation: Self, ledger: Debt, reply: Reply) {
    }

    proof fn obeys(operation: Self, ledger: Debt) {
    }
}

/// An unpark is over only once it has stored the notification.
pub proof fn unpark_tells_the_parker(node: usize, replies: Seq<Reply>)
    requires
        is_course(Unpark::SetNotified { node }, replies),
    ensures
        ({
            let first = Unpark::SetNotified { node };
            let now = point(first, replies, replies.len() as int);
            let debt = ledger(first, replies, Debt::of(node), replies.len() as int);
            &&& debt.allows(now.wants())
            &&& now.wants() is Done ==> debt.told == Some(node)
        }),
{
    let first = Unpark::SetNotified { node };
    always_allowed(first, replies, Debt::of(node), replies.len() as int);
    terms_stay(first, replies, Debt::of(node), replies.len() as int);
}

impl Keeps<Lookout> for Park {
    open spec fn fits(&self, ledger: Lookout) -> bool {
        &&& ledger.waiting == WAITING
        &&& !ledger.timed
        &&& ledger.spins
        &&& match *self {
            Park::Load { node } => {
                &&& node == ledger.node
                &&& ledger.seen is None || ledger.seen == Some(WAITING)
            },
            Park::Done => ledger.seen is Some && ledger.seen != Some(WAITING),
        }
    }

    proof fn goes_on(operation: Self, ledger: Lookout, reply: Reply) {
    }

    proof fn obeys(operation: Self, ledger: Lookout) {
    }
}

/// A park is over exactly once it sees that it was notified. Until then it looks
/// again, after one hint that it spins.
pub proof fn park_ends_when_notified(node: usize, replies: Seq<Reply>, reply: Reply)
    requires
        is_course(Park::Load { node }, replies),
    ensures
        ({
            let first = Park::Load { node };
            let start = Lookout {
                node,
                waiting: WAITING,
                timed: false,
                since: false,
                spins: true,
                seen: None,
                past: None,
            };
            let now = point(first, replies, replies.len() as int);
            let lookout = ledger(first, replies, start, replies.len() as int);
            &&& lookout.allows(now.wants())
            &&& now.wants() is Done <==> lookout.seen is Some && lookout.seen != Some(WAITING)
            &&& !(now.wants() is Done) ==> now.hints(reply) == if reply.value == WAITING {
                1nat
            } else {
                0
            }
        }),
{
    let first = Park::Load { node };
    let start = Lookout {
        node,
        waiting: WAITING,
        timed: false,
        since: false,
        spins: true,
        seen: None,
        past: None,
    };
    always_allowed(first, replies, start, replies.len() as int);
}

impl Keeps<Readiness> for Prepare {
    open spec fn fits(&self, ledger: Readiness) -> bool {
        &&& ledger.keeps == false
        &&& ledger.tells == true
        &&& ledger.waiting == WAITING
        &&& match *self {
            Prepare::SetWaiting { node } => node == ledger.node && !ledger.ready,
            Prepare::Done => ledger.is_complete(),
        }
    }

    proof fn goes_on(operation: Self, ledger: Readiness, reply: Reply) {
    }

    proof fn obeys(operation: Self, ledger: Readiness) {
    }
}

/// A parker says that somebody waits once it has been made ready.
pub proof fn prepared_parker_is_ready(node: usize, replies: Seq<Reply>)
    requires
        is_course(Prepare::SetWaiting { node }, replies),
    ensures
        ({
            let first = Prepare::SetWaiting { node };
            let start = Readiness::begin(node, false, true, WAITING);
            let now = point(first, replies, replies.len() as int);
            let readiness = ledger(first, replies, start, replies.len() as int);
            &&& readiness.allows(now.wants())
            &&& now.wants() is Done ==> readiness.ready || readiness.is_complete()
        }),
{
    let first = Prepare::SetWaiting { node };
    let start = Readiness::begin(node, false, true, WAITING);
    always_allowed(first, replies, start, replies.len() as int);
}

/// Whoever is unparked sees what was done before the unpark.
pub proof fn what_was_done_is_seen(park: Park, unpark: Unpark)
    ensures
        park.wants() matches Access::Load(_, order) ==> acquires(order),
        keeps_the_wake_visible(unpark.wants()),
{
}

} // verus!
