//! A cell through which one task waits and another wakes it with a token.
use vstd::prelude::*;
use crate::access::{Access, Operation, Order, Place, Reply};
use crate::course::{Keeps, Ledger, always_allowed, is_course, ledger, point};
use crate::debt::Debt;
use crate::kernel::cpu::Hints;
use crate::lookout::Readiness;
use crate::meeting::{Meeting, Scene, always_agree, play};
use crate::memory::{Shared, alone, at};
use crate::owners::CellOwners;
use crate::renewal::Renewal;
use crate::visibility::{keeps_the_wake_visible, keeps_the_waker_visible};

verus! {

/// Nobody waits.
pub const EMPTY: usize = 0;

/// The waker is ready to be taken.
pub const WAITING: usize = 1;

/// The waiting task is replacing its waker.
pub const UPDATING: usize = 2;

/// The waker is being taken.
pub const NOTIFYING: usize = 3;

/// The task was woken; the token stands above the lowest three bits.
pub const NOTIFIED: usize = 4;

/// The largest token.
pub const MAX_TOKEN: usize = usize::MAX / 8;

/// The state of a cell that nobody has used yet.
#[derive(Clone, Copy, PartialEq, Eq, Structural, Debug)]
pub struct AsyncParker {
    pub state: usize,
}

pub open spec fn spec_notified(token: usize) -> usize {
    (4 + 8 * token) as usize
}

/// The state that carries a token.
#[verifier::when_used_as_spec(spec_notified)]
pub fn notified(token: usize) -> (state: usize)
    requires
        token <= MAX_TOKEN,
    ensures
        state == spec_notified(token),
{
    let most: usize = usize::MAX;
    assert(4usize | (token << 3) == (4 + 8 * token) as usize) by (bit_vector)
        requires
            4 + 8 * token <= most,
    ;
    NOTIFIED | (token << 3)
}

/// What a task learns by parking.
#[derive(Clone, Copy, PartialEq, Eq, Structural, Debug)]
pub enum Parked {
    Pending,
    Ready(usize),
}

/// Makes the cell of `node` ready to park by.
#[derive(Clone, Copy, PartialEq, Eq, Structural, Debug)]
pub struct Prepare {
    pub node: usize,
    pub step: PrepareStep,
}

#[derive(Clone, Copy, PartialEq, Eq, Structural, Debug)]
pub enum PrepareStep {
    Load,
    SetWaker,
    SetWaiting,
    Done,
}

/// Parks by the cell of `node`.
#[derive(Clone, Copy, PartialEq, Eq, Structural, Debug)]
pub struct Park {
    pub node: usize,
    pub step: ParkStep,
}

#[derive(Clone, Copy, PartialEq, Eq, Structural, Debug)]
pub enum ParkStep {
    Load,
    BeginUpdate,
    DropWaker,
    ReplaceWaker,
    EndUpdate,
    /// Drops a waker that came too late to be taken.
    DropLate { state: usize },
    Done { result: Parked },
}

/// Wakes the task that parks by the cell of `node`, with a token. `took` says
/// whether the waker was taken and is left to the caller to wake.
#[derive(Clone, Copy, PartialEq, Eq, Structural, Debug)]
pub struct Unpark {
    pub node: usize,
    pub token: usize,
    pub step: UnparkStep,
}

#[derive(Clone, Copy, PartialEq, Eq, Structural, Debug)]
pub enum UnparkStep {
    Load,
    BeginNotify,
    Interrupt,
    Take,
    SetNotified,
    Done { took: bool },
}

impl AsyncParker {
    pub fn new() -> (parker: Self)
        ensures
            parker.state == EMPTY,
    {
        AsyncParker { state: EMPTY }
    }

    /// Begins to make the cell ready.
    pub fn prepare_park(node: usize) -> (prepare: Prepare)
        ensures
            prepare == (Prepare { node, step: PrepareStep::Load }),
            prepare.wf(),
    {
        Prepare { node, step: PrepareStep::Load }
    }

    /// Begins to park.
    pub fn park(node: usize) -> (park: Park)
        ensures
            park == (Park { node, step: ParkStep::Load }),
            park.wf(),
    {
        Park { node, step: ParkStep::Load }
    }

    /// Begins to wake the parked task.
    pub fn unpark(node: usize, token: usize) -> (unpark: Unpark)
        requires
            token <= MAX_TOKEN,
        ensures
            unpark == (Unpark { node, token, step: UnparkStep::Load }),
            unpark.wf(),
    {
        Unpark { node, token, step: UnparkStep::Load }
    }
}

impl Operation for Prepare {
    open spec fn wf(&self) -> bool {
        true
    }

    open spec fn wants(&self) -> Access {
        match self.step {
            PrepareStep::Load => Access::Load(Place::Wake(self.node), Order::Relaxed),
            PrepareStep::SetWaker => Access::StoreWaker(self.node),
            PrepareStep::SetWaiting => Access::Store(
                Place::Wake(self.node),
                WAITING,
                Order::Relaxed,
            ),
            PrepareStep::Done => Access::Done,
        }
    }

    /// No waker is in use while the cell is made ready.
    open spec fn expects(&self, reply: Reply) -> bool {
        match self.step {
            PrepareStep::Load => reply.value % 8 == EMPTY || reply.value % 8 == NOTIFIED
                || reply.value % 8 == WAITING,
            PrepareStep::Done => false,
            _ => true,
        }
    }

    open spec fn after(&self, reply: Reply) -> Self {
        let step = match self.step {
            PrepareStep::Load => if reply.value % 8 == WAITING {
                PrepareStep::Done
            } else {
                PrepareStep::SetWaker
            },
            PrepareStep::SetWaker => PrepareStep::SetWaiting,
            PrepareStep::SetWaiting => PrepareStep::Done,
            PrepareStep::Done => PrepareStep::Done,
        };
        Prepare { step, ..*self }
    }

    fn accepts(&self, reply: Reply) -> (accepted: bool) {
        match self.step {
            PrepareStep::Load => reply.value % 8 == EMPTY || reply.value % 8 == NOTIFIED
                || reply.value % 8 == WAITING,
            PrepareStep::Done => false,
            _ => true,
        }
    }

    fn access(&self) -> (access: Access) {
        match self.step {
            PrepareStep::Load => Access::Load(Place::Wake(self.node), Order::Relaxed),
            PrepareStep::SetWaker => Access::StoreWaker(self.node),
            PrepareStep::SetWaiting => Access::Store(
                Place::Wake(self.node),
                WAITING,
                Order::Relaxed,
            ),
            PrepareStep::Done => Access::Done,
        }
    }

    fn resume(&mut self, reply: Reply, _hints: &mut Hints) {
        self.step =
        match self.step {
            PrepareStep::Load => if reply.value % 8 == WAITING {
                PrepareStep::Done
            } else {
                PrepareStep::SetWaker
            },
            PrepareStep::SetWaker => PrepareStep::SetWaiting,
            PrepareStep::SetWaiting => PrepareStep::Done,
            PrepareStep::Done => PrepareStep::Done,
        };
    }
}

pub open spec fn spec_look(state: usize) -> ParkStep {
    if state % 8 == WAITING {
        ParkStep::BeginUpdate
    } else if state % 8 == NOTIFYING {
        ParkStep::Done { result: Parked::Pending }
    } else {
        ParkStep::Done { result: Parked::Ready(state / 8) }
    }
}

/// How a parking task goes on from a state.
#[verifier::when_used_as_spec(spec_look)]
pub fn look(state: usize) -> (step: ParkStep)
    requires
        state % 8 == WAITING || state % 8 == NOTIFYING || state % 8 == NOTIFIED,
    ensures
        step == spec_look(state),
{
    if state % 8 == WAITING {
        ParkStep::BeginUpdate
    } else if state % 8 == NOTIFYING {
        ParkStep::Done { result: Parked::Pending }
    } else {
        ParkStep::Done { result: Parked::Ready(state / 8) }
    }
}

impl Operation for Park {
    open spec fn wf(&self) -> bool {
        self.step matches ParkStep::DropLate { state } ==> state % 8 == NOTIFIED
    }

    open spec fn wants(&self) -> Access {
        match self.step {
            ParkStep::Load => Access::Load(Place::Wake(self.node), Order::Relaxed),
            ParkStep::BeginUpdate => Access::CompareExchangeWeak(
                Place::Wake(self.node),
                WAITING,
                UPDATING,
                Order::Acquire,
                Order::Relaxed,
            ),
            ParkStep::DropWaker => Access::DropWaker(self.node),
            ParkStep::ReplaceWaker => Access::StoreWaker(self.node),
            ParkStep::EndUpdate => Access::CompareExchange(
                Place::Wake(self.node),
                UPDATING,
                WAITING,
                Order::AcqRel,
                Order::Acquire,
            ),
            ParkStep::DropLate { .. } => Access::DropWaker(self.node),
            ParkStep::Done { .. } => Access::Done,
        }
    }

    /// The cell was made ready, one task parks by it, and nobody takes a waker
    /// that is being replaced.
    open spec fn expects(&self, reply: Reply) -> bool {
        match self.step {
            ParkStep::Load => reply.value % 8 == WAITING || reply.value % 8 == NOTIFYING
                || reply.value % 8 == NOTIFIED,
            ParkStep::BeginUpdate => reply.ok || reply.value % 8 == WAITING || reply.value % 8
                == NOTIFYING || reply.value % 8 == NOTIFIED,
            ParkStep::EndUpdate => reply.ok || reply.value % 8 == NOTIFIED,
            ParkStep::Done { .. } => false,
            _ => true,
        }
    }

    open spec fn after(&self, reply: Reply) -> Self {
        let step = match self.step {
            ParkStep::Load => look(reply.value),
            ParkStep::BeginUpdate => if reply.ok {
                ParkStep::DropWaker
            } else {
                look(reply.value)
            },
            ParkStep::DropWaker => ParkStep::ReplaceWaker,
            ParkStep::ReplaceWaker => ParkStep::EndUpdate,
            ParkStep::EndUpdate => if reply.ok {
                ParkStep::Done { result: Parked::Pending }
            } else {
                ParkStep::DropLate { state: reply.value }
            },
            ParkStep::DropLate { state } => look(state),
            ParkStep::Done { result } => ParkStep::Done { result },
        };
        Park { step, ..*self }
    }

    fn accepts(&self, reply: Reply) -> (accepted: bool) {
        match self.step {
            ParkStep::Load => reply.value % 8 == WAITING || reply.value % 8 == NOTIFYING
                || reply.value % 8 == NOTIFIED,
            ParkStep::BeginUpdate => reply.ok || reply.value % 8 == WAITING || reply.value % 8
                == NOTIFYING || reply.value % 8 == NOTIFIED,
            ParkStep::EndUpdate => reply.ok || reply.value % 8 == NOTIFIED,
            ParkStep::Done { .. } => false,
            _ => true,
        }
    }

    fn access(&self) -> (access: Access) {
        match self.step {
            ParkStep::Load => Access::Load(Place::Wake(self.node), Order::Relaxed),
            ParkStep::BeginUpdate => Access::CompareExchangeWeak(
                Place::Wake(self.node),
                WAITING,
                UPDATING,
                Order::Acquire,
                Order::Relaxed,
            ),
            ParkStep::DropWaker => Access::DropWaker(self.node),
            ParkStep::ReplaceWaker => Access::StoreWaker(self.node),
            ParkStep::EndUpdate => Access::CompareExchange(
                Place::Wake(self.node),
                UPDATING,
                WAITING,
                Order::AcqRel,
                Order::Acquire,
            ),
            ParkStep::DropLate { .. } => Access::DropWaker(self.node),
            ParkStep::Done { .. } => Access::Done,
        }
    }

    fn resume(&mut self, reply: Reply, _hints: &mut Hints) {
        self.step =
        match self.step {
            ParkStep::Load => look(reply.value),
            ParkStep::BeginUpdate => if reply.ok {
                ParkStep::DropWaker
            } else {
                look(reply.value)
            },
            ParkStep::DropWaker => ParkStep::ReplaceWaker,
            ParkStep::ReplaceWaker => ParkStep::EndUpdate,
            ParkStep::EndUpdate => if reply.ok {
                ParkStep::Done { result: Parked::Pending }
            } else {
                ParkStep::DropLate { state: reply.value }
            },
            ParkStep::DropLate { state } => look(state),
            ParkStep::Done { result } => ParkStep::Done { result },
        };
    }
}

pub open spec fn spec_notify(state: usize) -> UnparkStep {
    if state % 8 == WAITING {
        UnparkStep::BeginNotify
    } else {
        UnparkStep::Interrupt
    }
}

/// How a waking thread goes on from a state.
#[verifier::when_used_as_spec(spec_notify)]
pub fn notify(state: usize) -> (step: UnparkStep)
    requires
        state % 8 == WAITING || state % 8 == UPDATING,
    ensures
        step == spec_notify(state),
{
    if state % 8 == WAITING {
        UnparkStep::BeginNotify
    } else {
        UnparkStep::Interrupt
    }
}

impl Operation for Unpark {
    open spec fn wf(&self) -> bool {
        self.token <= MAX_TOKEN
    }

    open spec fn wants(&self) -> Access {
        match self.step {
            UnparkStep::Load => Access::Load(Place::Wake(self.node), Order::Relaxed),
            UnparkStep::BeginNotify => Access::CompareExchangeWeak(
                Place::Wake(self.node),
                WAITING,
                NOTIFYING,
                Order::Acquire,
                Order::Relaxed,
            ),
            UnparkStep::Interrupt => Access::CompareExchangeWeak(
                Place::Wake(self.node),
                UPDATING,
                notified(self.token),
                Order::Relaxed,
                Order::Relaxed,
            ),
            UnparkStep::Take => Access::TakeWaker(self.node),
            UnparkStep::SetNotified => Access::Store(
                Place::Wake(self.node),
                notified(self.token),
                Order::Release,
            ),
            UnparkStep::Done { .. } => Access::Done,
        }
    }

    /// Somebody waits, and only one thread wakes.
    open spec fn expects(&self, reply: Reply) -> bool {
        match self.step {
            UnparkStep::Load => reply.value % 8 == WAITING || reply.value % 8 == UPDATING,
            UnparkStep::BeginNotify | UnparkStep::Interrupt => reply.ok || reply.value % 8
                == WAITING || reply.value % 8 == UPDATING,
            UnparkStep::Take => reply.ok,
            UnparkStep::Done { .. } => false,
            _ => true,
        }
    }

    open spec fn after(&self, reply: Reply) -> Self {
        let step = match self.step {
            UnparkStep::Load => notify(reply.value),
            UnparkStep::BeginNotify => if reply.ok {
                UnparkStep::Take
            } else {
                notify(reply.value)
            },
            UnparkStep::Interrupt => if reply.ok {
                UnparkStep::Done { took: false }
            } else {
                notify(reply.value)
            },
            UnparkStep::Take => UnparkStep::SetNotified,
            UnparkStep::SetNotified => UnparkStep::Done { took: true },
            UnparkStep::Done { took } => UnparkStep::Done { took },
        };
        Unpark { step, ..*self }
    }

    fn accepts(&self, reply: Reply) -> (accepted: bool) {
        match self.step {
            UnparkStep::Load => reply.value % 8 == WAITING || reply.value % 8 == UPDATING,
            UnparkStep::BeginNotify | UnparkStep::Interrupt => reply.ok || reply.value % 8
                == WAITING || reply.value % 8 == UPDATING,
            UnparkStep::Take => reply.ok,
            UnparkStep::Done { .. } => false,
            _ => true,
        }
    }

    fn access(&self) -> (access: Access) {
        match self.step {
            UnparkStep::Load => Access::Load(Place::Wake(self.node), Order::Relaxed),
            UnparkStep::BeginNotify => Access::CompareExchangeWeak(
                Place::Wake(self.node),
                WAITING,
                NOTIFYING,
                Order::Acquire,
                Order::Relaxed,
            ),
            UnparkStep::Interrupt => Access::CompareExchangeWeak(
                Place::Wake(self.node),
                UPDATING,
                notified(self.token),
                Order::Relaxed,
                Order::Relaxed,
            ),
            UnparkStep::Take => Access::TakeWaker(self.node),
            UnparkStep::SetNotified => Access::Store(
                Place::Wake(self.node),
                notified(self.token),
                Order::Release,
            ),
            UnparkStep::Done { .. } => Access::Done,
        }
    }

    fn resume(&mut self, reply: Reply, _hints: &mut Hints) {
        self.step =
        match self.step {
            UnparkStep::Load => notify(reply.value),
            UnparkStep::BeginNotify => if reply.ok {
                UnparkStep::Take
            } else {
                notify(reply.value)
            },
            UnparkStep::Interrupt => if reply.ok {
                UnparkStep::Done { took: false }
            } else {
                notify(reply.value)
            },
            UnparkStep::Take => UnparkStep::SetNotified,
            UnparkStep::SetNotified => UnparkStep::Done { took: true },
            UnparkStep::Done { took } => UnparkStep::Done { took },
        };
    }
}


/// A park and an unpark, as [`crate::meeting`] speaks of them: no reply comes
/// that either does not expect, [`crate::meeting::every_reply_is_expected`].
pub struct Cell;

impl Meeting for Cell {
    type Wait = Park;

    type Notify = Unpark;

    /// The cell was made ready, and nobody has woken the task yet.
    open spec fn begins(memory: Shared, wait: Park, notify: Unpark) -> bool {
        &&& wait.wf()
        &&& notify.wf()
        &&& wait.node == notify.node
        &&& wait.step is Load
        &&& notify.step is Load
        &&& at(memory, Place::Wake(wait.node)) == WAITING
        &&& (memory.wakers)(wait.node)
    }

    /// A task that was told to wait polls again when it is run again.
    open spec fn waits_again(wait: Park, next: Park) -> bool {
        &&& wait.step == (ParkStep::Done { result: Parked::Pending })
        &&& next == (Park { step: ParkStep::Load, ..wait })
    }

    open spec fn agree(memory: Shared, wait: Park, notify: Unpark) -> bool {
        let state = at(memory, Place::Wake(wait.node));
        let waker = (memory.wakers)(wait.node);
        let notified = notified(notify.token);
        &&& wait.wf()
        &&& notify.wf()
        &&& wait.node == notify.node
        // How far the notifying thread is.
        &&& match notify.step {
            UnparkStep::Load
            | UnparkStep::BeginNotify
            | UnparkStep::Interrupt => state == WAITING || state == UPDATING,
            UnparkStep::Take => state == NOTIFYING && waker,
            UnparkStep::SetNotified => state == NOTIFYING,
            UnparkStep::Done { .. } => state == notified,
        }
        // How far the waiting task is.
        &&& match wait.step {
            ParkStep::Load | ParkStep::BeginUpdate => state != UPDATING && (state == WAITING
                ==> waker),
            ParkStep::DropWaker | ParkStep::ReplaceWaker => state == UPDATING || notify.step
                == (UnparkStep::Done { took: false }),
            ParkStep::EndUpdate => waker && (state == UPDATING || notify.step
                == (UnparkStep::Done { took: false })),
            ParkStep::DropLate { state: seen } => seen == notified && notify.step
                == (UnparkStep::Done { took: false }),
            ParkStep::Done { result: Parked::Pending } => state != UPDATING && (state == WAITING
                ==> waker) && notify.step != (UnparkStep::Done { took: false }),
            ParkStep::Done { result: Parked::Ready(token) } => state == notified && token
                == notify.token,
        }
    }

    proof fn agree_at_first(memory: Shared, wait: Park, notify: Unpark) {
    }

    proof fn agree_again(memory: Shared, wait: Park, notify: Unpark, next: Park) {
    }

    proof fn wait_step(
        memory: Shared,
        wait: Park,
        notify: Unpark,
        reply: Reply,
        next: Shared,
    ) {
    }

    proof fn notify_step(
        memory: Shared,
        wait: Park,
        notify: Unpark,
        reply: Reply,
        next: Shared,
    ) {
    }
}

/// A task that is woken gets the token it is woken with.
pub proof fn token_arrives(scenes: Seq<Scene<Cell>>, replies: Seq<Reply>, i: int, token: usize)
    requires
        play(scenes, replies),
        0 <= i < scenes.len(),
        scenes[i].wait.step == (ParkStep::Done { result: Parked::Ready(token) }),
    ensures
        token == scenes[i].notify.token,
        scenes[i].notify.step is Done,
{
    always_agree(scenes, replies, i);
}

/// No wake is lost. Once the waking thread is done, a task that was told to wait
/// is woken by the waker that was taken, and a task that parks again gets the
/// token at once.
pub proof fn wake_is_not_lost(scenes: Seq<Scene<Cell>>, replies: Seq<Reply>, i: int)
    requires
        play(scenes, replies),
        0 <= i < scenes.len(),
        scenes[i].notify.step is Done,
    ensures
        scenes[i].wait.step == (ParkStep::Done { result: Parked::Pending })
            ==> scenes[i].notify.step == (UnparkStep::Done { took: true }),
        alone(
            Park { node: scenes[i].wait.node, step: ParkStep::Load },
            scenes[i].memory,
            1,
        ).0.step == (ParkStep::Done { result: Parked::Ready(scenes[i].notify.token) }),
{
    always_agree(scenes, replies, i);
    reveal_with_fuel(alone, 2);
}

impl CellOwners for Cell {
    open spec fn cell(wait: Park) -> usize {
        wait.node
    }

    open spec fn is_set(memory: Shared, node: usize) -> bool {
        at(memory, Place::Wake(node)) == WAITING && (memory.wakers)(node)
    }

    open spec fn is_live(memory: Shared, node: usize) -> bool {
        let state = at(memory, Place::Wake(node));
        (state == WAITING || state == NOTIFYING) && (memory.wakers)(node)
    }

    open spec fn pends(wait: Park) -> bool {
        wait.step == (ParkStep::Done { result: Parked::Pending })
    }

    open spec fn trusts(wait: Park) -> bool {
        wait.step is EndUpdate
    }

    open spec fn leaves(wait: Park) -> bool {
        wait.step is Load || wait.step is BeginUpdate || Self::pends(wait)
    }

    proof fn of_waiting(memory: Shared, wait: Park, notify: Unpark) {
        assert(Self::pends(wait) ==> wait.step is Done);
    }

    proof fn wait_sees_to(
        memory: Shared,
        wait: Park,
        notify: Unpark,
        reply: Reply,
        next: Shared,
    ) {
        Self::wait_step(memory, wait, notify, reply, next);
    }

    proof fn notify_takes(
        memory: Shared,
        wait: Park,
        notify: Unpark,
        reply: Reply,
        next: Shared,
    ) {
        Self::notify_step(memory, wait, notify, reply, next);
    }
}

impl Keeps<Debt> for Unpark {
    open spec fn fits(&self, ledger: Debt) -> bool {
        &&& match self.step {
            UnparkStep::SetNotified => ledger.taken == Some(self.node),
            UnparkStep::Done { took: true } => {
                &&& ledger.taken == Some(self.node)
                &&& ledger.told == ledger.taken
            },
            _ => ledger.taken is None,
        }
        &&& !ledger.missed
        &&& ledger.lends
    }

    proof fn goes_on(operation: Self, ledger: Debt, reply: Reply) {
    }

    proof fn obeys(operation: Self, ledger: Debt) {
    }
}

/// An unpark is over with a waker to wake exactly if it took one out
/// of the cell. It has stored the new state of the cell by then.
pub proof fn unpark_gives_what_it_took(first: Unpark, replies: Seq<Reply>)
    requires
        first.wf(),
        first.step is Load,
        is_course(first, replies),
    ensures
        ({
            let now = point(first, replies, replies.len() as int);
            let debt = ledger(first, replies, Debt::lent(), replies.len() as int);
            &&& debt.allows(now.wants())
            &&& !debt.missed
            &&& now.step matches UnparkStep::Done { took } ==> took == (debt.taken is Some)
        }),
{
    always_allowed(first, replies, Debt::lent(), replies.len() as int);
}

impl Keeps<Readiness> for Prepare {
    open spec fn fits(&self, ledger: Readiness) -> bool {
        &&& ledger.keeps == true
        &&& ledger.tells == true
        &&& ledger.waiting == WAITING
        &&& ledger.states == 8
        &&& self.node == ledger.node
        &&& match self.step {
            PrepareStep::Load => true,
            PrepareStep::SetWaker => !ledger.ready,
            PrepareStep::SetWaiting => !ledger.ready && ledger.kept,
            PrepareStep::Done => ledger.ready || ledger.is_complete(),
        }
    }

    proof fn goes_on(operation: Self, ledger: Readiness, reply: Reply) {
    }

    proof fn obeys(operation: Self, ledger: Readiness) {
    }
}

/// A parker is ready once it has been made so: whoever makes it ready can be
/// woken by it, and it says that they wait. One that was ready is left alone.
pub proof fn prepared_parker_is_ready(node: usize, replies: Seq<Reply>)
    requires
        is_course(Prepare { node, step: PrepareStep::Load }, replies),
    ensures
        ({
            let first = Prepare { node, step: PrepareStep::Load };
            let start = Readiness { states: 8, ..Readiness::begin(node, true, true, WAITING) };
            let now = point(first, replies, replies.len() as int);
            let readiness = ledger(first, replies, start, replies.len() as int);
            &&& readiness.allows(now.wants())
            &&& now.wants() is Done ==> readiness.ready || readiness.is_complete()
        }),
{
    let first = Prepare { node, step: PrepareStep::Load };
    let start = Readiness { states: 8, ..Readiness::begin(node, true, true, WAITING) };
    always_allowed(first, replies, start, replies.len() as int);
}

impl Keeps<Renewal> for Park {
    open spec fn fits(&self, ledger: Renewal) -> bool {
        &&& ledger.node == self.node
        &&& match self.step {
            ParkStep::Load => !ledger.claimed && !ledger.late && !ledger.kept,
            ParkStep::BeginUpdate => !ledger.claimed && !ledger.late && !ledger.kept,
            ParkStep::DropWaker => {
                &&& ledger.claimed
                &&& !ledger.fresh
                &&& !ledger.late
                &&& !ledger.kept
            },
            ParkStep::ReplaceWaker => ledger.claimed && !ledger.late && !ledger.kept,
            ParkStep::EndUpdate => {
                &&& ledger.claimed
                &&& ledger.fresh
                &&& !ledger.late
                &&& !ledger.kept
            },
            ParkStep::DropLate { state } => {
                &&& !ledger.claimed
                &&& ledger.late
                &&& !ledger.kept
                &&& ledger.seen == Some(state)
            },
            ParkStep::Done { result } => {
                &&& !ledger.claimed
                &&& !ledger.late
                &&& match result {
                    Parked::Pending => ledger.kept || {
                        &&& ledger.seen is Some
                        &&& ledger.seen.unwrap() % 8 == NOTIFYING
                    },
                    Parked::Ready(token) => {
                        &&& !ledger.kept
                        &&& ledger.seen is Some
                        &&& ledger.seen.unwrap() % 8 == NOTIFIED
                        &&& ledger.seen.unwrap() / 8 == token
                    },
                }
            },
        }
    }

    proof fn goes_on(operation: Self, ledger: Renewal, reply: Reply) {
    }

    proof fn obeys(operation: Self, ledger: Renewal) {
    }
}

/// A poll that leaves the task waiting has put the waker of the task into the
/// cell, unless it saw that the waker was being taken. One that is over with a token
/// saw it in the cell, and leaves no waker there.
pub proof fn poll_keeps_the_waker_fresh(node: usize, replies: Seq<Reply>)
    requires
        is_course(Park { node, step: ParkStep::Load }, replies),
    ensures
        ({
            let first = Park { node, step: ParkStep::Load };
            let now = point(first, replies, replies.len() as int);
            let renewal = ledger(first, replies, Renewal::begin(node), replies.len() as int);
            &&& renewal.allows(now.wants())
            &&& now.step matches ParkStep::Done { result: Parked::Pending } ==> {
                ||| renewal.kept
                ||| renewal.seen is Some && renewal.seen.unwrap() % 8 == NOTIFYING
            }
            &&& now.step matches ParkStep::Done { result: Parked::Ready(token) } ==> {
                &&& !renewal.kept
                &&& renewal.seen is Some
                &&& renewal.seen.unwrap() % 8 == NOTIFIED
                &&& renewal.seen.unwrap() / 8 == token
            }
        }),
{
    let first = Park { node, step: ParkStep::Load };
    always_allowed(first, replies, Renewal::begin(node), replies.len() as int);
}

/// Whoever claims the waker of a cell sees what was done to it before, and so does
/// whoever is woken by the cell.
pub proof fn what_was_done_is_seen(park: Park, unpark: Unpark)
    requires
        unpark.wf(),
    ensures
        keeps_the_waker_visible(park.wants(), UPDATING, NOTIFYING),
        keeps_the_waker_visible(unpark.wants(), UPDATING, NOTIFYING),
        keeps_the_wake_visible(unpark.wants()),
{
}

} // verus!
