//! A cell through which one task parks and another wakes it with a token.
use vstd::prelude::*;
use crate::access::{Access, Operation, Order, Place, Reply};
use crate::course::{Keeps, Ledger, always_allowed, is_course, ledger, point};
use crate::debt::{Debt, taken_waker_is_woken};
use crate::kernel::cpu::Hints;
use crate::lookout::Readiness;
use crate::meeting::{Meeting, Scene, always_agree, play};
use crate::memory::{Shared, alone, at};
use crate::owners::CellOwners;
use crate::renewal::Renewal;
use crate::visibility::{keeps_the_wake_visible, keeps_the_waker_visible};

verus! {

/// The waker is ready to be taken.
pub const WAITING: usize = 0;

/// The waiting task is replacing its waker.
pub const UPDATING: usize = 1;

/// The waker is being taken.
pub const CONSUMING: usize = 2;

/// The task was woken; the token stands above the lowest two bits.
pub const NOTIFIED: usize = 3;

/// The largest token.
pub const MAX_TOKEN: usize = usize::MAX / 4;

/// The state of a cell that nobody has used yet.
#[derive(Clone, Copy, PartialEq, Eq, Structural, Debug)]
pub struct WakerParker {
    pub state: usize,
}

pub open spec fn spec_notified(token: usize) -> usize {
    (3 + 4 * token) as usize
}

/// The state that carries a token.
#[verifier::when_used_as_spec(spec_notified)]
pub fn notified(token: usize) -> (state: usize)
    requires
        token <= MAX_TOKEN,
    ensures
        state == spec_notified(token),
{
    let most: usize = usize::MAX;
    assert(3usize | (token << 2) == (3 + 4 * token) as usize) by (bit_vector)
        requires
            3 + 4 * token <= most,
    ;
    NOTIFIED | (token << 2)
}

/// What a task learns by polling.
#[derive(Clone, Copy, PartialEq, Eq, Structural, Debug)]
pub enum Polled {
    /// The task was woken with this token.
    Token(usize),
    /// The waker of the cell wakes the task.
    Updated,
    /// The waker of the cell is being taken.
    Contended,
}

/// Gives the cell of `node` a waker unless it has one.
#[derive(Clone, Copy, PartialEq, Eq, Structural, Debug)]
pub struct Prepare {
    pub node: usize,
    pub step: PrepareStep,
}

#[derive(Clone, Copy, PartialEq, Eq, Structural, Debug)]
pub enum PrepareStep {
    Check,
    SetWaker,
    SetWaiting,
    Done,
}

/// Polls the cell of `node`.
#[derive(Clone, Copy, PartialEq, Eq, Structural, Debug)]
pub struct PollParker {
    pub node: usize,
    pub step: PollStep,
}

#[derive(Clone, Copy, PartialEq, Eq, Structural, Debug)]
pub enum PollStep {
    Load,
    BeginUpdate { state: usize },
    /// Makes sure that there is a waker to compare with.
    CheckWaker,
    Compare,
    ReplaceWaker,
    EndUpdate,
    /// Drops a waker that came too late to be taken.
    DropLate { token: usize },
    Done { result: Polled },
}

/// Wakes the task that parks by the cell of `node`, with a token.
#[derive(Clone, Copy, PartialEq, Eq, Structural, Debug)]
pub struct Unpark {
    pub node: usize,
    pub token: usize,
    pub step: UnparkStep,
}

#[derive(Clone, Copy, PartialEq, Eq, Structural, Debug)]
pub enum UnparkStep {
    Load,
    Consume { state: usize },
    Interrupt { state: usize },
    Take,
    SetNotified,
    Wake,
    Done,
}

impl WakerParker {
    pub fn new() -> (parker: Self)
        ensures
            parker.state == WAITING,
    {
        WakerParker { state: WAITING }
    }

    pub open spec fn spec_prepare(node: usize) -> Prepare {
        Prepare { node, step: PrepareStep::Check }
    }

    /// Begins to make the cell ready.
    #[verifier::when_used_as_spec(spec_prepare)]
    pub fn prepare(node: usize) -> (prepare: Prepare)
        ensures
            prepare == Self::spec_prepare(node),
            prepare.wf(),
    {
        Prepare { node, step: PrepareStep::Check }
    }

    pub open spec fn spec_poll(node: usize) -> PollParker {
        PollParker { node, step: PollStep::Load }
    }

    /// Begins to poll.
    #[verifier::when_used_as_spec(spec_poll)]
    pub fn poll(node: usize) -> (poll: PollParker)
        ensures
            poll == Self::spec_poll(node),
            poll.wf(),
    {
        PollParker { node, step: PollStep::Load }
    }

    pub open spec fn spec_unpark(node: usize, token: usize) -> Unpark {
        Unpark { node, token, step: UnparkStep::Load }
    }

    /// Begins to wake the parked task.
    #[verifier::when_used_as_spec(spec_unpark)]
    pub fn unpark(node: usize, token: usize) -> (unpark: Unpark)
        requires
            token <= MAX_TOKEN,
        ensures
            unpark == Self::spec_unpark(node, token),
            unpark.wf(),
    {
        Unpark { node, token, step: UnparkStep::Load }
    }
}

impl Operation for Prepare {
    open spec fn wf(&self) -> bool {
        true
    }

    open spec fn wants(&self) -> Access {
        match self.step {
            PrepareStep::Check => Access::HasWaker(self.node),
            PrepareStep::SetWaker => Access::StoreWaker(self.node),
            PrepareStep::SetWaiting => Access::Store(
                Place::Wake(self.node),
                WAITING,
                Order::Relaxed,
            ),
            PrepareStep::Done => Access::Done,
        }
    }

    open spec fn expects(&self, reply: Reply) -> bool {
        match self.step {
            PrepareStep::Done => false,
            _ => true,
        }
    }

    open spec fn after(&self, reply: Reply) -> Self {
        let step = match self.step {
            PrepareStep::Check => if reply.ok {
                PrepareStep::Done
            } else {
                PrepareStep::SetWaker
            },
            PrepareStep::SetWaker => PrepareStep::SetWaiting,
            PrepareStep::SetWaiting => PrepareStep::Done,
            PrepareStep::Done => PrepareStep::Done,
        };
        Prepare { step, ..*self }
    }

    open spec fn hints(&self, reply: Reply) -> nat {
        0
    }

    fn accepts(&self, reply: Reply) -> (accepted: bool) {
        match self.step {
            PrepareStep::Done => false,
            _ => true,
        }
    }

    fn access(&self) -> (access: Access) {
        match self.step {
            PrepareStep::Check => Access::HasWaker(self.node),
            PrepareStep::SetWaker => Access::StoreWaker(self.node),
            PrepareStep::SetWaiting => Access::Store(
                Place::Wake(self.node),
                WAITING,
                Order::Relaxed,
            ),
            PrepareStep::Done => Access::Done,
        }
    }

    fn resume(&mut self, reply: Reply, _hints: &mut Hints) {
        self.step =
        match self.step {
            PrepareStep::Check => if reply.ok {
                PrepareStep::Done
            } else {
                PrepareStep::SetWaker
            },
            PrepareStep::SetWaker => PrepareStep::SetWaiting,
            PrepareStep::SetWaiting => PrepareStep::Done,
            PrepareStep::Done => PrepareStep::Done,
        };
    }
}

impl Prepare {
    /// The preparation after its access was answered.
    pub fn resumed(self, reply: Reply) -> (next: Self)
        requires
            self.wf(),
            self.expects(reply),
        ensures
            next == self.after(reply),
            next.wf(),
    {
        let mut next = self;
        next.resume(reply, &mut Hints::new());
        next
    }
}

pub open spec fn spec_look(state: usize) -> PollStep {
    if state % 4 == WAITING {
        PollStep::BeginUpdate { state }
    } else if state % 4 == CONSUMING {
        PollStep::Done { result: Polled::Contended }
    } else {
        PollStep::Done { result: Polled::Token(state / 4) }
    }
}

/// How a polling task goes on from a state.
#[verifier::when_used_as_spec(spec_look)]
pub fn look(state: usize) -> (step: PollStep)
    requires
        state % 4 != UPDATING,
    ensures
        step == spec_look(state),
{
    if state % 4 == WAITING {
        PollStep::BeginUpdate { state }
    } else if state % 4 == CONSUMING {
        PollStep::Done { result: Polled::Contended }
    } else {
        PollStep::Done { result: Polled::Token(state / 4) }
    }
}

impl Operation for PollParker {
    open spec fn wf(&self) -> bool {
        true
    }

    open spec fn wants(&self) -> Access {
        match self.step {
            PollStep::Load => Access::Load(Place::Wake(self.node), Order::Relaxed),
            PollStep::BeginUpdate { state } => Access::CompareExchangeWeak(
                Place::Wake(self.node),
                state,
                UPDATING,
                Order::Acquire,
                Order::Relaxed,
            ),
            PollStep::CheckWaker => Access::HasWaker(self.node),
            PollStep::Compare => Access::WillWake(self.node),
            PollStep::ReplaceWaker => Access::StoreWaker(self.node),
            PollStep::EndUpdate => Access::CompareExchange(
                Place::Wake(self.node),
                UPDATING,
                WAITING,
                Order::Release,
                Order::Relaxed,
            ),
            PollStep::DropLate { .. } => Access::DropWaker(self.node),
            PollStep::Done { .. } => Access::Done,
        }
    }

    /// The cell was made ready, one task polls it, and nobody takes a waker that
    /// is being replaced.
    open spec fn expects(&self, reply: Reply) -> bool {
        match self.step {
            PollStep::Load => reply.value % 4 != UPDATING,
            PollStep::BeginUpdate { .. } => reply.ok || reply.value % 4 != UPDATING,
            PollStep::CheckWaker => reply.ok,
            PollStep::EndUpdate => reply.ok || reply.value % 4 == NOTIFIED,
            PollStep::Done { .. } => false,
            _ => true,
        }
    }

    open spec fn after(&self, reply: Reply) -> Self {
        let step = match self.step {
            PollStep::Load => look(reply.value),
            PollStep::BeginUpdate { .. } => if reply.ok {
                PollStep::CheckWaker
            } else {
                look(reply.value)
            },
            PollStep::CheckWaker => PollStep::Compare,
            PollStep::Compare => if reply.ok {
                PollStep::EndUpdate
            } else {
                PollStep::ReplaceWaker
            },
            PollStep::ReplaceWaker => PollStep::EndUpdate,
            PollStep::EndUpdate => if reply.ok {
                PollStep::Done { result: Polled::Updated }
            } else {
                PollStep::DropLate { token: reply.value / 4 }
            },
            PollStep::DropLate { token } => PollStep::Done { result: Polled::Token(token) },
            PollStep::Done { result } => PollStep::Done { result },
        };
        PollParker { step, ..*self }
    }

    open spec fn hints(&self, reply: Reply) -> nat {
        0
    }

    fn accepts(&self, reply: Reply) -> (accepted: bool) {
        match self.step {
            PollStep::Load => reply.value % 4 != UPDATING,
            PollStep::BeginUpdate { .. } => reply.ok || reply.value % 4 != UPDATING,
            PollStep::CheckWaker => reply.ok,
            PollStep::EndUpdate => reply.ok || reply.value % 4 == NOTIFIED,
            PollStep::Done { .. } => false,
            _ => true,
        }
    }

    fn access(&self) -> (access: Access) {
        match self.step {
            PollStep::Load => Access::Load(Place::Wake(self.node), Order::Relaxed),
            PollStep::BeginUpdate { state } => Access::CompareExchangeWeak(
                Place::Wake(self.node),
                state,
                UPDATING,
                Order::Acquire,
                Order::Relaxed,
            ),
            PollStep::CheckWaker => Access::HasWaker(self.node),
            PollStep::Compare => Access::WillWake(self.node),
            PollStep::ReplaceWaker => Access::StoreWaker(self.node),
            PollStep::EndUpdate => Access::CompareExchange(
                Place::Wake(self.node),
                UPDATING,
                WAITING,
                Order::Release,
                Order::Relaxed,
            ),
            PollStep::DropLate { .. } => Access::DropWaker(self.node),
            PollStep::Done { .. } => Access::Done,
        }
    }

    fn resume(&mut self, reply: Reply, _hints: &mut Hints) {
        self.step =
        match self.step {
            PollStep::Load => look(reply.value),
            PollStep::BeginUpdate { .. } => if reply.ok {
                PollStep::CheckWaker
            } else {
                look(reply.value)
            },
            PollStep::CheckWaker => PollStep::Compare,
            PollStep::Compare => if reply.ok {
                PollStep::EndUpdate
            } else {
                PollStep::ReplaceWaker
            },
            PollStep::ReplaceWaker => PollStep::EndUpdate,
            PollStep::EndUpdate => if reply.ok {
                PollStep::Done { result: Polled::Updated }
            } else {
                PollStep::DropLate { token: reply.value / 4 }
            },
            PollStep::DropLate { token } => PollStep::Done { result: Polled::Token(token) },
            PollStep::Done { result } => PollStep::Done { result },
        };
    }
}

impl PollParker {
    /// The poll after its access was answered.
    pub fn resumed(self, reply: Reply) -> (next: Self)
        requires
            self.wf(),
            self.expects(reply),
        ensures
            next == self.after(reply),
            next.wf(),
    {
        let mut next = self;
        next.resume(reply, &mut Hints::new());
        next
    }
}

pub open spec fn spec_begin_unpark(state: usize) -> UnparkStep {
    if state % 4 == WAITING {
        UnparkStep::Consume { state }
    } else {
        UnparkStep::Interrupt { state }
    }
}

/// How a waking thread goes on from a state.
#[verifier::when_used_as_spec(spec_begin_unpark)]
pub fn begin_unpark(state: usize) -> (step: UnparkStep)
    requires
        state % 4 == WAITING || state % 4 == UPDATING,
    ensures
        step == spec_begin_unpark(state),
{
    if state % 4 == WAITING {
        UnparkStep::Consume { state }
    } else {
        UnparkStep::Interrupt { state }
    }
}

impl Operation for Unpark {
    open spec fn wf(&self) -> bool {
        self.token <= MAX_TOKEN
    }

    open spec fn wants(&self) -> Access {
        match self.step {
            UnparkStep::Load => Access::Load(Place::Wake(self.node), Order::Relaxed),
            UnparkStep::Consume { state } => Access::CompareExchangeWeak(
                Place::Wake(self.node),
                state,
                CONSUMING,
                Order::Acquire,
                Order::Relaxed,
            ),
            UnparkStep::Interrupt { state } => Access::CompareExchangeWeak(
                Place::Wake(self.node),
                state,
                notified(self.token),
                Order::Relaxed,
                Order::Relaxed,
            ),
            UnparkStep::Take => Access::TakeWaker(self.node),
            UnparkStep::SetNotified => Access::Store(
                Place::Wake(self.node),
                notified(self.token),
                Order::Release,
            ),
            UnparkStep::Wake => Access::Wake,
            UnparkStep::Done => Access::Done,
        }
    }

    /// Somebody waits, and only one thread wakes.
    open spec fn expects(&self, reply: Reply) -> bool {
        match self.step {
            UnparkStep::Load => reply.value % 4 == WAITING || reply.value % 4 == UPDATING,
            UnparkStep::Consume { .. } | UnparkStep::Interrupt { .. } => reply.ok || reply.value % 4
                == WAITING || reply.value % 4 == UPDATING,
            UnparkStep::Take => reply.ok,
            UnparkStep::Done => false,
            _ => true,
        }
    }

    open spec fn after(&self, reply: Reply) -> Self {
        let step = match self.step {
            UnparkStep::Load => begin_unpark(reply.value),
            UnparkStep::Consume { .. } => if reply.ok {
                UnparkStep::Take
            } else {
                begin_unpark(reply.value)
            },
            UnparkStep::Interrupt { .. } => if reply.ok {
                UnparkStep::Done
            } else {
                begin_unpark(reply.value)
            },
            UnparkStep::Take => UnparkStep::SetNotified,
            UnparkStep::SetNotified => UnparkStep::Wake,
            UnparkStep::Wake => UnparkStep::Done,
            UnparkStep::Done => UnparkStep::Done,
        };
        Unpark { step, ..*self }
    }

    open spec fn hints(&self, reply: Reply) -> nat {
        0
    }

    fn accepts(&self, reply: Reply) -> (accepted: bool) {
        match self.step {
            UnparkStep::Load => reply.value % 4 == WAITING || reply.value % 4 == UPDATING,
            UnparkStep::Consume { .. } | UnparkStep::Interrupt { .. } => reply.ok || reply.value % 4
                == WAITING || reply.value % 4 == UPDATING,
            UnparkStep::Take => reply.ok,
            UnparkStep::Done => false,
            _ => true,
        }
    }

    fn access(&self) -> (access: Access) {
        match self.step {
            UnparkStep::Load => Access::Load(Place::Wake(self.node), Order::Relaxed),
            UnparkStep::Consume { state } => Access::CompareExchangeWeak(
                Place::Wake(self.node),
                state,
                CONSUMING,
                Order::Acquire,
                Order::Relaxed,
            ),
            UnparkStep::Interrupt { state } => Access::CompareExchangeWeak(
                Place::Wake(self.node),
                state,
                notified(self.token),
                Order::Relaxed,
                Order::Relaxed,
            ),
            UnparkStep::Take => Access::TakeWaker(self.node),
            UnparkStep::SetNotified => Access::Store(
                Place::Wake(self.node),
                notified(self.token),
                Order::Release,
            ),
            UnparkStep::Wake => Access::Wake,
            UnparkStep::Done => Access::Done,
        }
    }

    fn resume(&mut self, reply: Reply, _hints: &mut Hints) {
        self.step =
        match self.step {
            UnparkStep::Load => begin_unpark(reply.value),
            UnparkStep::Consume { .. } => if reply.ok {
                UnparkStep::Take
            } else {
                begin_unpark(reply.value)
            },
            UnparkStep::Interrupt { .. } => if reply.ok {
                UnparkStep::Done
            } else {
                begin_unpark(reply.value)
            },
            UnparkStep::Take => UnparkStep::SetNotified,
            UnparkStep::SetNotified => UnparkStep::Wake,
            UnparkStep::Wake => UnparkStep::Done,
            UnparkStep::Done => UnparkStep::Done,
        };
    }
}

impl Unpark {
    /// The wake after its access was answered.
    pub fn resumed(self, reply: Reply) -> (next: Self)
        requires
            self.wf(),
            self.expects(reply),
        ensures
            next == self.after(reply),
            next.wf(),
    {
        let mut next = self;
        next.resume(reply, &mut Hints::new());
        next
    }
}


/// A park and an unpark, as [`crate::meeting`] speaks of them: no reply comes
/// that either does not expect, [`crate::meeting::every_reply_is_expected`].
pub struct Cell;

impl Meeting for Cell {
    type Wait = PollParker;

    type Notify = Unpark;

    /// The cell was made ready, and nobody has woken the task yet.
    open spec fn begins(memory: Shared, wait: PollParker, notify: Unpark) -> bool {
        &&& wait.wf()
        &&& notify.wf()
        &&& wait.node == notify.node
        &&& wait.step is Load
        &&& notify.step is Load
        &&& at(memory, Place::Wake(wait.node)) == WAITING
        &&& (memory.wakers)(wait.node)
    }

    /// A task that was told to wait polls again when it is run again.
    open spec fn waits_again(wait: PollParker, next: PollParker) -> bool {
        &&& wait.step == (PollStep::Done { result: Polled::Updated }) || wait.step == (PollStep::Done {
            result: Polled::Contended,
        })
        &&& next == (PollParker { step: PollStep::Load, ..wait })
    }

    open spec fn agree(memory: Shared, wait: PollParker, notify: Unpark) -> bool {
        let state = at(memory, Place::Wake(wait.node));
        let waker = (memory.wakers)(wait.node);
        let notified = notified(notify.token);
        &&& wait.wf()
        &&& notify.wf()
        &&& wait.node == notify.node
        // How far the notifying thread is.
        &&& match notify.step {
            UnparkStep::Load => state == WAITING || state == UPDATING,
            UnparkStep::Consume { state: seen } => seen == WAITING && (state == WAITING || state
                == UPDATING),
            UnparkStep::Interrupt { state: seen } => seen == UPDATING && (state == WAITING || state
                == UPDATING),
            UnparkStep::Take => state == CONSUMING && waker,
            UnparkStep::SetNotified => state == CONSUMING,
            UnparkStep::Wake | UnparkStep::Done => state == notified,
        }
        // How far the waiting task is.
        &&& match wait.step {
            PollStep::Load => state != UPDATING && (state == WAITING ==> waker),
            PollStep::BeginUpdate { state: seen } => seen == WAITING && state != UPDATING && (state
                == WAITING ==> waker),
            PollStep::CheckWaker
            | PollStep::Compare
            | PollStep::ReplaceWaker
            | PollStep::EndUpdate => waker && (state == UPDATING || notify.step is Done),
            PollStep::DropLate { token } => token == notify.token && notify.step is Done,
            PollStep::Done { result: Polled::Updated }
            | PollStep::Done { result: Polled::Contended } => state != UPDATING && (state
                == WAITING ==> waker),
            PollStep::Done { result: Polled::Token(token) } => state == notified && token
                == notify.token,
        }
        // A waker that was taken was not being replaced.
        &&& notify.step is Wake ==> match wait.step {
            PollStep::CheckWaker
            | PollStep::Compare
            | PollStep::ReplaceWaker
            | PollStep::EndUpdate
            | PollStep::DropLate { .. } => false,
            _ => true,
        }
    }

    proof fn agree_at_first(memory: Shared, wait: PollParker, notify: Unpark) {
    }

    proof fn agree_again(memory: Shared, wait: PollParker, notify: Unpark, next: PollParker) {
    }

    proof fn wait_step(
        memory: Shared,
        wait: PollParker,
        notify: Unpark,
        reply: Reply,
        next: Shared,
    ) {
    }

    proof fn notify_step(
        memory: Shared,
        wait: PollParker,
        notify: Unpark,
        reply: Reply,
        next: Shared,
    ) {
    }
}

/// A task that is woken gets the token it is woken with.
pub proof fn token_arrives(scenes: Seq<Scene<Cell>>, replies: Seq<Reply>, i: int, token: usize)
    requires
        play(scenes, replies),
        0 <= i < scenes.len(),
        scenes[i].wait.step == (PollStep::Done { result: Polled::Token(token) }),
    ensures
        token == scenes[i].notify.token,
{
    always_agree(scenes, replies, i);
}

/// Once the waking thread is done, a task that polls again gets the token at
/// once.
pub proof fn token_waits(scenes: Seq<Scene<Cell>>, replies: Seq<Reply>, i: int)
    requires
        play(scenes, replies),
        0 <= i < scenes.len(),
        scenes[i].notify.step is Done,
    ensures
        alone(
            PollParker { node: scenes[i].wait.node, step: PollStep::Load },
            scenes[i].memory,
            1,
        ).0.step == (PollStep::Done { result: Polled::Token(scenes[i].notify.token) }),
{
    always_agree(scenes, replies, i);
    reveal_with_fuel(alone, 2);
}

impl CellOwners for Cell {
    open spec fn cell(wait: PollParker) -> usize {
        wait.node
    }

    open spec fn is_set(memory: Shared, node: usize) -> bool {
        at(memory, Place::Wake(node)) == WAITING && (memory.wakers)(node)
    }

    open spec fn is_live(memory: Shared, node: usize) -> bool {
        let state = at(memory, Place::Wake(node));
        (state == WAITING || state == CONSUMING) && (memory.wakers)(node)
    }

    open spec fn pends(wait: PollParker) -> bool {
        ||| wait.step == (PollStep::Done { result: Polled::Updated })
        ||| wait.step == (PollStep::Done { result: Polled::Contended })
    }

    open spec fn trusts(wait: PollParker) -> bool {
        wait.step is EndUpdate
    }

    open spec fn leaves(wait: PollParker) -> bool {
        wait.step is Load || wait.step is BeginUpdate || Self::pends(wait)
    }

    proof fn of_waiting(memory: Shared, wait: PollParker, notify: Unpark) {
        assert(Self::pends(wait) ==> wait.step is Done);
    }

    proof fn wait_sees_to(
        memory: Shared,
        wait: PollParker,
        notify: Unpark,
        reply: Reply,
        next: Shared,
    ) {
        Self::wait_step(memory, wait, notify, reply, next);
    }

    proof fn notify_takes(
        memory: Shared,
        wait: PollParker,
        notify: Unpark,
        reply: Reply,
        next: Shared,
    ) {
        Self::notify_step(memory, wait, notify, reply, next);
    }
}

impl Keeps<Debt> for Unpark {
    open spec fn fits(&self, ledger: Debt) -> bool {
        &&& match self.step {
            UnparkStep::SetNotified => ledger.taken == Some(self.node),
            UnparkStep::Wake => ledger.taken is Some && ledger.told == ledger.taken,
            _ => ledger.taken is None,
        }
        &&& !ledger.missed
        &&& !ledger.lends
    }

    proof fn goes_on(operation: Self, ledger: Debt, reply: Reply) {
    }

    proof fn obeys(operation: Self, ledger: Debt) {
    }
}

/// An unpark that took the waker of a cell wakes it before it is over, once
/// it has stored the new state. It takes no waker where there is none.
pub proof fn unpark_wakes_whom_it_took(first: Unpark, replies: Seq<Reply>, i: int, j: int)
    requires
        first.wf(),
        first.step is Load,
        is_course(first, replies),
        0 <= i < j <= replies.len(),
    ensures
        ledger(first, replies, Debt::none(), j).allows(point(first, replies, j).wants()),
        !ledger(first, replies, Debt::none(), j).missed,
        ({
            &&& point(first, replies, i).wants() is TakeWaker
            &&& replies[i].ok
            &&& point(first, replies, j).wants() is Done
        }) ==> exists|k: int| i < k < j && #[trigger] point(first, replies, k).wants() is Wake,
{
    always_allowed(first, replies, Debt::none(), j);
    if point(first, replies, i).wants() is TakeWaker && replies[i].ok && point(
        first,
        replies,
        j,
    ).wants() is Done {
        taken_waker_is_woken(first, replies, Debt::none(), i, j);
    }
}

impl Keeps<Readiness> for Prepare {
    open spec fn fits(&self, ledger: Readiness) -> bool {
        &&& ledger.keeps == true
        &&& ledger.tells == true
        &&& ledger.waiting == WAITING
        &&& self.node == ledger.node
        &&& match self.step {
            PrepareStep::Check => true,
            PrepareStep::SetWaker => !ledger.ready,
            PrepareStep::SetWaiting => !ledger.ready && ledger.kept,
            PrepareStep::Done => ledger.ready || ledger.is_complete(),
        }
    }

    proof fn goes_on(operation: Self, ledger: Readiness, reply: Reply) {
    }

    proof fn obeys(operation: Self, ledger: Readiness) {
    }
}

/// A parker is ready once it has been made so: whoever makes it ready can be
/// woken by it, and it says that they wait. One that was ready is left alone.
pub proof fn prepared_parker_is_ready(node: usize, replies: Seq<Reply>)
    requires
        is_course(Prepare { node, step: PrepareStep::Check }, replies),
    ensures
        ({
            let first = Prepare { node, step: PrepareStep::Check };
            let start = Readiness::begin(node, true, true, WAITING);
            let now = point(first, replies, replies.len() as int);
            let readiness = ledger(first, replies, start, replies.len() as int);
            &&& readiness.allows(now.wants())
            &&& now.wants() is Done ==> readiness.ready || readiness.is_complete()
        }),
{
    let first = Prepare { node, step: PrepareStep::Check };
    let start = Readiness::begin(node, true, true, WAITING);
    always_allowed(first, replies, start, replies.len() as int);
}

impl Keeps<Renewal> for PollParker {
    open spec fn fits(&self, ledger: Renewal) -> bool {
        &&& ledger.node == self.node
        &&& match self.step {
            PollStep::Load => !ledger.claimed && !ledger.late && !ledger.kept,
            PollStep::BeginUpdate { .. } => !ledger.claimed && !ledger.late && !ledger.kept,
            PollStep::CheckWaker | PollStep::Compare | PollStep::ReplaceWaker => {
                &&& ledger.claimed
                &&& !ledger.late
                &&& !ledger.kept
            },
            PollStep::EndUpdate => {
                &&& ledger.claimed
                &&& ledger.fresh
                &&& !ledger.late
                &&& !ledger.kept
            },
            PollStep::DropLate { token } => {
                &&& !ledger.claimed
                &&& ledger.late
                &&& !ledger.kept
                &&& ledger.seen is Some
                &&& ledger.seen.unwrap() % 4 == NOTIFIED
                &&& ledger.seen.unwrap() / 4 == token
            },
            PollStep::Done { result } => {
                &&& !ledger.claimed
                &&& !ledger.late
                &&& match result {
                    Polled::Updated => ledger.kept,
                    Polled::Contended => {
                        &&& !ledger.kept
                        &&& ledger.seen is Some
                        &&& ledger.seen.unwrap() % 4 == CONSUMING
                    },
                    Polled::Token(token) => {
                        &&& !ledger.kept
                        &&& ledger.seen is Some
                        &&& ledger.seen.unwrap() % 4 == NOTIFIED
                        &&& ledger.seen.unwrap() / 4 == token
                    },
                }
            },
        }
    }

    proof fn goes_on(operation: Self, ledger: Renewal, reply: Reply) {
    }

    proof fn obeys(operation: Self, ledger: Renewal) {
    }
}

/// A poll that leaves the task waiting has put the waker of the task into the
/// cell, unless it saw that the waker was being taken. One that is over with a token
/// saw it in the cell, and leaves no waker there.
pub proof fn poll_keeps_the_waker_fresh(node: usize, replies: Seq<Reply>)
    requires
        is_course(PollParker { node, step: PollStep::Load }, replies),
    ensures
        ({
            let first = PollParker { node, step: PollStep::Load };
            let now = point(first, replies, replies.len() as int);
            let renewal = ledger(first, replies, Renewal::begin(node), replies.len() as int);
            &&& renewal.allows(now.wants())
            &&& now.step matches PollStep::Done { result: Polled::Updated } ==> renewal.kept
            &&& now.step matches PollStep::Done { result: Polled::Contended } ==> {
                &&& renewal.seen is Some
                &&& renewal.seen.unwrap() % 4 == CONSUMING
            }
            &&& now.step matches PollStep::Done { result: Polled::Token(token) } ==> {
                &&& !renewal.kept
                &&& renewal.seen is Some
                &&& renewal.seen.unwrap() % 4 == NOTIFIED
                &&& renewal.seen.unwrap() / 4 == token
            }
        }),
{
    let first = PollParker { node, step: PollStep::Load };
    always_allowed(first, replies, Renewal::begin(node), replies.len() as int);
}

/// Whoever claims the waker of a cell sees what was done to it before, and so does
/// whoever is woken by the cell.
pub proof fn what_was_done_is_seen(poll: PollParker, wake: Unpark)
    requires
        wake.wf(),
    ensures
        keeps_the_waker_visible(poll.wants(), UPDATING, CONSUMING),
        keeps_the_waker_visible(wake.wants(), UPDATING, CONSUMING),
        keeps_the_wake_visible(wake.wants()),
{
}

} // verus!
