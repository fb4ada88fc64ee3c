//! A cell through which one task waits and another notifies it.
use vstd::prelude::*;
use crate::access::{Access, Operation, Order, Place, Reply};
use crate::course::{Keeps, Ledger, always_allowed, is_course, ledger, point};
use crate::debt::Debt;
use crate::kernel::cpu::Hints;
use crate::lookout::Readiness;
use crate::meeting::{Meeting, Scene, always_agree, play};
use crate::memory::{Shared, alone, at};
use crate::owners::CellOwners;
use crate::renewal::Renewal;
use crate::visibility::{keeps_the_wake_visible, keeps_the_waker_visible};

verus! {

/// The waker is ready to be taken.
pub const WAITING: usize = 0;

/// The waiting task is replacing its waker.
pub const UPDATING: usize = 1;

/// The waker is being taken.
pub const CONSUMING: usize = 2;

/// The task was notified; the notification stands above the lowest two bits.
pub const NOTIFIED: usize = 3;

/// The largest notification that a state can carry.
pub const MAX_NOTIFICATION: usize = usize::MAX / 4;

/// The state of a cell that nobody has used yet.
#[derive(Clone, Copy, PartialEq, Eq, Structural, Debug)]
pub struct AtomicWaker {
    pub state: usize,
}

pub open spec fn spec_notified(notification: usize) -> usize {
    (3 + 4 * notification) as usize
}

/// The state that carries a notification. What does not fit above the lowest
/// two bits is lost.
#[verifier::when_used_as_spec(spec_notified)]
pub fn notified(notification: usize) -> (state: usize)
    ensures
        state == spec_notified(notification),
{
    proof {
        lemma_notified(notification);
    }
    NOTIFIED | (notification << 2)
}

/// A state that carries a notification reads as notified, and a notification
/// that fits is carried whole.
pub proof fn lemma_notified(notification: usize)
    ensures
        3usize | (notification << 2) == spec_notified(notification),
        spec_notified(notification) % 4 == NOTIFIED,
        notification <= MAX_NOTIFICATION ==> spec_notified(notification) / 4 == notification,
{
    assert(3usize | (notification << 2) == (3 + 4 * notification) as usize) by (bit_vector);
    assert(((3 + 4 * notification) as usize) % 4 == 3) by (bit_vector);
}

/// What a task learns by polling.
#[derive(Clone, Copy, PartialEq, Eq, Structural, Debug)]
pub enum Polled {
    Pending,
    Ready(usize),
}

/// Gives the cell of `node` a waker unless it has one.
#[derive(Clone, Copy, PartialEq, Eq, Structural, Debug)]
pub struct Prepare {
    pub node: usize,
    pub step: PrepareStep,
}

#[derive(Clone, Copy, PartialEq, Eq, Structural, Debug)]
pub enum PrepareStep {
    Check,
    SetWaker,
    SetWaiting,
    Done,
}

/// Polls the cell of `node`.
#[derive(Clone, Copy, PartialEq, Eq, Structural, Debug)]
pub struct PollWaker {
    pub node: usize,
    pub step: PollStep,
}

#[derive(Clone, Copy, PartialEq, Eq, Structural, Debug)]
pub enum PollStep {
    Load,
    BeginUpdate,
    ReplaceWaker,
    EndUpdate,
    /// Drops a waker that came too late to be taken.
    DropLate { state: usize },
    Done { result: Polled },
}

/// Notifies the task that waits by the cell of `node`. `took` says whether the
/// waker was taken and is left to the caller to wake.
#[derive(Clone, Copy, PartialEq, Eq, Structural, Debug)]
pub struct Notify {
    pub node: usize,
    pub notification: usize,
    pub step: NotifyStep,
}

#[derive(Clone, Copy, PartialEq, Eq, Structural, Debug)]
pub enum NotifyStep {
    Load,
    Consume,
    Interrupt,
    Take,
    SetNotified,
    Done { took: bool },
}

impl AtomicWaker {
    pub fn new() -> (waker: Self)
        ensures
            waker.state == WAITING,
    {
        AtomicWaker { state: WAITING }
    }

    pub open spec fn spec_prepare_poll(node: usize) -> Prepare {
        Prepare { node, step: PrepareStep::Check }
    }

    /// Begins to make the cell ready.
    #[verifier::when_used_as_spec(spec_prepare_poll)]
    pub fn prepare_poll(node: usize) -> (prepare: Prepare)
        ensures
            prepare == Self::spec_prepare_poll(node),
            prepare.wf(),
    {
        Prepare { node, step: PrepareStep::Check }
    }

    pub open spec fn spec_poll(node: usize) -> PollWaker {
        PollWaker { node, step: PollStep::Load }
    }

    /// Begins to poll.
    #[verifier::when_used_as_spec(spec_poll)]
    pub fn poll(node: usize) -> (poll: PollWaker)
        ensures
            poll == Self::spec_poll(node),
            poll.wf(),
    {
        PollWaker { node, step: PollStep::Load }
    }

    pub open spec fn spec_notify(node: usize, notification: usize) -> Notify {
        Notify { node, notification, step: NotifyStep::Load }
    }

    /// Begins to notify the waiting task.
    #[verifier::when_used_as_spec(spec_notify)]
    pub fn notify(node: usize, notification: usize) -> (notify: Notify)
        ensures
            notify == Self::spec_notify(node, notification),
            notify.wf(),
    {
        Notify { node, notification, step: NotifyStep::Load }
    }
}

impl Operation for Prepare {
    open spec fn wf(&self) -> bool {
        true
    }

    open spec fn wants(&self) -> Access {
        match self.step {
            PrepareStep::Check => Access::HasWaker(self.node),
            PrepareStep::SetWaker => Access::StoreWaker(self.node),
            PrepareStep::SetWaiting => Access::Store(
                Place::Wake(self.node),
                WAITING,
                Order::Relaxed,
            ),
            PrepareStep::Done => Access::Done,
        }
    }

    open spec fn expects(&self, reply: Reply) -> bool {
        match self.step {
            PrepareStep::Done => false,
            _ => true,
        }
    }

    open spec fn after(&self, reply: Reply) -> Self {
        let step = match self.step {
            PrepareStep::Check => if reply.ok {
                PrepareStep::Done
            } else {
                PrepareStep::SetWaker
            },
            PrepareStep::SetWaker => PrepareStep::SetWaiting,
            PrepareStep::SetWaiting => PrepareStep::Done,
            PrepareStep::Done => PrepareStep::Done,
        };
        Prepare { step, ..*self }
    }

    fn accepts(&self, reply: Reply) -> (accepted: bool) {
        match self.step {
            PrepareStep::Done => false,
            _ => true,
        }
    }

    fn access(&self) -> (access: Access) {
        match self.step {
            PrepareStep::Check => Access::HasWaker(self.node),
            PrepareStep::SetWaker => Access::StoreWaker(self.node),
            PrepareStep::SetWaiting => Access::Store(
                Place::Wake(self.node),
                WAITING,
                Order::Relaxed,
            ),
            PrepareStep::Done => Access::Done,
        }
    }

    fn resume(&mut self, reply: Reply, _hints: &mut Hints) {
        self.step =
        match self.step {
            PrepareStep::Check => if reply.ok {
                PrepareStep::Done
            } else {
                PrepareStep::SetWaker
            },
            PrepareStep::SetWaker => PrepareStep::SetWaiting,
            PrepareStep::SetWaiting => PrepareStep::Done,
            PrepareStep::Done => PrepareStep::Done,
        };
    }
}

impl Prepare {
    /// The preparation after its access was answered.
    pub fn resumed(self, reply: Reply) -> (next: Self)
        requires
            self.wf(),
            self.expects(reply),
        ensures
            next == self.after(reply),
            next.wf(),
    {
        let mut next = self;
        next.resume(reply, &mut Hints::new());
        next
    }
}

pub open spec fn spec_look(state: usize) -> PollStep {
    if state % 4 == WAITING {
        PollStep::BeginUpdate
    } else if state % 4 == CONSUMING {
        PollStep::Done { result: Polled::Pending }
    } else {
        PollStep::Done { result: Polled::Ready(state / 4) }
    }
}

/// How a polling task goes on from a state.
#[verifier::when_used_as_spec(spec_look)]
pub fn look(state: usize) -> (step: PollStep)
    requires
        state % 4 != UPDATING,
    ensures
        step == spec_look(state),
{
    if state % 4 == WAITING {
        PollStep::BeginUpdate
    } else if state % 4 == CONSUMING {
        PollStep::Done { result: Polled::Pending }
    } else {
        PollStep::Done { result: Polled::Ready(state / 4) }
    }
}

impl Operation for PollWaker {
    open spec fn wf(&self) -> bool {
        self.step matches PollStep::DropLate { state } ==> state % 4 == NOTIFIED
    }

    open spec fn wants(&self) -> Access {
        match self.step {
            PollStep::Load => Access::Load(Place::Wake(self.node), Order::Relaxed),
            PollStep::BeginUpdate => Access::CompareExchangeWeak(
                Place::Wake(self.node),
                WAITING,
                UPDATING,
                Order::Acquire,
                Order::Relaxed,
            ),
            PollStep::ReplaceWaker => Access::StoreWaker(self.node),
            PollStep::EndUpdate => Access::CompareExchange(
                Place::Wake(self.node),
                UPDATING,
                WAITING,
                Order::AcqRel,
                Order::Acquire,
            ),
            PollStep::DropLate { .. } => Access::DropWaker(self.node),
            PollStep::Done { .. } => Access::Done,
        }
    }

    /// One task polls the cell, and nobody takes a waker that is being
    /// replaced.
    open spec fn expects(&self, reply: Reply) -> bool {
        match self.step {
            PollStep::Load => reply.value % 4 != UPDATING,
            PollStep::BeginUpdate => reply.ok || reply.value % 4 != UPDATING,
            PollStep::EndUpdate => reply.ok || reply.value % 4 == NOTIFIED,
            PollStep::Done { .. } => false,
            _ => true,
        }
    }

    open spec fn after(&self, reply: Reply) -> Self {
        let step = match self.step {
            PollStep::Load => look(reply.value),
            PollStep::BeginUpdate => if reply.ok {
                PollStep::ReplaceWaker
            } else {
                look(reply.value)
            },
            PollStep::ReplaceWaker => PollStep::EndUpdate,
            PollStep::EndUpdate => if reply.ok {
                PollStep::Done { result: Polled::Pending }
            } else {
                PollStep::DropLate { state: reply.value }
            },
            PollStep::DropLate { state } => look(state),
            PollStep::Done { result } => PollStep::Done { result },
        };
        PollWaker { step, ..*self }
    }

    fn accepts(&self, reply: Reply) -> (accepted: bool) {
        match self.step {
            PollStep::Load => reply.value % 4 != UPDATING,
            PollStep::BeginUpdate => reply.ok || reply.value % 4 != UPDATING,
            PollStep::EndUpdate => reply.ok || reply.value % 4 == NOTIFIED,
            PollStep::Done { .. } => false,
            _ => true,
        }
    }

    fn access(&self) -> (access: Access) {
        match self.step {
            PollStep::Load => Access::Load(Place::Wake(self.node), Order::Relaxed),
            PollStep::BeginUpdate => Access::CompareExchangeWeak(
                Place::Wake(self.node),
                WAITING,
                UPDATING,
                Order::Acquire,
                Order::Relaxed,
            ),
            PollStep::ReplaceWaker => Access::StoreWaker(self.node),
            PollStep::EndUpdate => Access::CompareExchange(
                Place::Wake(self.node),
                UPDATING,
                WAITING,
                Order::AcqRel,
                Order::Acquire,
            ),
            PollStep::DropLate { .. } => Access::DropWaker(self.node),
            PollStep::Done { .. } => Access::Done,
        }
    }

    fn resume(&mut self, reply: Reply, _hints: &mut Hints) {
        self.step =
        match self.step {
            PollStep::Load => look(reply.value),
            PollStep::BeginUpdate => if reply.ok {
                PollStep::ReplaceWaker
            } else {
                look(reply.value)
            },
            PollStep::ReplaceWaker => PollStep::EndUpdate,
            PollStep::EndUpdate => if reply.ok {
                PollStep::Done { result: Polled::Pending }
            } else {
                PollStep::DropLate { state: reply.value }
            },
            PollStep::DropLate { state } => look(state),
            PollStep::Done { result } => PollStep::Done { result },
        };
    }
}

impl PollWaker {
    /// The poll after its access was answered.
    pub fn resumed(self, reply: Reply) -> (next: Self)
        requires
            self.wf(),
            self.expects(reply),
        ensures
            next == self.after(reply),
            next.wf(),
    {
        let mut next = self;
        next.resume(reply, &mut Hints::new());
        next
    }
}

pub open spec fn spec_begin_notify(state: usize) -> NotifyStep {
    if state % 4 == WAITING {
        NotifyStep::Consume
    } else if state % 4 == UPDATING {
        NotifyStep::Interrupt
    } else {
        NotifyStep::Done { took: false }
    }
}

/// How a notifying thread goes on from a state.
#[verifier::when_used_as_spec(spec_begin_notify)]
pub fn begin_notify(state: usize) -> (step: NotifyStep)
    requires
        state % 4 != CONSUMING,
    ensures
        step == spec_begin_notify(state),
{
    if state % 4 == WAITING {
        NotifyStep::Consume
    } else if state % 4 == UPDATING {
        NotifyStep::Interrupt
    } else {
        NotifyStep::Done { took: false }
    }
}

impl Operation for Notify {
    open spec fn wf(&self) -> bool {
        true
    }

    open spec fn wants(&self) -> Access {
        match self.step {
            NotifyStep::Load => Access::Load(Place::Wake(self.node), Order::Relaxed),
            NotifyStep::Consume => Access::CompareExchangeWeak(
                Place::Wake(self.node),
                WAITING,
                CONSUMING,
                Order::Acquire,
                Order::Relaxed,
            ),
            NotifyStep::Interrupt => Access::CompareExchangeWeak(
                Place::Wake(self.node),
                UPDATING,
                notified(self.notification),
                Order::Relaxed,
                Order::Relaxed,
            ),
            NotifyStep::Take => Access::TakeWaker(self.node),
            NotifyStep::SetNotified => Access::Store(
                Place::Wake(self.node),
                notified(self.notification),
                Order::Release,
            ),
            NotifyStep::Done { .. } => Access::Done,
        }
    }

    /// Somebody waits, and only one thread takes the waker.
    open spec fn expects(&self, reply: Reply) -> bool {
        match self.step {
            NotifyStep::Load => reply.value % 4 != CONSUMING,
            NotifyStep::Consume | NotifyStep::Interrupt => reply.ok || reply.value % 4 != CONSUMING,
            NotifyStep::Take => reply.ok,
            NotifyStep::Done { .. } => false,
            _ => true,
        }
    }

    open spec fn after(&self, reply: Reply) -> Self {
        let step = match self.step {
            NotifyStep::Load => begin_notify(reply.value),
            NotifyStep::Consume => if reply.ok {
                NotifyStep::Take
            } else {
                begin_notify(reply.value)
            },
            NotifyStep::Interrupt => if reply.ok {
                NotifyStep::Done { took: false }
            } else {
                begin_notify(reply.value)
            },
            NotifyStep::Take => NotifyStep::SetNotified,
            NotifyStep::SetNotified => NotifyStep::Done { took: true },
            NotifyStep::Done { took } => NotifyStep::Done { took },
        };
        Notify { step, ..*self }
    }

    fn accepts(&self, reply: Reply) -> (accepted: bool) {
        match self.step {
            NotifyStep::Load => reply.value % 4 != CONSUMING,
            NotifyStep::Consume | NotifyStep::Interrupt => reply.ok || reply.value % 4 != CONSUMING,
            NotifyStep::Take => reply.ok,
            NotifyStep::Done { .. } => false,
            _ => true,
        }
    }

    fn access(&self) -> (access: Access) {
        match self.step {
            NotifyStep::Load => Access::Load(Place::Wake(self.node), Order::Relaxed),
            NotifyStep::Consume => Access::CompareExchangeWeak(
                Place::Wake(self.node),
                WAITING,
                CONSUMING,
                Order::Acquire,
                Order::Relaxed,
            ),
            NotifyStep::Interrupt => Access::CompareExchangeWeak(
                Place::Wake(self.node),
                UPDATING,
                notified(self.notification),
                Order::Relaxed,
                Order::Relaxed,
            ),
            NotifyStep::Take => Access::TakeWaker(self.node),
            NotifyStep::SetNotified => Access::Store(
                Place::Wake(self.node),
                notified(self.notification),
                Order::Release,
            ),
            NotifyStep::Done { .. } => Access::Done,
        }
    }

    fn resume(&mut self, reply: Reply, _hints: &mut Hints) {
        self.step =
        match self.step {
            NotifyStep::Load => begin_notify(reply.value),
            NotifyStep::Consume => if reply.ok {
                NotifyStep::Take
            } else {
                begin_notify(reply.value)
            },
            NotifyStep::Interrupt => if reply.ok {
                NotifyStep::Done { took: false }
            } else {
                begin_notify(reply.value)
            },
            NotifyStep::Take => NotifyStep::SetNotified,
            NotifyStep::SetNotified => NotifyStep::Done { took: true },
            NotifyStep::Done { took } => NotifyStep::Done { took },
        };
    }
}

impl Notify {
    /// The notification after its access was answered.
    pub fn resumed(self, reply: Reply) -> (next: Self)
        requires
            self.wf(),
            self.expects(reply),
        ensures
            next == self.after(reply),
            next.wf(),
    {
        let mut next = self;
        next.resume(reply, &mut Hints::new());
        next
    }
}


/// A poll and a notification, as [`crate::meeting`] speaks of them: no reply comes
/// that either does not expect, [`crate::meeting::every_reply_is_expected`].
pub struct Cell;

impl Meeting for Cell {
    type Wait = PollWaker;

    type Notify = Notify;

    /// The cell was made ready, and nobody has woken the task yet.
    open spec fn begins(memory: Shared, wait: PollWaker, notify: Notify) -> bool {
        &&& wait.wf()
        &&& notify.wf()
        &&& wait.node == notify.node
        &&& wait.step is Load
        &&& notify.step is Load
        &&& at(memory, Place::Wake(wait.node)) == WAITING
        &&& (memory.wakers)(wait.node)
    }

    /// A task that was told to wait polls again when it is run again.
    open spec fn waits_again(wait: PollWaker, next: PollWaker) -> bool {
        &&& wait.step == (PollStep::Done { result: Polled::Pending })
        &&& next == (PollWaker { step: PollStep::Load, ..wait })
    }

    open spec fn agree(memory: Shared, wait: PollWaker, notify: Notify) -> bool {
        let state = at(memory, Place::Wake(wait.node));
        let waker = (memory.wakers)(wait.node);
        let notified = notified(notify.notification);
        &&& wait.wf()
        &&& notify.wf()
        &&& wait.node == notify.node
        // How far the notifying thread is.
        &&& match notify.step {
            NotifyStep::Load
            | NotifyStep::Consume
            | NotifyStep::Interrupt => state == WAITING || state == UPDATING,
            NotifyStep::Take => state == CONSUMING && waker,
            NotifyStep::SetNotified => state == CONSUMING,
            NotifyStep::Done { .. } => state == notified,
        }
        // How far the waiting task is.
        &&& match wait.step {
            PollStep::Load | PollStep::BeginUpdate => state != UPDATING && (state == WAITING
                ==> waker),
            PollStep::ReplaceWaker => state == UPDATING || notify.step == (NotifyStep::Done {
                took: false,
            }),
            PollStep::EndUpdate => waker && (state == UPDATING || notify.step
                == (NotifyStep::Done { took: false })),
            PollStep::DropLate { state: seen } => seen == notified && notify.step
                == (NotifyStep::Done { took: false }),
            PollStep::Done { result: Polled::Pending } => state != UPDATING && (state == WAITING
                ==> waker) && notify.step != (NotifyStep::Done { took: false }),
            PollStep::Done { result: Polled::Ready(notification) } => state == notified
                && notification == state / 4 && notify.step is Done,
        }
    }

    proof fn agree_at_first(memory: Shared, wait: PollWaker, notify: Notify) {
    }

    proof fn agree_again(memory: Shared, wait: PollWaker, notify: Notify, next: PollWaker) {
    }

    proof fn wait_step(
        memory: Shared,
        wait: PollWaker,
        notify: Notify,
        reply: Reply,
        next: Shared,
    ) {
        lemma_notified(notify.notification);
    }

    proof fn notify_step(
        memory: Shared,
        wait: PollWaker,
        notify: Notify,
        reply: Reply,
        next: Shared,
    ) {
        lemma_notified(notify.notification);
    }
}

/// A task that is notified gets the notification, if the notification fits.
pub proof fn notification_arrives(
    scenes: Seq<Scene<Cell>>,
    replies: Seq<Reply>,
    i: int,
    notification: usize,
)
    requires
        play(scenes, replies),
        0 <= i < scenes.len(),
        scenes[i].wait.step == (PollStep::Done { result: Polled::Ready(notification) }),
        scenes[i].notify.notification <= MAX_NOTIFICATION,
    ensures
        notification == scenes[i].notify.notification,
        scenes[i].notify.step is Done,
{
    always_agree(scenes, replies, i);
    lemma_notified(scenes[i].notify.notification);
}

/// No notification is lost. Once the notifying thread is done, a task that was
/// told to wait is woken by the waker that was taken, and a task that polls
/// again is ready at once.
pub proof fn notification_is_not_lost(scenes: Seq<Scene<Cell>>, replies: Seq<Reply>, i: int)
    requires
        play(scenes, replies),
        0 <= i < scenes.len(),
        scenes[i].notify.step is Done,
    ensures
        scenes[i].wait.step == (PollStep::Done { result: Polled::Pending })
            ==> scenes[i].notify.step == (NotifyStep::Done { took: true }),
        alone(
            PollWaker { node: scenes[i].wait.node, step: PollStep::Load },
            scenes[i].memory,
            1,
        ).0.step == (PollStep::Done {
            result: Polled::Ready(notified(scenes[i].notify.notification) / 4),
        }),
{
    always_agree(scenes, replies, i);
    lemma_notified(scenes[i].notify.notification);
    reveal_with_fuel(alone, 2);
}

impl CellOwners for Cell {
    open spec fn cell(wait: PollWaker) -> usize {
        wait.node
    }

    open spec fn is_set(memory: Shared, node: usize) -> bool {
        at(memory, Place::Wake(node)) == WAITING && (memory.wakers)(node)
    }

    open spec fn is_live(memory: Shared, node: usize) -> bool {
        let state = at(memory, Place::Wake(node));
        (state == WAITING || state == CONSUMING) && (memory.wakers)(node)
    }

    open spec fn pends(wait: PollWaker) -> bool {
        wait.step == (PollStep::Done { result: Polled::Pending })
    }

    open spec fn trusts(wait: PollWaker) -> bool {
        wait.step is EndUpdate
    }

    open spec fn leaves(wait: PollWaker) -> bool {
        wait.step is Load || wait.step is BeginUpdate || Self::pends(wait)
    }

    proof fn of_waiting(memory: Shared, wait: PollWaker, notify: Notify) {
        assert(Self::pends(wait) ==> wait.step is Done);
    }

    proof fn wait_sees_to(
        memory: Shared,
        wait: PollWaker,
        notify: Notify,
        reply: Reply,
        next: Shared,
    ) {
        lemma_notified(notify.notification);
        Self::wait_step(memory, wait, notify, reply, next);
    }

    proof fn notify_takes(
        memory: Shared,
        wait: PollWaker,
        notify: Notify,
        reply: Reply,
        next: Shared,
    ) {
        lemma_notified(notify.notification);
        Self::notify_step(memory, wait, notify, reply, next);
    }
}

impl Keeps<Debt> for Notify {
    open spec fn fits(&self, ledger: Debt) -> bool {
        &&& match self.step {
            NotifyStep::SetNotified => ledger.taken == Some(self.node),
            NotifyStep::Done { took: true } => {
                &&& ledger.taken == Some(self.node)
                &&& ledger.told == ledger.taken
            },
            _ => ledger.taken is None,
        }
        &&& !ledger.missed
        &&& ledger.lends
    }

    proof fn goes_on(operation: Self, ledger: Debt, reply: Reply) {
    }

    proof fn obeys(operation: Self, ledger: Debt) {
    }
}

/// A notification is over with a waker to wake exactly if it took one out
/// of the cell. It has stored the new state of the cell by then.
pub proof fn notify_gives_what_it_took(first: Notify, replies: Seq<Reply>)
    requires
        first.step is Load,
        is_course(first, replies),
    ensures
        ({
            let now = point(first, replies, replies.len() as int);
            let debt = ledger(first, replies, Debt::lent(), replies.len() as int);
            &&& debt.allows(now.wants())
            &&& !debt.missed
            &&& now.step matches NotifyStep::Done { took } ==> took == (debt.taken is Some)
        }),
{
    always_allowed(first, replies, Debt::lent(), replies.len() as int);
}

impl Keeps<Readiness> for Prepare {
    open spec fn fits(&self, ledger: Readiness) -> bool {
        &&& ledger.keeps == true
        &&& ledger.tells == true
        &&& ledger.waiting == WAITING
        &&& self.node == ledger.node
        &&& match self.step {
            PrepareStep::Check => true,
            PrepareStep::SetWaker => !ledger.ready,
            PrepareStep::SetWaiting => !ledger.ready && ledger.kept,
            PrepareStep::Done => ledger.ready || ledger.is_complete(),
        }
    }

    proof fn goes_on(operation: Self, ledger: Readiness, reply: Reply) {
    }

    proof fn obeys(operation: Self, ledger: Readiness) {
    }
}

/// A parker is ready once it has been made so: whoever makes it ready can be
/// woken by it, and it says that they wait. One that was ready is left alone.
pub proof fn prepared_parker_is_ready(node: usize, replies: Seq<Reply>)
    requires
        is_course(Prepare { node, step: PrepareStep::Check }, replies),
    ensures
        ({
            let first = Prepare { node, step: PrepareStep::Check };
            let start = Readiness::begin(node, true, true, WAITING);
            let now = point(first, replies, replies.len() as int);
            let readiness = ledger(first, replies, start, replies.len() as int);
            &&& readiness.allows(now.wants())
            &&& now.wants() is Done ==> readiness.ready || readiness.is_complete()
        }),
{
    let first = Prepare { node, step: PrepareStep::Check };
    let start = Readiness::begin(node, true, true, WAITING);
    always_allowed(first, replies, start, replies.len() as int);
}

impl Keeps<Renewal> for PollWaker {
    open spec fn fits(&self, ledger: Renewal) -> bool {
        &&& ledger.node == self.node
        &&& match self.step {
            PollStep::Load => !ledger.claimed && !ledger.late && !ledger.kept,
            PollStep::BeginUpdate => !ledger.claimed && !ledger.late && !ledger.kept,
            PollStep::ReplaceWaker => ledger.claimed && !ledger.late && !ledger.kept,
            PollStep::EndUpdate => {
                &&& ledger.claimed
                &&& ledger.fresh
                &&& !ledger.late
                &&& !ledger.kept
            },
            PollStep::DropLate { state } => {
                &&& !ledger.claimed
                &&& ledger.late
                &&& !ledger.kept
                &&& ledger.seen == Some(state)
            },
            PollStep::Done { result } => {
                &&& !ledger.claimed
                &&& !ledger.late
                &&& match result {
                    Polled::Pending => ledger.kept || {
                        &&& ledger.seen is Some
                        &&& ledger.seen.unwrap() % 4 == CONSUMING
                    },
                    Polled::Ready(notification) => {
                        &&& !ledger.kept
                        &&& ledger.seen is Some
                        &&& ledger.seen.unwrap() % 4 == NOTIFIED
                        &&& ledger.seen.unwrap() / 4 == notification
                    },
                }
            },
        }
    }

    proof fn goes_on(operation: Self, ledger: Renewal, reply: Reply) {
    }

    proof fn obeys(operation: Self, ledger: Renewal) {
    }
}

/// A poll that leaves the task waiting has put the waker of the task into the
/// cell, unless it saw that the waker was being taken. One that is over with a notification
/// saw it in the cell, and leaves no waker there.
pub proof fn poll_keeps_the_waker_fresh(node: usize, replies: Seq<Reply>)
    requires
        is_course(PollWaker { node, step: PollStep::Load }, replies),
    ensures
        ({
            let first = PollWaker { node, step: PollStep::Load };
            let now = point(first, replies, replies.len() as int);
            let renewal = ledger(first, replies, Renewal::begin(node), replies.len() as int);
            &&& renewal.allows(now.wants())
            &&& now.step matches PollStep::Done { result: Polled::Pending } ==> {
                ||| renewal.kept
                ||| renewal.seen is Some && renewal.seen.unwrap() % 4 == CONSUMING
            }
            &&& now.step matches PollStep::Done { result: Polled::Ready(notification) } ==> {
                &&& !renewal.kept
                &&& renewal.seen is Some
                &&& renewal.seen.unwrap() % 4 == NOTIFIED
                &&& renewal.seen.unwrap() / 4 == notification
            }
        }),
{
    let first = PollWaker { node, step: PollStep::Load };
    always_allowed(first, replies, Renewal::begin(node), replies.len() as int);
}

/// Whoever claims the waker of a cell sees what was done to it before, and so does
/// whoever is woken by the cell.
pub proof fn what_was_done_is_seen(poll: PollWaker, wake: Notify)
    ensures
        keeps_the_waker_visible(poll.wants(), UPDATING, CONSUMING),
        keeps_the_waker_visible(wake.wants(), UPDATING, CONSUMING),
        keeps_the_wake_visible(wake.wants()),
{
    lemma_notified(wake.notification);
}

} // verus!
