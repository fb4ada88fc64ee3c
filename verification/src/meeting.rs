//! Why a waker that is taken and one that is replaced do not collide.
//!
//! A task waits by a cell, and another thread wakes it through the cell. Their
//! accesses come in any order. A [`Meeting`] states how the cell and the two
//! operations agree at every point, and shows that a single access of either
//! keeps that agreement. From that, [`always_agree`] follows for every order
//! of the accesses: no reply ever comes that an operation does not expect.
use vstd::prelude::*;
use crate::access::{Operation, Reply};
use crate::memory::{Shared, performs};

verus! {

/// A waiting operation and a waking one that meet at a cell.
pub trait Meeting: Sized {
    type Wait: Operation;

    type Notify: Operation;

    /// How the memory and the two operations may stand at the beginning.
    spec fn begins(memory: Shared, wait: Self::Wait, notify: Self::Notify) -> bool;

    /// Whether a task that is done with one wait may begin another one.
    spec fn waits_again(wait: Self::Wait, next: Self::Wait) -> bool;

    /// What holds of the memory and the two operations at every point.
    spec fn agree(memory: Shared, wait: Self::Wait, notify: Self::Notify) -> bool;

    proof fn agree_at_first(memory: Shared, wait: Self::Wait, notify: Self::Notify)
        requires
            Self::begins(memory, wait, notify),
        ensures
            Self::agree(memory, wait, notify),
    ;

    proof fn agree_again(
        memory: Shared,
        wait: Self::Wait,
        notify: Self::Notify,
        next: Self::Wait,
    )
        requires
            Self::agree(memory, wait, notify),
            Self::waits_again(wait, next),
        ensures
            Self::agree(memory, next, notify),
    ;

    proof fn wait_step(
        memory: Shared,
        wait: Self::Wait,
        notify: Self::Notify,
        reply: Reply,
        next: Shared,
    )
        requires
            Self::agree(memory, wait, notify),
            !(wait.wants() is Done),
            performs(memory, wait.wants(), reply, next),
        ensures
            wait.expects(reply),
            Self::agree(next, wait.after(reply), notify),
    ;

    proof fn notify_step(
        memory: Shared,
        wait: Self::Wait,
        notify: Self::Notify,
        reply: Reply,
        next: Shared,
    )
        requires
            Self::agree(memory, wait, notify),
            !(notify.wants() is Done),
            performs(memory, notify.wants(), reply, next),
        ensures
            notify.expects(reply),
            Self::agree(next, wait, notify.after(reply)),
    ;
}

/// The memory and the two operations at one point.
#[verifier::reject_recursive_types(M)]
pub struct Scene<M: Meeting> {
    pub memory: Shared,
    pub wait: M::Wait,
    pub notify: M::Notify,
}

/// One access of either operation, or the beginning of another wait.
pub open spec fn moves<M: Meeting>(scene: Scene<M>, reply: Reply, next: Scene<M>) -> bool {
    ||| {
        &&& !(scene.wait.wants() is Done)
        &&& performs(scene.memory, scene.wait.wants(), reply, next.memory)
        &&& next.wait == scene.wait.after(reply)
        &&& next.notify == scene.notify
    }
    ||| {
        &&& !(scene.notify.wants() is Done)
        &&& performs(scene.memory, scene.notify.wants(), reply, next.memory)
        &&& next.notify == scene.notify.after(reply)
        &&& next.wait == scene.wait
    }
    ||| {
        &&& M::waits_again(scene.wait, next.wait)
        &&& next.notify == scene.notify
        &&& next.memory == scene.memory
    }
}

/// Scenes each of which is one move from the one before.
pub open spec fn play<M: Meeting>(scenes: Seq<Scene<M>>, replies: Seq<Reply>) -> bool {
    &&& scenes.len() > 0
    &&& replies.len() == scenes.len() - 1
    &&& M::begins(scenes[0].memory, scenes[0].wait, scenes[0].notify)
    &&& forall|i: int|
        0 <= i < scenes.len() - 1 ==> moves(scenes[i], #[trigger] replies[i], scenes[i + 1])
}

/// However the accesses of the two operations are ordered, they agree with the
/// memory at every point.
pub proof fn always_agree<M: Meeting>(scenes: Seq<Scene<M>>, replies: Seq<Reply>, i: int)
    requires
        play(scenes, replies),
        0 <= i < scenes.len(),
    ensures
        M::agree(scenes[i].memory, scenes[i].wait, scenes[i].notify),
    decreases i,
{
    if i == 0 {
        M::agree_at_first(scenes[0].memory, scenes[0].wait, scenes[0].notify);
    } else {
        always_agree(scenes, replies, i - 1);
        let scene = scenes[i - 1];
        let reply = replies[i - 1];
        let next = scenes[i];
        assert(moves(scene, reply, next));
        if M::waits_again(scene.wait, next.wait) && next.notify == scene.notify && next.memory
            == scene.memory {
            M::agree_again(scene.memory, scene.wait, scene.notify, next.wait);
        } else if !(scene.wait.wants() is Done) && performs(
            scene.memory,
            scene.wait.wants(),
            reply,
            next.memory,
        ) && next.wait == scene.wait.after(reply) && next.notify == scene.notify {
            M::wait_step(scene.memory, scene.wait, scene.notify, reply, next.memory);
        } else {
            M::notify_step(scene.memory, scene.wait, scene.notify, reply, next.memory);
        }
    }
}

/// Every reply that either operation gets is one that it expects.
pub proof fn every_reply_is_expected<M: Meeting>(
    scenes: Seq<Scene<M>>,
    replies: Seq<Reply>,
    i: int,
    reply: Reply,
    next: Shared,
)
    requires
        play(scenes, replies),
        0 <= i < scenes.len(),
    ensures
        !(scenes[i].wait.wants() is Done) && performs(
            scenes[i].memory,
            scenes[i].wait.wants(),
            reply,
            next,
        ) ==> scenes[i].wait.expects(reply),
        !(scenes[i].notify.wants() is Done) && performs(
            scenes[i].memory,
            scenes[i].notify.wants(),
            reply,
            next,
        ) ==> scenes[i].notify.expects(reply),
{
    always_agree(scenes, replies, i);
    let scene = scenes[i];
    if !(scene.wait.wants() is Done) && performs(scene.memory, scene.wait.wants(), reply, next) {
        M::wait_step(scene.memory, scene.wait, scene.notify, reply, next);
    }
    if !(scene.notify.wants() is Done) && performs(
        scene.memory,
        scene.notify.wants(),
        reply,
        next,
    ) {
        M::notify_step(scene.memory, scene.wait, scene.notify, reply, next);
    }
}

} // verus!
