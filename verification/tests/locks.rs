use usync::access::{Access, Link, Operation, Order, Place, Reply};
use usync::kernel::cpu::Hints;
use usync::memory::Memory;
use usync::try_lock::{IsLocked, TryLock};

/// Runs an operation until it is over or has to wait.
fn rest<P: Operation>(operation: &mut P, memory: &mut Memory) {
    for _ in 0..200 {
        match operation.access() {
            Access::Done | Access::Park | Access::ParkUntil => return,
            access => {
                let reply = memory.perform(access);
                assert!(operation.accepts(reply));
                operation.resume(reply, &mut Hints::new());
            }
        }
    }
    panic!("the operation does not come to rest");
}

/// Goes on with an operation that waits, as if it was woken.
fn wake_up<P: Operation>(operation: &mut P, memory: &mut Memory) {
    let reply = memory.perform(operation.access());
    operation.resume(reply, &mut Hints::new());
    rest(operation, memory);
}

/// Gives an operation a reply of the given kind.
fn answer<P: Operation>(operation: &mut P, ok: bool, value: usize) {
    operation.resume(Reply { ok, value }, &mut Hints::new());
}

fn node(i: usize) -> usize {
    Memory::address(i)
}

#[test]
fn lock_is_taken_and_given_up() {
    let lock = usync::lock::Lock::new(5u32);
    let mut memory = Memory::new(0, 1);
    let mut attempt = lock.lock(node(0));
    rest(&mut attempt, &mut memory);
    assert_eq!(attempt.step, usync::lock::LockStep::Locked);
    assert_eq!(memory.get(Place::Word), 1);
    let mut unlock = lock.unlock();
    rest(&mut unlock, &mut memory);
    assert!(matches!(unlock.access(), Access::Done));
    assert_eq!(memory.get(Place::Word), 0);
}

#[test]
fn lock_is_tried() {
    let lock = usync::lock::Lock::new(5u32);
    let mut memory = Memory::new(0, 1);
    let mut first = lock.try_lock();
    rest(&mut first, &mut memory);
    assert_eq!(first, TryLock::Locked);
    let mut second = lock.try_lock();
    rest(&mut second, &mut memory);
    assert_eq!(second, TryLock::Failed);
    assert_eq!(memory.get(Place::Word), 1);
}

#[test]
fn lock_wakes_in_the_order_of_arrival() {
    let lock = usync::lock::Lock::new(5u32);
    let mut memory = Memory::new(0, 4);
    let mut holder = lock.lock(node(0));
    rest(&mut holder, &mut memory);
    let mut first = lock.lock(node(1));
    rest(&mut first, &mut memory);
    let mut second = lock.lock(node(2));
    rest(&mut second, &mut memory);
    let mut third = lock.lock(node(3));
    rest(&mut third, &mut memory);
    assert!(matches!(third.access(), Access::Park));
    assert_eq!(memory.get(Place::Word), node(3) + 1);
    assert_eq!(memory.get(Place::Link(node(3), Link::Next)), node(2));
    assert_eq!(memory.get(Place::Link(node(2), Link::Next)), node(1));
    assert_eq!(memory.get(Place::Link(node(1), Link::Tail)), node(1));
    let mut unlock = lock.unlock();
    rest(&mut unlock, &mut memory);
    assert!(matches!(unlock.access(), Access::Done));
    assert_eq!(memory.get(Place::Word), node(3));
    assert_eq!(memory.get(Place::Link(node(3), Link::Tail)), node(2));
    assert!(!memory.has_waker(node(1)));
    assert!(memory.has_waker(node(2)));
    wake_up(&mut second, &mut memory);
    assert!(matches!(second.access(), Access::Park));
    wake_up(&mut first, &mut memory);
    assert_eq!(first.step, usync::lock::LockStep::Locked);
    let mut unlock = lock.unlock();
    rest(&mut unlock, &mut memory);
    assert!(!memory.has_waker(node(2)));
    wake_up(&mut second, &mut memory);
    assert_eq!(second.step, usync::lock::LockStep::Locked);
    let mut unlock = lock.unlock();
    rest(&mut unlock, &mut memory);
    wake_up(&mut third, &mut memory);
    assert_eq!(third.step, usync::lock::LockStep::Locked);
    let mut unlock = lock.unlock();
    rest(&mut unlock, &mut memory);
    assert_eq!(memory.get(Place::Word), 0);
}

#[test]
fn intel_kernel_lock_is_taken_and_given_up() {
    let lock = usync::kernel::lock::Lock::new(5u32);
    let mut memory = Memory::new(0, 1);
    let mut attempt = lock.lock(node(0), true);
    rest(&mut attempt, &mut memory);
    assert_eq!(attempt.step, usync::kernel::lock::LockStep::Locked);
    assert_eq!(memory.get(Place::Word), 1);
    let mut unlock = lock.unlock(true);
    rest(&mut unlock, &mut memory);
    assert!(matches!(unlock.access(), Access::Done));
    assert_eq!(memory.get(Place::Word), 0);
}

#[test]
fn intel_kernel_lock_is_tried() {
    let lock = usync::kernel::lock::Lock::new(5u32);
    let mut memory = Memory::new(0, 1);
    let mut first = lock.try_lock();
    rest(&mut first, &mut memory);
    assert_eq!(first, usync::kernel::lock::TryLock::Locked);
    let mut second = lock.try_lock();
    rest(&mut second, &mut memory);
    assert_eq!(second, usync::kernel::lock::TryLock::Failed);
    assert_eq!(memory.get(Place::Word), 1);
}

#[test]
fn intel_kernel_lock_wakes_in_the_order_of_arrival() {
    let lock = usync::kernel::lock::Lock::new(5u32);
    let mut memory = Memory::new(0, 4);
    let mut holder = lock.lock(node(0), true);
    rest(&mut holder, &mut memory);
    let mut first = lock.lock(node(1), true);
    rest(&mut first, &mut memory);
    let mut second = lock.lock(node(2), true);
    rest(&mut second, &mut memory);
    let mut third = lock.lock(node(3), true);
    rest(&mut third, &mut memory);
    assert!(matches!(third.access(), Access::Park));
    assert_eq!(memory.get(Place::Word), node(3) + 1);
    assert_eq!(memory.get(Place::Link(node(3), Link::Next)), node(2));
    assert_eq!(memory.get(Place::Link(node(2), Link::Next)), node(1));
    assert_eq!(memory.get(Place::Link(node(1), Link::Tail)), node(1));
    let mut unlock = lock.unlock(true);
    rest(&mut unlock, &mut memory);
    assert!(matches!(unlock.access(), Access::Done));
    assert_eq!(memory.get(Place::Word), node(3));
    assert_eq!(memory.get(Place::Link(node(3), Link::Tail)), node(2));
    assert!(!memory.has_waker(node(1)));
    assert!(memory.has_waker(node(2)));
    wake_up(&mut second, &mut memory);
    assert!(matches!(second.access(), Access::Park));
    wake_up(&mut first, &mut memory);
    assert_eq!(first.step, usync::kernel::lock::LockStep::Locked);
    let mut unlock = lock.unlock(true);
    rest(&mut unlock, &mut memory);
    assert!(!memory.has_waker(node(2)));
    wake_up(&mut second, &mut memory);
    assert_eq!(second.step, usync::kernel::lock::LockStep::Locked);
    let mut unlock = lock.unlock(true);
    rest(&mut unlock, &mut memory);
    wake_up(&mut third, &mut memory);
    assert_eq!(third.step, usync::kernel::lock::LockStep::Locked);
    let mut unlock = lock.unlock(true);
    rest(&mut unlock, &mut memory);
    assert_eq!(memory.get(Place::Word), 0);
}

#[test]
fn other_kernel_lock_is_taken_and_given_up() {
    let lock = usync::kernel::lock::Lock::new(5u32);
    let mut memory = Memory::new(0, 1);
    let mut attempt = lock.lock(node(0), false);
    rest(&mut attempt, &mut memory);
    assert_eq!(attempt.step, usync::kernel::lock::LockStep::Locked);
    assert_eq!(memory.get(Place::Word), 1);
    let mut unlock = lock.unlock(false);
    rest(&mut unlock, &mut memory);
    assert!(matches!(unlock.access(), Access::Done));
    assert_eq!(memory.get(Place::Word), 0);
}

#[test]
fn other_kernel_lock_is_tried() {
    let lock = usync::kernel::lock::Lock::new(5u32);
    let mut memory = Memory::new(0, 1);
    let mut first = lock.try_lock();
    rest(&mut first, &mut memory);
    assert_eq!(first, usync::kernel::lock::TryLock::Locked);
    let mut second = lock.try_lock();
    rest(&mut second, &mut memory);
    assert_eq!(second, usync::kernel::lock::TryLock::Failed);
    assert_eq!(memory.get(Place::Word), 1);
}

#[test]
fn other_kernel_lock_wakes_in_the_order_of_arrival() {
    let lock = usync::kernel::lock::Lock::new(5u32);
    let mut memory = Memory::new(0, 4);
    let mut holder = lock.lock(node(0), false);
    rest(&mut holder, &mut memory);
    let mut first = lock.lock(node(1), false);
    rest(&mut first, &mut memory);
    let mut second = lock.lock(node(2), false);
    rest(&mut second, &mut memory);
    let mut third = lock.lock(node(3), false);
    rest(&mut third, &mut memory);
    assert!(matches!(third.access(), Access::Park));
    assert_eq!(memory.get(Place::Word), node(3) + 1);
    assert_eq!(memory.get(Place::Link(node(3), Link::Next)), node(2));
    assert_eq!(memory.get(Place::Link(node(2), Link::Next)), node(1));
    assert_eq!(memory.get(Place::Link(node(1), Link::Tail)), node(1));
    let mut unlock = lock.unlock(false);
    rest(&mut unlock, &mut memory);
    assert!(matches!(unlock.access(), Access::Done));
    assert_eq!(memory.get(Place::Word), node(3) + 256);
    assert_eq!(memory.get(Place::Link(node(3), Link::Tail)), node(2));
    assert!(!memory.has_waker(node(1)));
    assert!(memory.has_waker(node(2)));
    wake_up(&mut second, &mut memory);
    assert!(matches!(second.access(), Access::Park));
    wake_up(&mut first, &mut memory);
    assert_eq!(first.step, usync::kernel::lock::LockStep::Locked);
    let mut unlock = lock.unlock(false);
    rest(&mut unlock, &mut memory);
    assert!(!memory.has_waker(node(2)));
    wake_up(&mut second, &mut memory);
    assert_eq!(second.step, usync::kernel::lock::LockStep::Locked);
    let mut unlock = lock.unlock(false);
    rest(&mut unlock, &mut memory);
    wake_up(&mut third, &mut memory);
    assert_eq!(third.step, usync::kernel::lock::LockStep::Locked);
    let mut unlock = lock.unlock(false);
    rest(&mut unlock, &mut memory);
    assert_eq!(memory.get(Place::Word), 0);
}

#[test]
fn base_lock_is_taken_and_given_up() {
    let lock = usync::base::lock::Lock::new(5u32);
    let mut memory = Memory::new(0, 1);
    let mut attempt = lock.lock(node(0));
    rest(&mut attempt, &mut memory);
    assert_eq!(attempt.step, usync::base::lock::LockStep::Locked);
    assert_eq!(memory.get(Place::Word), 1);
    let mut unlock = lock.unlock();
    rest(&mut unlock, &mut memory);
    assert!(matches!(unlock.access(), Access::Done));
    assert_eq!(memory.get(Place::Word), 0);
}

#[test]
fn base_lock_is_tried() {
    let lock = usync::base::lock::Lock::new(5u32);
    let mut memory = Memory::new(0, 1);
    let mut first = lock.try_lock();
    rest(&mut first, &mut memory);
    assert_eq!(first, TryLock::Locked);
    let mut second = lock.try_lock();
    rest(&mut second, &mut memory);
    assert_eq!(second, TryLock::Failed);
    assert_eq!(memory.get(Place::Word), 1);
}

#[test]
fn base_lock_wakes_in_the_order_of_arrival() {
    let lock = usync::base::lock::Lock::new(5u32);
    let mut memory = Memory::new(0, 4);
    let mut holder = lock.lock(node(0));
    rest(&mut holder, &mut memory);
    let mut first = lock.lock(node(1));
    rest(&mut first, &mut memory);
    let mut second = lock.lock(node(2));
    rest(&mut second, &mut memory);
    let mut third = lock.lock(node(3));
    rest(&mut third, &mut memory);
    assert!(matches!(third.access(), Access::Park));
    assert_eq!(memory.get(Place::Word), node(3) + 1);
    assert_eq!(memory.get(Place::Link(node(3), Link::Next)), node(2));
    assert_eq!(memory.get(Place::Link(node(2), Link::Next)), node(1));
    assert_eq!(memory.get(Place::Link(node(1), Link::Tail)), node(1));
    let mut unlock = lock.unlock();
    rest(&mut unlock, &mut memory);
    assert!(matches!(unlock.access(), Access::Done));
    assert_eq!(memory.get(Place::Word), node(3));
    assert_eq!(memory.get(Place::Link(node(3), Link::Tail)), node(2));
    assert!(!memory.has_waker(node(1)));
    assert!(memory.has_waker(node(2)));
    wake_up(&mut second, &mut memory);
    assert!(matches!(second.access(), Access::Park));
    wake_up(&mut first, &mut memory);
    assert_eq!(first.step, usync::base::lock::LockStep::Locked);
    let mut unlock = lock.unlock();
    rest(&mut unlock, &mut memory);
    assert!(!memory.has_waker(node(2)));
    wake_up(&mut second, &mut memory);
    assert_eq!(second.step, usync::base::lock::LockStep::Locked);
    let mut unlock = lock.unlock();
    rest(&mut unlock, &mut memory);
    wake_up(&mut third, &mut memory);
    assert_eq!(third.step, usync::base::lock::LockStep::Locked);
    let mut unlock = lock.unlock();
    rest(&mut unlock, &mut memory);
    assert_eq!(memory.get(Place::Word), 0);
}

#[test]
fn shared_lock_is_taken_and_given_up() {
    let lock = usync::shared::lock::Lock::new(5u32);
    let mut memory = Memory::new(0, 1);
    let mut attempt = lock.lock(node(0));
    rest(&mut attempt, &mut memory);
    assert_eq!(attempt.step, usync::shared::lock::LockStep::Locked);
    assert_eq!(memory.get(Place::Word), 1);
    let mut unlock = lock.unlock();
    rest(&mut unlock, &mut memory);
    assert!(matches!(unlock.access(), Access::Done));
    assert_eq!(memory.get(Place::Word), 0);
}

#[test]
fn shared_lock_is_tried() {
    let lock = usync::shared::lock::Lock::new(5u32);
    let mut memory = Memory::new(0, 1);
    let mut first = lock.try_lock();
    rest(&mut first, &mut memory);
    assert_eq!(first, TryLock::Locked);
    let mut second = lock.try_lock();
    rest(&mut second, &mut memory);
    assert_eq!(second, TryLock::Failed);
    assert_eq!(memory.get(Place::Word), 1);
}

#[test]
fn shared_lock_wakes_in_the_order_of_arrival() {
    let lock = usync::shared::lock::Lock::new(5u32);
    let mut memory = Memory::new(0, 4);
    let mut holder = lock.lock(node(0));
    rest(&mut holder, &mut memory);
    let mut first = lock.lock(node(1));
    rest(&mut first, &mut memory);
    let mut second = lock.lock(node(2));
    rest(&mut second, &mut memory);
    let mut third = lock.lock(node(3));
    rest(&mut third, &mut memory);
    assert!(matches!(third.access(), Access::Park));
    assert_eq!(memory.get(Place::Word), node(3) + 1);
    assert_eq!(memory.get(Place::Link(node(3), Link::Next)), node(2));
    assert_eq!(memory.get(Place::Link(node(2), Link::Next)), node(1));
    assert_eq!(memory.get(Place::Link(node(1), Link::Tail)), node(1));
    let mut unlock = lock.unlock();
    rest(&mut unlock, &mut memory);
    assert!(matches!(unlock.access(), Access::Done));
    assert_eq!(memory.get(Place::Word), node(3));
    assert_eq!(memory.get(Place::Link(node(3), Link::Tail)), node(2));
    assert!(!memory.has_waker(node(1)));
    assert!(memory.has_waker(node(2)));
    wake_up(&mut second, &mut memory);
    assert!(matches!(second.access(), Access::Park));
    wake_up(&mut first, &mut memory);
    assert_eq!(first.step, usync::shared::lock::LockStep::Locked);
    let mut unlock = lock.unlock();
    rest(&mut unlock, &mut memory);
    assert!(!memory.has_waker(node(2)));
    wake_up(&mut second, &mut memory);
    assert_eq!(second.step, usync::shared::lock::LockStep::Locked);
    let mut unlock = lock.unlock();
    rest(&mut unlock, &mut memory);
    wake_up(&mut third, &mut memory);
    assert_eq!(third.step, usync::shared::lock::LockStep::Locked);
    let mut unlock = lock.unlock();
    rest(&mut unlock, &mut memory);
    assert_eq!(memory.get(Place::Word), 0);
}

#[test]
fn raw_lock_is_taken_and_given_up() {
    let lock = usync::raw::lock::Lock::new();
    let mut memory = Memory::new(0, 1);
    let mut attempt = lock.lock(node(0));
    rest(&mut attempt, &mut memory);
    assert_eq!(attempt.step, usync::raw::lock::LockStep::Locked);
    assert_eq!(memory.get(Place::Word), 1);
    let mut unlock = lock.unlock();
    rest(&mut unlock, &mut memory);
    assert!(matches!(unlock.access(), Access::Done));
    assert_eq!(memory.get(Place::Word), 0);
}

#[test]
fn raw_lock_is_tried() {
    let lock = usync::raw::lock::Lock::new();
    let mut memory = Memory::new(0, 1);
    let mut first = lock.try_lock();
    rest(&mut first, &mut memory);
    assert_eq!(first, TryLock::Locked);
    let mut second = lock.try_lock();
    rest(&mut second, &mut memory);
    assert_eq!(second, TryLock::Failed);
    assert_eq!(memory.get(Place::Word), 1);
}

#[test]
fn raw_lock_wakes_in_the_order_of_arrival() {
    let lock = usync::raw::lock::Lock::new();
    let mut memory = Memory::new(0, 4);
    let mut holder = lock.lock(node(0));
    rest(&mut holder, &mut memory);
    let mut first = lock.lock(node(1));
    rest(&mut first, &mut memory);
    let mut second = lock.lock(node(2));
    rest(&mut second, &mut memory);
    let mut third = lock.lock(node(3));
    rest(&mut third, &mut memory);
    assert!(matches!(third.access(), Access::Park));
    assert_eq!(memory.get(Place::Word), node(3) + 1);
    assert_eq!(memory.get(Place::Link(node(3), Link::Next)), node(2));
    assert_eq!(memory.get(Place::Link(node(2), Link::Next)), node(1));
    assert_eq!(memory.get(Place::Link(node(1), Link::Tail)), node(1));
    let mut unlock = lock.unlock();
    rest(&mut unlock, &mut memory);
    assert!(matches!(unlock.access(), Access::Done));
    assert_eq!(memory.get(Place::Word), node(3));
    assert_eq!(memory.get(Place::Link(node(3), Link::Tail)), node(2));
    assert!(!memory.has_waker(node(1)));
    assert!(memory.has_waker(node(2)));
    wake_up(&mut second, &mut memory);
    assert!(matches!(second.access(), Access::Park));
    wake_up(&mut first, &mut memory);
    assert_eq!(first.step, usync::raw::lock::LockStep::Locked);
    let mut unlock = lock.unlock();
    rest(&mut unlock, &mut memory);
    assert!(!memory.has_waker(node(2)));
    wake_up(&mut second, &mut memory);
    assert_eq!(second.step, usync::raw::lock::LockStep::Locked);
    let mut unlock = lock.unlock();
    rest(&mut unlock, &mut memory);
    wake_up(&mut third, &mut memory);
    assert_eq!(third.step, usync::raw::lock::LockStep::Locked);
    let mut unlock = lock.unlock();
    rest(&mut unlock, &mut memory);
    assert_eq!(memory.get(Place::Word), 0);
}

#[test]
fn throughput_mutex_is_taken_and_given_up() {
    let lock = usync::throughput::Mutex::new(5u32);
    let mut memory = Memory::new(0, 1);
    let mut attempt = lock.lock(node(0));
    rest(&mut attempt, &mut memory);
    assert_eq!(attempt.step, usync::throughput::LockStep::Locked);
    assert_eq!(memory.get(Place::Word), 1);
    let mut unlock = lock.force_unlock();
    rest(&mut unlock, &mut memory);
    assert!(matches!(unlock.access(), Access::Done));
    assert_eq!(memory.get(Place::Word), 0);
}

#[test]
fn throughput_mutex_is_tried() {
    let lock = usync::throughput::Mutex::new(5u32);
    let mut memory = Memory::new(0, 1);
    let mut first = lock.try_lock();
    rest(&mut first, &mut memory);
    assert_eq!(first, usync::throughput::TryLock::Locked);
    let mut second = lock.try_lock();
    rest(&mut second, &mut memory);
    assert_eq!(second, usync::throughput::TryLock::Failed);
    assert_eq!(memory.get(Place::Word), 1);
}

#[test]
fn throughput_mutex_wakes_in_the_order_of_arrival() {
    let lock = usync::throughput::Mutex::new(5u32);
    let mut memory = Memory::new(0, 4);
    let mut holder = lock.lock(node(0));
    rest(&mut holder, &mut memory);
    let mut first = lock.lock(node(1));
    rest(&mut first, &mut memory);
    let mut second = lock.lock(node(2));
    rest(&mut second, &mut memory);
    let mut third = lock.lock(node(3));
    rest(&mut third, &mut memory);
    assert!(matches!(third.access(), Access::Park));
    assert_eq!(memory.get(Place::Word), node(3) + 1);
    assert_eq!(memory.get(Place::Link(node(3), Link::Next)), node(2));
    assert_eq!(memory.get(Place::Link(node(2), Link::Next)), node(1));
    assert_eq!(memory.get(Place::Link(node(1), Link::Tail)), node(1));
    let mut unlock = lock.force_unlock();
    rest(&mut unlock, &mut memory);
    assert!(matches!(unlock.access(), Access::Done));
    assert_eq!(memory.get(Place::Word), node(3) + 256);
    assert_eq!(memory.get(Place::Link(node(3), Link::Tail)), node(2));
    assert!(!memory.has_waker(node(1)));
    assert!(memory.has_waker(node(2)));
    wake_up(&mut second, &mut memory);
    assert!(matches!(second.access(), Access::Park));
    wake_up(&mut first, &mut memory);
    assert_eq!(first.step, usync::throughput::LockStep::Locked);
    let mut unlock = lock.force_unlock();
    rest(&mut unlock, &mut memory);
    assert!(!memory.has_waker(node(2)));
    wake_up(&mut second, &mut memory);
    assert_eq!(second.step, usync::throughput::LockStep::Locked);
    let mut unlock = lock.force_unlock();
    rest(&mut unlock, &mut memory);
    wake_up(&mut third, &mut memory);
    assert_eq!(third.step, usync::throughput::LockStep::Locked);
    let mut unlock = lock.force_unlock();
    rest(&mut unlock, &mut memory);
    assert_eq!(memory.get(Place::Word), 0);
}

#[test]
fn fair_mutex_is_taken_and_given_up() {
    let lock = usync::eventually_fair::Mutex::new(5u32);
    let mut memory = Memory::new(0, 1);
    let mut attempt = lock.lock(node(0));
    rest(&mut attempt, &mut memory);
    assert_eq!(attempt.step, usync::eventually_fair::LockStep::Locked);
    assert_eq!(memory.get(Place::Word), 1);
    let mut unlock = lock.force_unlock();
    rest(&mut unlock, &mut memory);
    assert!(matches!(unlock.access(), Access::Done));
    assert_eq!(memory.get(Place::Word), 0);
}

#[test]
fn fair_mutex_is_tried() {
    let lock = usync::eventually_fair::Mutex::new(5u32);
    let mut memory = Memory::new(0, 1);
    let mut first = lock.try_lock();
    rest(&mut first, &mut memory);
    assert_eq!(first, usync::eventually_fair::TryLock::Locked);
    let mut second = lock.try_lock();
    rest(&mut second, &mut memory);
    assert_eq!(second, usync::eventually_fair::TryLock::Failed);
    assert_eq!(memory.get(Place::Word), 1);
}

#[test]
fn fair_mutex_wakes_in_the_order_of_arrival() {
    let lock = usync::eventually_fair::Mutex::new(5u32);
    let mut memory = Memory::new(0, 4);
    let mut holder = lock.lock(node(0));
    rest(&mut holder, &mut memory);
    let mut first = lock.lock(node(1));
    rest(&mut first, &mut memory);
    let mut second = lock.lock(node(2));
    rest(&mut second, &mut memory);
    let mut third = lock.lock(node(3));
    rest(&mut third, &mut memory);
    assert!(matches!(third.access(), Access::Park));
    assert_eq!(memory.get(Place::Word), node(3) + 1);
    assert_eq!(memory.get(Place::Link(node(3), Link::Next)), node(2));
    assert_eq!(memory.get(Place::Link(node(2), Link::Next)), node(1));
    assert_eq!(memory.get(Place::Link(node(1), Link::Tail)), node(1));
    let mut unlock = lock.force_unlock();
    rest(&mut unlock, &mut memory);
    assert!(matches!(unlock.access(), Access::Done));
    assert_eq!(memory.get(Place::Word), node(3));
    assert_eq!(memory.get(Place::Link(node(3), Link::Tail)), node(2));
    assert!(!memory.has_waker(node(1)));
    assert!(memory.has_waker(node(2)));
    wake_up(&mut second, &mut memory);
    assert!(matches!(second.access(), Access::Park));
    wake_up(&mut first, &mut memory);
    assert_eq!(first.step, usync::eventually_fair::LockStep::Locked);
    let mut unlock = lock.force_unlock();
    rest(&mut unlock, &mut memory);
    assert!(!memory.has_waker(node(2)));
    wake_up(&mut second, &mut memory);
    assert_eq!(second.step, usync::eventually_fair::LockStep::Locked);
    let mut unlock = lock.force_unlock();
    rest(&mut unlock, &mut memory);
    wake_up(&mut third, &mut memory);
    assert_eq!(third.step, usync::eventually_fair::LockStep::Locked);
    let mut unlock = lock.force_unlock();
    rest(&mut unlock, &mut memory);
    assert_eq!(memory.get(Place::Word), 0);
}

#[test]
fn locks_keep_their_value() {
    assert_eq!(usync::lock::Lock::new(7u8).into_inner(), 7);
    assert_eq!(usync::kernel::lock::Lock::new(7u8).into_inner(), 7);
    assert_eq!(usync::base::lock::Lock::new(7u8).into_inner(), 7);
    assert_eq!(usync::throughput::Mutex::new(7u8).into_inner(), 7);
    let mut mutex = usync::eventually_fair::Mutex::from(7u8);
    *mutex.as_mut() = 9;
    assert_eq!(mutex.into_inner(), 9);
    let mutex: usync::throughput::Mutex<u16> = Default::default();
    assert_eq!(mutex.into_inner(), 0);
}

#[test]
fn fresh_locks_are_free() {
    let mut look = usync::lock::Lock::new(1u8).is_locked();
    rest(&mut look, &mut Memory::new(0, 0));
    assert_eq!(look, IsLocked::Done { held: false });
    let mut look = usync::raw::lock::Lock::new().is_locked();
    rest(&mut look, &mut Memory::new(0, 0));
    assert_eq!(look, IsLocked::Done { held: false });
    // A waiter and the waking flag, but nobody who holds the lock.
    let mut look = usync::raw::lock::Lock::new().is_locked();
    rest(&mut look, &mut Memory::new(node(0) + 2, 1));
    assert_eq!(look, IsLocked::Done { held: false });
}

#[test]
fn a_held_lock_is_seen_as_held() {
    let lock = usync::lock::Lock::new(1u8);
    let mut memory = Memory::new(0, 1);
    let mut attempt = lock.try_lock();
    rest(&mut attempt, &mut memory);
    assert_eq!(attempt, TryLock::Locked);
    let mut look = lock.is_locked();
    assert_eq!(look.access(), Access::Load(Place::Word, Order::Relaxed));
    rest(&mut look, &mut memory);
    assert_eq!(look, IsLocked::Done { held: true });
    // A waiter joins, and the lock stays held.
    let mut waiter = lock.lock(node(0));
    rest(&mut waiter, &mut memory);
    let mut look = lock.is_locked();
    rest(&mut look, &mut memory);
    assert_eq!(look, IsLocked::Done { held: true });
    let mut unlock = lock.unlock();
    rest(&mut unlock, &mut memory);
    let mut look = lock.is_locked();
    rest(&mut look, &mut memory);
    assert_eq!(look, IsLocked::Done { held: false });
}

#[test]
fn a_held_raw_lock_is_seen_as_held() {
    let lock = usync::raw::lock::Lock::new();
    let mut memory = Memory::new(0, 1);
    let mut attempt = lock.try_lock();
    rest(&mut attempt, &mut memory);
    let mut look = lock.is_locked();
    rest(&mut look, &mut memory);
    assert_eq!(look, IsLocked::Done { held: true });
    let mut unlock = lock.unlock();
    rest(&mut unlock, &mut memory);
    let mut look = lock.is_locked();
    rest(&mut look, &mut memory);
    assert_eq!(look, IsLocked::Done { held: false });
}

#[test]
fn a_failed_swap_leaves_the_word() {
    let lock = usync::kernel::lock::Lock::new(0u8);
    let mut memory = Memory::new(node(0) + 1, 1);
    let mut attempt = lock.try_lock();
    rest(&mut attempt, &mut memory);
    assert_eq!(attempt, usync::kernel::lock::TryLock::Failed);
    assert_eq!(memory.get(Place::Word), node(0) + 1);
}

#[test]
fn late_waker_of_a_lock_is_not_lost() {
    // The waiter replaces its waker while it is woken.
    let lock = usync::lock::Lock::new(0u8);
    let mut memory = Memory::new(0, 2);
    let mut holder = lock.lock(node(0));
    rest(&mut holder, &mut memory);
    let mut waiter = lock.lock(node(1));
    rest(&mut waiter, &mut memory);
    assert_eq!(memory.get(Place::Wake(node(1))), usync::lock::STORED);
    // Polled again: it claims the waker.
    for _ in 0..3 {
        let reply = memory.perform(waiter.access());
        waiter.resume(reply, &mut Hints::new());
    }
    assert_eq!(waiter.step, usync::lock::LockStep::ReplaceWaker);
    assert_eq!(memory.get(Place::Wake(node(1))), usync::lock::UPDATING);
    let mut unlock = lock.unlock();
    rest(&mut unlock, &mut memory);
    assert_eq!(unlock, usync::lock::Unlock::Released);
    assert_eq!(memory.get(Place::Wake(node(1))), usync::lock::EMPTY);
    rest(&mut waiter, &mut memory);
    assert_eq!(waiter.step, usync::lock::LockStep::Locked);
}

#[test]
fn unlock_leaves_the_queue_to_a_new_holder() {
    // Somebody takes the lock while the unlocking thread looks for a waiter.
    let lock = usync::lock::Lock::new(0u8);
    let mut memory = Memory::new(0, 3);
    let mut holder = lock.lock(node(0));
    rest(&mut holder, &mut memory);
    let mut waiter = lock.lock(node(1));
    rest(&mut waiter, &mut memory);
    let mut unlock = lock.unlock();
    for _ in 0..4 {
        let reply = memory.perform(unlock.access());
        unlock.resume(reply, &mut Hints::new());
    }
    assert_eq!(memory.get(Place::Word), node(1) + 2);
    let mut other = lock.try_lock();
    rest(&mut other, &mut memory);
    assert_eq!(other, TryLock::Locked);
    assert_eq!(memory.get(Place::Word), node(1) + 3);
    rest(&mut unlock, &mut memory);
    assert_eq!(unlock, usync::lock::Unlock::Released);
    assert_eq!(memory.get(Place::Word), node(1) + 1);
    assert!(memory.has_waker(node(1)));
    let mut unlock = lock.unlock();
    rest(&mut unlock, &mut memory);
    wake_up(&mut waiter, &mut memory);
    assert_eq!(waiter.step, usync::lock::LockStep::Locked);
}

#[test]
fn spurious_failure_of_an_exchange_is_repeated() {
    let lock = usync::lock::Lock::new(0u8);
    let mut attempt = lock.try_lock();
    answer(&mut attempt, true, 8);
    assert_eq!(attempt, TryLock::Exchange { state: 8 });
    answer(&mut attempt, false, 8);
    assert_eq!(attempt, TryLock::Exchange { state: 8 });
    answer(&mut attempt, false, 9);
    assert_eq!(attempt, TryLock::Failed);
}

#[test]
fn base_lock_is_handed_over_after_the_deadline() {
    let lock = usync::base::lock::Lock::new(0u8);
    let mut memory = Memory::new(0, 3);
    let mut holder = lock.lock(node(0));
    rest(&mut holder, &mut memory);
    let mut first = lock.lock(node(1));
    rest(&mut first, &mut memory);
    let mut second = lock.lock(node(2));
    rest(&mut second, &mut memory);
    let mut unlock = lock.unlock();
    while !matches!(unlock.access(), Access::Expired(_)) {
        let reply = memory.perform(unlock.access());
        unlock.resume(reply, &mut Hints::new());
    }
    answer(&mut unlock, true, 0);
    rest(&mut unlock, &mut memory);
    assert_eq!(memory.get(Place::Word), node(2) + 1);
    assert_eq!(memory.get(Place::Wake(node(1))), usync::base::lock::WAKER_ACQUIRED);
    let mut other = lock.try_lock();
    rest(&mut other, &mut memory);
    assert_eq!(other, TryLock::Failed);
    wake_up(&mut first, &mut memory);
    assert_eq!(first.step, usync::base::lock::LockStep::Locked);
}

#[test]
fn shared_lock_is_handed_over_after_the_deadline() {
    let lock = usync::shared::lock::Lock::new(0u8);
    let mut memory = Memory::new(0, 2);
    let mut holder = lock.lock(node(0));
    rest(&mut holder, &mut memory);
    let mut first = lock.lock(node(1));
    rest(&mut first, &mut memory);
    let mut unlock = lock.unlock();
    while !matches!(unlock.access(), Access::Expired(_)) {
        let reply = memory.perform(unlock.access());
        unlock.resume(reply, &mut Hints::new());
    }
    answer(&mut unlock, true, 0);
    rest(&mut unlock, &mut memory);
    assert_eq!(memory.get(Place::Word), 1);
    assert_eq!(memory.get(Place::Wake(node(1))), 7);
    wake_up(&mut first, &mut memory);
    assert_eq!(first.step, usync::shared::lock::LockStep::Locked);
}

#[test]
fn timeouts_are_spread_by_the_address() {
    // 512 * 13 = 6656, and 512 >> 15 = 0.
    assert_eq!(usync::base::lock::fair_timeout(512), 6656);
    // 0x10000 * 13 = 851968, mixed with 0x10000 >> 15 = 2.
    assert_eq!(usync::base::lock::fair_timeout(0x10000), 851970);
    assert_eq!(usync::base::lock::deadline(1, 512), 6656);
    assert_eq!(usync::base::lock::deadline(1025, 512), 13312);
}

#[test]
fn starved_waiter_is_handed_the_mutex() {
    let mutex = usync::eventually_fair::Mutex::new(0u8);
    let mut memory = Memory::new(0, 3);
    let mut holder = mutex.lock(node(0));
    rest(&mut holder, &mut memory);
    let mut first = mutex.lock(node(1));
    while !matches!(first.access(), Access::Elapsed) {
        let reply = memory.perform(first.access());
        first.resume(reply, &mut Hints::new());
    }
    answer(&mut first, false, 1_000_001);
    rest(&mut first, &mut memory);
    assert_eq!(memory.get(Place::Word), node(1) + 3);
    let mut unlock = mutex.force_unlock();
    rest(&mut unlock, &mut memory);
    assert_eq!(memory.get(Place::Word), 1);
    assert_eq!(memory.get(Place::Wake(node(1))), usync::eventually_fair::HANDED);
    let mut other = mutex.try_lock();
    rest(&mut other, &mut memory);
    assert_eq!(other, usync::eventually_fair::TryLock::Failed);
    wake_up(&mut first, &mut memory);
    assert_eq!(first.step, usync::eventually_fair::LockStep::Locked);
}

#[test]
fn waiter_just_in_time_is_not_starved() {
    let mutex = usync::eventually_fair::Mutex::new(0u8);
    let mut memory = Memory::new(1, 2);
    let mut first = mutex.lock(node(1));
    while !matches!(first.access(), Access::Elapsed) {
        let reply = memory.perform(first.access());
        first.resume(reply, &mut Hints::new());
    }
    answer(&mut first, false, 1_000_000);
    rest(&mut first, &mut memory);
    assert_eq!(memory.get(Place::Word), node(1) + 1);
}

#[test]
fn starved_mutex_is_not_tried() {
    let mutex = usync::eventually_fair::Mutex::new(0u8);
    let mut memory = Memory::new(2, 1);
    let mut attempt = mutex.try_lock();
    rest(&mut attempt, &mut memory);
    assert_eq!(attempt, usync::eventually_fair::TryLock::Failed);
}

#[test]
fn flag_of_another_waker_stops_a_throughput_lock() {
    // The exchange changes nothing, and counts as a success.
    let mutex = usync::throughput::Mutex::new(0u8);
    let mut memory = Memory::new(256, 1);
    let mut attempt = mutex.lock(node(0));
    rest(&mut attempt, &mut memory);
    assert_eq!(attempt.step, usync::throughput::LockStep::Locked);
    assert_eq!(memory.get(Place::Word), 256);
}

#[test]
fn raw_lock_gives_up_by_a_poll() {
    let lock = usync::raw::lock::Lock::new();
    let mut memory = Memory::new(0, 2);
    let mut holder = lock.lock(node(0));
    rest(&mut holder, &mut memory);
    let mut waiter = lock.lock_async(node(1));
    rest(&mut waiter, &mut memory);
    let mut cancel = waiter.cancel();
    assert!(matches!(cancel.access(), Access::Load(_, _)));
    rest(&mut cancel, &mut memory);
    assert!(matches!(cancel.access(), Access::Done));
}

#[test]
fn a_lock_that_is_handed_over_stays_held() {
    let lock = usync::shared::lock::Lock::new(0u8);
    let mut memory = Memory::new(0, 2);
    let mut holder = lock.lock(node(0));
    rest(&mut holder, &mut memory);
    let mut waiter = lock.lock(node(1));
    rest(&mut waiter, &mut memory);
    let mut unlock = lock.unlock();
    while !matches!(unlock.access(), Access::Expired(_)) {
        let reply = memory.perform(unlock.access());
        unlock.resume(reply, &mut Hints::new());
    }
    answer(&mut unlock, true, 0);
    rest(&mut unlock, &mut memory);
    let mut look = IsLocked::start();
    rest(&mut look, &mut memory);
    assert_eq!(look, IsLocked::Done { held: true });
    wake_up(&mut waiter, &mut memory);
    assert_eq!(waiter.step, usync::shared::lock::LockStep::Locked);
    let mut unlock = lock.unlock();
    rest(&mut unlock, &mut memory);
    let mut look = IsLocked::start();
    rest(&mut look, &mut memory);
    assert_eq!(look, IsLocked::Done { held: false });
}

#[test]
fn a_second_poll_leaves_its_own_waker() {
    let lock = usync::lock::Lock::new(0u8);
    let mut memory = Memory::new(1, 1);
    let mut waiter = lock.lock(node(0));
    rest(&mut waiter, &mut memory);
    assert_eq!(waiter.step, usync::lock::LockStep::Pending);
    // Another task polls: it stores its waker before it waits.
    let mut stored = false;
    let reply = memory.perform(waiter.access());
    waiter.resume(reply, &mut Hints::new());
    while waiter.access() != Access::Park {
        stored = stored || waiter.access() == Access::StoreWaker(node(0));
        let reply = memory.perform(waiter.access());
        waiter.resume(reply, &mut Hints::new());
    }
    assert!(stored);
    // Yet another one polls while the waker is being taken: it stores nothing.
    memory.set(Place::Wake(node(0)), usync::lock::CONSUMING);
    let reply = memory.perform(waiter.access());
    waiter.resume(reply, &mut Hints::new());
    while waiter.access() != Access::Park {
        assert_ne!(waiter.access(), Access::StoreWaker(node(0)));
        let reply = memory.perform(waiter.access());
        waiter.resume(reply, &mut Hints::new());
    }
}
