use usync::access::{Access, Operation, Place, Reply};
use usync::kernel::cpu::Hints;
use usync::memory::Memory;
use usync::try_lock::{IsLocked, TryLock};

/// Runs an operation until it is over or has to wait.
fn rest<P: Operation>(operation: &mut P, memory: &mut Memory) {
    for _ in 0..200 {
        match operation.access() {
            Access::Done | Access::Park | Access::ParkUntil => return,
            access => {
                let reply = memory.perform(access);
                assert!(operation.accepts(reply));
                operation.resume(reply, &mut Hints::new());
            }
        }
    }
    panic!("the operation does not come to rest");
}

/// Goes on with an operation that waits, as if it was woken.
fn wake_up<P: Operation>(operation: &mut P, memory: &mut Memory) {
    let reply = memory.perform(operation.access());
    operation.resume(reply, &mut Hints::new());
    rest(operation, memory);
}

/// Gives an operation a reply of the given kind.
fn answer<P: Operation>(operation: &mut P, ok: bool, value: usize) {
    operation.resume(Reply { ok, value }, &mut Hints::new());
}

fn node(i: usize) -> usize {
    Memory::address(i)
}

/// Runs an operation until it asks whether a deadline has come.
fn until_deadline<P: Operation>(operation: &mut P, memory: &mut Memory) {
    for _ in 0..100 {
        match operation.access() {
            Access::Expired(_) | Access::PastDeadline => return,
            access => {
                let reply = memory.perform(access);
                assert!(operation.accepts(reply));
                operation.resume(reply, &mut Hints::new());
            }
        }
    }
    panic!("no deadline is asked for");
}

#[test]
fn seeded_mutex_is_taken_and_given_up() {
    let mutex = usync::mutex::Mutex::new(0u8);
    let mut memory = Memory::new(0, 1);
    let mut attempt = mutex.lock(0x100, node(0));
    rest(&mut attempt, &mut memory);
    assert_eq!(attempt.step, usync::mutex::LockStep::Locked);
    assert_eq!(memory.get(Place::Word), 1);
    let mut unlock = mutex.unlock();
    rest(&mut unlock, &mut memory);
    assert_eq!(unlock, usync::mutex::Unlock::Released);
    assert_eq!(memory.get(Place::Word), 0);
}

#[test]
fn seeded_mutex_is_tried() {
    let mutex = usync::mutex::Mutex::new(0u8);
    let mut memory = Memory::new(0, 1);
    let mut first = mutex.try_lock();
    rest(&mut first, &mut memory);
    assert_eq!(first, TryLock::Locked);
    let mut second = mutex.try_lock();
    rest(&mut second, &mut memory);
    assert_eq!(second, TryLock::Failed);
}

#[test]
fn seeded_mutex_lets_waiters_in_by_turns() {
    let mutex = usync::mutex::Mutex::new(0u8);
    let mut memory = Memory::new(0, 3);
    let mut holder = mutex.lock(0x100, node(0));
    rest(&mut holder, &mut memory);
    let mut first = mutex.lock(0x100, node(1));
    rest(&mut first, &mut memory);
    assert!(matches!(first.access(), Access::Park));
    assert_eq!(memory.get(Place::Wake(node(1))), usync::mutex::WAITING);
    assert_eq!(memory.get(Place::Word) % 4, 3);
    let mut second = mutex.lock_async(0x100, node(2));
    rest(&mut second, &mut memory);
    assert_eq!(*memory.waiting(), vec![node(1), node(2)]);
    let mut unlock = mutex.unlock();
    rest(&mut unlock, &mut memory);
    assert_eq!(memory.get(Place::Word) % 4, 2);
    assert_eq!(memory.get(Place::Wake(node(1))), usync::mutex::RETRY);
    assert_eq!(*memory.waiting(), vec![node(2)]);
    assert!(!memory.is_guarded());
    wake_up(&mut first, &mut memory);
    assert_eq!(first.step, usync::mutex::LockStep::Locked);
    assert_eq!(memory.get(Place::Word) % 4, 3);
    let mut unlock = mutex.unlock();
    rest(&mut unlock, &mut memory);
    assert_eq!(memory.get(Place::Word) % 4, 0);
    wake_up(&mut second, &mut memory);
    assert_eq!(second.step, usync::mutex::LockStep::Locked);
}

#[test]
fn seeded_mutex_is_handed_over_by_a_fair_unlock() {
    let mutex = usync::mutex::Mutex::new(0u8);
    let mut memory = Memory::new(0, 2);
    let mut holder = mutex.lock(0x100, node(0));
    rest(&mut holder, &mut memory);
    let mut first = mutex.lock(0x100, node(1));
    rest(&mut first, &mut memory);
    let mut unlock = mutex.unlock_fair();
    rest(&mut unlock, &mut memory);
    assert_eq!(memory.get(Place::Word) % 4, 1);
    assert_eq!(memory.get(Place::Wake(node(1))), usync::mutex::ACQUIRED);
    let mut other = mutex.try_lock();
    rest(&mut other, &mut memory);
    assert_eq!(other, TryLock::Failed);
    wake_up(&mut first, &mut memory);
    assert_eq!(first.step, usync::mutex::LockStep::Locked);
}

#[test]
fn seeded_mutex_is_handed_over_after_the_deadline() {
    let mutex = usync::mutex::Mutex::new(0u8);
    let mut memory = Memory::new(0, 3);
    let mut holder = mutex.lock(0x100, node(0));
    rest(&mut holder, &mut memory);
    let mut first = mutex.lock(0x100, node(1));
    rest(&mut first, &mut memory);
    let mut second = mutex.lock(0x100, node(2));
    rest(&mut second, &mut memory);
    let mut unlock = mutex.unlock();
    until_deadline(&mut unlock, &mut memory);
    answer(&mut unlock, true, 0);
    rest(&mut unlock, &mut memory);
    assert_eq!(memory.get(Place::Word) % 4, 3);
    assert_eq!(memory.get(Place::Wake(node(1))), usync::mutex::ACQUIRED);
    wake_up(&mut first, &mut memory);
    assert_eq!(first.step, usync::mutex::LockStep::Locked);
}

#[test]
fn seeded_mutex_keeps_its_value() {
    let mut mutex = usync::mutex::Mutex::from(3u8);
    *mutex.as_mut() += 1;
    assert!(mutex.with_queue().is_empty());
    assert_eq!(mutex.into_inner(), 4);
    let mutex: usync::mutex::Mutex<u8> = Default::default();
    assert_eq!(mutex.into_inner(), 0);
}

#[test]
fn generic_mutex_is_taken_and_given_up() {
    let mutex = usync::generic::mutex::Mutex::new(0u8);
    let mut memory = Memory::new(0, 1);
    let mut attempt = mutex.lock(node(0), false);
    rest(&mut attempt, &mut memory);
    assert_eq!(attempt.step, usync::generic::mutex::LockStep::Locked);
    assert_eq!(memory.get(Place::Word), 1);
    let mut unlock = mutex.unlock();
    rest(&mut unlock, &mut memory);
    assert_eq!(unlock, usync::generic::mutex::Unlock::Released);
    assert_eq!(memory.get(Place::Word), 0);
}

#[test]
fn generic_mutex_is_tried() {
    let mutex = usync::generic::mutex::Mutex::new(0u8);
    let mut memory = Memory::new(0, 1);
    let mut first = mutex.try_lock();
    rest(&mut first, &mut memory);
    assert_eq!(first, TryLock::Locked);
    let mut second = mutex.try_lock();
    rest(&mut second, &mut memory);
    assert_eq!(second, TryLock::Failed);
}

#[test]
fn generic_mutex_lets_waiters_in_by_turns() {
    let mutex = usync::generic::mutex::Mutex::new(0u8);
    let mut memory = Memory::new(0, 3);
    let mut holder = mutex.lock(node(0), false);
    rest(&mut holder, &mut memory);
    let mut first = mutex.lock(node(1), false);
    rest(&mut first, &mut memory);
    assert!(matches!(first.access(), Access::Park));
    assert_eq!(memory.get(Place::Wake(node(1))), usync::generic::mutex::WAITING);
    assert_eq!(memory.get(Place::Word) % 4, 3);
    let mut second = mutex.lock_async(node(2), false);
    rest(&mut second, &mut memory);
    assert_eq!(*memory.waiting(), vec![node(1), node(2)]);
    let mut unlock = mutex.unlock();
    rest(&mut unlock, &mut memory);
    assert_eq!(memory.get(Place::Word) % 4, 2);
    assert_eq!(memory.get(Place::Wake(node(1))), usync::generic::mutex::RETRY);
    assert_eq!(*memory.waiting(), vec![node(2)]);
    assert!(!memory.is_guarded());
    wake_up(&mut first, &mut memory);
    assert_eq!(first.step, usync::generic::mutex::LockStep::Locked);
    assert_eq!(memory.get(Place::Word) % 4, 3);
    let mut unlock = mutex.unlock();
    rest(&mut unlock, &mut memory);
    assert_eq!(memory.get(Place::Word) % 4, 0);
    wake_up(&mut second, &mut memory);
    assert_eq!(second.step, usync::generic::mutex::LockStep::Locked);
}

#[test]
fn generic_mutex_is_handed_over_by_a_fair_unlock() {
    let mutex = usync::generic::mutex::Mutex::new(0u8);
    let mut memory = Memory::new(0, 2);
    let mut holder = mutex.lock(node(0), false);
    rest(&mut holder, &mut memory);
    let mut first = mutex.lock(node(1), false);
    rest(&mut first, &mut memory);
    let mut unlock = mutex.unlock_fair();
    rest(&mut unlock, &mut memory);
    assert_eq!(memory.get(Place::Word) % 4, 1);
    assert_eq!(memory.get(Place::Wake(node(1))), usync::generic::mutex::ACQUIRED);
    let mut other = mutex.try_lock();
    rest(&mut other, &mut memory);
    assert_eq!(other, TryLock::Failed);
    wake_up(&mut first, &mut memory);
    assert_eq!(first.step, usync::generic::mutex::LockStep::Locked);
}

#[test]
fn generic_mutex_is_handed_over_after_the_deadline() {
    let mutex = usync::generic::mutex::Mutex::new(0u8);
    let mut memory = Memory::new(0, 3);
    let mut holder = mutex.lock(node(0), false);
    rest(&mut holder, &mut memory);
    let mut first = mutex.lock(node(1), false);
    rest(&mut first, &mut memory);
    let mut second = mutex.lock(node(2), false);
    rest(&mut second, &mut memory);
    let mut unlock = mutex.unlock();
    until_deadline(&mut unlock, &mut memory);
    answer(&mut unlock, true, 0);
    rest(&mut unlock, &mut memory);
    assert_eq!(memory.get(Place::Word) % 4, 3);
    assert_eq!(memory.get(Place::Wake(node(1))), usync::generic::mutex::ACQUIRED);
    wake_up(&mut first, &mut memory);
    assert_eq!(first.step, usync::generic::mutex::LockStep::Locked);
}

#[test]
fn generic_mutex_keeps_its_value() {
    let mut mutex = usync::generic::mutex::Mutex::from(3u8);
    *mutex.as_mut() += 1;
    assert!(mutex.with_queue().is_empty());
    assert_eq!(mutex.into_inner(), 4);
    let mutex: usync::generic::mutex::Mutex<u8> = Default::default();
    assert_eq!(mutex.into_inner(), 0);
}

#[test]
fn sync_mutex_is_taken_and_given_up() {
    let mutex = usync::sync::mutex::Mutex::new(0u8);
    let mut memory = Memory::new(0, 1);
    let mut attempt = mutex.lock(node(0));
    rest(&mut attempt, &mut memory);
    assert_eq!(attempt.step, usync::sync::mutex::LockStep::Locked);
    assert_eq!(memory.get(Place::Word), 1);
    let mut unlock = mutex.unlock();
    rest(&mut unlock, &mut memory);
    assert_eq!(unlock, usync::sync::mutex::Unlock::Released);
    assert_eq!(memory.get(Place::Word), 0);
}

#[test]
fn sync_mutex_is_tried() {
    let mutex = usync::sync::mutex::Mutex::new(0u8);
    let mut memory = Memory::new(0, 1);
    let mut first = mutex.try_lock();
    rest(&mut first, &mut memory);
    assert_eq!(first, TryLock::Locked);
    let mut second = mutex.try_lock();
    rest(&mut second, &mut memory);
    assert_eq!(second, TryLock::Failed);
}

#[test]
fn sync_mutex_lets_waiters_in_by_turns() {
    let mutex = usync::sync::mutex::Mutex::new(0u8);
    let mut memory = Memory::new(0, 3);
    let mut holder = mutex.lock(node(0));
    rest(&mut holder, &mut memory);
    let mut first = mutex.lock(node(1));
    rest(&mut first, &mut memory);
    assert!(matches!(first.access(), Access::Park));
    assert_eq!(memory.get(Place::Wake(node(1))), usync::sync::mutex::WAITING);
    assert_eq!(memory.get(Place::Word) % 4, 3);
    let mut second = mutex.lock_async(node(2));
    rest(&mut second, &mut memory);
    assert_eq!(*memory.waiting(), vec![node(1), node(2)]);
    let mut unlock = mutex.unlock();
    rest(&mut unlock, &mut memory);
    assert_eq!(memory.get(Place::Word) % 4, 2);
    assert_eq!(memory.get(Place::Wake(node(1))), usync::sync::mutex::NOTIFIED);
    assert_eq!(*memory.waiting(), vec![node(2)]);
    assert!(!memory.is_guarded());
    wake_up(&mut first, &mut memory);
    assert_eq!(first.step, usync::sync::mutex::LockStep::Locked);
    assert_eq!(memory.get(Place::Word) % 4, 3);
    let mut unlock = mutex.unlock();
    rest(&mut unlock, &mut memory);
    assert_eq!(memory.get(Place::Word) % 4, 0);
    wake_up(&mut second, &mut memory);
    assert_eq!(second.step, usync::sync::mutex::LockStep::Locked);
}

#[test]
fn sync_mutex_is_handed_over_by_a_fair_unlock() {
    let mutex = usync::sync::mutex::Mutex::new(0u8);
    let mut memory = Memory::new(0, 2);
    let mut holder = mutex.lock(node(0));
    rest(&mut holder, &mut memory);
    let mut first = mutex.lock(node(1));
    rest(&mut first, &mut memory);
    let mut unlock = mutex.unlock_fair();
    rest(&mut unlock, &mut memory);
    assert_eq!(memory.get(Place::Word) % 4, 1);
    assert_eq!(memory.get(Place::Wake(node(1))), usync::sync::mutex::ACQUIRED);
    let mut other = mutex.try_lock();
    rest(&mut other, &mut memory);
    assert_eq!(other, TryLock::Failed);
    wake_up(&mut first, &mut memory);
    assert_eq!(first.step, usync::sync::mutex::LockStep::Locked);
}

#[test]
fn sync_mutex_is_handed_over_after_the_deadline() {
    let mutex = usync::sync::mutex::Mutex::new(0u8);
    let mut memory = Memory::new(0, 3);
    let mut holder = mutex.lock(node(0));
    rest(&mut holder, &mut memory);
    let mut first = mutex.lock(node(1));
    rest(&mut first, &mut memory);
    let mut second = mutex.lock(node(2));
    rest(&mut second, &mut memory);
    let mut unlock = mutex.unlock();
    until_deadline(&mut unlock, &mut memory);
    answer(&mut unlock, true, 0);
    rest(&mut unlock, &mut memory);
    assert_eq!(memory.get(Place::Word) % 4, 3);
    assert_eq!(memory.get(Place::Wake(node(1))), usync::sync::mutex::ACQUIRED);
    wake_up(&mut first, &mut memory);
    assert_eq!(first.step, usync::sync::mutex::LockStep::Locked);
}

#[test]
fn sync_mutex_keeps_its_value() {
    let mut mutex = usync::sync::mutex::Mutex::from(3u8);
    *mutex.as_mut() += 1;
    assert!(mutex.with_queue().is_empty());
    assert_eq!(mutex.into_inner(), 4);
    let mutex: usync::sync::mutex::Mutex<u8> = Default::default();
    assert_eq!(mutex.into_inner(), 0);
}

#[test]
fn seeded_mutex_keeps_its_seed() {
    let mutex = usync::mutex::Mutex::new(0u8);
    let mut memory = Memory::new(0, 2);
    let mut holder = mutex.lock(0x100, node(0));
    rest(&mut holder, &mut memory);
    let mut first = mutex.lock(0x100, node(1));
    rest(&mut first, &mut memory);
    // 0x400 ^ 0x100 = 0x500, and 0x500 >> 8 = 5.
    assert_eq!(usync::mutex::first_seed(0x100, node(1)), 5);
    assert_eq!(memory.get(Place::Seed(node(1))), usync::mutex::next_seed(5) as usize);
    let mut unlock = mutex.unlock();
    rest(&mut unlock, &mut memory);
    assert_eq!(memory.get(Place::Word), usync::mutex::seeded(usync::mutex::next_seed(5), 0));
    assert_eq!(usync::mutex::seed_of(memory.get(Place::Word)), usync::mutex::next_seed(5));
    assert_eq!(usync::mutex::seeded(5, 3), 23);
    let mut look = mutex.is_locked();
    rest(&mut look, &mut memory);
    assert_eq!(look, IsLocked::Done { held: false });
}

#[test]
fn a_held_mutex_is_seen_as_held() {
    let mutex = usync::mutex::Mutex::new(0u8);
    let mut memory = Memory::new(0, 2);
    let mut holder = mutex.lock(0x100, node(0));
    rest(&mut holder, &mut memory);
    let mut look = mutex.is_locked();
    rest(&mut look, &mut memory);
    assert_eq!(look, IsLocked::Done { held: true });
    let mut unlock = mutex.unlock();
    rest(&mut unlock, &mut memory);
    let mut look = mutex.is_locked();
    rest(&mut look, &mut memory);
    assert_eq!(look, IsLocked::Done { held: false });
}

#[test]
fn seeded_mutex_draws_its_timeouts() {
    // 1 is followed by 0x8181, and that by 0x6021.
    assert_eq!(usync::mutex::next_seed(1), 0x6021);
    assert_eq!(usync::mutex::timeout(1), 0x6021_8181 % 10_000_000);
}

#[test]
fn generic_mutex_draws_its_timeouts() {
    assert_eq!(usync::generic::mutex::next_seed(1), 0x6021);
    assert_eq!(usync::generic::mutex::timeout(1), 0x8181_6021u32 % 1_000_000);
    assert_eq!(usync::generic::mutex::first_seed(0x1234_5678), 0x1234);
    assert_eq!(usync::generic::mutex::seed_to_draw(0, 0x1234_5678), 0x1234);
    assert_eq!(usync::generic::mutex::seed_to_draw(9, 0x1234_5678), 9);
}

#[test]
fn generic_mutex_carries_its_seed_on() {
    let mutex = usync::generic::mutex::Mutex::new(0u8);
    let mut memory = Memory::new(1, 2);
    memory.set(Place::Prng, 1);
    let mut first = mutex.lock(node(1), true);
    rest(&mut first, &mut memory);
    assert_eq!(memory.get(Place::Prng), usync::generic::mutex::next_seed(1) as usize);
}

#[test]
fn seeded_mutex_goes_on_after_its_deadline() {
    let mutex = usync::mutex::Mutex::new(0u8);
    let mut memory = Memory::new(1, 2);
    let mut attempt = mutex.try_lock_until(0x100, node(1));
    rest(&mut attempt, &mut memory);
    assert!(matches!(attempt.access(), Access::ParkUntil));
    until_deadline(&mut attempt, &mut memory);
    answer(&mut attempt, true, 0);
    rest(&mut attempt, &mut memory);
    assert!(matches!(attempt.access(), Access::ParkUntil));
    until_deadline(&mut attempt, &mut memory);
    answer(&mut attempt, false, 0);
    rest(&mut attempt, &mut memory);
    assert_eq!(attempt.step, usync::mutex::LockStep::Failed);
    assert!(memory.waiting().is_empty());
    assert_eq!(memory.get(Place::Word) % 4, 1);
}

#[test]
fn generic_mutex_gives_up_at_its_deadline() {
    let mutex = usync::generic::mutex::Mutex::new(0u8);
    let mut memory = Memory::new(1, 2);
    let mut attempt = mutex.try_lock_for(node(1), true);
    rest(&mut attempt, &mut memory);
    assert_eq!(memory.get(Place::Word), 3);
    until_deadline(&mut attempt, &mut memory);
    answer(&mut attempt, true, 0);
    rest(&mut attempt, &mut memory);
    assert_eq!(attempt.step, usync::generic::mutex::LockStep::Failed);
    assert_eq!(memory.get(Place::Word), 1);
    assert_eq!(memory.get(Place::Wake(node(1))), usync::generic::mutex::EMPTY);
    assert!(memory.waiting().is_empty());
}

#[test]
fn sync_mutex_gives_up_at_its_deadline() {
    let mutex = usync::sync::mutex::Mutex::new(0u8);
    let mut memory = Memory::new(1, 2);
    let mut attempt = mutex.try_lock_for(node(1));
    rest(&mut attempt, &mut memory);
    until_deadline(&mut attempt, &mut memory);
    answer(&mut attempt, true, 0);
    rest(&mut attempt, &mut memory);
    assert_eq!(attempt.step, usync::sync::mutex::LockStep::Failed);
    assert!(memory.waiting().is_empty());
    assert_eq!(memory.get(Place::Word), 3);
}

#[test]
fn sync_mutex_unlocks_for_a_holder_that_gave_up() {
    let mutex = usync::sync::mutex::Mutex::new(0u8);
    let mut memory = Memory::new(0, 3);
    let mut holder = mutex.lock(node(0));
    rest(&mut holder, &mut memory);
    let mut first = mutex.lock_async(node(1));
    rest(&mut first, &mut memory);
    let mut second = mutex.lock_async(node(2));
    rest(&mut second, &mut memory);
    let mut unlock = mutex.unlock_fair();
    rest(&mut unlock, &mut memory);
    first.cancel();
    rest(&mut first, &mut memory);
    assert_eq!(first.step, usync::sync::mutex::LockStep::Failed);
    assert_eq!(memory.get(Place::Word), 0);
    wake_up(&mut second, &mut memory);
    assert_eq!(second.step, usync::sync::mutex::LockStep::Locked);
}

#[test]
fn cancelled_waiters_leave_the_queue() {
    let mutex = usync::generic::mutex::Mutex::new(0u8);
    let mut memory = Memory::new(1, 3);
    let mut first = mutex.lock_async(node(0), true);
    rest(&mut first, &mut memory);
    let mut second = mutex.lock_async(node(1), true);
    rest(&mut second, &mut memory);
    first.poll_cancel();
    rest(&mut first, &mut memory);
    assert_eq!(first.step, usync::generic::mutex::LockStep::Failed);
    assert_eq!(*memory.waiting(), vec![node(1)]);
    assert_eq!(memory.get(Place::Word), 3);
    assert!(!memory.has_waker(node(0)));
    assert!(memory.has_waker(node(1)));
    second.poll_cancel();
    rest(&mut second, &mut memory);
    assert!(!memory.has_waker(node(1)));
    assert_eq!(memory.get(Place::Word), 1);
}

#[test]
fn cancelled_waiter_of_a_seeded_mutex_leaves_its_seed() {
    let mutex = usync::mutex::Mutex::new(0u8);
    let mut memory = Memory::new(1, 2);
    let mut first = mutex.lock_async(0x100, node(0));
    rest(&mut first, &mut memory);
    let seed = memory.get(Place::Seed(node(0)));
    first.cancel();
    rest(&mut first, &mut memory);
    assert_eq!(first.step, usync::mutex::LockStep::Failed);
    assert_eq!(usync::mutex::seed_of(memory.get(Place::Word)) as usize, seed);
    assert_eq!(memory.get(Place::Word) % 4, 1);
    assert!(!memory.has_waker(node(0)));
}

#[test]
fn waker_is_dropped_before_the_queue_is_left() {
    let mutex = usync::generic::mutex::Mutex::new(0u8);
    let mut memory = Memory::new(1, 1);
    let mut first = mutex.lock_async(node(0), true);
    rest(&mut first, &mut memory);
    first.poll_cancel();
    while first.access() != Access::DropWaker(node(0)) {
        let reply = memory.perform(first.access());
        first.resume(reply, &mut Hints::new());
    }
    assert!(memory.is_guarded());
    assert!(memory.waiting().is_empty());
    let reply = memory.perform(first.access());
    first.resume(reply, &mut Hints::new());
    assert_eq!(first.access(), Access::UnlockQueue);
}

#[test]
fn raw_mutex_is_not_waited_for() {
    let mutex = usync::raw::mutex::RawMutex::new(0u8);
    let mut memory = Memory::new(0, 2);
    let mut holder = mutex.lock(node(0));
    rest(&mut holder, &mut memory);
    assert_eq!(holder.step, usync::raw::mutex::LockStep::Locked);
    let mut other = mutex.lock_async(node(1));
    rest(&mut other, &mut memory);
    assert_eq!(other.step, usync::raw::mutex::LockStep::Contended);
}

#[test]
fn raw_mutex_is_taken_once() {
    let mutex = usync::raw::mutex::RawMutex::new(4u8);
    let mut memory = Memory::new(0, 1);
    let mut first = mutex.lock_fast(node(0));
    rest(&mut first, &mut memory);
    assert_eq!(first.step, usync::raw::mutex::LockStep::Locked);
    let mut second = mutex.lock_fast(node(0));
    rest(&mut second, &mut memory);
    assert_eq!(second.step, usync::raw::mutex::LockStep::Contended);
    let mut unlock = mutex.unlock();
    rest(&mut unlock, &mut memory);
    assert_eq!(unlock, usync::raw::mutex::Unlock::Released);
    assert_eq!(memory.get(Place::Word), 0);
    memory.set(Place::Word, 3);
    let mut unlock = mutex.unlock_fair();
    rest(&mut unlock, &mut memory);
    assert_eq!(memory.get(Place::Word), 3);
    assert_eq!(mutex.into_inner(), 4);
}

#[test]
fn generic_mutex_is_lost_by_a_holder_that_gave_up() {
    let mutex = usync::generic::mutex::Mutex::new(0u8);
    let mut memory = Memory::new(0, 2);
    let mut holder = mutex.lock(node(0), false);
    rest(&mut holder, &mut memory);
    let mut first = mutex.lock_async(node(1), false);
    rest(&mut first, &mut memory);
    let mut unlock = mutex.unlock_fair();
    rest(&mut unlock, &mut memory);
    first.poll_cancel();
    rest(&mut first, &mut memory);
    assert_eq!(first.step, usync::generic::mutex::LockStep::Failed);
    // Nobody holds the mutex, and it cannot be taken.
    assert_eq!(memory.get(Place::Word), 1);
    let mut other = mutex.try_lock();
    rest(&mut other, &mut memory);
    assert_eq!(other, TryLock::Failed);
}
