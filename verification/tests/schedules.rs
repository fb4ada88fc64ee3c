use usync::access::{Access, Operation, Reply};
use usync::kernel::cpu::Hints;
use usync::memory::Memory;
use usync::prng::xorshift;

/// What a thread is at.
enum Thread<L, U> {
    Locking(L),
    Holding,
    Unlocking(U),
    Finished,
}

const THREADS: usize = 3;

const ROUNDS: usize = 3;

/// Lets three threads take a lock three times each, in the order that a random
/// number gives, and sees to it that one of them at most holds it.
fn contend<L: Operation, U: Operation>(
    lock: impl Fn(usize) -> L,
    locked: impl Fn(&L) -> bool,
    unlock: impl Fn() -> U,
    seed: u16,
) {
    let mut memory = Memory::new(0, THREADS * ROUNDS);
    let mut threads: Vec<Thread<L, U>> = Vec::new();
    let mut rounds = vec![0; THREADS];
    for thread in 0..THREADS {
        threads.push(Thread::Locking(lock(Memory::address(thread * ROUNDS))));
    }
    let mut random = seed;
    for _ in 0..40_000 {
        random = xorshift(random);
        let turn = (random >> 4) as usize % THREADS;
        let holders = threads.iter().filter(|thread| matches!(thread, Thread::Holding)).count();
        assert!(holders <= 1);
        let next = match &mut threads[turn] {
            Thread::Locking(operation) => {
                let access = operation.access();
                if let Access::Done = access {
                    assert!(locked(operation));
                    assert_eq!(holders, 0);
                    Some(Thread::Holding)
                } else {
                    if !(matches!(access, Access::LockQueue) && memory.is_guarded()) {
                        let reply = memory.perform(access);
                        assert!(operation.accepts(reply));
                        operation.resume(reply, &mut Hints::new());
                    }
                    None
                }
            }
            Thread::Holding => Some(Thread::Unlocking(unlock())),
            Thread::Unlocking(operation) => {
                let access = operation.access();
                if let Access::Done = access {
                    rounds[turn] += 1;
                    if rounds[turn] == ROUNDS {
                        Some(Thread::Finished)
                    } else {
                        let waiter = Memory::address(turn * ROUNDS + rounds[turn]);
                        Some(Thread::Locking(lock(waiter)))
                    }
                } else {
                    if !(matches!(access, Access::LockQueue) && memory.is_guarded()) {
                        let reply = memory.perform(access);
                        assert!(operation.accepts(reply));
                        operation.resume(reply, &mut Hints::new());
                    }
                    None
                }
            }
            Thread::Finished => None,
        };
        if let Some(next) = next {
            threads[turn] = next;
        }
        if threads.iter().all(|thread| matches!(thread, Thread::Finished)) {
            return;
        }
    }
    panic!("a thread was left waiting");
}

#[test]
fn lock_is_contended() {
    for seed in 1..400 {
        contend(
            |waiter| usync::lock::Lock::new(()).lock(waiter),
            |lock| matches!(lock.step, usync::lock::LockStep::Locked),
            || usync::lock::Lock::new(()).unlock(),
            seed,
        );
    }
}

#[test]
fn intel_kernel_lock_is_contended() {
    for seed in 1..400 {
        contend(
            |waiter| usync::kernel::lock::Lock::new(()).lock(waiter, true),
            |lock| matches!(lock.step, usync::kernel::lock::LockStep::Locked),
            || usync::kernel::lock::Lock::new(()).unlock(true),
            seed,
        );
    }
}

#[test]
fn other_kernel_lock_is_contended() {
    for seed in 1..400 {
        contend(
            |waiter| usync::kernel::lock::Lock::new(()).lock(waiter, false),
            |lock| matches!(lock.step, usync::kernel::lock::LockStep::Locked),
            || usync::kernel::lock::Lock::new(()).unlock(false),
            seed,
        );
    }
}

#[test]
fn shared_lock_is_contended() {
    for seed in 1..400 {
        contend(
            |waiter| usync::shared::lock::Lock::new(()).lock(waiter),
            |lock| matches!(lock.step, usync::shared::lock::LockStep::Locked),
            || usync::shared::lock::Lock::new(()).unlock(),
            seed,
        );
    }
}

#[test]
fn generic_mutex_is_contended() {
    for seed in 1..400 {
        contend(
            |waiter| usync::generic::mutex::Mutex::new(()).lock(waiter, false),
            |lock| matches!(lock.step, usync::generic::mutex::LockStep::Locked),
            || usync::generic::mutex::Mutex::new(()).unlock(),
            seed,
        );
    }
}

#[test]
fn sync_mutex_is_contended() {
    for seed in 1..400 {
        contend(
            |waiter| usync::sync::mutex::Mutex::new(()).lock(waiter),
            |lock| matches!(lock.step, usync::sync::mutex::LockStep::Locked),
            || usync::sync::mutex::Mutex::new(()).unlock(),
            seed,
        );
    }
}

#[test]
fn replies_outside_the_protocol_are_not_accepted() {
    let mut attempt = usync::lock::Lock::new(()).lock(Memory::address(0));
    attempt.resume(Reply { ok: false, value: 1 }, &mut Hints::new());
    assert!(attempt.accepts(Reply { ok: true, value: usync::lock::STORED }));
    assert!(!attempt.accepts(Reply { ok: true, value: usync::lock::UPDATING }));

    let mut unlock = usync::sync::mutex::Mutex::new(()).unlock();
    unlock.resume(Reply { ok: false, value: 3 }, &mut Hints::new());
    unlock.resume(Reply { ok: true, value: 0 }, &mut Hints::new());
    unlock.resume(Reply { ok: true, value: Memory::address(0) }, &mut Hints::new());
    assert!(unlock.accepts(Reply { ok: true, value: usync::sync::mutex::WAITING }));
    assert!(!unlock.accepts(Reply { ok: true, value: usync::sync::mutex::NOTIFIED }));

    let done = usync::try_lock::TryLock::Locked;
    assert!(!done.accepts(Reply { ok: true, value: 0 }));
}

#[test]
fn seed_of_zero_is_not_accepted() {
    let mut unlock = usync::mutex::Mutex::new(()).unlock();
    unlock.resume(Reply { ok: false, value: 3 }, &mut Hints::new());
    unlock.resume(Reply { ok: true, value: 0 }, &mut Hints::new());
    unlock.resume(Reply { ok: false, value: 0 }, &mut Hints::new());
    assert!(unlock.accepts(Reply { ok: true, value: 4 * 7 + 3 }));
    assert!(!unlock.accepts(Reply { ok: true, value: 3 }));
}
