use usync::access::{Access, Operation, Place, Reply};
use usync::kernel::cpu::Hints;
use usync::memory::Memory;

/// Runs an operation until it is over or has to wait.
fn rest<P: Operation>(operation: &mut P, memory: &mut Memory) {
    for _ in 0..200 {
        match operation.access() {
            Access::Done | Access::Park | Access::ParkUntil => return,
            access => {
                let reply = memory.perform(access);
                assert!(operation.accepts(reply));
                operation.resume(reply, &mut Hints::new());
            }
        }
    }
    panic!("the operation does not come to rest");
}

/// Goes on with an operation that waits, as if it was woken.
fn wake_up<P: Operation>(operation: &mut P, memory: &mut Memory) {
    let reply = memory.perform(operation.access());
    operation.resume(reply, &mut Hints::new());
    rest(operation, memory);
}

/// Gives an operation a reply of the given kind.
fn answer<P: Operation>(operation: &mut P, ok: bool, value: usize) {
    operation.resume(Reply { ok, value }, &mut Hints::new());
}

fn node() -> usize {
    Memory::address(0)
}

#[test]
fn async_parker_delivers_its_token() {
    let mut memory = Memory::new(0, 1);
    memory.set(Place::Wake(node()), usync::base::async_parker::AsyncParker::new().state);
    let mut prepare = usync::base::async_parker::AsyncParker::prepare_park(node());
    rest(&mut prepare, &mut memory);
    assert_eq!(memory.get(Place::Wake(node())), 1);
    let mut park = usync::base::async_parker::AsyncParker::park(node());
    rest(&mut park, &mut memory);
    assert_eq!(park.step, usync::base::async_parker::ParkStep::Done { result: usync::base::async_parker::Parked::Pending });
    let mut unpark = usync::base::async_parker::AsyncParker::unpark(node(), 6);
    rest(&mut unpark, &mut memory);
    assert_eq!(unpark.step, usync::base::async_parker::UnparkStep::Done { took: true });
    assert_eq!(memory.get(Place::Wake(node())), usync::base::async_parker::notified(6));
    assert_eq!(usync::base::async_parker::notified(6), 52);
    let mut park = usync::base::async_parker::AsyncParker::park(node());
    rest(&mut park, &mut memory);
    assert_eq!(park.step, usync::base::async_parker::ParkStep::Done { result: usync::base::async_parker::Parked::Ready(6) });
}

#[test]
fn async_parker_is_woken_while_it_updates() {
    let mut memory = Memory::new(0, 1);
    let mut prepare = usync::base::async_parker::AsyncParker::prepare_park(node());
    rest(&mut prepare, &mut memory);
    let mut park = usync::base::async_parker::AsyncParker::park(node());
    for _ in 0..3 {
        let reply = memory.perform(park.access());
        park.resume(reply, &mut Hints::new());
    }
    assert_eq!(park.step, usync::base::async_parker::ParkStep::ReplaceWaker);
    let mut unpark = usync::base::async_parker::AsyncParker::unpark(node(), 1);
    rest(&mut unpark, &mut memory);
    assert_eq!(unpark.step, usync::base::async_parker::UnparkStep::Done { took: false });
    rest(&mut park, &mut memory);
    assert_eq!(park.step, usync::base::async_parker::ParkStep::Done { result: usync::base::async_parker::Parked::Ready(1) });
    assert!(!memory.has_waker(node()));
}

#[test]
fn async_parker_is_made_ready_once() {
    let mut prepare = usync::base::async_parker::AsyncParker::prepare_park(node());
    answer(&mut prepare, true, usync::base::async_parker::WAITING);
    assert_eq!(prepare.step, usync::base::async_parker::PrepareStep::Done);
}

#[test]
fn atomic_waker_delivers_its_notification() {
    let mut memory = Memory::new(0, 1);
    memory.set(Place::Wake(node()), usync::shared::atomic_waker::AtomicWaker::new().state);
    let mut prepare = usync::shared::atomic_waker::AtomicWaker::prepare_poll(node());
    rest(&mut prepare, &mut memory);
    assert!(memory.has_waker(node()));
    let mut poll = usync::shared::atomic_waker::AtomicWaker::poll(node());
    rest(&mut poll, &mut memory);
    assert_eq!(poll.step, usync::shared::atomic_waker::PollStep::Done { result: usync::shared::atomic_waker::Polled::Pending });
    let mut notify = usync::shared::atomic_waker::AtomicWaker::notify(node(), 2);
    rest(&mut notify, &mut memory);
    assert_eq!(notify.step, usync::shared::atomic_waker::NotifyStep::Done { took: true });
    assert_eq!(usync::shared::atomic_waker::notified(2), 11);
    let mut again = usync::shared::atomic_waker::AtomicWaker::notify(node(), 5);
    rest(&mut again, &mut memory);
    assert_eq!(again.step, usync::shared::atomic_waker::NotifyStep::Done { took: false });
    let mut poll = usync::shared::atomic_waker::AtomicWaker::poll(node());
    rest(&mut poll, &mut memory);
    assert_eq!(poll.step, usync::shared::atomic_waker::PollStep::Done { result: usync::shared::atomic_waker::Polled::Ready(2) });
}

#[test]
fn atomic_waker_loses_what_does_not_fit() {
    assert_eq!(usync::shared::atomic_waker::notified(usize::MAX), usize::MAX);
    assert_eq!(usync::shared::atomic_waker::notified(usize::MAX / 4 + 1), 3);
}

#[test]
fn waker_parker_delivers_its_token() {
    let mut memory = Memory::new(0, 1);
    memory.set(Place::Wake(node()), usync::shared::waker_parker::WakerParker::new().state);
    let mut prepare = usync::shared::waker_parker::WakerParker::prepare(node());
    rest(&mut prepare, &mut memory);
    let mut poll = usync::shared::waker_parker::WakerParker::poll(node());
    rest(&mut poll, &mut memory);
    assert_eq!(poll.step, usync::shared::waker_parker::PollStep::Done { result: usync::shared::waker_parker::Polled::Updated });
    let mut unpark = usync::shared::waker_parker::WakerParker::unpark(node(), 3);
    while unpark.step != usync::shared::waker_parker::UnparkStep::Take {
        let reply = memory.perform(unpark.access());
        unpark.resume(reply, &mut Hints::new());
    }
    let mut poll = usync::shared::waker_parker::WakerParker::poll(node());
    rest(&mut poll, &mut memory);
    assert_eq!(poll.step, usync::shared::waker_parker::PollStep::Done { result: usync::shared::waker_parker::Polled::Contended });
    rest(&mut unpark, &mut memory);
    assert_eq!(memory.get(Place::Wake(node())), 15);
    let mut poll = usync::shared::waker_parker::WakerParker::poll(node());
    rest(&mut poll, &mut memory);
    assert_eq!(poll.step, usync::shared::waker_parker::PollStep::Done { result: usync::shared::waker_parker::Polled::Token(3) });
}

#[test]
fn waker_parker_keeps_a_waker_that_will_do() {
    let mut memory = Memory::new(0, 1);
    let mut prepare = usync::shared::waker_parker::WakerParker::prepare(node());
    rest(&mut prepare, &mut memory);
    let mut poll = usync::shared::waker_parker::WakerParker::poll(node());
    while !matches!(poll.access(), Access::WillWake(_)) {
        let reply = memory.perform(poll.access());
        poll.resume(reply, &mut Hints::new());
    }
    answer(&mut poll, true, 0);
    assert_eq!(poll.step, usync::shared::waker_parker::PollStep::EndUpdate);
}

#[test]
fn atomic_waker_keeps_the_waker_of_the_last_poll() {
    let mut memory = Memory::new(0, 1);
    let mut prepare = usync::shared::atomic_waker::AtomicWaker::prepare_poll(node());
    rest(&mut prepare, &mut memory);
    let mut poll = usync::shared::atomic_waker::AtomicWaker::poll(node());
    let mut stored = false;
    while poll.access() != Access::Done {
        stored = stored || poll.access() == Access::StoreWaker(node());
        let reply = memory.perform(poll.access());
        poll.resume(reply, &mut Hints::new());
    }
    assert!(stored);
    assert!(memory.has_waker(node()));
    // A poll that finds the waker being taken leaves it alone.
    memory.set(Place::Wake(node()), usync::shared::atomic_waker::CONSUMING);
    let mut poll = usync::shared::atomic_waker::AtomicWaker::poll(node());
    while poll.access() != Access::Done {
        assert_ne!(poll.access(), Access::StoreWaker(node()));
        let reply = memory.perform(poll.access());
        poll.resume(reply, &mut Hints::new());
    }
}
