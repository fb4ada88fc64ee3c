use usync::access::{Access, Link, Operation, Order, Place, Reply};
use usync::kernel::cpu::{
    Hints, IS_INTEL, IS_NOT_INTEL, IS_UNINIT, IsIntel, Vendor, hints, is_intel, spin_loop_hint, spin_round,
};
use usync::kernel::spin::Spin;
use usync::kernel::thread_parker::ThreadParker as KernelParker;
use usync::memory::Memory;
use usync::parker::{Parker, Rest};
use usync::prng::{Prng, compose, xorshift};
use usync::spin_wait::SpinWait;
use usync::tail::{Search, SearchStep};
use usync::thread_parker::ThreadParker;
use usync::timed_parker::ThreadParkerTimed;

/// Runs an operation until it is over or has to wait.
fn rest<P: Operation>(operation: &mut P, memory: &mut Memory) {
    for _ in 0..200 {
        match operation.access() {
            Access::Done | Access::Park | Access::ParkUntil | Access::ParkSince => return,
            access => {
                let reply = memory.perform(access);
                assert!(operation.accepts(reply));
                operation.resume(reply, &mut Hints::new());
            }
        }
    }
    panic!("the operation does not come to rest");
}

#[test]
fn spin_wait_spins_six_times() {
    let mut spin = SpinWait::new();
    for _ in 0..6 {
        assert!(spin.yield_now(&mut Hints::new()));
    }
    assert!(!spin.yield_now(&mut Hints::new()));
    spin.reset();
    assert_eq!(spin, SpinWait::default());
    assert!(spin.yield_now(&mut Hints::new()));
}

#[test]
fn spin_goes_by_the_processor() {
    let mut spin = Spin::new();
    let mut rounds = 0;
    while spin.yield_now(true, &mut Hints::new()) {
        rounds += 1;
    }
    assert_eq!(rounds, 11);
    assert_eq!(spin, Spin { iter: 11, max: Some(10) });
    spin.reset();
    assert_eq!(spin, Spin { iter: 0, max: Some(10) });
    let mut spin = Spin::default();
    let mut rounds = 0;
    while spin.yield_now(false, &mut Hints::new()) {
        rounds += 1;
    }
    assert_eq!(rounds, 6);
}

#[test]
fn rounds_double() {
    assert_eq!(hints(0), 1);
    assert_eq!(hints(5), 32);
    assert_eq!(hints(31), 1 << 31);
    let mut made = Hints::new();
    spin_round(3, &mut made);
    spin_loop_hint(&mut made);
}

#[test]
fn vendor_is_recognised() {
    let intel = Vendor { ebx: 0x756e_6547, edx: 0x4965_6e69, ecx: 0x6c65_746e };
    let other = Vendor { ebx: 0x6874_7541, edx: 0x6974_6e65, ecx: 0x444d_4163 };
    let mut known = IsIntel::new();
    assert_eq!(known.state, IS_UNINIT);
    assert!(known.get(Some(intel)));
    assert_eq!(known.state, IS_INTEL);
    assert!(known.get(Some(other)));
    assert_eq!(known.get_slow(Some(other)), IS_NOT_INTEL);
    let mut known = IsIntel::new();
    assert!(!is_intel(&mut known, None));
    assert_eq!(known.state, IS_NOT_INTEL);
}

#[test]
fn random_numbers_follow_each_other() {
    assert_eq!(xorshift(0), 0);
    assert_eq!(xorshift(1), 0x8181);
    assert_eq!(xorshift(0x8181), 0x6021);
    assert_eq!(compose(1, 2), 0x1_0002);
    let mut prng = Prng(1);
    assert_eq!(prng.gen_u32(), 0x8181_6021);
    assert_eq!(prng.0, 0x6021);
    assert_eq!(prng.xorshift16(), xorshift(0x6021));
    assert_eq!(Prng::default().0, 0);
}

#[test]
fn random_numbers_do_not_repeat_at_once() {
    let mut seen = vec![false; 65536];
    for x in 0..=u16::MAX {
        let next = xorshift(x) as usize;
        assert!(!seen[next]);
        seen[next] = true;
    }
}

#[test]
fn memory_performs_its_accesses() {
    let mut memory = Memory::new(0x1ff, 2);
    let node = Memory::address(1);
    let relaxed = Order::Relaxed;
    assert_eq!(
        memory.perform(Access::Load(Place::Word, relaxed)),
        Reply { ok: true, value: 0x1ff }
    );
    assert_eq!(
        memory.perform(Access::CompareExchange(Place::Word, 1, 2, relaxed, relaxed)),
        Reply { ok: false, value: 0x1ff }
    );
    assert_eq!(
        memory.perform(Access::CompareExchangeWeak(Place::Word, 0x1ff, 0x201, relaxed, relaxed)),
        Reply { ok: true, value: 0x1ff }
    );
    assert_eq!(memory.perform(Access::SwapByte(0x103, relaxed)).value, 1);
    assert_eq!(memory.get(Place::Word), 0x203);
    memory.perform(Access::StoreByte(0, relaxed));
    assert_eq!(memory.get(Place::Word), 0x200);
    assert!(memory.perform(Access::CompareExchangeByte(0, 1, relaxed, relaxed)).ok);
    assert_eq!(memory.perform(Access::FetchAnd(Place::Word, !1, relaxed)).value, 0x201);
    assert_eq!(memory.perform(Access::FetchSub(Place::Word, 0x201, relaxed)).value, 0x200);
    assert_eq!(memory.get(Place::Word), usize::MAX);
    memory.perform(Access::Store(Place::Link(node, Link::Prev), 9, relaxed));
    assert_eq!(memory.get(Place::Link(node, Link::Prev)), 9);
    assert!(!memory.perform(Access::HasWaker(node)).ok);
    memory.perform(Access::StoreWaker(node));
    assert!(memory.perform(Access::TakeWaker(node)).ok);
    assert!(!memory.perform(Access::TakeWaker(node)).ok);
    assert!(!memory.perform(Access::HasDeadline(node)).ok);
    memory.perform(Access::SetDeadline(node, 5));
    assert!(memory.perform(Access::HasDeadline(node)).ok);
    memory.perform(Access::LockQueue);
    assert!(memory.is_guarded());
    assert!(!memory.perform(Access::PopFront).ok);
    memory.perform(Access::PushBack(node));
    memory.perform(Access::PushBack(7));
    assert_eq!(memory.perform(Access::LastWaiter), Reply { ok: true, value: 7 });
    assert!(memory.perform(Access::Remove(node)).ok);
    assert!(!memory.perform(Access::Remove(node)).ok);
    assert_eq!(memory.perform(Access::PopFront), Reply { ok: true, value: 7 });
    assert!(memory.perform(Access::IsQueueEmpty).ok);
}

#[test]
fn search_walks_to_the_oldest() {
    let mut memory = Memory::new(0, 4);
    let nodes: Vec<usize> = (0..4).map(Memory::address).collect();
    for i in 0..3 {
        memory.set(Place::Link(nodes[i], Link::Next), nodes[i + 1]);
    }
    memory.set(Place::Link(nodes[3], Link::Tail), nodes[3]);
    let mut search = Search::start(nodes[0], false);
    let mut count = 0;
    while search.found().is_none() {
        let reply = memory.perform(search.access());
        search.resume(reply, &mut Hints::new());
        count += 1;
    }
    assert_eq!(search.step, SearchStep::Found { tail: nodes[3] });
    assert_eq!(count, 11);
    for i in 0..3 {
        assert_eq!(memory.get(Place::Link(nodes[i + 1], Link::Prev)), nodes[i]);
    }
    let mut again = Search::start(nodes[0], true);
    rest(&mut again, &mut memory);
    assert_eq!(again.found(), Some(nodes[3]));
}

#[test]
fn parkers_keep_a_wake() {
    let mut memory = Memory::new(0, 1);
    let node = Memory::address(0);
    let parker = usync::parker::spin_parker::SpinParker::new();
    rest(&mut parker.prepare(node), &mut memory);
    rest(&mut parker.unpark(node), &mut memory);
    let mut park = parker.park_until(node);
    rest(&mut park, &mut memory);
    assert!(matches!(park.access(), Access::Done));

    let mut memory = Memory::new(0, 1);
    let parker = usync::parker::std_parker::StdParker::new();
    rest(&mut parker.prepare(node), &mut memory);
    let mut park = parker.park(node);
    rest(&mut park, &mut memory);
    assert!(matches!(park.access(), Access::Park));
    rest(&mut parker.unpark(node), &mut memory);
    assert!(!memory.has_waker(node));
    let mut park = parker.park_until(node);
    rest(&mut park, &mut memory);
    assert_eq!(park, usync::parker::std_parker::Park::Done { woken: true });

    let mut memory = Memory::new(0, 1);
    let parker: usync::thread_parker::spin_parker::Parker = ThreadParker::new();
    rest(&mut parker.prepare_park(node), &mut memory);
    rest(&mut parker.unpark(node), &mut memory);
    let mut park = parker.park(node);
    rest(&mut park, &mut memory);
    assert!(matches!(park.access(), Access::Done));
}

#[test]
fn timed_park_ends_at_its_deadline() {
    let parker: usync::thread_parker::std_parker::Parker = ThreadParker::new();
    let mut park = ThreadParkerTimed::park_until(&parker, 512);
    park.resume(Reply { ok: true, value: 0 }, &mut Hints::new());
    assert_eq!(park, usync::thread_parker::std_parker::Park::CheckDeadline { node: 512 });
    park.resume(Reply { ok: false, value: 0 }, &mut Hints::new());
    assert_eq!(park, usync::thread_parker::std_parker::Park::Block { node: 512, timed: true });
    park.resume(Reply { ok: false, value: 0 }, &mut Hints::new());
    park.resume(Reply { ok: true, value: 0 }, &mut Hints::new());
    park.resume(Reply { ok: true, value: 0 }, &mut Hints::new());
    assert_eq!(park, usync::thread_parker::std_parker::Park::Done { woken: false });
}

#[test]
fn thread_parker_keeps_its_thread() {
    let mut memory = Memory::new(0, 1);
    let node = Memory::address(0);
    let parker: usync::kernel::thread_parker::StdThreadParker = KernelParker::new();
    rest(&mut parker.prepare_park(node), &mut memory);
    assert!(memory.has_waker(node));
    rest(&mut parker.unpark(node), &mut memory);
    assert!(!memory.has_waker(node));
    assert!(matches!(parker.park(node).access(), Access::Park));
    assert!(matches!(parker.park_until(node).access(), Access::ParkUntil));
}

#[test]
fn waits_get_longer() {
    assert_eq!(<usync::parker::std_parker::StdParker as Parker>::yield_now(3, &mut Hints::new()), Rest::Spun);
    assert_eq!(<usync::parker::std_parker::StdParker as Parker>::yield_now(4, &mut Hints::new()), Rest::Pause);
    assert_eq!(<usync::parker::std_parker::StdParker as Parker>::yield_now(5, &mut Hints::new()), Rest::Enough);
    assert_eq!(usync::parker::std_parker::StdParker::yield_on_windows(9, &mut Hints::new()), Rest::Spun);
    assert_eq!(usync::parker::std_parker::StdParker::yield_on_windows(10, &mut Hints::new()), Rest::Enough);
    assert_eq!(<usync::parker::spin_parker::SpinParker as Parker>::yield_now(0, &mut Hints::new()), Rest::Enough);
    assert_eq!(<usync::thread_parker::std_parker::Parker as ThreadParker>::yield_now(3, &mut Hints::new()), Rest::Spun);
    assert_eq!(<usync::thread_parker::std_parker::Parker as ThreadParker>::yield_now(10, &mut Hints::new()), Rest::Pause);
    assert_eq!(<usync::thread_parker::std_parker::Parker as ThreadParker>::yield_now(11, &mut Hints::new()), Rest::Enough);
    assert_eq!(<usync::thread_parker::spin_parker::Parker as ThreadParker>::yield_now(100, &mut Hints::new()), Rest::Spun);
    assert!(Rest::Pause.goes_on());
    assert!(!Rest::Enough.goes_on());
}

#[test]
fn clocks_that_do_not_run_stand_still() {
    let now = usync::parker::spin_parker::SpinInstant::now();
    assert_eq!(now.later(5), usync::parker::spin_parker::SpinInstant::default());
    assert_eq!(now.partial_cmp(&now), None);
    assert!(!(now >= now));
    let now = usync::thread_parker::spin_parker::Instant::now();
    assert!(now.later(5) >= now);
    assert!(now <= now);
}

#[test]
fn words_hold_flags_and_waiters() {
    assert!(usync::words::is_locked(513) && !usync::words::is_locked(512));
    assert_eq!(usync::words::set_locked(512), 513);
    assert!(usync::words::has_second(514) && !usync::words::has_second(513));
    assert_eq!(usync::words::set_second(512), 514);
    assert_eq!(usync::words::clear_second(515), 513);
    assert_eq!(usync::words::newest(515), 512);
    assert_eq!(usync::words::with_newest(515, 1024), 1027);
    assert!(usync::words::has_flag(768) && !usync::words::has_flag(512));
    assert_eq!(usync::words::set_flag(512), 768);
    assert_eq!(usync::words::clear_flag(769), 513);
    assert_eq!(usync::words::flag_only(769), 256);
    assert_eq!(usync::words::above_flag(1023), 512);
    assert_eq!(usync::words::with_above_flag(769, 1024), 1281);
    assert_eq!(usync::words::beside_flags(769), 512);
    assert_eq!(usync::words::with_beside_flags(771, 1024), 1281);
    assert_eq!(usync::words::above_locked(513), 512);
    assert_eq!(usync::words::with_above_locked(513, 1024), 1025);
}

#[test]
fn timed_wait_of_a_parker_looks_again_and_again() {
    let parker = usync::parker::std_parker::StdParker::new();
    let mut park = parker.park_until(512);
    park.resume(Reply { ok: true, value: 0 }, &mut Hints::new());
    assert_eq!(park.access(), Access::PastDeadline);
    park.resume(Reply { ok: false, value: 0 }, &mut Hints::new());
    assert_eq!(park.access(), Access::ParkSince);
    park.resume(Reply { ok: true, value: 0 }, &mut Hints::new());
    assert_eq!(park, usync::parker::std_parker::Park::Load { node: 512, timed: true });
    park.resume(Reply { ok: true, value: 0 }, &mut Hints::new());
    park.resume(Reply { ok: true, value: 0 }, &mut Hints::new());
    assert_eq!(park, usync::parker::std_parker::Park::Done { woken: false });
}
