# usync

Locks and mutexes for threads and tasks, verified with Verus.

A lock is shared by threads that run at the same time, so no operation on it ever
sees the memory at rest. In this crate every operation is a value: it names the
one access it wants next and goes on once it is told what that access gave back.
The contract of each operation says which access follows which reply, exactly, and
how often it tells the processor in between that it spins.
What the locks promise is proved of every interleaving of such accesses.

## Layout

`src/` is the library.

- `access`, `memory`: accesses and replies, and a memory to run operations on.
- `words`, `tail`, `chain`: how a state word packs its flags and the newest
  waiter, how the oldest waiter is found, and doubly linked lists in an arena.
- `lock`, `kernel::lock`, `base::lock`, `shared::lock`, `raw::lock`,
  `throughput`, `eventually_fair`: locks whose waiters form a queue that threads
  its way through them.
- `mutex`, `generic::mutex`, `sync::mutex`, `raw::mutex`: mutexes with a queue
  under a lock of its own.
- `base::async_parker`, `shared::atomic_waker`, `shared::waker_parker`, `parker`,
  `thread_parker`, `timed_parker`, `kernel::thread_parker`: cells that a thread
  or a task waits by.
- `list`, `kernel::wait_queue`, `shared::list`, `spin_wait`, `kernel::spin`,
  `kernel::cpu`, `prng`: the pieces that the locks are made of.

The laws stand in modules of their own.

- `exclusion`: two threads never hold a lock at once.
- `queue`, `upkeep`: the queue of the first kind of locks stays whole, every
  reply is one that the operation expects, nobody is forgotten, those who join
  first are woken first, and a free lock is not left alone.
- `parking`, `vigil`: the same for the mutexes.
- `tenure`, `custody`: a lock or a mutex whose state word says that it is held
  has a holder, so that `is_locked` tells whether there is one.
- `meeting`: a wake is not lost between the one who waits and the one who wakes.
- `owners`: the waker that is taken is that of the task which polled last.

Interleavings are those of sequentially consistent memory; the memory orders that
the operations ask for are part of their contracts, but nothing is proved from
them. Where an operation can be brought out of step by replies that its
protocol does not rule out, the laws say so in what they admit.

`app/` runs the operations on real atomics, wakers and clocks, and puts values
behind the locks.
