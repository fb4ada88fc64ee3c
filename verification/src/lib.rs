//! Small mutexes, written as operations that ask for one access to shared
//! memory at a time.

pub mod access;
pub mod base;
pub mod chain;
pub mod course;
pub mod custody;
pub mod debt;
pub mod eventually_fair;
pub mod exclusion;
pub mod generic;
pub mod handover;
pub mod kernel;
pub mod list;
pub mod lock;
pub mod lookout;
pub mod meeting;
pub mod memory;
pub mod mutex;
pub mod owners;
pub mod parker;
pub mod parking;
pub mod patience;
pub mod prng;
pub mod queue;
pub mod raw;
pub mod renewal;
pub mod shared;
pub mod spin_wait;
pub mod starving;
pub mod sync;
pub mod tail;
pub mod tenure;
pub mod thread_parker;
pub mod throughput;
pub mod timed_parker;
pub mod try_lock;
pub mod upkeep;
pub mod vigil;
pub mod visibility;
pub mod visit;
pub mod wait;
pub mod words;
