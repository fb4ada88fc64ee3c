//! A lock that hands its waker flag on, and the pieces it is made of.

pub mod cpu;
pub mod lock;
pub mod spin;
pub mod thread_parker;
pub mod wait_queue;
