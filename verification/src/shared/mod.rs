//! Cells that wake a task, and a lock built on them.

pub mod atomic_waker;
pub mod list;
pub mod lock;
pub mod waker_parker;
