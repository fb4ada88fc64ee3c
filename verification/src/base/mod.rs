//! A lock that can be handed over, and a cell that wakes a task.

pub mod async_parker;
pub mod lock;
