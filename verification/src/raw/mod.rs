//! Locks without a value.

pub mod lock;
pub mod mutex;
