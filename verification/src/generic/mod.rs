//! A mutex for any way of parking threads.

pub mod mutex;
