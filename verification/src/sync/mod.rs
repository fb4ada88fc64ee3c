//! A mutex for threads and tasks.

pub mod mutex;
