//! Ready-made middleware: logging, and deferred work.

pub mod logger;
pub mod thunk;
