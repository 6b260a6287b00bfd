//! Cooperative tasks: the tick counter and sleeping, and executor bookkeeping.
pub mod executor;
pub mod timer;
