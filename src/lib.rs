//! Verified core of a small single-core kernel: physical frame allocation,
//! offset paging, interrupt vector layout, tick-driven sleeping, bounded
//! event queues and the bookkeeping of a cooperative executor.
pub mod queue;
pub mod memory;
pub mod task;
pub mod interrupts;
pub mod vga;
