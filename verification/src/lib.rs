//! A priority-based coroutine scheduler shared between kernel and user space:
//! per-thread ready sets indexed by priority, priority bitmaps, and the
//! shared priority arrays from which the kernel picks the next process and thread.

pub mod config;
pub mod bitmap;
pub mod coroutine;
pub mod least;
pub mod runtime;
pub mod sharedscheduler;
pub mod manager;
pub mod syscall;
pub mod http;
pub mod hexdump;
pub mod fifo_runtime;
