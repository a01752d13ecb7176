use vstd::prelude::*;

verus! {

/// Number of priority levels. Priorities of coroutines run from 1 to `PRIO_NUM`;
/// `PRIO_NUM` also stands for "nothing ready".
pub const PRIO_NUM: usize = 8;

/// Number of threads of one process that the scheduler keeps state for.
pub const MAX_THREAD_NUM: usize = 16;

/// Number of processes that the shared priority arrays hold a slot for.
pub const MAX_PROC_NUM: usize = 64;

} // verus!
