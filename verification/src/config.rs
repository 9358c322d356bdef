use vstd::prelude::*;

verus! {

/// Number of task control blocks in the task table.
pub const MAX_TASKS: usize = 16;

/// Number of software timer slots.
pub const MAX_TIMERS: usize = 16;

/// Number of message queue slots.
pub const MAX_MQS: usize = 16;

/// Number of legacy mutex slots.
pub const MAX_MUTEXES: usize = 16;

/// Size in bytes of each task stack.
pub const STACK_SIZE: usize = 1024;

/// Size in bytes of the kernel heap.
pub const HEAP_SIZE: usize = 16384;

} // verus!
