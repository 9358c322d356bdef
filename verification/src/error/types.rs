use vstd::prelude::*;

verus! {

/// Errors reported by the kernel services.
#[derive(Debug, Clone, Copy, PartialEq, Eq, Structural)]
pub enum RtosError {
    TaskNotFound,
    TaskSlotsFull,
    InvalidTaskState,
    MutexNotOwned,
    MutexSlotsFull,
    MutexPoisoned,
    MutexLockFailed,
    SignalSlotsFull,
    SignalClosed,
    WaiterQueueFull,
    SemaphoreOverflow,
    SemaphoreClosed,
    CondVarClosed,
    CondVarTimeout,
    QueueFull,
    QueueEmpty,
    InvalidHandle,
    TypeMismatch,
    ChannelClosed,
    ChannelDisconnected,
    TimerSlotsFull,
    TimerNotFound,
    Timeout,
    OutOfMemory,
    WouldBlock,
    InvalidArgument,
}

impl RtosError {
    /// The message that describes an error.
    pub open spec fn spec_message(self) -> &'static str {
        match self {
            RtosError::TaskNotFound => "Task not found",
            RtosError::TaskSlotsFull => "Task slots full",
            RtosError::InvalidTaskState => "Invalid task state",
            RtosError::MutexNotOwned => "Mutex not owned by current task",
            RtosError::MutexSlotsFull => "Mutex slots full",
            RtosError::MutexPoisoned => "Mutex poisoned",
            RtosError::MutexLockFailed => "Failed to acquire mutex lock",
            RtosError::SignalSlotsFull => "Signal slots full",
            RtosError::SignalClosed => "Signal closed",
            RtosError::WaiterQueueFull => "Waiter queue full",
            RtosError::SemaphoreOverflow => "Semaphore overflow",
            RtosError::SemaphoreClosed => "Semaphore closed",
            RtosError::CondVarClosed => "Condition variable closed",
            RtosError::CondVarTimeout => "Condition variable wait timeout",
            RtosError::QueueFull => "Queue full",
            RtosError::QueueEmpty => "Queue empty",
            RtosError::InvalidHandle => "Invalid handle",
            RtosError::TypeMismatch => "Type mismatch",
            RtosError::ChannelClosed => "Channel closed",
            RtosError::ChannelDisconnected => "Channel disconnected",
            RtosError::TimerSlotsFull => "Timer slots full",
            RtosError::TimerNotFound => "Timer not found",
            RtosError::Timeout => "Operation timed out",
            RtosError::OutOfMemory => "Out of memory",
            RtosError::WouldBlock => "Operation would block",
            RtosError::InvalidArgument => "Invalid argument",
        }
    }

    /// The message that describes the error.
    pub fn as_str(&self) -> (r: &'static str)
        ensures
            r@ == self.spec_message()@,
    {
        match self {
            RtosError::TaskNotFound => "Task not found",
            RtosError::TaskSlotsFull => "Task slots full",
            RtosError::InvalidTaskState => "Invalid task state",
            RtosError::MutexNotOwned => "Mutex not owned by current task",
            RtosError::MutexSlotsFull => "Mutex slots full",
            RtosError::MutexPoisoned => "Mutex poisoned",
            RtosError::MutexLockFailed => "Failed to acquire mutex lock",
            RtosError::SignalSlotsFull => "Signal slots full",
            RtosError::SignalClosed => "Signal closed",
            RtosError::WaiterQueueFull => "Waiter queue full",
            RtosError::SemaphoreOverflow => "Semaphore overflow",
            RtosError::SemaphoreClosed => "Semaphore closed",
            RtosError::CondVarClosed => "Condition variable closed",
            RtosError::CondVarTimeout => "Condition variable wait timeout",
            RtosError::QueueFull => "Queue full",
            RtosError::QueueEmpty => "Queue empty",
            RtosError::InvalidHandle => "Invalid handle",
            RtosError::TypeMismatch => "Type mismatch",
            RtosError::ChannelClosed => "Channel closed",
            RtosError::ChannelDisconnected => "Channel disconnected",
            RtosError::TimerSlotsFull => "Timer slots full",
            RtosError::TimerNotFound => "Timer not found",
            RtosError::Timeout => "Operation timed out",
            RtosError::OutOfMemory => "Out of memory",
            RtosError::WouldBlock => "Operation would block",
            RtosError::InvalidArgument => "Invalid argument",
        }
    }
}

/// Result type of the kernel services.
pub type Result<T> = core::result::Result<T, RtosError>;

} // verus!
