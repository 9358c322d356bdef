pub mod event;
pub mod mutex;
pub mod signal;

pub use event::Event;
pub use mutex::{Mutex, MutexGuard};
pub use signal::{Signal, WaiterList};
