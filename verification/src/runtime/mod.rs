//! The state of the asynchronous runtime: the executor's task slots and wake
//! queue, and the small futures' step functions. Polling itself, which goes
//! through `core::future::Future`, is done by the caller, who hands each
//! outcome back to these functions.
pub mod executor;
pub mod future;

pub use executor::Executor;
pub use future::{pending, ready, sleep, yield_now, AsyncSignal, Pending, Ready, Sleep, Yield};
