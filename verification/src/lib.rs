//! A small real-time kernel whose task table, schedulers, timers and message
//! queues are plain values with verified contracts.
pub mod config;
pub mod drivers;
pub mod error;
pub mod hal;
pub mod ipc;
pub mod ipc_elegant;
pub mod kernel;
pub mod log;
pub mod runtime;
pub mod sync;
pub mod utils;
