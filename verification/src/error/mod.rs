pub mod types;

pub use types::{Result, RtosError};
