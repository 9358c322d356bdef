pub mod channel;
pub mod queue;

pub use queue::Mq;
