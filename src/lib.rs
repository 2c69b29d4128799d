//! The shared state of a fixed-size worker pool: a FIFO queue of messages
//! that submitters fill and workers drain, with the shutdown protocol that
//! sends one `Kill` per worker after every pending task.
pub mod message;
pub mod laws;
pub mod pool;

pub use message::Message;
pub use pool::{PoolError, PoolState, PoolView};
