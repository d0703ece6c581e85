//! Synchronization fences: signal/wait fences, fence pooling, fence management, timeouts and
//! producer-consumer ordering.
//!
//! All fences live on a [`Device`]. A thread opens a [`Session`] on the device, works on it
//! alone for as long as the session is open, and gives the device up while it waits for a fence.

pub mod effects;
mod fence;
pub mod laws;
mod manager;
pub mod model;
mod pool;
mod producer_consumer;
mod state;
mod sync;
mod table;

pub use fence::{Fence, FenceId};
pub use manager::FenceManager;
pub use model::FenceStatus;
pub use pool::FencePool;
pub use producer_consumer::ProducerConsumer;
pub use sync::{Device, Session};
