//! Shared utilities: the message queue and the elastic worker pool.

pub mod message_queue;
pub mod thread_pool;
