//! A verified core for a small Lambda platform: a FIFO queue without
//! duplicates, the gateway's port and host pools, and the request/response
//! logic of the function runtime.

pub mod docker;
pub mod hello;
pub mod json;
pub mod pool;
pub mod port;
pub mod queue_set;
pub mod runtime;
pub mod text;
