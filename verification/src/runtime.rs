//! The function runtime: how requests are routed and how responses are
//! built, as plain values.

pub mod error;
pub mod handler;
pub mod headers;
pub mod models;
pub mod server;
