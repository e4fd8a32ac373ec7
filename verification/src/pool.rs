//! The gateway's pool of warm function hosts.

pub mod config;
pub mod error;
pub mod host_instance;
pub mod host_lease;
pub mod pool_manager;
