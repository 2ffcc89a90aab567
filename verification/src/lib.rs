//! Load-balancing and task-orchestration core of a layer-4 reverse proxy.

pub mod bootstrap;
pub mod config;
pub mod server;
pub mod signal;
pub mod upstream;
pub mod utils;
