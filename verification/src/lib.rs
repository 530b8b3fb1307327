//! A verified core for a single-instance QEMU control server.

pub mod config;
pub mod http;
pub mod instance;
pub mod logging;
pub mod policy;
pub mod qemu;
pub mod server;
pub mod text;
