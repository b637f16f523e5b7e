//! The node: GPIO input, its persisted configuration, the UDP protocol and
//! the CDC configuration endpoint.

pub mod cdc;
pub mod config;
pub mod flash;
pub mod input;
pub mod protocol;
pub mod storage;
pub mod udp;
