//! The hub: runtime communication state, actions, UDP processing and the
//! CDC management endpoint.

pub mod action;
pub mod cdc;
pub mod config;
pub mod db;
pub mod state;
pub mod udp;

