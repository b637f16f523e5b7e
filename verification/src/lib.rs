//! Uchi Pulse: verified protocol, input, configuration and state logic for
//! the home notification hub and its GPIO nodes.

pub mod common;
pub mod control;
pub mod hub;
pub mod node;
pub mod settings;
pub mod text;
