//! The desktop control tool: CDC framing of a node's or the hub's replies,
//! request construction and the checks on database records.

pub mod db;
pub mod endpoint;
pub mod protocol;
