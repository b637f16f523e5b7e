//! Types and wire formats shared by the node, the hub and the tools.

pub mod action;
pub mod cdc;
pub mod codec;
pub mod json;
pub mod types;
pub mod udp;

use vstd::prelude::*;

verus! {

/// Protocol version of the CDC messages.
pub const CDC_PROTOCOL_VERSION: u8 = 1;

/// Default communication parameters of the UDP protocol.
pub const DEFAULT_ACK_TIMEOUT_MS: u32 = 60_000;
pub const DEFAULT_EVENT_RETRY_COUNT: u8 = 3;
pub const DEFAULT_HEARTBEAT_INTERVAL_SEC: u32 = 180;
pub const DEFAULT_OFFLINE_TIMEOUT_SEC: u32 = 180;

#[derive(Clone, Copy, Debug, PartialEq, Eq, Structural)]
pub struct CommunicationConfig {
    pub ack_timeout_ms: u32,
    pub event_retry_count: u8,
    pub heartbeat_interval_sec: u32,
    pub offline_timeout_sec: u32,
}

impl Default for CommunicationConfig {
    fn default() -> (r: Self)
        ensures
            r.ack_timeout_ms == DEFAULT_ACK_TIMEOUT_MS,
            r.event_retry_count == DEFAULT_EVENT_RETRY_COUNT,
            r.heartbeat_interval_sec == DEFAULT_HEARTBEAT_INTERVAL_SEC,
            r.offline_timeout_sec == DEFAULT_OFFLINE_TIMEOUT_SEC,
    {
        CommunicationConfig {
            ack_timeout_ms: DEFAULT_ACK_TIMEOUT_MS,
            event_retry_count: DEFAULT_EVENT_RETRY_COUNT,
            heartbeat_interval_sec: DEFAULT_HEARTBEAT_INTERVAL_SEC,
            offline_timeout_sec: DEFAULT_OFFLINE_TIMEOUT_SEC,
        }
    }
}

} // verus!
