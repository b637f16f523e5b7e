//! The earlier wire format of the node/hub protocol, with numbered messages.

use vstd::prelude::*;

use crate::common::codec::write_text;
use crate::common::json::{json_signed, json_string_text, json_unsigned, push_signed, push_string, push_unsigned};

verus! {

pub const PROTOCOL_VERSION: u8 = 1;

pub type MessageId = u32;

#[derive(Clone, Copy, Debug, PartialEq, Eq, Structural)]
pub enum MessageType {
    Hello,
    Heartbeat,
    Event,
    Ack,
}

#[derive(Clone, Copy, Debug, PartialEq, Eq, Structural)]
pub enum EventType {
    Button,
    Sensor,
    State,
}

pub open spec fn spec_message_type_name(t: MessageType) -> Seq<char> {
    match t {
        MessageType::Hello => "HELLO"@,
        MessageType::Heartbeat => "HEARTBEAT"@,
        MessageType::Event => "EVENT"@,
        MessageType::Ack => "ACK"@,
    }
}

pub open spec fn spec_event_type_name(t: EventType) -> Seq<char> {
    match t {
        EventType::Button => "BUTTON"@,
        EventType::Sensor => "SENSOR"@,
        EventType::State => "STATE"@,
    }
}

fn message_type_name(t: MessageType) -> (r: &'static str)
    ensures
        r@ == spec_message_type_name(t),
{
    match t {
        MessageType::Hello => "HELLO",
        MessageType::Heartbeat => "HEARTBEAT",
        MessageType::Event => "EVENT",
        MessageType::Ack => "ACK",
    }
}

fn event_type_name(t: EventType) -> (r: &'static str)
    ensures
        r@ == spec_event_type_name(t),
{
    match t {
        EventType::Button => "BUTTON",
        EventType::Sensor => "SENSOR",
        EventType::State => "STATE",
    }
}

/// An acknowledgement of a numbered message.
#[derive(Clone, Copy, Debug, PartialEq, Eq, Structural)]
pub struct Ack {
    pub message_type: MessageType,
    pub message_id: MessageId,
}

#[derive(Clone, Copy, Debug, PartialEq, Eq, Structural)]
pub enum EncodeError {
    BufferTooSmall,
}

/// The JSON of a numbered message with the given `data` object.
pub open spec fn message_json(
    message_type: MessageType,
    device_id: Seq<char>,
    message_id: MessageId,
    data: Seq<char>,
) -> Seq<char> {
    "{\"version\":"@ + json_unsigned(PROTOCOL_VERSION as nat) + ",\"type\":\""@ + spec_message_type_name(
        message_type,
    ) + "\",\"device_id\":"@ + json_string_text(device_id) + ",\"message_id\":"@ + json_unsigned(
        message_id as nat,
    ) + ",\"data\":"@ + data + "}"@
}

pub open spec fn hello_data(name: Seq<char>, firmware_version: Seq<char>) -> Seq<char> {
    "{\"name\":"@ + json_string_text(name) + ",\"firmware_version\":"@ + json_string_text(
        firmware_version,
    ) + "}"@
}

pub open spec fn event_data(event_type: EventType, channel: u8, value: i32) -> Seq<char> {
    "{\"event_type\":\""@ + spec_event_type_name(event_type) + "\",\"channel\":"@ + json_unsigned(
        channel as nat,
    ) + ",\"value\":"@ + json_signed(value as int) + "}"@
}

/// What an encoder leaves in `dst` for the JSON text `json`.
pub open spec fn encoded(
    json: Seq<char>,
    old_dst: Seq<u8>,
    new_dst: Seq<u8>,
    r: Result<usize, EncodeError>,
) -> bool {
    &&& new_dst.len() == old_dst.len()
    &&& match r {
        Ok(n) => {
            &&& n == vstd::utf8::encode_utf8(json).len()
            &&& n <= old_dst.len()
            &&& new_dst.subrange(0, n as int) == vstd::utf8::encode_utf8(json)
            &&& new_dst.subrange(n as int, new_dst.len() as int) == old_dst.subrange(
                n as int,
                old_dst.len() as int,
            )
        },
        Err(e) => e == EncodeError::BufferTooSmall && vstd::utf8::encode_utf8(json).len()
            > old_dst.len(),
    }
}

fn encode(dst: &mut [u8], message_type: MessageType, device_id: &str, message_id: MessageId, data: &str) -> (r:
    Result<usize, EncodeError>)
    ensures
        encoded(message_json(message_type, device_id@, message_id, data@), old(dst)@, final(dst)@, r),
{
    let mut json = String::new();
    json.append("{\"version\":");
    push_unsigned(&mut json, PROTOCOL_VERSION as u64);
    json.append(",\"type\":\"");
    json.append(message_type_name(message_type));
    json.append("\",\"device_id\":");
    push_string(&mut json, device_id);
    json.append(",\"message_id\":");
    push_unsigned(&mut json, message_id as u64);
    json.append(",\"data\":");
    json.append(data);
    json.append("}");
    match write_text(json.as_str(), dst) {
        Ok(n) => Ok(n),
        Err(_) => Err(EncodeError::BufferTooSmall),
    }
}

pub fn encode_hello(
    dst: &mut [u8],
    device_id: &str,
    message_id: MessageId,
    name: &str,
    firmware_version: &str,
) -> (r: Result<usize, EncodeError>)
    ensures
        encoded(
            message_json(MessageType::Hello, device_id@, message_id, hello_data(name@, firmware_version@)),
            old(dst)@,
            final(dst)@,
            r,
        ),
{
    let mut data = String::new();
    data.append("{\"name\":");
    push_string(&mut data, name);
    data.append(",\"firmware_version\":");
    push_string(&mut data, firmware_version);
    data.append("}");
    encode(dst, MessageType::Hello, device_id, message_id, data.as_str())
}

pub fn encode_heartbeat(dst: &mut [u8], device_id: &str, message_id: MessageId) -> (r: Result<
    usize,
    EncodeError,
>)
    ensures
        encoded(message_json(MessageType::Heartbeat, device_id@, message_id, "{}"@), old(dst)@, final(dst)@, r),
{
    encode(dst, MessageType::Heartbeat, device_id, message_id, "{}")
}

pub fn encode_event(
    dst: &mut [u8],
    device_id: &str,
    message_id: MessageId,
    event_type: EventType,
    channel: u8,
    value: i32,
) -> (r: Result<usize, EncodeError>)
    ensures
        encoded(
            message_json(MessageType::Event, device_id@, message_id, event_data(event_type, channel, value)),
            old(dst)@,
            final(dst)@,
            r,
        ),
{
    let mut data = String::new();
    data.append("{\"event_type\":\"");
    data.append(event_type_name(event_type));
    data.append("\",\"channel\":");
    push_unsigned(&mut data, channel as u64);
    data.append(",\"value\":");
    push_signed(&mut data, value as i64);
    data.append("}");
    encode(dst, MessageType::Event, device_id, message_id, data.as_str())
}

/// The ACK in a datagram: `decoded` is the decoder's result and the number
/// of bytes it consumed. It counts only if it spans the whole payload and is
/// of type ACK.
pub fn decode_ack(decoded: Option<(Ack, usize)>, payload_len: usize) -> (r: Option<Ack>)
    ensures
        r == match decoded {
            Some((ack, used)) => if used == payload_len && ack.message_type == MessageType::Ack {
                Some(ack)
            } else {
                None
            },
            None => None,
        },
{
    match decoded {
        Some((ack, used)) => if used == payload_len && ack.message_type == MessageType::Ack {
            Some(ack)
        } else {
            None
        },
        None => None,
    }
}

} // verus!
