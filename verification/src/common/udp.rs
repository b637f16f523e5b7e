//! The UDP message model exchanged between nodes and the hub, and its JSON
//! wire form.

use vstd::prelude::*;

use crate::common::codec::CodecError;
use crate::common::json::{json_string_text, json_unsigned, push_string, push_unsigned};
use crate::common::types::{utf8_len, DeviceId, EventId, DEVICE_ID_CAPACITY, EVENT_ID_CAPACITY};
use crate::text::str_equal;

verus! {

/// Action identifiers are interpreted by the hub only.
pub type ActionId = u32;

/// A physical input gesture detected on one GPIO.
#[derive(Clone, Copy, Debug, PartialEq, Eq, Structural)]
pub enum InputEvent {
    OffToOn,
    OnToOff,
    Click,
    DoubleClick,
    LongPress,
}

#[derive(Clone, Copy, Debug, PartialEq, Eq, Structural)]
pub enum MessageType {
    Hello,
    Heartbeat,
    Event,
    Ack,
}

/// The UDP wire format. GPIO and input-event details never appear here.
#[derive(Debug, PartialEq, Eq)]
pub enum UdpMessage {
    Hello { device_id: DeviceId },
    Heartbeat { device_id: DeviceId },
    Event { device_id: DeviceId, event_id: EventId, action_id: ActionId },
    Ack { device_id: DeviceId, event_id: EventId },
}

pub ghost enum UdpMessageView {
    Hello { device_id: Seq<char> },
    Heartbeat { device_id: Seq<char> },
    Event { device_id: Seq<char>, event_id: Seq<char>, action_id: ActionId },
    Ack { device_id: Seq<char>, event_id: Seq<char> },
}

impl UdpMessageView {
    pub open spec fn device_id(self) -> Seq<char> {
        match self {
            UdpMessageView::Hello { device_id } => device_id,
            UdpMessageView::Heartbeat { device_id } => device_id,
            UdpMessageView::Event { device_id, .. } => device_id,
            UdpMessageView::Ack { device_id, .. } => device_id,
        }
    }

    pub open spec fn message_type(self) -> MessageType {
        match self {
            UdpMessageView::Hello { .. } => MessageType::Hello,
            UdpMessageView::Heartbeat { .. } => MessageType::Heartbeat,
            UdpMessageView::Event { .. } => MessageType::Event,
            UdpMessageView::Ack { .. } => MessageType::Ack,
        }
    }
}

impl View for UdpMessage {
    type V = UdpMessageView;

    open spec fn view(&self) -> UdpMessageView {
        match self {
            UdpMessage::Hello { device_id } => UdpMessageView::Hello { device_id: device_id@ },
            UdpMessage::Heartbeat { device_id } => UdpMessageView::Heartbeat {
                device_id: device_id@,
            },
            UdpMessage::Event { device_id, event_id, action_id } => UdpMessageView::Event {
                device_id: device_id@,
                event_id: event_id@,
                action_id: *action_id,
            },
            UdpMessage::Ack { device_id, event_id } => UdpMessageView::Ack {
                device_id: device_id@,
                event_id: event_id@,
            },
        }
    }
}

impl Clone for UdpMessage {
    fn clone(&self) -> (r: Self)
        ensures
            r@ == self@,
    {
        match self {
            UdpMessage::Hello { device_id } => UdpMessage::Hello { device_id: device_id.clone() },
            UdpMessage::Heartbeat { device_id } => UdpMessage::Heartbeat {
                device_id: device_id.clone(),
            },
            UdpMessage::Event { device_id, event_id, action_id } => UdpMessage::Event {
                device_id: device_id.clone(),
                event_id: event_id.clone(),
                action_id: *action_id,
            },
            UdpMessage::Ack { device_id, event_id } => UdpMessage::Ack {
                device_id: device_id.clone(),
                event_id: event_id.clone(),
            },
        }
    }
}

impl UdpMessage {
    pub fn message_type(&self) -> (r: MessageType)
        ensures
            r == self@.message_type(),
    {
        match self {
            UdpMessage::Hello { .. } => MessageType::Hello,
            UdpMessage::Heartbeat { .. } => MessageType::Heartbeat,
            UdpMessage::Event { .. } => MessageType::Event,
            UdpMessage::Ack { .. } => MessageType::Ack,
        }
    }

    pub fn device_id(&self) -> (r: &str)
        ensures
            r@ == self@.device_id(),
    {
        match self {
            UdpMessage::Hello { device_id } => device_id.as_str(),
            UdpMessage::Heartbeat { device_id } => device_id.as_str(),
            UdpMessage::Event { device_id, .. } => device_id.as_str(),
            UdpMessage::Ack { device_id, .. } => device_id.as_str(),
        }
    }
}

/// The object members of a decoded UDP datagram, before they are checked
/// against the message type. Absent members are `None`.
#[derive(Debug)]
pub struct UdpFields {
    pub message_type: Option<String>,
    pub device_id: Option<String>,
    pub event_id: Option<String>,
    pub action_id: Option<u32>,
}

pub open spec fn opt_view(s: Option<String>) -> Option<Seq<char>> {
    match s {
        Some(v) => Some(v@),
        None => None,
    }
}

/// The message type named by a `type` member.
pub open spec fn spec_message_type_named(name: Seq<char>) -> Option<MessageType> {
    if name == "HELLO"@ {
        Some(MessageType::Hello)
    } else if name == "HEARTBEAT"@ {
        Some(MessageType::Heartbeat)
    } else if name == "EVENT"@ {
        Some(MessageType::Event)
    } else if name == "ACK"@ {
        Some(MessageType::Ack)
    } else {
        None
    }
}

/// The message described by decoded members: the type and device ID are
/// required; HELLO and HEARTBEAT carry neither an event ID nor an Action ID,
/// EVENT carries both and ACK carries only the event ID. Identifiers must fit
/// their capacities.
pub open spec fn spec_message_from_fields(
    message_type: Option<Seq<char>>,
    device_id: Option<Seq<char>>,
    event_id: Option<Seq<char>>,
    action_id: Option<u32>,
) -> Option<UdpMessageView> {
    match (message_type, device_id) {
        (Some(t), Some(d)) => if utf8_len(d) > DEVICE_ID_CAPACITY || (event_id matches Some(e)
            && utf8_len(e) > EVENT_ID_CAPACITY) {
            None
        } else {
            match spec_message_type_named(t) {
                Some(MessageType::Hello) => if event_id is None && action_id is None {
                    Some(UdpMessageView::Hello { device_id: d })
                } else {
                    None
                },
                Some(MessageType::Heartbeat) => if event_id is None && action_id is None {
                    Some(UdpMessageView::Heartbeat { device_id: d })
                } else {
                    None
                },
                Some(MessageType::Event) => match (event_id, action_id) {
                    (Some(e), Some(a)) => Some(
                        UdpMessageView::Event { device_id: d, event_id: e, action_id: a },
                    ),
                    _ => None,
                },
                Some(MessageType::Ack) => match (event_id, action_id) {
                    (Some(e), None) => Some(UdpMessageView::Ack { device_id: d, event_id: e }),
                    _ => None,
                },
                None => None,
            }
        },
        _ => None,
    }
}

pub fn message_type_named(name: &str) -> (r: Option<MessageType>)
    ensures
        r == spec_message_type_named(name@),
{
    if str_equal(name, "HELLO") {
        Some(MessageType::Hello)
    } else if str_equal(name, "HEARTBEAT") {
        Some(MessageType::Heartbeat)
    } else if str_equal(name, "EVENT") {
        Some(MessageType::Event)
    } else if str_equal(name, "ACK") {
        Some(MessageType::Ack)
    } else {
        None
    }
}

impl UdpMessage {
    /// Checks decoded members against the rules of their message type.
    pub fn from_fields(fields: UdpFields) -> (r: Result<UdpMessage, CodecError>)
        ensures
            match r {
                Ok(m) => spec_message_from_fields(
                    opt_view(fields.message_type),
                    opt_view(fields.device_id),
                    opt_view(fields.event_id),
                    fields.action_id,
                ) == Some(m@),
                Err(e) => e == CodecError::InvalidJson && spec_message_from_fields(
                    opt_view(fields.message_type),
                    opt_view(fields.device_id),
                    opt_view(fields.event_id),
                    fields.action_id,
                ) is None,
            },
    {
        let UdpFields { message_type, device_id, event_id, action_id } = fields;
        let (t, d) = match (message_type, device_id) {
            (Some(t), Some(d)) => (t, d),
            _ => {
                return Err(CodecError::InvalidJson);
            },
        };
        if d.as_str().as_bytes().len() > DEVICE_ID_CAPACITY {
            return Err(CodecError::InvalidJson);
        }
        if let Some(e) = &event_id {
            if e.as_str().as_bytes().len() > EVENT_ID_CAPACITY {
                return Err(CodecError::InvalidJson);
            }
        }
        match message_type_named(t.as_str()) {
            Some(MessageType::Hello) => if event_id.is_none() && action_id.is_none() {
                Ok(UdpMessage::Hello { device_id: d })
            } else {
                Err(CodecError::InvalidJson)
            },
            Some(MessageType::Heartbeat) => if event_id.is_none() && action_id.is_none() {
                Ok(UdpMessage::Heartbeat { device_id: d })
            } else {
                Err(CodecError::InvalidJson)
            },
            Some(MessageType::Event) => match (event_id, action_id) {
                (Some(e), Some(a)) => Ok(UdpMessage::Event { device_id: d, event_id: e, action_id: a }),
                _ => Err(CodecError::InvalidJson),
            },
            Some(MessageType::Ack) => match (event_id, action_id) {
                (Some(e), None) => Ok(UdpMessage::Ack { device_id: d, event_id: e }),
                _ => Err(CodecError::InvalidJson),
            },
            None => Err(CodecError::InvalidJson),
        }
    }

    /// The rest of decoding after the JSON parser ran: `decoded` is the parsed
    /// members and the number of bytes the parser consumed, or `None` when the
    /// payload was not a JSON object of the expected member types. The whole
    /// payload must have been consumed.
    pub fn from_decoded(decoded: Option<(UdpFields, usize)>, payload_len: usize) -> (r: Result<
        UdpMessage,
        CodecError,
    >)
        ensures
            match decoded {
                None => r == Err::<UdpMessage, CodecError>(CodecError::InvalidJson),
                Some((f, used)) => match spec_message_from_fields(
                    opt_view(f.message_type),
                    opt_view(f.device_id),
                    opt_view(f.event_id),
                    f.action_id,
                ) {
                    None => r == Err::<UdpMessage, CodecError>(CodecError::InvalidJson),
                    Some(m) => if used == payload_len {
                        r matches Ok(msg) && msg@ == m
                    } else {
                        r == Err::<UdpMessage, CodecError>(CodecError::TrailingData)
                    },
                },
            },
    {
        match decoded {
            None => Err(CodecError::InvalidJson),
            Some((fields, used)) => {
                let message = UdpMessage::from_fields(fields)?;
                if used == payload_len {
                    Ok(message)
                } else {
                    Err(CodecError::TrailingData)
                }
            },
        }
    }
}

/// The JSON object for a message, members in declaration order with `type`
/// first, as `serde_json_core` writes an internally tagged enum.
pub open spec fn udp_message_json(m: UdpMessageView) -> Seq<char> {
    match m {
        UdpMessageView::Hello { device_id } => "{\"type\":\"HELLO\",\"device_id\":"@
            + json_string_text(device_id) + "}"@,
        UdpMessageView::Heartbeat { device_id } => "{\"type\":\"HEARTBEAT\",\"device_id\":"@
            + json_string_text(device_id) + "}"@,
        UdpMessageView::Event { device_id, event_id, action_id } => "{\"type\":\"EVENT\",\"device_id\":"@
            + json_string_text(device_id) + ",\"event_id\":"@ + json_string_text(event_id)
            + ",\"action_id\":"@ + json_unsigned(action_id as nat) + "}"@,
        UdpMessageView::Ack { device_id, event_id } => "{\"type\":\"ACK\",\"device_id\":"@
            + json_string_text(device_id) + ",\"event_id\":"@ + json_string_text(event_id)
            + "}"@,
    }
}

impl UdpMessage {
    /// The JSON text of this message.
    pub fn to_json(&self) -> (r: String)
        ensures
            r@ == udp_message_json(self@),
    {
        let mut out = String::new();
        match self {
            UdpMessage::Hello { device_id } => {
                out.append("{\"type\":\"HELLO\",\"device_id\":");
                push_string(&mut out, device_id.as_str());
                out.append("}");
            },
            UdpMessage::Heartbeat { device_id } => {
                out.append("{\"type\":\"HEARTBEAT\",\"device_id\":");
                push_string(&mut out, device_id.as_str());
                out.append("}");
            },
            UdpMessage::Event { device_id, event_id, action_id } => {
                out.append("{\"type\":\"EVENT\",\"device_id\":");
                push_string(&mut out, device_id.as_str());
                out.append(",\"event_id\":");
                push_string(&mut out, event_id.as_str());
                out.append(",\"action_id\":");
                push_unsigned(&mut out, *action_id as u64);
                out.append("}");
            },
            UdpMessage::Ack { device_id, event_id } => {
                out.append("{\"type\":\"ACK\",\"device_id\":");
                push_string(&mut out, device_id.as_str());
                out.append(",\"event_id\":");
                push_string(&mut out, event_id.as_str());
                out.append("}");
            },
        }
        out
    }

    /// Writes the JSON text of this message to the front of `destination`.
    pub fn encode(&self, destination: &mut [u8]) -> (r: Result<usize, CodecError>)
        ensures
            final(destination)@.len() == old(destination)@.len(),
            match r {
                Ok(n) => {
                    &&& n == vstd::utf8::encode_utf8(udp_message_json(self@)).len()
                    &&& final(destination)@.subrange(0, n as int) == vstd::utf8::encode_utf8(
                        udp_message_json(self@),
                    )
                    &&& n <= old(destination)@.len()
                    &&& final(destination)@.subrange(n as int, final(destination)@.len() as int)
                        == old(destination)@.subrange(n as int, old(destination)@.len() as int)
                },
                Err(e) => e == CodecError::BufferTooSmall && vstd::utf8::encode_utf8(
                    udp_message_json(self@),
                ).len() > old(destination)@.len(),
            },
    {
        let json = self.to_json();
        crate::common::codec::write_text(json.as_str(), destination)
    }
}

} // verus!
