use uchi_pulse::common::codec::CodecError;
use uchi_pulse::common::udp::{UdpFields, UdpMessage};
use uchi_pulse::node::input::TriggeredAction;
use uchi_pulse::node::udp::{is_hello_request, EventIdGenerator, NodeUdpProtocol, ProtocolError, RetryPolicy};
use uchi_pulse::node::udp::{DeliveryAction, DeliveryEvent, EventDelivery};

fn protocol() -> NodeUdpProtocol {
    NodeUdpProtocol::new("node-01", 0x1234).unwrap()
}

fn ack(device_id: &str, event_id: &str) -> Result<UdpMessage, CodecError> {
    Ok(UdpMessage::Ack { device_id: device_id.into(), event_id: event_id.into() })
}

fn fields(message_type: &str, device_id: Option<&str>, event_id: Option<&str>, action_id: Option<u32>) -> UdpFields {
    UdpFields {
        message_type: Some(message_type.into()),
        device_id: device_id.map(String::from),
        event_id: event_id.map(String::from),
        action_id,
    }
}

#[test]
fn triggered_action_encodes_formal_event() {
    let mut protocol = protocol();
    let event = protocol.event_from_action(TriggeredAction { action_id: 42 }).unwrap();
    let mut buffer = [0; 256];
    let used = protocol.encode_message(event.message(), &mut buffer).unwrap();
    assert_eq!(
        core::str::from_utf8(&buffer[..used]).unwrap(),
        r#"{"type":"EVENT","device_id":"node-01","event_id":"0000000000001234-0000000000000001","action_id":42}"#
    );
}

#[test]
fn event_ids_change_only_for_new_events() {
    let mut protocol = protocol();
    let first = protocol.event_from_action(TriggeredAction { action_id: 10 }).unwrap();
    let first_retry = first.clone();
    let second = protocol.event_from_action(TriggeredAction { action_id: 10 }).unwrap();
    assert_ne!(first.event_id(), second.event_id());
    assert_eq!(first.event_id(), first_retry.event_id());
}

#[test]
fn ack_requires_matching_type_device_and_event_id() {
    let mut protocol = protocol();
    let event = protocol.event_from_action(TriggeredAction { action_id: 10 }).unwrap();
    let id = "0000000000001234-0000000000000001";
    let matching = ack("node-01", id);
    let wrong_event = ack("node-01", "other");
    let wrong_device = ack("node-02", id);
    let event_message = Ok(UdpMessage::Event { device_id: "node-01".into(), event_id: id.into(), action_id: 10 });
    assert!(protocol.ack_matches(&event, matching));
    assert!(!protocol.ack_matches(&event, wrong_event));
    assert!(!protocol.ack_matches(&event, wrong_device));
    assert!(!protocol.ack_matches(&event, event_message));
    assert!(!protocol.ack_matches(&event, Err(CodecError::InvalidJson)));
}

#[test]
fn hello_and_heartbeat_use_formal_wire_format() {
    let protocol = protocol();
    let mut buffer = [0; 128];
    let hello_len = protocol.encode_message(&protocol.hello(), &mut buffer).unwrap();
    assert_eq!(
        core::str::from_utf8(&buffer[..hello_len]).unwrap(),
        r#"{"type":"HELLO","device_id":"node-01"}"#
    );
    let heartbeat_len = protocol.encode_message(&protocol.heartbeat(), &mut buffer).unwrap();
    assert_eq!(
        core::str::from_utf8(&buffer[..heartbeat_len]).unwrap(),
        r#"{"type":"HEARTBEAT","device_id":"node-01"}"#
    );
}

#[test]
fn formal_ack_decodes_and_legacy_ack_does_not_match() {
    // {"type":"ACK","device_id":"node-01","event_id":"event-1"}
    let formal = fields("ACK", Some("node-01"), Some("event-1"), None);
    assert!(UdpMessage::from_fields(formal).is_ok());
    // {"type":"ACK","message_id":1}: no device or event identifier.
    let legacy = fields("ACK", None, None, None);
    assert!(UdpMessage::from_fields(legacy).is_err());
}

#[test]
fn recognizes_only_parent_hello_request() {
    // {"type":"HELLO_REQUEST"}
    assert!(is_hello_request(Some("HELLO_REQUEST")));
    // {"type":"HELLO_REQUEST","device_id":"node-01"} is not an object of the one member.
    assert!(!is_hello_request(None));
    // {"type":"HELLO"}
    assert!(!is_hello_request(Some("HELLO")));
    // not-json
    assert!(!is_hello_request(None));
}

#[test]
fn retry_policy_allows_initial_send_and_three_retries() {
    let mut policy = RetryPolicy::new(3);
    assert_eq!(policy.next_attempt(), Some(1));
    assert_eq!(policy.next_attempt(), Some(2));
    assert_eq!(policy.next_attempt(), Some(3));
    assert_eq!(policy.next_attempt(), Some(4));
    assert_eq!(policy.next_attempt(), None);
}

#[test]
fn retry_policy_without_retries_allows_one_send_and_stays_exhausted() {
    let mut policy = RetryPolicy::new(0);
    assert_eq!(policy.next_attempt(), Some(1));
    assert_eq!(policy.next_attempt(), None);
    assert_eq!(policy.next_attempt(), None);
}

#[test]
fn event_ids_are_fixed_width_hex_of_boot_and_sequence() {
    let mut ids = EventIdGenerator::new(0xabc);
    assert_eq!(ids.next_event_id().unwrap(), "0000000000000abc-0000000000000001");
    assert_eq!(ids.next_event_id().unwrap(), "0000000000000abc-0000000000000002");
}

#[test]
fn device_id_longer_than_capacity_is_refused() {
    let long = "x".repeat(65);
    assert_eq!(NodeUdpProtocol::new(&long, 1).unwrap_err(), ProtocolError::DeviceIdTooLong);
    assert!(NodeUdpProtocol::new(&"x".repeat(64), 1).is_ok());
}

#[test]
fn small_buffer_is_reported_by_encode_message() {
    let protocol = protocol();
    let mut buffer = [0; 8];
    assert_eq!(protocol.encode_message(&protocol.hello(), &mut buffer), Err(ProtocolError::BufferTooSmall));
}

#[test]
fn delivery_retries_after_failures_and_timeouts_then_gives_up() {
    let mut delivery = EventDelivery::new(2, 1_000);
    assert_eq!(delivery.action(), DeliveryAction::Send { attempt: 1 });
    assert_eq!(delivery.step(DeliveryEvent::SendFailed), DeliveryAction::Send { attempt: 2 });
    assert_eq!(
        delivery.step(DeliveryEvent::Sent { now_ms: 100 }),
        DeliveryAction::AwaitAck { attempt: 2, deadline_ms: 1_100 }
    );
    // A foreign datagram before the deadline keeps the wait going.
    assert_eq!(
        delivery.step(DeliveryEvent::Received { acknowledges: false, now_ms: 500 }),
        DeliveryAction::AwaitAck { attempt: 2, deadline_ms: 1_100 }
    );
    // One at the deadline ends it.
    assert_eq!(
        delivery.step(DeliveryEvent::Received { acknowledges: false, now_ms: 1_100 }),
        DeliveryAction::Send { attempt: 3 }
    );
    delivery.step(DeliveryEvent::Sent { now_ms: 2_000 });
    assert_eq!(delivery.step(DeliveryEvent::WaitExpired), DeliveryAction::Undelivered);
    assert_eq!(delivery.step(DeliveryEvent::SendFailed), DeliveryAction::Undelivered);
}

#[test]
fn delivery_ends_at_the_matching_ack() {
    let mut delivery = EventDelivery::new(3, 60_000);
    delivery.step(DeliveryEvent::Sent { now_ms: u64::MAX - 5 });
    assert_eq!(delivery.action(), DeliveryAction::AwaitAck { attempt: 1, deadline_ms: u64::MAX });
    assert_eq!(
        delivery.step(DeliveryEvent::Received { acknowledges: true, now_ms: 7 }),
        DeliveryAction::Delivered { attempt: 1 }
    );
    assert_eq!(delivery.step(DeliveryEvent::WaitExpired), DeliveryAction::Delivered { attempt: 1 });
}
