use uchi_pulse::node::protocol::{
    decode_ack, encode_event, encode_heartbeat, encode_hello, Ack, EncodeError, EventType, MessageType,
};

fn text_of(buf: &[u8], len: usize) -> &str {
    std::str::from_utf8(&buf[..len]).unwrap()
}

#[test]
fn encodes_spec_compatible_event() {
    let mut buf = [0; 128];
    let len = encode_event(&mut buf, "CHILD-001", 153, EventType::Button, 1, 1).unwrap();
    let json = core::str::from_utf8(&buf[..len]).unwrap();
    assert_eq!(
        json,
        r#"{"version":1,"type":"EVENT","device_id":"CHILD-001","message_id":153,"data":{"event_type":"BUTTON","channel":1,"value":1}}"#
    );
}

#[test]
fn accepts_only_matching_ack_type() {
    // `{"type":"ACK","message_id":153}` decodes to this ACK over its whole length.
    let payload = br#"{"type":"ACK","message_id":153}"#;
    let ack = Ack { message_type: MessageType::Ack, message_id: 153 };
    let ack = decode_ack(Some((ack, payload.len())), payload.len()).unwrap();
    assert_eq!(ack.message_id, 153);
    // `{"type":"EVENT","message_id":153}` decodes with the EVENT type.
    let payload = br#"{"type":"EVENT","message_id":153}"#;
    let event = Ack { message_type: MessageType::Event, message_id: 153 };
    assert!(decode_ack(Some((event, payload.len())), payload.len()).is_none());
}

#[test]
fn ack_with_trailing_bytes_or_undecodable_is_refused() {
    let ack = Ack { message_type: MessageType::Ack, message_id: 7 };
    assert!(decode_ack(Some((ack, 20)), 21).is_none());
    assert!(decode_ack(None, 21).is_none());
}

#[test]
fn encodes_hello_and_heartbeat_with_negative_values_and_escapes() {
    let mut buf = [0; 256];
    let len = encode_hello(&mut buf, "CHILD-001", 1, "kid \"A\"", "0.1").unwrap();
    assert_eq!(
        text_of(&buf, len),
        r#"{"version":1,"type":"HELLO","device_id":"CHILD-001","message_id":1,"data":{"name":"kid \"A\"","firmware_version":"0.1"}}"#
    );
    let len = encode_heartbeat(&mut buf, "CHILD-001", 2).unwrap();
    assert_eq!(
        text_of(&buf, len),
        r#"{"version":1,"type":"HEARTBEAT","device_id":"CHILD-001","message_id":2,"data":{}}"#
    );
    let len = encode_event(&mut buf, "C", 3, EventType::Sensor, 255, -40).unwrap();
    assert_eq!(
        text_of(&buf, len),
        r#"{"version":1,"type":"EVENT","device_id":"C","message_id":3,"data":{"event_type":"SENSOR","channel":255,"value":-40}}"#
    );
}

#[test]
fn small_buffer_is_reported() {
    let mut buf = [0; 16];
    assert_eq!(encode_heartbeat(&mut buf, "CHILD-001", 2), Err(EncodeError::BufferTooSmall));
}

#[test]
fn heartbeat_fits_exactly_or_is_refused() {
    let text = br#"{"version":1,"type":"HEARTBEAT","device_id":"node-01","message_id":7,"data":{}}"#;
    let mut buf = [0u8; 128];
    assert_eq!(encode_heartbeat(&mut buf, "node-01", 7), Ok(text.len()));
    assert_eq!(&buf[..text.len()], text);
    let mut exact = vec![0u8; text.len()];
    assert_eq!(encode_heartbeat(&mut exact, "node-01", 7), Ok(text.len()));
    let mut short = vec![0u8; text.len() - 1];
    assert_eq!(encode_heartbeat(&mut short, "node-01", 7), Err(EncodeError::BufferTooSmall));
}
