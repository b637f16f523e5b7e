use uchi_pulse::common::action::{
    command_name, state_type_name, state_value_name, target_type_name, ActionDefinition, ActionStateChange,
    StateType, StateValue, TargetType,
};
use uchi_pulse::common::cdc::{
    cdc_error_text, cdc_ok_text, error_code_name, request_id, CdcErrorCode, CdcResponse, CdcStatus,
};
use uchi_pulse::common::codec::{require_complete, strip_line, write_text_line, CodecError};
use uchi_pulse::common::json::json_string;
use uchi_pulse::common::types::{text, DeviceId, EventId, TextError, DEVICE_ID_CAPACITY};
use uchi_pulse::common::udp::{UdpFields, UdpMessage};
use uchi_pulse::common::CommunicationConfig;

fn fields(message_type: &str, device_id: Option<&str>, event_id: Option<&str>, action_id: Option<u32>) -> UdpFields {
    UdpFields {
        message_type: Some(message_type.into()),
        device_id: device_id.map(String::from),
        event_id: event_id.map(String::from),
        action_id,
    }
}

#[test]
fn communication_defaults_match_udp_spec() {
    assert_eq!(CommunicationConfig::default().ack_timeout_ms, 60_000);
    assert_eq!(CommunicationConfig::default().event_retry_count, 3);
    assert_eq!(CommunicationConfig::default().heartbeat_interval_sec, 180);
    assert_eq!(CommunicationConfig::default().offline_timeout_sec, 180);
}

#[test]
fn identifiers_are_owned_and_bounded() {
    let device_id: DeviceId = text::<DEVICE_ID_CAPACITY>("node-01").unwrap();
    let event_id: EventId = text::<128>("boot-id-00000001").unwrap();
    assert_eq!(device_id.as_str(), "node-01");
    assert_eq!(event_id.as_str(), "boot-id-00000001");

    let too_long = "x".repeat(DEVICE_ID_CAPACITY + 1);
    assert_eq!(text::<DEVICE_ID_CAPACITY>(&too_long), Err(TextError::TooLong));
}

#[test]
fn capacity_counts_utf8_bytes() {
    // Three bytes per character.
    assert!(text::<6>("ご飯").is_ok());
    assert_eq!(text::<5>("ご飯"), Err(TextError::TooLong));
}

#[test]
fn encodes_current_event_wire_format() {
    let message = UdpMessage::Event {
        device_id: "node-01".into(),
        event_id: "boot-id-00000001".into(),
        action_id: 10,
    };
    let mut buffer = [0; 256];
    let used = message.encode(&mut buffer).unwrap();
    assert_eq!(
        core::str::from_utf8(&buffer[..used]).unwrap(),
        r#"{"type":"EVENT","device_id":"node-01","event_id":"boot-id-00000001","action_id":10}"#
    );
}

#[test]
fn round_trips_all_udp_messages_and_preserves_identifiers() {
    let cases = [
        (UdpMessage::Hello { device_id: "node-01".into() }, fields("HELLO", Some("node-01"), None, None)),
        (UdpMessage::Heartbeat { device_id: "node-01".into() }, fields("HEARTBEAT", Some("node-01"), None, None)),
        (
            UdpMessage::Event { device_id: "node-01".into(), event_id: "boot-id-00000001".into(), action_id: 42 },
            fields("EVENT", Some("node-01"), Some("boot-id-00000001"), Some(42)),
        ),
        (
            UdpMessage::Ack { device_id: "node-01".into(), event_id: "boot-id-00000001".into() },
            fields("ACK", Some("node-01"), Some("boot-id-00000001"), None),
        ),
    ];
    for (message, members) in cases {
        let mut buffer = [0; 256];
        let used = message.encode(&mut buffer).unwrap();
        let decoded = UdpMessage::from_decoded(Some((members, used)), used).unwrap();
        assert_eq!(decoded, message);
    }
}

#[test]
fn udp_json_escapes_identifiers() {
    let message = UdpMessage::Ack { device_id: "a\"b".into(), event_id: "c\\d".into() };
    assert_eq!(message.to_json(), r#"{"type":"ACK","device_id":"a\"b","event_id":"c\\d"}"#);
}

#[test]
fn rejects_old_message_id_and_data_format() {
    // The old EVENT has neither an event identifier nor an Action ID.
    let old = fields("EVENT", Some("node-01"), None, None);
    assert!(UdpMessage::from_fields(old).is_err());
}

#[test]
fn rejects_missing_required_event_fields() {
    let missing_event_id = fields("EVENT", Some("node-01"), None, Some(10));
    let missing_action_id = fields("EVENT", Some("node-01"), Some("boot-1"), None);
    assert!(UdpMessage::from_fields(missing_event_id).is_err());
    assert!(UdpMessage::from_fields(missing_action_id).is_err());
}

#[test]
fn rejects_unknown_message_type() {
    let invalid = fields("UNKNOWN", Some("node-01"), None, None);
    assert_eq!(UdpMessage::from_fields(invalid), Err(CodecError::InvalidJson));
}

#[test]
fn rejects_extra_members_long_identifiers_and_partial_payloads() {
    assert!(UdpMessage::from_fields(fields("HELLO", Some("node-01"), Some("e"), None)).is_err());
    assert!(UdpMessage::from_fields(fields("ACK", Some("node-01"), Some("e"), Some(1))).is_err());
    let long = "x".repeat(DEVICE_ID_CAPACITY + 1);
    assert!(UdpMessage::from_fields(fields("HELLO", Some(&long), None, None)).is_err());
    let hello = fields("HELLO", Some("node-01"), None, None);
    assert_eq!(UdpMessage::from_decoded(Some((hello, 10)), 11), Err(CodecError::TrailingData));
    assert_eq!(UdpMessage::from_decoded(None, 11), Err(CodecError::InvalidJson));
}

#[test]
fn supports_multi_state_and_notification_only_actions() {
    let action = ActionDefinition {
        action_id: 10,
        action_name: text::<96>("食事通知クリア").unwrap(),
        target_type: TargetType::Family,
        target_family_id: Some(2),
        web_message: None,
        enabled: true,
    };
    let changes = [
        ActionStateChange { state_type: StateType::MealNotice, state_value: StateValue::Off },
        ActionStateChange { state_type: StateType::SnackNotice, state_value: StateValue::Off },
    ];
    assert_eq!(changes.len(), 2);
    assert_eq!(action.target_family_id, Some(2));
    assert_eq!(target_type_name(action.target_type), "FAMILY");
    assert_eq!(state_type_name(changes[0].state_type), "MEAL_NOTICE");
    assert_eq!(state_value_name(changes[1].state_value), "OFF");
}

#[test]
fn round_trips_cdc_request_with_lf_termination() {
    let id = request_id("123").unwrap();
    let command = command_name("get_config").unwrap();
    let json = format!(
        "{{\"version\":1,\"request_id\":{},\"command\":{},\"params\":{{}}}}",
        json_string(&id),
        json_string(&command)
    );
    let mut buffer = [0; 256];
    let used = write_text_line(&json, &mut buffer).unwrap();
    assert_eq!(buffer[used - 1], b'\n');
    let payload = strip_line(&buffer[..used]).unwrap();
    assert_eq!(payload, json.as_bytes());
}

#[test]
fn preserves_request_id_on_success_and_error_responses() {
    let id = request_id("123").unwrap();
    let success = CdcResponse::success(1, id.clone(), "node");
    assert_eq!(success.request_id, id);
    assert_eq!(success.status, CdcStatus::OK);
    assert!(success.data.is_some());
    assert_eq!(
        cdc_ok_text(1, &json_string(&id), r#"{"kind":"node"}"#),
        r#"{"version":1,"request_id":"123","status":"ok","data":{"kind":"node"}}"#
    );

    let error = CdcResponse::<&str>::error(1, id.clone(), CdcErrorCode::InvalidCommand, "unknown command".into());
    assert_eq!(error.request_id, id);
    assert_eq!(error.status, CdcStatus::Error);
    assert_eq!(error.error.unwrap().code, CdcErrorCode::InvalidCommand);
    assert_eq!(
        cdc_error_text(1, &json_string(&id), CdcErrorCode::InvalidCommand, &json_string("unknown command")),
        r#"{"version":1,"request_id":"123","status":"error","error":{"code":"INVALID_COMMAND","message":"unknown command"}}"#
    );
}

#[test]
fn rejects_cdc_line_without_lf() {
    let input = br#"{"version":1,"request_id":"123","command":"get_config","params":{}}"#;
    assert_eq!(strip_line(input), Err(CodecError::MissingLineFeed));
    assert_eq!(strip_line(b""), Err(CodecError::MissingLineFeed));
}

#[test]
fn error_codes_have_wire_names() {
    assert_eq!(error_code_name(CdcErrorCode::SaveFailed), "SAVE_FAILED");
    assert_eq!(error_code_name(CdcErrorCode::NotSupported), "NOT_SUPPORTED");
}

#[test]
fn decoded_values_must_use_the_whole_payload() {
    assert_eq!(require_complete(5, 5), Ok(()));
    assert_eq!(require_complete(4, 5), Err(CodecError::TrailingData));
}

#[test]
fn json_strings_are_escaped() {
    assert_eq!(json_string("a\"b\\c\n"), r#""a\"b\\c\n""#);
    assert_eq!(json_string("\u{1f}\t\u{8}ご飯"), r#""\u001F\t\bご飯""#);
}
