use uchi_pulse::control::db::{
    validate_action, validate_device, ActionRecord, DeviceRecord,
};
use uchi_pulse::control::protocol::{build_request, request_id_for, LineDecoder, MAX_CDC_LINE_SIZE};

#[test]
fn decoder_handles_fragmented_lines_and_crlf() {
    let mut decoder = LineDecoder::default();
    assert!(decoder.feed(br#"{"#).is_empty());
    let lines = decoder.feed(b"\"version\":1}\r\n");
    assert_eq!(lines, vec![Ok(r#"{"version":1}"#.to_owned())]);
}

#[test]
fn decoder_reports_overlong_lines_and_recovers() {
    let mut decoder = LineDecoder::default();
    let mut input = vec![b'x'; MAX_CDC_LINE_SIZE + 1];
    input.push(b'\n');
    input.extend_from_slice(b"ok\n");
    let lines = decoder.feed(&input);
    assert!(matches!(lines[0], Err(_)));
    assert_eq!(lines[1], Ok("ok".to_owned()));
}

#[test]
fn request_uses_common_cdc_model_and_lf_termination() {
    let params = serde_json::Value::Object(Default::default()).to_string();
    let request = build_request("get_config", &params, 7).unwrap();
    assert!(request.ends_with('\n'));
    assert!(request.contains(r#""request_id":"desktop-000007""#));
    assert!(request.contains(r#""command":"get_config""#));
}

#[test]
fn decoder_reports_invalid_utf8_and_strips_one_carriage_return() {
    let mut decoder = LineDecoder::new();
    let lines = decoder.feed(b"a\r\r\n\xff\n");
    assert_eq!(lines[0], Ok("a\r".to_owned()));
    match &lines[1] {
        Err(message) => assert!(message.starts_with("CDC response was not UTF-8: ")),
        Ok(_) => panic!("invalid UTF-8 must be reported"),
    }
}

#[test]
fn overlong_error_names_the_limit() {
    let mut decoder = LineDecoder::new();
    let lines = decoder.feed(&vec![b'y'; MAX_CDC_LINE_SIZE + 1]);
    assert_eq!(lines, vec![Err("CDC response exceeded 65536 bytes".to_owned())]);
}

#[test]
fn request_ids_are_zero_padded_to_six_digits() {
    assert_eq!(request_id_for(7), "desktop-000007");
    assert_eq!(request_id_for(1234567), "desktop-1234567");
    assert_eq!(
        build_request("get_info", "{}", 12).unwrap(),
        "{\"version\":1,\"request_id\":\"desktop-000012\",\"command\":\"get_info\",\"params\":{}}\n"
    );
    assert_eq!(
        build_request(&"c".repeat(33), "{}", 1),
        Err("command name is too long".to_owned())
    );
}

#[test]
fn rejects_invalid_action_target() {
    let result = validate_action(&ActionRecord {
        action_id: 1,
        target_type: "FAMILY".to_owned(),
        ..ActionRecord::default()
    });
    assert!(result.is_err());
}

#[test]
fn device_fields_are_required() {
    let device = DeviceRecord {
        device_id: "node-01".to_owned(),
        name: " ".to_owned(),
        device_type: "pico-w".to_owned(),
        enabled: true,
    };
    assert_eq!(validate_device(&device), Err("子機名を入力してください".to_owned()));
    let ok = DeviceRecord { name: "リビング".to_owned(), ..device };
    assert_eq!(validate_device(&ok), Ok(()));
}

#[test]
fn action_target_rules_are_checked_in_order() {
    let base = ActionRecord {
        action_id: 1,
        action_name: "ご飯".to_owned(),
        target_type: "COMMON".to_owned(),
        ..ActionRecord::default()
    };
    assert_eq!(validate_action(&base), Ok(()));
    let common_with_family = ActionRecord { target_family_id: Some(2), ..base.clone() };
    assert_eq!(
        validate_action(&common_with_family),
        Err("共通Actionには対象家族を指定できません".to_owned())
    );
    let unknown = ActionRecord { target_type: "OTHER".to_owned(), ..base.clone() };
    assert_eq!(validate_action(&unknown), Err("対象種別が不正です".to_owned()));
    let zero = ActionRecord { action_id: 0, ..base };
    assert_eq!(validate_action(&zero), Err("Action IDは1以上で入力してください".to_owned()));
}

#[test]
fn splitting_the_stream_anywhere_gives_the_same_lines() {
    let stream = b"{\"a\":1}\r\n{\"b\":\"\xe3\x81\x82\"}\n\xff\npartial";
    let mut whole = LineDecoder::new();
    let expected = whole.feed(stream);
    assert_eq!(expected.len(), 3);
    for cut in 0..=stream.len() {
        let mut decoder = LineDecoder::new();
        let mut lines = decoder.feed(&stream[..cut]);
        lines.extend(decoder.feed(&stream[cut..]));
        assert_eq!(lines, expected, "split at {cut}");
    }
}

#[test]
fn validates_and_round_trips_device() {
    let device = DeviceRecord {
        device_id: "node-01".to_owned(),
        name: "リビング".to_owned(),
        device_type: "pico-w".to_owned(),
        enabled: true,
    };
    assert_eq!(validate_device(&device), Ok(()));
    assert_eq!(device.name, "リビング");
}
