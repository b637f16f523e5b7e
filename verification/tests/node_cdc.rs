use serde_json::Value;
use uchi_pulse::common::cdc::CdcRequest;
use uchi_pulse::common::udp::InputEvent;
use uchi_pulse::node::cdc::{
    CdcAction, CdcFrameError, CdcHandleResult, CdcHandlerError, CdcLineParser, NodeCdcHandler, NodeCdcParams,
    CDC_PROTOCOL_VERSION, MAX_CDC_LINE_SIZE,
};
use uchi_pulse::node::config::{
    GpioInputConfig, InputMapping, NetworkConfig, NetworkMode, PersistedNodeConfig, StaticIpv4Config, WifiConfig,
};
use uchi_pulse::node::storage::{ConfigManager, MemoryConfigStorage, CONFIG_STORAGE_SIZE};
use uchi_pulse::node::cdc::reply_packets;

type Handler = NodeCdcHandler<MemoryConfigStorage<CONFIG_STORAGE_SIZE>>;

fn request(command: &str, params: NodeCdcParams) -> CdcRequest<NodeCdcParams> {
    CdcRequest { version: CDC_PROTOCOL_VERSION, request_id: "req-1".into(), command: command.into(), params }
}

fn full_params(action_id: u32) -> NodeCdcParams {
    NodeCdcParams {
        device_id: Some("node-configured".into()),
        wifi: Some(WifiConfig { ssid: "MyHomeWiFi".into(), password: "secret-password".into() }),
        network: Some(NetworkConfig { mode: NetworkMode::Dhcp, static_ipv4: None }),
        gpio_inputs: Some(PersistedNodeConfig::defaults().gpio_inputs),
        input_mappings: Some(vec![InputMapping { gpio: 2, input_event: InputEvent::Click, action_id, enabled: true }]),
        double_click_interval_ms: Some(400),
        long_press_threshold_ms: Some(1_000),
        ack_timeout_ms: Some(60_000),
        event_retry_count: Some(3),
        heartbeat_interval_sec: Some(180),
    }
}

fn handler_with(storage: MemoryConfigStorage<CONFIG_STORAGE_SIZE>) -> Handler {
    NodeCdcHandler::new(ConfigManager::with_stored(storage, PersistedNodeConfig::defaults(), None))
}

fn handler() -> Handler {
    handler_with(MemoryConfigStorage::default())
}

fn reply(output: &[u8], result: CdcHandleResult) -> Value {
    let line = &output[..result.response_len];
    assert_eq!(line.last(), Some(&b'\n'));
    serde_json::from_slice(&line[..line.len() - 1]).unwrap()
}

fn send(handler: &mut Handler, request: CdcRequest<NodeCdcParams>) -> (CdcHandleResult, Value) {
    let mut output = [0; 4096];
    let result = handler.handle_line(Ok(request), &mut output).unwrap();
    (result, reply(&output, result))
}

fn send_status(handler: &mut Handler, request: CdcRequest<NodeCdcParams>, ip: Option<&str>) -> Value {
    let mut output = [0; 4096];
    let result = handler.handle_line_with_status(Ok(request), &mut output, ip.map(String::from)).unwrap();
    reply(&output, result)
}

fn error_code(response: &Value) -> &str {
    response["error"]["code"].as_str().unwrap()
}

fn config_value(config: &PersistedNodeConfig) -> Value {
    serde_json::from_str(&config.to_json()).unwrap()
}

#[test]
fn get_config_returns_defaults_and_preserves_request_id() {
    let mut handler = handler();
    let (_, response) = send(&mut handler, request("get_config", NodeCdcParams::default()));
    assert_eq!(response["status"], "ok");
    assert_eq!(response["request_id"], "req-1");
    assert_eq!(response["data"], config_value(&PersistedNodeConfig::defaults()));
}

#[test]
fn set_config_validates_saves_and_is_visible_to_get_config() {
    let mut handler = handler();
    let (_, response) = send(&mut handler, request("set_config", full_params(77)));
    assert_eq!(response["status"], "ok");
    assert_eq!(handler.config().device_id.as_str(), "node-configured");
    assert_eq!(handler.config().input_mappings[0].action_id, 77);
}

#[test]
fn set_config_persists_wifi_and_static_network_settings() {
    let mut handler = handler();
    let mut params = full_params(78);
    params.wifi = Some(WifiConfig { ssid: "configured-wifi".into(), password: "configured-password".into() });
    params.network = Some(NetworkConfig {
        mode: NetworkMode::Static,
        static_ipv4: Some(StaticIpv4Config {
            ip_address: "192.168.1.50".into(),
            prefix_length: 24,
            gateway: "192.168.1.1".into(),
            dns: "1.1.1.1".into(),
        }),
    });
    let (_, response) = send(&mut handler, request("set_config", params));
    assert_eq!(response["status"], "ok");
    assert_eq!(handler.config().wifi.ssid.as_str(), "configured-wifi");
    assert_eq!(handler.config().wifi.password.as_str(), "configured-password");
    assert_eq!(handler.config().network.mode, NetworkMode::Static);
    assert_eq!(handler.config().network.static_ipv4.as_ref().unwrap().ip_address.as_str(), "192.168.1.50");

    let (_, response) = send(&mut handler, request("get_config", NodeCdcParams::default()));
    assert_eq!(response["status"], "ok");
    assert_eq!(response["data"], config_value(handler.config()));
}

#[test]
fn set_config_rejects_invalid_static_network_settings() {
    let mut handler = handler();
    let mut params = full_params(79);
    params.network = Some(NetworkConfig {
        mode: NetworkMode::Static,
        static_ipv4: Some(StaticIpv4Config {
            ip_address: "192.168.1.50".into(),
            prefix_length: 24,
            gateway: "not-an-ip".into(),
            dns: "1.1.1.1".into(),
        }),
    });
    let (_, response) = send(&mut handler, request("set_config", params));
    assert_eq!(error_code(&response), "INVALID_CONFIG");
    assert_eq!(handler.config(), &PersistedNodeConfig::defaults());
}

#[test]
fn invalid_config_is_rejected_without_changing_storage() {
    let mut handler = handler();
    let mut params = full_params(10);
    params.gpio_inputs.as_mut().unwrap()[0] = GpioInputConfig { gpio: 99, active_high: true, debounce_ms: 30 };
    let (_, response) = send(&mut handler, request("set_config", params));
    assert_eq!(error_code(&response), "INVALID_CONFIG");
    assert_eq!(handler.config(), &PersistedNodeConfig::defaults());
}

#[test]
fn protocol_and_command_errors_are_distinguished() {
    let mut handler = handler();
    let mut unsupported = request("get_config", NodeCdcParams::default());
    unsupported.version = 2;
    let (_, response) = send(&mut handler, unsupported);
    assert_eq!(error_code(&response), "UNSUPPORTED_VERSION");

    let (_, response) = send(&mut handler, request("no_such_command", NodeCdcParams::default()));
    assert_eq!(error_code(&response), "INVALID_COMMAND");
}

#[test]
fn malformed_json_gets_invalid_json_response() {
    let mut handler = handler();
    let mut output = [0; 4096];
    // `{"version":1,"request_id":"bad",}` does not decode; its request ID is still readable.
    let result = handler.handle_line(Err(Some("bad".into())), &mut output).unwrap();
    let response = reply(&output, result);
    assert_eq!(error_code(&response), "INVALID_JSON");
    assert_eq!(response["request_id"], "bad");
    let result = handler.handle_line(Err(None), &mut output).unwrap();
    assert_eq!(reply(&output, result)["request_id"], "");
}

#[test]
fn get_status_returns_runtime_ip_address() {
    let mut handler = handler();
    let response = send_status(&mut handler, request("get_status", NodeCdcParams::default()), Some("192.168.1.42"));
    assert_eq!(response["status"], "ok");
    assert_eq!(response["data"]["device_id"], "family-node-01");
    assert_eq!(response["data"]["ip_address"], "192.168.1.42");

    let response = send_status(&mut handler, request("get_status", NodeCdcParams::default()), None);
    assert_eq!(response["data"]["ip_address"], Value::Null);
}

#[test]
fn unsupported_commands_and_reboot_have_explicit_boundaries() {
    let mut handler = handler();
    let (result, response) = send(&mut handler, request("get_inputs", NodeCdcParams::default()));
    assert_eq!(error_code(&response), "NOT_SUPPORTED");
    assert_eq!(result.action, CdcAction::NoAction);
    let (result, response) = send(&mut handler, request("reboot", NodeCdcParams::default()));
    assert_eq!(response["status"], "ok");
    assert_eq!(result.action, CdcAction::Reboot);
}

#[test]
fn factory_reset_returns_success_without_reconfiguring_running_state() {
    let mut handler = handler();
    send(&mut handler, request("set_config", full_params(91)));
    let (_, response) = send(&mut handler, request("factory_reset", NodeCdcParams::default()));
    assert_eq!(response["status"], "ok");
    assert_eq!(handler.config().input_mappings[0].action_id, 91);
}

#[test]
fn storage_failure_is_reported_as_save_failed() {
    let mut storage = MemoryConfigStorage::<CONFIG_STORAGE_SIZE>::default();
    storage.fail_next_write();
    let mut handler = handler_with(storage);
    let (_, response) = send(&mut handler, request("set_config", full_params(5)));
    assert_eq!(error_code(&response), "SAVE_FAILED");
}

#[test]
fn failed_clear_is_reported_and_missing_fields_are_invalid_parameters() {
    let mut storage = MemoryConfigStorage::<CONFIG_STORAGE_SIZE>::default();
    storage.fail_next_clear();
    let mut handler = handler_with(storage);
    let (_, response) = send(&mut handler, request("factory_reset", NodeCdcParams::default()));
    assert_eq!(error_code(&response), "SAVE_FAILED");
    assert_eq!(response["error"]["message"], "configuration reset failed");

    let mut params = full_params(5);
    params.wifi = None;
    let (_, response) = send(&mut handler, request("set_config", params));
    assert_eq!(error_code(&response), "INVALID_PARAMETER");
}

#[test]
fn small_output_buffer_is_reported() {
    let mut handler = handler();
    let mut output = [0; 16];
    assert_eq!(
        handler.handle_line(Ok(request("reboot", NodeCdcParams::default())), &mut output),
        Err(CdcHandlerError::ResponseTooLarge)
    );
}

#[test]
fn params_round_trip_through_a_configuration() {
    let config = PersistedNodeConfig::defaults();
    let params = NodeCdcParams::from_config(&config);
    assert_eq!(params.into_config().unwrap(), config);
}

#[test]
fn line_parser_handles_fragments_multiple_lines_empty_lines_and_overlong_lines() {
    let mut parser = CdcLineParser::new();
    assert!(parser.feed(b"{\"a\"").is_ok());
    assert!(parser.feed(b":1}\n{\"b\":2}\n").is_ok());
    assert_eq!(parser.pop_line().unwrap().as_slice(), b"{\"a\":1}\n");
    assert_eq!(parser.pop_line().unwrap().as_slice(), b"{\"b\":2}\n");
    assert!(parser.feed(b"\n").is_ok());
    assert_eq!(parser.pop_line().unwrap().as_slice(), b"\n");

    let mut overlong = vec![b'x'; MAX_CDC_LINE_SIZE + 1];
    overlong.push(b'\n');
    assert_eq!(parser.feed(overlong.as_slice()), Err(CdcFrameError::LineTooLong));
    assert!(parser.feed(b"{\"ok\":true}\n").is_ok());
    assert!(parser.pop_line().is_some());
}

#[test]
fn line_parser_queue_is_bounded() {
    let mut parser = CdcLineParser::new();
    assert!(parser.feed(b"a\nb\nc\nd\n").is_ok());
    assert_eq!(parser.feed(b"e\n"), Err(CdcFrameError::QueueFull));
    assert_eq!(parser.pop_line().unwrap().as_slice(), b"a\n");
    assert!(parser.feed(b"f\n").is_ok());
}

#[test]
fn replies_are_cut_into_usb_packets_with_a_final_empty_packet_when_full() {
    assert_eq!(reply_packets(100, 64), vec![(0, 64), (64, 100)]);
    assert_eq!(reply_packets(128, 64), vec![(0, 64), (64, 128), (128, 128)]);
    assert_eq!(reply_packets(5, 64), vec![(0, 5)]);
}

#[test]
fn every_reply_is_a_single_line() {
    let mut handler = handler();
    let mut params = full_params(7);
    params.wifi = Some(WifiConfig { ssid: "line\nbreak".into(), password: "p\r\nw".into() });
    let (_, response) = send(&mut handler, request("set_config", params));
    assert_eq!(response["status"], "ok");
    for command in ["get_config", "get_status", "reboot", "nope"] {
        let mut output = [0; 4096];
        let result = handler.handle_line(Ok(request(command, NodeCdcParams::default())), &mut output).unwrap();
        let line = &output[..result.response_len];
        assert_eq!(line.iter().filter(|b| **b == b'\n').count(), 1, "{command}");
        assert_eq!(line.last(), Some(&b'\n'));
    }
}
