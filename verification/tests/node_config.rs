use uchi_pulse::common::udp::InputEvent;
use uchi_pulse::node::config::{
    default_node_config, is_supported_gpio, network_valid, ConfigValidationError, GpioInputConfig, InputMapping,
    NetworkConfig, NetworkMode, PersistedNodeConfig, StaticIpv4Config,
};

fn static_network(ip: &str, prefix: u8, gateway: &str, dns: &str) -> NetworkConfig {
    NetworkConfig {
        mode: NetworkMode::Static,
        static_ipv4: Some(StaticIpv4Config {
            ip_address: ip.into(),
            prefix_length: prefix,
            gateway: gateway.into(),
            dns: dns.into(),
        }),
    }
}

#[test]
fn defaults_match_phase_eight_values() {
    let config = PersistedNodeConfig::defaults();
    assert_eq!(config.gpio_inputs[0].debounce_ms, 30);
    assert_eq!(config.double_click_interval_ms, 400);
    assert_eq!(config.long_press_threshold_ms, 1_000);
    assert_eq!(config.ack_timeout_ms, 60_000);
    assert_eq!(config.event_retry_count, 3);
    assert_eq!(config.heartbeat_interval_sec, 180);
}

#[test]
fn validation_allows_multiple_gpios_and_multiple_events_per_gpio() {
    let mut config = PersistedNodeConfig::defaults();
    config.input_mappings.push(InputMapping { gpio: 2, input_event: InputEvent::Click, action_id: 10, enabled: true });
    config.input_mappings.push(InputMapping {
        gpio: 2,
        input_event: InputEvent::LongPress,
        action_id: 20,
        enabled: false,
    });
    config.input_mappings.push(InputMapping { gpio: 3, input_event: InputEvent::Click, action_id: 30, enabled: true });
    assert!(config.validate().is_ok());
    assert_eq!(config.input_mappings[1].action_id, 20);
    assert!(!config.input_mappings[1].enabled);
}

#[test]
fn each_validation_rule_has_its_error() {
    let defaults = PersistedNodeConfig::defaults();
    assert_eq!(defaults.validate(), Ok(()));

    let mut c = defaults.clone();
    c.device_id = String::new();
    assert_eq!(c.validate(), Err(ConfigValidationError::EmptyDeviceId));

    let mut c = defaults.clone();
    c.gpio_inputs[0] = GpioInputConfig { gpio: 99, active_high: true, debounce_ms: 30 };
    assert_eq!(c.validate(), Err(ConfigValidationError::UnsupportedGpio(99)));

    let mut c = defaults.clone();
    c.gpio_inputs[1].gpio = 2;
    assert_eq!(c.validate(), Err(ConfigValidationError::DuplicateGpio(2)));

    let mut c = defaults.clone();
    c.gpio_inputs[0].debounce_ms = 0;
    assert_eq!(c.validate(), Err(ConfigValidationError::ZeroDebounce(2)));

    let mut c = defaults.clone();
    c.input_mappings.push(InputMapping { gpio: 9, input_event: InputEvent::Click, action_id: 1, enabled: true });
    assert_eq!(c.validate(), Err(ConfigValidationError::MappingReferencesUnknownGpio(9)));

    let mut c = defaults.clone();
    let m = InputMapping { gpio: 2, input_event: InputEvent::Click, action_id: 1, enabled: true };
    c.input_mappings.push(m);
    c.input_mappings.push(InputMapping { action_id: 2, ..m });
    assert_eq!(
        c.validate(),
        Err(ConfigValidationError::DuplicateMapping { gpio: 2, input_event: InputEvent::Click })
    );

    let mut c = defaults.clone();
    c.double_click_interval_ms = 0;
    assert_eq!(c.validate(), Err(ConfigValidationError::ZeroDoubleClickInterval));
    let mut c = defaults.clone();
    c.long_press_threshold_ms = 0;
    assert_eq!(c.validate(), Err(ConfigValidationError::ZeroLongPressThreshold));
    let mut c = defaults.clone();
    c.ack_timeout_ms = 0;
    assert_eq!(c.validate(), Err(ConfigValidationError::ZeroAckTimeout));
    let mut c = defaults.clone();
    c.heartbeat_interval_sec = 0;
    assert_eq!(c.validate(), Err(ConfigValidationError::ZeroHeartbeatInterval));

    let mut c = defaults.clone();
    c.network = static_network("192.168.1.50", 24, "not-an-ip", "1.1.1.1");
    assert_eq!(c.validate(), Err(ConfigValidationError::InvalidNetwork));
}

#[test]
fn static_network_needs_valid_addresses_and_prefix() {
    assert!(network_valid(&static_network("192.168.1.50", 24, "192.168.1.1", "1.1.1.1")));
    assert!(!network_valid(&static_network("192.168.1.50", 33, "192.168.1.1", "1.1.1.1")));
    assert!(!network_valid(&static_network("192.168.1.256", 24, "192.168.1.1", "1.1.1.1")));
    assert!(!network_valid(&static_network("192.168.1", 24, "192.168.1.1", "1.1.1.1")));
    assert!(!network_valid(&NetworkConfig { mode: NetworkMode::Static, static_ipv4: None }));
    assert!(network_valid(&NetworkConfig { mode: NetworkMode::Dhcp, static_ipv4: None }));
}

#[test]
fn supported_gpios_skip_the_wireless_pins() {
    assert!(is_supported_gpio(0));
    assert!(is_supported_gpio(22));
    assert!(!is_supported_gpio(23));
    assert!(!is_supported_gpio(25));
    assert!(is_supported_gpio(26));
    assert!(is_supported_gpio(28));
    assert!(!is_supported_gpio(29));
}

#[test]
fn built_in_configuration_is_valid_and_converts() {
    let built_in = default_node_config();
    let persisted = PersistedNodeConfig::from_node_config(&built_in).unwrap();
    assert_eq!(persisted.device_id, built_in.device_id);
    assert_eq!(persisted.gpio_inputs.len(), built_in.gpio_inputs.len());
    let inputs = persisted.input_config();
    assert_eq!(inputs.double_click_interval_ms, built_in.double_click_interval_ms);
}

#[test]
fn configuration_json_lists_every_field() {
    let mut config = PersistedNodeConfig::defaults();
    config.input_mappings.push(InputMapping { gpio: 2, input_event: InputEvent::DoubleClick, action_id: 7, enabled: true });
    let json = config.to_json();
    assert!(json.starts_with(r#"{"device_id":"family-node-01""#));
    assert!(json.contains(r#""input_mappings":[{"gpio":2,"input_event":"DOUBLE_CLICK","action_id":7,"enabled":true}]"#));
    assert!(json.contains(r#""gpio_inputs":[{"gpio":2,"active_high":false,"debounce_ms":30}"#));
    assert!(json.ends_with(r#""heartbeat_interval_sec":180}"#));
}
