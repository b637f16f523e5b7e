use uchi_pulse::common::codec::CodecError;
use uchi_pulse::common::udp::UdpMessage;
use uchi_pulse::hub::db::DeviceRecord;
use uchi_pulse::hub::state::{CommunicationStateManager, CommunicationStatus, StateUpdateError};

const SECOND: u64 = 1000;

fn device(device_id: &str, enabled: bool) -> DeviceRecord {
    DeviceRecord {
        device_id: device_id.into(),
        name: device_id.into(),
        device_type: "FAMILY".into(),
        registered_at: "2026-09-04T00:00:00Z".into(),
        updated_at: "2026-09-04T00:00:00Z".into(),
        enabled,
    }
}

fn manager(start: u64) -> CommunicationStateManager {
    let devices = [device("enabled-node", true), device("disabled-node", false)];
    CommunicationStateManager::from_devices(&devices, start, 10 * SECOND)
}

/// A payload that decodes to `message`.
fn decoded(message: UdpMessage) -> Result<UdpMessage, CodecError> {
    Ok(message)
}

fn hello() -> UdpMessage {
    UdpMessage::Hello { device_id: "enabled-node".into() }
}

#[test]
fn initializes_only_enabled_devices_as_initial_wait() {
    let start = 5 * SECOND;
    let manager = manager(start);
    assert_eq!(manager.len(), 1);
    let state = manager.device("enabled-node").unwrap();
    assert_eq!(state.status, CommunicationStatus::InitialWait);
    assert_eq!(state.last_seen_at, None);
    assert_eq!(state.initial_wait_started_at, start);
    assert!(manager.device("disabled-node").is_none());
}

#[test]
fn normal_hello_heartbeat_and_event_move_initial_wait_online() {
    let start = 0;
    for message in [
        hello(),
        UdpMessage::Heartbeat { device_id: "enabled-node".into() },
        UdpMessage::Event {
            device_id: "enabled-node".into(),
            event_id: "boot-1".into(),
            action_id: 10,
        },
    ] {
        let mut manager = manager(start);
        let received = start + SECOND;
        assert!(manager.observe_payload(decoded(message), received).unwrap());
        let state = manager.device("enabled-node").unwrap();
        assert_eq!(state.status, CommunicationStatus::Online);
        assert_eq!(state.last_seen_at, Some(received));
    }
}

#[test]
fn initial_wait_times_out_without_a_valid_reception() {
    let start = 0;
    let mut manager = manager(start);
    manager.mark_offline(start + 10 * SECOND);
    assert_eq!(manager.device("enabled-node").unwrap().status, CommunicationStatus::Offline);
    assert_eq!(manager.device("enabled-node").unwrap().last_seen_at, None);
}

#[test]
fn online_is_maintained_by_normal_reception_and_times_out_from_last_seen() {
    let start = 0;
    let mut manager = manager(start);
    let first = start + SECOND;
    manager.observe_payload(decoded(hello()), first).unwrap();
    manager.mark_offline(start + 9 * SECOND);
    assert_eq!(manager.device("enabled-node").unwrap().status, CommunicationStatus::Online);

    let second = start + 11 * SECOND;
    manager
        .observe_payload(decoded(UdpMessage::Heartbeat { device_id: "enabled-node".into() }), second)
        .unwrap();
    assert_eq!(manager.device("enabled-node").unwrap().status, CommunicationStatus::Online);
    assert_eq!(manager.device("enabled-node").unwrap().last_seen_at, Some(second));

    manager.mark_offline(start + 22 * SECOND);
    assert_eq!(manager.device("enabled-node").unwrap().status, CommunicationStatus::Offline);
}

#[test]
fn offline_device_returns_online_and_remains_managed() {
    let start = 0;
    let mut manager = manager(start);
    manager.mark_offline(start + 10 * SECOND);
    let received = start + 11 * SECOND;
    assert!(manager.observe_payload(decoded(hello()), received).unwrap());
    assert_eq!(manager.len(), 1);
    assert_eq!(manager.device("enabled-node").unwrap().status, CommunicationStatus::Online);
}

#[test]
fn invalid_message_does_not_update_state() {
    let start = 0;
    let mut manager = manager(start);
    // {"type":"EVENT","device_id":"enabled-node","action_id":10} lacks its
    // event ID and does not decode.
    let invalid: Result<UdpMessage, CodecError> = Err(CodecError::InvalidJson);
    assert!(matches!(
        manager.observe_payload(invalid, start + SECOND),
        Err(StateUpdateError::InvalidMessage(_))
    ));
    let state = manager.device("enabled-node").unwrap();
    assert_eq!(state.status, CommunicationStatus::InitialWait);
    assert_eq!(state.last_seen_at, None);
}

#[test]
fn unknown_and_disabled_devices_are_not_added_or_updated() {
    let start = 0;
    let mut manager = manager(start);
    let unknown = UdpMessage::Hello { device_id: "unknown-node".into() };
    assert!(!manager.observe_payload(decoded(unknown), start + SECOND).unwrap());
    assert_eq!(manager.len(), 1);
    assert!(manager.device("unknown-node").is_none());
    assert!(manager.device("disabled-node").is_none());
}

#[test]
fn ack_does_not_mark_a_device_online() {
    let start = 0;
    let mut manager = manager(start);
    let ack = UdpMessage::Ack { device_id: "enabled-node".into(), event_id: "boot-1".into() };
    assert!(!manager.observe_payload(decoded(ack), start + SECOND).unwrap());
    assert_eq!(manager.device("enabled-node").unwrap().status, CommunicationStatus::InitialWait);
}

#[test]
fn blank_device_id_is_refused_without_change() {
    let mut manager = manager(0);
    let blank = UdpMessage::Hello { device_id: " \t".into() };
    assert_eq!(manager.observe_message(&blank, SECOND), Err(StateUpdateError::EmptyDeviceId));
    assert_eq!(manager.device("enabled-node").unwrap().status, CommunicationStatus::InitialWait);
}

#[test]
fn offline_check_before_the_timeout_changes_nothing() {
    let mut manager = manager(0);
    manager.mark_offline(10 * SECOND - 1);
    assert_eq!(manager.device("enabled-node").unwrap().status, CommunicationStatus::InitialWait);
    // A clock reading before the wait started counts as no silence.
    let mut later = manager_at(20 * SECOND);
    later.mark_offline(0);
    assert_eq!(later.device("enabled-node").unwrap().status, CommunicationStatus::InitialWait);
}

fn manager_at(start: u64) -> CommunicationStateManager {
    manager(start)
}

#[test]
fn duplicate_records_give_one_managed_device() {
    let devices = [device("a", true), device("a", true), device("b", false)];
    let manager = CommunicationStateManager::from_devices(&devices, 0, SECOND);
    assert_eq!(manager.len(), 1);
    assert_eq!(manager.devices()[0].device_id, "a");
}

#[test]
fn repeated_and_disabled_records_give_each_enabled_device_once_in_order() {
    let records = vec![
        device("b", true),
        device("a", false),
        device("c", true),
        device("b", true),
        device("a", true),
    ];
    let manager = CommunicationStateManager::from_devices(&records, 7, 180 * SECOND);
    let ids: Vec<&str> = manager.devices().iter().map(|d| d.device_id.as_str()).collect();
    assert_eq!(ids, vec!["b", "c", "a"]);
    assert_eq!(manager.len(), 3);
}
