use uchi_pulse::common::action::{StateType, StateValue, TargetType};
use uchi_pulse::common::codec::CodecError;
use uchi_pulse::common::udp::UdpMessage;
use uchi_pulse::hub::action::{ActionEngine, ActionError, ActionLookup, ActionStateScope};
use uchi_pulse::hub::db::{ActionRecord, ActionStateChangeRecord, DeviceRecord};
use uchi_pulse::hub::state::{CommunicationStatus, StateUpdateError};
use uchi_pulse::hub::udp::{
    action_ran, encode_hello_request, event_inserted, ActionExecutionStatus, HubUdpProcessor,
    PacketOutcome, UdpProcessingError, UdpStep,
};

const SECOND: u64 = 1000;

fn device(device_id: &str, enabled: bool) -> DeviceRecord {
    DeviceRecord {
        device_id: device_id.into(),
        name: device_id.into(),
        device_type: "FAMILY".into(),
        registered_at: "2026-09-04T00:00:00Z".into(),
        updated_at: "2026-09-04T00:00:00Z".into(),
        enabled,
    }
}

/// What runs the actions of accepted EVENTs in these tests.
enum Handler {
    /// Accepts every action and records each call.
    Recording(Vec<(String, String, u32)>),
    /// Fails every call and counts them.
    Failing(usize),
    /// The action engine over the actions of the test database.
    Engine(ActionEngine),
}

/// The hub with an in-memory stand-in for its database: one enabled and
/// one disabled device, family 1, and the given actions.
struct Hub {
    processor: HubUdpProcessor,
    devices: Vec<(String, bool)>,
    events: Vec<(String, String, String)>,
    actions: Vec<ActionRecord>,
    changes: Vec<ActionStateChangeRecord>,
    handler: Handler,
}

fn copy_action(a: &ActionRecord) -> ActionRecord {
    ActionRecord {
        action_id: a.action_id,
        action_name: a.action_name.clone(),
        target_type: a.target_type,
        target_family_id: a.target_family_id,
        web_message: a.web_message.clone(),
        enabled: a.enabled,
    }
}

impl Hub {
    fn new(handler: Handler, devices: &[DeviceRecord]) -> Hub {
        Hub {
            processor: HubUdpProcessor::from_devices(devices, 0, 10 * SECOND),
            devices: devices.iter().map(|d| (d.device_id.clone(), d.enabled)).collect(),
            events: Vec::new(),
            actions: Vec::new(),
            changes: Vec::new(),
            handler,
        }
    }

    fn lookup(&self, action_id: u32) -> ActionLookup {
        let action = self.actions.iter().find(|a| a.action_id == action_id).map(copy_action);
        let target_family_found = matches!(action.as_ref().map(|a| a.target_family_id), Some(Some(1)));
        let state_changes = self.changes.iter().filter(|c| c.action_id == action_id).copied().collect();
        ActionLookup { action, target_family_found, state_changes }
    }

    fn process(
        &mut self,
        decoded: Result<UdpMessage, CodecError>,
        payload: &[u8],
        received_at: &str,
    ) -> Result<PacketOutcome, UdpProcessingError<ActionError, String>> {
        let mut step = self.processor.process_datagram(decoded, payload, SECOND, received_at);
        loop {
            step = match step {
                UdpStep::CheckDevice(check) => {
                    let id = check.message.device_id().to_owned();
                    let enabled = self.devices.iter().any(|(d, e)| *d == id && *e);
                    self.processor.device_checked(check, Ok(enabled))
                }
                UdpStep::LookUpEvent(flight) => {
                    let known = self
                        .events
                        .iter()
                        .any(|(d, e, _)| *d == flight.device_id && *e == flight.event_id);
                    self.processor.event_looked_up(flight, Ok(known))
                }
                UdpStep::ValidateAction(flight) => {
                    let valid = match &self.handler {
                        Handler::Engine(engine) => engine
                            .validate_event(flight.action_id, self.lookup(flight.action_id))
                            .map(|_| ()),
                        _ => Ok(()),
                    };
                    self.processor.action_validated(flight, valid)
                }
                UdpStep::InsertEvent(insert) => {
                    let record = &insert.record;
                    let exists = self
                        .events
                        .iter()
                        .any(|(d, e, _)| *d == record.device_id && *e == record.event_id);
                    if !exists {
                        self.events.push((
                            record.device_id.clone(),
                            record.event_id.clone(),
                            record.received_at.clone(),
                        ));
                    }
                    event_inserted(insert, Ok(!exists))
                }
                UdpStep::RunAction(run) => {
                    let lookup = self.lookup(run.action_id);
                    let result = match &mut self.handler {
                        Handler::Recording(calls) => {
                            let event = run.context();
                            calls.push((event.device_id.to_owned(), event.event_id.to_owned(), event.action_id));
                            Ok(())
                        }
                        Handler::Failing(calls) => {
                            *calls += 1;
                            Err("test action failure".to_owned())
                        }
                        Handler::Engine(engine) => engine
                            .execute(run.action_id, lookup)
                            .map(|_| ())
                            .map_err(|e| format!("{e:?}")),
                    };
                    action_ran(run, result)
                }
                UdpStep::Done(result) => return result,
            };
        }
    }

    fn send(&mut self, message: UdpMessage, received_at: &str) -> Result<PacketOutcome, UdpProcessingError<ActionError, String>> {
        let payload = message.to_json().into_bytes();
        self.process(Ok(message), &payload, received_at)
    }

    fn status(&self) -> CommunicationStatus {
        self.processor.state().device("enabled-node").unwrap().status
    }

    fn engine(&self) -> &ActionEngine {
        match &self.handler {
            Handler::Engine(engine) => engine,
            _ => panic!("no engine"),
        }
    }
}

fn processor() -> Hub {
    Hub::new(Handler::Recording(Vec::new()), &[device("enabled-node", true), device("disabled-node", false)])
}

fn action_processor(
    action_id: u32,
    target_type: TargetType,
    target_family_id: Option<u32>,
    enabled: bool,
    changes: &[ActionStateChangeRecord],
) -> Hub {
    let mut hub = Hub::new(Handler::Engine(ActionEngine::new()), &[device("enabled-node", true)]);
    hub.actions.push(ActionRecord {
        action_id,
        action_name: "テストAction".into(),
        target_type,
        target_family_id,
        web_message: Some("Web表示メッセージ".into()),
        enabled,
    });
    hub.changes.extend_from_slice(changes);
    hub
}

fn hello() -> UdpMessage {
    UdpMessage::Hello { device_id: "enabled-node".into() }
}

fn event() -> UdpMessage {
    event_with(42, "boot-1-1")
}

fn event_with(action_id: u32, event_id: &str) -> UdpMessage {
    UdpMessage::Event { device_id: "enabled-node".into(), event_id: event_id.into(), action_id }
}

fn calls(hub: &Hub) -> &Vec<(String, String, u32)> {
    match &hub.handler {
        Handler::Recording(calls) => calls,
        _ => panic!("not recording"),
    }
}

#[test]
fn accepts_hello_and_heartbeat_and_updates_online() {
    let mut hub = processor();
    assert!(matches!(
        hub.send(hello(), "2026-09-04T00:00:00Z").unwrap(),
        PacketOutcome::HelloAccepted { .. }
    ));
    assert_eq!(hub.status(), CommunicationStatus::Online);
    assert!(matches!(
        hub.send(UdpMessage::Heartbeat { device_id: "enabled-node".into() }, "2026-09-04T00:00:01Z")
            .unwrap(),
        PacketOutcome::HeartbeatAccepted { .. }
    ));
}

#[test]
fn new_event_is_saved_action_is_called_and_ack_has_formal_fields() {
    let mut hub = processor();
    let result = hub.send(event(), "2026-09-04T00:00:00Z").unwrap();
    let PacketOutcome::EventAccepted { device_id, event_id, duplicate, action_status, ack } = result
    else {
        panic!("expected event outcome");
    };
    assert_eq!(device_id, "enabled-node");
    assert_eq!(event_id, "boot-1-1");
    assert!(!duplicate);
    assert_eq!(action_status, ActionExecutionStatus::Applied);
    assert_eq!(
        *ack,
        UdpMessage::Ack { device_id: "enabled-node".into(), event_id: "boot-1-1".into() }
    );
    let mut ack_buffer = [0; 128];
    let ack_length = ack.encode(&mut ack_buffer).unwrap();
    assert_eq!(
        core::str::from_utf8(&ack_buffer[..ack_length]).unwrap(),
        r#"{"type":"ACK","device_id":"enabled-node","event_id":"boot-1-1"}"#
    );
    assert!(hub.events.iter().any(|(d, e, _)| d == "enabled-node" && e == "boot-1-1"));
    assert_eq!(calls(&hub).len(), 1);
    assert_eq!(calls(&hub)[0].2, 42);
}

#[test]
fn duplicate_event_is_not_saved_again_or_sent_to_action_but_ack_is_returned() {
    let mut hub = processor();
    let first = hub.send(event(), "2026-09-04T00:00:00Z").unwrap();
    let second = hub.send(event(), "2026-09-04T00:00:01Z").unwrap();
    assert!(matches!(first, PacketOutcome::EventAccepted { duplicate: false, .. }));
    assert!(matches!(
        second,
        PacketOutcome::EventAccepted {
            duplicate: true,
            action_status: ActionExecutionStatus::SkippedDuplicate,
            ..
        }
    ));
    assert_eq!(calls(&hub).len(), 1);
    assert_eq!(hub.events.len(), 1);
    assert_eq!(hub.events[0].2, "2026-09-04T00:00:00Z");
}

#[test]
fn ack_does_not_update_state() {
    let mut hub = processor();
    let message = UdpMessage::Ack { device_id: "enabled-node".into(), event_id: "boot-1-1".into() };
    assert_eq!(hub.send(message, "2026-09-04T00:00:00Z").unwrap(), PacketOutcome::Ignored);
    assert_eq!(hub.status(), CommunicationStatus::InitialWait);
}

#[test]
fn invalid_and_old_messages_do_not_update_state() {
    let mut hub = processor();
    let invalid = br#"{"type":"EVENT","device_id":"enabled-node","action_id":10}"#;
    assert!(matches!(
        hub.process(Err(CodecError::InvalidJson), invalid, "2026-09-04T00:00:00Z"),
        Err(UdpProcessingError::InvalidMessage(_))
    ));
    let old = br#"{"version":1,"type":"EVENT","device_id":"enabled-node","message_id":10,"data":{"event_type":"BUTTON","channel":1,"value":1}}"#;
    assert!(matches!(
        hub.process(Err(CodecError::InvalidJson), old, "2026-09-04T00:00:00Z"),
        Err(UdpProcessingError::InvalidMessage(_))
    ));
    assert_eq!(hub.status(), CommunicationStatus::InitialWait);
    assert!(hub.events.is_empty());
}

#[test]
fn unknown_and_disabled_devices_are_ignored_without_ack_or_history() {
    let mut hub = processor();
    for device_id in ["unknown-node", "disabled-node"] {
        let message = UdpMessage::Hello { device_id: device_id.into() };
        assert_eq!(hub.send(message, "2026-09-04T00:00:00Z").unwrap(), PacketOutcome::Ignored);
    }
    let event = UdpMessage::Event {
        device_id: "disabled-node".into(),
        event_id: "boot-disabled-1".into(),
        action_id: 1,
    };
    assert_eq!(hub.send(event, "2026-09-04T00:00:00Z").unwrap(), PacketOutcome::Ignored);
    assert!(hub.events.is_empty());
    assert_eq!(hub.processor.state().len(), 1);
}

#[test]
fn hello_request_is_a_separate_parent_to_child_message() {
    let mut buffer = [0; 64];
    let used = encode_hello_request(&mut buffer).unwrap();
    assert_eq!(core::str::from_utf8(&buffer[..used]).unwrap(), r#"{"type":"HELLO_REQUEST"}"#);

    let mut hub = processor();
    // HELLO_REQUEST is not a type a node sends; decoding it as a node
    // message fails.
    assert!(matches!(
        hub.process(Err(CodecError::InvalidJson), &buffer[..used], "2026-09-04T00:00:00Z"),
        Err(UdpProcessingError::InvalidMessage(_))
    ));
}

#[test]
fn action_engine_accepts_family_action_and_applies_state_changes() {
    let changes = [
        ActionStateChangeRecord { action_id: 42, state_type: StateType::EntryPermission, state_value: StateValue::OK },
        ActionStateChangeRecord { action_id: 42, state_type: StateType::MealNotice, state_value: StateValue::On },
    ];
    let mut hub = action_processor(42, TargetType::Family, Some(1), true, &changes);
    let result = hub.send(event(), "2026-09-04T00:00:00Z").unwrap();
    assert!(matches!(
        result,
        PacketOutcome::EventAccepted {
            duplicate: false,
            action_status: ActionExecutionStatus::Applied,
            ..
        }
    ));
    assert_eq!(
        hub.engine().state().get(ActionStateScope::Family(1), StateType::EntryPermission),
        Some(StateValue::OK)
    );
    assert_eq!(
        hub.engine().state().get(ActionStateScope::Family(1), StateType::MealNotice),
        Some(StateValue::On)
    );
    assert_eq!(
        hub.engine().validate_event(42, hub.lookup(42)).unwrap().action.web_message.as_deref(),
        Some("Web表示メッセージ")
    );
}

#[test]
fn action_engine_accepts_common_action_and_notification_only_action() {
    let mut common = action_processor(50, TargetType::Common, None, true, &[]);
    let result = common.send(event_with(50, "common-1"), "2026-09-04T00:00:00Z").unwrap();
    assert!(matches!(
        result,
        PacketOutcome::EventAccepted { action_status: ActionExecutionStatus::Applied, .. }
    ));
    assert_eq!(common.engine().state().values().len(), 0);

    let mut notification_only = action_processor(51, TargetType::Family, Some(1), true, &[]);
    notification_only.send(event_with(51, "inquiry-1"), "2026-09-04T00:00:00Z").unwrap();
    assert_eq!(notification_only.engine().state().values().len(), 0);
    assert_eq!(notification_only.status(), CommunicationStatus::Online);
}

#[test]
fn unavailable_action_is_rejected_before_history_state_or_ack() {
    let mut missing = action_processor(52, TargetType::Common, None, true, &[]);
    let missing_result = missing.send(event_with(999, "missing-action"), "2026-09-04T00:00:00Z");
    assert!(matches!(
        missing_result,
        Err(UdpProcessingError::ActionValidation(ActionError::NotFound(999)))
    ));
    assert!(missing.events.is_empty());
    assert_eq!(missing.status(), CommunicationStatus::InitialWait);

    let mut disabled = action_processor(53, TargetType::Common, None, false, &[]);
    let disabled_result = disabled.send(event_with(53, "disabled-action"), "2026-09-04T00:00:00Z");
    assert!(matches!(
        disabled_result,
        Err(UdpProcessingError::ActionValidation(ActionError::Disabled(53)))
    ));
    assert!(disabled.events.is_empty());
}

#[test]
fn action_engine_updates_all_defined_state_types() {
    let change = |action_id, state_type, state_value| ActionStateChangeRecord { action_id, state_type, state_value };
    let changes = [
        change(54, StateType::EntryPermission, StateValue::Ng),
        change(54, StateType::MealNotice, StateValue::Off),
        change(54, StateType::SnackNotice, StateValue::On),
        change(54, StateType::HelpNotice, StateValue::On),
    ];
    let mut family = action_processor(54, TargetType::Family, Some(1), true, &changes);
    family.send(event_with(54, "all-family-states"), "2026-09-04T00:00:00Z").unwrap();
    for (state_type, value) in [
        (StateType::EntryPermission, StateValue::Ng),
        (StateType::MealNotice, StateValue::Off),
        (StateType::SnackNotice, StateValue::On),
        (StateType::HelpNotice, StateValue::On),
    ] {
        assert_eq!(family.engine().state().get(ActionStateScope::Family(1), state_type), Some(value));
    }

    let mailbox_change = [change(55, StateType::Mailbox, StateValue::On)];
    let mut common = action_processor(55, TargetType::Common, None, true, &mailbox_change);
    common.send(event_with(55, "mailbox-1"), "2026-09-04T00:00:00Z").unwrap();
    assert_eq!(
        common.engine().state().get(ActionStateScope::Common, StateType::Mailbox),
        Some(StateValue::On)
    );

    let meal_clear_changes = [
        change(56, StateType::MealNotice, StateValue::Off),
        change(56, StateType::SnackNotice, StateValue::Off),
    ];
    let mut meal_clear = action_processor(56, TargetType::Family, Some(1), true, &meal_clear_changes);
    meal_clear.send(event_with(56, "meal-clear-1"), "2026-09-04T00:00:00Z").unwrap();
    assert_eq!(
        meal_clear.engine().state().get(ActionStateScope::Family(1), StateType::MealNotice),
        Some(StateValue::Off)
    );
    assert_eq!(
        meal_clear.engine().state().get(ActionStateScope::Family(1), StateType::SnackNotice),
        Some(StateValue::Off)
    );
}

#[test]
fn action_failure_after_history_still_returns_ack_without_retrying_action() {
    let mut hub = Hub::new(Handler::Failing(0), &[device("enabled-node", true)]);
    let first = hub.send(event_with(42, "failed-action-1"), "2026-09-04T00:00:00Z").unwrap();
    assert!(matches!(
        first,
        PacketOutcome::EventAccepted {
            duplicate: false,
            action_status: ActionExecutionStatus::Failed(_),
            ..
        }
    ));
    let second = hub.send(event_with(42, "failed-action-1"), "2026-09-04T00:00:01Z").unwrap();
    assert!(matches!(
        second,
        PacketOutcome::EventAccepted {
            duplicate: true,
            action_status: ActionExecutionStatus::SkippedDuplicate,
            ..
        }
    ));
    assert!(matches!(hub.handler, Handler::Failing(1)));
}

#[test]
fn blank_event_id_and_invalid_payload_text_are_refused() {
    let mut hub = processor();
    let blank = UdpMessage::Event { device_id: "enabled-node".into(), event_id: " ".into(), action_id: 1 };
    assert!(matches!(hub.send(blank, "t"), Err(UdpProcessingError::InvalidEventId)));
    let blank_device = UdpMessage::Hello { device_id: "".into() };
    assert!(matches!(hub.send(blank_device, "t"), Err(UdpProcessingError::InvalidDeviceId)));
    let message = event_with(7, "bytes-1");
    assert!(matches!(
        hub.process(Ok(message), b"\xff\xfe", "t"),
        Err(UdpProcessingError::InvalidMessage(CodecError::InvalidJson))
    ));
    assert!(hub.events.is_empty());
}

#[test]
fn processing_errors_have_messages() {
    type E = UdpProcessingError<ActionError, String>;
    assert_eq!(E::InvalidMessage(CodecError::InvalidJson).message_with(""), "invalid UDP message: InvalidJson");
    assert_eq!(E::InvalidDeviceId.message_with(""), "device_id must not be empty");
    assert_eq!(E::InvalidEventId.message_with(""), "event_id must not be empty");
    assert_eq!(
        E::State(StateUpdateError::InvalidMessage(CodecError::TrailingData)).message_with(""),
        "state update failed: InvalidMessage(TrailingData)"
    );
    assert_eq!(E::Database("disk full".into()).message_with("disk full"), "database operation failed: disk full");
    let validation = ActionError::Disabled(3);
    assert_eq!(
        E::ActionValidation(validation).message_with(&validation.message()),
        "Action validation failed: Action 3 is disabled"
    );
}

#[test]
fn hello_request_needs_room_for_its_whole_text() {
    let mut buffer = [0u8; 64];
    assert_eq!(encode_hello_request(&mut buffer), Ok(24));
    assert_eq!(&buffer[..24], br#"{"type":"HELLO_REQUEST"}"#);
    let mut short = [7u8; 23];
    assert_eq!(encode_hello_request(&mut short), Err(CodecError::BufferTooSmall));
    let mut exact = [0u8; 24];
    assert_eq!(encode_hello_request(&mut exact), Ok(24));
}
