use uchi_pulse::common::action::{StateType, StateValue, TargetType};
use uchi_pulse::hub::cdc::{
    config_loaded, config_rows, config_saved, config_text, handle_line, response_error,
    validate_config, ActionConfig, ConfigRow, FamilyConfig, FamilyNotificationDestinationConfig,
    HubCdcRequest, HubCdcStep, LineDecoder, ParentConfig, StateChangeConfig,
};
use uchi_pulse::common::cdc::CdcErrorCode;
use uchi_pulse::hub::config::{usage, HubCommand, HubConfig, HubEnvironment};
use uchi_pulse::hub::cdc::{load_action, load_config};
use uchi_pulse::hub::db::{
    migrations, pending_migrations, state_type_from_str, state_value_from_str, target_type_from_str, ActionRecord,
    ActionStateChangeRecord, FamilyNotificationDestination, FamilyRecord, MigrationError, NotificationSettingRecord,
    NotificationTargetRecord, SCHEMA_V1,
};

/// What a faithful store of `rows` gives back to `get_config`.
fn read_back(rows: &[ConfigRow]) -> ParentConfig {
    let mut families = Vec::new();
    let mut destinations = Vec::new();
    let mut actions: Vec<ActionRecord> = Vec::new();
    let mut changes: Vec<ActionStateChangeRecord> = Vec::new();
    let mut settings: Vec<NotificationSettingRecord> = Vec::new();
    let mut targets: Vec<NotificationTargetRecord> = Vec::new();
    for row in rows {
        match row {
            ConfigRow::Family { family_id, display_name, enabled } => families.push(FamilyRecord {
                family_id: *family_id,
                display_name: display_name.clone(),
                enabled: *enabled != 0,
            }),
            ConfigRow::Action { action_id, action_name, target_type, target_family_id, web_message, enabled } => {
                actions.push(ActionRecord {
                    action_id: *action_id,
                    action_name: action_name.clone(),
                    target_type: target_type_from_str(target_type.to_string()).unwrap(),
                    target_family_id: *target_family_id,
                    web_message: web_message.clone(),
                    enabled: *enabled != 0,
                })
            }
            ConfigRow::StateChange { action_id, state_type, state_value } => changes.push(ActionStateChangeRecord {
                action_id: *action_id,
                state_type: state_type_from_str(state_type.to_string()).unwrap(),
                state_value: state_value_from_str(state_value.to_string()).unwrap(),
            }),
            ConfigRow::NotificationSetting { action_id, notification_enabled, notification_message } => settings.push(
                NotificationSettingRecord {
                    action_id: *action_id,
                    notification_enabled: *notification_enabled != 0,
                    notification_message: notification_message.clone(),
                },
            ),
            ConfigRow::NotificationTarget { action_id, family_id } => {
                targets.push(NotificationTargetRecord { action_id: *action_id, family_id: *family_id })
            }
            ConfigRow::Destination { family_id, notification_type, destination, enabled } => {
                destinations.push(FamilyNotificationDestination {
                    id: None,
                    family_id: *family_id,
                    notification_type: notification_type.clone(),
                    destination: destination.clone(),
                    enabled: *enabled != 0,
                })
            }
        }
    }
    let loaded = actions
        .into_iter()
        .map(|action| {
            let id = action.action_id;
            load_action(
                action,
                changes.iter().filter(|c| c.action_id == id).copied().collect(),
                settings.iter().find(|s| s.action_id == id).map(|s| NotificationSettingRecord {
                    action_id: s.action_id,
                    notification_enabled: s.notification_enabled,
                    notification_message: s.notification_message.clone(),
                }),
                targets.iter().filter(|t| t.action_id == id).copied().collect(),
            )
        })
        .collect();
    load_config(families, loaded, destinations)
}

fn family(id: u32, name: &str) -> FamilyConfig {
    FamilyConfig { family_id: id, display_name: name.into(), enabled: true }
}

fn common_action(action_id: u32) -> ActionConfig {
    ActionConfig {
        action_id,
        action_name: "test".into(),
        target_type: TargetType::Common,
        target_family_id: None,
        web_message: None,
        enabled: true,
        state_changes: vec![],
        notification_enabled: false,
        notification_message: None,
        notification_targets: vec![],
    }
}

fn sample_config() -> ParentConfig {
    ParentConfig {
        families: vec![family(1, "太郎")],
        actions: vec![ActionConfig {
            action_id: 10,
            action_name: "ご飯通知".into(),
            target_type: TargetType::Family,
            target_family_id: Some(1),
            web_message: Some("ご飯です".into()),
            enabled: true,
            state_changes: vec![StateChangeConfig {
                state_type: StateType::MealNotice,
                state_value: StateValue::On,
            }],
            notification_enabled: true,
            notification_message: Some("通知".into()),
            notification_targets: vec![1],
        }],
        family_notification_destinations: vec![FamilyNotificationDestinationConfig {
            family_id: 1,
            notification_type: "LINE".into(),
            destination: "line-user-id".into(),
            enabled: true,
        }],
    }
}

fn request(request_id: &str, command: &str, params: Result<ParentConfig, String>) -> HubCdcRequest {
    HubCdcRequest { version: 1, request_id: request_id.into(), command: command.into(), params }
}

fn reply(step: HubCdcStep) -> serde_json::Value {
    match step {
        HubCdcStep::Reply(line) => {
            assert!(line.ends_with('\n'));
            serde_json::from_str(&line).unwrap()
        }
        _ => panic!("expected a reply"),
    }
}

#[test]
fn rejects_common_action_with_family_target() {
    let mut action = common_action(1);
    action.target_family_id = Some(1);
    let config = ParentConfig {
        families: vec![family(1, "家族")],
        actions: vec![action],
        family_notification_destinations: vec![],
    };
    assert!(validate_config(&config).is_err());
}

#[test]
fn set_config_is_persisted_and_returned_by_get_config() {
    let mut stored: Vec<ConfigRow> = Vec::new();
    let step = handle_line(Ok(request("set-1", "set_config", Ok(sample_config()))));
    let set_response = match step {
        HubCdcStep::SaveConfig { request_id, config } => {
            stored = config_rows(&config);
            config_saved(&request_id, &config, Ok(()))
        }
        _ => panic!("a valid configuration is saved"),
    };
    let set_response: serde_json::Value = serde_json::from_str(&set_response).unwrap();
    assert_eq!(set_response["status"], "ok");

    let step = handle_line(Ok(request("get-1", "get_config", Err("no params".into()))));
    let get_response = match step {
        HubCdcStep::LoadConfig { request_id } => config_loaded(&request_id, Ok(read_back(&stored))),
        _ => panic!("get_config reads the database"),
    };
    let get_response: serde_json::Value = serde_json::from_str(&get_response).unwrap();
    assert_eq!(get_response["status"], "ok");
    let expected: serde_json::Value = serde_json::from_str(&config_text(&sample_config())).unwrap();
    assert_eq!(get_response["data"], expected);
    assert_eq!(get_response["request_id"], "get-1");
}

#[test]
fn migrations_are_ordered_and_current_schema_is_version_one() {
    assert_eq!(migrations(), vec![(1, migrations()[0].1)]);
}

#[test]
fn pending_migrations_follow_the_current_version() {
    assert_eq!(pending_migrations(0).unwrap(), vec![(1, SCHEMA_V1)]);
    assert!(pending_migrations(1).unwrap().is_empty());
    assert_eq!(pending_migrations(2), Err(MigrationError::NewerSchema { current: 2, latest: 1 }));
}

#[test]
fn validation_reports_the_first_problem() {
    let config = ParentConfig {
        families: vec![family(1, "a"), family(2, "b"), family(1, "c")],
        actions: vec![],
        family_notification_destinations: vec![],
    };
    assert_eq!(validate_config(&config), Err("duplicate family_id: 1".into()));

    let config = ParentConfig {
        families: vec![family(1, "a")],
        actions: vec![common_action(3), common_action(3)],
        family_notification_destinations: vec![],
    };
    assert_eq!(validate_config(&config), Err("duplicate action_id: 3".into()));

    let mut family_action = common_action(4);
    family_action.target_type = TargetType::Family;
    family_action.target_family_id = Some(9);
    let config = ParentConfig {
        families: vec![family(1, "a")],
        actions: vec![family_action],
        family_notification_destinations: vec![],
    };
    assert_eq!(validate_config(&config), Err("Action 4 has an invalid target family".into()));

    let mut repeated = common_action(5);
    repeated.state_changes = vec![
        StateChangeConfig { state_type: StateType::Mailbox, state_value: StateValue::On },
        StateChangeConfig { state_type: StateType::Mailbox, state_value: StateValue::Off },
    ];
    let config = ParentConfig {
        families: vec![],
        actions: vec![repeated],
        family_notification_destinations: vec![],
    };
    assert_eq!(validate_config(&config), Err("Action 5 has duplicate state_type".into()));

    let mut targeted = common_action(6);
    targeted.notification_targets = vec![2];
    let config = ParentConfig {
        families: vec![family(1, "a")],
        actions: vec![targeted],
        family_notification_destinations: vec![],
    };
    assert_eq!(validate_config(&config), Err("Action 6 has invalid notification target".into()));

    let config = ParentConfig {
        families: vec![family(1, "a")],
        actions: vec![],
        family_notification_destinations: vec![FamilyNotificationDestinationConfig {
            family_id: 1,
            notification_type: "LINE".into(),
            destination: "  ".into(),
            enabled: true,
        }],
    };
    assert_eq!(
        validate_config(&config),
        Err("notification_type and destination must not be empty".into())
    );
    assert_eq!(validate_config(&sample_config()), Ok(()));
}

#[test]
fn commands_are_routed_and_answered() {
    let info = reply(handle_line(Ok(request("i", "get_info", Err(String::new())))));
    assert_eq!(info["data"]["device_type"], "hub");
    assert_eq!(info["data"]["capabilities"][2], "factory_reset");

    let version = reply(handle_line(Ok(HubCdcRequest {
        version: 2,
        request_id: "v".into(),
        command: "get_info".into(),
        params: Err(String::new()),
    })));
    assert_eq!(version["error"]["code"], "UNSUPPORTED_VERSION");
    assert_eq!(version["error"]["message"], "unsupported protocol version: 2");

    let reboot = reply(handle_line(Ok(request("r", "reboot", Err(String::new())))));
    assert_eq!(reboot["error"]["code"], "NOT_SUPPORTED");
    let inputs = reply(handle_line(Ok(request("g", "get_inputs", Err(String::new())))));
    assert_eq!(inputs["error"]["message"], "Hub has no GPIO input/output state");
    let unknown = reply(handle_line(Ok(request("u", "frobnicate", Err(String::new())))));
    assert_eq!(unknown["error"]["code"], "INVALID_COMMAND");
    assert_eq!(unknown["error"]["message"], "unknown command: frobnicate");

    let invalid = reply(handle_line(Err("expected value at line 1 column 1".into())));
    assert_eq!(invalid["request_id"], "unknown");
    assert_eq!(invalid["error"]["code"], "INVALID_JSON");
    assert_eq!(invalid["error"]["message"], "invalid CDC JSON: expected value at line 1 column 1");

    let mut bad = sample_config();
    bad.actions[0].target_family_id = None;
    let refused = reply(handle_line(Ok(request("s", "set_config", Ok(bad)))));
    assert_eq!(refused["error"]["code"], "INVALID_CONFIG");
    assert_eq!(refused["error"]["message"], "Action 10 has an invalid target family");

    assert!(matches!(
        handle_line(Ok(request("f", "factory_reset", Err(String::new())))),
        HubCdcStep::ResetConfig { .. }
    ));
    assert!(matches!(
        handle_line(Ok(request("t", "get_status", Err(String::new())))),
        HubCdcStep::ReadSchemaVersion { .. }
    ));
}

#[test]
fn long_error_messages_are_replaced() {
    let line = response_error("x", CdcErrorCode::OperationFailed, &"e".repeat(129));
    let value: serde_json::Value = serde_json::from_str(&line).unwrap();
    assert_eq!(value["error"]["message"], "CDC operation failed");
    assert_eq!(value["error"]["code"], "OPERATION_FAILED");
}

#[test]
fn rows_follow_the_configuration() {
    let rows = config_rows(&sample_config());
    assert_eq!(rows.len(), 6);
    assert_eq!(rows[0], ConfigRow::Family { family_id: 1, display_name: "太郎".into(), enabled: 1 });
    assert!(matches!(rows[1], ConfigRow::Action { action_id: 10, target_type: "FAMILY", .. }));
    assert_eq!(
        rows[2],
        ConfigRow::StateChange { action_id: 10, state_type: "MEAL_NOTICE", state_value: "ON" }
    );
    assert!(matches!(rows[3], ConfigRow::NotificationSetting { notification_enabled: 1, .. }));
    assert_eq!(rows[4], ConfigRow::NotificationTarget { action_id: 10, family_id: 1 });
    assert!(matches!(rows[5], ConfigRow::Destination { family_id: 1, .. }));
    let quiet = ParentConfig { families: vec![], actions: vec![common_action(2)], family_notification_destinations: vec![] };
    assert_eq!(config_rows(&quiet).len(), 1);
}

#[test]
fn hub_line_decoder_trims_carriage_returns_and_drops_overlong_lines() {
    let mut decoder = LineDecoder::new();
    assert_eq!(decoder.feed(b"{\"a\":1}\r\r\n"), vec!["{\"a\":1}".to_owned()]);
    let mut long = vec![b'x'; 65537];
    long.push(b'\n');
    long.extend_from_slice(b"next\n");
    assert_eq!(decoder.feed(&long), vec!["next".to_owned()]);
    assert_eq!(decoder.feed(b"a\xffb\n"), vec!["a\u{fffd}b".to_owned()]);
}

#[test]
fn command_line_overrides_environment() {
    let env = HubEnvironment { db_path: Some("env.db".into()), ..HubEnvironment::default() };
    let args: Vec<String> = ["--bind", "127.0.0.1:6000", "--offline-timeout-sec", "+30"]
        .iter()
        .map(|s| s.to_string())
        .collect();
    match HubConfig::from_args(&env, &args).unwrap() {
        HubCommand::Run(config) => {
            assert_eq!(config.bind_addr, "127.0.0.1:6000");
            assert_eq!(config.db_path, "env.db");
            assert_eq!(config.hello_request_addr, "255.255.255.255:5000");
            assert_eq!(config.offline_timeout_sec, 30);
            assert_eq!(config.cdc_device, None);
        }
        HubCommand::Help => panic!("no help was asked for"),
    }
    let help = vec!["-h".to_string()];
    assert_eq!(HubConfig::from_args(&env, &help), Ok(HubCommand::Help));
    let missing = vec!["--db".to_string()];
    assert_eq!(HubConfig::from_args(&env, &missing), Err("--db requires a path".into()));
    let bad = vec!["--offline-timeout-sec".to_string(), "ten".to_string()];
    assert_eq!(
        HubConfig::from_args(&env, &bad),
        Err("--offline-timeout-sec must be an integer".into())
    );
    let unknown = vec!["--verbose".to_string()];
    assert_eq!(HubConfig::from_args(&env, &unknown), Err("unknown argument: --verbose".into()));
    let bad_env = HubEnvironment { offline_timeout_sec: Some("".into()), ..HubEnvironment::default() };
    assert_eq!(
        HubConfig::from_args(&bad_env, &[]),
        Err("UCHI_PULSE_OFFLINE_TIMEOUT_SEC must be an integer".into())
    );
}

#[test]
fn control_characters_in_messages_are_escaped_in_lower_case() {
    let line = response_error("r", CdcErrorCode::InvalidJson, "x\u{1f}\"\n");
    assert!(line.contains("\"message\":\"x\\u001f\\\"\\n\""), "{line}");
    assert!(line.ends_with('\n'));
    let value: serde_json::Value = serde_json::from_str(&line).unwrap();
    assert_eq!(value["error"]["message"], "x\u{1f}\"\n");
}

#[test]
fn usage_lists_the_options_and_defaults() {
    let lines = usage();
    assert_eq!(
        lines,
        vec![
            "Usage: uchi-pulse-hub [--bind ADDR] [--db PATH] [--hello-request-addr ADDR] [--offline-timeout-sec SECONDS] [--cdc-device PATH]",
            "Defaults: bind=0.0.0.0:5000, db=uchi-pulse.db, hello-request=255.255.255.255:5000, offline-timeout=180 seconds",
        ]
    );
}

#[test]
fn offline_timeout_is_converted_to_milliseconds() {
    let mut config = HubConfig {
        bind_addr: "0.0.0.0:5000".into(),
        db_path: "uchi-pulse.db".into(),
        hello_request_addr: "255.255.255.255:5000".into(),
        offline_timeout_sec: 180,
        cdc_device: None,
    };
    assert_eq!(config.offline_timeout_ms(), 180_000);
    config.offline_timeout_sec = u64::MAX / 10;
    assert_eq!(config.offline_timeout_ms(), u64::MAX);
}

#[test]
fn hub_lines_do_not_depend_on_read_boundaries() {
    let stream = b"{\"version\":1}\r\n\n{\"x\":2}\ntail";
    let mut whole = LineDecoder::new();
    let expected = whole.feed(stream);
    assert_eq!(expected, vec!["{\"version\":1}".to_string(), String::new(), "{\"x\":2}".to_string()]);
    for cut in 0..=stream.len() {
        let mut decoder = LineDecoder::new();
        let mut lines = decoder.feed(&stream[..cut]);
        lines.extend(decoder.feed(&stream[cut..]));
        assert_eq!(lines, expected, "split at {cut}");
    }
}
