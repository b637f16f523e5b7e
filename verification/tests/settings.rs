use uchi_pulse::control::db::{ActionRecord, DeviceRecord, FamilyRecord, NotificationDestinationRecord};
use uchi_pulse::settings::editor::{
    enabled, family_name, new_record, next_id, rows, validation, Data, Draft, Section,
};
use uchi_pulse::settings::labels::{state_label, states, value_label, values};

fn data() -> Data {
    Data {
        devices: vec![DeviceRecord {
            device_id: "node-01".into(),
            name: "リビング".into(),
            device_type: "pico-w".into(),
            enabled: true,
        }],
        families: vec![FamilyRecord { family_id: 1, display_name: "父".into(), enabled: true }],
        ..Data::default()
    }
}

#[test]
fn next_id_fills_the_first_gap() {
    assert_eq!(next_id(&[]), 1);
    assert_eq!(next_id(&[1, 2, 4]), 3);
    assert_eq!(next_id(&[3, 1, 2]), 4);
}

#[test]
fn family_names_fall_back_to_a_placeholder() {
    let data = data();
    assert_eq!(family_name(&data.families, 1), "父");
    assert_eq!(family_name(&data.families, 7), "未登録の家族（7）");
}

#[test]
fn labels_translate_known_codes_and_keep_unknown_ones() {
    assert_eq!(states().len(), 5);
    assert_eq!(state_label("MEAL_NOTICE"), "ご飯のお知らせ");
    assert_eq!(state_label("OTHER"), "OTHER");
    assert!(!values("MEAL_NOTICE").is_empty());
    assert_eq!(value_label("MEAL_NOTICE", "ZZZ"), "ZZZ");
    assert_eq!(enabled(true), "利用中");
    assert_eq!(enabled(false), "無効");
    assert!(!Section::Devices.label().is_empty());
}

#[test]
fn drafts_are_checked_before_saving() {
    let data = data();
    assert_eq!(validation(None, true, &data), None);

    let duplicate = Draft::Device(data.devices[0].clone());
    assert_eq!(
        validation(Some(&duplicate), true, &data).as_deref(),
        Some("この識別番号は登録済みです。一覧から選んで編集してください。")
    );
    assert_eq!(validation(Some(&duplicate), false, &data), None);

    let blank = Draft::Family(FamilyRecord { family_id: 2, display_name: "  ".into(), enabled: true });
    assert_eq!(validation(Some(&blank), true, &data).as_deref(), Some("家族の名前を入力してください。"));

    let orphan = Draft::Action(ActionRecord {
        action_id: 10,
        action_name: "ご飯".into(),
        target_type: "FAMILY".into(),
        target_family_id: Some(9),
        ..ActionRecord::default()
    });
    assert_eq!(
        validation(Some(&orphan), true, &data).as_deref(),
        Some("対象の家族を選んでください。家族が未登録の場合は、先に登録してください。")
    );

    let destination = Draft::Destination(NotificationDestinationRecord {
        id: None,
        family_id: 1,
        notification_type: "LINE".into(),
        destination: "user".into(),
        enabled: true,
    });
    assert_eq!(validation(Some(&destination), true, &data), None);
    assert_eq!(destination.name(), "LINE");
}


#[test]
fn sections_list_their_records() {
    let mut data = data();
    data.actions.push(ActionRecord { action_id: 12, action_name: "ご飯".into(), enabled: false, ..ActionRecord::default() });
    data.destinations.push(NotificationDestinationRecord {
        id: Some(3),
        family_id: 1,
        notification_type: "LINE".into(),
        destination: "user".into(),
        enabled: true,
    });
    let families = rows(Section::Families, &data);
    assert_eq!(families.len(), 1);
    assert_eq!((families[0].0.as_str(), families[0].1.as_str()), ("父", "利用中"));
    assert_eq!(families[0].2, Draft::Family(data.families[0].clone()));
    let devices = rows(Section::Devices, &data);
    assert_eq!(devices[0].1, "node-01 · 利用中");
    let actions = rows(Section::Actions, &data);
    assert_eq!((actions[0].0.as_str(), actions[0].1.as_str()), ("ご飯", "動作番号 12 · 無効"));
    let destinations = rows(Section::Destinations, &data);
    assert_eq!((destinations[0].0.as_str(), destinations[0].1.as_str()), ("父", "LINE · 利用中"));
    assert!(rows(Section::Events, &data).is_empty());
}

#[test]
fn new_records_start_blank_with_the_next_free_identifier() {
    let data = data();
    match new_record(Section::Families, &data) {
        Some(Draft::Family(f)) => assert_eq!((f.family_id, f.display_name.as_str(), f.enabled), (2, "", true)),
        other => panic!("a family draft is expected, got {other:?}"),
    }
    match new_record(Section::Actions, &data) {
        Some(Draft::Action(a)) => {
            assert_eq!((a.action_id, a.target_type.as_str(), a.enabled), (1, "FAMILY", true));
        }
        other => panic!("an action draft is expected, got {other:?}"),
    }
    match new_record(Section::Devices, &data) {
        Some(Draft::Device(d)) => assert_eq!((d.device_type.as_str(), d.enabled), ("pico-w", true)),
        other => panic!("a device draft is expected, got {other:?}"),
    }
    match new_record(Section::Destinations, &data) {
        Some(Draft::Destination(d)) => assert_eq!((d.notification_type.as_str(), d.id), ("LINE", None)),
        other => panic!("a destination draft is expected, got {other:?}"),
    }
    assert_eq!(new_record(Section::Events, &data), None);
}
