use uchi_pulse::common::action::{
    state_type_name, state_value_name, target_type_name, StateType, StateValue, TargetType,
};
use uchi_pulse::hub::action::{
    validate_target, ActionEngine, ActionError, ActionLookup, ActionStateManager,
    ActionStateScope, StateApplyError,
};
use uchi_pulse::hub::db::{
    state_type_from_str, state_value_from_str, target_type_from_str, ActionRecord, ActionStateChangeRecord,
};

fn action(action_id: u32, target_type: TargetType, target_family_id: Option<u32>) -> ActionRecord {
    ActionRecord {
        action_id,
        action_name: format!("action-{action_id}"),
        target_type,
        target_family_id,
        web_message: None,
        enabled: true,
    }
}

/// The database facts for `action_id` in a database with family 1 and the
/// given actions.
fn lookup(actions: &[ActionRecord], action_id: u32) -> ActionLookup {
    let action = actions.iter().find(|a| a.action_id == action_id).map(|a| ActionRecord {
        action_id: a.action_id,
        action_name: a.action_name.clone(),
        target_type: a.target_type,
        target_family_id: a.target_family_id,
        web_message: a.web_message.clone(),
        enabled: a.enabled,
    });
    let target_family_found = matches!(
        action.as_ref().map(|a| a.target_family_id),
        Some(Some(1))
    );
    ActionLookup { action, target_family_found, state_changes: Vec::new() }
}

#[test]
fn validates_enabled_actions_and_targets() {
    let actions = [action(1, TargetType::Family, Some(1)), action(2, TargetType::Common, None)];
    let engine = ActionEngine::new();
    assert_eq!(
        engine.validate_event(1, lookup(&actions, 1)).unwrap().scope,
        ActionStateScope::Family(1)
    );
    assert_eq!(engine.validate_event(2, lookup(&actions, 2)).unwrap().scope, ActionStateScope::Common);
    assert!(matches!(engine.validate_event(3, lookup(&actions, 3)), Err(ActionError::NotFound(3))));
}

#[test]
fn state_changes_are_applied_as_an_atomic_batch() {
    let mut state = ActionStateManager::default();
    let changes = [
        ActionStateChangeRecord {
            action_id: 1,
            state_type: StateType::MealNotice,
            state_value: StateValue::On,
        },
        ActionStateChangeRecord {
            action_id: 1,
            state_type: StateType::MealNotice,
            state_value: StateValue::Off,
        },
    ];
    assert!(matches!(
        state.apply_batch(ActionStateScope::Family(1), &changes),
        Err(StateApplyError::DuplicateStateType(StateType::MealNotice))
    ));
    assert_eq!(state.get(ActionStateScope::Family(1), StateType::MealNotice), None);
}

#[test]
fn family_and_common_target_invariants_are_rejected_even_before_db_constraints() {
    assert!(matches!(
        validate_target(&action(10, TargetType::Family, None), true),
        Err(ActionError::FamilyTargetMissing(10))
    ));
    assert!(matches!(
        validate_target(&action(11, TargetType::Common, Some(1)), true),
        Err(ActionError::CommonTargetHasFamily(11))
    ));
}

#[test]
fn batch_updates_only_its_scope_and_overwrites_earlier_values() {
    let mut state = ActionStateManager::new();
    let first = [ActionStateChangeRecord {
        action_id: 1,
        state_type: StateType::Mailbox,
        state_value: StateValue::On,
    }];
    state.apply_batch(ActionStateScope::Common, &first).unwrap();
    let second = [
        ActionStateChangeRecord {
            action_id: 2,
            state_type: StateType::Mailbox,
            state_value: StateValue::Off,
        },
        ActionStateChangeRecord {
            action_id: 2,
            state_type: StateType::EntryPermission,
            state_value: StateValue::Meeting,
        },
    ];
    state.apply_batch(ActionStateScope::Family(7), &second).unwrap();
    assert_eq!(state.get(ActionStateScope::Common, StateType::Mailbox), Some(StateValue::On));
    assert_eq!(state.get(ActionStateScope::Family(7), StateType::Mailbox), Some(StateValue::Off));
    state.apply_batch(ActionStateScope::Common, &second).unwrap();
    assert_eq!(state.get(ActionStateScope::Common, StateType::Mailbox), Some(StateValue::Off));
    assert_eq!(state.values().len(), 4);
}

#[test]
fn missing_target_family_and_disabled_action_are_reported() {
    let engine = ActionEngine::new();
    let missing_family = ActionLookup {
        action: Some(action(4, TargetType::Family, Some(9))),
        target_family_found: false,
        state_changes: Vec::new(),
    };
    assert_eq!(
        engine.validate_event(4, missing_family).unwrap_err(),
        ActionError::TargetFamilyNotFound { action_id: 4, family_id: 9 }
    );
    let mut disabled = action(5, TargetType::Common, None);
    disabled.enabled = false;
    let lookup = ActionLookup { action: Some(disabled), target_family_found: false, state_changes: Vec::new() };
    assert_eq!(engine.validate_event(5, lookup).unwrap_err(), ActionError::Disabled(5));
}

#[test]
fn execute_applies_changes_or_nothing() {
    let mut engine = ActionEngine::new();
    let change = |state_type, state_value| ActionStateChangeRecord { action_id: 6, state_type, state_value };
    let lookup = ActionLookup {
        action: Some(action(6, TargetType::Family, Some(1))),
        target_family_found: true,
        state_changes: vec![
            change(StateType::HelpNotice, StateValue::On),
            change(StateType::HelpNotice, StateValue::Off),
        ],
    };
    assert_eq!(
        engine.execute(6, lookup).unwrap_err(),
        ActionError::State(StateApplyError::DuplicateStateType(StateType::HelpNotice))
    );
    assert_eq!(engine.state().values().len(), 0);
    let lookup = ActionLookup {
        action: Some(action(6, TargetType::Family, Some(1))),
        target_family_found: true,
        state_changes: vec![change(StateType::HelpNotice, StateValue::On)],
    };
    assert_eq!(engine.execute(6, lookup).unwrap().scope, ActionStateScope::Family(1));
    assert_eq!(
        engine.state().get(ActionStateScope::Family(1), StateType::HelpNotice),
        Some(StateValue::On)
    );
}

#[test]
fn action_errors_have_messages() {
    assert_eq!(ActionError::NotFound(42).message(), "Action 42 does not exist");
    assert_eq!(ActionError::Disabled(7).message(), "Action 7 is disabled");
    assert_eq!(ActionError::FamilyTargetMissing(7).message(), "FAMILY Action 7 has no target family");
    assert_eq!(ActionError::CommonTargetHasFamily(8).message(), "COMMON Action 8 has a target family");
    assert_eq!(
        ActionError::TargetFamilyNotFound { action_id: 10, family_id: 999 }.message(),
        "Action 10 targets missing family 999"
    );
    assert_eq!(
        ActionError::State(StateApplyError::DuplicateStateType(StateType::MealNotice)).message(),
        "Action state application failed: duplicate state change for MealNotice"
    );
}

#[test]
fn stored_names_read_back_as_their_values() {
    for t in [TargetType::Family, TargetType::Common] {
        assert_eq!(target_type_from_str(target_type_name(t).to_owned()), Ok(t));
    }
    for t in [StateType::EntryPermission, StateType::MealNotice, StateType::SnackNotice, StateType::HelpNotice, StateType::Mailbox] {
        assert_eq!(state_type_from_str(state_type_name(t).to_owned()), Ok(t));
    }
    for v in [StateValue::Unset, StateValue::On, StateValue::Off, StateValue::OK, StateValue::Ng, StateValue::Meeting] {
        assert_eq!(state_value_from_str(state_value_name(v).to_owned()), Ok(v));
    }
    let error = state_value_from_str("MAYBE".to_owned()).unwrap_err();
    assert_eq!(error.message(), "invalid stored state_value value: MAYBE");
    assert_eq!(target_type_from_str("family".to_owned()).unwrap_err().field, "target_type");
}
