//! Action definitions and the state slots they change.

use vstd::prelude::*;

use crate::common::types::{text, CommandName, FamilyId, TextError, COMMAND_NAME_CAPACITY};

verus! {

pub use crate::common::udp::ActionId;

#[derive(Clone, Copy, Debug, PartialEq, Eq, Structural)]
pub enum TargetType {
    Family,
    Common,
}

#[derive(Clone, Copy, Debug, PartialEq, Eq, Hash, Structural)]
pub enum StateType {
    EntryPermission,
    MealNotice,
    SnackNotice,
    HelpNotice,
    Mailbox,
}

#[derive(Clone, Copy, Debug, PartialEq, Eq, Structural)]
pub enum StateValue {
    Unset,
    On,
    Off,
    OK,
    Ng,
    Meeting,
}

/// An action as the hub stores it; the name and the web message are bounded
/// by `ACTION_NAME_CAPACITY` and `MESSAGE_CAPACITY`.
#[derive(Debug, PartialEq, Eq)]
pub struct ActionDefinition {
    pub action_id: ActionId,
    pub action_name: String,
    pub target_type: TargetType,
    pub target_family_id: Option<FamilyId>,
    pub web_message: Option<String>,
    pub enabled: bool,
}

#[derive(Clone, Copy, Debug, PartialEq, Eq, Structural)]
pub struct ActionStateChange {
    pub state_type: StateType,
    pub state_value: StateValue,
}

/// A CDC command name. It stays a string so that an endpoint can answer an
/// unknown command with `INVALID_COMMAND` instead of failing to decode.
pub fn command_name(value: &str) -> (r: Result<CommandName, TextError>)
    ensures
        match r {
            Ok(s) => s@ == value@ && crate::common::types::utf8_len(value@) <= COMMAND_NAME_CAPACITY,
            Err(e) => e == TextError::TooLong && crate::common::types::utf8_len(value@)
                > COMMAND_NAME_CAPACITY,
        },
{
    text::<COMMAND_NAME_CAPACITY>(value)
}

/// The wire name of a target type.
pub open spec fn spec_target_type_name(value: TargetType) -> Seq<char> {
    match value {
        TargetType::Family => "FAMILY"@,
        TargetType::Common => "COMMON"@,
    }
}

/// The wire name of a state type.
pub open spec fn spec_state_type_name(value: StateType) -> Seq<char> {
    match value {
        StateType::EntryPermission => "ENTRY_PERMISSION"@,
        StateType::MealNotice => "MEAL_NOTICE"@,
        StateType::SnackNotice => "SNACK_NOTICE"@,
        StateType::HelpNotice => "HELP_NOTICE"@,
        StateType::Mailbox => "MAILBOX"@,
    }
}

/// The wire name of a state value.
pub open spec fn spec_state_value_name(value: StateValue) -> Seq<char> {
    match value {
        StateValue::Unset => "UNSET"@,
        StateValue::On => "ON"@,
        StateValue::Off => "OFF"@,
        StateValue::OK => "OK"@,
        StateValue::Ng => "NG"@,
        StateValue::Meeting => "MEETING"@,
    }
}

pub fn target_type_name(value: TargetType) -> (r: &'static str)
    ensures
        r@ == spec_target_type_name(value),
{
    match value {
        TargetType::Family => "FAMILY",
        TargetType::Common => "COMMON",
    }
}

pub fn state_type_name(value: StateType) -> (r: &'static str)
    ensures
        r@ == spec_state_type_name(value),
{
    match value {
        StateType::EntryPermission => "ENTRY_PERMISSION",
        StateType::MealNotice => "MEAL_NOTICE",
        StateType::SnackNotice => "SNACK_NOTICE",
        StateType::HelpNotice => "HELP_NOTICE",
        StateType::Mailbox => "MAILBOX",
    }
}

pub fn state_value_name(value: StateValue) -> (r: &'static str)
    ensures
        r@ == spec_state_value_name(value),
{
    match value {
        StateValue::Unset => "UNSET",
        StateValue::On => "ON",
        StateValue::Off => "OFF",
        StateValue::OK => "OK",
        StateValue::Ng => "NG",
        StateValue::Meeting => "MEETING",
    }
}

/// Distinct target types have distinct wire names, so a stored name reads
/// back as the type it was written from.
pub proof fn law_target_type_names_distinct(a: TargetType, b: TargetType)
    ensures
        spec_target_type_name(a) == spec_target_type_name(b) ==> a == b,
{
    reveal_strlit("FAMILY");
    reveal_strlit("COMMON");
    if spec_target_type_name(a) == spec_target_type_name(b) {
        assert(spec_target_type_name(a)[0] == spec_target_type_name(b)[0]);
    }
}

/// Distinct state types have distinct wire names.
pub proof fn law_state_type_names_distinct(a: StateType, b: StateType)
    ensures
        spec_state_type_name(a) == spec_state_type_name(b) ==> a == b,
{
    reveal_strlit("ENTRY_PERMISSION");
    reveal_strlit("MEAL_NOTICE");
    reveal_strlit("SNACK_NOTICE");
    reveal_strlit("HELP_NOTICE");
    reveal_strlit("MAILBOX");
    if spec_state_type_name(a) == spec_state_type_name(b) {
        assert(spec_state_type_name(a).len() == spec_state_type_name(b).len());
        assert(spec_state_type_name(a)[0] == spec_state_type_name(b)[0]);
    }
}

/// Distinct state values have distinct wire names.
pub proof fn law_state_value_names_distinct(a: StateValue, b: StateValue)
    ensures
        spec_state_value_name(a) == spec_state_value_name(b) ==> a == b,
{
    reveal_strlit("UNSET");
    reveal_strlit("ON");
    reveal_strlit("OFF");
    reveal_strlit("OK");
    reveal_strlit("NG");
    reveal_strlit("MEETING");
    if spec_state_value_name(a) == spec_state_value_name(b) {
        assert(spec_state_value_name(a).len() == spec_state_value_name(b).len());
        assert(spec_state_value_name(a)[0] == spec_state_value_name(b)[0]);
        assert(spec_state_value_name(a)[1] == spec_state_value_name(b)[1]);
    }
}

} // verus!
