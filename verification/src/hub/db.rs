//! Records of the hub's persistent configuration and the schema migrations.

use vstd::prelude::*;

use crate::common::action::{
    spec_state_type_name, spec_state_value_name, spec_target_type_name, ActionId, StateType, StateValue,
    TargetType,
};
use crate::text::str_equal;

verus! {

#[derive(Debug, PartialEq, Eq)]
pub struct DeviceRecord {
    pub device_id: String,
    pub name: String,
    pub device_type: String,
    pub registered_at: String,
    pub updated_at: String,
    pub enabled: bool,
}

#[derive(Debug, PartialEq, Eq)]
pub struct FamilyRecord {
    pub family_id: u32,
    pub display_name: String,
    pub enabled: bool,
}

#[derive(Debug, PartialEq, Eq)]
pub struct ActionRecord {
    pub action_id: ActionId,
    pub action_name: String,
    pub target_type: TargetType,
    pub target_family_id: Option<u32>,
    pub web_message: Option<String>,
    pub enabled: bool,
}

#[derive(Clone, Copy, Debug, PartialEq, Eq, Structural)]
pub struct ActionStateChangeRecord {
    pub action_id: ActionId,
    pub state_type: StateType,
    pub state_value: StateValue,
}

#[derive(Debug, PartialEq, Eq)]
pub struct NotificationSettingRecord {
    pub action_id: ActionId,
    pub notification_enabled: bool,
    pub notification_message: Option<String>,
}

#[derive(Clone, Copy, Debug, PartialEq, Eq, Structural)]
pub struct NotificationTargetRecord {
    pub action_id: ActionId,
    pub family_id: u32,
}

#[derive(Debug, PartialEq, Eq)]
pub struct FamilyNotificationDestination {
    pub id: Option<i64>,
    pub family_id: u32,
    pub notification_type: String,
    pub destination: String,
    pub enabled: bool,
}

#[derive(Debug, PartialEq, Eq)]
pub struct EventRecord {
    pub id: Option<i64>,
    pub received_at: String,
    pub device_id: String,
    pub event_id: String,
    pub payload: String,
}

/// The schema of version 1.
pub const SCHEMA_V1: &'static str = "
CREATE TABLE devices (
    device_id TEXT PRIMARY KEY NOT NULL,
    name TEXT NOT NULL,
    device_type TEXT NOT NULL,
    registered_at TEXT NOT NULL,
    updated_at TEXT NOT NULL,
    enabled INTEGER NOT NULL DEFAULT 1 CHECK (enabled IN (0, 1))
);

CREATE TABLE families (
    family_id INTEGER PRIMARY KEY NOT NULL,
    display_name TEXT NOT NULL,
    enabled INTEGER NOT NULL DEFAULT 1 CHECK (enabled IN (0, 1))
);

CREATE TABLE actions (
    action_id INTEGER PRIMARY KEY NOT NULL,
    action_name TEXT NOT NULL,
    target_type TEXT NOT NULL CHECK (target_type IN ('FAMILY', 'COMMON')),
    target_family_id INTEGER,
    web_message TEXT,
    enabled INTEGER NOT NULL DEFAULT 1 CHECK (enabled IN (0, 1)),
    FOREIGN KEY (target_family_id) REFERENCES families (family_id),
    CHECK (
        (target_type = 'FAMILY' AND target_family_id IS NOT NULL)
        OR (target_type = 'COMMON' AND target_family_id IS NULL)
    )
);

CREATE TABLE action_state_changes (
    action_id INTEGER NOT NULL,
    state_type TEXT NOT NULL CHECK (length(state_type) > 0),
    state_value TEXT NOT NULL CHECK (length(state_value) > 0),
    PRIMARY KEY (action_id, state_type),
    FOREIGN KEY (action_id) REFERENCES actions (action_id) ON DELETE CASCADE
);

CREATE TABLE action_notification_settings (
    action_id INTEGER PRIMARY KEY NOT NULL,
    notification_enabled INTEGER NOT NULL DEFAULT 0 CHECK (notification_enabled IN (0, 1)),
    notification_message TEXT,
    FOREIGN KEY (action_id) REFERENCES actions (action_id) ON DELETE CASCADE
);

CREATE TABLE action_notification_targets (
    action_id INTEGER NOT NULL,
    family_id INTEGER NOT NULL,
    PRIMARY KEY (action_id, family_id),
    FOREIGN KEY (action_id) REFERENCES actions (action_id) ON DELETE CASCADE,
    FOREIGN KEY (family_id) REFERENCES families (family_id) ON DELETE CASCADE
);

CREATE TABLE family_notification_destinations (
    id INTEGER PRIMARY KEY AUTOINCREMENT,
    family_id INTEGER NOT NULL,
    notification_type TEXT NOT NULL,
    destination TEXT NOT NULL,
    enabled INTEGER NOT NULL DEFAULT 1 CHECK (enabled IN (0, 1)),
    FOREIGN KEY (family_id) REFERENCES families (family_id) ON DELETE CASCADE
);

CREATE TABLE events (
    id INTEGER PRIMARY KEY AUTOINCREMENT,
    received_at TEXT NOT NULL,
    device_id TEXT NOT NULL,
    event_id TEXT NOT NULL,
    payload TEXT NOT NULL,
    UNIQUE (device_id, event_id),
    FOREIGN KEY (device_id) REFERENCES devices (device_id)
);

CREATE INDEX idx_actions_target_family ON actions (target_family_id);
CREATE INDEX idx_action_notification_targets_family ON action_notification_targets (family_id);
CREATE INDEX idx_family_notification_destinations_family ON family_notification_destinations (family_id);
CREATE INDEX idx_events_received_at ON events (received_at);
";

/// The schema version that each migration brings the database to, in the
/// order in which they run.
pub open spec fn migration_versions() -> Seq<u32> {
    seq![1u32]
}

/// The migrations, each a schema version and the SQL that reaches it.
pub fn migrations() -> (r: Vec<(u32, &'static str)>)
    ensures
        r@.len() == migration_versions().len(),
        forall|i: int| 0 <= i < r@.len() ==> (#[trigger] r@[i]).0 == migration_versions()[i],
        r@[0].1@ == SCHEMA_V1@,
{
    let mut r: Vec<(u32, &'static str)> = Vec::new();
    r.push((1u32, SCHEMA_V1));
    r
}

/// The newest schema version that this hub knows.
pub open spec fn latest_version() -> u32 {
    migration_versions().last()
}

#[derive(Clone, Copy, Debug, PartialEq, Eq, Structural)]
pub enum MigrationError {
    /// The database was written by a newer hub.
    NewerSchema { current: u32, latest: u32 },
}

impl MigrationError {
    pub fn message(&self) -> (r: String)
        ensures
            r@ == match *self {
                MigrationError::NewerSchema { current, latest } => "database schema version "@
                    + crate::text::decimal(current as nat) + " is newer than supported version "@
                    + crate::text::decimal(latest as nat),
            },
    {
        match self {
            MigrationError::NewerSchema { current, latest } => {
                let mut out = String::new();
                out.append("database schema version ");
                out.append(crate::text::decimal_string(*current as u64).as_str());
                out.append(" is newer than supported version ");
                out.append(crate::text::decimal_string(*latest as u64).as_str());
                out
            },
        }
    }
}

/// The versions in `s` newer than `current`, in order.
pub open spec fn newer_than(s: Seq<u32>, current: u32) -> Seq<u32>
    decreases s.len(),
{
    if s.len() == 0 {
        s
    } else if s.last() > current {
        newer_than(s.drop_last(), current).push(s.last())
    } else {
        newer_than(s.drop_last(), current)
    }
}

/// The migrations that bring a database at schema version `current` up to
/// date, in the order in which they run: those with a newer version. A
/// database newer than every migration is refused.
pub fn pending_migrations(current: u32) -> (r: Result<Vec<(u32, &'static str)>, MigrationError>)
    ensures
        current > latest_version() ==> r == Err::<Vec<(u32, &'static str)>, MigrationError>(
            MigrationError::NewerSchema { current, latest: latest_version() },
        ),
        current <= latest_version() ==> (r matches Ok(p) && p@.map_values(
            |m: (u32, &'static str)| m.0,
        ) == newer_than(migration_versions(), current)),
{
    let all = migrations();
    let latest = all[all.len() - 1].0;
    if current > latest {
        return Err(MigrationError::NewerSchema { current, latest });
    }
    let mut pending: Vec<(u32, &'static str)> = Vec::new();
    let mut i: usize = 0;
    while i < all.len()
        invariant
            i <= all@.len(),
            all@.len() == migration_versions().len(),
            forall|k: int| 0 <= k < all@.len() ==> (#[trigger] all@[k]).0 == migration_versions()[k],
            pending@.map_values(|m: (u32, &'static str)| m.0) == newer_than(
                migration_versions().subrange(0, i as int),
                current,
            ),
        decreases all@.len() - i,
    {
        let ghost before = pending@;
        let ghost s = migration_versions();
        proof {
            assert(s.subrange(0, i as int + 1).drop_last() =~= s.subrange(0, i as int));
        }
        if all[i].0 > current {
            pending.push(all[i]);
            proof {
                assert(pending@.map_values(|m: (u32, &'static str)| m.0) =~= before.map_values(
                    |m: (u32, &'static str)| m.0,
                ).push(all@[i as int].0));
            }
        }
        i = i + 1;
    }
    proof {
        assert(migration_versions().subrange(0, all@.len() as int) =~= migration_versions());
    }
    Ok(pending)
}

/// A stored text that names no value of its column's type.
#[derive(Debug, PartialEq, Eq)]
pub struct InvalidStoredValue {
    pub field: &'static str,
    pub value: String,
}

impl InvalidStoredValue {
    pub fn message(&self) -> (r: String)
        ensures
            r@ == "invalid stored "@ + self.field@ + " value: "@ + self.value@,
    {
        let mut out = String::new();
        out.append("invalid stored ");
        out.append(self.field);
        out.append(" value: ");
        out.append(self.value.as_str());
        out
    }
}

/// The target type a stored `target_type` names.
pub fn target_type_from_str(value: String) -> (r: Result<TargetType, InvalidStoredValue>)
    ensures
        match r {
            Ok(t) => spec_target_type_name(t) == value@,
            Err(e) => e.field@ == "target_type"@ && e.value@ == value@ && forall|t: TargetType|
                spec_target_type_name(t) != value@,
        },
{
    if str_equal(value.as_str(), "FAMILY") {
        Ok(TargetType::Family)
    } else if str_equal(value.as_str(), "COMMON") {
        Ok(TargetType::Common)
    } else {
        proof {
            assert forall|t: TargetType| spec_target_type_name(t) != value@ by {
                match t {
                    TargetType::Family => {},
                    TargetType::Common => {},
                }
            }
        }
        Err(InvalidStoredValue { field: "target_type", value })
    }
}

/// The state type a stored `state_type` names.
pub fn state_type_from_str(value: String) -> (r: Result<StateType, InvalidStoredValue>)
    ensures
        match r {
            Ok(t) => spec_state_type_name(t) == value@,
            Err(e) => e.field@ == "state_type"@ && e.value@ == value@ && forall|t: StateType|
                spec_state_type_name(t) != value@,
        },
{
    let v = value.as_str();
    if str_equal(v, "ENTRY_PERMISSION") {
        Ok(StateType::EntryPermission)
    } else if str_equal(v, "MEAL_NOTICE") {
        Ok(StateType::MealNotice)
    } else if str_equal(v, "SNACK_NOTICE") {
        Ok(StateType::SnackNotice)
    } else if str_equal(v, "HELP_NOTICE") {
        Ok(StateType::HelpNotice)
    } else if str_equal(v, "MAILBOX") {
        Ok(StateType::Mailbox)
    } else {
        proof {
            assert forall|t: StateType| spec_state_type_name(t) != value@ by {
                match t {
                    StateType::EntryPermission => {},
                    StateType::MealNotice => {},
                    StateType::SnackNotice => {},
                    StateType::HelpNotice => {},
                    StateType::Mailbox => {},
                }
            }
        }
        Err(InvalidStoredValue { field: "state_type", value })
    }
}

/// The state value a stored `state_value` names.
pub fn state_value_from_str(value: String) -> (r: Result<StateValue, InvalidStoredValue>)
    ensures
        match r {
            Ok(t) => spec_state_value_name(t) == value@,
            Err(e) => e.field@ == "state_value"@ && e.value@ == value@ && forall|t: StateValue|
                spec_state_value_name(t) != value@,
        },
{
    let v = value.as_str();
    if str_equal(v, "UNSET") {
        Ok(StateValue::Unset)
    } else if str_equal(v, "ON") {
        Ok(StateValue::On)
    } else if str_equal(v, "OFF") {
        Ok(StateValue::Off)
    } else if str_equal(v, "OK") {
        Ok(StateValue::OK)
    } else if str_equal(v, "NG") {
        Ok(StateValue::Ng)
    } else if str_equal(v, "MEETING") {
        Ok(StateValue::Meeting)
    } else {
        proof {
            assert forall|t: StateValue| spec_state_value_name(t) != value@ by {
                match t {
                    StateValue::Unset => {},
                    StateValue::On => {},
                    StateValue::Off => {},
                    StateValue::OK => {},
                    StateValue::Ng => {},
                    StateValue::Meeting => {},
                }
            }
        }
        Err(InvalidStoredValue { field: "state_value", value })
    }
}

} // verus!
