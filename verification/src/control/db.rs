//! Records of the hub database as the desktop tools edit them, and the
//! checks a record passes before it is written.

use vstd::prelude::*;

use crate::text::{blank, is_blank};

verus! {

#[derive(Debug, Default, PartialEq, Eq)]
pub struct DeviceRecord {
    pub device_id: String,
    pub name: String,
    pub device_type: String,
    pub enabled: bool,
}

#[derive(Debug, Default, PartialEq, Eq)]
pub struct FamilyRecord {
    pub family_id: u32,
    pub display_name: String,
    pub enabled: bool,
}

#[derive(Debug, Default, PartialEq, Eq)]
pub struct StateChangeRecord {
    pub state_type: String,
    pub state_value: String,
}

#[derive(Debug, Default, PartialEq, Eq)]
pub struct ActionRecord {
    pub action_id: u32,
    pub action_name: String,
    pub target_type: String,
    pub target_family_id: Option<u32>,
    pub web_message: String,
    pub enabled: bool,
    pub state_changes: Vec<StateChangeRecord>,
    pub notification_enabled: bool,
    pub notification_message: String,
    pub notification_targets: Vec<u32>,
}

#[derive(Clone, Debug, Default, PartialEq, Eq)]
pub struct EventRecord {
    pub id: i64,
    pub received_at: String,
    pub device_id: String,
    pub event_id: String,
}

#[derive(Debug, Default, PartialEq, Eq)]
pub struct NotificationDestinationRecord {
    pub id: Option<i64>,
    pub family_id: u32,
    pub notification_type: String,
    pub destination: String,
    pub enabled: bool,
}

/// Whether two device records hold the same values.
pub open spec fn same_device(a: DeviceRecord, b: DeviceRecord) -> bool {
    &&& a.device_id@ == b.device_id@
    &&& a.name@ == b.name@
    &&& a.device_type@ == b.device_type@
    &&& a.enabled == b.enabled
}

/// Whether two family records hold the same values.
pub open spec fn same_family(a: FamilyRecord, b: FamilyRecord) -> bool {
    &&& a.family_id == b.family_id
    &&& a.display_name@ == b.display_name@
    &&& a.enabled == b.enabled
}

/// Whether two state changes hold the same values.
pub open spec fn same_state_change(a: StateChangeRecord, b: StateChangeRecord) -> bool {
    a.state_type@ == b.state_type@ && a.state_value@ == b.state_value@
}

/// Whether two action records hold the same values.
pub open spec fn same_action(a: ActionRecord, b: ActionRecord) -> bool {
    &&& a.action_id == b.action_id
    &&& a.action_name@ == b.action_name@
    &&& a.target_type@ == b.target_type@
    &&& a.target_family_id == b.target_family_id
    &&& a.web_message@ == b.web_message@
    &&& a.enabled == b.enabled
    &&& a.state_changes@.len() == b.state_changes@.len()
    &&& forall|i: int|
        0 <= i < a.state_changes@.len() ==> same_state_change(
            #[trigger] a.state_changes@[i],
            b.state_changes@[i],
        )
    &&& a.notification_enabled == b.notification_enabled
    &&& a.notification_message@ == b.notification_message@
    &&& a.notification_targets@ == b.notification_targets@
}

/// Whether two destination records hold the same values.
pub open spec fn same_destination(a: NotificationDestinationRecord, b: NotificationDestinationRecord) -> bool {
    &&& a.id == b.id
    &&& a.family_id == b.family_id
    &&& a.notification_type@ == b.notification_type@
    &&& a.destination@ == b.destination@
    &&& a.enabled == b.enabled
}

impl Clone for DeviceRecord {
    fn clone(&self) -> (r: Self)
        ensures
            same_device(r, *self),
    {
        DeviceRecord {
            device_id: self.device_id.clone(),
            name: self.name.clone(),
            device_type: self.device_type.clone(),
            enabled: self.enabled,
        }
    }
}

impl Clone for FamilyRecord {
    fn clone(&self) -> (r: Self)
        ensures
            same_family(r, *self),
    {
        FamilyRecord { family_id: self.family_id, display_name: self.display_name.clone(), enabled: self.enabled }
    }
}

impl Clone for StateChangeRecord {
    fn clone(&self) -> (r: Self)
        ensures
            same_state_change(r, *self),
    {
        StateChangeRecord { state_type: self.state_type.clone(), state_value: self.state_value.clone() }
    }
}

impl Clone for ActionRecord {
    fn clone(&self) -> (r: Self)
        ensures
            same_action(r, *self),
    {
        let mut state_changes: Vec<StateChangeRecord> = Vec::new();
        let mut i: usize = 0;
        while i < self.state_changes.len()
            invariant
                i <= self.state_changes@.len(),
                state_changes@.len() == i,
                forall|k: int| 0 <= k < i ==> same_state_change(#[trigger] state_changes@[k], self.state_changes@[k]),
            decreases self.state_changes@.len() - i,
        {
            state_changes.push(self.state_changes[i].clone());
            i = i + 1;
        }
        let mut notification_targets: Vec<u32> = Vec::new();
        let mut j: usize = 0;
        while j < self.notification_targets.len()
            invariant
                j <= self.notification_targets@.len(),
                notification_targets@ == self.notification_targets@.subrange(0, j as int),
            decreases self.notification_targets@.len() - j,
        {
            notification_targets.push(self.notification_targets[j]);
            proof {
                assert(notification_targets@ =~= self.notification_targets@.subrange(0, j as int + 1));
            }
            j = j + 1;
        }
        proof {
            assert(notification_targets@ =~= self.notification_targets@);
        }
        ActionRecord {
            action_id: self.action_id,
            action_name: self.action_name.clone(),
            target_type: self.target_type.clone(),
            target_family_id: self.target_family_id,
            web_message: self.web_message.clone(),
            enabled: self.enabled,
            state_changes,
            notification_enabled: self.notification_enabled,
            notification_message: self.notification_message.clone(),
            notification_targets,
        }
    }
}

impl Clone for NotificationDestinationRecord {
    fn clone(&self) -> (r: Self)
        ensures
            same_destination(r, *self),
    {
        NotificationDestinationRecord {
            id: self.id,
            family_id: self.family_id,
            notification_type: self.notification_type.clone(),
            destination: self.destination.clone(),
            enabled: self.enabled,
        }
    }
}

/// The integer SQLite stores for a flag.
pub fn bool_int(value: bool) -> (r: i64)
    ensures
        r == if value { 1i64 } else { 0i64 },
{
    if value {
        1
    } else {
        0
    }
}

/// `None` for an empty text, which is stored as NULL.
pub fn null_if_empty(value: &str) -> (r: Option<&str>)
    ensures
        match r {
            Some(s) => s@ == value@ && value@.len() > 0,
            None => value@.len() == 0,
        },
{
    if value.as_bytes().len() == 0 {
        proof {
            crate::common::types::lemma_utf8_len_zero_iff(value@);
        }
        None
    } else {
        proof {
            crate::common::types::lemma_utf8_len_zero_iff(value@);
        }
        Some(value)
    }
}

/// "{label}を入力してください".
pub open spec fn required_message(label: Seq<char>) -> Seq<char> {
    label + "を入力してください"@
}

/// A required text must hold more than whitespace.
pub fn validate_required(label: &str, value: &str) -> (r: Result<(), String>)
    ensures
        is_blank(value@) ==> (r matches Err(m) && m@ == required_message(label@)),
        !is_blank(value@) ==> r is Ok,
{
    if blank(value) {
        let mut m = String::new();
        m.append(label);
        m.append("を入力してください");
        Err(m)
    } else {
        Ok(())
    }
}

/// The problem that stops a device from being saved, if any.
pub open spec fn device_problem(d: DeviceRecord) -> Option<Seq<char>> {
    if is_blank(d.device_id@) {
        Some(required_message("子機ID"@))
    } else if is_blank(d.name@) {
        Some(required_message("子機名"@))
    } else if is_blank(d.device_type@) {
        Some(required_message("子機種別"@))
    } else {
        None
    }
}

pub fn validate_device(device: &DeviceRecord) -> (r: Result<(), String>)
    ensures
        match device_problem(*device) {
            Some(p) => r matches Err(m) && m@ == p,
            None => r is Ok,
        },
{
    validate_required("子機ID", device.device_id.as_str())?;
    validate_required("子機名", device.name.as_str())?;
    validate_required("子機種別", device.device_type.as_str())
}

pub open spec fn family_problem(f: FamilyRecord) -> Option<Seq<char>> {
    if f.family_id == 0 {
        Some("家族IDは1以上で入力してください"@)
    } else if is_blank(f.display_name@) {
        Some(required_message("家族表示名"@))
    } else {
        None
    }
}

pub fn validate_family(family: &FamilyRecord) -> (r: Result<(), String>)
    ensures
        match family_problem(*family) {
            Some(p) => r matches Err(m) && m@ == p,
            None => r is Ok,
        },
{
    if family.family_id == 0 {
        return Err("家族IDは1以上で入力してください".to_owned());
    }
    validate_required("家族表示名", family.display_name.as_str())
}

/// The problem that stops an action from being saved, if any: its ID, its
/// name, or a target that does not fit its target type.
pub open spec fn action_problem(a: ActionRecord) -> Option<Seq<char>> {
    if a.action_id == 0 {
        Some("Action IDは1以上で入力してください"@)
    } else if is_blank(a.action_name@) {
        Some(required_message("Action名"@))
    } else if a.target_type@ == "FAMILY"@ && a.target_family_id is None {
        Some("家族対象Actionには対象家族を指定してください"@)
    } else if a.target_type@ == "COMMON"@ && a.target_family_id is Some {
        Some("共通Actionには対象家族を指定できません"@)
    } else if !(a.target_type@ == "FAMILY"@ || a.target_type@ == "COMMON"@) {
        Some("対象種別が不正です"@)
    } else {
        None
    }
}

pub fn validate_action(action: &ActionRecord) -> (r: Result<(), String>)
    ensures
        match action_problem(*action) {
            Some(p) => r matches Err(m) && m@ == p,
            None => r is Ok,
        },
{
    if action.action_id == 0 {
        return Err("Action IDは1以上で入力してください".to_owned());
    }
    validate_required("Action名", action.action_name.as_str())?;
    let t = action.target_type.as_str();
    let family = crate::text::str_equal(t, "FAMILY");
    let common = crate::text::str_equal(t, "COMMON");
    if family && action.target_family_id.is_none() {
        return Err("家族対象Actionには対象家族を指定してください".to_owned());
    }
    if common && action.target_family_id.is_some() {
        return Err("共通Actionには対象家族を指定できません".to_owned());
    }
    if !(family || common) {
        return Err("対象種別が不正です".to_owned());
    }
    Ok(())
}

/// Whether every state change names both its state and its value.
pub open spec fn state_changes_complete(changes: Seq<StateChangeRecord>) -> bool {
    forall|i: int|
        0 <= i < changes.len() ==> (#[trigger] changes[i]).state_type@.len() > 0
            && changes[i].state_value@.len() > 0
}

/// The index of the first state change with an empty state or value.
pub fn first_incomplete_state_change(changes: &[StateChangeRecord]) -> (r: Option<usize>)
    ensures
        match r {
            Some(i) => i < changes@.len() && (changes@[i as int].state_type@.len() == 0
                || changes@[i as int].state_value@.len() == 0) && state_changes_complete(
                changes@.subrange(0, i as int),
            ),
            None => state_changes_complete(changes@),
        },
{
    let mut i: usize = 0;
    while i < changes.len()
        invariant
            i <= changes@.len(),
            state_changes_complete(changes@.subrange(0, i as int)),
        decreases changes@.len() - i,
    {
        let c = &changes[i];
        proof {
            crate::common::types::lemma_utf8_len_zero_iff(c.state_type@);
            crate::common::types::lemma_utf8_len_zero_iff(c.state_value@);
        }
        if c.state_type.as_str().as_bytes().len() == 0 || c.state_value.as_str().as_bytes().len()
            == 0 {
            return Some(i);
        }
        proof {
            assert forall|k: int| 0 <= k < i + 1 implies (#[trigger] changes@.subrange(0, i as int + 1)[k]).state_type@.len() > 0
                && changes@.subrange(0, i as int + 1)[k].state_value@.len() > 0 by {
                if k < i {
                    assert(changes@.subrange(0, i as int + 1)[k] == changes@.subrange(0, i as int)[k]);
                }
            }
        }
        i = i + 1;
    }
    proof {
        assert(changes@.subrange(0, changes@.len() as int) =~= changes@);
    }
    None
}

/// Whether an action keeps a notification setting row: notifications are on
/// or a message is set.
pub fn keeps_notification_setting(action: &ActionRecord) -> (r: bool)
    ensures
        r == (action.notification_enabled || action.notification_message@.len() > 0),
{
    proof {
        crate::common::types::lemma_utf8_len_zero_iff(action.notification_message@);
    }
    action.notification_enabled || action.notification_message.as_str().as_bytes().len() > 0
}

pub open spec fn destination_problem(d: NotificationDestinationRecord) -> Option<Seq<char>> {
    if d.family_id == 0 {
        Some("通知先の家族を選択してください"@)
    } else if is_blank(d.notification_type@) {
        Some(required_message("通知種別"@))
    } else if is_blank(d.destination@) {
        Some(required_message("通知先"@))
    } else {
        None
    }
}

pub fn validate_destination(destination: &NotificationDestinationRecord) -> (r: Result<(), String>)
    ensures
        match destination_problem(*destination) {
            Some(p) => r matches Err(m) && m@ == p,
            None => r is Ok,
        },
{
    if destination.family_id == 0 {
        return Err("通知先の家族を選択してください".to_owned());
    }
    validate_required("通知種別", destination.notification_type.as_str())?;
    validate_required("通知先", destination.destination.as_str())
}

} // verus!
