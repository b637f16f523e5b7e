//! The sections of the settings tool and the checks on the record being
//! edited.

use vstd::prelude::*;

use crate::control::db::{
    same_action, same_destination, same_device, same_family, ActionRecord, DeviceRecord, EventRecord,
    FamilyRecord, NotificationDestinationRecord,
};
use crate::text::{blank, decimal, decimal_string, is_blank, str_equal};

verus! {

#[derive(Clone, Copy, Debug, PartialEq, Eq, Structural)]
pub enum Section {
    Families,
    Devices,
    Actions,
    Destinations,
    Events,
}

impl Section {
    pub fn label(self) -> (r: &'static str)
        ensures
            r@ == match self {
                Section::Families => "家族"@,
                Section::Devices => "子機"@,
                Section::Actions => "ボタンの動作"@,
                Section::Destinations => "通知の届け先"@,
                Section::Events => "受信履歴"@,
            },
    {
        match self {
            Section::Families => "家族",
            Section::Devices => "子機",
            Section::Actions => "ボタンの動作",
            Section::Destinations => "通知の届け先",
            Section::Events => "受信履歴",
        }
    }

    pub fn hint(self) -> (r: &'static str)
        ensures
            r@ == match self {
                Section::Families => "一緒に使う人の名前を登録します。"@,
                Section::Devices => "ボタンやセンサーの名前と識別番号を登録します。"@,
                Section::Actions => "ボタンを押したときに、誰に何を知らせるかを設定します。"@,
                Section::Destinations => "家族ごとに、LINEなどの送信先を登録します。"@,
                Section::Events => "子機から受け取ったイベントを、新しい順に確認できます。"@,
            },
    {
        match self {
            Section::Families => "一緒に使う人の名前を登録します。",
            Section::Devices => "ボタンやセンサーの名前と識別番号を登録します。",
            Section::Actions => "ボタンを押したときに、誰に何を知らせるかを設定します。",
            Section::Destinations => "家族ごとに、LINEなどの送信先を登録します。",
            Section::Events => "子機から受け取ったイベントを、新しい順に確認できます。",
        }
    }
}

/// The record being edited.
#[derive(Clone, Debug, PartialEq, Eq)]
pub enum Draft {
    Device(DeviceRecord),
    Family(FamilyRecord),
    Action(ActionRecord),
    Destination(NotificationDestinationRecord),
}

impl Draft {
    /// The name shown for the record.
    pub fn name(&self) -> (r: &str)
        ensures
            r@ == match self {
                Draft::Device(v) => v.name@,
                Draft::Family(v) => v.display_name@,
                Draft::Action(v) => v.action_name@,
                Draft::Destination(v) => v.notification_type@,
            },
    {
        match self {
            Draft::Device(v) => v.name.as_str(),
            Draft::Family(v) => v.display_name.as_str(),
            Draft::Action(v) => v.action_name.as_str(),
            Draft::Destination(v) => v.notification_type.as_str(),
        }
    }
}

/// What the settings tool has loaded from the database.
#[derive(Debug, Default)]
pub struct Data {
    pub devices: Vec<DeviceRecord>,
    pub families: Vec<FamilyRecord>,
    pub actions: Vec<ActionRecord>,
    pub destinations: Vec<NotificationDestinationRecord>,
    pub events: Vec<EventRecord>,
}

/// The label of an enabled flag.
pub fn enabled(value: bool) -> (r: &'static str)
    ensures
        r@ == if value { "利用中"@ } else { "無効"@ },
{
    if value {
        "利用中"
    } else {
        "無効"
    }
}

/// Whether `r` is the smallest positive identifier not in `ids`, or 0 when
/// every one is used.
pub open spec fn is_next_id(ids: Seq<u32>, r: u32) -> bool {
    &&& r != 0 ==> !ids.contains(r) && forall|k: u32| 1 <= k < r ==> ids.contains(k)
    &&& r == 0 ==> forall|k: u32| 1 <= k ==> ids.contains(k)
}

/// The smallest positive identifier not in `ids`; 0 when every one is used.
pub fn next_id(ids: &[u32]) -> (r: u32)
    ensures
        is_next_id(ids@, r),
{
    let mut candidate: u32 = 1;
    while contains(ids, candidate) && candidate < u32::MAX
        invariant
            1 <= candidate,
            forall|k: u32| 1 <= k < candidate ==> ids@.contains(k),
        decreases u32::MAX - candidate,
    {
        candidate = candidate + 1;
    }
    if contains(ids, candidate) {
        0
    } else {
        candidate
    }
}

fn contains(ids: &[u32], id: u32) -> (r: bool)
    ensures
        r == ids@.contains(id),
{
    let mut i: usize = 0;
    while i < ids.len()
        invariant
            i <= ids@.len(),
            forall|k: int| 0 <= k < i ==> ids@[k] != id,
        decreases ids@.len() - i,
    {
        if ids[i] == id {
            assert(ids@[i as int] == id);
            return true;
        }
        i = i + 1;
    }
    false
}

/// The name of the family `id`, or a placeholder naming the unknown ID.
pub open spec fn spec_family_name(families: Seq<FamilyRecord>, id: u32) -> Seq<char>
    decreases families.len(),
{
    if families.len() == 0 {
        "未登録の家族（"@ + decimal(id as nat) + "）"@
    } else if families[0].family_id == id {
        families[0].display_name@
    } else {
        spec_family_name(families.drop_first(), id)
    }
}

pub fn family_name(families: &[FamilyRecord], id: u32) -> (r: String)
    ensures
        r@ == spec_family_name(families@, id),
{
    let mut i: usize = 0;
    proof {
        assert(families@.subrange(0, families@.len() as int) =~= families@);
    }
    while i < families.len()
        invariant
            i <= families@.len(),
            spec_family_name(families@, id) == spec_family_name(
                families@.subrange(i as int, families@.len() as int),
                id,
            ),
        decreases families@.len() - i,
    {
        proof {
            let rest = families@.subrange(i as int, families@.len() as int);
            assert(rest.drop_first() =~= families@.subrange(i as int + 1, families@.len() as int));
            assert(rest[0] == families@[i as int]);
        }
        if families[i].family_id == id {
            return families[i].display_name.clone();
        }
        i = i + 1;
    }
    let mut m = String::new();
    m.append("未登録の家族（");
    let d = decimal_string(id as u64);
    m.append(d.as_str());
    m.append("）");
    m
}

pub open spec fn device_known(devices: Seq<DeviceRecord>, id: Seq<char>) -> bool {
    exists|i: int| 0 <= i < devices.len() && #[trigger] devices[i].device_id@ == id
}

pub open spec fn family_known(families: Seq<FamilyRecord>, id: u32) -> bool {
    exists|i: int| 0 <= i < families.len() && #[trigger] families[i].family_id == id
}

pub open spec fn action_known(actions: Seq<ActionRecord>, id: u32) -> bool {
    exists|i: int| 0 <= i < actions.len() && #[trigger] actions[i].action_id == id
}

/// The issue that keeps the draft from being saved, if any. A new record
/// must not reuse an identifier; an action for a family and a destination
/// must name a registered family.
pub open spec fn draft_issue(draft: Draft, creating: bool, data: Data) -> Option<Seq<char>> {
    match draft {
        Draft::Device(v) => if is_blank(v.name@) {
            Some("子機の名前を入力してください。"@)
        } else if is_blank(v.device_id@) {
            Some("子機に設定した識別番号を入力してください。"@)
        } else if is_blank(v.device_type@) {
            Some("子機の種類を入力してください。"@)
        } else if creating && device_known(data.devices@, v.device_id@) {
            Some("この識別番号は登録済みです。一覧から選んで編集してください。"@)
        } else {
            None
        },
        Draft::Family(v) => if is_blank(v.display_name@) {
            Some("家族の名前を入力してください。"@)
        } else if creating && family_known(data.families@, v.family_id) {
            Some("この管理番号は登録済みです。別の番号を指定してください。"@)
        } else {
            None
        },
        Draft::Action(v) => if is_blank(v.action_name@) {
            Some("動作の名前を入力してください。"@)
        } else if creating && action_known(data.actions@, v.action_id) {
            Some("この動作番号は登録済みです。一覧から選んで編集してください。"@)
        } else if v.target_type@ == "FAMILY"@ && !(v.target_family_id matches Some(f)
            && family_known(data.families@, f)) {
            Some("対象の家族を選んでください。家族が未登録の場合は、先に登録してください。"@)
        } else {
            None
        },
        Draft::Destination(v) => if !family_known(data.families@, v.family_id) {
            Some("通知を受け取る家族を選んでください。"@)
        } else if is_blank(v.destination@) {
            Some("送信先ID・アドレスを入力してください。"@)
        } else {
            None
        },
    }
}

fn has_device(devices: &[DeviceRecord], id: &str) -> (r: bool)
    ensures
        r == device_known(devices@, id@),
{
    let mut i: usize = 0;
    while i < devices.len()
        invariant
            i <= devices@.len(),
            forall|k: int| 0 <= k < i ==> devices@[k].device_id@ != id@,
        decreases devices@.len() - i,
    {
        if str_equal(devices[i].device_id.as_str(), id) {
            return true;
        }
        i = i + 1;
    }
    false
}

fn has_family(families: &[FamilyRecord], id: u32) -> (r: bool)
    ensures
        r == family_known(families@, id),
{
    let mut i: usize = 0;
    while i < families.len()
        invariant
            i <= families@.len(),
            forall|k: int| 0 <= k < i ==> families@[k].family_id != id,
        decreases families@.len() - i,
    {
        if families[i].family_id == id {
            return true;
        }
        i = i + 1;
    }
    false
}

fn has_action(actions: &[ActionRecord], id: u32) -> (r: bool)
    ensures
        r == action_known(actions@, id),
{
    let mut i: usize = 0;
    while i < actions.len()
        invariant
            i <= actions@.len(),
            forall|k: int| 0 <= k < i ==> actions@[k].action_id != id,
        decreases actions@.len() - i,
    {
        if actions[i].action_id == id {
            return true;
        }
        i = i + 1;
    }
    false
}

/// A draft can be saved exactly when: a device has a name, an identifier
/// and a type and, if new, an identifier not yet registered; a family has a
/// name and, if new, an unused number; an action has a name, if new an unused
/// number, and, when it is for a family, names a registered family; a
/// destination names a registered family and has an address.
pub proof fn law_draft_saveable_exactly_when_valid(draft: Draft, creating: bool, data: Data)
    ensures
        draft_issue(draft, creating, data) is None <==> match draft {
            Draft::Device(v) => !is_blank(v.name@) && !is_blank(v.device_id@) && !is_blank(
                v.device_type@,
            ) && !(creating && device_known(data.devices@, v.device_id@)),
            Draft::Family(v) => !is_blank(v.display_name@) && !(creating && family_known(
                data.families@,
                v.family_id,
            )),
            Draft::Action(v) => !is_blank(v.action_name@) && !(creating && action_known(
                data.actions@,
                v.action_id,
            )) && (v.target_type@ == "FAMILY"@ ==> (v.target_family_id matches Some(f)
                && family_known(data.families@, f))),
            Draft::Destination(v) => family_known(data.families@, v.family_id) && !is_blank(
                v.destination@,
            ),
        },
{
}

/// The issue that keeps the draft being edited from being saved, if any.
pub fn validation(draft: Option<&Draft>, creating: bool, data: &Data) -> (r: Option<String>)
    ensures
        match draft {
            None => r is None,
            Some(d) => match draft_issue(*d, creating, *data) {
                Some(m) => r matches Some(s) && s@ == m,
                None => r is None,
            },
        },
{
    let draft = match draft {
        None => {
            return None;
        },
        Some(d) => d,
    };
    let issue: Option<&str> = match draft {
        Draft::Device(v) => if blank(v.name.as_str()) {
            Some("子機の名前を入力してください。")
        } else if blank(v.device_id.as_str()) {
            Some("子機に設定した識別番号を入力してください。")
        } else if blank(v.device_type.as_str()) {
            Some("子機の種類を入力してください。")
        } else if creating && has_device(data.devices.as_slice(), v.device_id.as_str()) {
            Some("この識別番号は登録済みです。一覧から選んで編集してください。")
        } else {
            None
        },
        Draft::Family(v) => if blank(v.display_name.as_str()) {
            Some("家族の名前を入力してください。")
        } else if creating && has_family(data.families.as_slice(), v.family_id) {
            Some("この管理番号は登録済みです。別の番号を指定してください。")
        } else {
            None
        },
        Draft::Action(v) => if blank(v.action_name.as_str()) {
            Some("動作の名前を入力してください。")
        } else if creating && has_action(data.actions.as_slice(), v.action_id) {
            Some("この動作番号は登録済みです。一覧から選んで編集してください。")
        } else if str_equal(v.target_type.as_str(), "FAMILY") && !(match v.target_family_id {
            Some(f) => has_family(data.families.as_slice(), f),
            None => false,
        }) {
            Some("対象の家族を選んでください。家族が未登録の場合は、先に登録してください。")
        } else {
            None
        },
        Draft::Destination(v) => if !has_family(data.families.as_slice(), v.family_id) {
            Some("通知を受け取る家族を選んでください。")
        } else if blank(v.destination.as_str()) {
            Some("送信先ID・アドレスを入力してください。")
        } else {
            None
        },
    };
    match issue {
        Some(s) => Some(s.to_owned()),
        None => None,
    }
}


/// The subtitle of a listed record: its detail, a separator and its flag.
pub open spec fn subtitle(detail: Seq<char>, on: bool) -> Seq<char> {
    detail + " · "@ + (if on {
        "利用中"@
    } else {
        "無効"@
    })
}

/// Whether `row` lists `v` of the Families section.
pub open spec fn lists_family(row: (String, String, Draft), v: FamilyRecord) -> bool {
    &&& row.0@ == v.display_name@
    &&& row.1@ == (if v.enabled {
        "利用中"@
    } else {
        "無効"@
    })
    &&& row.2 matches Draft::Family(x) && same_family(x, v)
}

/// Whether `row` lists `v` of the Devices section.
pub open spec fn lists_device(row: (String, String, Draft), v: DeviceRecord) -> bool {
    &&& row.0@ == v.name@
    &&& row.1@ == subtitle(v.device_id@, v.enabled)
    &&& row.2 matches Draft::Device(x) && same_device(x, v)
}

/// Whether `row` lists `v` of the Actions section.
pub open spec fn lists_action(row: (String, String, Draft), v: ActionRecord) -> bool {
    &&& row.0@ == v.action_name@
    &&& row.1@ == subtitle("動作番号 "@ + decimal(v.action_id as nat), v.enabled)
    &&& row.2 matches Draft::Action(x) && same_action(x, v)
}

/// Whether `row` lists `v` of the Destinations section.
pub open spec fn lists_destination(
    row: (String, String, Draft),
    v: NotificationDestinationRecord,
    families: Seq<FamilyRecord>,
) -> bool {
    &&& row.0@ == spec_family_name(families, v.family_id)
    &&& row.1@ == subtitle(v.notification_type@, v.enabled)
    &&& row.2 matches Draft::Destination(x) && same_destination(x, v)
}

fn with_flag(detail: &str, on: bool) -> (r: String)
    ensures
        r@ == subtitle(detail@, on),
{
    let mut out = String::new();
    out.append(detail);
    out.append(" · ");
    out.append(enabled(on));
    out
}

/// The list of a section: a title, a subtitle and the record to edit for
/// each entry. The event history is shown elsewhere and lists nothing here.
pub fn rows(section: Section, data: &Data) -> (r: Vec<(String, String, Draft)>)
    ensures
        section == Section::Events ==> r@.len() == 0,
        section == Section::Families ==> r@.len() == data.families@.len() && forall|i: int|
            0 <= i < r@.len() ==> lists_family(#[trigger] r@[i], data.families@[i]),
        section == Section::Devices ==> r@.len() == data.devices@.len() && forall|i: int|
            0 <= i < r@.len() ==> lists_device(#[trigger] r@[i], data.devices@[i]),
        section == Section::Actions ==> r@.len() == data.actions@.len() && forall|i: int|
            0 <= i < r@.len() ==> lists_action(#[trigger] r@[i], data.actions@[i]),
        section == Section::Destinations ==> r@.len() == data.destinations@.len() && forall|i: int|
            0 <= i < r@.len() ==> lists_destination(
                #[trigger] r@[i],
                data.destinations@[i],
                data.families@,
            ),
{
    let mut r: Vec<(String, String, Draft)> = Vec::new();
    match section {
        Section::Families => {
            let mut i: usize = 0;
            while i < data.families.len()
                invariant
                    i <= data.families@.len(),
                    r@.len() == i,
                    forall|k: int| 0 <= k < i ==> lists_family(#[trigger] r@[k], data.families@[k]),
                decreases data.families@.len() - i,
            {
                let v = &data.families[i];
                let mut flag = String::new();
                flag.append(enabled(v.enabled));
                r.push((v.display_name.clone(), flag, Draft::Family(v.clone())));
                i = i + 1;
            }
        },
        Section::Devices => {
            let mut i: usize = 0;
            while i < data.devices.len()
                invariant
                    i <= data.devices@.len(),
                    r@.len() == i,
                    forall|k: int| 0 <= k < i ==> lists_device(#[trigger] r@[k], data.devices@[k]),
                decreases data.devices@.len() - i,
            {
                let v = &data.devices[i];
                r.push((v.name.clone(), with_flag(v.device_id.as_str(), v.enabled), Draft::Device(v.clone())));
                i = i + 1;
            }
        },
        Section::Actions => {
            let mut i: usize = 0;
            while i < data.actions.len()
                invariant
                    i <= data.actions@.len(),
                    r@.len() == i,
                    forall|k: int| 0 <= k < i ==> lists_action(#[trigger] r@[k], data.actions@[k]),
                decreases data.actions@.len() - i,
            {
                let v = &data.actions[i];
                let mut detail = String::new();
                detail.append("動作番号 ");
                detail.append(decimal_string(v.action_id as u64).as_str());
                r.push((v.action_name.clone(), with_flag(detail.as_str(), v.enabled), Draft::Action(v.clone())));
                i = i + 1;
            }
        },
        Section::Destinations => {
            let mut i: usize = 0;
            while i < data.destinations.len()
                invariant
                    i <= data.destinations@.len(),
                    r@.len() == i,
                    forall|k: int|
                        0 <= k < i ==> lists_destination(
                            #[trigger] r@[k],
                            data.destinations@[k],
                            data.families@,
                        ),
                decreases data.destinations@.len() - i,
            {
                let v = &data.destinations[i];
                r.push(
                    (
                        family_name(data.families.as_slice(), v.family_id),
                        with_flag(v.notification_type.as_str(), v.enabled),
                        Draft::Destination(v.clone()),
                    ),
                );
                i = i + 1;
            }
        },
        Section::Events => {},
    }
    r
}

/// The identifiers in use in a list of families.
pub open spec fn family_ids(families: Seq<FamilyRecord>) -> Seq<u32> {
    families.map_values(|f: FamilyRecord| f.family_id)
}

/// The identifiers in use in a list of actions.
pub open spec fn action_ids(actions: Seq<ActionRecord>) -> Seq<u32> {
    actions.map_values(|a: ActionRecord| a.action_id)
}

/// Whether `d` is the blank record that a new entry of `section` starts
/// from: enabled, a Pico W device, a FAMILY action, a LINE destination, and
/// the next free identifier for a family or an action.
pub open spec fn is_new_record(section: Section, data: Data, d: Option<Draft>) -> bool {
    match section {
        Section::Devices => d matches Some(Draft::Device(v)) && v.device_id@.len() == 0 && v.name@.len()
            == 0 && v.device_type@ == "pico-w"@ && v.enabled,
        Section::Families => d matches Some(Draft::Family(v)) && is_next_id(
            family_ids(data.families@),
            v.family_id,
        ) && v.display_name@.len() == 0 && v.enabled,
        Section::Actions => d matches Some(Draft::Action(v)) && is_next_id(
            action_ids(data.actions@),
            v.action_id,
        ) && v.action_name@.len() == 0 && v.target_type@ == "FAMILY"@ && v.target_family_id is None
            && v.web_message@.len() == 0 && v.enabled && v.state_changes@.len() == 0
            && !v.notification_enabled && v.notification_message@.len() == 0
            && v.notification_targets@.len() == 0,
        Section::Destinations => d matches Some(Draft::Destination(v)) && v.id is None && v.family_id
            == 0 && v.notification_type@ == "LINE"@ && v.destination@.len() == 0 && v.enabled,
        Section::Events => d is None,
    }
}

/// The record a new entry of `section` starts from; the event history has
/// no new entries.
pub fn new_record(section: Section, data: &Data) -> (r: Option<Draft>)
    ensures
        is_new_record(section, *data, r),
{
    match section {
        Section::Devices => Some(
            Draft::Device(
                DeviceRecord {
                    device_id: String::new(),
                    name: String::new(),
                    device_type: "pico-w".to_owned(),
                    enabled: true,
                },
            ),
        ),
        Section::Families => {
            let mut ids: Vec<u32> = Vec::new();
            let mut i: usize = 0;
            while i < data.families.len()
                invariant
                    i <= data.families@.len(),
                    ids@ == family_ids(data.families@.subrange(0, i as int)),
                decreases data.families@.len() - i,
            {
                ids.push(data.families[i].family_id);
                proof {
                    assert(ids@ =~= family_ids(data.families@.subrange(0, i as int + 1)));
                }
                i = i + 1;
            }
            proof {
                assert(data.families@.subrange(0, data.families@.len() as int) =~= data.families@);
            }
            Some(
                Draft::Family(
                    FamilyRecord {
                        family_id: next_id(ids.as_slice()),
                        display_name: String::new(),
                        enabled: true,
                    },
                ),
            )
        },
        Section::Actions => {
            let mut ids: Vec<u32> = Vec::new();
            let mut i: usize = 0;
            while i < data.actions.len()
                invariant
                    i <= data.actions@.len(),
                    ids@ == action_ids(data.actions@.subrange(0, i as int)),
                decreases data.actions@.len() - i,
            {
                ids.push(data.actions[i].action_id);
                proof {
                    assert(ids@ =~= action_ids(data.actions@.subrange(0, i as int + 1)));
                }
                i = i + 1;
            }
            proof {
                assert(data.actions@.subrange(0, data.actions@.len() as int) =~= data.actions@);
            }
            Some(
                Draft::Action(
                    ActionRecord {
                        action_id: next_id(ids.as_slice()),
                        action_name: String::new(),
                        target_type: "FAMILY".to_owned(),
                        target_family_id: None,
                        web_message: String::new(),
                        enabled: true,
                        state_changes: Vec::new(),
                        notification_enabled: false,
                        notification_message: String::new(),
                        notification_targets: Vec::new(),
                    },
                ),
            )
        },
        Section::Destinations => Some(
            Draft::Destination(
                NotificationDestinationRecord {
                    id: None,
                    family_id: 0,
                    notification_type: "LINE".to_owned(),
                    destination: String::new(),
                    enabled: true,
                },
            ),
        ),
        Section::Events => None,
    }
}

} // verus!
