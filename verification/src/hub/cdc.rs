//! The hub's CDC management endpoint: the parent configuration, its checks,
//! the line framing and the answers to each command.

use vstd::prelude::*;

use crate::common::action::{
    spec_state_type_name, spec_state_value_name, spec_target_type_name, state_type_name,
    state_value_name, target_type_name, StateType, StateValue, TargetType,
};
use crate::common::cdc::{cdc_error_json, cdc_error_text, cdc_ok_json, cdc_ok_text, CdcErrorCode};
use crate::common::json::{
    json_array, json_bool, json_join, json_opt_unsigned, json_std_opt_string, json_u32_array,
    json_unsigned, lemma_json_join_push, push_bool, push_opt_u32, push_std_opt_string,
    push_std_string, push_u32_array, push_unsigned, serde_json_string_text, json_std_string,
};
use crate::common::types::{utf8_len, ERROR_MESSAGE_CAPACITY};
use crate::hub::db::{
    ActionRecord, ActionStateChangeRecord, FamilyNotificationDestination, FamilyRecord,
    NotificationSettingRecord, NotificationTargetRecord,
};
use crate::text::{blank, decimal, decimal_string, is_blank, lossy_text, trim_end_cr, trim_end_cr_string, utf8_lossy};

verus! {

/// The whole parent configuration, as `set_config` writes it and
/// `get_config` reads it.
#[derive(Debug)]
pub struct ParentConfig {
    pub families: Vec<FamilyConfig>,
    pub actions: Vec<ActionConfig>,
    pub family_notification_destinations: Vec<FamilyNotificationDestinationConfig>,
}

#[derive(Debug)]
pub struct FamilyConfig {
    pub family_id: u32,
    pub display_name: String,
    pub enabled: bool,
}

#[derive(Debug)]
pub struct ActionConfig {
    pub action_id: u32,
    pub action_name: String,
    pub target_type: TargetType,
    pub target_family_id: Option<u32>,
    pub web_message: Option<String>,
    pub enabled: bool,
    pub state_changes: Vec<StateChangeConfig>,
    pub notification_enabled: bool,
    pub notification_message: Option<String>,
    pub notification_targets: Vec<u32>,
}

#[derive(Clone, Copy, Debug, PartialEq, Eq, Structural)]
pub struct StateChangeConfig {
    pub state_type: StateType,
    pub state_value: StateValue,
}

#[derive(Debug)]
pub struct FamilyNotificationDestinationConfig {
    pub family_id: u32,
    pub notification_type: String,
    pub destination: String,
    pub enabled: bool,
}

impl Default for ParentConfig {
    fn default() -> (r: Self)
        ensures
            r.families@.len() == 0,
            r.actions@.len() == 0,
            r.family_notification_destinations@.len() == 0,
    {
        ParentConfig {
            families: Vec::new(),
            actions: Vec::new(),
            family_notification_destinations: Vec::new(),
        }
    }
}

/// The index of the first element equal to an earlier one.
pub open spec fn first_dup<T>(s: Seq<T>) -> Option<int>
    decreases s.len(),
{
    if s.len() == 0 {
        None
    } else {
        match first_dup(s.drop_last()) {
            Some(i) => Some(i),
            None => if exists|k: int| 0 <= k < s.len() - 1 && #[trigger] s[k] == s.last() {
                Some(s.len() - 1)
            } else {
                None
            },
        }
    }
}

proof fn lemma_first_dup_prefix<T>(s: Seq<T>, n: int)
    requires
        0 < n <= s.len(),
        first_dup(s.subrange(0, n)) is Some,
    ensures
        first_dup(s) == first_dup(s.subrange(0, n)),
    decreases s.len() - n,
{
    if n < s.len() {
        assert(s.subrange(0, n + 1).drop_last() =~= s.subrange(0, n));
        lemma_first_dup_prefix(s, n + 1);
    } else {
        assert(s.subrange(0, n) =~= s);
    }
}

/// The index of the first identifier that repeats an earlier one.
fn first_duplicate_id(ids: &[u32]) -> (r: Option<usize>)
    ensures
        match r {
            Some(j) => first_dup(ids@) == Some(j as int) && j < ids@.len(),
            None => first_dup(ids@) is None,
        },
{
    let mut i: usize = 0;
    while i < ids.len()
        invariant
            i <= ids@.len(),
            first_dup(ids@.subrange(0, i as int)) is None,
        decreases ids@.len() - i,
    {
        let mut k: usize = 0;
        while k < i
            invariant
                k <= i < ids@.len(),
                first_dup(ids@.subrange(0, i as int)) is None,
                forall|m: int| 0 <= m < k ==> ids@[m] != ids@[i as int],
            decreases i - k,
        {
            if ids[k] == ids[i] {
                proof {
                    let pre = ids@.subrange(0, i as int + 1);
                    assert(pre.drop_last() =~= ids@.subrange(0, i as int));
                    assert(pre[k as int] == pre.last());
                    lemma_first_dup_prefix(ids@, i as int + 1);
                }
                return Some(i);
            }
            k = k + 1;
        }
        proof {
            let pre = ids@.subrange(0, i as int + 1);
            assert(pre.drop_last() =~= ids@.subrange(0, i as int));
        }
        i = i + 1;
    }
    proof {
        assert(ids@.subrange(0, ids@.len() as int) =~= ids@);
    }
    None
}

/// The index of the first state change whose state type repeats an earlier
/// one.
fn first_duplicate_state_type(changes: &[StateChangeConfig]) -> (r: Option<usize>)
    ensures
        match r {
            Some(j) => first_dup(state_types(changes@)) == Some(j as int) && j < changes@.len(),
            None => first_dup(state_types(changes@)) is None,
        },
{
    let ghost types = state_types(changes@);
    let mut i: usize = 0;
    while i < changes.len()
        invariant
            i <= changes@.len(),
            types == state_types(changes@),
            first_dup(types.subrange(0, i as int)) is None,
        decreases changes@.len() - i,
    {
        let mut k: usize = 0;
        while k < i
            invariant
                k <= i < changes@.len(),
                types == state_types(changes@),
                first_dup(types.subrange(0, i as int)) is None,
                forall|m: int| 0 <= m < k ==> types[m] != types[i as int],
            decreases i - k,
        {
            if changes[k].state_type == changes[i].state_type {
                proof {
                    let pre = types.subrange(0, i as int + 1);
                    assert(pre.drop_last() =~= types.subrange(0, i as int));
                    assert(pre[k as int] == pre.last());
                    lemma_first_dup_prefix(types, i as int + 1);
                }
                return Some(i);
            }
            k = k + 1;
        }
        proof {
            let pre = types.subrange(0, i as int + 1);
            assert(pre.drop_last() =~= types.subrange(0, i as int));
        }
        i = i + 1;
    }
    proof {
        assert(types.subrange(0, changes@.len() as int) =~= types);
    }
    None
}

pub open spec fn state_types(changes: Seq<StateChangeConfig>) -> Seq<StateType> {
    changes.map_values(|c: StateChangeConfig| c.state_type)
}

pub open spec fn family_ids(config: ParentConfig) -> Seq<u32> {
    config.families@.map_values(|f: FamilyConfig| f.family_id)
}

pub open spec fn action_ids(config: ParentConfig) -> Seq<u32> {
    config.actions@.map_values(|a: ActionConfig| a.action_id)
}

/// Whether the configuration defines the family `id`.
pub open spec fn defines_family(config: ParentConfig, id: u32) -> bool {
    family_ids(config).contains(id)
}

/// "duplicate {name}: {id}".
pub open spec fn duplicate_message(name: Seq<char>, id: u32) -> Seq<char> {
    "duplicate "@ + name + ": "@ + decimal(id as nat)
}

/// "Action {id}" followed by `rest`.
pub open spec fn action_message(id: u32, rest: Seq<char>) -> Seq<char> {
    "Action "@ + decimal(id as nat) + rest
}

/// What is wrong with one action, if anything: its target, a repeated state
/// type, or a notification target that is not a defined family.
pub open spec fn action_problem(config: ParentConfig, action: ActionConfig) -> Option<Seq<char>> {
    let id = action.action_id;
    let target_ok = match (action.target_type, action.target_family_id) {
        (TargetType::Family, Some(f)) => defines_family(config, f),
        (TargetType::Family, None) => false,
        (TargetType::Common, None) => true,
        (TargetType::Common, Some(_)) => false,
    };
    if !target_ok {
        if action.target_type == TargetType::Family {
            Some(action_message(id, " has an invalid target family"@))
        } else {
            Some("COMMON "@ + action_message(id, " cannot target a family"@))
        }
    } else if first_dup(state_types(action.state_changes@)) is Some {
        Some(action_message(id, " has duplicate state_type"@))
    } else if exists|k: int|
        0 <= k < action.notification_targets@.len() && !defines_family(
            config,
            #[trigger] action.notification_targets@[k],
        ) {
        Some(action_message(id, " has invalid notification target"@))
    } else {
        None
    }
}

/// What is wrong with the first faulty action of `actions`.
pub open spec fn actions_problem(config: ParentConfig, actions: Seq<ActionConfig>) -> Option<
    Seq<char>,
>
    decreases actions.len(),
{
    if actions.len() == 0 {
        None
    } else {
        match actions_problem(config, actions.drop_last()) {
            Some(p) => Some(p),
            None => action_problem(config, actions.last()),
        }
    }
}

/// What is wrong with one notification destination, if anything.
pub open spec fn destination_problem(
    config: ParentConfig,
    d: FamilyNotificationDestinationConfig,
) -> Option<Seq<char>> {
    if !defines_family(config, d.family_id) {
        Some("invalid destination family_id: "@ + decimal(d.family_id as nat))
    } else if is_blank(d.notification_type@) || is_blank(d.destination@) {
        Some("notification_type and destination must not be empty"@)
    } else {
        None
    }
}

pub open spec fn destinations_problem(
    config: ParentConfig,
    ds: Seq<FamilyNotificationDestinationConfig>,
) -> Option<Seq<char>>
    decreases ds.len(),
{
    if ds.len() == 0 {
        None
    } else {
        match destinations_problem(config, ds.drop_last()) {
            Some(p) => Some(p),
            None => destination_problem(config, ds.last()),
        }
    }
}

/// The first problem of a parent configuration, checked in this order:
/// repeated family IDs, repeated action IDs, each action, each destination.
pub open spec fn config_problem(config: ParentConfig) -> Option<Seq<char>> {
    match first_dup(family_ids(config)) {
        Some(j) => Some(duplicate_message("family_id"@, family_ids(config)[j])),
        None => match first_dup(action_ids(config)) {
            Some(j) => Some(duplicate_message("action_id"@, action_ids(config)[j])),
            None => match actions_problem(config, config.actions@) {
                Some(p) => Some(p),
                None => destinations_problem(config, config.family_notification_destinations@),
            },
        },
    }
}

/// No element of `s` repeats.
pub open spec fn all_distinct<T>(s: Seq<T>) -> bool {
    forall|i: int, j: int| 0 <= i < j < s.len() ==> s[i] != s[j]
}

proof fn lemma_first_dup_none<T>(s: Seq<T>)
    ensures
        first_dup(s) is None <==> all_distinct(s),
    decreases s.len(),
{
    if s.len() > 0 {
        let p = s.drop_last();
        lemma_first_dup_none(p);
        if all_distinct(s) {
            assert(all_distinct(p)) by {
                assert forall|i: int, j: int| 0 <= i < j < p.len() implies p[i] != p[j] by {
                    assert(p[i] == s[i] && p[j] == s[j]);
                }
            }
            assert(!exists|k: int| 0 <= k < s.len() - 1 && #[trigger] s[k] == s.last()) by {
                assert forall|k: int| 0 <= k < s.len() - 1 implies #[trigger] s[k] != s.last() by {
                    assert(s.last() == s[s.len() - 1]);
                }
            }
        }
        if first_dup(s) is None {
            assert forall|i: int, j: int| 0 <= i < j < s.len() implies s[i] != s[j] by {
                if j < s.len() - 1 {
                    assert(p[i] == s[i] && p[j] == s[j]);
                } else {
                    assert(s[j] == s.last());
                }
            }
        }
    }
}

/// Whether an action passes the checks: a FAMILY action names a defined
/// family, a COMMON action names none, no state type repeats, and every
/// notification target is a defined family.
pub open spec fn action_valid(config: ParentConfig, a: ActionConfig) -> bool {
    &&& match (a.target_type, a.target_family_id) {
        (TargetType::Family, Some(f)) => defines_family(config, f),
        (TargetType::Common, None) => true,
        _ => false,
    }
    &&& all_distinct(state_types(a.state_changes@))
    &&& forall|k: int|
        0 <= k < a.notification_targets@.len() ==> defines_family(
            config,
            #[trigger] a.notification_targets@[k],
        )
}

/// Whether a destination passes the checks: a defined family and a
/// non-blank type and address.
pub open spec fn destination_valid(config: ParentConfig, d: FamilyNotificationDestinationConfig) -> bool {
    defines_family(config, d.family_id) && !is_blank(d.notification_type@) && !is_blank(d.destination@)
}

proof fn lemma_actions_problem_none(config: ParentConfig, actions: Seq<ActionConfig>)
    ensures
        actions_problem(config, actions) is None <==> forall|i: int|
            0 <= i < actions.len() ==> action_valid(config, #[trigger] actions[i]),
    decreases actions.len(),
{
    if actions.len() > 0 {
        let p = actions.drop_last();
        lemma_actions_problem_none(config, p);
        lemma_first_dup_none(state_types(actions.last().state_changes@));
        assert(action_problem(config, actions.last()) is None <==> action_valid(config, actions.last()));
        if forall|i: int| 0 <= i < actions.len() ==> action_valid(config, #[trigger] actions[i]) {
            assert forall|i: int| 0 <= i < p.len() implies action_valid(config, #[trigger] p[i]) by {
                assert(p[i] == actions[i]);
            }
            assert(action_valid(config, actions[actions.len() - 1]));
        }
        if actions_problem(config, actions) is None {
            assert forall|i: int| 0 <= i < actions.len() implies action_valid(config, #[trigger] actions[i]) by {
                if i < actions.len() - 1 {
                    assert(p[i] == actions[i]);
                } else {
                    assert(actions[i] == actions.last());
                }
            }
        }
    }
}

proof fn lemma_destinations_problem_none(config: ParentConfig, ds: Seq<FamilyNotificationDestinationConfig>)
    ensures
        destinations_problem(config, ds) is None <==> forall|i: int|
            0 <= i < ds.len() ==> destination_valid(config, #[trigger] ds[i]),
    decreases ds.len(),
{
    if ds.len() > 0 {
        let p = ds.drop_last();
        lemma_destinations_problem_none(config, p);
        if forall|i: int| 0 <= i < ds.len() ==> destination_valid(config, #[trigger] ds[i]) {
            assert forall|i: int| 0 <= i < p.len() implies destination_valid(config, #[trigger] p[i]) by {
                assert(p[i] == ds[i]);
            }
            assert(destination_valid(config, ds[ds.len() - 1]));
        }
        if destinations_problem(config, ds) is None {
            assert forall|i: int| 0 <= i < ds.len() implies destination_valid(config, #[trigger] ds[i]) by {
                if i < ds.len() - 1 {
                    assert(p[i] == ds[i]);
                } else {
                    assert(ds[i] == ds.last());
                }
            }
        }
    }
}

/// A parent configuration is accepted exactly when its family IDs and its
/// action IDs are distinct, every action passes its checks (a FAMILY action
/// names a defined family, a COMMON action none, no repeated state type,
/// every notification target defined) and every destination names a defined
/// family with a non-blank type and address.
pub proof fn law_config_accepted_exactly_when_valid(config: ParentConfig)
    ensures
        config_problem(config) is None <==> {
            &&& all_distinct(family_ids(config))
            &&& all_distinct(action_ids(config))
            &&& forall|i: int|
                0 <= i < config.actions@.len() ==> action_valid(config, #[trigger] config.actions@[i])
            &&& forall|i: int|
                0 <= i < config.family_notification_destinations@.len() ==> destination_valid(
                    config,
                    #[trigger] config.family_notification_destinations@[i],
                )
        },
{
    lemma_first_dup_none(family_ids(config));
    lemma_first_dup_none(action_ids(config));
    lemma_actions_problem_none(config, config.actions@);
    lemma_destinations_problem_none(config, config.family_notification_destinations@);
}

/// The identifiers, provided none repeats; otherwise "duplicate {name}:
/// {id}" for the first repeated one.
pub fn unique_ids(ids: &[u32], name: &str) -> (r: Result<Vec<u32>, String>)
    ensures
        match first_dup(ids@) {
            Some(j) => r matches Err(m) && m@ == duplicate_message(name@, ids@[j]),
            None => r matches Ok(v) && v@ == ids@,
        },
{
    match first_duplicate_id(ids) {
        Some(j) => {
            let mut m = String::new();
            m.append("duplicate ");
            m.append(name);
            m.append(": ");
            let d = decimal_string(ids[j] as u64);
            m.append(d.as_str());
            Err(m)
        },
        None => Ok(vstd::slice::slice_to_vec(ids)),
    }
}

fn contains_id(ids: &[u32], id: u32) -> (r: bool)
    ensures
        r == ids@.contains(id),
{
    let mut i: usize = 0;
    while i < ids.len()
        invariant
            i <= ids@.len(),
            forall|k: int| 0 <= k < i ==> ids@[k] != id,
        decreases ids@.len() - i,
    {
        if ids[i] == id {
            assert(ids@[i as int] == id);
            return true;
        }
        i = i + 1;
    }
    false
}

fn action_text(id: u32, rest: &str) -> (r: String)
    ensures
        r@ == action_message(id, rest@),
{
    let mut m = String::new();
    m.append("Action ");
    let d = decimal_string(id as u64);
    m.append(d.as_str());
    m.append(rest);
    m
}

#[verifier::loop_isolation(false)]
fn check_action(families: &[u32], action: &ActionConfig, config: Ghost<ParentConfig>) -> (r: Option<String>)
    requires
        families@ == family_ids(config@),
    ensures
        match action_problem(config@, *action) {
            Some(p) => r matches Some(m) && m@ == p,
            None => r is None,
        },
{
    let id = action.action_id;
    let target_ok = match (action.target_type, action.target_family_id) {
        (TargetType::Family, Some(f)) => contains_id(families, f),
        (TargetType::Family, None) => false,
        (TargetType::Common, None) => true,
        (TargetType::Common, Some(_)) => false,
    };
    if !target_ok {
        if action.target_type == TargetType::Family {
            return Some(action_text(id, " has an invalid target family"));
        } else {
            let mut m = String::new();
            m.append("COMMON ");
            let rest = action_text(id, " cannot target a family");
            m.append(rest.as_str());
            return Some(m);
        }
    }
    if first_duplicate_state_type(action.state_changes.as_slice()).is_some() {
        return Some(action_text(id, " has duplicate state_type"));
    }
    let mut k: usize = 0;
    while k < action.notification_targets.len()
        invariant
            k <= action.notification_targets@.len(),
            families@ == family_ids(config@),
            forall|m: int|
                0 <= m < k ==> defines_family(config@, #[trigger] action.notification_targets@[m]),
        decreases action.notification_targets@.len() - k,
    {
        if !contains_id(families, action.notification_targets[k]) {
            return Some(action_text(id, " has invalid notification target"));
        }
        k = k + 1;
    }
    None
}

/// Checks a parent configuration before it is saved; the error names the
/// first problem found.
#[verifier::loop_isolation(false)]
pub fn validate_config(config: &ParentConfig) -> (r: Result<(), String>)
    ensures
        match config_problem(*config) {
            Some(p) => r matches Err(m) && m@ == p,
            None => r is Ok,
        },
{
    let mut ids: Vec<u32> = Vec::new();
    let mut i: usize = 0;
    while i < config.families.len()
        invariant
            i <= config.families@.len(),
            ids@ == family_ids(*config).subrange(0, i as int),
        decreases config.families@.len() - i,
    {
        ids.push(config.families[i].family_id);
        proof {
            assert(ids@ =~= family_ids(*config).subrange(0, i as int + 1));
        }
        i = i + 1;
    }
    proof {
        assert(family_ids(*config).subrange(0, config.families@.len() as int) =~= family_ids(*config));
    }
    let families = unique_ids(ids.as_slice(), "family_id")?;
    let mut action_id_list: Vec<u32> = Vec::new();
    let mut i: usize = 0;
    while i < config.actions.len()
        invariant
            i <= config.actions@.len(),
            action_id_list@ == action_ids(*config).subrange(0, i as int),
        decreases config.actions@.len() - i,
    {
        action_id_list.push(config.actions[i].action_id);
        proof {
            assert(action_id_list@ =~= action_ids(*config).subrange(0, i as int + 1));
        }
        i = i + 1;
    }
    proof {
        assert(action_ids(*config).subrange(0, config.actions@.len() as int) =~= action_ids(*config));
    }
    unique_ids(action_id_list.as_slice(), "action_id")?;
    let mut i: usize = 0;
    while i < config.actions.len()
        invariant
            i <= config.actions@.len(),
            families@ == family_ids(*config),
            actions_problem(*config, config.actions@.subrange(0, i as int)) is None,
        decreases config.actions@.len() - i,
    {
        proof {
            assert(config.actions@.subrange(0, i as int + 1).drop_last() =~= config.actions@.subrange(
                0,
                i as int,
            ));
        }
        if let Some(m) = check_action(families.as_slice(), &config.actions[i], Ghost(*config)) {
            proof {
                lemma_actions_problem_prefix(*config, config.actions@, i as int + 1);
            }
            return Err(m);
        }
        i = i + 1;
    }
    proof {
        assert(config.actions@.subrange(0, config.actions@.len() as int) =~= config.actions@);
    }
    let destinations = &config.family_notification_destinations;
    let mut i: usize = 0;
    while i < destinations.len()
        invariant
            i <= destinations@.len(),
            destinations == config.family_notification_destinations,
            families@ == family_ids(*config),
            destinations_problem(*config, destinations@.subrange(0, i as int)) is None,
        decreases destinations@.len() - i,
    {
        proof {
            assert(destinations@.subrange(0, i as int + 1).drop_last() =~= destinations@.subrange(
                0,
                i as int,
            ));
        }
        let d = &destinations[i];
        if !contains_id(families.as_slice(), d.family_id) {
            let mut m = String::new();
            m.append("invalid destination family_id: ");
            let n = decimal_string(d.family_id as u64);
            m.append(n.as_str());
            proof {
                lemma_destinations_problem_prefix(*config, destinations@, i as int + 1);
            }
            return Err(m);
        }
        if blank(d.notification_type.as_str()) || blank(d.destination.as_str()) {
            proof {
                lemma_destinations_problem_prefix(*config, destinations@, i as int + 1);
            }
            return Err("notification_type and destination must not be empty".to_owned());
        }
        i = i + 1;
    }
    proof {
        assert(destinations@.subrange(0, destinations@.len() as int) =~= destinations@);
    }
    Ok(())
}

proof fn lemma_actions_problem_prefix(config: ParentConfig, s: Seq<ActionConfig>, n: int)
    requires
        0 < n <= s.len(),
        actions_problem(config, s.subrange(0, n)) is Some,
    ensures
        actions_problem(config, s) == actions_problem(config, s.subrange(0, n)),
    decreases s.len() - n,
{
    if n < s.len() {
        assert(s.subrange(0, n + 1).drop_last() =~= s.subrange(0, n));
        lemma_actions_problem_prefix(config, s, n + 1);
    } else {
        assert(s.subrange(0, n) =~= s);
    }
}

proof fn lemma_destinations_problem_prefix(
    config: ParentConfig,
    s: Seq<FamilyNotificationDestinationConfig>,
    n: int,
)
    requires
        0 < n <= s.len(),
        destinations_problem(config, s.subrange(0, n)) is Some,
    ensures
        destinations_problem(config, s) == destinations_problem(config, s.subrange(0, n)),
    decreases s.len() - n,
{
    if n < s.len() {
        assert(s.subrange(0, n + 1).drop_last() =~= s.subrange(0, n));
        lemma_destinations_problem_prefix(config, s, n + 1);
    } else {
        assert(s.subrange(0, n) =~= s);
    }
}

pub const DEFAULT_CDC_BAUD_RATE: u32 = 115_200;

/// The longest request line the hub buffers; longer lines are dropped.
pub const MAX_CDC_LINE_SIZE: usize = 65536;

/// The decoder after one more byte: its buffered bytes, whether it is
/// dropping an overlong line, and the raw line the byte completed, if any.
pub open spec fn line_step(current: Seq<u8>, dropping: bool, byte: u8) -> (Seq<u8>, bool, Option<
    Seq<u8>,
>) {
    if byte == 10 {
        (Seq::empty(), false, if dropping { None } else { Some(current) })
    } else if dropping {
        (current, true, None)
    } else if current.len() >= MAX_CDC_LINE_SIZE {
        (Seq::empty(), true, None)
    } else {
        (current.push(byte), false, None)
    }
}

/// The decoder after `bytes`, with the raw lines they completed.
pub open spec fn line_run(current: Seq<u8>, dropping: bool, bytes: Seq<u8>) -> (Seq<u8>, bool, Seq<
    Seq<u8>,
>)
    decreases bytes.len(),
{
    if bytes.len() == 0 {
        (current, dropping, Seq::empty())
    } else {
        let (c, d, lines) = line_run(current, dropping, bytes.drop_last());
        let (c2, d2, line) = line_step(c, d, bytes.last());
        (c2, d2, match line {
            Some(l) => lines.push(l),
            None => lines,
        })
    }
}

/// A completed line as text: decoded leniently, trailing carriage returns
/// removed.
pub open spec fn line_text(raw: Seq<u8>) -> Seq<char> {
    trim_end_cr(lossy_text(raw))
}

/// LF framing of the request stream. A line longer than
/// `MAX_CDC_LINE_SIZE` is dropped up to its line feed.
#[derive(Debug)]
pub struct LineDecoder {
    current: Vec<u8>,
    dropping: bool,
}

impl LineDecoder {
    pub closed spec fn buffered(&self) -> Seq<u8> {
        self.current@
    }

    pub closed spec fn is_dropping(&self) -> bool {
        self.dropping
    }

    pub fn new() -> (r: Self)
        ensures
            r.buffered() == Seq::<u8>::empty(),
            !r.is_dropping(),
    {
        LineDecoder { current: Vec::new(), dropping: false }
    }

    /// The lines that `bytes` complete.
    pub fn feed(&mut self, bytes: &[u8]) -> (r: Vec<String>)
        ensures
            ({
                let (c, d, lines) = line_run(old(self).buffered(), old(self).is_dropping(), bytes@);
                &&& final(self).buffered() == c
                &&& final(self).is_dropping() == d
                &&& r@.len() == lines.len()
                &&& forall|i: int| 0 <= i < lines.len() ==> (#[trigger] r@[i])@ == line_text(lines[i])
            }),
    {
        let mut lines: Vec<String> = Vec::new();
        let mut i: usize = 0;
        while i < bytes.len()
            invariant
                i <= bytes@.len(),
                ({
                    let (c, d, raw) = line_run(
                        old(self).buffered(),
                        old(self).is_dropping(),
                        bytes@.subrange(0, i as int),
                    );
                    &&& self.buffered() == c
                    &&& self.is_dropping() == d
                    &&& lines@.len() == raw.len()
                    &&& forall|k: int| 0 <= k < raw.len() ==> (#[trigger] lines@[k])@ == line_text(raw[k])
                }),
            decreases bytes@.len() - i,
        {
            proof {
                assert(bytes@.subrange(0, i as int + 1).drop_last() =~= bytes@.subrange(0, i as int));
            }
            let byte = bytes[i];
            if byte == 10u8 {
                if !self.dropping {
                    let text = utf8_lossy(self.current.as_slice());
                    let line = trim_end_cr_string(text.as_str());
                    lines.push(line);
                }
                self.current = Vec::new();
                self.dropping = false;
            } else if !self.dropping {
                if self.current.len() >= MAX_CDC_LINE_SIZE {
                    self.current = Vec::new();
                    self.dropping = true;
                } else {
                    self.current.push(byte);
                }
            }
            i = i + 1;
        }
        proof {
            assert(bytes@.subrange(0, bytes@.len() as int) =~= bytes@);
        }
        lines
    }
}

/// The JSON object of a family, members in key order as `serde_json`'s
/// `Value` keeps them.
pub open spec fn family_json(f: FamilyConfig) -> Seq<char> {
    "{\"display_name\":"@ + serde_json_string_text(f.display_name@) + ",\"enabled\":"@ + json_bool(
        f.enabled,
    ) + ",\"family_id\":"@ + json_unsigned(f.family_id as nat) + "}"@
}

pub open spec fn state_change_json(c: StateChangeConfig) -> Seq<char> {
    "{\"state_type\":\""@ + spec_state_type_name(c.state_type) + "\",\"state_value\":\""@
        + spec_state_value_name(c.state_value) + "\"}"@
}

pub open spec fn action_json(a: ActionConfig) -> Seq<char> {
    action_head_json(a) + action_tail_json(a)
}

pub open spec fn action_head_json(a: ActionConfig) -> Seq<char> {
    "{\"action_id\":"@ + json_unsigned(a.action_id as nat) + ",\"action_name\":"@
        + serde_json_string_text(a.action_name@) + ",\"enabled\":"@ + json_bool(a.enabled)
        + ",\"notification_enabled\":"@ + json_bool(a.notification_enabled)
        + ",\"notification_message\":"@ + json_std_opt_string(
        match a.notification_message {
            Some(m) => Some(m@),
            None => None,
        },
    ) + ",\"notification_targets\":"@ + json_u32_array(a.notification_targets@)
}

pub open spec fn action_tail_json(a: ActionConfig) -> Seq<char> {
    ",\"state_changes\":"@ + json_array(
        a.state_changes@.map_values(|c: StateChangeConfig| state_change_json(c)),
    ) + ",\"target_family_id\":"@ + json_opt_unsigned(a.target_family_id) + ",\"target_type\":\""@
        + spec_target_type_name(a.target_type) + "\",\"web_message\":"@ + json_std_opt_string(
        match a.web_message {
            Some(m) => Some(m@),
            None => None,
        },
    ) + "}"@
}

pub open spec fn destination_json(d: FamilyNotificationDestinationConfig) -> Seq<char> {
    "{\"destination\":"@ + serde_json_string_text(d.destination@) + ",\"enabled\":"@ + json_bool(
        d.enabled,
    ) + ",\"family_id\":"@ + json_unsigned(d.family_id as nat) + ",\"notification_type\":"@
        + serde_json_string_text(d.notification_type@) + "}"@
}

/// The JSON object of a parent configuration.
pub open spec fn config_json(c: ParentConfig) -> Seq<char> {
    "{\"actions\":"@ + json_array(c.actions@.map_values(|a: ActionConfig| action_json(a)))
        + ",\"families\":"@ + json_array(c.families@.map_values(|f: FamilyConfig| family_json(f)))
        + ",\"family_notification_destinations\":"@ + json_array(
        c.family_notification_destinations@.map_values(
            |d: FamilyNotificationDestinationConfig| destination_json(d),
        ),
    ) + "}"@
}

fn push_family(out: &mut String, f: &FamilyConfig)
    ensures
        final(out)@ == old(out)@ + family_json(*f),
{
    out.append("{\"display_name\":");
    push_std_string(out, f.display_name.as_str());
    out.append(",\"enabled\":");
    push_bool(out, f.enabled);
    out.append(",\"family_id\":");
    push_unsigned(out, f.family_id as u64);
    out.append("}");
    proof {
        assert(out@ =~= old(out)@ + family_json(*f));
    }
}

fn push_state_change(out: &mut String, c: &StateChangeConfig)
    ensures
        final(out)@ == old(out)@ + state_change_json(*c),
{
    out.append("{\"state_type\":\"");
    out.append(state_type_name(c.state_type));
    out.append("\",\"state_value\":\"");
    out.append(state_value_name(c.state_value));
    out.append("\"}");
    proof {
        assert(out@ =~= old(out)@ + state_change_json(*c));
    }
}

fn push_destination(out: &mut String, d: &FamilyNotificationDestinationConfig)
    ensures
        final(out)@ == old(out)@ + destination_json(*d),
{
    out.append("{\"destination\":");
    push_std_string(out, d.destination.as_str());
    out.append(",\"enabled\":");
    push_bool(out, d.enabled);
    out.append(",\"family_id\":");
    push_unsigned(out, d.family_id as u64);
    out.append(",\"notification_type\":");
    push_std_string(out, d.notification_type.as_str());
    out.append("}");
    proof {
        assert(out@ =~= old(out)@ + destination_json(*d));
    }
}

fn push_state_changes(out: &mut String, changes: &[StateChangeConfig])
    ensures
        final(out)@ == old(out)@ + json_array(changes@.map_values(|c: StateChangeConfig| state_change_json(c))),
{
    let ghost items = changes@.map_values(|c: StateChangeConfig| state_change_json(c));
    let ghost start = out@;
    out.append("[");
    let mut i: usize = 0;
    while i < changes.len()
        invariant
            i <= changes@.len(),
            items == changes@.map_values(|c: StateChangeConfig| state_change_json(c)),
            out@ == start + "["@ + json_join(items.subrange(0, i as int)),
        decreases changes@.len() - i,
    {
        proof {
            lemma_json_join_push(items.subrange(0, i as int), items[i as int]);
            assert(items.subrange(0, i as int + 1) =~= items.subrange(0, i as int).push(items[i as int]));
        }
        if i > 0 {
            out.append(",");
        }
        push_state_change(out, &changes[i]);
        proof {
            assert(out@ =~= start + "["@ + json_join(items.subrange(0, i as int + 1)));
        }
        i = i + 1;
    }
    out.append("]");
    proof {
        assert(items.subrange(0, changes@.len() as int) =~= items);
        assert(out@ =~= start + json_array(items));
    }
}

fn push_action_head(out: &mut String, a: &ActionConfig)
    ensures
        final(out)@ == old(out)@ + action_head_json(*a),
{
    out.append("{\"action_id\":");
    push_unsigned(out, a.action_id as u64);
    out.append(",\"action_name\":");
    push_std_string(out, a.action_name.as_str());
    out.append(",\"enabled\":");
    push_bool(out, a.enabled);
    out.append(",\"notification_enabled\":");
    push_bool(out, a.notification_enabled);
    out.append(",\"notification_message\":");
    push_std_opt_string(out, &a.notification_message);
    out.append(",\"notification_targets\":");
    push_u32_array(out, a.notification_targets.as_slice());
    proof {
        assert(out@ =~= old(out)@ + action_head_json(*a));
    }
}

fn push_action_tail(out: &mut String, a: &ActionConfig)
    ensures
        final(out)@ == old(out)@ + action_tail_json(*a),
{
    out.append(",\"state_changes\":");
    push_state_changes(out, a.state_changes.as_slice());
    out.append(",\"target_family_id\":");
    push_opt_u32(out, a.target_family_id);
    out.append(",\"target_type\":\"");
    out.append(target_type_name(a.target_type));
    out.append("\",\"web_message\":");
    push_std_opt_string(out, &a.web_message);
    out.append("}");
    proof {
        assert(out@ =~= old(out)@ + action_tail_json(*a));
    }
}

fn push_action(out: &mut String, a: &ActionConfig)
    ensures
        final(out)@ == old(out)@ + action_json(*a),
{
    push_action_head(out, a);
    push_action_tail(out, a);
    proof {
        assert(out@ =~= old(out)@ + action_json(*a));
    }
}

fn push_actions(out: &mut String, items_in: &[ActionConfig])
    ensures
        final(out)@ == old(out)@ + json_array(items_in@.map_values(|x: ActionConfig| action_json(x))),
{
    let ghost items = items_in@.map_values(|x: ActionConfig| action_json(x));
    let ghost start = out@;
    out.append("[");
    let mut i: usize = 0;
    while i < items_in.len()
        invariant
            i <= items_in@.len(),
            items == items_in@.map_values(|x: ActionConfig| action_json(x)),
            out@ == start + "["@ + json_join(items.subrange(0, i as int)),
        decreases items_in@.len() - i,
    {
        proof {
            lemma_json_join_push(items.subrange(0, i as int), items[i as int]);
            assert(items.subrange(0, i as int + 1) =~= items.subrange(0, i as int).push(items[i as int]));
        }
        if i > 0 {
            out.append(",");
        }
        push_action(out, &items_in[i]);
        proof {
            assert(out@ =~= start + "["@ + json_join(items.subrange(0, i as int + 1)));
        }
        i = i + 1;
    }
    out.append("]");
    proof {
        assert(items.subrange(0, items_in@.len() as int) =~= items);
        assert(out@ =~= start + json_array(items));
    }
}

fn push_families(out: &mut String, items_in: &[FamilyConfig])
    ensures
        final(out)@ == old(out)@ + json_array(items_in@.map_values(|x: FamilyConfig| family_json(x))),
{
    let ghost items = items_in@.map_values(|x: FamilyConfig| family_json(x));
    let ghost start = out@;
    out.append("[");
    let mut i: usize = 0;
    while i < items_in.len()
        invariant
            i <= items_in@.len(),
            items == items_in@.map_values(|x: FamilyConfig| family_json(x)),
            out@ == start + "["@ + json_join(items.subrange(0, i as int)),
        decreases items_in@.len() - i,
    {
        proof {
            lemma_json_join_push(items.subrange(0, i as int), items[i as int]);
            assert(items.subrange(0, i as int + 1) =~= items.subrange(0, i as int).push(items[i as int]));
        }
        if i > 0 {
            out.append(",");
        }
        push_family(out, &items_in[i]);
        proof {
            assert(out@ =~= start + "["@ + json_join(items.subrange(0, i as int + 1)));
        }
        i = i + 1;
    }
    out.append("]");
    proof {
        assert(items.subrange(0, items_in@.len() as int) =~= items);
        assert(out@ =~= start + json_array(items));
    }
}

fn push_destinations(out: &mut String, items_in: &[FamilyNotificationDestinationConfig])
    ensures
        final(out)@ == old(out)@ + json_array(items_in@.map_values(|x: FamilyNotificationDestinationConfig| destination_json(x))),
{
    let ghost items = items_in@.map_values(|x: FamilyNotificationDestinationConfig| destination_json(x));
    let ghost start = out@;
    out.append("[");
    let mut i: usize = 0;
    while i < items_in.len()
        invariant
            i <= items_in@.len(),
            items == items_in@.map_values(|x: FamilyNotificationDestinationConfig| destination_json(x)),
            out@ == start + "["@ + json_join(items.subrange(0, i as int)),
        decreases items_in@.len() - i,
    {
        proof {
            lemma_json_join_push(items.subrange(0, i as int), items[i as int]);
            assert(items.subrange(0, i as int + 1) =~= items.subrange(0, i as int).push(items[i as int]));
        }
        if i > 0 {
            out.append(",");
        }
        push_destination(out, &items_in[i]);
        proof {
            assert(out@ =~= start + "["@ + json_join(items.subrange(0, i as int + 1)));
        }
        i = i + 1;
    }
    out.append("]");
    proof {
        assert(items.subrange(0, items_in@.len() as int) =~= items);
        assert(out@ =~= start + json_array(items));
    }
}

/// The JSON text of a parent configuration.
pub fn config_text(c: &ParentConfig) -> (r: String)
    ensures
        r@ == config_json(*c),
{
    let mut out = String::new();
    out.append("{\"actions\":");
    push_actions(&mut out, c.actions.as_slice());
    out.append(",\"families\":");
    push_families(&mut out, c.families.as_slice());
    out.append(",\"family_notification_destinations\":");
    push_destinations(&mut out, c.family_notification_destinations.as_slice());
    out.append("}");
    proof {
        assert(out@ =~= config_json(*c));
    }
    out
}

/// A request line as decoded: its header, and its parameters read as a
/// parent configuration, or the reason they are not one.
#[derive(Debug)]
pub struct HubCdcRequest {
    pub version: u8,
    pub request_id: String,
    pub command: String,
    pub params: Result<ParentConfig, String>,
}

/// What the endpoint does next for one request line.
#[derive(Debug)]
pub enum HubCdcStep {
    /// Write this reply line.
    Reply(String),
    /// Read the configuration from the database and hand it to
    /// `config_loaded`.
    LoadConfig { request_id: String },
    /// Replace the stored configuration, which passed `validate_config`, and
    /// report to `config_saved`.
    SaveConfig { request_id: String, config: ParentConfig },
    /// Replace the stored configuration with the empty one and report to
    /// `config_reset`.
    ResetConfig { request_id: String },
    /// Read the schema version and hand it to `status_read`.
    ReadSchemaVersion { request_id: String },
}

/// An error message as sent: the message if it fits, a fixed text if not.
pub open spec fn bounded_message(message: Seq<char>) -> Seq<char> {
    if utf8_len(message) <= ERROR_MESSAGE_CAPACITY {
        message
    } else {
        "CDC operation failed"@
    }
}

/// A success reply line.
pub open spec fn ok_line(request_id: Seq<char>, data_json: Seq<char>) -> Seq<char> {
    cdc_ok_json(1, serde_json_string_text(request_id), data_json) + "\n"@
}

/// An error reply line.
pub open spec fn error_line(request_id: Seq<char>, code: CdcErrorCode, message: Seq<char>) -> Seq<
    char,
> {
    cdc_error_json(
        1,
        serde_json_string_text(request_id),
        code,
        serde_json_string_text(bounded_message(message)),
    ) + "\n"@
}

/// A success reply line carrying `data_json`.
pub fn response_ok(request_id: &str, data_json: &str) -> (r: String)
    ensures
        r@ == ok_line(request_id@, data_json@),
{
    let id = json_std_string(request_id);
    let mut line = cdc_ok_text(1, id.as_str(), data_json);
    line.append("\n");
    line
}

/// An error reply line; a message longer than `ERROR_MESSAGE_CAPACITY` bytes
/// is replaced by "CDC operation failed".
pub fn response_error(request_id: &str, code: CdcErrorCode, message: &str) -> (r: String)
    ensures
        r@ == error_line(request_id@, code, message@),
{
    let id = json_std_string(request_id);
    let text = if message.as_bytes().len() <= ERROR_MESSAGE_CAPACITY {
        json_std_string(message)
    } else {
        json_std_string("CDC operation failed")
    };
    let mut line = cdc_error_text(1, id.as_str(), code, text.as_str());
    line.append("\n");
    line
}

pub open spec fn info_json() -> Seq<char> {
    "{\"capabilities\":[\"get_config\",\"set_config\",\"factory_reset\"],\"device_type\":\"hub\",\"protocol_version\":1}"@
}

/// What the endpoint does for a decoded request line, by command.
pub open spec fn route(request: HubCdcRequest, step: HubCdcStep) -> bool {
    let id = request.request_id@;
    let c = request.command@;
    if request.version != 1 {
        step matches HubCdcStep::Reply(l) && l@ == error_line(
            id,
            CdcErrorCode::UnsupportedVersion,
            "unsupported protocol version: "@ + decimal(request.version as nat),
        )
    } else if c == "get_info"@ {
        step matches HubCdcStep::Reply(l) && l@ == ok_line(id, info_json())
    } else if c == "get_config"@ {
        step matches HubCdcStep::LoadConfig { request_id } && request_id@ == id
    } else if c == "set_config"@ {
        match request.params {
            Err(e) => step matches HubCdcStep::Reply(l) && l@ == error_line(
                id,
                CdcErrorCode::InvalidConfig,
                "invalid parent configuration: "@ + e@,
            ),
            Ok(config) => match config_problem(config) {
                Some(p) => step matches HubCdcStep::Reply(l) && l@ == error_line(
                    id,
                    CdcErrorCode::InvalidConfig,
                    p,
                ),
                None => step matches HubCdcStep::SaveConfig { request_id, config: saved }
                    && request_id@ == id && saved == config,
            },
        }
    } else if c == "factory_reset"@ {
        step matches HubCdcStep::ResetConfig { request_id } && request_id@ == id
    } else if c == "get_status"@ {
        step matches HubCdcStep::ReadSchemaVersion { request_id } && request_id@ == id
    } else if c == "reboot"@ {
        step matches HubCdcStep::Reply(l) && l@ == error_line(
            id,
            CdcErrorCode::NotSupported,
            "Hub reboot is not exposed through CDC"@,
        )
    } else if c == "get_inputs"@ || c == "get_outputs"@ {
        step matches HubCdcStep::Reply(l) && l@ == error_line(
            id,
            CdcErrorCode::NotSupported,
            "Hub has no GPIO input/output state"@,
        )
    } else {
        step matches HubCdcStep::Reply(l) && l@ == error_line(
            id,
            CdcErrorCode::InvalidCommand,
            "unknown command: "@ + c,
        )
    }
}

fn error_with(request_id: &str, code: CdcErrorCode, prefix: &str, detail: &str) -> (r: HubCdcStep)
    ensures
        r matches HubCdcStep::Reply(l) && l@ == error_line(request_id@, code, prefix@ + detail@),
{
    let mut m = String::new();
    m.append(prefix);
    m.append(detail);
    HubCdcStep::Reply(response_error(request_id, code, m.as_str()))
}

/// Handles one request line. `decoded` is the request, or the decoder's
/// message when the line is not a valid request.
pub fn handle_line(decoded: Result<HubCdcRequest, String>) -> (r: HubCdcStep)
    ensures
        match decoded {
            Err(e) => r matches HubCdcStep::Reply(l) && l@ == error_line(
                "unknown"@,
                CdcErrorCode::InvalidJson,
                "invalid CDC JSON: "@ + e@,
            ),
            Ok(request) => route(request, r),
        },
{
    let request = match decoded {
        Err(e) => {
            return error_with("unknown", CdcErrorCode::InvalidJson, "invalid CDC JSON: ", e.as_str());
        },
        Ok(request) => request,
    };
    proof {
        reveal_strlit("get_info");
        reveal_strlit("get_config");
        reveal_strlit("set_config");
        reveal_strlit("factory_reset");
        reveal_strlit("get_status");
        reveal_strlit("reboot");
        reveal_strlit("get_inputs");
        reveal_strlit("get_outputs");
    }
    if request.version != 1 {
        let v = decimal_string(request.version as u64);
        return error_with(
            request.request_id.as_str(),
            CdcErrorCode::UnsupportedVersion,
            "unsupported protocol version: ",
            v.as_str(),
        );
    }
    let HubCdcRequest { version, request_id, command, params } = request;
    let c = command.as_str();
    if crate::text::str_equal(c, "get_info") {
        HubCdcStep::Reply(
            response_ok(
                request_id.as_str(),
                "{\"capabilities\":[\"get_config\",\"set_config\",\"factory_reset\"],\"device_type\":\"hub\",\"protocol_version\":1}",
            ),
        )
    } else if crate::text::str_equal(c, "get_config") {
        HubCdcStep::LoadConfig { request_id }
    } else if crate::text::str_equal(c, "set_config") {
        match params {
            Err(e) => error_with(
                request_id.as_str(),
                CdcErrorCode::InvalidConfig,
                "invalid parent configuration: ",
                e.as_str(),
            ),
            Ok(config) => match validate_config(&config) {
                Err(m) => HubCdcStep::Reply(
                    response_error(request_id.as_str(), CdcErrorCode::InvalidConfig, m.as_str()),
                ),
                Ok(()) => HubCdcStep::SaveConfig { request_id, config },
            },
        }
    } else if crate::text::str_equal(c, "factory_reset") {
        HubCdcStep::ResetConfig { request_id }
    } else if crate::text::str_equal(c, "get_status") {
        HubCdcStep::ReadSchemaVersion { request_id }
    } else if crate::text::str_equal(c, "reboot") {
        HubCdcStep::Reply(
            response_error(
                request_id.as_str(),
                CdcErrorCode::NotSupported,
                "Hub reboot is not exposed through CDC",
            ),
        )
    } else if crate::text::str_equal(c, "get_inputs") || crate::text::str_equal(c, "get_outputs") {
        HubCdcStep::Reply(
            response_error(
                request_id.as_str(),
                CdcErrorCode::NotSupported,
                "Hub has no GPIO input/output state",
            ),
        )
    } else {
        error_with(request_id.as_str(), CdcErrorCode::InvalidCommand, "unknown command: ", c)
    }
}

/// The reply to `get_config` once the configuration was read.
pub fn config_loaded(request_id: &str, loaded: Result<ParentConfig, String>) -> (r: String)
    ensures
        match loaded {
            Ok(c) => r@ == ok_line(request_id@, config_json(c)),
            Err(e) => r@ == error_line(request_id@, CdcErrorCode::OperationFailed, e@),
        },
{
    match loaded {
        Ok(c) => {
            let data = config_text(&c);
            response_ok(request_id, data.as_str())
        },
        Err(e) => response_error(request_id, CdcErrorCode::OperationFailed, e.as_str()),
    }
}

/// The reply to `set_config` once the configuration was written: the saved
/// configuration, or why writing failed.
pub fn config_saved(request_id: &str, config: &ParentConfig, saved: Result<(), String>) -> (r:
    String)
    ensures
        match saved {
            Ok(()) => r@ == ok_line(request_id@, config_json(*config)),
            Err(e) => r@ == error_line(request_id@, CdcErrorCode::InvalidConfig, e@),
        },
{
    match saved {
        Ok(()) => {
            let data = config_text(config);
            response_ok(request_id, data.as_str())
        },
        Err(e) => response_error(request_id, CdcErrorCode::InvalidConfig, e.as_str()),
    }
}

/// The reply to `factory_reset` once the empty configuration was written.
pub fn config_reset(request_id: &str, saved: Result<(), String>) -> (r: String)
    ensures
        match saved {
            Ok(()) => r@ == ok_line(request_id@, "{}"@),
            Err(e) => r@ == error_line(request_id@, CdcErrorCode::SaveFailed, e@),
        },
{
    match saved {
        Ok(()) => response_ok(request_id, "{}"),
        Err(e) => response_error(request_id, CdcErrorCode::SaveFailed, e.as_str()),
    }
}

pub open spec fn status_json(schema_version: u32) -> Seq<char> {
    "{\"device_type\":\"hub\",\"schema_version\":"@ + json_unsigned(schema_version as nat) + "}"@
}

/// The reply to `get_status` once the schema version was read.
pub fn status_read(request_id: &str, schema_version: Result<u32, String>) -> (r: String)
    ensures
        match schema_version {
            Ok(v) => r@ == ok_line(request_id@, status_json(v)),
            Err(e) => r@ == error_line(request_id@, CdcErrorCode::OperationFailed, e@),
        },
{
    match schema_version {
        Ok(v) => {
            let mut data = String::new();
            data.append("{\"device_type\":\"hub\",\"schema_version\":");
            push_unsigned(&mut data, v as u64);
            data.append("}");
            response_ok(request_id, data.as_str())
        },
        Err(e) => response_error(request_id, CdcErrorCode::OperationFailed, e.as_str()),
    }
}

/// One row that writing a parent configuration inserts.
#[derive(Debug, PartialEq, Eq)]
pub enum ConfigRow {
    Family { family_id: u32, display_name: String, enabled: i64 },
    Action {
        action_id: u32,
        action_name: String,
        target_type: &'static str,
        target_family_id: Option<u32>,
        web_message: Option<String>,
        enabled: i64,
    },
    StateChange { action_id: u32, state_type: &'static str, state_value: &'static str },
    NotificationSetting {
        action_id: u32,
        notification_enabled: i64,
        notification_message: Option<String>,
    },
    NotificationTarget { action_id: u32, family_id: u32 },
    Destination { family_id: u32, notification_type: String, destination: String, enabled: i64 },
}

pub ghost enum RowView {
    Family { family_id: u32, display_name: Seq<char>, enabled: i64 },
    Action {
        action_id: u32,
        action_name: Seq<char>,
        target_type: Seq<char>,
        target_family_id: Option<u32>,
        web_message: Option<Seq<char>>,
        enabled: i64,
    },
    StateChange { action_id: u32, state_type: Seq<char>, state_value: Seq<char> },
    NotificationSetting {
        action_id: u32,
        notification_enabled: i64,
        notification_message: Option<Seq<char>>,
    },
    NotificationTarget { action_id: u32, family_id: u32 },
    Destination {
        family_id: u32,
        notification_type: Seq<char>,
        destination: Seq<char>,
        enabled: i64,
    },
}

/// The integer SQLite stores for a flag.
pub open spec fn flag_of(b: bool) -> i64 {
    if b {
        1
    } else {
        0
    }
}

pub open spec fn opt_text(s: Option<String>) -> Option<Seq<char>> {
    match s {
        Some(v) => Some(v@),
        None => None,
    }
}

impl View for ConfigRow {
    type V = RowView;

    open spec fn view(&self) -> RowView {
        match self {
            ConfigRow::Family { family_id, display_name, enabled } => RowView::Family {
                family_id: *family_id,
                display_name: display_name@,
                enabled: *enabled,
            },
            ConfigRow::Action {
                action_id,
                action_name,
                target_type,
                target_family_id,
                web_message,
                enabled,
            } => RowView::Action {
                action_id: *action_id,
                action_name: action_name@,
                target_type: target_type@,
                target_family_id: *target_family_id,
                web_message: opt_text(*web_message),
                enabled: *enabled,
            },
            ConfigRow::StateChange { action_id, state_type, state_value } => RowView::StateChange {
                action_id: *action_id,
                state_type: state_type@,
                state_value: state_value@,
            },
            ConfigRow::NotificationSetting {
                action_id,
                notification_enabled,
                notification_message,
            } => RowView::NotificationSetting {
                action_id: *action_id,
                notification_enabled: *notification_enabled,
                notification_message: opt_text(*notification_message),
            },
            ConfigRow::NotificationTarget { action_id, family_id } => RowView::NotificationTarget {
                action_id: *action_id,
                family_id: *family_id,
            },
            ConfigRow::Destination { family_id, notification_type, destination, enabled } =>
                RowView::Destination {
                family_id: *family_id,
                notification_type: notification_type@,
                destination: destination@,
                enabled: *enabled,
            },
        }
    }
}

/// The row of an action itself.
pub open spec fn action_head_row(a: ActionConfig) -> RowView {
    RowView::Action {
        action_id: a.action_id,
        action_name: a.action_name@,
        target_type: spec_target_type_name(a.target_type),
        target_family_id: a.target_family_id,
        web_message: opt_text(a.web_message),
        enabled: flag_of(a.enabled),
    }
}

/// The rows of an action's state changes.
pub open spec fn change_rows(a: ActionConfig) -> Seq<RowView> {
    a.state_changes@.map_values(
        |c: StateChangeConfig| RowView::StateChange {
            action_id: a.action_id,
            state_type: spec_state_type_name(c.state_type),
            state_value: spec_state_value_name(c.state_value),
        },
    )
}

/// The notification setting row, written when notifications are on or a
/// message is set.
pub open spec fn setting_rows(a: ActionConfig) -> Seq<RowView> {
    if a.notification_enabled || a.notification_message is Some {
        seq![
            RowView::NotificationSetting {
                action_id: a.action_id,
                notification_enabled: flag_of(a.notification_enabled),
                notification_message: opt_text(a.notification_message),
            },
        ]
    } else {
        Seq::empty()
    }
}

/// The rows of an action's notification targets.
pub open spec fn target_rows(a: ActionConfig) -> Seq<RowView> {
    a.notification_targets@.map_values(
        |f: u32| RowView::NotificationTarget { action_id: a.action_id, family_id: f },
    )
}

/// The rows of one action: the action, its state changes, its notification
/// setting when notifications are on or a message is set, and its
/// notification targets.
pub open spec fn action_rows(a: ActionConfig) -> Seq<RowView> {
    seq![action_head_row(a)] + change_rows(a) + setting_rows(a) + target_rows(a)
}

/// Every row of a parent configuration, in the order they are inserted.
pub open spec fn config_rows_spec(c: ParentConfig) -> Seq<RowView> {
    c.families@.map_values(
        |f: FamilyConfig| RowView::Family {
            family_id: f.family_id,
            display_name: f.display_name@,
            enabled: flag_of(f.enabled),
        },
    ) + c.actions@.map_values(|a: ActionConfig| action_rows(a)).flatten()
        + c.family_notification_destinations@.map_values(
        |d: FamilyNotificationDestinationConfig| RowView::Destination {
            family_id: d.family_id,
            notification_type: d.notification_type@,
            destination: d.destination@,
            enabled: flag_of(d.enabled),
        },
    )
}

fn flag(value: bool) -> (r: i64)
    ensures
        r == if value { 1i64 } else { 0i64 },
{
    if value {
        1
    } else {
        0
    }
}

fn clone_opt(s: &Option<String>) -> (r: Option<String>)
    ensures
        opt_text(r) == opt_text(*s),
{
    match s {
        Some(v) => Some(v.clone()),
        None => None,
    }
}

#[verifier::loop_isolation(false)]
fn push_action_rows(rows: &mut Vec<ConfigRow>, a: &ActionConfig)
    ensures
        final(rows)@.map_values(|r: ConfigRow| r@) == old(rows)@.map_values(|r: ConfigRow| r@)
            + action_rows(*a),
{
    let ghost start = rows@.map_values(|r: ConfigRow| r@);
    rows.push(
        ConfigRow::Action {
            action_id: a.action_id,
            action_name: a.action_name.clone(),
            target_type: target_type_name(a.target_type),
            target_family_id: a.target_family_id,
            web_message: clone_opt(&a.web_message),
            enabled: flag(a.enabled),
        },
    );
    let ghost head = seq![
        RowView::Action {
            action_id: a.action_id,
            action_name: a.action_name@,
            target_type: spec_target_type_name(a.target_type),
            target_family_id: a.target_family_id,
            web_message: opt_text(a.web_message),
            enabled: flag_of(a.enabled),
        },
    ];
    proof {
        assert(rows@.map_values(|r: ConfigRow| r@) =~= start + head);
    }
    let ghost changes = a.state_changes@.map_values(
        |c: StateChangeConfig| RowView::StateChange {
            action_id: a.action_id,
            state_type: spec_state_type_name(c.state_type),
            state_value: spec_state_value_name(c.state_value),
        },
    );
    let mut i: usize = 0;
    while i < a.state_changes.len()
        invariant
            i <= a.state_changes@.len(),
            rows@.map_values(|r: ConfigRow| r@) == start + head + changes.subrange(0, i as int),
        decreases a.state_changes@.len() - i,
    {
        let c = a.state_changes[i];
        let ghost before = rows@;
        rows.push(
            ConfigRow::StateChange {
                action_id: a.action_id,
                state_type: state_type_name(c.state_type),
                state_value: state_value_name(c.state_value),
            },
        );
        proof {
            assert(rows@.map_values(|r: ConfigRow| r@) =~= before.map_values(|r: ConfigRow| r@).push(
                changes[i as int],
            ));
            assert(changes.subrange(0, i as int + 1) =~= changes.subrange(0, i as int).push(
                changes[i as int],
            ));
        }
        i = i + 1;
    }
    proof {
        assert(changes.subrange(0, a.state_changes@.len() as int) =~= changes);
    }
    let ghost setting = if a.notification_enabled || a.notification_message is Some {
        seq![
            RowView::NotificationSetting {
                action_id: a.action_id,
                notification_enabled: flag_of(a.notification_enabled),
                notification_message: opt_text(a.notification_message),
            },
        ]
    } else {
        Seq::<RowView>::empty()
    };
    if a.notification_enabled || a.notification_message.is_some() {
        rows.push(
            ConfigRow::NotificationSetting {
                action_id: a.action_id,
                notification_enabled: flag(a.notification_enabled),
                notification_message: clone_opt(&a.notification_message),
            },
        );
    }
    proof {
        assert(rows@.map_values(|r: ConfigRow| r@) =~= start + head + changes + setting);
    }
    let ghost targets = a.notification_targets@.map_values(
        |f: u32| RowView::NotificationTarget { action_id: a.action_id, family_id: f },
    );
    let mut k: usize = 0;
    while k < a.notification_targets.len()
        invariant
            k <= a.notification_targets@.len(),
            rows@.map_values(|r: ConfigRow| r@) == start + head + changes + setting
                + targets.subrange(0, k as int),
        decreases a.notification_targets@.len() - k,
    {
        let ghost before = rows@;
        rows.push(
            ConfigRow::NotificationTarget {
                action_id: a.action_id,
                family_id: a.notification_targets[k],
            },
        );
        proof {
            assert(rows@.map_values(|r: ConfigRow| r@) =~= before.map_values(|r: ConfigRow| r@).push(
                targets[k as int],
            ));
            assert(targets.subrange(0, k as int + 1) =~= targets.subrange(0, k as int).push(
                targets[k as int],
            ));
        }
        k = k + 1;
    }
    proof {
        assert(targets.subrange(0, a.notification_targets@.len() as int) =~= targets);
        assert(rows@.map_values(|r: ConfigRow| r@) =~= start + action_rows(*a));
    }
}

/// The rows that writing `config` inserts, after the old configuration is
/// deleted. Writing them in one transaction is the caller's part.
#[verifier::loop_isolation(false)]
pub fn config_rows(config: &ParentConfig) -> (r: Vec<ConfigRow>)
    ensures
        r@.map_values(|x: ConfigRow| x@) == config_rows_spec(*config),
{
    let mut rows: Vec<ConfigRow> = Vec::new();
    let ghost fams = config.families@.map_values(
        |f: FamilyConfig| RowView::Family {
            family_id: f.family_id,
            display_name: f.display_name@,
            enabled: flag_of(f.enabled),
        },
    );
    let mut i: usize = 0;
    while i < config.families.len()
        invariant
            i <= config.families@.len(),
            rows@.map_values(|x: ConfigRow| x@) == fams.subrange(0, i as int),
        decreases config.families@.len() - i,
    {
        let f = &config.families[i];
        rows.push(
            ConfigRow::Family {
                family_id: f.family_id,
                display_name: f.display_name.clone(),
                enabled: flag(f.enabled),
            },
        );
        proof {
            assert(rows@.map_values(|x: ConfigRow| x@) =~= fams.subrange(0, i as int + 1));
        }
        i = i + 1;
    }
    proof {
        assert(fams.subrange(0, config.families@.len() as int) =~= fams);
    }
    let ghost per_action = config.actions@.map_values(|a: ActionConfig| action_rows(a));
    let mut j: usize = 0;
    while j < config.actions.len()
        invariant
            j <= config.actions@.len(),
            rows@.map_values(|x: ConfigRow| x@) == fams + per_action.subrange(0, j as int).flatten(),
        decreases config.actions@.len() - j,
    {
        push_action_rows(&mut rows, &config.actions[j]);
        proof {
            per_action.subrange(0, j as int).lemma_flatten_push(per_action[j as int]);
            assert(per_action.subrange(0, j as int + 1) =~= per_action.subrange(0, j as int).push(
                per_action[j as int],
            ));
            assert(rows@.map_values(|x: ConfigRow| x@) =~= fams + per_action.subrange(
                0,
                j as int + 1,
            ).flatten());
        }
        j = j + 1;
    }
    proof {
        assert(per_action.subrange(0, config.actions@.len() as int) =~= per_action);
    }
    let ghost dests = config.family_notification_destinations@.map_values(
        |d: FamilyNotificationDestinationConfig| RowView::Destination {
            family_id: d.family_id,
            notification_type: d.notification_type@,
            destination: d.destination@,
            enabled: flag_of(d.enabled),
        },
    );
    let mut k: usize = 0;
    while k < config.family_notification_destinations.len()
        invariant
            k <= config.family_notification_destinations@.len(),
            rows@.map_values(|x: ConfigRow| x@) == fams + per_action.flatten() + dests.subrange(
                0,
                k as int,
            ),
        decreases config.family_notification_destinations@.len() - k,
    {
        let d = &config.family_notification_destinations[k];
        let ghost before = rows@;
        rows.push(
            ConfigRow::Destination {
                family_id: d.family_id,
                notification_type: d.notification_type.clone(),
                destination: d.destination.clone(),
                enabled: flag(d.enabled),
            },
        );
        proof {
            assert(rows@.map_values(|x: ConfigRow| x@) =~= before.map_values(|x: ConfigRow| x@).push(
                dests[k as int],
            ));
            assert(dests.subrange(0, k as int + 1) =~= dests.subrange(0, k as int).push(
                dests[k as int],
            ));
        }
        k = k + 1;
    }
    proof {
        assert(dests.subrange(0, config.family_notification_destinations@.len() as int) =~= dests);
    }
    rows
}

/// Whether `r` is the action that `get_config` reports for the stored
/// record, state changes, notification setting and targets. Without a
/// setting row, notifications are off and there is no message.
pub open spec fn loads_as(
    r: ActionConfig,
    action: ActionRecord,
    changes: Seq<ActionStateChangeRecord>,
    setting: Option<NotificationSettingRecord>,
    targets: Seq<NotificationTargetRecord>,
) -> bool {
    &&& r.action_id == action.action_id
    &&& r.action_name@ == action.action_name@
    &&& r.target_type == action.target_type
    &&& r.target_family_id == action.target_family_id
    &&& opt_text(r.web_message) == opt_text(action.web_message)
    &&& r.enabled == action.enabled
    &&& r.state_changes@ == changes.map_values(
        |c: ActionStateChangeRecord| StateChangeConfig {
            state_type: c.state_type,
            state_value: c.state_value,
        },
    )
    &&& r.notification_enabled == (setting matches Some(x) && x.notification_enabled)
    &&& opt_text(r.notification_message) == match setting {
        Some(x) => opt_text(x.notification_message),
        None => None,
    }
    &&& r.notification_targets@ == targets.map_values(|t: NotificationTargetRecord| t.family_id)
}

/// The Action row that a stored action record holds.
pub open spec fn record_row(r: ActionRecord) -> RowView {
    RowView::Action {
        action_id: r.action_id,
        action_name: r.action_name@,
        target_type: spec_target_type_name(r.target_type),
        target_family_id: r.target_family_id,
        web_message: opt_text(r.web_message),
        enabled: flag_of(r.enabled),
    }
}

/// The StateChange row that a stored state change holds.
pub open spec fn change_record_row(c: ActionStateChangeRecord) -> RowView {
    RowView::StateChange {
        action_id: c.action_id,
        state_type: spec_state_type_name(c.state_type),
        state_value: spec_state_value_name(c.state_value),
    }
}

/// The NotificationSetting rows that a stored setting holds.
pub open spec fn setting_record_rows(s: Option<NotificationSettingRecord>) -> Seq<RowView> {
    match s {
        Some(x) => seq![
            RowView::NotificationSetting {
                action_id: x.action_id,
                notification_enabled: flag_of(x.notification_enabled),
                notification_message: opt_text(x.notification_message),
            },
        ],
        None => Seq::empty(),
    }
}

/// The NotificationTarget row that a stored target holds.
pub open spec fn target_record_row(t: NotificationTargetRecord) -> RowView {
    RowView::NotificationTarget { action_id: t.action_id, family_id: t.family_id }
}

/// Whether two actions agree in every field.
pub open spec fn same_action(x: ActionConfig, y: ActionConfig) -> bool {
    &&& x.action_id == y.action_id
    &&& x.action_name@ == y.action_name@
    &&& x.target_type == y.target_type
    &&& x.target_family_id == y.target_family_id
    &&& opt_text(x.web_message) == opt_text(y.web_message)
    &&& x.enabled == y.enabled
    &&& x.state_changes@ == y.state_changes@
    &&& x.notification_enabled == y.notification_enabled
    &&& opt_text(x.notification_message) == opt_text(y.notification_message)
    &&& x.notification_targets@ == y.notification_targets@
}

/// What `set_config` stores is what `get_config` reports: when the tables
/// give back, for an action, the rows that were written for it (each stored
/// name read back as a value), the action loaded from them agrees with the
/// one written in every field.
pub proof fn law_action_rows_read_back(
    a: ActionConfig,
    action: ActionRecord,
    changes: Seq<ActionStateChangeRecord>,
    setting: Option<NotificationSettingRecord>,
    targets: Seq<NotificationTargetRecord>,
    loaded: ActionConfig,
)
    requires
        record_row(action) == action_head_row(a),
        changes.map_values(|c: ActionStateChangeRecord| change_record_row(c)) == change_rows(a),
        setting_record_rows(setting) == setting_rows(a),
        targets.map_values(|t: NotificationTargetRecord| target_record_row(t)) == target_rows(a),
        loads_as(loaded, action, changes, setting, targets),
    ensures
        same_action(loaded, a),
{
    crate::common::action::law_target_type_names_distinct(action.target_type, a.target_type);
    let written = change_rows(a);
    assert(changes.len() == a.state_changes@.len()) by {
        assert(changes.map_values(|c: ActionStateChangeRecord| change_record_row(c)).len() == written.len());
    }
    assert forall|i: int| 0 <= i < changes.len() implies #[trigger] loaded.state_changes@[i]
        == a.state_changes@[i] by {
        assert(changes.map_values(|c: ActionStateChangeRecord| change_record_row(c))[i] == written[i]);
        crate::common::action::law_state_type_names_distinct(
            changes[i].state_type,
            a.state_changes@[i].state_type,
        );
        crate::common::action::law_state_value_names_distinct(
            changes[i].state_value,
            a.state_changes@[i].state_value,
        );
    }
    assert(loaded.state_changes@ =~= a.state_changes@);
    assert(targets.len() == a.notification_targets@.len()) by {
        assert(targets.map_values(|t: NotificationTargetRecord| target_record_row(t)).len()
            == target_rows(a).len());
    }
    assert forall|i: int| 0 <= i < targets.len() implies #[trigger] loaded.notification_targets@[i]
        == a.notification_targets@[i] by {
        assert(targets.map_values(|t: NotificationTargetRecord| target_record_row(t))[i]
            == target_rows(a)[i]);
    }
    assert(loaded.notification_targets@ =~= a.notification_targets@);
    let row = RowView::NotificationSetting {
        action_id: a.action_id,
        notification_enabled: flag_of(a.notification_enabled),
        notification_message: opt_text(a.notification_message),
    };
    if a.notification_enabled || a.notification_message is Some {
        assert(setting_rows(a) == seq![row]);
        match setting {
            Some(x) => {
                assert(setting_record_rows(setting)[0] == seq![row][0]);
            },
            None => {
                assert(setting_record_rows(setting).len() == 0);
            },
        }
    } else {
        assert(setting_rows(a).len() == 0);
        match setting {
            Some(x) => {
                assert(setting_record_rows(setting).len() == 1);
            },
            None => {},
        }
    }
}

/// An action as `get_config` reports it, from its stored record, state
/// changes, notification setting and targets. Without a setting row,
/// notifications are off and there is no message.
pub fn load_action(
    action: ActionRecord,
    changes: Vec<ActionStateChangeRecord>,
    setting: Option<NotificationSettingRecord>,
    targets: Vec<NotificationTargetRecord>,
) -> (r: ActionConfig)
    ensures
        loads_as(r, action, changes@, setting, targets@),
{
    let mut state_changes: Vec<StateChangeConfig> = Vec::new();
    let mut i: usize = 0;
    while i < changes.len()
        invariant
            i <= changes@.len(),
            state_changes@ == changes@.subrange(0, i as int).map_values(
                |c: ActionStateChangeRecord| StateChangeConfig {
                    state_type: c.state_type,
                    state_value: c.state_value,
                },
            ),
        decreases changes@.len() - i,
    {
        state_changes.push(
            StateChangeConfig { state_type: changes[i].state_type, state_value: changes[i].state_value },
        );
        proof {
            assert(changes@.subrange(0, i as int + 1) =~= changes@.subrange(0, i as int).push(
                changes@[i as int],
            ));
            assert(state_changes@ =~= changes@.subrange(0, i as int + 1).map_values(
                |c: ActionStateChangeRecord| StateChangeConfig {
                    state_type: c.state_type,
                    state_value: c.state_value,
                },
            ));
        }
        i = i + 1;
    }
    proof {
        assert(changes@.subrange(0, changes@.len() as int) =~= changes@);
    }
    let mut notification_targets: Vec<u32> = Vec::new();
    let mut k: usize = 0;
    while k < targets.len()
        invariant
            k <= targets@.len(),
            notification_targets@ == targets@.subrange(0, k as int).map_values(
                |t: NotificationTargetRecord| t.family_id,
            ),
        decreases targets@.len() - k,
    {
        notification_targets.push(targets[k].family_id);
        proof {
            assert(notification_targets@ =~= targets@.subrange(0, k as int + 1).map_values(
                |t: NotificationTargetRecord| t.family_id,
            ));
        }
        k = k + 1;
    }
    proof {
        assert(targets@.subrange(0, targets@.len() as int) =~= targets@);
    }
    let (notification_enabled, notification_message) = match setting {
        Some(x) => (x.notification_enabled, x.notification_message),
        None => (false, None),
    };
    ActionConfig {
        action_id: action.action_id,
        action_name: action.action_name,
        target_type: action.target_type,
        target_family_id: action.target_family_id,
        web_message: action.web_message,
        enabled: action.enabled,
        state_changes,
        notification_enabled,
        notification_message,
        notification_targets,
    }
}

/// A parent configuration from the stored families, the loaded actions and
/// the families' notification destinations.
pub fn load_config(
    families: Vec<FamilyRecord>,
    actions: Vec<ActionConfig>,
    destinations: Vec<FamilyNotificationDestination>,
) -> (r: ParentConfig)
    ensures
        r.families@.len() == families@.len(),
        forall|i: int|
            0 <= i < families@.len() ==> (#[trigger] r.families@[i]).family_id
                == families@[i].family_id && r.families@[i].display_name@
                == families@[i].display_name@ && r.families@[i].enabled == families@[i].enabled,
        r.actions@ == actions@,
        r.family_notification_destinations@.len() == destinations@.len(),
        forall|i: int|
            0 <= i < destinations@.len() ==> (#[trigger] r.family_notification_destinations@[i]).family_id
                == destinations@[i].family_id
                && r.family_notification_destinations@[i].notification_type@
                == destinations@[i].notification_type@
                && r.family_notification_destinations@[i].destination@
                == destinations@[i].destination@
                && r.family_notification_destinations@[i].enabled == destinations@[i].enabled,
{
    let mut fams: Vec<FamilyConfig> = Vec::new();
    let mut i: usize = 0;
    while i < families.len()
        invariant
            i <= families@.len(),
            fams@.len() == i,
            forall|k: int|
                0 <= k < i ==> (#[trigger] fams@[k]).family_id == families@[k].family_id
                    && fams@[k].display_name@ == families@[k].display_name@ && fams@[k].enabled
                    == families@[k].enabled,
        decreases families@.len() - i,
    {
        let f = &families[i];
        fams.push(
            FamilyConfig {
                family_id: f.family_id,
                display_name: f.display_name.clone(),
                enabled: f.enabled,
            },
        );
        i = i + 1;
    }
    let mut dests: Vec<FamilyNotificationDestinationConfig> = Vec::new();
    let mut k: usize = 0;
    while k < destinations.len()
        invariant
            k <= destinations@.len(),
            dests@.len() == k,
            forall|m: int|
                0 <= m < k ==> (#[trigger] dests@[m]).family_id == destinations@[m].family_id
                    && dests@[m].notification_type@ == destinations@[m].notification_type@
                    && dests@[m].destination@ == destinations@[m].destination@
                    && dests@[m].enabled == destinations@[m].enabled,
        decreases destinations@.len() - k,
    {
        let d = &destinations[k];
        dests.push(
            FamilyNotificationDestinationConfig {
                family_id: d.family_id,
                notification_type: d.notification_type.clone(),
                destination: d.destination.clone(),
                enabled: d.enabled,
            },
        );
        k = k + 1;
    }
    ParentConfig { families: fams, actions, family_notification_destinations: dests }
}

/// A configuration reaches the store only through a current-version
/// `set_config` request, unchanged, and only when it passed validation: every
/// other request, and every invalid configuration, is answered without a
/// save.
pub proof fn law_only_valid_configurations_are_saved(request: HubCdcRequest, step: HubCdcStep)
    requires
        route(request, step),
    ensures
        step matches HubCdcStep::SaveConfig { request_id, config } ==> {
            &&& request.version == 1
            &&& request.command@ == "set_config"@
            &&& request_id@ == request.request_id@
            &&& request.params == Ok::<ParentConfig, String>(config)
            &&& config_problem(config) is None
        },
{
}

/// Feeding `a` and then `b` leaves the decoder as feeding `a + b` at once
/// does, and completes the same lines in the same order: where a read splits
/// the stream does not matter.
pub proof fn law_line_split_invariant(current: Seq<u8>, dropping: bool, a: Seq<u8>, b: Seq<u8>)
    ensures
        ({
            let (c1, d1, out1) = line_run(current, dropping, a);
            let (c2, d2, out2) = line_run(c1, d1, b);
            let (c, d, out) = line_run(current, dropping, a + b);
            c == c2 && d == d2 && out == out1 + out2
        }),
    decreases b.len(),
{
    if b.len() == 0 {
        assert(a + b =~= a);
        let out1 = line_run(current, dropping, a).2;
        assert(out1 + Seq::<Seq<u8>>::empty() =~= out1);
    } else {
        law_line_split_invariant(current, dropping, a, b.drop_last());
        assert((a + b).drop_last() =~= a + b.drop_last());
        assert((a + b).last() == b.last());
        let (c1, d1, out1) = line_run(current, dropping, a);
        let out2 = line_run(c1, d1, b.drop_last()).2;
        assert forall|x: Seq<u8>| (out1 + out2).push(x) =~= out1 + out2.push(x) by {}
    }
}

/// The first rows of a configuration are its families, in order, each with
/// its identifier, its name and its enabled flag stored as 1 or 0.
pub proof fn law_family_rows_carry_flag(c: ParentConfig)
    ensures
        forall|i: int|
            0 <= i < c.families@.len() ==> (#[trigger] config_rows_spec(c)[i] == (RowView::Family {
                family_id: c.families@[i].family_id,
                display_name: c.families@[i].display_name@,
                enabled: if c.families@[i].enabled {
                    1i64
                } else {
                    0i64
                },
            })),
{
}

/// Whether a stored family record holds what `row` wrote: its identifier,
/// its name, and enabled exactly when the stored flag is not 0.
pub open spec fn family_read_back(row: RowView, rec: FamilyRecord) -> bool {
    match row {
        RowView::Family { family_id, display_name, enabled } => rec.family_id == family_id
            && rec.display_name@ == display_name && rec.enabled == (enabled != 0),
        _ => false,
    }
}

/// What `set_config` stores for the families is what `get_config` reports:
/// when the table gives back, for each family row written, a record holding
/// that row, the families loaded from those records are the ones written,
/// enabled flag included.
pub proof fn law_family_rows_read_back(c: ParentConfig, records: Seq<FamilyRecord>, loaded: ParentConfig)
    requires
        records.len() == c.families@.len(),
        forall|i: int| 0 <= i < records.len() ==> family_read_back(config_rows_spec(c)[i], #[trigger] records[i]),
        loaded.families@.len() == records.len(),
        forall|i: int|
            0 <= i < records.len() ==> (#[trigger] loaded.families@[i]).family_id == records[i].family_id
                && loaded.families@[i].display_name@ == records[i].display_name@
                && loaded.families@[i].enabled == records[i].enabled,
    ensures
        forall|i: int|
            0 <= i < c.families@.len() ==> (#[trigger] loaded.families@[i]).family_id
                == c.families@[i].family_id && loaded.families@[i].display_name@
                == c.families@[i].display_name@ && loaded.families@[i].enabled
                == c.families@[i].enabled,
{
    law_family_rows_carry_flag(c);
    assert forall|i: int| 0 <= i < c.families@.len() implies (#[trigger] loaded.families@[i]).family_id
        == c.families@[i].family_id && loaded.families@[i].display_name@
        == c.families@[i].display_name@ && loaded.families@[i].enabled
        == c.families@[i].enabled by {
        assert(family_read_back(config_rows_spec(c)[i], records[i]));
    }
}

/// The last rows of a configuration are its families' notification
/// destinations, in order, each with its family, type, address and enabled
/// flag stored as 1 or 0.
pub proof fn law_destination_rows_carry_flag(c: ParentConfig)
    ensures
        ({
            let rows = config_rows_spec(c);
            let ds = c.family_notification_destinations@;
            &&& rows.len() >= ds.len()
            &&& forall|k: int|
                0 <= k < ds.len() ==> (#[trigger] rows[rows.len() - ds.len() + k] == (RowView::Destination {
                    family_id: ds[k].family_id,
                    notification_type: ds[k].notification_type@,
                    destination: ds[k].destination@,
                    enabled: if ds[k].enabled {
                        1i64
                    } else {
                        0i64
                    },
                }))
        }),
{
    let fams = c.families@.map_values(
        |f: FamilyConfig| RowView::Family {
            family_id: f.family_id,
            display_name: f.display_name@,
            enabled: flag_of(f.enabled),
        },
    );
    let acts = c.actions@.map_values(|a: ActionConfig| action_rows(a)).flatten();
    let dests = c.family_notification_destinations@.map_values(
        |d: FamilyNotificationDestinationConfig| RowView::Destination {
            family_id: d.family_id,
            notification_type: d.notification_type@,
            destination: d.destination@,
            enabled: flag_of(d.enabled),
        },
    );
    let rows = config_rows_spec(c);
    assert(rows == fams + acts + dests);
    let ds = c.family_notification_destinations@;
    assert forall|k: int| 0 <= k < ds.len() implies #[trigger] rows[rows.len() - ds.len() + k] == (
    RowView::Destination {
        family_id: ds[k].family_id,
        notification_type: ds[k].notification_type@,
        destination: ds[k].destination@,
        enabled: if ds[k].enabled {
            1i64
        } else {
            0i64
        },
    }) by {
        assert(rows[rows.len() - ds.len() + k] == dests[k]);
    }
}

/// Between the families and the destinations come the actions' rows, one
/// action after another in the configuration's order, each as
/// `law_action_rows_read_back` reads it back.
pub proof fn law_action_rows_in_order(c: ParentConfig)
    ensures
        ({
            let rows = config_rows_spec(c);
            let nf = c.families@.len() as int;
            let nd = c.family_notification_destinations@.len() as int;
            &&& rows.len() >= nf + nd
            &&& rows.subrange(nf, rows.len() - nd) == c.actions@.map_values(|a: ActionConfig| action_rows(a)).flatten()
        }),
{
    let fams = c.families@.map_values(
        |f: FamilyConfig| RowView::Family {
            family_id: f.family_id,
            display_name: f.display_name@,
            enabled: flag_of(f.enabled),
        },
    );
    let acts = c.actions@.map_values(|a: ActionConfig| action_rows(a)).flatten();
    let dests = c.family_notification_destinations@.map_values(
        |d: FamilyNotificationDestinationConfig| RowView::Destination {
            family_id: d.family_id,
            notification_type: d.notification_type@,
            destination: d.destination@,
            enabled: flag_of(d.enabled),
        },
    );
    let rows = config_rows_spec(c);
    assert(rows == fams + acts + dests);
    assert(rows.subrange(fams.len() as int, rows.len() - dests.len()) =~= acts);
}

} // verus!
