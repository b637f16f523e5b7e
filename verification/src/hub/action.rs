//! Business state changed by actions, and the checks an action passes
//! before an EVENT that names it is accepted.

use vstd::prelude::*;

use crate::common::action::{ActionId, StateType, StateValue, TargetType};
use crate::hub::db::{ActionRecord, ActionStateChangeRecord};
use crate::text::{decimal, decimal_string};

verus! {

#[derive(Clone, Copy, Debug, PartialEq, Eq, Hash, Structural)]
pub enum ActionStateScope {
    Common,
    Family(u32),
}

#[derive(Clone, Copy, Debug, PartialEq, Eq, Hash, Structural)]
pub struct ActionStateKey {
    pub scope: ActionStateScope,
    pub state_type: StateType,
}

#[derive(Clone, Copy, Debug, PartialEq, Eq, Structural)]
pub enum StateApplyError {
    DuplicateStateType(StateType),
}

/// The Rust name of a state type, as error messages print it.
pub open spec fn state_type_ident(t: StateType) -> Seq<char> {
    match t {
        StateType::EntryPermission => "EntryPermission"@,
        StateType::MealNotice => "MealNotice"@,
        StateType::SnackNotice => "SnackNotice"@,
        StateType::HelpNotice => "HelpNotice"@,
        StateType::Mailbox => "Mailbox"@,
    }
}

fn state_type_ident_str(t: StateType) -> (r: &'static str)
    ensures
        r@ == state_type_ident(t),
{
    match t {
        StateType::EntryPermission => "EntryPermission",
        StateType::MealNotice => "MealNotice",
        StateType::SnackNotice => "SnackNotice",
        StateType::HelpNotice => "HelpNotice",
        StateType::Mailbox => "Mailbox",
    }
}

/// The message of a state application error.
pub open spec fn state_apply_error_text(e: StateApplyError) -> Seq<char> {
    match e {
        StateApplyError::DuplicateStateType(t) => "duplicate state change for "@ + state_type_ident(t),
    }
}

impl StateApplyError {
    pub fn message(&self) -> (r: String)
        ensures
            r@ == state_apply_error_text(*self),
    {
        match self {
            StateApplyError::DuplicateStateType(t) => {
                let mut out = String::new();
                out.append("duplicate state change for ");
                out.append(state_type_ident_str(*t));
                out
            },
        }
    }
}

/// The map held by a sequence of entries whose keys are distinct.
pub open spec fn entries_map(entries: Seq<(ActionStateKey, StateValue)>) -> Map<
    ActionStateKey,
    StateValue,
>
    decreases entries.len(),
{
    if entries.len() == 0 {
        Map::empty()
    } else {
        entries_map(entries.drop_last()).insert(entries.last().0, entries.last().1)
    }
}

pub open spec fn distinct_keys(entries: Seq<(ActionStateKey, StateValue)>) -> bool {
    forall|i: int, j: int|
        0 <= i < j < entries.len() ==> #[trigger] entries[i].0 != #[trigger] entries[j].0
}

/// The index of the first change whose state type already occurred earlier
/// in the batch.
pub open spec fn first_repeat(changes: Seq<ActionStateChangeRecord>) -> Option<int>
    decreases changes.len(),
{
    if changes.len() == 0 {
        None
    } else {
        match first_repeat(changes.drop_last()) {
            Some(i) => Some(i),
            None => if exists|k: int|
                0 <= k < changes.len() - 1 && #[trigger] changes[k].state_type
                    == changes.last().state_type {
                Some(changes.len() - 1)
            } else {
                None
            },
        }
    }
}

/// The values that a batch writes under `scope`: each change's value under
/// its state type.
pub open spec fn batch_map(scope: ActionStateScope, changes: Seq<ActionStateChangeRecord>) -> Map<
    ActionStateKey,
    StateValue,
>
    decreases changes.len(),
{
    if changes.len() == 0 {
        Map::empty()
    } else {
        batch_map(scope, changes.drop_last()).insert(
            ActionStateKey { scope, state_type: changes.last().state_type },
            changes.last().state_value,
        )
    }
}

proof fn lemma_entries_map_push(
    entries: Seq<(ActionStateKey, StateValue)>,
    entry: (ActionStateKey, StateValue),
)
    ensures
        entries_map(entries.push(entry)) == entries_map(entries).insert(entry.0, entry.1),
{
    assert(entries.push(entry).drop_last() =~= entries);
}

proof fn lemma_entries_map_domain(entries: Seq<(ActionStateKey, StateValue)>, k: ActionStateKey)
    ensures
        entries_map(entries).contains_key(k) <==> exists|i: int|
            0 <= i < entries.len() && #[trigger] entries[i].0 == k,
    decreases entries.len(),
{
    if entries.len() > 0 {
        lemma_entries_map_domain(entries.drop_last(), k);
        if entries_map(entries).contains_key(k) && entries.last().0 != k {
            let i = choose|i: int|
                0 <= i < entries.drop_last().len() && #[trigger] entries.drop_last()[i].0 == k;
            assert(entries[i].0 == k);
        }
        if exists|i: int| 0 <= i < entries.len() && #[trigger] entries[i].0 == k {
            let i = choose|i: int| 0 <= i < entries.len() && #[trigger] entries[i].0 == k;
            if i < entries.len() - 1 {
                assert(entries.drop_last()[i].0 == k);
            }
        }
    }
}

proof fn lemma_entries_map_value(entries: Seq<(ActionStateKey, StateValue)>, i: int)
    requires
        distinct_keys(entries),
        0 <= i < entries.len(),
    ensures
        entries_map(entries).contains_key(entries[i].0),
        entries_map(entries)[entries[i].0] == entries[i].1,
    decreases entries.len(),
{
    if i < entries.len() - 1 {
        assert(entries.drop_last()[i] == entries[i]);
        lemma_entries_map_value(entries.drop_last(), i);
    }
}

proof fn lemma_entries_map_update(
    entries: Seq<(ActionStateKey, StateValue)>,
    i: int,
    value: StateValue,
)
    requires
        distinct_keys(entries),
        0 <= i < entries.len(),
    ensures
        entries_map(entries.update(i, (entries[i].0, value))) == entries_map(entries).insert(
            entries[i].0,
            value,
        ),
    decreases entries.len(),
{
    let updated = entries.update(i, (entries[i].0, value));
    if i == entries.len() - 1 {
        assert(updated.drop_last() =~= entries.drop_last());
        assert(entries_map(entries).insert(entries[i].0, value) =~= entries_map(
            entries.drop_last(),
        ).insert(entries[i].0, value));
    } else {
        assert(updated.drop_last() =~= entries.drop_last().update(i, (entries[i].0, value)));
        lemma_entries_map_update(entries.drop_last(), i, value);
        assert(entries.last().0 != entries[i].0);
        assert(entries_map(updated) =~= entries_map(entries).insert(entries[i].0, value));
    }
}

/// The business state set by actions. Communication status is kept apart,
/// in the communication state manager.
#[derive(Debug)]
pub struct ActionStateManager {
    entries: Vec<(ActionStateKey, StateValue)>,
}

impl View for ActionStateManager {
    type V = Map<ActionStateKey, StateValue>;

    closed spec fn view(&self) -> Map<ActionStateKey, StateValue> {
        entries_map(self.entries@)
    }
}

impl Default for ActionStateManager {
    fn default() -> (r: Self)
        ensures
            r@ == Map::<ActionStateKey, StateValue>::empty(),
    {
        ActionStateManager::new()
    }
}

/// The index of the entry for `key`, if there is one.
fn position_of(entries: &Vec<(ActionStateKey, StateValue)>, key: ActionStateKey) -> (r: Option<usize>)
    ensures
        match r {
            Some(i) => i < entries@.len() && entries@[i as int].0 == key,
            None => forall|i: int| 0 <= i < entries@.len() ==> entries@[i].0 != key,
        },
{
    let mut i: usize = 0;
    while i < entries.len()
        invariant
            i <= entries@.len(),
            forall|k: int| 0 <= k < i ==> entries@[k].0 != key,
        decreases entries@.len() - i,
    {
        if entries[i].0 == key {
            return Some(i);
        }
        i = i + 1;
    }
    None
}

impl ActionStateManager {
    /// Each key has at most one entry.
    #[verifier::type_invariant]
    closed spec fn wf(&self) -> bool {
        distinct_keys(self.entries@)
    }

    pub fn new() -> (r: Self)
        ensures
            r@ == Map::<ActionStateKey, StateValue>::empty(),
    {
        ActionStateManager { entries: Vec::new() }
    }

    pub fn get(&self, scope: ActionStateScope, state_type: StateType) -> (r: Option<StateValue>)
        ensures
            r == self@.get(ActionStateKey { scope, state_type }),
    {
        proof {
            use_type_invariant(self);
        }
        let key = ActionStateKey { scope, state_type };
        match position_of(&self.entries, key) {
            Some(i) => {
                proof {
                    lemma_entries_map_value(self.entries@, i as int);
                }
                Some(self.entries[i].1)
            },
            None => {
                proof {
                    lemma_entries_map_domain(self.entries@, key);
                }
                None
            },
        }
    }

    /// Every key with its value, each key once.
    pub fn values(&self) -> (r: Vec<(ActionStateKey, StateValue)>)
        ensures
            distinct_keys(r@),
            entries_map(r@) == self@,
    {
        proof {
            use_type_invariant(self);
        }
        vstd::slice::slice_to_vec(self.entries.as_slice())
    }

    fn insert(&mut self, key: ActionStateKey, value: StateValue)
        ensures
            final(self)@ == old(self)@.insert(key, value),
    {
        proof {
            use_type_invariant(&*self);
        }
        let mut other = ActionStateManager { entries: Vec::new() };
        std::mem::swap(self, &mut other);
        proof {
            use_type_invariant(&other);
        }
        let ActionStateManager { mut entries } = other;
        match position_of(&entries, key) {
            Some(i) => {
                proof {
                    lemma_entries_map_update(entries@, i as int, value);
                    assert(entries@.update(i as int, (key, value)) == entries@.update(
                        i as int,
                        (entries@[i as int].0, value),
                    ));
                }
                entries.set(i, (key, value));
            },
            None => {
                proof {
                    lemma_entries_map_push(entries@, (key, value));
                }
                entries.push((key, value));
            },
        }
        *self = ActionStateManager { entries };
    }

    /// Applies every change of one action under `scope`, or none of them: a
    /// batch that names a state type twice is refused and leaves the state
    /// unchanged.
    #[verifier::loop_isolation(false)]
    pub fn apply_batch(&mut self, scope: ActionStateScope, changes: &[ActionStateChangeRecord]) -> (r:
        Result<(), StateApplyError>)
        ensures
            match first_repeat(changes@) {
                Some(j) => r == Err::<(), StateApplyError>(
                    StateApplyError::DuplicateStateType(changes@[j].state_type),
                ) && final(self)@ == old(self)@,
                None => r is Ok && final(self)@ == old(self)@.union_prefer_right(
                    batch_map(scope, changes@),
                ),
            },
    {
        let mut i: usize = 0;
        while i < changes.len()
            invariant
                i <= changes@.len(),
                first_repeat(changes@.subrange(0, i as int)) is None,
            decreases changes@.len() - i,
        {
            let mut k: usize = 0;
            while k < i
                invariant
                    k <= i < changes@.len(),
                    forall|m: int| 0 <= m < k ==> changes@[m].state_type != changes@[i as int].state_type,
                decreases i - k,
            {
                if changes[k].state_type == changes[i].state_type {
                    proof {
                        let pre = changes@.subrange(0, i as int + 1);
                        assert(pre.drop_last() =~= changes@.subrange(0, i as int));
                        assert(pre[k as int].state_type == pre.last().state_type);
                        lemma_first_repeat_extends(changes@, i as int + 1);
                    }
                    return Err(StateApplyError::DuplicateStateType(changes[i].state_type));
                }
                k = k + 1;
            }
            proof {
                let pre = changes@.subrange(0, i as int + 1);
                assert(pre.drop_last() =~= changes@.subrange(0, i as int));
            }
            i = i + 1;
        }
        proof {
            assert(changes@.subrange(0, changes@.len() as int) =~= changes@);
        }
        let ghost start = self@;
        let mut j: usize = 0;
        while j < changes.len()
            invariant
                j <= changes@.len(),
                self@ == start.union_prefer_right(batch_map(scope, changes@.subrange(0, j as int))),
            decreases changes@.len() - j,
        {
            let key = ActionStateKey { scope, state_type: changes[j].state_type };
            self.insert(key, changes[j].state_value);
            proof {
                let pre = changes@.subrange(0, j as int + 1);
                assert(pre.drop_last() =~= changes@.subrange(0, j as int));
                assert(self@ =~= start.union_prefer_right(batch_map(scope, pre)));
            }
            j = j + 1;
        }
        proof {
            assert(changes@.subrange(0, changes@.len() as int) =~= changes@);
        }
        Ok(())
    }
}

/// Once a prefix has a repeated state type, every longer prefix reports the
/// same first repeat.
/// The key under which a change of a batch applied under `scope` is kept.
pub open spec fn change_key(scope: ActionStateScope, c: ActionStateChangeRecord) -> ActionStateKey {
    ActionStateKey { scope, state_type: c.state_type }
}

proof fn lemma_batch_map(scope: ActionStateScope, changes: Seq<ActionStateChangeRecord>)
    requires
        first_repeat(changes) is None,
    ensures
        forall|i: int|
            0 <= i < changes.len() ==> batch_map(scope, changes).dom().contains(
                #[trigger] change_key(scope, changes[i]),
            ) && batch_map(scope, changes)[change_key(scope, changes[i])] == changes[i].state_value,
        forall|k: ActionStateKey|
            #[trigger] batch_map(scope, changes).dom().contains(k) ==> exists|i: int|
                0 <= i < changes.len() && k == #[trigger] change_key(scope, changes[i]),
    decreases changes.len(),
{
    if changes.len() > 0 {
        let p = changes.drop_last();
        let last = changes.len() - 1;
        lemma_batch_map(scope, p);
        assert forall|i: int| 0 <= i < changes.len() implies batch_map(scope, changes).dom().contains(
            #[trigger] change_key(scope, changes[i]),
        ) && batch_map(scope, changes)[change_key(scope, changes[i])] == changes[i].state_value by {
            if i < last {
                assert(p[i] == changes[i]);
                assert(changes[i].state_type != changes.last().state_type);
            }
        }
        assert forall|k: ActionStateKey| #[trigger] batch_map(scope, changes).dom().contains(k) implies exists|i: int|
            0 <= i < changes.len() && k == #[trigger] change_key(scope, changes[i]) by {
            if k == change_key(scope, changes[last]) {
            } else {
                let i = choose|i: int| 0 <= i < p.len() && k == #[trigger] change_key(scope, p[i]);
                assert(p[i] == changes[i]);
            }
        }
    }
}

/// An accepted batch reads back change by change: afterwards each change's
/// value is kept under `scope` and its state type, and every key that no
/// change names keeps what it held before.
pub proof fn law_batch_reads_back(
    before: Map<ActionStateKey, StateValue>,
    scope: ActionStateScope,
    changes: Seq<ActionStateChangeRecord>,
)
    requires
        first_repeat(changes) is None,
    ensures
        ({
            let after = before.union_prefer_right(batch_map(scope, changes));
            &&& forall|i: int|
                0 <= i < changes.len() ==> after.get(#[trigger] change_key(scope, changes[i])) == Some(
                    changes[i].state_value,
                )
            &&& forall|k: ActionStateKey|
                (forall|i: int| 0 <= i < changes.len() ==> k != #[trigger] change_key(scope, changes[i]))
                    ==> #[trigger] after.get(k) == before.get(k)
        }),
{
    lemma_batch_map(scope, changes);
}

/// A batch is refused exactly when two of its changes name the same state
/// type, and the state type it reports is one that occurred earlier in the
/// batch.
pub proof fn law_batch_refused_exactly_on_repeated_state_type(changes: Seq<ActionStateChangeRecord>)
    ensures
        first_repeat(changes) is Some <==> exists|i: int, j: int|
            0 <= i < j < changes.len() && #[trigger] changes[i].state_type
                == #[trigger] changes[j].state_type,
        first_repeat(changes) matches Some(j) ==> 0 <= j < changes.len() && exists|i: int|
            0 <= i < j && #[trigger] changes[i].state_type == changes[j].state_type,
    decreases changes.len(),
{
    if changes.len() > 0 {
        let p = changes.drop_last();
        law_batch_refused_exactly_on_repeated_state_type(p);
        if first_repeat(p) is Some {
            let (i, j) = choose|i: int, j: int|
                0 <= i < j < p.len() && #[trigger] p[i].state_type == #[trigger] p[j].state_type;
            assert(changes[i].state_type == changes[j].state_type);
            let j0 = first_repeat(p)->0;
            let i0 = choose|i: int| 0 <= i < j0 && #[trigger] p[i].state_type == p[j0].state_type;
            assert(changes[i0].state_type == changes[j0].state_type);
        } else {
            let last = changes.len() - 1;
            if exists|k: int| 0 <= k < changes.len() - 1 && #[trigger] changes[k].state_type
                == changes.last().state_type {
                let k = choose|k: int| 0 <= k < changes.len() - 1 && #[trigger] changes[k].state_type
                    == changes.last().state_type;
                assert(changes[k].state_type == changes[last].state_type);
            } else {
                assert forall|i: int, j: int|
                    0 <= i < j < changes.len() implies #[trigger] changes[i].state_type
                        != #[trigger] changes[j].state_type by {
                    if j < last {
                        assert(p[i].state_type == changes[i].state_type);
                        assert(p[j].state_type == changes[j].state_type);
                    }
                }
            }
        }
    }
}

proof fn lemma_first_repeat_extends(changes: Seq<ActionStateChangeRecord>, n: int)
    requires
        0 < n <= changes.len(),
        first_repeat(changes.subrange(0, n)) is Some,
    ensures
        first_repeat(changes) == first_repeat(changes.subrange(0, n)),
    decreases changes.len() - n,
{
    if n < changes.len() {
        let longer = changes.subrange(0, n + 1);
        assert(longer.drop_last() =~= changes.subrange(0, n));
        lemma_first_repeat_extends(changes, n + 1);
    } else {
        assert(changes.subrange(0, n) =~= changes);
    }
}

/// An action that passed every check, with the scope its state changes
/// apply to.
#[derive(Debug, PartialEq, Eq)]
pub struct ValidatedAction {
    pub action: ActionRecord,
    pub scope: ActionStateScope,
    pub state_changes: Vec<ActionStateChangeRecord>,
}

/// Why an action cannot run. Failures of the database that the facts come
/// from are reported by the caller that read them.
#[derive(Clone, Copy, Debug, PartialEq, Eq, Structural)]
pub enum ActionError {
    NotFound(ActionId),
    Disabled(ActionId),
    FamilyTargetMissing(ActionId),
    CommonTargetHasFamily(ActionId),
    TargetFamilyNotFound { action_id: ActionId, family_id: u32 },
    State(StateApplyError),
}

/// The message of an action error.
pub open spec fn action_error_text(e: ActionError) -> Seq<char> {
    match e {
        ActionError::NotFound(a) => "Action "@ + decimal(a as nat) + " does not exist"@,
        ActionError::Disabled(a) => "Action "@ + decimal(a as nat) + " is disabled"@,
        ActionError::FamilyTargetMissing(a) => "FAMILY Action "@ + decimal(a as nat)
            + " has no target family"@,
        ActionError::CommonTargetHasFamily(a) => "COMMON Action "@ + decimal(a as nat)
            + " has a target family"@,
        ActionError::TargetFamilyNotFound { action_id, family_id } => "Action "@ + decimal(
            action_id as nat,
        ) + " targets missing family "@ + decimal(family_id as nat),
        ActionError::State(s) => "Action state application failed: "@ + state_apply_error_text(s),
    }
}

impl ActionError {
    pub fn message(&self) -> (r: String)
        ensures
            r@ == action_error_text(*self),
    {
        let mut out = String::new();
        match self {
            ActionError::NotFound(a) => {
                out.append("Action ");
                out.append(decimal_string(*a as u64).as_str());
                out.append(" does not exist");
            },
            ActionError::Disabled(a) => {
                out.append("Action ");
                out.append(decimal_string(*a as u64).as_str());
                out.append(" is disabled");
            },
            ActionError::FamilyTargetMissing(a) => {
                out.append("FAMILY Action ");
                out.append(decimal_string(*a as u64).as_str());
                out.append(" has no target family");
            },
            ActionError::CommonTargetHasFamily(a) => {
                out.append("COMMON Action ");
                out.append(decimal_string(*a as u64).as_str());
                out.append(" has a target family");
            },
            ActionError::TargetFamilyNotFound { action_id, family_id } => {
                out.append("Action ");
                out.append(decimal_string(*action_id as u64).as_str());
                out.append(" targets missing family ");
                out.append(decimal_string(*family_id as u64).as_str());
            },
            ActionError::State(s) => {
                out.append("Action state application failed: ");
                out.append(s.message().as_str());
            },
        }
        out
    }
}

/// What the database holds about one action: the record, whether the family
/// it targets exists (asked only for a FAMILY action with a target), and its
/// state changes.
#[derive(Debug)]
pub struct ActionLookup {
    pub action: Option<ActionRecord>,
    pub target_family_found: bool,
    pub state_changes: Vec<ActionStateChangeRecord>,
}

/// The scope of an action's target: a FAMILY action needs an existing target
/// family, a COMMON action must have none.
pub open spec fn spec_target(
    action_id: ActionId,
    target_type: TargetType,
    target_family_id: Option<u32>,
    family_found: bool,
) -> Result<ActionStateScope, ActionError> {
    match (target_type, target_family_id) {
        (TargetType::Family, Some(family_id)) => if family_found {
            Ok(ActionStateScope::Family(family_id))
        } else {
            Err(ActionError::TargetFamilyNotFound { action_id, family_id })
        },
        (TargetType::Family, None) => Err(ActionError::FamilyTargetMissing(action_id)),
        (TargetType::Common, Some(_)) => Err(ActionError::CommonTargetHasFamily(action_id)),
        (TargetType::Common, None) => Ok(ActionStateScope::Common),
    }
}

/// The outcome of the checks an EVENT's action passes before the EVENT is
/// accepted: the action exists, is enabled and has a valid target.
pub open spec fn spec_event_check(action_id: ActionId, action: Option<ActionRecord>, family_found: bool) -> Result<
    ActionStateScope,
    ActionError,
> {
    match action {
        None => Err(ActionError::NotFound(action_id)),
        Some(a) => if !a.enabled {
            Err(ActionError::Disabled(action_id))
        } else {
            spec_target(a.action_id, a.target_type, a.target_family_id, family_found)
        },
    }
}

/// The scope of `action`'s target; `family_found` tells whether its target
/// family exists and is consulted only for a FAMILY action with a target.
pub fn validate_target(action: &ActionRecord, family_found: bool) -> (r: Result<
    ActionStateScope,
    ActionError,
>)
    ensures
        r == spec_target(action.action_id, action.target_type, action.target_family_id, family_found),
{
    match (action.target_type, action.target_family_id) {
        (TargetType::Family, Some(family_id)) => {
            if !family_found {
                return Err(ActionError::TargetFamilyNotFound { action_id: action.action_id, family_id });
            }
            Ok(ActionStateScope::Family(family_id))
        },
        (TargetType::Family, None) => Err(ActionError::FamilyTargetMissing(action.action_id)),
        (TargetType::Common, Some(_)) => Err(ActionError::CommonTargetHasFamily(action.action_id)),
        (TargetType::Common, None) => Ok(ActionStateScope::Common),
    }
}

/// The business state together with the checks that guard it. The database
/// facts each call needs are read by the caller and handed in.
#[derive(Debug)]
pub struct ActionEngine {
    state: ActionStateManager,
}

impl ActionEngine {
    pub closed spec fn spec_state(&self) -> ActionStateManager {
        self.state
    }

    pub fn new() -> (r: Self)
        ensures
            r.spec_state()@ == Map::<ActionStateKey, StateValue>::empty(),
    {
        ActionEngine { state: ActionStateManager::new() }
    }

    pub fn state(&self) -> (r: &ActionStateManager)
        ensures
            *r == self.spec_state(),
    {
        &self.state
    }

    pub fn state_mut(&mut self) -> (r: &mut ActionStateManager)
        ensures
            *r == old(self).spec_state(),
            final(self).spec_state() == *final(r),
    {
        &mut self.state
    }

    /// The checks before an EVENT naming `action_id` is accepted.
    pub fn validate_event(&self, action_id: ActionId, lookup: ActionLookup) -> (r: Result<
        ValidatedAction,
        ActionError,
    >)
        ensures
            match spec_event_check(action_id, lookup.action, lookup.target_family_found) {
                Ok(scope) => r matches Ok(v) && v.scope == scope && Some(v.action)
                    == lookup.action && v.state_changes@ == lookup.state_changes@,
                Err(e) => r == Err::<ValidatedAction, ActionError>(e),
            },
    {
        let ActionLookup { action, target_family_found, state_changes } = lookup;
        let action = match action {
            None => {
                return Err(ActionError::NotFound(action_id));
            },
            Some(a) => a,
        };
        if !action.enabled {
            return Err(ActionError::Disabled(action_id));
        }
        let scope = validate_target(&action, target_family_found)?;
        Ok(ValidatedAction { action, scope, state_changes })
    }

    /// Checks the action again and applies its state changes, all or none.
    pub fn execute(&mut self, action_id: ActionId, lookup: ActionLookup) -> (r: Result<
        ValidatedAction,
        ActionError,
    >)
        ensures
            match spec_event_check(action_id, lookup.action, lookup.target_family_found) {
                Err(e) => r == Err::<ValidatedAction, ActionError>(e) && final(self).spec_state()@
                    == old(self).spec_state()@,
                Ok(scope) => match first_repeat(lookup.state_changes@) {
                    Some(j) => r == Err::<ValidatedAction, ActionError>(
                        ActionError::State(
                            StateApplyError::DuplicateStateType(lookup.state_changes@[j].state_type),
                        ),
                    ) && final(self).spec_state()@ == old(self).spec_state()@,
                    None => r matches Ok(v) && v.scope == scope && Some(v.action) == lookup.action
                        && v.state_changes@ == lookup.state_changes@ && final(self).spec_state()@
                        == old(self).spec_state()@.union_prefer_right(
                        batch_map(scope, lookup.state_changes@),
                    ),
                },
            },
    {
        let plan = self.validate_event(action_id, lookup)?;
        match self.state.apply_batch(plan.scope, plan.state_changes.as_slice()) {
            Ok(()) => Ok(plan),
            Err(e) => Err(ActionError::State(e)),
        }
    }
}

} // verus!
