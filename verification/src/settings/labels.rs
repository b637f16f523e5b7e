//! Display names of the action states and of their values.

use vstd::prelude::*;

use crate::text::str_equal;

verus! {

/// The state codes with their display names.
pub open spec fn state_table() -> Seq<(Seq<char>, Seq<char>)> {
    seq![
        ("MEAL_NOTICE"@, "ご飯のお知らせ"@),
        ("SNACK_NOTICE"@, "おやつのお知らせ"@),
        ("HELP_NOTICE"@, "お手伝いのお願い"@),
        ("ENTRY_PERMISSION"@, "部屋に入ってよいか"@),
        ("MAILBOX"@, "ポストへの投函"@),
    ]
}

/// The name of the first entry of `table` whose code is `key`, or `key`
/// itself when there is none.
pub open spec fn lookup(table: Seq<(Seq<char>, Seq<char>)>, key: Seq<char>) -> Seq<char>
    decreases table.len(),
{
    if table.len() == 0 {
        key
    } else if table[0].0 == key {
        table[0].1
    } else {
        lookup(table.drop_first(), key)
    }
}

pub fn states() -> (r: &'static [(&'static str, &'static str)])
    ensures
        r@.len() == state_table().len(),
        forall|i: int|
            0 <= i < r@.len() ==> (#[trigger] r@[i]).0@ == state_table()[i].0 && r@[i].1@
                == state_table()[i].1,
{
    let r: &'static [(&'static str, &'static str)] = &[
        ("MEAL_NOTICE", "ご飯のお知らせ"),
        ("SNACK_NOTICE", "おやつのお知らせ"),
        ("HELP_NOTICE", "お手伝いのお願い"),
        ("ENTRY_PERMISSION", "部屋に入ってよいか"),
        ("MAILBOX", "ポストへの投函"),
    ];
    r
}

/// `name` of the first `(code, name)` of `table` with `code == key`, else
/// `key`.
fn find_label<'a>(table: &'static [(&'static str, &'static str)], key: &'a str, spec_table: Ghost<
    Seq<(Seq<char>, Seq<char>)>,
>) -> (r: &'a str)
    requires
        table@.len() == spec_table@.len(),
        forall|i: int|
            0 <= i < table@.len() ==> (#[trigger] table@[i]).0@ == spec_table@[i].0 && table@[i].1@
                == spec_table@[i].1,
    ensures
        r@ == lookup(spec_table@, key@),
{
    let mut i: usize = 0;
    proof {
        assert(spec_table@.subrange(0, spec_table@.len() as int) =~= spec_table@);
    }
    while i < table.len()
        invariant
            i <= table@.len(),
            table@.len() == spec_table@.len(),
            forall|k: int|
                0 <= k < table@.len() ==> (#[trigger] table@[k]).0@ == spec_table@[k].0 && table@[k].1@
                    == spec_table@[k].1,
            lookup(spec_table@, key@) == lookup(spec_table@.subrange(i as int, spec_table@.len() as int), key@),
        decreases table@.len() - i,
    {
        let ghost rest = spec_table@.subrange(i as int, spec_table@.len() as int);
        proof {
            assert(rest.drop_first() =~= spec_table@.subrange(i as int + 1, spec_table@.len() as int));
            assert(rest[0] == spec_table@[i as int]);
        }
        if str_equal(table[i].0, key) {
            return table[i].1;
        }
        i = i + 1;
    }
    proof {
        assert(spec_table@.subrange(i as int, spec_table@.len() as int).len() == 0);
    }
    key
}

/// The display name of a state code; an unknown code is shown as is.
pub fn state_label(key: &str) -> (r: &str)
    ensures
        r@ == lookup(state_table(), key@),
{
    find_label(states(), key, Ghost(state_table()))
}

pub open spec fn entry_values() -> Seq<(Seq<char>, Seq<char>)> {
    seq![
        ("UNSET"@, "未設定"@),
        ("OK"@, "入室できます"@),
        ("NG"@, "今は入室できません"@),
        ("MEETING"@, "会議中です"@),
    ]
}

pub open spec fn mailbox_values() -> Seq<(Seq<char>, Seq<char>)> {
    seq![("ON"@, "届いています"@), ("OFF"@, "確認しました"@)]
}

pub open spec fn notice_values() -> Seq<(Seq<char>, Seq<char>)> {
    seq![("ON"@, "お知らせする"@), ("OFF"@, "お知らせを解除する"@)]
}

/// The values a state takes, with their display names: the entry
/// permission and the mailbox have their own, every notice is on or off.
pub open spec fn value_table(state: Seq<char>) -> Seq<(Seq<char>, Seq<char>)> {
    if state == "ENTRY_PERMISSION"@ {
        entry_values()
    } else if state == "MAILBOX"@ {
        mailbox_values()
    } else {
        notice_values()
    }
}

pub fn values(state: &str) -> (r: &'static [(&'static str, &'static str)])
    ensures
        r@.len() == value_table(state@).len(),
        forall|i: int|
            0 <= i < r@.len() ==> (#[trigger] r@[i]).0@ == value_table(state@)[i].0 && r@[i].1@
                == value_table(state@)[i].1,
{
    if str_equal(state, "ENTRY_PERMISSION") {
        let r: &'static [(&'static str, &'static str)] = &[
            ("UNSET", "未設定"),
            ("OK", "入室できます"),
            ("NG", "今は入室できません"),
            ("MEETING", "会議中です"),
        ];
        r
    } else if str_equal(state, "MAILBOX") {
        let r: &'static [(&'static str, &'static str)] = &[
            ("ON", "届いています"),
            ("OFF", "確認しました"),
        ];
        r
    } else {
        let r: &'static [(&'static str, &'static str)] = &[
            ("ON", "お知らせする"),
            ("OFF", "お知らせを解除する"),
        ];
        r
    }
}

/// The display name of a state's value; an unknown value is shown as is.
pub fn value_label<'a>(state: &str, key: &'a str) -> (r: &'a str)
    ensures
        r@ == lookup(value_table(state@), key@),
{
    find_label(values(state), key, Ghost(value_table(state@)))
}

} // verus!
