//! JSON text assembled from its parts: objects, arrays and numbers, and
//! string values escaped as `serde_json_core` and `serde_json` write them.

use vstd::prelude::*;

use crate::text::{decimal, decimal_string, push_char};

verus! {

/// The uppercase hexadecimal digit for a value below sixteen.
pub open spec fn hex_upper(d: nat) -> char {
    if d < 10 {
        crate::text::digit_char(d)
    } else {
        (('A' as u32) + (d - 10)) as char
    }
}

/// How one character of a string value is written: `"` and `\` and the
/// control characters are escaped, with the short escapes where JSON has
/// them and `\u00XX` otherwise; every other character stands for itself.
pub open spec fn escaped_char(c: char) -> Seq<char> {
    let u = c as u32;
    if c == '\\' {
        seq!['\\', '\\']
    } else if c == '"' {
        seq!['\\', '"']
    } else if u == 8 {
        seq!['\\', 'b']
    } else if u == 9 {
        seq!['\\', 't']
    } else if u == 10 {
        seq!['\\', 'n']
    } else if u == 12 {
        seq!['\\', 'f']
    } else if u == 13 {
        seq!['\\', 'r']
    } else if u < 0x20 {
        seq!['\\', 'u', '0', '0', hex_upper((u / 16) as nat), hex_upper((u % 16) as nat)]
    } else {
        seq![c]
    }
}

/// The characters of a string value, each written as `escaped_char` does.
pub open spec fn escaped(s: Seq<char>) -> Seq<char>
    decreases s.len(),
{
    if s.len() == 0 {
        Seq::empty()
    } else {
        escaped(s.drop_last()) + escaped_char(s.last())
    }
}

/// The JSON encoding of a string value, as `serde_json_core` writes it: the
/// escaped characters in double quotes.
pub open spec fn json_string_text(s: Seq<char>) -> Seq<char> {
    seq!['"'] + escaped(s) + seq!['"']
}

fn hex_upper_char(d: u32) -> (c: char)
    requires
        d < 16,
    ensures
        c == hex_upper(d as nat),
{
    if d < 10 {
        let b: u8 = 48u8 + (d as u8);
        b as char
    } else {
        let b: u8 = 65u8 + ((d - 10) as u8);
        b as char
    }
}

fn push_escaped(out: &mut String, c: char)
    ensures
        final(out)@ == old(out)@ + escaped_char(c),
{
    let u = c as u32;
    if c == '\\' {
        push_char(out, '\\');
        push_char(out, '\\');
    } else if c == '"' {
        push_char(out, '\\');
        push_char(out, '"');
    } else if u == 8 {
        push_char(out, '\\');
        push_char(out, 'b');
    } else if u == 9 {
        push_char(out, '\\');
        push_char(out, 't');
    } else if u == 10 {
        push_char(out, '\\');
        push_char(out, 'n');
    } else if u == 12 {
        push_char(out, '\\');
        push_char(out, 'f');
    } else if u == 13 {
        push_char(out, '\\');
        push_char(out, 'r');
    } else if u < 0x20 {
        push_char(out, '\\');
        push_char(out, 'u');
        push_char(out, '0');
        push_char(out, '0');
        push_char(out, hex_upper_char(u / 16));
        push_char(out, hex_upper_char(u % 16));
    } else {
        push_char(out, c);
    }
    proof {
        assert(out@ =~= old(out)@ + escaped_char(c));
    }
}

/// A string value in JSON.
pub fn json_string(s: &str) -> (r: String)
    ensures
        r@ == json_string_text(s@),
{
    let mut out = String::new();
    push_char(&mut out, '"');
    let n = s.unicode_len();
    let mut i: usize = 0;
    while i < n
        invariant
            n == s@.len(),
            i <= n,
            out@ == seq!['"'] + escaped(s@.subrange(0, i as int)),
        decreases n - i,
    {
        let c = s.get_char(i);
        push_escaped(&mut out, c);
        proof {
            let prefix = s@.subrange(0, i as int + 1);
            assert(prefix.drop_last() =~= s@.subrange(0, i as int));
            assert(out@ =~= seq!['"'] + escaped(prefix));
        }
        i = i + 1;
    }
    push_char(&mut out, '"');
    proof {
        assert(s@.subrange(0, n as int) =~= s@);
    }
    out
}

/// A JSON number for an unsigned integer.
pub open spec fn json_unsigned(n: nat) -> Seq<char> {
    decimal(n)
}

/// A JSON number for a signed integer.
pub open spec fn json_signed(n: int) -> Seq<char> {
    if n < 0 {
        seq!['-'] + decimal((-n) as nat)
    } else {
        decimal(n as nat)
    }
}

pub open spec fn json_bool(b: bool) -> Seq<char> {
    if b {
        "true"@
    } else {
        "false"@
    }
}

/// A JSON string or `null`.
pub open spec fn json_opt_string(s: Option<Seq<char>>) -> Seq<char> {
    match s {
        Some(v) => json_string_text(v),
        None => "null"@,
    }
}

/// Appends the JSON number for `n`.
pub fn push_unsigned(out: &mut String, n: u64)
    ensures
        final(out)@ == old(out)@ + json_unsigned(n as nat),
{
    let d = decimal_string(n);
    out.append(d.as_str());
}

/// Appends the JSON number for `n`.
pub fn push_signed(out: &mut String, n: i64)
    ensures
        final(out)@ == old(out)@ + json_signed(n as int),
{
    if n < 0 {
        out.append("-");
        let magnitude: u64 = (-(n + 1)) as u64 + 1;
        assert(magnitude == -n);
        let d = decimal_string(magnitude);
        out.append(d.as_str());
        proof {
            reveal_strlit("-");
            assert(old(out)@ + "-"@ + decimal((-n) as nat) =~= old(out)@ + (seq!['-'] + decimal((-n) as nat)));
        }
    } else {
        let d = decimal_string(n as u64);
        out.append(d.as_str());
    }
}

pub fn push_bool(out: &mut String, b: bool)
    ensures
        final(out)@ == old(out)@ + json_bool(b),
{
    if b {
        out.append("true");
    } else {
        out.append("false");
    }
}

/// Appends the JSON string for `s`.
pub fn push_string(out: &mut String, s: &str)
    ensures
        final(out)@ == old(out)@ + json_string_text(s@),
{
    let j = json_string(s);
    out.append(j.as_str());
}

pub fn push_opt_string(out: &mut String, s: &Option<String>)
    ensures
        final(out)@ == old(out)@ + json_opt_string(
            match s {
                Some(v) => Some(v@),
                None => None,
            },
        ),
{
    match s {
        Some(v) => push_string(out, v.as_str()),
        None => out.append("null"),
    }
}

/// No line feed occurs in `s`.
pub open spec fn lf_free(s: Seq<char>) -> bool {
    forall|i: int| 0 <= i < s.len() ==> s[i] != '\n'
}

/// `lf_free`, checked one character at a time from the end, the form in
/// which a revealed literal unfolds.
pub open spec fn lf_free_by_char(s: Seq<char>) -> bool
    decreases s.len(),
{
    if s.len() == 0 {
        true
    } else {
        s.last() != '\n' && lf_free_by_char(s.drop_last())
    }
}

pub proof fn lemma_lf_free_by_char(s: Seq<char>)
    requires
        lf_free_by_char(s),
    ensures
        lf_free(s),
    decreases s.len(),
{
    if s.len() > 0 {
        lemma_lf_free_by_char(s.drop_last());
        assert forall|i: int| 0 <= i < s.len() implies s[i] != '\n' by {
            if i < s.len() - 1 {
                assert(s.drop_last()[i] == s[i]);
            }
        }
    }
}

pub broadcast proof fn lemma_lf_free_add(a: Seq<char>, b: Seq<char>)
    ensures
        #[trigger] lf_free(a + b) == (lf_free(a) && lf_free(b)),
{
    if lf_free(a) && lf_free(b) {
        assert forall|i: int| 0 <= i < (a + b).len() implies (a + b)[i] != '\n' by {
            if i < a.len() {
                assert((a + b)[i] == a[i]);
            } else {
                assert((a + b)[i] == b[i - a.len()]);
            }
        }
    }
    if lf_free(a + b) {
        assert forall|i: int| 0 <= i < a.len() implies a[i] != '\n' by {
            assert((a + b)[i] == a[i]);
        }
        assert forall|i: int| 0 <= i < b.len() implies b[i] != '\n' by {
            assert((a + b)[i + a.len()] == b[i]);
        }
    }
}

pub broadcast proof fn lemma_lf_free_push(s: Seq<char>, c: char)
    ensures
        #[trigger] lf_free(s.push(c)) == (lf_free(s) && c != '\n'),
{
    assert(s.push(c)[s.len() as int] == c);
    if lf_free(s) && c != '\n' {
        assert forall|i: int| 0 <= i < s.push(c).len() implies s.push(c)[i] != '\n' by {
            if i < s.len() {
                assert(s.push(c)[i] == s[i]);
            }
        }
    }
    if lf_free(s.push(c)) {
        assert forall|i: int| 0 <= i < s.len() implies s[i] != '\n' by {
            assert(s.push(c)[i] == s[i]);
        }
    }
}

pub broadcast group group_lf_free {
    lemma_lf_free_add,
    lemma_lf_free_push,
}

/// A decimal number holds no line feed.
pub proof fn lemma_lf_free_decimal(n: nat)
    ensures
        lf_free(decimal(n)),
    decreases n,
{
    broadcast use group_lf_free;

    assert(lf_free(seq![crate::text::digit_char(n % 10)])) by {
        assert(seq![crate::text::digit_char(n % 10)][0] != '\n');
    }
    if n >= 10 {
        lemma_lf_free_decimal(n / 10);
    }
}

/// An escaped string value holds no line feed: a line feed in the value is
/// written as `\n`.
pub proof fn lemma_lf_free_escaped(s: Seq<char>)
    ensures
        lf_free(escaped(s)),
        lf_free(json_string_text(s)),
    decreases s.len(),
{
    broadcast use group_lf_free;

    if s.len() > 0 {
        lemma_lf_free_escaped(s.drop_last());
        let c = s.last();
        let u = c as u32;
        assert(lf_free(escaped_char(c))) by {
            if u < 0x20 {
                assert(hex_upper((u / 16) as nat) != '\n');
                assert(hex_upper((u % 16) as nat) != '\n');
            }
            reveal_with_fuel(lf_free_by_char, 7);
            lemma_lf_free_by_char(escaped_char(c));
        }
    }
    assert(lf_free(seq!['"'])) by {
        reveal_with_fuel(lf_free_by_char, 2);
        lemma_lf_free_by_char(seq!['"']);
    }
}

/// Items without a line feed, joined by commas or made an array, hold
/// none.
pub proof fn lemma_lf_free_join(items: Seq<Seq<char>>)
    requires
        forall|i: int| 0 <= i < items.len() ==> lf_free(#[trigger] items[i]),
    ensures
        lf_free(json_join(items)),
        lf_free(json_array(items)),
    decreases items.len(),
{
    broadcast use group_lf_free;

    reveal_strlit(",");
    reveal_strlit("[");
    reveal_strlit("]");
    reveal_with_fuel(lf_free_by_char, 2);
    lemma_lf_free_by_char(","@);
    lemma_lf_free_by_char("["@);
    lemma_lf_free_by_char("]"@);
    if items.len() > 1 {
        let p = items.drop_last();
        assert forall|i: int| 0 <= i < p.len() implies lf_free(#[trigger] p[i]) by {
            assert(p[i] == items[i]);
        }
        lemma_lf_free_join(p);
        assert(lf_free(items[items.len() - 1]));
    } else if items.len() == 1 {
        assert(lf_free(items[0]));
    }
}

/// The JSON literals and numbers hold no line feed.
pub proof fn lemma_lf_free_scalars(n: nat, b: bool, s: Option<Seq<char>>)
    ensures
        lf_free(json_unsigned(n)),
        lf_free(json_bool(b)),
        lf_free(json_opt_string(s)),
        lf_free("null"@),
{
    reveal_strlit("true");
    reveal_strlit("false");
    reveal_strlit("null");
    reveal_with_fuel(lf_free_by_char, 6);
    lemma_lf_free_by_char("true"@);
    lemma_lf_free_by_char("false"@);
    lemma_lf_free_by_char("null"@);
    lemma_lf_free_decimal(n);
    if let Some(v) = s {
        lemma_lf_free_escaped(v);
    }
}

} // verus!

verus! {

/// How `serde_json` writes one character of a string value: as
/// `escaped_char` does, but with lowercase digits in `\u00xx`.
pub open spec fn escaped_char_lower(c: char) -> Seq<char> {
    let u = c as u32;
    if u < 0x20 && !(u == 8 || u == 9 || u == 10 || u == 12 || u == 13) {
        seq![
            '\\',
            'u',
            '0',
            '0',
            crate::text::hex_char((u / 16) as nat),
            crate::text::hex_char((u % 16) as nat),
        ]
    } else {
        escaped_char(c)
    }
}

/// The characters of a string value, each written as `escaped_char_lower`
/// does.
pub open spec fn escaped_lower(s: Seq<char>) -> Seq<char>
    decreases s.len(),
{
    if s.len() == 0 {
        Seq::empty()
    } else {
        escaped_lower(s.drop_last()) + escaped_char_lower(s.last())
    }
}

/// `serde_json`'s encoding of a string value: the escaped characters in
/// double quotes.
pub open spec fn serde_json_string_text(s: Seq<char>) -> Seq<char> {
    seq!['"'] + escaped_lower(s) + seq!['"']
}

/// `serde_json::to_string` applied to a `&str`, which cannot fail.
#[verifier::external_body]
pub(crate) fn json_std_string(s: &str) -> (r: String)
    ensures
        r@ == serde_json_string_text(s@),
{
    serde_json::to_string(s).unwrap_or_default()
}

/// Items joined by commas.
pub open spec fn json_join(items: Seq<Seq<char>>) -> Seq<char>
    decreases items.len(),
{
    if items.len() == 0 {
        Seq::empty()
    } else if items.len() == 1 {
        items[0]
    } else {
        json_join(items.drop_last()) + ","@ + items.last()
    }
}

/// A JSON array of already encoded items.
pub open spec fn json_array(items: Seq<Seq<char>>) -> Seq<char> {
    "["@ + json_join(items) + "]"@
}

pub proof fn lemma_json_join_push(items: Seq<Seq<char>>, item: Seq<char>)
    ensures
        json_join(items.push(item)) == if items.len() == 0 {
            item
        } else {
            json_join(items) + ","@ + item
        },
{
    assert(items.push(item).drop_last() =~= items);
    if items.len() == 0 {
        assert(items.push(item)[0] == item);
    }
}

/// A JSON array of unsigned numbers.
pub open spec fn json_u32_array(ids: Seq<u32>) -> Seq<char> {
    json_array(ids.map_values(|n: u32| json_unsigned(n as nat)))
}

/// Appends the JSON array of `ids`.
pub fn push_u32_array(out: &mut String, ids: &[u32])
    ensures
        final(out)@ == old(out)@ + json_u32_array(ids@),
{
    let ghost items = ids@.map_values(|n: u32| json_unsigned(n as nat));
    let ghost start = out@;
    out.append("[");
    let mut i: usize = 0;
    while i < ids.len()
        invariant
            i <= ids@.len(),
            items == ids@.map_values(|n: u32| json_unsigned(n as nat)),
            out@ == start + "["@ + json_join(items.subrange(0, i as int)),
        decreases ids@.len() - i,
    {
        proof {
            lemma_json_join_push(items.subrange(0, i as int), items[i as int]);
            assert(items.subrange(0, i as int + 1) =~= items.subrange(0, i as int).push(items[i as int]));
        }
        if i > 0 {
            out.append(",");
        }
        push_unsigned(out, ids[i] as u64);
        proof {
            assert(out@ =~= start + "["@ + json_join(items.subrange(0, i as int + 1)));
        }
        i = i + 1;
    }
    out.append("]");
    proof {
        assert(items.subrange(0, ids@.len() as int) =~= items);
        assert(out@ =~= old(out)@ + json_u32_array(ids@));
    }
}

/// Appends a JSON string, with `serde_json`'s escaping.
pub fn push_std_string(out: &mut String, s: &str)
    ensures
        final(out)@ == old(out)@ + serde_json_string_text(s@),
{
    let j = json_std_string(s);
    out.append(j.as_str());
}

/// A JSON string with `serde_json`'s escaping, or `null`.
pub open spec fn json_std_opt_string(s: Option<Seq<char>>) -> Seq<char> {
    match s {
        Some(v) => serde_json_string_text(v),
        None => "null"@,
    }
}

pub fn push_std_opt_string(out: &mut String, s: &Option<String>)
    ensures
        final(out)@ == old(out)@ + json_std_opt_string(
            match s {
                Some(v) => Some(v@),
                None => None,
            },
        ),
{
    match s {
        Some(v) => push_std_string(out, v.as_str()),
        None => out.append("null"),
    }
}

/// A JSON number or `null`.
pub open spec fn json_opt_unsigned(n: Option<u32>) -> Seq<char> {
    match n {
        Some(v) => json_unsigned(v as nat),
        None => "null"@,
    }
}

pub fn push_opt_u32(out: &mut String, n: Option<u32>)
    ensures
        final(out)@ == old(out)@ + json_opt_unsigned(n),
{
    match n {
        Some(v) => push_unsigned(out, v as u64),
        None => out.append("null"),
    }
}

proof fn lemma_encode_scalar_no_lf(c: char)
    requires
        c != '\n',
    ensures
        forall|i: int|
            0 <= i < vstd::utf8::encode_scalar(c as u32).len() ==> #[trigger] vstd::utf8::encode_scalar(
                c as u32,
            )[i] != 10u8,
{
    let v = c as u32;
    assert(v < 0x80 ==> (v & 0x7F) as u8 != 10u8) by (bit_vector)
        requires
            v != 10,
    ;
    assert((0xC0u8 | ((v >> 6) & 0x1F) as u8) != 10u8) by (bit_vector);
    assert((0xE0u8 | ((v >> 12) & 0x0F) as u8) != 10u8) by (bit_vector);
    assert((0xF0u8 | ((v >> 18) & 0x7) as u8) != 10u8) by (bit_vector);
    assert((0x80u8 | (v & 0x3F) as u8) != 10u8) by (bit_vector);
    assert((0x80u8 | ((v >> 6) & 0x3F) as u8) != 10u8) by (bit_vector);
    assert((0x80u8 | ((v >> 12) & 0x3F) as u8) != 10u8) by (bit_vector);
}

/// Text without a line feed encodes to UTF-8 without the byte 10.
pub proof fn lemma_lf_free_encode(s: Seq<char>)
    requires
        lf_free(s),
    ensures
        forall|i: int|
            0 <= i < vstd::utf8::encode_utf8(s).len() ==> #[trigger] vstd::utf8::encode_utf8(s)[i] != 10u8,
    decreases s.len(),
{
    if s.len() > 0 {
        let rest = s.drop_first();
        assert forall|i: int| 0 <= i < rest.len() implies rest[i] != '\n' by {
            assert(rest[i] == s[i + 1]);
        }
        lemma_lf_free_encode(rest);
        assert(s[0] != '\n');
        lemma_encode_scalar_no_lf(s[0]);
        let head = vstd::utf8::encode_scalar(s[0] as u32);
        let tail = vstd::utf8::encode_utf8(rest);
        assert(vstd::utf8::encode_utf8(s) == head + tail);
        assert forall|i: int| 0 <= i < (head + tail).len() implies #[trigger] (head + tail)[i] != 10u8 by {
            if i < head.len() {
                assert((head + tail)[i] == head[i]);
            } else {
                assert((head + tail)[i] == tail[i - head.len()]);
            }
        }
    }
}

} // verus!
