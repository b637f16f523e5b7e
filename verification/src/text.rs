//! Bounded text, decimal and hexadecimal rendering.

use vstd::prelude::*;

verus! {

/// The ASCII digit for a value below ten.
pub open spec fn digit_char(d: nat) -> char {
    (('0' as u32) + d) as char
}

/// Decimal rendering of a natural number, without leading zeros.
pub open spec fn decimal(n: nat) -> Seq<char>
    decreases n,
{
    if n < 10 {
        seq![digit_char(n)]
    } else {
        decimal(n / 10).push(digit_char(n % 10))
    }
}

/// `String::push`: appends one character.
#[verifier::external_body]
pub(crate) fn push_char(s: &mut String, c: char)
    ensures
        final(s)@ == old(s)@.push(c),
{
    s.push(c)
}

fn digit(d: u64) -> (c: char)
    requires
        d < 10,
    ensures
        c == digit_char(d as nat),
{
    let b: u8 = 48u8 + (d as u8);
    b as char
}

/// Renders `n` in decimal, as Rust's `to_string` does for unsigned integers.
pub fn decimal_string(n: u64) -> (s: String)
    ensures
        s@ == decimal(n as nat),
    decreases n,
{
    if n < 10 {
        let mut out = String::new();
        push_char(&mut out, digit(n));
        out
    } else {
        let mut out = decimal_string(n / 10);
        push_char(&mut out, digit(n % 10));
        out
    }
}

} // verus!


verus! {

/// Whether two strings hold the same characters.
pub fn str_equal(a: &str, b: &str) -> (r: bool)
    ensures
        r == (a@ == b@),
{
    let x = a.as_bytes();
    let y = b.as_bytes();
    proof {
        vstd::utf8::encode_utf8_decode_utf8(a@);
        vstd::utf8::encode_utf8_decode_utf8(b@);
    }
    if x.len() != y.len() {
        return false;
    }
    let mut i: usize = 0;
    while i < x.len()
        invariant
            i <= x@.len(),
            x@.len() == y@.len(),
            x@ == vstd::utf8::encode_utf8(a@),
            y@ == vstd::utf8::encode_utf8(b@),
            forall|k: int| 0 <= k < i ==> x@[k] == y@[k],
        decreases x@.len() - i,
    {
        if x[i] != y[i] {
            return false;
        }
        i = i + 1;
    }
    assert(x@ =~= y@);
    true
}

} // verus!

verus! {

/// Unicode `White_Space`, the property behind `char::is_whitespace`.
pub open spec fn is_whitespace(c: char) -> bool {
    let u = c as u32;
    ||| 0x9 <= u <= 0xD
    ||| u == 0x20
    ||| u == 0x85
    ||| u == 0xA0
    ||| u == 0x1680
    ||| 0x2000 <= u <= 0x200A
    ||| u == 0x2028
    ||| u == 0x2029
    ||| u == 0x202F
    ||| u == 0x205F
    ||| u == 0x3000
}

/// Whether nothing is left of `s` once whitespace is trimmed.
pub open spec fn is_blank(s: Seq<char>) -> bool {
    forall|i: int| 0 <= i < s.len() ==> is_whitespace(#[trigger] s[i])
}

pub fn whitespace(c: char) -> (r: bool)
    ensures
        r == is_whitespace(c),
{
    let u = c as u32;
    (0x9 <= u && u <= 0xD) || u == 0x20 || u == 0x85 || u == 0xA0 || u == 0x1680 || (0x2000 <= u
        && u <= 0x200A) || u == 0x2028 || u == 0x2029 || u == 0x202F || u == 0x205F || u == 0x3000
}

/// `s.trim().is_empty()`.
pub fn blank(s: &str) -> (r: bool)
    ensures
        r == is_blank(s@),
{
    let n = s.unicode_len();
    let mut i: usize = 0;
    while i < n
        invariant
            n == s@.len(),
            i <= n,
            forall|k: int| 0 <= k < i ==> is_whitespace(#[trigger] s@[k]),
        decreases n - i,
    {
        let c = s.get_char(i);
        if !whitespace(c) {
            return false;
        }
        i = i + 1;
    }
    true
}

} // verus!

verus! {

/// `std::str::from_utf8`, owned: the bytes as text when they are valid
/// UTF-8, `None` otherwise.
#[verifier::external_body]
pub(crate) fn utf8_text(bytes: &[u8]) -> (r: Option<String>)
    ensures
        match r {
            Some(s) => vstd::utf8::valid_utf8(bytes@) && s@ == vstd::utf8::decode_utf8(bytes@),
            None => !vstd::utf8::valid_utf8(bytes@),
        },
{
    std::str::from_utf8(bytes).ok().map(|s| s.to_owned())
}

} // verus!

verus! {

/// `String::from_utf8_lossy`'s result on `bytes`: invalid sequences become
/// U+FFFD.
pub uninterp spec fn lossy_text(bytes: Seq<u8>) -> Seq<char>;

/// `String::from_utf8_lossy`, owned. On valid UTF-8 it is the decoded text.
#[verifier::external_body]
pub(crate) fn utf8_lossy(bytes: &[u8]) -> (r: String)
    ensures
        r@ == lossy_text(bytes@),
        vstd::utf8::valid_utf8(bytes@) ==> r@ == vstd::utf8::decode_utf8(bytes@),
{
    String::from_utf8_lossy(bytes).into_owned()
}

/// The message of the error `String::from_utf8` gives for `bytes`.
pub uninterp spec fn utf8_error_text(bytes: Seq<u8>) -> Seq<char>;

/// `String::from_utf8`, its error rendered as text.
#[verifier::external_body]
pub(crate) fn utf8_string(bytes: Vec<u8>) -> (r: Result<String, String>)
    ensures
        match r {
            Ok(s) => vstd::utf8::valid_utf8(bytes@) && s@ == vstd::utf8::decode_utf8(bytes@),
            Err(m) => !vstd::utf8::valid_utf8(bytes@) && m@ == utf8_error_text(bytes@),
        },
{
    String::from_utf8(bytes).map_err(|error| error.to_string())
}

/// `s` without its trailing carriage returns.
pub open spec fn trim_end_cr(s: Seq<char>) -> Seq<char>
    decreases s.len(),
{
    if s.len() > 0 && s.last() == '\r' {
        trim_end_cr(s.drop_last())
    } else {
        s
    }
}

/// `s.trim_end_matches('\r')`, owned.
pub fn trim_end_cr_string(s: &str) -> (r: String)
    ensures
        r@ == trim_end_cr(s@),
{
    let mut k = s.unicode_len();
    proof {
        assert(s@.subrange(0, k as int) =~= s@);
    }
    while k > 0 && s.get_char(k - 1) == '\r'
        invariant
            k <= s@.len(),
            trim_end_cr(s@.subrange(0, k as int)) == trim_end_cr(s@),
        decreases k,
    {
        proof {
            assert(s@.subrange(0, k as int).drop_last() =~= s@.subrange(0, k as int - 1));
        }
        k = k - 1;
    }
    s.substring_char(0, k).to_owned()
}

} // verus!

verus! {

/// The lowercase hexadecimal digit for a value below sixteen.
pub open spec fn hex_char(d: nat) -> char {
    if d < 10 {
        digit_char(d)
    } else {
        (('a' as u32) + (d - 10)) as char
    }
}

/// The `width` lowest hexadecimal digits of `n`, most significant first, as
/// `{:0width$x}` writes a number below `16^width`.
pub open spec fn hex_fixed(n: nat, width: nat) -> Seq<char>
    decreases width,
{
    if width == 0 {
        Seq::empty()
    } else {
        hex_fixed(n / 16, (width - 1) as nat).push(hex_char(n % 16))
    }
}

fn hex_digit(d: u64) -> (c: char)
    requires
        d < 16,
    ensures
        c == hex_char(d as nat),
{
    if d < 10 {
        digit(d)
    } else {
        let b: u8 = 97u8 + ((d - 10) as u8);
        b as char
    }
}

/// `n` in `width` lowercase hexadecimal digits.
pub fn hex_string(n: u64, width: usize) -> (s: String)
    ensures
        s@ == hex_fixed(n as nat, width as nat),
    decreases width,
{
    if width == 0 {
        String::new()
    } else {
        let mut out = hex_string(n / 16, width - 1);
        push_char(&mut out, hex_digit(n % 16));
        out
    }
}

} // verus!

verus! {

/// The dot-separated fields of `s`; there is always at least one.
pub open spec fn dot_fields(s: Seq<char>) -> Seq<Seq<char>>
    decreases s.len(),
{
    if s.len() == 0 {
        seq![Seq::empty()]
    } else {
        let f = dot_fields(s.drop_last());
        if s.last() == '.' {
            f.push(Seq::empty())
        } else {
            f.update(f.len() - 1, f.last().push(s.last()))
        }
    }
}

pub proof fn lemma_dot_fields_nonempty(s: Seq<char>)
    ensures
        dot_fields(s).len() >= 1,
    decreases s.len(),
{
    if s.len() > 0 {
        lemma_dot_fields_nonempty(s.drop_last());
    }
}

pub open spec fn is_ascii_digit(c: char) -> bool {
    '0' <= c <= '9'
}

/// The value of a string of decimal digits.
pub open spec fn digits_value(d: Seq<char>) -> nat
    decreases d.len(),
{
    if d.len() == 0 {
        0
    } else {
        digits_value(d.drop_last()) * 10 + ((d.last() as nat) - ('0' as nat)) as nat
    }
}

/// A prefix of a valid octet: at most three digits, no leading zero, at
/// most 255.
pub open spec fn octet_prefix_ok(d: Seq<char>) -> bool {
    &&& d.len() <= 3
    &&& forall|i: int| 0 <= i < d.len() ==> is_ascii_digit(#[trigger] d[i])
    &&& !(d.len() > 1 && d[0] == '0')
    &&& digits_value(d) <= 255
}

/// A decimal octet as the standard IPv4 parser accepts it.
pub open spec fn octet_ok(d: Seq<char>) -> bool {
    d.len() >= 1 && octet_prefix_ok(d)
}

/// Dotted-quad IPv4 text: four decimal octets.
pub open spec fn is_ipv4_text(s: Seq<char>) -> bool {
    &&& dot_fields(s).len() == 4
    &&& forall|i: int| 0 <= i < 4 ==> octet_ok(#[trigger] dot_fields(s)[i])
}

/// Whether `s` is dotted-quad IPv4 text.
#[verifier::loop_isolation(false)]
pub fn ipv4_text(s: &str) -> (r: bool)
    ensures
        r == is_ipv4_text(s@),
{
    let n = s.unicode_len();
    let mut count: usize = 1;
    let mut done_ok = true;
    let mut cur_ok = true;
    let mut cur_len: usize = 0;
    let mut cur_value: u32 = 0;
    let mut cur_first_zero = false;
    let mut i: usize = 0;
    proof {
        assert(s@.subrange(0, 0) =~= Seq::<char>::empty());
    }
    while i < n
        invariant
            n == s@.len(),
            i <= n,
            ({
                let f = dot_fields(s@.subrange(0, i as int));
                &&& count == if f.len() < 5 { f.len() } else { 5 }
                &&& count >= 1
                &&& done_ok == (forall|j: int| 0 <= j < f.len() - 1 ==> octet_ok(#[trigger] f[j]))
                &&& cur_ok == octet_prefix_ok(f.last())
                &&& cur_len == if f.last().len() < 4 { f.last().len() } else { 4 }
                &&& cur_ok ==> cur_value == digits_value(f.last())
                &&& cur_len >= 1 ==> cur_first_zero == (f.last()[0] == '0')
            }),
        decreases n - i,
    {
        let c = s.get_char(i);
        let ghost before = dot_fields(s@.subrange(0, i as int));
        proof {
            assert(s@.subrange(0, i as int + 1).drop_last() =~= s@.subrange(0, i as int));
            lemma_dot_fields_nonempty(s@.subrange(0, i as int));
        }
        if c == '.' {
            let completed = cur_ok && cur_len >= 1;
            done_ok = done_ok && completed;
            if count < 5 {
                count = count + 1;
            }
            cur_ok = true;
            cur_len = 0;
            cur_value = 0;
            cur_first_zero = false;
            proof {
                let after = before.push(Seq::<char>::empty());
                assert(dot_fields(s@.subrange(0, i as int + 1)) == after);
                assert(after.last() =~= Seq::<char>::empty());
                if done_ok {
                    assert forall|j: int| 0 <= j < after.len() - 1 implies octet_ok(
                        #[trigger] after[j],
                    ) by {
                        if j < before.len() - 1 {
                            assert(after[j] == before[j]);
                        } else {
                            assert(after[j] == before.last());
                        }
                    }
                } else {
                    if !completed {
                        assert(after[before.len() - 1] == before.last());
                        assert(!octet_ok(after[before.len() - 1]));
                    } else {
                        let j = choose|j: int|
                            0 <= j < before.len() - 1 && !octet_ok(#[trigger] before[j]);
                        assert(after[j] == before[j]);
                        assert(!octet_ok(after[j]));
                    }
                }
            }
        } else {
            let ghost last = before.last();
            let ghost grown = last.push(c);
            proof {
                assert(dot_fields(s@.subrange(0, i as int + 1)) == before.update(
                    before.len() - 1,
                    grown,
                ));
                assert(grown.drop_last() =~= last);
                if octet_prefix_ok(grown) {
                    assert forall|k: int| 0 <= k < last.len() implies is_ascii_digit(
                        #[trigger] last[k],
                    ) by {
                        assert(grown[k] == last[k]);
                    }
                    if last.len() > 1 {
                        assert(grown[0] == last[0]);
                    }
                }
                if cur_len >= 1 {
                    assert(grown[0] == last[0]);
                }
            }
            if cur_ok {
                let is_digit = '0' <= c && c <= '9';
                if !is_digit || cur_len >= 3 || (cur_len == 1 && cur_first_zero) {
                    cur_ok = false;
                    proof {
                        if !is_digit {
                            assert(!is_ascii_digit(grown[grown.len() - 1]));
                        }
                        if cur_len == 1 && cur_first_zero {
                            assert(grown[0] == '0');
                        }
                    }
                } else {
                    let d = (c as u32) - 48;
                    let v = cur_value * 10 + d;
                    if v > 255 {
                        cur_ok = false;
                    } else {
                        cur_value = v;
                    }
                    proof {
                        assert forall|k: int| 0 <= k < grown.len() implies is_ascii_digit(
                            #[trigger] grown[k],
                        ) by {
                            if k < last.len() {
                                assert(grown[k] == last[k]);
                            }
                        }
                        if cur_len == 0 {
                            assert(grown[0] == c);
                        } else {
                            assert(grown[0] == last[0]);
                        }
                    }
                }
            }
            if cur_len == 0 {
                cur_first_zero = c == '0';
                proof {
                    assert(grown[0] == c);
                }
            }
            if cur_len < 4 {
                cur_len = cur_len + 1;
            }
            proof {
                let after = before.update(before.len() - 1, grown);
                assert forall|j: int| 0 <= j < after.len() - 1 implies after[j] == before[j] by {}
            }
        }
        i = i + 1;
    }
    proof {
        assert(s@.subrange(0, n as int) =~= s@);
    }
    let r = count == 4 && done_ok && cur_ok && cur_len >= 1;
    proof {
        let f = dot_fields(s@);
        if r {
            assert forall|j: int| 0 <= j < 4 implies octet_ok(#[trigger] f[j]) by {
                if j < 3 {
                } else {
                    assert(f[j] == f.last());
                }
            }
        } else if count == 4 {
            if !done_ok {
                let j = choose|j: int| 0 <= j < f.len() - 1 && !octet_ok(#[trigger] f[j]);
                assert(!octet_ok(f[j]));
            } else {
                assert(!octet_ok(f[3]));
            }
        }
    }
    r
}

} // verus!

verus! {

/// The digits of an unsigned decimal: without a leading `+`.
pub open spec fn unsigned_digits(s: Seq<char>) -> Seq<char> {
    if s.len() > 0 && s[0] == '+' {
        s.drop_first()
    } else {
        s
    }
}

/// The value of an unsigned decimal, as `u64::from_str` reads it: an
/// optional `+`, then at least one digit, the value at most `u64::MAX`.
pub open spec fn parse_decimal(s: Seq<char>) -> Option<u64> {
    let d = unsigned_digits(s);
    if d.len() == 0 || !(forall|i: int| 0 <= i < d.len() ==> is_ascii_digit(#[trigger] d[i])) {
        None
    } else if digits_value(d) > u64::MAX {
        None
    } else {
        Some(digits_value(d) as u64)
    }
}

proof fn lemma_digits_value_grows(d: Seq<char>, i: int)
    requires
        0 <= i <= d.len(),
        forall|k: int| 0 <= k < d.len() ==> is_ascii_digit(#[trigger] d[k]),
    ensures
        digits_value(d.take(i)) <= digits_value(d),
    decreases d.len() - i,
{
    if i < d.len() {
        lemma_digits_value_grows(d, i + 1);
        assert(d.take(i + 1).drop_last() =~= d.take(i));
    } else {
        assert(d.take(i) =~= d);
    }
}

/// `s.parse::<u64>().ok()`.
pub fn parse_u64(s: &str) -> (r: Option<u64>)
    ensures
        r == parse_decimal(s@),
{
    let n = s.unicode_len();
    let mut start: usize = 0;
    if n > 0 && s.get_char(0) == '+' {
        start = 1;
    }
    let ghost d = unsigned_digits(s@);
    proof {
        assert(d =~= s@.subrange(start as int, n as int));
    }
    if start == n {
        return None;
    }
    let mut value: u64 = 0;
    let mut i: usize = start;
    while i < n
        invariant
            start <= i <= n,
            n == s@.len(),
            d == s@.subrange(start as int, n as int),
            d == unsigned_digits(s@),
            d.len() > 0,
            forall|k: int| 0 <= k < i - start ==> is_ascii_digit(#[trigger] d[k]),
            value == digits_value(d.take(i - start)),
        decreases n - i,
    {
        let c = s.get_char(i);
        proof {
            assert(d[i - start] == c);
            assert(d.take(i - start + 1).drop_last() =~= d.take(i - start));
        }
        if !('0' <= c && c <= '9') {
            proof {
                let k = i - start;
                assert(!is_ascii_digit(d[k]));
            }
            return None;
        }
        let digit = (c as u32 - 48) as u64;
        proof {
            assert(d.take(i - start + 1).last() == c);
        }
        let next = match value.checked_mul(10) {
            None => None,
            Some(m) => m.checked_add(digit),
        };
        match next {
            None => {
                proof {
                    assert(digits_value(d.take(i - start + 1)) > u64::MAX);
                    if forall|k: int| 0 <= k < d.len() ==> is_ascii_digit(#[trigger] d[k]) {
                        lemma_digits_value_grows(d, i - start + 1);
                    }
                }
                return None;
            },
            Some(v) => {
                value = v;
            },
        }
        i = i + 1;
    }
    proof {
        assert(d.take(d.len() as int) =~= d);
    }
    Some(value)
}

} // verus!
