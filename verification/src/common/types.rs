//! Identifier types shared by the protocols, with their capacities.

use vstd::prelude::*;

verus! {

/// Maximum UTF-8 length of a device identifier.
pub const DEVICE_ID_CAPACITY: usize = 64;
/// Maximum UTF-8 length of an event identifier.
pub const EVENT_ID_CAPACITY: usize = 128;
/// Maximum UTF-8 length of a CDC request identifier.
pub const REQUEST_ID_CAPACITY: usize = 64;
/// Maximum UTF-8 length of a CDC command name.
pub const COMMAND_NAME_CAPACITY: usize = 32;
pub const ACTION_NAME_CAPACITY: usize = 96;
pub const MESSAGE_CAPACITY: usize = 256;
/// Maximum UTF-8 length of a CDC error message.
pub const ERROR_MESSAGE_CAPACITY: usize = 128;

pub type DeviceId = String;
pub type EventId = String;
pub type RequestId = String;
pub type CommandName = String;
pub type FamilyId = u32;

/// The UTF-8 length of a string's contents.
pub open spec fn utf8_len(s: Seq<char>) -> nat {
    vstd::utf8::encode_utf8(s).len()
}

/// Only the empty string has an empty UTF-8 encoding.
pub proof fn lemma_utf8_len_zero_iff(s: Seq<char>)
    ensures
        utf8_len(s) == 0 <==> s.len() == 0,
{
    if s.len() > 0 {
        assert(vstd::utf8::encode_scalar(s[0] as u32).len() >= 1);
    }
}

#[derive(Clone, Copy, Debug, PartialEq, Eq, Structural)]
pub enum TextError {
    TooLong,
}

/// An owned copy of `value`, provided its UTF-8 encoding fits in `N` bytes.
pub fn text<const N: usize>(value: &str) -> (r: Result<String, TextError>)
    ensures
        match r {
            Ok(s) => s@ == value@ && utf8_len(value@) <= N,
            Err(e) => e == TextError::TooLong && utf8_len(value@) > N,
        },
{
    if value.as_bytes().len() <= N {
        Ok(value.to_owned())
    } else {
        Err(TextError::TooLong)
    }
}

} // verus!
