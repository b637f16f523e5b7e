//! Fitting encoded messages into caller-provided buffers, and LF framing.

use vstd::prelude::*;
use vstd::utf8::encode_utf8;

verus! {

#[derive(Clone, Copy, Debug, PartialEq, Eq, Structural)]
pub enum CodecError {
    BufferTooSmall,
    InvalidJson,
    MissingLineFeed,
    TrailingData,
}

/// Copies the UTF-8 encoding of `json` to the front of `destination`.
pub fn write_text(json: &str, destination: &mut [u8]) -> (r: Result<usize, CodecError>)
    ensures
        final(destination)@.len() == old(destination)@.len(),
        match r {
            Ok(n) => {
                &&& n == encode_utf8(json@).len()
                &&& n <= old(destination)@.len()
                &&& final(destination)@.subrange(0, n as int) == encode_utf8(json@)
                &&& final(destination)@.subrange(n as int, final(destination)@.len() as int)
                    == old(destination)@.subrange(n as int, old(destination)@.len() as int)
            },
            Err(e) => e == CodecError::BufferTooSmall && encode_utf8(json@).len()
                > old(destination)@.len(),
        },
{
    let data = json.as_bytes();
    if data.len() > destination.len() {
        return Err(CodecError::BufferTooSmall);
    }
    let mut i: usize = 0;
    while i < data.len()
        invariant
            i <= data@.len(),
            data@ == encode_utf8(json@),
            data@.len() <= destination@.len(),
            destination@.len() == old(destination)@.len(),
            destination@.subrange(0, i as int) == data@.subrange(0, i as int),
            destination@.subrange(data@.len() as int, destination@.len() as int)
                == old(destination)@.subrange(data@.len() as int, old(destination)@.len() as int),
        decreases data@.len() - i,
    {
        destination[i] = data[i];
        assert(destination@.subrange(0, i as int + 1) =~= data@.subrange(0, i as int + 1));
        i = i + 1;
    }
    assert(data@.subrange(0, data@.len() as int) =~= data@);
    Ok(data.len())
}

/// Copies `json` followed by a line feed to the front of `destination`.
pub fn write_text_line(json: &str, destination: &mut [u8]) -> (r: Result<usize, CodecError>)
    ensures
        final(destination)@.len() == old(destination)@.len(),
        match r {
            Ok(n) => {
                &&& n == encode_utf8(json@).len() + 1
                &&& n <= old(destination)@.len()
                &&& final(destination)@.subrange(0, n as int) == encode_utf8(json@).push(10u8)
            },
            Err(e) => e == CodecError::BufferTooSmall && encode_utf8(json@).len() + 1
                > old(destination)@.len(),
        },
{
    let used = write_text(json, destination)?;
    if used >= destination.len() {
        return Err(CodecError::BufferTooSmall);
    }
    destination[used] = 10u8;
    assert(destination@.subrange(0, used as int + 1) =~= encode_utf8(json@).push(10u8));
    Ok(used + 1)
}

/// The payload of an LF-terminated line, without its terminator.
pub fn strip_line(line: &[u8]) -> (r: Result<&[u8], CodecError>)
    ensures
        match r {
            Ok(payload) => line@.len() > 0 && line@.last() == 10u8 && payload@ == line@.drop_last(),
            Err(e) => e == CodecError::MissingLineFeed && !(line@.len() > 0 && line@.last()
                == 10u8),
        },
{
    if line.len() == 0 || line[line.len() - 1] != 10u8 {
        return Err(CodecError::MissingLineFeed);
    }
    let payload = vstd::slice::slice_subrange(line, 0, line.len() - 1);
    assert(payload@ =~= line@.drop_last());
    Ok(payload)
}

/// A decoded value counts only if the decoder consumed the whole payload.
pub fn require_complete(used: usize, payload_len: usize) -> (r: Result<(), CodecError>)
    ensures
        r is Ok <==> used == payload_len,
        r matches Err(e) ==> e == CodecError::TrailingData,
{
    if used == payload_len {
        Ok(())
    } else {
        Err(CodecError::TrailingData)
    }
}

} // verus!
