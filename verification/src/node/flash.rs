//! The record the node keeps in the last sector of its flash: a header with
//! a magic number and the payload length, then the stored configuration.

use vstd::prelude::*;

use crate::node::storage::CONFIG_STORAGE_SIZE;

verus! {

pub const CONFIG_RECORD_MAGIC: u32 = 0x5543_4647;
pub const CONFIG_RECORD_HEADER_SIZE: usize = 8;
/// The largest payload the sector holds.
pub const MAX_RECORD_PAYLOAD: usize = 4088;

#[derive(Clone, Copy, Debug, PartialEq, Eq, Structural)]
pub enum FlashRecordError {
    TooLarge,
}

/// The header for a payload of `len` bytes: the magic number and the length
/// in little-endian order, then two erased bytes.
pub open spec fn record_header(len: nat) -> Seq<u8> {
    seq![0x47u8, 0x46u8, 0x43u8, 0x55u8, (len % 256) as u8, (len / 256) as u8, 0xffu8, 0xffu8]
}

/// The bytes to program for a payload: its header, then the payload.
pub fn flash_record(data: &[u8]) -> (r: Result<Vec<u8>, FlashRecordError>)
    ensures
        match r {
            Ok(bytes) => 0 < data@.len() <= MAX_RECORD_PAYLOAD && bytes@ == record_header(
                data@.len(),
            ) + data@,
            Err(e) => e == FlashRecordError::TooLarge && (data@.len() == 0 || data@.len()
                > MAX_RECORD_PAYLOAD),
        },
{
    if data.len() == 0 || data.len() > MAX_RECORD_PAYLOAD {
        return Err(FlashRecordError::TooLarge);
    }
    let len = data.len();
    let mut bytes: Vec<u8> = Vec::new();
    bytes.push(0x47u8);
    bytes.push(0x46u8);
    bytes.push(0x43u8);
    bytes.push(0x55u8);
    bytes.push((len % 256) as u8);
    bytes.push((len / 256) as u8);
    bytes.push(0xffu8);
    bytes.push(0xffu8);
    let mut i: usize = 0;
    while i < len
        invariant
            i <= len == data@.len(),
            bytes@ == record_header(len as nat) + data@.subrange(0, i as int),
        decreases len - i,
    {
        bytes.push(data[i]);
        proof {
            assert(bytes@ =~= record_header(len as nat) + data@.subrange(0, i as int + 1));
        }
        i = i + 1;
    }
    proof {
        assert(data@.subrange(0, len as int) =~= data@);
    }
    Ok(bytes)
}

/// The payload length a sector's header announces, or 0 when the sector
/// holds no usable record: a missing magic number, an empty or oversized
/// length, or a payload longer than `destination_len`.
pub open spec fn announced_len(area: Seq<u8>, destination_len: nat) -> nat {
    if area.len() < CONFIG_STORAGE_SIZE || !(area[0] == 0x47u8 && area[1] == 0x46u8 && area[2]
        == 0x43u8 && area[3] == 0x55u8) {
        0
    } else {
        let len = area[4] as nat + area[5] as nat * 256;
        if len == 0 || len > MAX_RECORD_PAYLOAD || len > destination_len {
            0
        } else {
            len
        }
    }
}

/// The payload a sector holds for a reader with room for
/// `destination_len` bytes.
pub open spec fn stored_payload(area: Seq<u8>, destination_len: nat) -> Seq<u8> {
    let n = announced_len(area, destination_len);
    if n == 0 {
        Seq::empty()
    } else {
        area.subrange(CONFIG_RECORD_HEADER_SIZE as int, CONFIG_RECORD_HEADER_SIZE + n)
    }
}

/// The payload stored in a sector read from flash, empty when there is
/// none; at most `destination_len` bytes.
pub fn flash_payload(area: &[u8], destination_len: usize) -> (r: Vec<u8>)
    ensures
        r@ == stored_payload(area@, destination_len as nat),
{
    if area.len() < CONFIG_STORAGE_SIZE || !(area[0] == 0x47u8 && area[1] == 0x46u8 && area[2]
        == 0x43u8 && area[3] == 0x55u8) {
        return Vec::new();
    }
    let len: usize = area[4] as usize + area[5] as usize * 256;
    if len == 0 || len > MAX_RECORD_PAYLOAD || len > destination_len {
        return Vec::new();
    }
    let mut payload: Vec<u8> = Vec::new();
    let mut i: usize = 0;
    while i < len
        invariant
            i <= len <= MAX_RECORD_PAYLOAD,
            area@.len() >= CONFIG_STORAGE_SIZE,
            payload@ == area@.subrange(
                CONFIG_RECORD_HEADER_SIZE as int,
                CONFIG_RECORD_HEADER_SIZE + i,
            ),
        decreases len - i,
    {
        payload.push(area[CONFIG_RECORD_HEADER_SIZE + i]);
        proof {
            assert(payload@ =~= area@.subrange(
                CONFIG_RECORD_HEADER_SIZE as int,
                CONFIG_RECORD_HEADER_SIZE + i + 1,
            ));
        }
        i = i + 1;
    }
    payload
}

/// A sector programmed with a record gives its payload back: whatever
/// follows the record, reading it into a buffer that holds the payload
/// returns exactly the bytes that were stored.
pub proof fn law_record_round_trip(data: Seq<u8>, rest: Seq<u8>, destination_len: nat)
    requires
        0 < data.len() <= MAX_RECORD_PAYLOAD,
        data.len() <= destination_len,
        CONFIG_RECORD_HEADER_SIZE + data.len() + rest.len() >= CONFIG_STORAGE_SIZE,
    ensures
        ({
            let area = record_header(data.len()) + data + rest;
            stored_payload(area, destination_len) == data
        }),
{
    let area = record_header(data.len()) + data + rest;
    let n = data.len();
    assert(area[4] as nat + area[5] as nat * 256 == n) by (nonlinear_arith)
        requires
            area[4] == (n % 256) as u8,
            area[5] == (n / 256) as u8,
            n <= 4088,
    {
    }
    assert(area.subrange(8, 8 + n as int) =~= data);
}

} // verus!
