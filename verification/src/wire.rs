//! Layout of a request frame on the wire.
//!
//! ```text
//! offset  size  meaning
//! 0       1     slave address
//! 1       1     function code
//! 2       2     address, big-endian
//! 4       2     count, status or value, big-endian
//! 6       1     byte count        (write-multiple requests only)
//! 7       n     data bytes        (write-multiple requests only)
//! end-2   2     checksum
//! ```
//!
//! A field that lies beyond the bytes at hand reads as zero, so that every
//! byte sequence has a meaning.

use vstd::prelude::*;
use vstd::slice::slice_subrange;

verus! {

/// Offset of the address field.
pub const ADDRESS_AT: usize = 2;

/// Offset of the field that holds a count, a status or a value.
pub const VALUE_AT: usize = 4;

/// Offset of the byte count of a write-multiple request.
pub const BYTE_COUNT_AT: usize = 6;

/// Offset of the data bytes of a write-multiple request.
pub const DATA_AT: usize = 7;

/// The 16-bit number whose high byte is `hi` and whose low byte is `lo`.
pub open spec fn be16(hi: u8, lo: u8) -> u16 {
    (hi as int * 256 + lo as int) as u16
}

/// The byte at offset `at`, or zero beyond the end.
pub open spec fn byte_at(bytes: Seq<u8>, at: int) -> u8 {
    if 0 <= at < bytes.len() {
        bytes[at]
    } else {
        0
    }
}

/// The big-endian 16-bit field at offset `at`.
pub open spec fn field_at(bytes: Seq<u8>, at: int) -> u16 {
    be16(byte_at(bytes, at), byte_at(bytes, at + 1))
}

/// The data bytes of a write-multiple request: as many as its byte count
/// says, from offset 7 on, as far as there are bytes.
pub open spec fn payload(bytes: Seq<u8>) -> Seq<u8> {
    if bytes.len() <= DATA_AT {
        Seq::empty()
    } else if DATA_AT + bytes[BYTE_COUNT_AT as int] <= bytes.len() {
        bytes.subrange(DATA_AT as int, DATA_AT + bytes[BYTE_COUNT_AT as int])
    } else {
        bytes.subrange(DATA_AT as int, bytes.len() as int)
    }
}

/// The frame that `bytes` begin with: their first `frame_len`, or all of
/// them where there are fewer.
pub open spec fn frame_of(bytes: Seq<u8>, frame_len: int) -> Seq<u8> {
    if 0 <= frame_len <= bytes.len() {
        bytes.take(frame_len)
    } else {
        bytes
    }
}

/// The bytes of a frame behind its slave address and function code.
pub open spec fn body_of(frame: Seq<u8>) -> Seq<u8> {
    if frame.len() >= ADDRESS_AT {
        frame.skip(ADDRESS_AT as int)
    } else {
        Seq::empty()
    }
}

/// Puts two bytes together, the high byte first.
pub fn read_be16(hi: u8, lo: u8) -> (value: u16)
    ensures
        value == be16(hi, lo),
{
    hi as u16 * 256 + lo as u16
}

/// Reads the byte at offset `at`, zero beyond the end.
pub fn read_byte(bytes: &[u8], at: usize) -> (byte: u8)
    ensures
        byte == byte_at(bytes@, at as int),
{
    if at < bytes.len() {
        bytes[at]
    } else {
        0
    }
}

/// Reads the big-endian 16-bit field at offset `at`.
pub fn read_field(bytes: &[u8], at: usize) -> (value: u16)
    ensures
        value == field_at(bytes@, at as int),
{
    let lo = if at < usize::MAX {
        read_byte(bytes, at + 1)
    } else {
        assert(bytes@.len() == bytes.len() <= usize::MAX);
        0
    };
    read_be16(read_byte(bytes, at), lo)
}

/// The data bytes of the write-multiple request that `bytes` begin with.
pub fn read_payload<'a>(bytes: &'a [u8]) -> (data: &'a [u8])
    ensures
        data@ == payload(bytes@),
{
    if bytes.len() <= DATA_AT {
        slice_subrange(bytes, 0, 0)
    } else {
        let byte_count = bytes[BYTE_COUNT_AT] as usize;
        if byte_count <= bytes.len() - DATA_AT {
            slice_subrange(bytes, DATA_AT, DATA_AT + byte_count)
        } else {
            slice_subrange(bytes, DATA_AT, bytes.len())
        }
    }
}

/// The frame that `bytes` begin with.
pub fn read_frame<'a>(bytes: &'a [u8], frame_len: usize) -> (frame: &'a [u8])
    ensures
        frame@ == frame_of(bytes@, frame_len as int),
{
    if frame_len <= bytes.len() {
        slice_subrange(bytes, 0, frame_len)
    } else {
        bytes
    }
}

/// The bytes of a frame behind its slave address and function code.
pub fn read_body<'a>(frame: &'a [u8]) -> (body: &'a [u8])
    ensures
        body@ == body_of(frame@),
{
    if frame.len() >= ADDRESS_AT {
        slice_subrange(frame, ADDRESS_AT, frame.len())
    } else {
        slice_subrange(frame, 0, 0)
    }
}

} // verus!
