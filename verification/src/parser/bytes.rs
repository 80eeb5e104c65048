//! Reading fixed-width numbers and names out of bytes.

use byteorder::{ByteOrder, LittleEndian};
use vstd::bytes::{spec_u32_from_le_bytes, spec_u64_from_le_bytes};
use vstd::prelude::*;
use vstd::utf8::{decode_utf8, valid_utf8};

verus! {

/// Calls `LittleEndian::read_u32` of byteorder, which reads the first four bytes
/// of `buf` as a little-endian number; byteorder panics on a shorter buffer, which
/// `requires` rules out.
#[verifier::external_body]
pub(crate) fn le_read_u32(buf: &[u8]) -> (r: u32)
    requires
        buf@.len() >= 4,
    ensures
        r == spec_u32_from_le_bytes(buf@.subrange(0, 4)),
{
    LittleEndian::read_u32(buf)
}

/// Calls `LittleEndian::read_u64` of byteorder, which reads the first eight bytes
/// of `buf` as a little-endian number; byteorder panics on a shorter buffer, which
/// `requires` rules out.
#[verifier::external_body]
pub(crate) fn le_read_u64(buf: &[u8]) -> (r: u64)
    requires
        buf@.len() >= 8,
    ensures
        r == spec_u64_from_le_bytes(buf@.subrange(0, 8)),
{
    LittleEndian::read_u64(buf)
}

/// Calls `String::from_utf8` of std: a string is returned exactly where the bytes
/// are valid UTF-8, and it holds the characters that the bytes encode.
#[verifier::external_body]
pub(crate) fn string_from_utf8(bytes: Vec<u8>) -> (r: Option<String>)
    ensures
        r is Some <==> valid_utf8(bytes@),
        r matches Some(s) ==> s@ == decode_utf8(bytes@),
{
    String::from_utf8(bytes).ok()
}

} // verus!
