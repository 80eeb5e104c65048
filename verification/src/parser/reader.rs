//! Primitive readers of the binary format: bytes, LEB128 numbers, floats, names.
//!
//! Each reader takes the input and a position and returns what it read with the
//! position after it. `Eof` says that the input ended too early; `Malformed` says
//! that the bytes are not in the format.

use crate::parser::bytes::{le_read_u32, le_read_u64, string_from_utf8};
use crate::parser::leb128::{
    group_weight, leb_end, leb_i32_value, leb_i64_value, leb_u32_value, leb_u_encode, lemma_leb_end_prefix, lemma_leb_sum_prefix,
    lemma_leb_u_encode, read_i32_leb128, read_i64_leb128, read_u32_leb128,
};
use vstd::bytes::{spec_u32_from_le_bytes, spec_u64_from_le_bytes};
use vstd::prelude::*;
use vstd::utf8::{decode_utf8, valid_utf8};

verus! {

/// Why reading failed.
#[derive(Debug, Clone, Copy, PartialEq, Eq, Structural)]
pub enum ParseError {
    /// The input ended before the item did.
    Eof,
    /// The bytes do not encode the item.
    Malformed,
}

/// The bytes `input[pos..pos + n]`.
pub open spec fn window(input: Seq<u8>, pos: int, n: int) -> Seq<u8> {
    input.subrange(pos, pos + n)
}

/// The bytes from `pos` on, at most `n` of them.
pub open spec fn upto(input: Seq<u8>, pos: int, n: int) -> Seq<u8> {
    if pos + n <= input.len() {
        input.subrange(pos, pos + n)
    } else {
        input.subrange(pos, input.len() as int)
    }
}

/// Reading the LEB128 bytes of an unsigned 32-bit number, whatever follows
/// them, gives the number back and the position after its bytes.
pub proof fn lemma_leb_u32_round_trip(n: u32, rest: Seq<u8>)
    ensures
        spec_take_leb_u32(leb_u_encode(n as nat) + rest, 0) == Ok::<(u32, usize), ParseError>(
            (n, leb_u_encode(n as nat).len() as usize),
        ),
{
    let e = leb_u_encode(n as nat);
    assert(group_weight(5) == 34359738368) by {
        reveal_with_fuel(group_weight, 6);
    }
    lemma_leb_u_encode(n as nat, 5);
    let input = e + rest;
    let w = upto(input, 0, 5);
    assert(w.subrange(0, e.len() as int) =~= e.subrange(0, e.len() as int));
    lemma_leb_end_prefix(e, w, e.len(), 0);
    lemma_leb_sum_prefix(e, w, e.len());
}

/// An unsigned 32-bit LEB128 number at `pos`: at most five bytes, the last of
/// them below 128. Where the input ends before that byte, the error is `Eof`;
/// where five bytes do not hold it, the number is malformed.
pub open spec fn spec_take_leb_u32(input: Seq<u8>, pos: int) -> Result<(u32, usize), ParseError> {
    let w = upto(input, pos, 5);
    let k = leb_end(w, 0);
    if k >= w.len() {
        if w.len() < 5 {
            Err(ParseError::Eof)
        } else {
            Err(ParseError::Malformed)
        }
    } else {
        Ok((leb_u32_value(w), (pos + k + 1) as usize))
    }
}

/// A signed 32-bit LEB128 number at `pos`: at most five bytes, the last of them
/// below 128. Where the input ends before that byte, the error is `Eof`; where
/// five bytes do not hold it, the number is malformed.
pub open spec fn spec_take_leb_i32(input: Seq<u8>, pos: int) -> Result<(i32, usize), ParseError> {
    let w = upto(input, pos, 5);
    let k = leb_end(w, 0);
    if k >= w.len() {
        if w.len() < 5 {
            Err(ParseError::Eof)
        } else {
            Err(ParseError::Malformed)
        }
    } else {
        Ok((leb_i32_value(w), (pos + k + 1) as usize))
    }
}

/// A signed LEB128 number at `pos` of at most `n` bytes, read as a 64-bit
/// number: the last byte is below 128, and a tenth byte can only be `0x00` or
/// `0x7f`. Where the input ends before the last byte, the error is `Eof`; where
/// `n` bytes do not hold it, or a tenth byte is another, the number is malformed.
pub open spec fn spec_take_leb_i64_upto(input: Seq<u8>, pos: int, n: int) -> Result<(i64, usize), ParseError> {
    let w = upto(input, pos, n);
    let k = leb_end(w, 0);
    if k >= w.len() {
        if w.len() < n {
            Err(ParseError::Eof)
        } else {
            Err(ParseError::Malformed)
        }
    } else if k == 9 && !(w[9] == 0x00 || w[9] == 0x7f) {
        Err(ParseError::Malformed)
    } else {
        Ok((leb_i64_value(w), (pos + k + 1) as usize))
    }
}

/// Reads one byte.
pub fn take_byte(input: &[u8], pos: usize) -> (r: Result<(u8, usize), ParseError>)
    requires
        pos <= input@.len(),
    ensures
        pos < input@.len() ==> r == Ok::<(u8, usize), ParseError>((input@[pos as int], (pos + 1) as usize)),
        pos == input@.len() ==> r == Err::<(u8, usize), ParseError>(ParseError::Eof),
        r matches Ok((_, q)) ==> q == pos + 1,
{
    if pos < input.len() {
        Ok((input[pos], pos + 1))
    } else {
        Err(ParseError::Eof)
    }
}

/// Reads an unsigned 32-bit LEB128 number.
pub fn take_leb_u32(input: &[u8], pos: usize) -> (r: Result<(u32, usize), ParseError>)
    requires
        pos <= input@.len(),
    ensures
        r == spec_take_leb_u32(input@, pos as int),
        r matches Ok((_, p)) ==> pos < p <= input@.len(),
{
    let avail = if input.len() - pos < 5 {
        input.len() - pos
    } else {
        5
    };
    let w = &input[pos..pos + avail];
    proof {
        assert(w@ == upto(input@, pos as int, 5));
        leb_end_bounds(w@, 0);
    }
    if !leb_ends_within(w, avail) {
        if avail < 5 {
            return Err(ParseError::Eof);
        }
        return Err(ParseError::Malformed);
    }
    let (v, n) = read_u32_leb128(w);
    Ok((v, pos + n))
}

/// Reads a signed 32-bit LEB128 number.
pub fn take_leb_i32(input: &[u8], pos: usize) -> (r: Result<(i32, usize), ParseError>)
    requires
        pos <= input@.len(),
    ensures
        r == spec_take_leb_i32(input@, pos as int),
        r matches Ok((_, p)) ==> pos < p <= input@.len(),
{
    let avail = if input.len() - pos < 5 {
        input.len() - pos
    } else {
        5
    };
    let w = &input[pos..pos + avail];
    proof {
        assert(w@ == upto(input@, pos as int, 5));
        leb_end_bounds(w@, 0);
    }
    if !leb_ends_within(w, avail) {
        if avail < 5 {
            return Err(ParseError::Eof);
        }
        return Err(ParseError::Malformed);
    }
    let (v, n) = read_i32_leb128(w);
    Ok((v, pos + n))
}

/// Reads a signed LEB128 number of at most `n` bytes, `n` at most ten.
fn take_leb_i64_upto(input: &[u8], pos: usize, n: usize) -> (r: Result<(i64, usize), ParseError>)
    requires
        pos <= input@.len(),
        1 <= n <= 10,
    ensures
        r == spec_take_leb_i64_upto(input@, pos as int, n as int),
        r matches Ok((_, p)) ==> pos < p <= input@.len(),
{
    let avail = if input.len() - pos < n {
        input.len() - pos
    } else {
        n
    };
    let w = &input[pos..pos + avail];
    proof {
        assert(w@ == upto(input@, pos as int, n as int));
        leb_end_bounds(w@, 0);
    }
    let last = leb_last_within(w, avail);
    if last >= avail {
        if avail < n {
            return Err(ParseError::Eof);
        }
        return Err(ParseError::Malformed);
    }
    if last == 9 && w[9] != 0x00 && w[9] != 0x7f {
        return Err(ParseError::Malformed);
    }
    let (v, k) = read_i64_leb128(w);
    Ok((v, pos + k))
}

/// Reads a signed 64-bit LEB128 number: at most ten bytes.
pub fn take_leb_i64(input: &[u8], pos: usize) -> (r: Result<(i64, usize), ParseError>)
    requires
        pos <= input@.len(),
    ensures
        r == spec_take_leb_i64_upto(input@, pos as int, 10),
        r matches Ok((_, p)) ==> pos < p <= input@.len(),
{
    take_leb_i64_upto(input, pos, 10)
}

/// Reads a signed 33-bit LEB128 number: at most five bytes.
pub fn take_leb_i33(input: &[u8], pos: usize) -> (r: Result<(i64, usize), ParseError>)
    requires
        pos <= input@.len(),
    ensures
        r == spec_take_leb_i64_upto(input@, pos as int, 5),
        r matches Ok((_, p)) ==> pos < p <= input@.len(),
{
    take_leb_i64_upto(input, pos, 5)
}

/// The index of the last byte of the LEB128 number at the start of `w`, looked
/// for within the first `n` bytes; `n` where it does not end there.
fn leb_last_within(w: &[u8], n: usize) -> (k: usize)
    requires
        n <= w@.len(),
    ensures
        k == (if leb_end(w@, 0) < n {
            leb_end(w@, 0)
        } else {
            n as nat
        }),
{
    let mut i: usize = 0;
    while i < n
        invariant
            i <= n <= w@.len(),
            leb_end(w@, 0) == leb_end(w@, i as nat),
        decreases n - i,
    {
        if w[i] < 128 {
            return i;
        }
        i = i + 1;
    }
    proof {
        leb_end_bounds(w@, n as nat);
    }
    n
}

/// Whether a LEB128 number at the start of `w` ends within its first `n` bytes.
fn leb_ends_within(w: &[u8], n: usize) -> (b: bool)
    requires
        n <= w@.len(),
    ensures
        b == (leb_end(w@, 0) < n),
{
    let mut i: usize = 0;
    while i < n
        invariant
            i <= n <= w@.len(),
            leb_end(w@, 0) == leb_end(w@, i as nat),
        decreases n - i,
    {
        if w[i] < 128 {
            return true;
        }
        i = i + 1;
    }
    proof {
        leb_end_bounds(w@, n as nat);
    }
    false
}

/// The end of a LEB128 number lies between where the search starts and the end.
pub proof fn leb_end_bounds(s: Seq<u8>, i: nat)
    requires
        i <= s.len(),
    ensures
        i <= leb_end(s, i) <= s.len(),
        leb_end(s, i) < s.len() ==> s[leb_end(s, i) as int] < 128,
    decreases s.len() - i,
{
    if i < s.len() && s[i as int] >= 128 {
        leb_end_bounds(s, i + 1);
    }
}

/// Reads the bits of an `f32`: four bytes, little-endian.
pub fn take_f32(input: &[u8], pos: usize) -> (r: Result<(u32, usize), ParseError>)
    requires
        pos <= input@.len(),
    ensures
        pos + 4 > input@.len() ==> r == Err::<(u32, usize), ParseError>(ParseError::Eof),
        pos + 4 <= input@.len() ==> r == Ok::<(u32, usize), ParseError>(
            (spec_u32_from_le_bytes(window(input@, pos as int, 4)), (pos + 4) as usize),
        ),
{
    if input.len() - pos < 4 {
        return Err(ParseError::Eof);
    }
    let w = &input[pos..pos + 4];
    let bits = le_read_u32(w);
    proof {
        assert(w@.subrange(0, 4) == window(input@, pos as int, 4));
    }
    Ok((bits, pos + 4))
}

/// Reads the bits of an `f64`: eight bytes, little-endian.
pub fn take_f64(input: &[u8], pos: usize) -> (r: Result<(u64, usize), ParseError>)
    requires
        pos <= input@.len(),
    ensures
        pos + 8 > input@.len() ==> r == Err::<(u64, usize), ParseError>(ParseError::Eof),
        pos + 8 <= input@.len() ==> r == Ok::<(u64, usize), ParseError>(
            (spec_u64_from_le_bytes(window(input@, pos as int, 8)), (pos + 8) as usize),
        ),
{
    if input.len() - pos < 8 {
        return Err(ParseError::Eof);
    }
    let w = &input[pos..pos + 8];
    let bits = le_read_u64(w);
    proof {
        assert(w@.subrange(0, 8) == window(input@, pos as int, 8));
    }
    Ok((bits, pos + 8))
}

/// Reads `n` bytes.
pub fn take_bytes(input: &[u8], pos: usize, n: usize) -> (r: Result<(Vec<u8>, usize), ParseError>)
    requires
        pos <= input@.len(),
    ensures
        pos + n > input@.len() ==> r is Err && r->Err_0 == ParseError::Eof,
        pos + n <= input@.len() ==> (r matches Ok((v, p)) && v@ == window(input@, pos as int, n as int)
            && p == pos + n),
{
    if input.len() - pos < n {
        return Err(ParseError::Eof);
    }
    let mut v: Vec<u8> = Vec::new();
    let mut i: usize = 0;
    while i < n
        invariant
            i <= n,
            pos + n <= input.len(),
            v@ == window(input@, pos as int, i as int),
        decreases n - i,
    {
        v.push(input[pos + i]);
        i = i + 1;
        proof {
            assert(v@ =~= window(input@, pos as int, i as int));
        }
    }
    Ok((v, pos + n))
}

/// A name: its length as unsigned LEB128, then that many bytes of UTF-8.
pub open spec fn spec_take_name(input: Seq<u8>, pos: int) -> Result<(Seq<char>, usize), ParseError> {
    match spec_take_leb_u32(input, pos) {
        Err(e) => Err(e),
        Ok((n, p)) => if p + n > input.len() {
            Err(ParseError::Eof)
        } else if !valid_utf8(window(input, p as int, n as int)) {
            Err(ParseError::Malformed)
        } else {
            Ok((decode_utf8(window(input, p as int, n as int)), (p + n) as usize))
        },
    }
}

/// Reads a name.
pub fn take_name(input: &[u8], pos: usize) -> (r: Result<(String, usize), ParseError>)
    requires
        pos <= input@.len(),
    ensures
        match spec_take_name(input@, pos as int) {
            Ok((s, p)) => r matches Ok((t, q)) && t@ == s && q == p && pos < q <= input@.len(),
            Err(e) => r == Err::<(String, usize), ParseError>(e),
        },
{
    let (n, p) = match take_leb_u32(input, pos) {
        Err(e) => {
            return Err(e);
        },
        Ok(x) => x,
    };
    let (bytes, q) = match take_bytes(input, p, n as usize) {
        Err(e) => {
            return Err(e);
        },
        Ok(x) => x,
    };
    match string_from_utf8(bytes) {
        Some(s) => Ok((s, q)),
        None => Err(ParseError::Malformed),
    }
}

} // verus!
