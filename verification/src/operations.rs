//! Integer operations of the numeric instructions that need more than one
//! operator of Rust.

use crate::value::Value;
use vstd::prelude::*;
use vstd::std_specs::bits::{u32_leading_zeros, u32_trailing_zeros, u64_leading_zeros, u64_trailing_zeros};

verus! {

/// Rotation of the bits of `x` to the left by `k` modulo 32.
pub open spec fn spec_rotl32(x: u32, k: u32) -> u32 {
    let s = k % 32;
    if s == 0 {
        x
    } else {
        (x << s) | (x >> ((32 - s) as u32))
    }
}

/// Rotation of the bits of `x` to the left by `k` modulo 64.
pub open spec fn spec_rotl64(x: u64, k: u32) -> u64 {
    let s = k % 64;
    if s == 0 {
        x
    } else {
        (x << s) | (x >> ((64 - s) as u32))
    }
}

/// Rotation of the bits of `x` to the right by `k` modulo 32.
pub open spec fn spec_rotr32(x: u32, k: u32) -> u32 {
    let s = k % 32;
    if s == 0 {
        x
    } else {
        (x >> s) | (x << ((32 - s) as u32))
    }
}

/// Rotation of the bits of `x` to the right by `k` modulo 64.
pub open spec fn spec_rotr64(x: u64, k: u32) -> u64 {
    let s = k % 64;
    if s == 0 {
        x
    } else {
        (x >> s) | (x << ((64 - s) as u32))
    }
}

/// Rotating `x` left by `k` moves bit `j` to bit `(j + k) mod 32`: bit `i` of
/// the result is bit `(i - k) mod 32` of `x`.
pub proof fn lemma_rotl32_bits(x: u32, k: u32, i: u32)
    by (bit_vector)
    requires
        i < 32,
    ensures
        (spec_rotl32(x, k) >> i) & 1 == (x >> (((i + 32 - k % 32) % 32) as u32)) & 1,
{
}

/// Rotating `x` right by `k` moves bit `j` to bit `(j - k) mod 32`: bit `i` of
/// the result is bit `(i + k) mod 32` of `x`.
pub proof fn lemma_rotr32_bits(x: u32, k: u32, i: u32)
    by (bit_vector)
    requires
        i < 32,
    ensures
        (spec_rotr32(x, k) >> i) & 1 == (x >> (((i + k % 32) % 32) as u32)) & 1,
{
}

/// Rotating `x` left by `k` moves bit `j` to bit `(j + k) mod 64`: bit `i` of
/// the result is bit `(i - k) mod 64` of `x`.
pub proof fn lemma_rotl64_bits(x: u64, k: u32, i: u32)
    by (bit_vector)
    requires
        i < 64,
    ensures
        (spec_rotl64(x, k) >> i) & 1 == (x >> (((i + 64 - k % 64) % 64) as u32)) & 1,
{
}

/// Rotating `x` right by `k` moves bit `j` to bit `(j - k) mod 64`: bit `i` of
/// the result is bit `(i + k) mod 64` of `x`.
pub proof fn lemma_rotr64_bits(x: u64, k: u32, i: u32)
    by (bit_vector)
    requires
        i < 64,
    ensures
        (spec_rotr64(x, k) >> i) & 1 == (x >> (((i + k % 64) % 64) as u32)) & 1,
{
}

/// Rotating by one to the left shifts left and brings the top bit to the
/// bottom; rotating left and then right by the same amount gives `x` back.
pub proof fn lemma_rotl32_laws(x: u32, k: u32)
    by (bit_vector)
    ensures
        spec_rotl32(x, 1) == (x << 1u32) | (x >> 31u32),
        spec_rotr32(spec_rotl32(x, k), k) == x,
        spec_rotl32(spec_rotr32(x, k), k) == x,
{
}

/// Rotating by one to the left shifts left and brings the top bit to the
/// bottom; rotating left and then right by the same amount gives `x` back.
pub proof fn lemma_rotl64_laws(x: u64, k: u32)
    by (bit_vector)
    ensures
        spec_rotl64(x, 1) == (x << 1u64) | (x >> 63u64),
        spec_rotr64(spec_rotl64(x, k), k) == x,
        spec_rotl64(spec_rotr64(x, k), k) == x,
{
}

/// The number of one bits among the lowest `n` bits of `x`.
pub open spec fn popcount(x: nat, n: nat) -> nat
    decreases n,
{
    if n == 0 {
        0
    } else {
        (x % 2) + popcount(x / 2, (n - 1) as nat)
    }
}

fn rotl32(x: u32, k: u32) -> (r: u32)
    ensures
        r == spec_rotl32(x, k),
{
    let s = k % 32;
    if s == 0 {
        x
    } else {
        (x << s) | (x >> (32 - s))
    }
}

fn rotl64(x: u64, k: u32) -> (r: u64)
    ensures
        r == spec_rotl64(x, k),
{
    let s = k % 64;
    if s == 0 {
        x
    } else {
        (x << s) | (x >> (64 - s))
    }
}

fn rotr32(x: u32, k: u32) -> (r: u32)
    ensures
        r == spec_rotr32(x, k),
{
    let s = k % 32;
    if s == 0 {
        x
    } else {
        (x >> s) | (x << (32 - s))
    }
}

fn rotr64(x: u64, k: u32) -> (r: u64)
    ensures
        r == spec_rotr64(x, k),
{
    let s = k % 64;
    if s == 0 {
        x
    } else {
        (x >> s) | (x << (64 - s))
    }
}

fn count_ones_u64(x: u64, n: u32) -> (r: u32)
    requires
        n <= 64,
    ensures
        r == popcount(x as nat, n as nat),
{
    let mut c: u32 = 0;
    let mut y: u64 = x;
    let mut i: u32 = 0;
    while i < n
        invariant
            i <= n <= 64,
            c <= i,
            c + popcount(y as nat, (n - i) as nat) == popcount(x as nat, n as nat),
        decreases n - i,
    {
        assert(y & 1 == y % 2) by (bit_vector);
        assert(y >> 1 == y / 2) by (bit_vector);
        c = c + (y & 1) as u32;
        y = y >> 1;
        i = i + 1;
    }
    c
}

/// Rotates the bits to the left by the second operand modulo the bit width.
pub fn rotate_left(left: Value, right: Value) -> (v: Value)
    requires
        (left is I32 && right is I32) || (left is I64 && right is I64),
    ensures
        v == (match (left, right) {
            (Value::I32(a), Value::I32(b)) => Value::I32(spec_rotl32(a as u32, b as u32) as i32),
            (Value::I64(a), Value::I64(b)) => Value::I64(spec_rotl64(a as u64, b as u32) as i64),
            _ => left,
        }),
{
    match (left, right) {
        (Value::I32(a), Value::I32(b)) => Value::I32(rotl32(a as u32, b as u32) as i32),
        (Value::I64(a), Value::I64(b)) => Value::I64(rotl64(a as u64, b as u32) as i64),
        _ => left,
    }
}

/// Rotates the bits to the right by the second operand modulo the bit width.
pub fn rotate_right(left: Value, right: Value) -> (v: Value)
    requires
        (left is I32 && right is I32) || (left is I64 && right is I64),
    ensures
        v == (match (left, right) {
            (Value::I32(a), Value::I32(b)) => Value::I32(spec_rotr32(a as u32, b as u32) as i32),
            (Value::I64(a), Value::I64(b)) => Value::I64(spec_rotr64(a as u64, b as u32) as i64),
            _ => left,
        }),
{
    match (left, right) {
        (Value::I32(a), Value::I32(b)) => Value::I32(rotr32(a as u32, b as u32) as i32),
        (Value::I64(a), Value::I64(b)) => Value::I64(rotr64(a as u64, b as u32) as i64),
        _ => left,
    }
}

/// The number of leading zero bits.
pub fn leading_zeros(left: Value) -> (v: Value)
    requires
        left is I32 || left is I64,
    ensures
        v == (match left {
            Value::I32(a) => Value::I32(u32_leading_zeros(a as u32) as i32),
            Value::I64(a) => Value::I64(u64_leading_zeros(a as u64) as i64),
            _ => left,
        }),
{
    match left {
        Value::I32(a) => {
            let n = (a as u32).leading_zeros();
            proof {
                vstd::std_specs::bits::axiom_u32_leading_zeros(a as u32);
            }
            Value::I32(n as i32)
        },
        Value::I64(a) => {
            let n = (a as u64).leading_zeros();
            Value::I64(n as i64)
        },
        _ => left,
    }
}

/// The number of trailing zero bits.
pub fn trailing_zeros(left: Value) -> (v: Value)
    requires
        left is I32 || left is I64,
    ensures
        v == (match left {
            Value::I32(a) => Value::I32(u32_trailing_zeros(a as u32) as i32),
            Value::I64(a) => Value::I64(u64_trailing_zeros(a as u64) as i64),
            _ => left,
        }),
{
    match left {
        Value::I32(a) => {
            let n = (a as u32).trailing_zeros();
            Value::I32(n as i32)
        },
        Value::I64(a) => {
            let n = (a as u64).trailing_zeros();
            Value::I64(n as i64)
        },
        _ => left,
    }
}

/// The number of one bits.
pub fn count_ones(left: Value) -> (v: Value)
    requires
        left is I32 || left is I64,
    ensures
        v == (match left {
            Value::I32(a) => Value::I32(popcount(a as u32 as nat, 32) as i32),
            Value::I64(a) => Value::I64(popcount(a as u64 as nat, 64) as i64),
            _ => left,
        }),
{
    match left {
        Value::I32(a) => {
            let n = count_ones_u64((a as u32) as u64, 32);
            Value::I32(n as i32)
        },
        Value::I64(a) => {
            let n = count_ones_u64(a as u64, 64);
            Value::I64(n as i64)
        },
        _ => left,
    }
}

/// `1` where the integer is zero, else `0`; the result is always an `i32`.
pub fn eqz(left: Value) -> (v: Value)
    requires
        left is I32 || left is I64,
    ensures
        v == (match left {
            Value::I32(a) => Value::I32(if a == 0 { 1 } else { 0 }),
            Value::I64(a) => Value::I32(if a == 0 { 1 } else { 0 }),
            _ => left,
        }),
{
    match left {
        Value::I32(a) => Value::I32(if a == 0 { 1 } else { 0 }),
        Value::I64(a) => Value::I32(if a == 0 { 1 } else { 0 }),
        _ => left,
    }
}

/// The same bits read as the other type of the same width.
pub open spec fn spec_reinterpret(v: Value) -> Value {
    match v {
        Value::I32(k) => Value::F32(k as u32),
        Value::I64(k) => Value::F64(k as u64),
        Value::F32(k) => Value::I32(k as i32),
        Value::F64(k) => Value::I64(k as i64),
    }
}

/// Reinterprets the bits of a value as the other type of the same width.
pub fn reinterpret(v: Value) -> (r: Value)
    ensures
        r == spec_reinterpret(v),
{
    match v {
        Value::I32(k) => Value::F32(k as u32),
        Value::I64(k) => Value::F64(k as u64),
        Value::F32(k) => Value::I32(k as i32),
        Value::F64(k) => Value::I64(k as i64),
    }
}

/// Reinterpreting twice gives the value back.
pub proof fn reinterpret_involutive(v: Value)
    ensures
        spec_reinterpret(spec_reinterpret(v)) == v,
{
    match v {
        Value::I32(k) => {
            assert(k as u32 as i32 == k) by (bit_vector);
        },
        Value::I64(k) => {
            assert(k as u64 as i64 == k) by (bit_vector);
        },
        Value::F32(k) => {
            assert(k as i32 as u32 == k) by (bit_vector);
        },
        Value::F64(k) => {
            assert(k as i64 as u64 == k) by (bit_vector);
        },
    }
}

} // verus!
