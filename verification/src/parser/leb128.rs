//! LEB128, the variable-length integer encoding of the binary format.
//!
//! Each byte carries seven bits of the number, the least significant group
//! first; the high bit of a byte says whether another byte follows.

use vstd::prelude::*;

verus! {

/// The bit that says that another byte follows.
pub const CONTINUATION_BIT: u8 = 0x80;

/// The bit that carries the sign in the last byte of a signed number.
pub const SIGN_BIT: u8 = 0x40;

/// `128` to the power `j`: the weight of the `j`-th group of seven bits.
pub open spec fn group_weight(j: nat) -> nat
    decreases j,
{
    if j == 0 {
        1
    } else {
        128 * group_weight((j - 1) as nat)
    }
}

/// The sum of the seven-bit groups of the first `n` bytes, each at its weight.
pub open spec fn leb_sum(s: Seq<u8>, n: nat) -> nat
    decreases n,
{
    if n == 0 {
        0
    } else {
        leb_sum(s, (n - 1) as nat) + (s[n - 1] % 128) as nat * group_weight((n - 1) as nat)
    }
}

/// The index of the first byte at or after `i` without the continuation bit,
/// or the length of `s` where there is none.
pub open spec fn leb_end(s: Seq<u8>, i: nat) -> nat
    decreases s.len() - i,
{
    if i >= s.len() {
        s.len()
    } else if s[i as int] < 128 {
        i
    } else {
        leb_end(s, i + 1)
    }
}

/// The LEB128 bytes of an unsigned number: seven bits at a time, the least
/// significant first, with the continuation bit on every byte but the last.
pub open spec fn leb_u_encode(n: nat) -> Seq<u8>
    decreases n,
{
    if n < 128 {
        seq![n as u8]
    } else {
        seq![(n % 128 + 128) as u8] + leb_u_encode(n / 128)
    }
}

/// Where the first byte carries the continuation bit, the number ends one byte
/// later than the number of the bytes after it.
proof fn lemma_leb_end_cons(b: u8, t: Seq<u8>, i: nat)
    requires
        b >= 128,
    ensures
        leb_end(seq![b] + t, i + 1) == leb_end(t, i) + 1,
    decreases t.len() - i,
{
    let s = seq![b] + t;
    if i < t.len() {
        assert(s[i + 1int] == t[i as int]);
        if t[i as int] >= 128 {
            lemma_leb_end_cons(b, t, i + 1);
        }
    }
}

/// The sum of the groups of a byte followed by bytes `t`: the byte's group and
/// 128 times the sum of `t`.
proof fn lemma_leb_sum_cons(b: u8, t: Seq<u8>, k: nat)
    requires
        k <= t.len(),
    ensures
        leb_sum(seq![b] + t, k + 1) == (b % 128) as nat + 128 * leb_sum(t, k),
    decreases k,
{
    let s = seq![b] + t;
    if k > 0 {
        lemma_leb_sum_cons(b, t, (k - 1) as nat);
        assert(s[k as int] == t[k - 1]);
        let g = group_weight((k - 1) as nat);
        let x = (t[k - 1] % 128) as nat;
        assert(leb_sum(s, k + 1) == leb_sum(s, k) + x * group_weight(k));
        assert(group_weight(k) == 128 * g);
        assert(leb_sum(t, k) == leb_sum(t, (k - 1) as nat) + x * g);
        let y = leb_sum(t, (k - 1) as nat);
        assert(leb_sum(s, k + 1) == (b % 128) as nat + 128 * leb_sum(t, k)) by (nonlinear_arith)
            requires
                leb_sum(s, k + 1) == leb_sum(s, k) + x * group_weight(k),
                group_weight(k) == 128 * g,
                leb_sum(t, k) == y + x * g,
                leb_sum(s, k) == (b % 128) as nat + 128 * y,
        ;
    } else {
        assert(s[0] == b);
        assert(leb_sum(s, 1) == leb_sum(s, 0) + (s[0] % 128) as nat * group_weight(0));
        assert(group_weight(0) == 1);
        assert((b % 128) as nat * 1 == (b % 128) as nat);
    }
}

/// The sum of the first `n` groups depends on the first `n` bytes only.
pub proof fn lemma_leb_sum_prefix(s: Seq<u8>, t: Seq<u8>, n: nat)
    requires
        n <= s.len(),
        n <= t.len(),
        s.subrange(0, n as int) == t.subrange(0, n as int),
    ensures
        leb_sum(s, n) == leb_sum(t, n),
    decreases n,
{
    if n > 0 {
        assert(s[n - 1] == s.subrange(0, n as int)[n - 1]);
        assert(t[n - 1] == t.subrange(0, n as int)[n - 1]);
        assert(s.subrange(0, n - 1) == s.subrange(0, n as int).subrange(0, n - 1));
        assert(t.subrange(0, n - 1) == t.subrange(0, n as int).subrange(0, n - 1));
        lemma_leb_sum_prefix(s, t, (n - 1) as nat);
    }
}

/// Where a number ends within the first `m` bytes, it ends at the same place in
/// every sequence that starts with those bytes.
pub proof fn lemma_leb_end_prefix(s: Seq<u8>, t: Seq<u8>, m: nat, i: nat)
    requires
        m <= s.len(),
        m <= t.len(),
        s.subrange(0, m as int) == t.subrange(0, m as int),
        i <= leb_end(s, i) < m,
    ensures
        leb_end(t, i) == leb_end(s, i),
    decreases m - i,
{
    assert(s[i as int] == s.subrange(0, m as int)[i as int]);
    assert(t[i as int] == t.subrange(0, m as int)[i as int]);
    if s[i as int] >= 128 {
        lemma_leb_end_bounds(s, i + 1);
        lemma_leb_end_prefix(s, t, m, i + 1);
    }
}

/// The bytes of `n` end with their last byte, sum to `n`, and are no more than
/// `m` where `n` is below `128^m`.
pub proof fn lemma_leb_u_encode(n: nat, m: nat)
    ensures
        leb_u_encode(n).len() >= 1,
        leb_end(leb_u_encode(n), 0) == leb_u_encode(n).len() - 1,
        leb_sum(leb_u_encode(n), leb_u_encode(n).len()) == n,
        m >= 1 && n < group_weight(m) ==> leb_u_encode(n).len() <= m,
    decreases n,
{
    let e = leb_u_encode(n);
    if n < 128 {
        assert(e[0] == n as u8);
        assert(leb_sum(e, 1) == leb_sum(e, 0) + (e[0] % 128) as nat * group_weight(0));
        assert(group_weight(0) == 1);
        assert((e[0] % 128) as nat * 1 == (e[0] % 128) as nat);
        assert((n as u8) % 128 == n);
    } else {
        let b = (n % 128 + 128) as u8;
        let t = leb_u_encode(n / 128);
        lemma_leb_u_encode(n / 128, (m - 1) as nat);
        assert(e == seq![b] + t);
        assert(e[0] == b);
        lemma_leb_end_cons(b, t, 0);
        lemma_leb_sum_cons(b, t, t.len());
        assert(b % 128 == n % 128);
        assert(e.len() == t.len() + 1);
        assert(leb_sum(e, e.len()) == (n % 128) + 128 * (n / 128));
        if m >= 1 && n < group_weight(m) {
            if m == 1 {
                assert(group_weight(1) == 128 * group_weight(0));
            } else {
                assert(n / 128 < group_weight((m - 1) as nat)) by (nonlinear_arith)
                    requires
                        n < group_weight(m),
                        group_weight(m) == 128 * group_weight((m - 1) as nat),
                ;
            }
        }
    }
}

/// An unsigned number, read from its LEB128 bytes, reduced to 32 bits.
pub open spec fn leb_u32_value(s: Seq<u8>) -> u32 {
    (leb_sum(s, leb_end(s, 0) + 1) % 0x1_0000_0000) as u32
}

/// A signed 32-bit number read from its LEB128 bytes: the last byte's sign bit is
/// extended where fewer than 32 bits were read, else the sum is cut to 32 bits.
pub open spec fn leb_i32_value(s: Seq<u8>) -> i32 {
    let k = leb_end(s, 0);
    let acc = leb_sum(s, k + 1);
    if k <= 3 && s[k as int] % 128 >= 64 {
        (acc - group_weight(k + 1)) as i32
    } else {
        (acc % 0x1_0000_0000) as u32 as i32
    }
}

/// A signed 64-bit number read from its LEB128 bytes: the last byte's sign bit is
/// extended where fewer than 64 bits were read, else the sum is cut to 64 bits.
pub open spec fn leb_i64_value(s: Seq<u8>) -> i64 {
    let k = leb_end(s, 0);
    let acc = leb_sum(s, k + 1);
    if k <= 8 && s[k as int] % 128 >= 64 {
        (acc - group_weight(k + 1)) as i64
    } else {
        (acc % 0x1_0000_0000_0000_0000) as u64 as i64
    }
}

proof fn lemma_leb_end_step(s: Seq<u8>, i: nat)
    requires
        i < s.len(),
        s[i as int] >= 128,
    ensures
        leb_end(s, i) == leb_end(s, i + 1),
{
}

proof fn lemma_leb_end_bounds(s: Seq<u8>, i: nat)
    requires
        i <= s.len(),
    ensures
        i <= leb_end(s, i) <= s.len(),
        leb_end(s, i) < s.len() ==> s[leb_end(s, i) as int] < 128,
    decreases s.len() - i,
{
    if i < s.len() && s[i as int] >= 128 {
        lemma_leb_end_bounds(s, i + 1);
    }
}

proof fn lemma_weight_mono(a: nat, b: nat)
    requires
        a <= b,
    ensures
        group_weight(a) <= group_weight(b),
    decreases b - a,
{
    if a < b {
        lemma_weight_mono(a, (b - 1) as nat);
    }
}

proof fn lemma_weights()
    ensures
        group_weight(1) == 0x80,
        group_weight(2) == 0x4000,
        group_weight(3) == 0x20_0000,
        group_weight(4) == 0x1000_0000,
        group_weight(5) == 0x8_0000_0000,
        group_weight(6) == 0x400_0000_0000,
        group_weight(7) == 0x2_0000_0000_0000,
        group_weight(8) == 0x100_0000_0000_0000,
        group_weight(9) == 0x8000_0000_0000_0000,
        group_weight(10) == 0x40_0000_0000_0000_0000,
{
    reveal_with_fuel(group_weight, 11);
}

proof fn lemma_leb_sum_bound(s: Seq<u8>, n: nat)
    ensures
        leb_sum(s, n) < group_weight(n),
    decreases n,
{
    if n > 0 {
        lemma_leb_sum_bound(s, (n - 1) as nat);
        let w = group_weight((n - 1) as nat);
        let b = (s[n - 1] % 128) as nat;
        assert(b * w <= 127 * w) by (nonlinear_arith)
            requires
                b <= 127,
        ;
    }
}

/// The byte without its continuation bit.
pub fn low_bits_of_byte(byte: u8) -> (r: u8)
    ensures
        r == byte % 128,
{
    assert(byte & 0x7f == byte % 128) by (bit_vector);
    byte & 0x7f
}

/// Reads an unsigned LEB128 number and the count of its bytes. The number must end
/// within the input and within five bytes; its value is reduced to 32 bits.
pub fn read_u32_leb128(slice: &[u8]) -> (r: (u32, usize))
    requires
        leb_end(slice@, 0) < slice@.len(),
        leb_end(slice@, 0) <= 4,
    ensures
        r.0 == leb_u32_value(slice@),
        r.1 == leb_end(slice@, 0) + 1,
{
    let ghost s = slice@;
    let mut acc: u64 = 0;
    let mut weight: u64 = 1;
    let mut position: usize = 0;
    proof {
        lemma_weights();
        lemma_leb_end_bounds(s, 0);
    }
    loop
        invariant
            s == slice@,
            position <= leb_end(s, 0) <= 4,
            leb_end(s, 0) < s.len(),
            leb_end(s, 0) == leb_end(s, position as nat),
            acc == leb_sum(s, position as nat),
            weight == group_weight(position as nat),
            acc < weight,
            group_weight(1) == 0x80,
            group_weight(2) == 0x4000,
            group_weight(3) == 0x20_0000,
            group_weight(4) == 0x1000_0000,
            group_weight(5) == 0x8_0000_0000,
        decreases 5 - position,
    {
        let byte = slice[position];
        let low = low_bits_of_byte(byte);
        proof {
            lemma_leb_sum_bound(s, position as nat + 1);
            assert(low as nat * weight <= 127 * weight) by (nonlinear_arith)
                requires
                    low <= 127,
            ;
        }
        acc = acc + (low as u64) * weight;
        if byte & 0x80 == 0 {
            assert(byte & 0x80 == 0 ==> byte < 128) by (bit_vector);
            let v = (acc % 0x1_0000_0000) as u32;
            return (v, position + 1);
        }
        assert(byte & 0x80 != 0 ==> byte >= 128) by (bit_vector);
        proof {
            lemma_leb_end_step(s, position as nat);
            lemma_leb_end_bounds(s, position as nat + 1);
        }
        weight = weight * 128;
        position = position + 1;
    }
}

/// Reads a signed LEB128 number of at most 32 bits and the count of its bytes. The
/// number must end within the input and within five bytes.
pub fn read_i32_leb128(input: &[u8]) -> (r: (i32, usize))
    requires
        leb_end(input@, 0) < input@.len(),
        leb_end(input@, 0) <= 4,
    ensures
        r.0 == leb_i32_value(input@),
        r.1 == leb_end(input@, 0) + 1,
{
    let ghost s = input@;
    let mut acc: u64 = 0;
    let mut weight: u64 = 1;
    let mut counter: usize = 0;
    proof {
        lemma_weights();
        lemma_leb_end_bounds(s, 0);
    }
    loop
        invariant
            s == input@,
            counter <= leb_end(s, 0) <= 4,
            leb_end(s, 0) < s.len(),
            leb_end(s, 0) == leb_end(s, counter as nat),
            acc == leb_sum(s, counter as nat),
            weight == group_weight(counter as nat),
            acc < weight,
            group_weight(1) == 0x80,
            group_weight(2) == 0x4000,
            group_weight(3) == 0x20_0000,
            group_weight(4) == 0x1000_0000,
            group_weight(5) == 0x8_0000_0000,
        decreases 5 - counter,
    {
        let byte = input[counter];
        let low = low_bits_of_byte(byte);
        proof {
            lemma_leb_sum_bound(s, counter as nat + 1);
            assert(low as nat * weight <= 127 * weight) by (nonlinear_arith)
                requires
                    low <= 127,
            ;
        }
        acc = acc + (low as u64) * weight;
        if byte & 0x80 == 0 {
            assert(byte & 0x80 == 0 ==> byte < 128) by (bit_vector);
            let next_weight: u64 = weight * 128;
            if counter <= 3 && low >= 64 {
                // the sign bit of the last byte is extended
                let v = (acc as i64) - (next_weight as i64);
                return (v as i32, counter + 1);
            } else {
                let v = (acc % 0x1_0000_0000) as u32 as i32;
                return (v, counter + 1);
            }
        }
        assert(byte & 0x80 != 0 ==> byte >= 128) by (bit_vector);
        proof {
            lemma_leb_end_step(s, counter as nat);
            lemma_leb_end_bounds(s, counter as nat + 1);
        }
        weight = weight * 128;
        counter = counter + 1;
    }
}

/// Reads a signed LEB128 number of at most 64 bits and the count of its bytes. The
/// number must end within the input and within ten bytes; a tenth byte may only be
/// `0x00` or `0x7f`.
pub fn read_i64_leb128(input: &[u8]) -> (r: (i64, usize))
    requires
        leb_end(input@, 0) < input@.len(),
        leb_end(input@, 0) <= 9,
        leb_end(input@, 0) == 9 ==> (input@[9] == 0x00 || input@[9] == 0x7f),
    ensures
        r.0 == leb_i64_value(input@),
        r.1 == leb_end(input@, 0) + 1,
{
    let ghost s = input@;
    let mut acc: u128 = 0;
    let mut weight: u128 = 1;
    let mut counter: usize = 0;
    proof {
        lemma_weights();
        lemma_leb_end_bounds(s, 0);
    }
    loop
        invariant
            s == input@,
            counter <= leb_end(s, 0) <= 9,
            leb_end(s, 0) < s.len(),
            leb_end(s, 0) == leb_end(s, counter as nat),
            acc == leb_sum(s, counter as nat),
            weight == group_weight(counter as nat),
            acc < weight,
            weight <= group_weight(9),
            group_weight(9) == 0x8000_0000_0000_0000,
            group_weight(10) == 0x40_0000_0000_0000_0000,
        decreases 10 - counter,
    {
        let byte = input[counter];
        let low = low_bits_of_byte(byte);
        proof {
            lemma_leb_sum_bound(s, counter as nat + 1);
            assert(low as nat * weight <= 127 * weight) by (nonlinear_arith)
                requires
                    low <= 127,
            ;
        }
        acc = acc + (low as u128) * weight;
        if byte & 0x80 == 0 {
            assert(byte & 0x80 == 0 ==> byte < 128) by (bit_vector);
            let next_weight: u128 = weight * 128;
            if counter <= 8 && low >= 64 {
                // the sign bit of the last byte is extended
                proof {
                    lemma_weights();
                    assert(next_weight <= group_weight(9));
                }
                let v = (acc as i128) - (next_weight as i128);
                return (v as i64, counter + 1);
            } else {
                let v = (acc % 0x1_0000_0000_0000_0000) as u64 as i64;
                return (v, counter + 1);
            }
        }
        assert(byte & 0x80 != 0 ==> byte >= 128) by (bit_vector);
        proof {
            lemma_leb_end_step(s, counter as nat);
            lemma_leb_end_bounds(s, counter as nat + 1);
            assert(counter < 9);
            lemma_weight_mono(counter as nat + 1, 9);
        }
        weight = weight * 128;
        counter = counter + 1;
    }
}

} // verus!
