//! Runtime values.

use crate::parser::ast::ValueType;
use vstd::prelude::*;

verus! {

/// A runtime value. Floats are held as their IEEE 754 bit patterns.
#[derive(Debug, Clone, Copy, PartialEq, Eq, Structural)]
pub enum Value {
    I32(i32),
    I64(i64),
    F32(u32),
    F64(u64),
}

/// The arity of a block or function: how many values it leaves behind.
pub type Arity = u32;

/// The type of a value.
pub open spec fn spec_type_of(v: Value) -> ValueType {
    match v {
        Value::I32(_) => ValueType::I32,
        Value::I64(_) => ValueType::I64,
        Value::F32(_) => ValueType::F32,
        Value::F64(_) => ValueType::F64,
    }
}

/// The types of a sequence of values, one for each.
pub open spec fn types_of_values(s: Seq<Value>) -> Seq<ValueType> {
    Seq::new(s.len(), |i: int| spec_type_of(s[i]))
}

/// Whether the value is an integer.
pub open spec fn is_int(v: Value) -> bool {
    v is I32 || v is I64
}

/// Whether two values are integers of the same type.
pub open spec fn same_int_type(a: Value, b: Value) -> bool {
    (a is I32 && b is I32) || (a is I64 && b is I64)
}

/// The zero of a value type.
pub open spec fn spec_zero_of(t: ValueType) -> Value {
    match t {
        ValueType::I32 => Value::I32(0),
        ValueType::I64 => Value::I64(0),
        ValueType::F32 => Value::F32(0),
        ValueType::F64 => Value::F64(0),
    }
}

/// Division that rounds towards zero.
pub open spec fn trunc_div(x: int, y: int) -> int {
    let q = (abs(x) / abs(y)) as int;
    if (x < 0) != (y < 0) {
        -q
    } else {
        q
    }
}

/// The remainder of the division that rounds towards zero; it has the sign of `x`.
pub open spec fn trunc_rem(x: int, y: int) -> int {
    x - y * trunc_div(x, y)
}

/// The absolute value of an integer.
pub open spec fn abs(x: int) -> nat {
    if x < 0 {
        (-x) as nat
    } else {
        x as nat
    }
}

/// Signed 32-bit division as `wrapping_div` computes it.
pub open spec fn spec_div_i32(x: i32, y: i32) -> i32 {
    if x == i32::MIN && y == -1 {
        i32::MIN
    } else {
        trunc_div(x as int, y as int) as i32
    }
}

/// Signed 64-bit division as `wrapping_div` computes it.
pub open spec fn spec_div_i64(x: i64, y: i64) -> i64 {
    if x == i64::MIN && y == -1 {
        i64::MIN
    } else {
        trunc_div(x as int, y as int) as i64
    }
}

/// Signed 32-bit remainder as `wrapping_rem` computes it.
pub open spec fn spec_rem_i32(x: i32, y: i32) -> i32 {
    if x == i32::MIN && y == -1 {
        0
    } else {
        trunc_rem(x as int, y as int) as i32
    }
}

/// Signed 64-bit remainder as `wrapping_rem` computes it.
pub open spec fn spec_rem_i64(x: i64, y: i64) -> i64 {
    if x == i64::MIN && y == -1 {
        0
    } else {
        trunc_rem(x as int, y as int) as i64
    }
}

proof fn lemma_trunc_div_bounds(x: int, y: int, bound: int)
    requires
        y != 0,
        -bound <= x < bound,
        bound > 0,
        !(x == -bound && y == -1),
    ensures
        -bound <= trunc_div(x, y) < bound,
        -bound <= y * trunc_div(x, y) < bound,
        abs(trunc_rem(x, y)) < abs(y),
        -bound <= trunc_rem(x, y) < bound,
{
    let q = (abs(x) / abs(y)) as int;
    let ax = abs(x) as int;
    let ay = abs(y) as int;
    assert(0 <= q <= ax) by (nonlinear_arith)
        requires
            ay >= 1,
            ax >= 0,
            q == ax / ay,
    ;
    assert(0 <= ax - ay * q < ay) by (nonlinear_arith)
        requires
            ay >= 1,
            ax >= 0,
            q == ax / ay,
    ;
    if ay == 1 {
        assert(q == ax) by (nonlinear_arith)
            requires
                ay == 1,
                q == ax / ay,
        ;
    } else {
        assert(q < bound) by (nonlinear_arith)
            requires
                ay >= 2,
                q == ax / ay,
                ax <= bound,
                bound > 0,
        ;
    }
    let td = trunc_div(x, y);
    // y * td has the sign of x and the size ay * q
    if x < 0 {
        if y < 0 {
            assert(td == q);
            assert(y * td == -(ay * q)) by (nonlinear_arith)
                requires
                    y < 0,
                    ay == -y,
                    td == q,
            ;
        } else {
            assert(td == -q);
            assert(y * td == -(ay * q)) by (nonlinear_arith)
                requires
                    y > 0,
                    ay == y,
                    td == -q,
            ;
        }
        assert(x == -ax);
    } else {
        if y < 0 {
            assert(td == -q);
            assert(y * td == ay * q) by (nonlinear_arith)
                requires
                    y < 0,
                    ay == -y,
                    td == -q,
            ;
        } else {
            assert(td == q);
            assert(y * td == ay * q) by (nonlinear_arith)
                requires
                    y > 0,
                    ay == y,
                    td == q,
            ;
        }
        assert(x == ax);
    }
}

/// Truncating signed division on 64 bits, for operands whose quotient fits.
fn div_trunc_i64(x: i64, y: i64) -> (r: i64)
    requires
        y != 0,
        !(x == i64::MIN && y == -1),
    ensures
        r == trunc_div(x as int, y as int),
{
    proof {
        lemma_trunc_div_bounds(x as int, y as int, 0x8000_0000_0000_0000int);
    }
    let ax: u64 = if x < 0 {
        if x == i64::MIN {
            0x8000_0000_0000_0000u64
        } else {
            (-x) as u64
        }
    } else {
        x as u64
    };
    let ay: u64 = if y < 0 {
        if y == i64::MIN {
            0x8000_0000_0000_0000u64
        } else {
            (-y) as u64
        }
    } else {
        y as u64
    };
    let q: u64 = ax / ay;
    assert(q == abs(x as int) / abs(y as int));
    if (x < 0) != (y < 0) {
        if q == 0x8000_0000_0000_0000u64 {
            i64::MIN
        } else {
            -(q as i64)
        }
    } else {
        q as i64
    }
}

impl Value {
    /// The type of the value.
    pub fn value_type(&self) -> (t: ValueType)
        ensures
            t == spec_type_of(*self),
    {
        match self {
            Value::I32(_) => ValueType::I32,
            Value::I64(_) => ValueType::I64,
            Value::F32(_) => ValueType::F32,
            Value::F64(_) => ValueType::F64,
        }
    }

    /// The zero of a value type.
    pub fn zero_of(t: ValueType) -> (v: Value)
        ensures
            v == spec_zero_of(t),
    {
        match t {
            ValueType::I32 => Value::I32(0),
            ValueType::I64 => Value::I64(0),
            ValueType::F32 => Value::F32(0),
            ValueType::F64 => Value::F64(0),
        }
    }

    /// Converts between the integer types: an `i32` is sign-extended to `i64`, an `i64`
    /// is truncated to `i32`, and a value that already has the type `vt` stays as it is.
    /// Conversions from or to floats are done by the host's float unit.
    pub fn convert(self, vt: ValueType) -> (v: Value)
        requires
            is_int(self) || spec_type_of(self) == vt,
            vt == ValueType::I32 || vt == ValueType::I64 || spec_type_of(self) == vt,
        ensures
            v == (match (self, vt) {
                (Value::I32(x), ValueType::I64) => Value::I64(x as i64),
                (Value::I64(x), ValueType::I32) => Value::I32(x as i32),
                _ => self,
            }),
    {
        match (self, vt) {
            (Value::I32(x), ValueType::I64) => Value::I64(x as i64),
            (Value::I64(x), ValueType::I32) => Value::I32(x as i32),
            _ => self,
        }
    }

    /// Whether the value is an `f32`.
    pub fn is_f32(&self) -> (b: bool)
        ensures
            b == (*self is F32),
    {
        matches!(self, Value::F32(_))
    }

    /// Whether the value is an `f64`.
    pub fn is_f64(&self) -> (b: bool)
        ensures
            b == (*self is F64),
    {
        matches!(self, Value::F64(_))
    }

    /// Integer addition, wrapping around.
    pub fn add(self, other: Self) -> (v: Self)
        requires
            same_int_type(self, other),
        ensures
            v == (match (self, other) {
                (Value::I32(a), Value::I32(b)) => Value::I32(a.wrapping_add(b)),
                (Value::I64(a), Value::I64(b)) => Value::I64(a.wrapping_add(b)),
                _ => self,
            }),
    {
        match (self, other) {
            (Value::I32(a), Value::I32(b)) => Value::I32(a.wrapping_add(b)),
            (Value::I64(a), Value::I64(b)) => Value::I64(a.wrapping_add(b)),
            _ => self,
        }
    }

    /// Integer subtraction, wrapping around.
    pub fn sub(self, other: Self) -> (v: Self)
        requires
            same_int_type(self, other),
        ensures
            v == (match (self, other) {
                (Value::I32(a), Value::I32(b)) => Value::I32(a.wrapping_sub(b)),
                (Value::I64(a), Value::I64(b)) => Value::I64(a.wrapping_sub(b)),
                _ => self,
            }),
    {
        match (self, other) {
            (Value::I32(a), Value::I32(b)) => Value::I32(a.wrapping_sub(b)),
            (Value::I64(a), Value::I64(b)) => Value::I64(a.wrapping_sub(b)),
            _ => self,
        }
    }

    /// Integer multiplication, wrapping around.
    pub fn mul(self, other: Self) -> (v: Self)
        requires
            same_int_type(self, other),
        ensures
            v == (match (self, other) {
                (Value::I32(a), Value::I32(b)) => Value::I32(a.wrapping_mul(b)),
                (Value::I64(a), Value::I64(b)) => Value::I64(a.wrapping_mul(b)),
                _ => self,
            }),
    {
        match (self, other) {
            (Value::I32(a), Value::I32(b)) => Value::I32(a.wrapping_mul(b)),
            (Value::I64(a), Value::I64(b)) => Value::I64(a.wrapping_mul(b)),
            _ => self,
        }
    }

    /// Signed integer division, rounding towards zero; `MIN / -1` wraps to `MIN`.
    pub fn div(self, other: Self) -> (v: Self)
        requires
            same_int_type(self, other),
            other != Value::I32(0) && other != Value::I64(0),
        ensures
            v == (match (self, other) {
                (Value::I32(a), Value::I32(b)) => Value::I32(spec_div_i32(a, b)),
                (Value::I64(a), Value::I64(b)) => Value::I64(spec_div_i64(a, b)),
                _ => self,
            }),
    {
        match (self, other) {
            (Value::I32(a), Value::I32(b)) => {
                if a == i32::MIN && b == -1 {
                    Value::I32(i32::MIN)
                } else {
                    proof {
                        lemma_trunc_div_bounds(a as int, b as int, 0x8000_0000int);
                    }
                    let q = div_trunc_i64(a as i64, b as i64);
                    Value::I32(q as i32)
                }
            },
            (Value::I64(a), Value::I64(b)) => {
                if a == i64::MIN && b == -1 {
                    Value::I64(i64::MIN)
                } else {
                    Value::I64(div_trunc_i64(a, b))
                }
            },
            _ => self,
        }
    }

    /// Signed integer remainder with the sign of the dividend; `MIN % -1` is `0`.
    pub fn rem(self, other: Self) -> (v: Self)
        requires
            same_int_type(self, other),
            other != Value::I32(0) && other != Value::I64(0),
        ensures
            v == (match (self, other) {
                (Value::I32(a), Value::I32(b)) => Value::I32(spec_rem_i32(a, b)),
                (Value::I64(a), Value::I64(b)) => Value::I64(spec_rem_i64(a, b)),
                _ => self,
            }),
    {
        match (self, other) {
            (Value::I32(a), Value::I32(b)) => {
                if a == i32::MIN && b == -1 {
                    Value::I32(0)
                } else {
                    proof {
                        lemma_trunc_div_bounds(a as int, b as int, 0x8000_0000int);
                    }
                    let q = div_trunc_i64(a as i64, b as i64);
                    let r: i64 = (a as i64) - (b as i64) * q;
                    Value::I32(r as i32)
                }
            },
            (Value::I64(a), Value::I64(b)) => {
                if a == i64::MIN && b == -1 {
                    Value::I64(0)
                } else {
                    proof {
                        lemma_trunc_div_bounds(a as int, b as int, 0x8000_0000_0000_0000int);
                    }
                    let q = div_trunc_i64(a, b);
                    let r: i64 = a - b * q;
                    Value::I64(r)
                }
            },
            _ => self,
        }
    }

    /// Bitwise and.
    pub fn bitand(self, other: Self) -> (v: Self)
        requires
            same_int_type(self, other),
        ensures
            v == (match (self, other) {
                (Value::I32(a), Value::I32(b)) => Value::I32(a & b),
                (Value::I64(a), Value::I64(b)) => Value::I64(a & b),
                _ => self,
            }),
    {
        match (self, other) {
            (Value::I32(a), Value::I32(b)) => Value::I32(a & b),
            (Value::I64(a), Value::I64(b)) => Value::I64(a & b),
            _ => self,
        }
    }

    /// Bitwise or.
    pub fn bitor(self, other: Self) -> (v: Self)
        requires
            same_int_type(self, other),
        ensures
            v == (match (self, other) {
                (Value::I32(a), Value::I32(b)) => Value::I32(a | b),
                (Value::I64(a), Value::I64(b)) => Value::I64(a | b),
                _ => self,
            }),
    {
        match (self, other) {
            (Value::I32(a), Value::I32(b)) => Value::I32(a | b),
            (Value::I64(a), Value::I64(b)) => Value::I64(a | b),
            _ => self,
        }
    }

    /// Bitwise exclusive or.
    pub fn bitxor(self, other: Self) -> (v: Self)
        requires
            same_int_type(self, other),
        ensures
            v == (match (self, other) {
                (Value::I32(a), Value::I32(b)) => Value::I32(a ^ b),
                (Value::I64(a), Value::I64(b)) => Value::I64(a ^ b),
                _ => self,
            }),
    {
        match (self, other) {
            (Value::I32(a), Value::I32(b)) => Value::I32(a ^ b),
            (Value::I64(a), Value::I64(b)) => Value::I64(a ^ b),
            _ => self,
        }
    }

    /// Shift left by the second operand modulo the bit width.
    pub fn shl(self, other: Self) -> (v: Self)
        requires
            same_int_type(self, other),
        ensures
            v == (match (self, other) {
                (Value::I32(a), Value::I32(b)) => Value::I32(a.wrapping_shl(b as u32)),
                (Value::I64(a), Value::I64(b)) => Value::I64(a.wrapping_shl(b as u32)),
                _ => self,
            }),
    {
        match (self, other) {
            (Value::I32(a), Value::I32(b)) => Value::I32(a.wrapping_shl(b as u32)),
            (Value::I64(a), Value::I64(b)) => Value::I64(a.wrapping_shl(b as u32)),
            _ => self,
        }
    }

    /// Arithmetic shift right by the second operand modulo the bit width.
    pub fn shr(self, other: Self) -> (v: Self)
        requires
            same_int_type(self, other),
        ensures
            v == (match (self, other) {
                (Value::I32(a), Value::I32(b)) => Value::I32(a.wrapping_shr(b as u32)),
                (Value::I64(a), Value::I64(b)) => Value::I64(a.wrapping_shr(b as u32)),
                _ => self,
            }),
    {
        match (self, other) {
            (Value::I32(a), Value::I32(b)) => Value::I32(a.wrapping_shr(b as u32)),
            (Value::I64(a), Value::I64(b)) => Value::I64(a.wrapping_shr(b as u32)),
            _ => self,
        }
    }
}

} // verus!
