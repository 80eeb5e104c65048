//! What the numeric instructions compute from their operands. Integer results
//! and bit manipulations of floats are computed here; arithmetic, comparisons
//! and conversions that need floating point are handed to the host's float unit.

use crate::operations::{
    count_ones, eqz, leading_zeros, popcount, reinterpret, rotate_left, rotate_right, spec_reinterpret,
    spec_rotl32, spec_rotl64, spec_rotr32, spec_rotr64, trailing_zeros,
};
use crate::parser::ast::Instruction;
use crate::value::{abs, spec_div_i32, spec_div_i64, spec_rem_i32, spec_rem_i64, trunc_div, trunc_rem, Value};
use vstd::prelude::*;
use vstd::std_specs::bits::{u32_leading_zeros, u32_trailing_zeros, u64_leading_zeros, u64_trailing_zeros};

verus! {

/// Unary operations on floats that the float unit computes.
#[derive(Debug, Clone, Copy, PartialEq, Eq, Structural)]
pub enum FloatUnaryOp {
    Ceil,
    Floor,
    Trunc,
    Nearest,
    Sqrt,
}

/// Binary operations on floats that the float unit computes.
#[derive(Debug, Clone, Copy, PartialEq, Eq, Structural)]
pub enum FloatBinaryOp {
    Add,
    Sub,
    Mul,
    Div,
    Rem,
    Min,
    Max,
}

/// Comparisons of floats that the float unit computes.
#[derive(Debug, Clone, Copy, PartialEq, Eq, Structural)]
pub enum FloatCompareOp {
    Eq,
    Ne,
    Lt,
    Gt,
    Le,
    Ge,
}

/// Conversions from or to floats that the float unit computes, named after the
/// instruction.
#[derive(Debug, Clone, Copy, PartialEq, Eq, Structural)]
#[allow(non_camel_case_types)]
pub enum Conversion {
    I32_TRUNC_F32_S,
    I32_TRUNC_F32_U,
    I32_TRUNC_F64_S,
    I32_TRUNC_F64_U,
    I64_TRUNC_F32_S,
    I64_TRUNC_F32_U,
    I64_TRUNC_F64_S,
    I64_TRUNC_F64_U,
    F32_CONVERT_I32_S,
    F32_CONVERT_I32_U,
    F32_CONVERT_I64_S,
    F32_CONVERT_I64_U,
    F32_DEMOTE_F64,
    F64_CONVERT_I32_S,
    F64_CONVERT_I32_U,
    F64_CONVERT_I64_S,
    F64_CONVERT_I64_U,
    F64_PROMOTE_F32,
    I32_TRUNC_SAT_F32_S,
    I32_TRUNC_SAT_F32_U,
    I32_TRUNC_SAT_F64_S,
    I32_TRUNC_SAT_F64_U,
    I64_TRUNC_SAT_F32_S,
    I64_TRUNC_SAT_F32_U,
    I64_TRUNC_SAT_F64_S,
    I64_TRUNC_SAT_F64_U,
}

/// The floating-point part of the machine, which the embedder provides: each
/// method gives `None` where the operands do not fit the operation.
pub trait FloatUnit {
    /// A unary operation on a float.
    fn unary(&self, op: FloatUnaryOp, v: Value) -> Option<Value>;

    /// A binary operation on two floats of the same type.
    fn binary(&self, op: FloatBinaryOp, a: Value, b: Value) -> Option<Value>;

    /// A comparison of two floats of the same type.
    fn compare(&self, op: FloatCompareOp, a: Value, b: Value) -> Option<bool>;

    /// A conversion from or to a float.
    fn convert(&self, op: Conversion, v: Value) -> Option<Value>;
}

/// What a numeric instruction gives for its operands.
#[derive(Debug, Clone, Copy)]
pub enum Step {
    /// This value.
    Value(Value),
    /// A trap with this message.
    Trap(&'static str),
    /// What the float unit computes.
    Unary(FloatUnaryOp),
    Binary(FloatBinaryOp),
    Compare(FloatCompareOp),
    Convert(Conversion),
}

/// The sign bit of an `f32`.
pub const F32_SIGN: u32 = 0x8000_0000;

/// The sign bit of an `f64`.
pub const F64_SIGN: u64 = 0x8000_0000_0000_0000;

/// `1` for true, `0` for false.
pub open spec fn flag(b: bool) -> Value {
    Value::I32(if b { 1 } else { 0 })
}

/// The conversion that an instruction names, where it names one.
pub open spec fn spec_conversion(ins: Instruction) -> Option<Conversion> {
    match ins {
        Instruction::OP_I32_TRUNC_F32_S => Some(Conversion::I32_TRUNC_F32_S),
        Instruction::OP_I32_TRUNC_F32_U => Some(Conversion::I32_TRUNC_F32_U),
        Instruction::OP_I32_TRUNC_F64_S => Some(Conversion::I32_TRUNC_F64_S),
        Instruction::OP_I32_TRUNC_F64_U => Some(Conversion::I32_TRUNC_F64_U),
        Instruction::OP_I64_TRUNC_F32_S => Some(Conversion::I64_TRUNC_F32_S),
        Instruction::OP_I64_TRUNC_F32_U => Some(Conversion::I64_TRUNC_F32_U),
        Instruction::OP_I64_TRUNC_F64_S => Some(Conversion::I64_TRUNC_F64_S),
        Instruction::OP_I64_TRUNC_F64_U => Some(Conversion::I64_TRUNC_F64_U),
        Instruction::OP_F32_CONVERT_I32_S => Some(Conversion::F32_CONVERT_I32_S),
        Instruction::OP_F32_CONVERT_I32_U => Some(Conversion::F32_CONVERT_I32_U),
        Instruction::OP_F32_CONVERT_I64_S => Some(Conversion::F32_CONVERT_I64_S),
        Instruction::OP_F32_CONVERT_I64_U => Some(Conversion::F32_CONVERT_I64_U),
        Instruction::OP_F32_DEMOTE_F64 => Some(Conversion::F32_DEMOTE_F64),
        Instruction::OP_F64_CONVERT_I32_S => Some(Conversion::F64_CONVERT_I32_S),
        Instruction::OP_F64_CONVERT_I32_U => Some(Conversion::F64_CONVERT_I32_U),
        Instruction::OP_F64_CONVERT_I64_S => Some(Conversion::F64_CONVERT_I64_S),
        Instruction::OP_F64_CONVERT_I64_U => Some(Conversion::F64_CONVERT_I64_U),
        Instruction::OP_F64_PROMOTE_F32 => Some(Conversion::F64_PROMOTE_F32),
        Instruction::OP_I32_TRUNC_SAT_F32_S => Some(Conversion::I32_TRUNC_SAT_F32_S),
        Instruction::OP_I32_TRUNC_SAT_F32_U => Some(Conversion::I32_TRUNC_SAT_F32_U),
        Instruction::OP_I32_TRUNC_SAT_F64_S => Some(Conversion::I32_TRUNC_SAT_F64_S),
        Instruction::OP_I32_TRUNC_SAT_F64_U => Some(Conversion::I32_TRUNC_SAT_F64_U),
        Instruction::OP_I64_TRUNC_SAT_F32_S => Some(Conversion::I64_TRUNC_SAT_F32_S),
        Instruction::OP_I64_TRUNC_SAT_F32_U => Some(Conversion::I64_TRUNC_SAT_F32_U),
        Instruction::OP_I64_TRUNC_SAT_F64_S => Some(Conversion::I64_TRUNC_SAT_F64_S),
        Instruction::OP_I64_TRUNC_SAT_F64_U => Some(Conversion::I64_TRUNC_SAT_F64_U),
        _ => None,
    }
}

/// Whether an instruction takes one operand and gives one value.
pub open spec fn is_unary(ins: Instruction) -> bool {
    match ins {
        Instruction::OP_I32_CLZ | Instruction::OP_I64_CLZ | Instruction::OP_I32_CTZ
        | Instruction::OP_I64_CTZ | Instruction::OP_I32_POPCNT | Instruction::OP_I64_POPCNT
        | Instruction::OP_I32_EQZ | Instruction::OP_I64_EQZ | Instruction::OP_I32_WRAP_I64
        | Instruction::OP_I64_EXTEND_I32_S | Instruction::OP_I64_EXTEND_I32_U
        | Instruction::OP_I32_EXTEND8_S | Instruction::OP_I32_EXTEND16_S
        | Instruction::OP_I64_EXTEND8_S | Instruction::OP_I64_EXTEND16_S
        | Instruction::OP_I64_EXTEND32_S | Instruction::OP_I32_REINTERPRET_F32
        | Instruction::OP_I64_REINTERPRET_F64 | Instruction::OP_F32_REINTERPRET_I32
        | Instruction::OP_F64_REINTERPRET_I64 | Instruction::OP_F32_ABS | Instruction::OP_F64_ABS
        | Instruction::OP_F32_NEG | Instruction::OP_F64_NEG | Instruction::OP_F32_CEIL
        | Instruction::OP_F64_CEIL | Instruction::OP_F32_FLOOR | Instruction::OP_F64_FLOOR
        | Instruction::OP_F32_TRUNC | Instruction::OP_F64_TRUNC | Instruction::OP_F32_NEAREST
        | Instruction::OP_F64_NEAREST | Instruction::OP_F32_SQRT | Instruction::OP_F64_SQRT => true,
        _ => spec_conversion(ins) is Some,
    }
}

/// What a unary instruction gives for its operand.
pub open spec fn spec_unary(ins: Instruction, v: Value) -> Step {
    match (ins, v) {
        (Instruction::OP_I32_CLZ, Value::I32(a)) => Step::Value(Value::I32(u32_leading_zeros(a as u32) as i32)),
        (Instruction::OP_I64_CLZ, Value::I64(a)) => Step::Value(Value::I64(u64_leading_zeros(a as u64) as i64)),
        (Instruction::OP_I32_CTZ, Value::I32(a)) => Step::Value(Value::I32(u32_trailing_zeros(a as u32) as i32)),
        (Instruction::OP_I64_CTZ, Value::I64(a)) => Step::Value(Value::I64(u64_trailing_zeros(a as u64) as i64)),
        (Instruction::OP_I32_POPCNT, Value::I32(a)) => Step::Value(Value::I32(popcount(a as u32 as nat, 32) as i32)),
        (Instruction::OP_I64_POPCNT, Value::I64(a)) => Step::Value(Value::I64(popcount(a as u64 as nat, 64) as i64)),
        (Instruction::OP_I32_EQZ, Value::I32(a)) => Step::Value(flag(a == 0)),
        (Instruction::OP_I64_EQZ, Value::I64(a)) => Step::Value(flag(a == 0)),
        (Instruction::OP_I32_WRAP_I64, Value::I64(a)) => Step::Value(Value::I32(a as i32)),
        (Instruction::OP_I64_EXTEND_I32_S, Value::I32(a)) => Step::Value(Value::I64(a as i64)),
        (Instruction::OP_I64_EXTEND_I32_U, Value::I32(a)) => Step::Value(Value::I64(a as u32 as i64)),
        (Instruction::OP_I32_EXTEND8_S, Value::I32(a)) => Step::Value(Value::I32(a as i8 as i32)),
        (Instruction::OP_I32_EXTEND16_S, Value::I32(a)) => Step::Value(Value::I32(a as i16 as i32)),
        (Instruction::OP_I64_EXTEND8_S, Value::I64(a)) => Step::Value(Value::I64(a as i8 as i64)),
        (Instruction::OP_I64_EXTEND16_S, Value::I64(a)) => Step::Value(Value::I64(a as i16 as i64)),
        (Instruction::OP_I64_EXTEND32_S, Value::I64(a)) => Step::Value(Value::I64(a as i32 as i64)),
        (Instruction::OP_I32_REINTERPRET_F32, _) => Step::Value(spec_reinterpret(v)),
        (Instruction::OP_I64_REINTERPRET_F64, _) => Step::Value(spec_reinterpret(v)),
        (Instruction::OP_F32_REINTERPRET_I32, _) => Step::Value(spec_reinterpret(v)),
        (Instruction::OP_F64_REINTERPRET_I64, _) => Step::Value(spec_reinterpret(v)),
        (Instruction::OP_F32_ABS, Value::F32(b)) => Step::Value(Value::F32(b & !F32_SIGN)),
        (Instruction::OP_F64_ABS, Value::F32(b)) => Step::Value(Value::F32(b & !F32_SIGN)),
        (Instruction::OP_F32_ABS, Value::F64(b)) => Step::Value(Value::F64(b & !F64_SIGN)),
        (Instruction::OP_F64_ABS, Value::F64(b)) => Step::Value(Value::F64(b & !F64_SIGN)),
        (Instruction::OP_F32_NEG, Value::F32(b)) => Step::Value(Value::F32(b ^ F32_SIGN)),
        (Instruction::OP_F64_NEG, Value::F32(b)) => Step::Value(Value::F32(b ^ F32_SIGN)),
        (Instruction::OP_F32_NEG, Value::F64(b)) => Step::Value(Value::F64(b ^ F64_SIGN)),
        (Instruction::OP_F64_NEG, Value::F64(b)) => Step::Value(Value::F64(b ^ F64_SIGN)),
        (Instruction::OP_F32_CEIL, _) | (Instruction::OP_F64_CEIL, _) => Step::Unary(FloatUnaryOp::Ceil),
        (Instruction::OP_F32_FLOOR, _) | (Instruction::OP_F64_FLOOR, _) => Step::Unary(FloatUnaryOp::Floor),
        (Instruction::OP_F32_TRUNC, _) | (Instruction::OP_F64_TRUNC, _) => Step::Unary(FloatUnaryOp::Trunc),
        (Instruction::OP_F32_NEAREST, _) | (Instruction::OP_F64_NEAREST, _) => Step::Unary(FloatUnaryOp::Nearest),
        (Instruction::OP_F32_SQRT, _) | (Instruction::OP_F64_SQRT, _) => Step::Unary(FloatUnaryOp::Sqrt),
        _ => match spec_conversion(ins) {
            Some(c) => Step::Convert(c),
            None => Step::Trap("Type mismatch"),
        },
    }
}

/// Gives the conversion that an instruction names.
pub fn conversion(ins: &Instruction) -> (r: Option<Conversion>)
    ensures
        r == spec_conversion(*ins),
{
    match ins {
        Instruction::OP_I32_TRUNC_F32_S => Some(Conversion::I32_TRUNC_F32_S),
        Instruction::OP_I32_TRUNC_F32_U => Some(Conversion::I32_TRUNC_F32_U),
        Instruction::OP_I32_TRUNC_F64_S => Some(Conversion::I32_TRUNC_F64_S),
        Instruction::OP_I32_TRUNC_F64_U => Some(Conversion::I32_TRUNC_F64_U),
        Instruction::OP_I64_TRUNC_F32_S => Some(Conversion::I64_TRUNC_F32_S),
        Instruction::OP_I64_TRUNC_F32_U => Some(Conversion::I64_TRUNC_F32_U),
        Instruction::OP_I64_TRUNC_F64_S => Some(Conversion::I64_TRUNC_F64_S),
        Instruction::OP_I64_TRUNC_F64_U => Some(Conversion::I64_TRUNC_F64_U),
        Instruction::OP_F32_CONVERT_I32_S => Some(Conversion::F32_CONVERT_I32_S),
        Instruction::OP_F32_CONVERT_I32_U => Some(Conversion::F32_CONVERT_I32_U),
        Instruction::OP_F32_CONVERT_I64_S => Some(Conversion::F32_CONVERT_I64_S),
        Instruction::OP_F32_CONVERT_I64_U => Some(Conversion::F32_CONVERT_I64_U),
        Instruction::OP_F32_DEMOTE_F64 => Some(Conversion::F32_DEMOTE_F64),
        Instruction::OP_F64_CONVERT_I32_S => Some(Conversion::F64_CONVERT_I32_S),
        Instruction::OP_F64_CONVERT_I32_U => Some(Conversion::F64_CONVERT_I32_U),
        Instruction::OP_F64_CONVERT_I64_S => Some(Conversion::F64_CONVERT_I64_S),
        Instruction::OP_F64_CONVERT_I64_U => Some(Conversion::F64_CONVERT_I64_U),
        Instruction::OP_F64_PROMOTE_F32 => Some(Conversion::F64_PROMOTE_F32),
        Instruction::OP_I32_TRUNC_SAT_F32_S => Some(Conversion::I32_TRUNC_SAT_F32_S),
        Instruction::OP_I32_TRUNC_SAT_F32_U => Some(Conversion::I32_TRUNC_SAT_F32_U),
        Instruction::OP_I32_TRUNC_SAT_F64_S => Some(Conversion::I32_TRUNC_SAT_F64_S),
        Instruction::OP_I32_TRUNC_SAT_F64_U => Some(Conversion::I32_TRUNC_SAT_F64_U),
        Instruction::OP_I64_TRUNC_SAT_F32_S => Some(Conversion::I64_TRUNC_SAT_F32_S),
        Instruction::OP_I64_TRUNC_SAT_F32_U => Some(Conversion::I64_TRUNC_SAT_F32_U),
        Instruction::OP_I64_TRUNC_SAT_F64_S => Some(Conversion::I64_TRUNC_SAT_F64_S),
        Instruction::OP_I64_TRUNC_SAT_F64_U => Some(Conversion::I64_TRUNC_SAT_F64_U),
        _ => None,
    }
}

/// Gives what a unary instruction gives for its operand.
pub fn unary_step(ins: &Instruction, v: Value) -> (r: Step)
    ensures
        r == spec_unary(*ins, v),
{
    match (ins, v) {
        (Instruction::OP_I32_CLZ, Value::I32(_)) | (Instruction::OP_I64_CLZ, Value::I64(_)) => Step::Value(leading_zeros(v)),
        (Instruction::OP_I32_CTZ, Value::I32(_)) | (Instruction::OP_I64_CTZ, Value::I64(_)) => Step::Value(trailing_zeros(v)),
        (Instruction::OP_I32_POPCNT, Value::I32(_)) | (Instruction::OP_I64_POPCNT, Value::I64(_)) => Step::Value(count_ones(v)),
        (Instruction::OP_I32_EQZ, Value::I32(_)) | (Instruction::OP_I64_EQZ, Value::I64(_)) => Step::Value(eqz(v)),
        (Instruction::OP_I32_WRAP_I64, Value::I64(a)) => Step::Value(Value::I32(a as i32)),
        (Instruction::OP_I64_EXTEND_I32_S, Value::I32(a)) => Step::Value(Value::I64(a as i64)),
        (Instruction::OP_I64_EXTEND_I32_U, Value::I32(a)) => Step::Value(Value::I64(a as u32 as i64)),
        (Instruction::OP_I32_EXTEND8_S, Value::I32(a)) => Step::Value(Value::I32(a as i8 as i32)),
        (Instruction::OP_I32_EXTEND16_S, Value::I32(a)) => Step::Value(Value::I32(a as i16 as i32)),
        (Instruction::OP_I64_EXTEND8_S, Value::I64(a)) => Step::Value(Value::I64(a as i8 as i64)),
        (Instruction::OP_I64_EXTEND16_S, Value::I64(a)) => Step::Value(Value::I64(a as i16 as i64)),
        (Instruction::OP_I64_EXTEND32_S, Value::I64(a)) => Step::Value(Value::I64(a as i32 as i64)),
        (Instruction::OP_I32_REINTERPRET_F32, _) | (Instruction::OP_I64_REINTERPRET_F64, _)
        | (Instruction::OP_F32_REINTERPRET_I32, _) | (Instruction::OP_F64_REINTERPRET_I64, _) => Step::Value(reinterpret(v)),
        (Instruction::OP_F32_ABS, Value::F32(b)) | (Instruction::OP_F64_ABS, Value::F32(b)) => Step::Value(Value::F32(b & !F32_SIGN)),
        (Instruction::OP_F32_ABS, Value::F64(b)) | (Instruction::OP_F64_ABS, Value::F64(b)) => Step::Value(Value::F64(b & !F64_SIGN)),
        (Instruction::OP_F32_NEG, Value::F32(b)) | (Instruction::OP_F64_NEG, Value::F32(b)) => Step::Value(Value::F32(b ^ F32_SIGN)),
        (Instruction::OP_F32_NEG, Value::F64(b)) | (Instruction::OP_F64_NEG, Value::F64(b)) => Step::Value(Value::F64(b ^ F64_SIGN)),
        (Instruction::OP_F32_CEIL, _) | (Instruction::OP_F64_CEIL, _) => Step::Unary(FloatUnaryOp::Ceil),
        (Instruction::OP_F32_FLOOR, _) | (Instruction::OP_F64_FLOOR, _) => Step::Unary(FloatUnaryOp::Floor),
        (Instruction::OP_F32_TRUNC, _) | (Instruction::OP_F64_TRUNC, _) => Step::Unary(FloatUnaryOp::Trunc),
        (Instruction::OP_F32_NEAREST, _) | (Instruction::OP_F64_NEAREST, _) => Step::Unary(FloatUnaryOp::Nearest),
        (Instruction::OP_F32_SQRT, _) | (Instruction::OP_F64_SQRT, _) => Step::Unary(FloatUnaryOp::Sqrt),
        _ => match conversion(ins) {
            Some(c) => Step::Convert(c),
            None => Step::Trap("Type mismatch"),
        },
    }
}

/// Whether an instruction takes two operands and gives one value.
pub open spec fn is_binary(ins: Instruction) -> bool {
    match ins {
        Instruction::OP_I32_ADD | Instruction::OP_I64_ADD | Instruction::OP_F32_ADD | Instruction::OP_F64_ADD
        | Instruction::OP_I32_SUB | Instruction::OP_I64_SUB | Instruction::OP_F32_SUB | Instruction::OP_F64_SUB
        | Instruction::OP_I32_MUL | Instruction::OP_I64_MUL | Instruction::OP_F32_MUL | Instruction::OP_F64_MUL
        | Instruction::OP_I32_DIV_S | Instruction::OP_I64_DIV_S | Instruction::OP_F32_DIV | Instruction::OP_F64_DIV
        | Instruction::OP_I32_DIV_U | Instruction::OP_I64_DIV_U | Instruction::OP_I32_REM_S
        | Instruction::OP_I64_REM_S | Instruction::OP_I32_REM_U | Instruction::OP_I64_REM_U
        | Instruction::OP_I32_AND | Instruction::OP_I64_AND | Instruction::OP_I32_OR | Instruction::OP_I64_OR
        | Instruction::OP_I32_XOR | Instruction::OP_I64_XOR | Instruction::OP_I32_SHL | Instruction::OP_I64_SHL
        | Instruction::OP_I32_SHR_S | Instruction::OP_I64_SHR_S | Instruction::OP_I32_SHR_U
        | Instruction::OP_I64_SHR_U | Instruction::OP_I32_ROTL | Instruction::OP_I64_ROTL
        | Instruction::OP_I32_ROTR | Instruction::OP_I64_ROTR | Instruction::OP_I32_EQ | Instruction::OP_I64_EQ
        | Instruction::OP_F32_EQ | Instruction::OP_F64_EQ | Instruction::OP_I32_NE | Instruction::OP_I64_NE
        | Instruction::OP_F32_NE | Instruction::OP_F64_NE | Instruction::OP_I32_LT_S | Instruction::OP_I64_LT_S
        | Instruction::OP_F32_LT | Instruction::OP_F64_LT | Instruction::OP_I32_LT_U | Instruction::OP_I64_LT_U
        | Instruction::OP_I32_GT_S | Instruction::OP_I64_GT_S | Instruction::OP_F32_GT | Instruction::OP_F64_GT
        | Instruction::OP_I32_GT_U | Instruction::OP_I64_GT_U | Instruction::OP_I32_LE_S | Instruction::OP_I64_LE_S
        | Instruction::OP_F32_LE | Instruction::OP_F64_LE | Instruction::OP_I32_LE_U | Instruction::OP_I64_LE_U
        | Instruction::OP_I32_GE_S | Instruction::OP_I64_GE_S | Instruction::OP_F32_GE | Instruction::OP_F64_GE
        | Instruction::OP_I32_GE_U | Instruction::OP_I64_GE_U | Instruction::OP_F32_MIN | Instruction::OP_F64_MIN
        | Instruction::OP_F32_MAX | Instruction::OP_F64_MAX | Instruction::OP_F32_COPYSIGN
        | Instruction::OP_F64_COPYSIGN => true,
        _ => false,
    }
}

/// The kinds of binary instructions, as they are executed.
#[derive(Debug, Clone, Copy, PartialEq, Eq, Structural)]
pub enum BinaryKind {
    Add,
    Sub,
    Mul,
    DivS,
    DivU,
    RemS,
    RemU,
    And,
    Or,
    Xor,
    Shl,
    ShrS,
    ShrU,
    Rotl,
    Rotr,
    Eq,
    Ne,
    LtS,
    LtU,
    GtS,
    GtU,
    LeS,
    LeU,
    GeS,
    GeU,
    Min,
    Max,
    Copysign,
}

/// The kind of a binary instruction. Instructions of different types share a
/// kind: which operation applies depends on the types of the operands.
pub open spec fn spec_binary_kind(ins: Instruction) -> Option<BinaryKind> {
    match ins {
        Instruction::OP_I32_ADD | Instruction::OP_I64_ADD | Instruction::OP_F32_ADD | Instruction::OP_F64_ADD => Some(BinaryKind::Add),
        Instruction::OP_I32_SUB | Instruction::OP_I64_SUB | Instruction::OP_F32_SUB | Instruction::OP_F64_SUB => Some(BinaryKind::Sub),
        Instruction::OP_I32_MUL | Instruction::OP_I64_MUL | Instruction::OP_F32_MUL | Instruction::OP_F64_MUL => Some(BinaryKind::Mul),
        Instruction::OP_I32_DIV_S | Instruction::OP_I64_DIV_S | Instruction::OP_F32_DIV | Instruction::OP_F64_DIV => Some(BinaryKind::DivS),
        Instruction::OP_I32_DIV_U | Instruction::OP_I64_DIV_U => Some(BinaryKind::DivU),
        Instruction::OP_I32_REM_S | Instruction::OP_I64_REM_S => Some(BinaryKind::RemS),
        Instruction::OP_I32_REM_U | Instruction::OP_I64_REM_U => Some(BinaryKind::RemU),
        Instruction::OP_I32_AND | Instruction::OP_I64_AND => Some(BinaryKind::And),
        Instruction::OP_I32_OR | Instruction::OP_I64_OR => Some(BinaryKind::Or),
        Instruction::OP_I32_XOR | Instruction::OP_I64_XOR => Some(BinaryKind::Xor),
        Instruction::OP_I32_SHL | Instruction::OP_I64_SHL => Some(BinaryKind::Shl),
        Instruction::OP_I32_SHR_S | Instruction::OP_I64_SHR_S => Some(BinaryKind::ShrS),
        Instruction::OP_I32_SHR_U | Instruction::OP_I64_SHR_U => Some(BinaryKind::ShrU),
        Instruction::OP_I32_ROTL | Instruction::OP_I64_ROTL => Some(BinaryKind::Rotl),
        Instruction::OP_I32_ROTR | Instruction::OP_I64_ROTR => Some(BinaryKind::Rotr),
        Instruction::OP_I32_EQ | Instruction::OP_I64_EQ | Instruction::OP_F32_EQ | Instruction::OP_F64_EQ => Some(BinaryKind::Eq),
        Instruction::OP_I32_NE | Instruction::OP_I64_NE | Instruction::OP_F32_NE | Instruction::OP_F64_NE => Some(BinaryKind::Ne),
        Instruction::OP_I32_LT_S | Instruction::OP_I64_LT_S | Instruction::OP_F32_LT | Instruction::OP_F64_LT => Some(BinaryKind::LtS),
        Instruction::OP_I32_LT_U | Instruction::OP_I64_LT_U => Some(BinaryKind::LtU),
        Instruction::OP_I32_GT_S | Instruction::OP_I64_GT_S | Instruction::OP_F32_GT | Instruction::OP_F64_GT => Some(BinaryKind::GtS),
        Instruction::OP_I32_GT_U | Instruction::OP_I64_GT_U => Some(BinaryKind::GtU),
        Instruction::OP_I32_LE_S | Instruction::OP_I64_LE_S | Instruction::OP_F32_LE | Instruction::OP_F64_LE => Some(BinaryKind::LeS),
        Instruction::OP_I32_LE_U | Instruction::OP_I64_LE_U => Some(BinaryKind::LeU),
        Instruction::OP_I32_GE_S | Instruction::OP_I64_GE_S | Instruction::OP_F32_GE | Instruction::OP_F64_GE => Some(BinaryKind::GeS),
        Instruction::OP_I32_GE_U | Instruction::OP_I64_GE_U => Some(BinaryKind::GeU),
        Instruction::OP_F32_MIN | Instruction::OP_F64_MIN => Some(BinaryKind::Min),
        Instruction::OP_F32_MAX | Instruction::OP_F64_MAX => Some(BinaryKind::Max),
        Instruction::OP_F32_COPYSIGN | Instruction::OP_F64_COPYSIGN => Some(BinaryKind::Copysign),
        _ => None,
    }
}

/// Gives the kind of a binary instruction.
pub fn binary_kind(ins: &Instruction) -> (k: Option<BinaryKind>)
    ensures
        k == spec_binary_kind(*ins),
{
    match ins {
        Instruction::OP_I32_ADD | Instruction::OP_I64_ADD | Instruction::OP_F32_ADD | Instruction::OP_F64_ADD => Some(BinaryKind::Add),
        Instruction::OP_I32_SUB | Instruction::OP_I64_SUB | Instruction::OP_F32_SUB | Instruction::OP_F64_SUB => Some(BinaryKind::Sub),
        Instruction::OP_I32_MUL | Instruction::OP_I64_MUL | Instruction::OP_F32_MUL | Instruction::OP_F64_MUL => Some(BinaryKind::Mul),
        Instruction::OP_I32_DIV_S | Instruction::OP_I64_DIV_S | Instruction::OP_F32_DIV | Instruction::OP_F64_DIV => Some(BinaryKind::DivS),
        Instruction::OP_I32_DIV_U | Instruction::OP_I64_DIV_U => Some(BinaryKind::DivU),
        Instruction::OP_I32_REM_S | Instruction::OP_I64_REM_S => Some(BinaryKind::RemS),
        Instruction::OP_I32_REM_U | Instruction::OP_I64_REM_U => Some(BinaryKind::RemU),
        Instruction::OP_I32_AND | Instruction::OP_I64_AND => Some(BinaryKind::And),
        Instruction::OP_I32_OR | Instruction::OP_I64_OR => Some(BinaryKind::Or),
        Instruction::OP_I32_XOR | Instruction::OP_I64_XOR => Some(BinaryKind::Xor),
        Instruction::OP_I32_SHL | Instruction::OP_I64_SHL => Some(BinaryKind::Shl),
        Instruction::OP_I32_SHR_S | Instruction::OP_I64_SHR_S => Some(BinaryKind::ShrS),
        Instruction::OP_I32_SHR_U | Instruction::OP_I64_SHR_U => Some(BinaryKind::ShrU),
        Instruction::OP_I32_ROTL | Instruction::OP_I64_ROTL => Some(BinaryKind::Rotl),
        Instruction::OP_I32_ROTR | Instruction::OP_I64_ROTR => Some(BinaryKind::Rotr),
        Instruction::OP_I32_EQ | Instruction::OP_I64_EQ | Instruction::OP_F32_EQ | Instruction::OP_F64_EQ => Some(BinaryKind::Eq),
        Instruction::OP_I32_NE | Instruction::OP_I64_NE | Instruction::OP_F32_NE | Instruction::OP_F64_NE => Some(BinaryKind::Ne),
        Instruction::OP_I32_LT_S | Instruction::OP_I64_LT_S | Instruction::OP_F32_LT | Instruction::OP_F64_LT => Some(BinaryKind::LtS),
        Instruction::OP_I32_LT_U | Instruction::OP_I64_LT_U => Some(BinaryKind::LtU),
        Instruction::OP_I32_GT_S | Instruction::OP_I64_GT_S | Instruction::OP_F32_GT | Instruction::OP_F64_GT => Some(BinaryKind::GtS),
        Instruction::OP_I32_GT_U | Instruction::OP_I64_GT_U => Some(BinaryKind::GtU),
        Instruction::OP_I32_LE_S | Instruction::OP_I64_LE_S | Instruction::OP_F32_LE | Instruction::OP_F64_LE => Some(BinaryKind::LeS),
        Instruction::OP_I32_LE_U | Instruction::OP_I64_LE_U => Some(BinaryKind::LeU),
        Instruction::OP_I32_GE_S | Instruction::OP_I64_GE_S | Instruction::OP_F32_GE | Instruction::OP_F64_GE => Some(BinaryKind::GeS),
        Instruction::OP_I32_GE_U | Instruction::OP_I64_GE_U => Some(BinaryKind::GeU),
        Instruction::OP_F32_MIN | Instruction::OP_F64_MIN => Some(BinaryKind::Min),
        Instruction::OP_F32_MAX | Instruction::OP_F64_MAX => Some(BinaryKind::Max),
        Instruction::OP_F32_COPYSIGN | Instruction::OP_F64_COPYSIGN => Some(BinaryKind::Copysign),
        _ => None,
    }
}

/// Both operands are floats of the same type.
pub open spec fn same_float_type(a: Value, b: Value) -> bool {
    (a is F32 && b is F32) || (a is F64 && b is F64)
}

/// What a binary instruction of kind `k` gives for its operands `a` (the first,
/// deeper on the stack) and `b` (the second, on top).
pub open spec fn spec_binary(k: BinaryKind, a: Value, b: Value) -> Step {
    match (a, b) {
        (Value::I32(x), Value::I32(y)) => match k {
            BinaryKind::Add => Step::Value(Value::I32(x.wrapping_add(y))),
            BinaryKind::Sub => Step::Value(Value::I32(x.wrapping_sub(y))),
            BinaryKind::Mul => Step::Value(Value::I32(x.wrapping_mul(y))),
            BinaryKind::DivS => if y == 0 {
                Step::Trap("Division by zero")
            } else {
                Step::Value(Value::I32(spec_div_i32(x, y)))
            },
            BinaryKind::DivU => if y == 0 {
                Step::Trap("Division by zero")
            } else {
                Step::Value(Value::I32(((x as u32) / (y as u32)) as i32))
            },
            BinaryKind::RemS => if y == 0 {
                Step::Trap("Division by zero")
            } else {
                Step::Value(Value::I32(spec_rem_i32(x, y)))
            },
            BinaryKind::RemU => if y == 0 {
                Step::Trap("Division by zero")
            } else {
                Step::Value(Value::I32(((x as u32) % (y as u32)) as i32))
            },
            BinaryKind::And => Step::Value(Value::I32(x & y)),
            BinaryKind::Or => Step::Value(Value::I32(x | y)),
            BinaryKind::Xor => Step::Value(Value::I32(x ^ y)),
            BinaryKind::Shl => Step::Value(Value::I32(x.wrapping_shl(y as u32))),
            BinaryKind::ShrS => Step::Value(Value::I32(x.wrapping_shr(y as u32))),
            BinaryKind::ShrU => Step::Value(Value::I32(((x as u32) >> ((y as u32) % 32)) as i32)),
            BinaryKind::Rotl => Step::Value(Value::I32(spec_rotl32(x as u32, y as u32) as i32)),
            BinaryKind::Rotr => Step::Value(Value::I32(spec_rotr32(x as u32, y as u32) as i32)),
            BinaryKind::Eq => Step::Value(flag(x == y)),
            BinaryKind::Ne => Step::Value(flag(x != y)),
            BinaryKind::LtS => Step::Value(flag(x < y)),
            BinaryKind::LtU => Step::Value(flag((x as u32) < (y as u32))),
            BinaryKind::GtS => Step::Value(flag(x > y)),
            BinaryKind::GtU => Step::Value(flag((x as u32) > (y as u32))),
            BinaryKind::LeS => Step::Value(flag(x <= y)),
            BinaryKind::LeU => Step::Value(flag((x as u32) <= (y as u32))),
            BinaryKind::GeS => Step::Value(flag(x >= y)),
            BinaryKind::GeU => Step::Value(flag((x as u32) >= (y as u32))),
            _ => Step::Trap("Type mismatch"),
        },
        (Value::I64(x), Value::I64(y)) => match k {
            BinaryKind::Add => Step::Value(Value::I64(x.wrapping_add(y))),
            BinaryKind::Sub => Step::Value(Value::I64(x.wrapping_sub(y))),
            BinaryKind::Mul => Step::Value(Value::I64(x.wrapping_mul(y))),
            BinaryKind::DivS => if y == 0 {
                Step::Trap("Division by zero")
            } else {
                Step::Value(Value::I64(spec_div_i64(x, y)))
            },
            BinaryKind::DivU => if y == 0 {
                Step::Trap("Division by zero")
            } else {
                Step::Value(Value::I64(((x as u64) / (y as u64)) as i64))
            },
            BinaryKind::RemS => if y == 0 {
                Step::Trap("Division by zero")
            } else {
                Step::Value(Value::I64(spec_rem_i64(x, y)))
            },
            BinaryKind::RemU => if y == 0 {
                Step::Trap("Division by zero")
            } else {
                Step::Value(Value::I64(((x as u64) % (y as u64)) as i64))
            },
            BinaryKind::And => Step::Value(Value::I64(x & y)),
            BinaryKind::Or => Step::Value(Value::I64(x | y)),
            BinaryKind::Xor => Step::Value(Value::I64(x ^ y)),
            BinaryKind::Shl => Step::Value(Value::I64(x.wrapping_shl(y as u32))),
            BinaryKind::ShrS => Step::Value(Value::I64(x.wrapping_shr(y as u32))),
            BinaryKind::ShrU => Step::Value(Value::I64(((x as u64) >> ((y as u64) % 64)) as i64)),
            BinaryKind::Rotl => Step::Value(Value::I64(spec_rotl64(x as u64, y as u32) as i64)),
            BinaryKind::Rotr => Step::Value(Value::I64(spec_rotr64(x as u64, y as u32) as i64)),
            BinaryKind::Eq => Step::Value(flag(x == y)),
            BinaryKind::Ne => Step::Value(flag(x != y)),
            BinaryKind::LtS => Step::Value(flag(x < y)),
            BinaryKind::LtU => Step::Value(flag((x as u64) < (y as u64))),
            BinaryKind::GtS => Step::Value(flag(x > y)),
            BinaryKind::GtU => Step::Value(flag((x as u64) > (y as u64))),
            BinaryKind::LeS => Step::Value(flag(x <= y)),
            BinaryKind::LeU => Step::Value(flag((x as u64) <= (y as u64))),
            BinaryKind::GeS => Step::Value(flag(x >= y)),
            BinaryKind::GeU => Step::Value(flag((x as u64) >= (y as u64))),
            _ => Step::Trap("Type mismatch"),
        },
        _ => if same_float_type(a, b) {
            match k {
                BinaryKind::Add => Step::Binary(FloatBinaryOp::Add),
                BinaryKind::Sub => Step::Binary(FloatBinaryOp::Sub),
                BinaryKind::Mul => Step::Binary(FloatBinaryOp::Mul),
                BinaryKind::DivS => Step::Binary(FloatBinaryOp::Div),
                BinaryKind::RemS => Step::Binary(FloatBinaryOp::Rem),
                BinaryKind::Min => Step::Binary(FloatBinaryOp::Min),
                BinaryKind::Max => Step::Binary(FloatBinaryOp::Max),
                BinaryKind::Eq => Step::Compare(FloatCompareOp::Eq),
                BinaryKind::Ne => Step::Compare(FloatCompareOp::Ne),
                BinaryKind::LtS => Step::Compare(FloatCompareOp::Lt),
                BinaryKind::GtS => Step::Compare(FloatCompareOp::Gt),
                BinaryKind::LeS => Step::Compare(FloatCompareOp::Le),
                BinaryKind::GeS => Step::Compare(FloatCompareOp::Ge),
                BinaryKind::Copysign => match (a, b) {
                    (Value::F32(x), Value::F32(y)) => Step::Value(Value::F32((x & !F32_SIGN) | (y & F32_SIGN))),
                    (Value::F64(x), Value::F64(y)) => Step::Value(Value::F64((x & !F64_SIGN) | (y & F64_SIGN))),
                    _ => Step::Trap("Type mismatch"),
                },
                _ => Step::Trap("Type mismatch"),
            }
        } else {
            match k {
                BinaryKind::Eq => Step::Value(flag(false)),
                BinaryKind::Ne => Step::Value(flag(true)),
                _ => Step::Trap("Type mismatch"),
            }
        },
    }
}

/// `1` for true, `0` for false.
fn to_flag(b: bool) -> (v: Value)
    ensures
        v == flag(b),
{
    Value::I32(if b { 1 } else { 0 })
}

/// Gives what a binary instruction of kind `k` gives for its operands.
pub fn binary_step(k: BinaryKind, a: Value, b: Value) -> (r: Step)
    ensures
        r == spec_binary(k, a, b),
{
    match (a, b) {
        (Value::I32(x), Value::I32(y)) => match k {
            BinaryKind::Add => Step::Value(a.add(b)),
            BinaryKind::Sub => Step::Value(a.sub(b)),
            BinaryKind::Mul => Step::Value(a.mul(b)),
            BinaryKind::DivS => if y == 0 {
                Step::Trap("Division by zero")
            } else {
                Step::Value(a.div(b))
            },
            BinaryKind::DivU => if y == 0 {
                Step::Trap("Division by zero")
            } else {
                assert(y as u32 != 0) by (bit_vector)
                    requires
                        y != 0,
                ;
                Step::Value(Value::I32(((x as u32) / (y as u32)) as i32))
            },
            BinaryKind::RemS => if y == 0 {
                Step::Trap("Division by zero")
            } else {
                Step::Value(a.rem(b))
            },
            BinaryKind::RemU => if y == 0 {
                Step::Trap("Division by zero")
            } else {
                assert(y as u32 != 0) by (bit_vector)
                    requires
                        y != 0,
                ;
                Step::Value(Value::I32(((x as u32) % (y as u32)) as i32))
            },
            BinaryKind::And => Step::Value(a.bitand(b)),
            BinaryKind::Or => Step::Value(a.bitor(b)),
            BinaryKind::Xor => Step::Value(a.bitxor(b)),
            BinaryKind::Shl => Step::Value(a.shl(b)),
            BinaryKind::ShrS => Step::Value(a.shr(b)),
            BinaryKind::ShrU => Step::Value(Value::I32(((x as u32) >> ((y as u32) % 32)) as i32)),
            BinaryKind::Rotl => Step::Value(rotate_left(a, b)),
            BinaryKind::Rotr => Step::Value(rotate_right(a, b)),
            BinaryKind::Eq => Step::Value(to_flag(x == y)),
            BinaryKind::Ne => Step::Value(to_flag(x != y)),
            BinaryKind::LtS => Step::Value(to_flag(x < y)),
            BinaryKind::LtU => Step::Value(to_flag((x as u32) < (y as u32))),
            BinaryKind::GtS => Step::Value(to_flag(x > y)),
            BinaryKind::GtU => Step::Value(to_flag((x as u32) > (y as u32))),
            BinaryKind::LeS => Step::Value(to_flag(x <= y)),
            BinaryKind::LeU => Step::Value(to_flag((x as u32) <= (y as u32))),
            BinaryKind::GeS => Step::Value(to_flag(x >= y)),
            BinaryKind::GeU => Step::Value(to_flag((x as u32) >= (y as u32))),
            _ => Step::Trap("Type mismatch"),
        },
        (Value::I64(x), Value::I64(y)) => match k {
            BinaryKind::Add => Step::Value(a.add(b)),
            BinaryKind::Sub => Step::Value(a.sub(b)),
            BinaryKind::Mul => Step::Value(a.mul(b)),
            BinaryKind::DivS => if y == 0 {
                Step::Trap("Division by zero")
            } else {
                Step::Value(a.div(b))
            },
            BinaryKind::DivU => if y == 0 {
                Step::Trap("Division by zero")
            } else {
                assert(y as u64 != 0) by (bit_vector)
                    requires
                        y != 0,
                ;
                Step::Value(Value::I64(((x as u64) / (y as u64)) as i64))
            },
            BinaryKind::RemS => if y == 0 {
                Step::Trap("Division by zero")
            } else {
                Step::Value(a.rem(b))
            },
            BinaryKind::RemU => if y == 0 {
                Step::Trap("Division by zero")
            } else {
                assert(y as u64 != 0) by (bit_vector)
                    requires
                        y != 0,
                ;
                Step::Value(Value::I64(((x as u64) % (y as u64)) as i64))
            },
            BinaryKind::And => Step::Value(a.bitand(b)),
            BinaryKind::Or => Step::Value(a.bitor(b)),
            BinaryKind::Xor => Step::Value(a.bitxor(b)),
            BinaryKind::Shl => Step::Value(a.shl(b)),
            BinaryKind::ShrS => Step::Value(a.shr(b)),
            BinaryKind::ShrU => Step::Value(Value::I64(((x as u64) >> ((y as u64) % 64)) as i64)),
            BinaryKind::Rotl => Step::Value(rotate_left(a, b)),
            BinaryKind::Rotr => Step::Value(rotate_right(a, b)),
            BinaryKind::Eq => Step::Value(to_flag(x == y)),
            BinaryKind::Ne => Step::Value(to_flag(x != y)),
            BinaryKind::LtS => Step::Value(to_flag(x < y)),
            BinaryKind::LtU => Step::Value(to_flag((x as u64) < (y as u64))),
            BinaryKind::GtS => Step::Value(to_flag(x > y)),
            BinaryKind::GtU => Step::Value(to_flag((x as u64) > (y as u64))),
            BinaryKind::LeS => Step::Value(to_flag(x <= y)),
            BinaryKind::LeU => Step::Value(to_flag((x as u64) <= (y as u64))),
            BinaryKind::GeS => Step::Value(to_flag(x >= y)),
            BinaryKind::GeU => Step::Value(to_flag((x as u64) >= (y as u64))),
            _ => Step::Trap("Type mismatch"),
        },
        _ => {
            let same = match (a, b) {
                (Value::F32(_), Value::F32(_)) | (Value::F64(_), Value::F64(_)) => true,
                _ => false,
            };
            if same {
                match k {
                    BinaryKind::Add => Step::Binary(FloatBinaryOp::Add),
                    BinaryKind::Sub => Step::Binary(FloatBinaryOp::Sub),
                    BinaryKind::Mul => Step::Binary(FloatBinaryOp::Mul),
                    BinaryKind::DivS => Step::Binary(FloatBinaryOp::Div),
                    BinaryKind::RemS => Step::Binary(FloatBinaryOp::Rem),
                    BinaryKind::Min => Step::Binary(FloatBinaryOp::Min),
                    BinaryKind::Max => Step::Binary(FloatBinaryOp::Max),
                    BinaryKind::Eq => Step::Compare(FloatCompareOp::Eq),
                    BinaryKind::Ne => Step::Compare(FloatCompareOp::Ne),
                    BinaryKind::LtS => Step::Compare(FloatCompareOp::Lt),
                    BinaryKind::GtS => Step::Compare(FloatCompareOp::Gt),
                    BinaryKind::LeS => Step::Compare(FloatCompareOp::Le),
                    BinaryKind::GeS => Step::Compare(FloatCompareOp::Ge),
                    BinaryKind::Copysign => match (a, b) {
                        (Value::F32(x), Value::F32(y)) => Step::Value(Value::F32((x & !F32_SIGN) | (y & F32_SIGN))),
                        (Value::F64(x), Value::F64(y)) => Step::Value(Value::F64((x & !F64_SIGN) | (y & F64_SIGN))),
                        _ => Step::Trap("Type mismatch"),
                    },
                    _ => Step::Trap("Type mismatch"),
                }
            } else {
                match k {
                    BinaryKind::Eq => Step::Value(to_flag(false)),
                    BinaryKind::Ne => Step::Value(to_flag(true)),
                    _ => Step::Trap("Type mismatch"),
                }
            }
        },
    }
}

/// What the binary instruction `ins` gives for two `i32` operands.
pub open spec fn i32_binary(ins: Instruction, x: i32, y: i32) -> Step {
    match spec_binary_kind(ins) {
        Some(k) => spec_binary(k, Value::I32(x), Value::I32(y)),
        None => Step::Trap("Not a binary instruction"),
    }
}

/// The comparisons of `i32`: equality, and the order of the operands read as
/// signed numbers by the `_s` comparisons and as unsigned numbers by the `_u`
/// ones; `gt` is `lt` with the operands swapped, `le` and `ge` are the negations
/// of `gt` and `lt`.
pub proof fn lemma_i32_comparisons(x: i32, y: i32)
    ensures
        i32_binary(Instruction::OP_I32_EQ, x, y) == Step::Value(flag(x == y)),
        i32_binary(Instruction::OP_I32_NE, x, y) == Step::Value(flag(x != y)),
        i32_binary(Instruction::OP_I32_LT_S, x, y) == Step::Value(flag(x < y)),
        i32_binary(Instruction::OP_I32_GT_S, x, y) == Step::Value(flag(y < x)),
        i32_binary(Instruction::OP_I32_LE_S, x, y) == Step::Value(flag(!(y < x))),
        i32_binary(Instruction::OP_I32_GE_S, x, y) == Step::Value(flag(!(x < y))),
        i32_binary(Instruction::OP_I32_LT_U, x, y) == Step::Value(flag((x as u32) < (y as u32))),
        i32_binary(Instruction::OP_I32_GT_U, x, y) == Step::Value(flag((y as u32) < (x as u32))),
        i32_binary(Instruction::OP_I32_LE_U, x, y) == Step::Value(flag(!((y as u32) < (x as u32)))),
        i32_binary(Instruction::OP_I32_GE_U, x, y) == Step::Value(flag(!((x as u32) < (y as u32)))),
{
}

/// The bitwise operations of `i32`: `and`, `or` and `xor` work bit by bit; a
/// left shift by `k` moves bit `j` to bit `j + (k mod 32)` and fills with zeros;
/// an unsigned right shift moves bit `j` to bit `j - (k mod 32)` and fills with
/// zeros, a signed one fills with the sign bit.
pub proof fn lemma_i32_bits(x: i32, y: i32, i: u32)
    requires
        i < 32,
    ensures
        i32_binary(Instruction::OP_I32_AND, x, y) matches Step::Value(Value::I32(r)) && (r as u32 >> i) & 1 == ((x as u32 >> i) & 1)
            & ((y as u32 >> i) & 1),
        i32_binary(Instruction::OP_I32_OR, x, y) matches Step::Value(Value::I32(r)) && (r as u32 >> i) & 1 == ((x as u32 >> i) & 1)
            | ((y as u32 >> i) & 1),
        i32_binary(Instruction::OP_I32_XOR, x, y) matches Step::Value(Value::I32(r)) && (r as u32 >> i) & 1 == ((x as u32 >> i) & 1)
            ^ ((y as u32 >> i) & 1),
        i32_binary(Instruction::OP_I32_SHL, x, y) matches Step::Value(Value::I32(r)) && (r as u32 >> i) & 1 == (if i >= (y as u32) % 32 {
            (x as u32 >> ((i - (y as u32) % 32) as u32)) & 1
        } else {
            0
        }),
        i32_binary(Instruction::OP_I32_SHR_U, x, y) matches Step::Value(Value::I32(r)) && (r as u32 >> i) & 1 == (if i + (y as u32) % 32 < 32 {
            (x as u32 >> ((i + (y as u32) % 32) as u32)) & 1
        } else {
            0
        }),
        i32_binary(Instruction::OP_I32_SHR_S, x, y) matches Step::Value(Value::I32(r)) && (r as u32 >> i) & 1 == (if i + (y as u32) % 32 < 32 {
            (x as u32 >> ((i + (y as u32) % 32) as u32)) & 1
        } else {
            (x as u32 >> 31u32) & 1
        }),
{
    let u = x as u32;
    let v = y as u32;
    let s = (y as u32) % 32;
    let t = (y as u32) % 32;
    assert((y as u32) % 32 == ((y as u32) % 32) as u32) by (bit_vector);
    assert({
        &&& ((x & y) as u32 >> i) & 1 == ((u >> i) & 1) & ((v >> i) & 1)
        &&& ((x | y) as u32 >> i) & 1 == ((u >> i) & 1) | ((v >> i) & 1)
        &&& ((x ^ y) as u32 >> i) & 1 == ((u >> i) & 1) ^ ((v >> i) & 1)
        &&& ((x << s) as u32 >> i) & 1 == (if i >= s { (u >> ((i - s) as u32)) & 1 } else { 0 })
        &&& ((x >> s) as u32 >> i) & 1 == (if i + s < 32 { (u >> ((i + s) as u32)) & 1 } else { (u >> 31u32) & 1 })
        &&& (((u >> t) as i32) as u32 >> i) & 1 == (if i + t < 32 { (u >> ((i + t) as u32)) & 1 } else { 0 })
    }) by (bit_vector)
        requires
            i < 32,
            s < 32,
            t < 32,
            u == x as u32,
            v == y as u32,
    ;
}

/// What the binary instruction `ins` gives for two `i64` operands.
pub open spec fn i64_binary(ins: Instruction, x: i64, y: i64) -> Step {
    match spec_binary_kind(ins) {
        Some(k) => spec_binary(k, Value::I64(x), Value::I64(y)),
        None => Step::Trap("Not a binary instruction"),
    }
}

/// The comparisons of `i64`: equality, and the order of the operands read as
/// signed numbers by the `_s` comparisons and as unsigned numbers by the `_u`
/// ones; `gt` is `lt` with the operands swapped, `le` and `ge` are the negations
/// of `gt` and `lt`.
pub proof fn lemma_i64_comparisons(x: i64, y: i64)
    ensures
        i64_binary(Instruction::OP_I64_EQ, x, y) == Step::Value(flag(x == y)),
        i64_binary(Instruction::OP_I64_NE, x, y) == Step::Value(flag(x != y)),
        i64_binary(Instruction::OP_I64_LT_S, x, y) == Step::Value(flag(x < y)),
        i64_binary(Instruction::OP_I64_GT_S, x, y) == Step::Value(flag(y < x)),
        i64_binary(Instruction::OP_I64_LE_S, x, y) == Step::Value(flag(!(y < x))),
        i64_binary(Instruction::OP_I64_GE_S, x, y) == Step::Value(flag(!(x < y))),
        i64_binary(Instruction::OP_I64_LT_U, x, y) == Step::Value(flag((x as u64) < (y as u64))),
        i64_binary(Instruction::OP_I64_GT_U, x, y) == Step::Value(flag((y as u64) < (x as u64))),
        i64_binary(Instruction::OP_I64_LE_U, x, y) == Step::Value(flag(!((y as u64) < (x as u64)))),
        i64_binary(Instruction::OP_I64_GE_U, x, y) == Step::Value(flag(!((x as u64) < (y as u64)))),
{
}

/// The bitwise operations of `i64`: `and`, `or` and `xor` work bit by bit; a
/// left shift by `k` moves bit `j` to bit `j + (k mod 64)` and fills with zeros;
/// an unsigned right shift moves bit `j` to bit `j - (k mod 64)` and fills with
/// zeros, a signed one fills with the sign bit.
pub proof fn lemma_i64_bits(x: i64, y: i64, i: u32)
    requires
        i < 64,
    ensures
        i64_binary(Instruction::OP_I64_AND, x, y) matches Step::Value(Value::I64(r)) && (r as u64 >> i) & 1 == ((x as u64 >> i) & 1)
            & ((y as u64 >> i) & 1),
        i64_binary(Instruction::OP_I64_OR, x, y) matches Step::Value(Value::I64(r)) && (r as u64 >> i) & 1 == ((x as u64 >> i) & 1)
            | ((y as u64 >> i) & 1),
        i64_binary(Instruction::OP_I64_XOR, x, y) matches Step::Value(Value::I64(r)) && (r as u64 >> i) & 1 == ((x as u64 >> i) & 1)
            ^ ((y as u64 >> i) & 1),
        i64_binary(Instruction::OP_I64_SHL, x, y) matches Step::Value(Value::I64(r)) && (r as u64 >> i) & 1 == (if i >= (y as u64) % 64 {
            (x as u64 >> ((i - (y as u64) % 64) as u32)) & 1
        } else {
            0
        }),
        i64_binary(Instruction::OP_I64_SHR_U, x, y) matches Step::Value(Value::I64(r)) && (r as u64 >> i) & 1 == (if i + (y as u64) % 64 < 64 {
            (x as u64 >> ((i + (y as u64) % 64) as u32)) & 1
        } else {
            0
        }),
        i64_binary(Instruction::OP_I64_SHR_S, x, y) matches Step::Value(Value::I64(r)) && (r as u64 >> i) & 1 == (if i + (y as u64) % 64 < 64 {
            (x as u64 >> ((i + (y as u64) % 64) as u32)) & 1
        } else {
            (x as u64 >> 63u32) & 1
        }),
{
    let u = x as u64;
    let v = y as u64;
    let s = (y as u32) % 64;
    let t = (y as u64) % 64;
    assert((y as u32) % 64 == ((y as u64) % 64) as u32) by (bit_vector);
    assert({
        &&& ((x & y) as u64 >> i) & 1 == ((u >> i) & 1) & ((v >> i) & 1)
        &&& ((x | y) as u64 >> i) & 1 == ((u >> i) & 1) | ((v >> i) & 1)
        &&& ((x ^ y) as u64 >> i) & 1 == ((u >> i) & 1) ^ ((v >> i) & 1)
        &&& ((x << s) as u64 >> i) & 1 == (if i >= s { (u >> ((i - s) as u32)) & 1 } else { 0 })
        &&& ((x >> s) as u64 >> i) & 1 == (if i + s < 64 { (u >> ((i + s) as u32)) & 1 } else { (u >> 63u32) & 1 })
        &&& (((u >> t) as i64) as u64 >> i) & 1 == (if i + t < 64 { (u >> ((i + t) as u32)) & 1 } else { 0 })
    }) by (bit_vector)
        requires
            i < 64,
            s < 64,
            t < 64,
            u == x as u64,
            v == y as u64,
    ;
}

/// Division rounded towards zero: the quotient times the divisor plus the
/// remainder gives the dividend, the remainder is smaller than the divisor
/// and has the dividend's sign, and the quotient is no larger than the
/// dividend.
proof fn lemma_trunc_div_rem(x: int, y: int)
    requires
        y != 0,
    ensures
        trunc_div(x, y) * y + trunc_rem(x, y) == x,
        abs(trunc_rem(x, y)) < abs(y),
        trunc_rem(x, y) == 0 || (trunc_rem(x, y) < 0) == (x < 0),
        abs(trunc_div(x, y)) <= abs(x),
        abs(x) > 0 && abs(trunc_div(x, y)) == abs(x) ==> abs(y) == 1,
{
    let a = abs(x) as int;
    let b = abs(y) as int;
    let q = a / b;
    let m = a % b;
    vstd::arithmetic::div_mod::lemma_fundamental_div_mod(a, b);
    vstd::arithmetic::div_mod::lemma_mod_pos_bound(a, b);
    vstd::arithmetic::div_mod::lemma_div_pos_is_pos(a, b);
    vstd::arithmetic::div_mod::lemma_div_is_ordered_by_denominator(a, 1, b);
    assert(a / 1 == a);
    assert(q * b == b * q) by (nonlinear_arith);
    assert(q == a ==> b == 1 || a == 0) by (nonlinear_arith)
        requires
            a == b * q + m,
            0 <= m < b,
            q >= 0,
            b >= 1,
    ;
    assert(q >= 1 ==> a >= b) by (nonlinear_arith)
        requires
            a == b * q + m,
            0 <= m,
            b >= 1,
    ;
    let t = trunc_div(x, y);
    if x >= 0 {
        assert(a == x);
        if y > 0 {
            assert(t == q && y == b);
            assert(y * t == b * q);
        } else {
            assert(t == -q && y == -b);
            assert(y * t == b * q) by (nonlinear_arith)
                requires
                    t == -q,
                    y == -b,
            ;
        }
        assert(trunc_rem(x, y) == m);
    } else {
        assert(a == -x);
        if y > 0 {
            assert(t == -q && y == b);
            assert(y * t == -(b * q)) by (nonlinear_arith)
                requires
                    t == -q,
                    y == b,
            ;
        } else {
            assert(t == q && y == -b);
            assert(y * t == -(b * q)) by (nonlinear_arith)
                requires
                    t == q,
                    y == -b,
            ;
        }
        assert(trunc_rem(x, y) == -m);
    }
    assert(y * trunc_div(x, y) == trunc_div(x, y) * y) by (nonlinear_arith);
}

/// The integer arithmetic of `i32`: sums, differences and products are those
/// of the operands modulo 2^32; a division or a remainder by zero traps; the
/// unsigned quotient and remainder split the dividend read as unsigned, with
/// the remainder below the divisor; the signed ones split the dividend with
/// the quotient rounded towards zero and the remainder smaller than the
/// divisor and of the dividend's sign.
pub proof fn lemma_i32_arithmetic(x: i32, y: i32)
    ensures
        i32_binary(Instruction::OP_I32_ADD, x, y) matches Step::Value(Value::I32(r)) && (r - (x + y)) % 0x1_0000_0000 == 0,
        i32_binary(Instruction::OP_I32_SUB, x, y) matches Step::Value(Value::I32(r)) && (r - (x - y)) % 0x1_0000_0000 == 0,
        i32_binary(Instruction::OP_I32_MUL, x, y) matches Step::Value(Value::I32(r)) && (r - x * y) % 0x1_0000_0000 == 0,
        y == 0 ==> i32_binary(Instruction::OP_I32_DIV_S, x, y) is Trap && i32_binary(Instruction::OP_I32_DIV_U, x, y) is Trap
            && i32_binary(Instruction::OP_I32_REM_S, x, y) is Trap && i32_binary(Instruction::OP_I32_REM_U, x, y) is Trap,
        y != 0 ==> (i32_binary(Instruction::OP_I32_DIV_U, x, y) matches Step::Value(Value::I32(q)) && i32_binary(
            Instruction::OP_I32_REM_U,
            x,
            y,
        ) matches Step::Value(Value::I32(r)) && (q as u32) * (y as u32) + (r as u32) == x as u32 && (r as u32) < (y as u32)),
        y != 0 && !(x == i32::MIN && y == -1) ==> (i32_binary(Instruction::OP_I32_DIV_S, x, y) matches Step::Value(
            Value::I32(q),
        ) && i32_binary(Instruction::OP_I32_REM_S, x, y) matches Step::Value(Value::I32(r)) && q * y + r == x && abs(r as int)
            < abs(y as int) && (r == 0 || (r < 0) == (x < 0))),
{
    let p = x * y;
    vstd::arithmetic::div_mod::lemma_fundamental_div_mod(p, 0x1_0000_0000);
    vstd::arithmetic::div_mod::lemma_mod_multiples_basic(-(p / 0x1_0000_0000), 0x1_0000_0000);
    vstd::arithmetic::div_mod::lemma_mod_multiples_basic(-(p / 0x1_0000_0000) - 1, 0x1_0000_0000);
    assert(-(p / 0x1_0000_0000) * 0x1_0000_0000 == -(0x1_0000_0000 * (p / 0x1_0000_0000))) by (nonlinear_arith);
    assert((-(p / 0x1_0000_0000) - 1) * 0x1_0000_0000 == -(0x1_0000_0000 * (p / 0x1_0000_0000)) - 0x1_0000_0000) by (nonlinear_arith);
    if y != 0 {
        let u = x as u32;
        let v = y as u32;
        assert(y != 0 ==> (y as u32) != 0) by (bit_vector);
        vstd::arithmetic::div_mod::lemma_fundamental_div_mod(u as int, v as int);
        vstd::arithmetic::div_mod::lemma_mod_pos_bound(u as int, v as int);
        let w = u / v;
        let z = u % v;
        assert(((w as i32) as u32) == w && ((z as i32) as u32) == z) by (bit_vector);
        assert(w * v == v * w) by (nonlinear_arith);
        if !(x == i32::MIN && y == -1) {
            lemma_trunc_div_rem(x as int, y as int);
        }
    }
}

/// The integer arithmetic of `i64`: sums, differences and products are those
/// of the operands modulo 2^64; a division or a remainder by zero traps; the
/// unsigned quotient and remainder split the dividend read as unsigned, with
/// the remainder below the divisor; the signed ones split the dividend with
/// the quotient rounded towards zero and the remainder smaller than the
/// divisor and of the dividend's sign.
pub proof fn lemma_i64_arithmetic(x: i64, y: i64)
    ensures
        i64_binary(Instruction::OP_I64_ADD, x, y) matches Step::Value(Value::I64(r)) && (r - (x + y)) % 0x1_0000_0000_0000_0000 == 0,
        i64_binary(Instruction::OP_I64_SUB, x, y) matches Step::Value(Value::I64(r)) && (r - (x - y)) % 0x1_0000_0000_0000_0000 == 0,
        i64_binary(Instruction::OP_I64_MUL, x, y) matches Step::Value(Value::I64(r)) && (r - x * y) % 0x1_0000_0000_0000_0000 == 0,
        y == 0 ==> i64_binary(Instruction::OP_I64_DIV_S, x, y) is Trap && i64_binary(Instruction::OP_I64_DIV_U, x, y) is Trap
            && i64_binary(Instruction::OP_I64_REM_S, x, y) is Trap && i64_binary(Instruction::OP_I64_REM_U, x, y) is Trap,
        y != 0 ==> (i64_binary(Instruction::OP_I64_DIV_U, x, y) matches Step::Value(Value::I64(q)) && i64_binary(
            Instruction::OP_I64_REM_U,
            x,
            y,
        ) matches Step::Value(Value::I64(r)) && (q as u64) * (y as u64) + (r as u64) == x as u64 && (r as u64) < (y as u64)),
        y != 0 && !(x == i64::MIN && y == -1) ==> (i64_binary(Instruction::OP_I64_DIV_S, x, y) matches Step::Value(
            Value::I64(q),
        ) && i64_binary(Instruction::OP_I64_REM_S, x, y) matches Step::Value(Value::I64(r)) && q * y + r == x && abs(r as int)
            < abs(y as int) && (r == 0 || (r < 0) == (x < 0))),
{
    let p = x * y;
    vstd::arithmetic::div_mod::lemma_fundamental_div_mod(p, 0x1_0000_0000_0000_0000);
    vstd::arithmetic::div_mod::lemma_mod_multiples_basic(-(p / 0x1_0000_0000_0000_0000), 0x1_0000_0000_0000_0000);
    vstd::arithmetic::div_mod::lemma_mod_multiples_basic(-(p / 0x1_0000_0000_0000_0000) - 1, 0x1_0000_0000_0000_0000);
    assert(-(p / 0x1_0000_0000_0000_0000) * 0x1_0000_0000_0000_0000 == -(0x1_0000_0000_0000_0000 * (p / 0x1_0000_0000_0000_0000))) by (nonlinear_arith);
    assert((-(p / 0x1_0000_0000_0000_0000) - 1) * 0x1_0000_0000_0000_0000 == -(0x1_0000_0000_0000_0000 * (p / 0x1_0000_0000_0000_0000)) - 0x1_0000_0000_0000_0000) by (nonlinear_arith);
    if y != 0 {
        let u = x as u64;
        let v = y as u64;
        assert(y != 0 ==> (y as u64) != 0) by (bit_vector);
        vstd::arithmetic::div_mod::lemma_fundamental_div_mod(u as int, v as int);
        vstd::arithmetic::div_mod::lemma_mod_pos_bound(u as int, v as int);
        let w = u / v;
        let z = u % v;
        assert(((w as i64) as u64) == w && ((z as i64) as u64) == z) by (bit_vector);
        assert(w * v == v * w) by (nonlinear_arith);
        if !(x == i64::MIN && y == -1) {
            lemma_trunc_div_rem(x as int, y as int);
        }
    }
}

/// The unary integer operations on `i32`: `eqz` tests for zero; `clz` counts
/// the zero bits above the highest one bit, `ctz` those below the lowest one
/// bit, and both give 32 for zero; the sign extensions read the low bits as a
/// two's complement number; the extensions to `i64` keep the value, read as signed or as unsigned.
pub proof fn lemma_i32_unary(a: i32)
    ensures
        spec_unary(Instruction::OP_I32_EQZ, Value::I32(a)) == Step::Value(flag(a == 0)),
        spec_unary(Instruction::OP_I32_CLZ, Value::I32(a)) matches Step::Value(Value::I32(n)) && 0 <= n <= 32 && (a == 0
            <==> n == 32) && (n < 32 ==> ((a as u32) >> ((31 - n) as u32)) & 1 != 0) && forall|j: u32|
            32 - n <= j < 32 ==> #[trigger] ((a as u32) >> j) & 1 == 0,
        spec_unary(Instruction::OP_I32_CTZ, Value::I32(a)) matches Step::Value(Value::I32(n)) && 0 <= n <= 32 && (a == 0
            <==> n == 32) && (n < 32 ==> ((a as u32) >> (n as u32)) & 1 == 1) && forall|j: u32|
            0 <= j < n ==> #[trigger] ((a as u32) >> j) & 1 == 0,
        spec_unary(Instruction::OP_I32_EXTEND8_S, Value::I32(a)) == Step::Value(Value::I32(
            (if (a as u32) % 256 >= 128 {
            ((a as u32) % 256) as int - 256
        } else {
            ((a as u32) % 256) as int
        }) as i32,
        )),
        spec_unary(Instruction::OP_I32_EXTEND16_S, Value::I32(a)) == Step::Value(Value::I32(
            (if (a as u32) % 65536 >= 32768 {
            ((a as u32) % 65536) as int - 65536
        } else {
            ((a as u32) % 65536) as int
        }) as i32,
        )),
        spec_unary(Instruction::OP_I64_EXTEND_I32_S, Value::I32(a)) matches Step::Value(Value::I64(r)) && r == a,
        spec_unary(Instruction::OP_I64_EXTEND_I32_U, Value::I32(a)) matches Step::Value(Value::I64(r)) && 0 <= r
            < 0x1_0000_0000 && r as u32 == a as u32,
{
    let u = a as u32;
    vstd::std_specs::bits::axiom_u32_leading_zeros(u);
    vstd::std_specs::bits::axiom_u32_trailing_zeros(u);
    assert({
        &&& (a == 0 <==> u == 0)
        &&& a as i8 as i32 == (if u % 256 >= 128 {
            (u % 256) as int - 256
        } else {
            (u % 256) as int
        }) as i32
        &&& a as i16 as i32 == (if u % 65536 >= 32768 {
            (u % 65536) as int - 65536
        } else {
            (u % 65536) as int
        }) as i32
        &&& (a as u32 as i64) as u32 == a as u32
        &&& 0 <= (a as u32 as i64) < 0x1_0000_0000
    }) by (bit_vector)
        requires
            u == a as u32,
    ;
}

/// The unary integer operations on `i64`: `eqz` tests for zero; `clz` counts
/// the zero bits above the highest one bit, `ctz` those below the lowest one
/// bit, and both give 64 for zero; the sign extensions read the low bits as a
/// two's complement number; the wrap to `i32` keeps the low 32 bits.
pub proof fn lemma_i64_unary(a: i64)
    ensures
        spec_unary(Instruction::OP_I64_EQZ, Value::I64(a)) == Step::Value(flag(a == 0)),
        spec_unary(Instruction::OP_I64_CLZ, Value::I64(a)) matches Step::Value(Value::I64(n)) && 0 <= n <= 64 && (a == 0
            <==> n == 64) && (n < 64 ==> ((a as u64) >> ((63 - n) as u64)) & 1 != 0) && forall|j: u64|
            64 - n <= j < 64 ==> #[trigger] ((a as u64) >> j) & 1 == 0,
        spec_unary(Instruction::OP_I64_CTZ, Value::I64(a)) matches Step::Value(Value::I64(n)) && 0 <= n <= 64 && (a == 0
            <==> n == 64) && (n < 64 ==> ((a as u64) >> (n as u64)) & 1 == 1) && forall|j: u64|
            0 <= j < n ==> #[trigger] ((a as u64) >> j) & 1 == 0,
        spec_unary(Instruction::OP_I64_EXTEND8_S, Value::I64(a)) == Step::Value(Value::I64(
            (if (a as u64) % 256 >= 128 {
            ((a as u64) % 256) as int - 256
        } else {
            ((a as u64) % 256) as int
        }) as i64,
        )),
        spec_unary(Instruction::OP_I64_EXTEND16_S, Value::I64(a)) == Step::Value(Value::I64(
            (if (a as u64) % 65536 >= 32768 {
            ((a as u64) % 65536) as int - 65536
        } else {
            ((a as u64) % 65536) as int
        }) as i64,
        )),
        spec_unary(Instruction::OP_I64_EXTEND32_S, Value::I64(a)) == Step::Value(Value::I64(
            (if (a as u64) % 0x1_0000_0000 >= 0x8000_0000 {
            ((a as u64) % 0x1_0000_0000) as int - 0x1_0000_0000
        } else {
            ((a as u64) % 0x1_0000_0000) as int
        }) as i64,
        )),
        spec_unary(Instruction::OP_I32_WRAP_I64, Value::I64(a)) matches Step::Value(Value::I32(r)) && r as u32 == ((a as u64)
            % 0x1_0000_0000) as u32,
{
    let u = a as u64;
    vstd::std_specs::bits::axiom_u64_leading_zeros(u);
    vstd::std_specs::bits::axiom_u64_trailing_zeros(u);
    assert({
        &&& (a == 0 <==> u == 0)
        &&& a as i8 as i64 == (if u % 256 >= 128 {
            (u % 256) as int - 256
        } else {
            (u % 256) as int
        }) as i64
        &&& a as i16 as i64 == (if u % 65536 >= 32768 {
            (u % 65536) as int - 65536
        } else {
            (u % 65536) as int
        }) as i64
        &&& a as i32 as i64 == (if u % 0x1_0000_0000 >= 0x8000_0000 {
            (u % 0x1_0000_0000) as int - 0x1_0000_0000
        } else {
            (u % 0x1_0000_0000) as int
        }) as i64
        &&& (a as i32) as u32 == (u % 0x1_0000_0000) as u32
    }) by (bit_vector)
        requires
            u == a as u64,
    ;
}

} // verus!
