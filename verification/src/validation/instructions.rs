//! The types of numeric instructions, as function types from the values they
//! take to the values they give.

use crate::parser::ast::{Instruction, ValueType};
use crate::validation::checks::FuncType;
use vstd::prelude::*;

verus! {

/// A function type from `k` to `k`.
pub open spec fn unary(k: ValueType) -> (Seq<ValueType>, Seq<ValueType>) {
    (seq![k], seq![k])
}

/// A function type from two `k` to `k`.
pub open spec fn binary(k: ValueType) -> (Seq<ValueType>, Seq<ValueType>) {
    (seq![k, k], seq![k])
}

/// A function type from `k` to `i32`.
pub open spec fn test(k: ValueType) -> (Seq<ValueType>, Seq<ValueType>) {
    (seq![k], seq![ValueType::I32])
}

/// A function type from two `k` to `i32`.
pub open spec fn relation(k: ValueType) -> (Seq<ValueType>, Seq<ValueType>) {
    (seq![k, k], seq![ValueType::I32])
}

/// A function type to `k` from `w`.
pub open spec fn conversion(k: ValueType, w: ValueType) -> (Seq<ValueType>, Seq<ValueType>) {
    (seq![w], seq![k])
}

/// A function type from nothing to `k`.
pub open spec fn constant(k: ValueType) -> (Seq<ValueType>, Seq<ValueType>) {
    (Seq::empty(), seq![k])
}

fn make_unary(k: ValueType) -> (f: FuncType)
    ensures
        f@ == unary(k),
{
    FuncType::new(vec![k], vec![k])
}

fn make_binary(k: ValueType) -> (f: FuncType)
    ensures
        f@ == binary(k),
{
    FuncType::new(vec![k, k], vec![k])
}

fn make_test(k: ValueType) -> (f: FuncType)
    ensures
        f@ == test(k),
{
    FuncType::new(vec![k], vec![ValueType::I32])
}

fn make_relation(k: ValueType) -> (f: FuncType)
    ensures
        f@ == relation(k),
{
    FuncType::new(vec![k, k], vec![ValueType::I32])
}

fn make_conversion(k: ValueType, w: ValueType) -> (f: FuncType)
    ensures
        f@ == conversion(k, w),
{
    FuncType::new(vec![w], vec![k])
}

fn make_constant(k: ValueType) -> (f: FuncType)
    ensures
        f@ == constant(k),
{
    FuncType::new(Vec::new(), vec![k])
}

/// The type of a constant.
pub open spec fn spec_ty_of_const(i: Instruction) -> Option<(Seq<ValueType>, Seq<ValueType>)> {
    match i {
        Instruction::OP_I32_CONST(_) => Some(constant(ValueType::I32)),
        Instruction::OP_I64_CONST(_) => Some(constant(ValueType::I64)),
        Instruction::OP_F32_CONST(_) => Some(constant(ValueType::F32)),
        Instruction::OP_F64_CONST(_) => Some(constant(ValueType::F64)),
        _ => None,
    }
}

/// The type of a constant: nothing to its value type.
pub fn get_ty_of_const(i: &Instruction) -> (f: FuncType)
    requires
        spec_ty_of_const(*i) is Some,
    ensures
        f@ == spec_ty_of_const(*i).unwrap(),
{
    match i {
        Instruction::OP_I32_CONST(_) => make_constant(ValueType::I32),
        Instruction::OP_I64_CONST(_) => make_constant(ValueType::I64),
        Instruction::OP_F32_CONST(_) => make_constant(ValueType::F32),
        Instruction::OP_F64_CONST(_) => make_constant(ValueType::F64),
        _ => FuncType::new(Vec::new(), Vec::new()),
    }
}

/// The type of a unary integer operation.
pub open spec fn spec_ty_of_unop(i: Instruction) -> Option<(Seq<ValueType>, Seq<ValueType>)> {
    match i {
        Instruction::OP_I32_CLZ => Some(unary(ValueType::I32)),
        Instruction::OP_I64_CLZ => Some(unary(ValueType::I64)),
        Instruction::OP_I32_CTZ => Some(unary(ValueType::I32)),
        Instruction::OP_I64_CTZ => Some(unary(ValueType::I64)),
        Instruction::OP_I32_POPCNT => Some(unary(ValueType::I32)),
        Instruction::OP_I64_POPCNT => Some(unary(ValueType::I64)),
        _ => None,
    }
}

/// The type of a unary operation: one value to one of the same type.
pub fn get_ty_of_unop(i: &Instruction) -> (f: FuncType)
    requires
        spec_ty_of_unop(*i) is Some,
    ensures
        f@ == spec_ty_of_unop(*i).unwrap(),
{
    match i {
        Instruction::OP_I32_CLZ => make_unary(ValueType::I32),
        Instruction::OP_I64_CLZ => make_unary(ValueType::I64),
        Instruction::OP_I32_CTZ => make_unary(ValueType::I32),
        Instruction::OP_I64_CTZ => make_unary(ValueType::I64),
        Instruction::OP_I32_POPCNT => make_unary(ValueType::I32),
        Instruction::OP_I64_POPCNT => make_unary(ValueType::I64),
        _ => FuncType::new(Vec::new(), Vec::new()),
    }
}

/// The type of a binary operation.
pub open spec fn spec_ty_of_binop(i: Instruction) -> Option<(Seq<ValueType>, Seq<ValueType>)> {
    match i {
        Instruction::OP_I32_ADD => Some(binary(ValueType::I32)),
        Instruction::OP_I64_ADD => Some(binary(ValueType::I64)),
        Instruction::OP_F32_ADD => Some(binary(ValueType::F32)),
        Instruction::OP_F64_ADD => Some(binary(ValueType::F64)),
        Instruction::OP_I32_SUB => Some(binary(ValueType::I32)),
        Instruction::OP_I64_SUB => Some(binary(ValueType::I64)),
        Instruction::OP_F32_SUB => Some(binary(ValueType::F32)),
        Instruction::OP_F64_SUB => Some(binary(ValueType::F64)),
        Instruction::OP_I32_MUL => Some(binary(ValueType::I32)),
        Instruction::OP_I64_MUL => Some(binary(ValueType::I64)),
        Instruction::OP_F32_MUL => Some(binary(ValueType::F32)),
        Instruction::OP_F64_MUL => Some(binary(ValueType::F64)),
        Instruction::OP_I32_DIV_S => Some(binary(ValueType::I32)),
        Instruction::OP_I64_DIV_S => Some(binary(ValueType::I64)),
        Instruction::OP_F32_DIV => Some(binary(ValueType::F32)),
        Instruction::OP_F64_DIV => Some(binary(ValueType::F64)),
        Instruction::OP_I32_DIV_U => Some(binary(ValueType::I32)),
        Instruction::OP_I64_DIV_U => Some(binary(ValueType::I64)),
        Instruction::OP_I32_REM_S => Some(binary(ValueType::I32)),
        Instruction::OP_I64_REM_S => Some(binary(ValueType::I64)),
        Instruction::OP_I32_REM_U => Some(binary(ValueType::I32)),
        Instruction::OP_I64_REM_U => Some(binary(ValueType::I64)),
        Instruction::OP_I32_OR => Some(binary(ValueType::I32)),
        Instruction::OP_I64_OR => Some(binary(ValueType::I64)),
        Instruction::OP_I32_XOR => Some(binary(ValueType::I32)),
        Instruction::OP_I64_XOR => Some(binary(ValueType::I64)),
        Instruction::OP_I32_SHL => Some(binary(ValueType::I32)),
        Instruction::OP_I64_SHL => Some(binary(ValueType::I64)),
        Instruction::OP_I32_SHR_S => Some(binary(ValueType::I32)),
        Instruction::OP_I64_SHR_S => Some(binary(ValueType::I64)),
        Instruction::OP_I32_SHR_U => Some(binary(ValueType::I32)),
        Instruction::OP_I64_SHR_U => Some(binary(ValueType::I64)),
        Instruction::OP_I32_ROTL => Some(binary(ValueType::I32)),
        Instruction::OP_I64_ROTL => Some(binary(ValueType::I64)),
        Instruction::OP_I32_ROTR => Some(binary(ValueType::I32)),
        Instruction::OP_I64_ROTR => Some(binary(ValueType::I64)),
        _ => None,
    }
}

/// The type of a binary operation: two values to one of the same type.
pub fn get_ty_of_binop(i: &Instruction) -> (f: FuncType)
    requires
        spec_ty_of_binop(*i) is Some,
    ensures
        f@ == spec_ty_of_binop(*i).unwrap(),
{
    match i {
        Instruction::OP_I32_ADD => make_binary(ValueType::I32),
        Instruction::OP_I64_ADD => make_binary(ValueType::I64),
        Instruction::OP_F32_ADD => make_binary(ValueType::F32),
        Instruction::OP_F64_ADD => make_binary(ValueType::F64),
        Instruction::OP_I32_SUB => make_binary(ValueType::I32),
        Instruction::OP_I64_SUB => make_binary(ValueType::I64),
        Instruction::OP_F32_SUB => make_binary(ValueType::F32),
        Instruction::OP_F64_SUB => make_binary(ValueType::F64),
        Instruction::OP_I32_MUL => make_binary(ValueType::I32),
        Instruction::OP_I64_MUL => make_binary(ValueType::I64),
        Instruction::OP_F32_MUL => make_binary(ValueType::F32),
        Instruction::OP_F64_MUL => make_binary(ValueType::F64),
        Instruction::OP_I32_DIV_S => make_binary(ValueType::I32),
        Instruction::OP_I64_DIV_S => make_binary(ValueType::I64),
        Instruction::OP_F32_DIV => make_binary(ValueType::F32),
        Instruction::OP_F64_DIV => make_binary(ValueType::F64),
        Instruction::OP_I32_DIV_U => make_binary(ValueType::I32),
        Instruction::OP_I64_DIV_U => make_binary(ValueType::I64),
        Instruction::OP_I32_REM_S => make_binary(ValueType::I32),
        Instruction::OP_I64_REM_S => make_binary(ValueType::I64),
        Instruction::OP_I32_REM_U => make_binary(ValueType::I32),
        Instruction::OP_I64_REM_U => make_binary(ValueType::I64),
        Instruction::OP_I32_OR => make_binary(ValueType::I32),
        Instruction::OP_I64_OR => make_binary(ValueType::I64),
        Instruction::OP_I32_XOR => make_binary(ValueType::I32),
        Instruction::OP_I64_XOR => make_binary(ValueType::I64),
        Instruction::OP_I32_SHL => make_binary(ValueType::I32),
        Instruction::OP_I64_SHL => make_binary(ValueType::I64),
        Instruction::OP_I32_SHR_S => make_binary(ValueType::I32),
        Instruction::OP_I64_SHR_S => make_binary(ValueType::I64),
        Instruction::OP_I32_SHR_U => make_binary(ValueType::I32),
        Instruction::OP_I64_SHR_U => make_binary(ValueType::I64),
        Instruction::OP_I32_ROTL => make_binary(ValueType::I32),
        Instruction::OP_I64_ROTL => make_binary(ValueType::I64),
        Instruction::OP_I32_ROTR => make_binary(ValueType::I32),
        Instruction::OP_I64_ROTR => make_binary(ValueType::I64),
        _ => FuncType::new(Vec::new(), Vec::new()),
    }
}

/// The type of a test.
pub open spec fn spec_ty_of_testop(i: Instruction) -> Option<(Seq<ValueType>, Seq<ValueType>)> {
    match i {
        Instruction::OP_I32_EQZ => Some(test(ValueType::I32)),
        Instruction::OP_I64_EQZ => Some(test(ValueType::I64)),
        _ => None,
    }
}

/// The type of a test: one value to an `i32`.
pub fn get_ty_of_testop(i: &Instruction) -> (f: FuncType)
    requires
        spec_ty_of_testop(*i) is Some,
    ensures
        f@ == spec_ty_of_testop(*i).unwrap(),
{
    match i {
        Instruction::OP_I32_EQZ => make_test(ValueType::I32),
        Instruction::OP_I64_EQZ => make_test(ValueType::I64),
        _ => FuncType::new(Vec::new(), Vec::new()),
    }
}

/// The type of a comparison: two operands of its type to an `i32`.
pub open spec fn spec_ty_of_relop(i: Instruction) -> Option<(Seq<ValueType>, Seq<ValueType>)> {
    match i {
        Instruction::OP_I32_EQ => Some(relation(ValueType::I32)),
        Instruction::OP_I64_EQ => Some(relation(ValueType::I64)),
        Instruction::OP_F32_EQ => Some(relation(ValueType::F32)),
        Instruction::OP_F64_EQ => Some(relation(ValueType::F64)),
        Instruction::OP_I32_NE => Some(relation(ValueType::I32)),
        Instruction::OP_I64_NE => Some(relation(ValueType::I64)),
        Instruction::OP_F32_NE => Some(relation(ValueType::F32)),
        Instruction::OP_F64_NE => Some(relation(ValueType::F64)),
        Instruction::OP_I32_LT_S => Some(relation(ValueType::I32)),
        Instruction::OP_I64_LT_U => Some(relation(ValueType::I64)),
        Instruction::OP_I32_GT_S => Some(relation(ValueType::I32)),
        Instruction::OP_I64_GT_U => Some(relation(ValueType::I64)),
        Instruction::OP_I32_LE_S => Some(relation(ValueType::I32)),
        Instruction::OP_I64_LE_U => Some(relation(ValueType::I64)),
        Instruction::OP_I32_GE_S => Some(relation(ValueType::I32)),
        Instruction::OP_I64_GE_U => Some(relation(ValueType::I64)),
        Instruction::OP_F32_LT => Some(relation(ValueType::F32)),
        Instruction::OP_F64_LT => Some(relation(ValueType::F64)),
        Instruction::OP_F32_GT => Some(relation(ValueType::F32)),
        Instruction::OP_F64_GT => Some(relation(ValueType::F64)),
        Instruction::OP_F32_LE => Some(relation(ValueType::F32)),
        Instruction::OP_F64_LE => Some(relation(ValueType::F64)),
        Instruction::OP_F32_GE => Some(relation(ValueType::F32)),
        Instruction::OP_F64_GE => Some(relation(ValueType::F64)),
        _ => None,
    }
}

/// The type of a comparison: two values to an `i32`.
pub fn get_ty_of_relop(i: &Instruction) -> (f: FuncType)
    requires
        spec_ty_of_relop(*i) is Some,
    ensures
        f@ == spec_ty_of_relop(*i).unwrap(),
{
    match i {
        Instruction::OP_I32_EQ => make_relation(ValueType::I32),
        Instruction::OP_I64_EQ => make_relation(ValueType::I64),
        Instruction::OP_F32_EQ => make_relation(ValueType::F32),
        Instruction::OP_F64_EQ => make_relation(ValueType::F64),
        Instruction::OP_I32_NE => make_relation(ValueType::I32),
        Instruction::OP_I64_NE => make_relation(ValueType::I64),
        Instruction::OP_F32_NE => make_relation(ValueType::F32),
        Instruction::OP_F64_NE => make_relation(ValueType::F64),
        Instruction::OP_I32_LT_S => make_relation(ValueType::I32),
        Instruction::OP_I64_LT_U => make_relation(ValueType::I64),
        Instruction::OP_I32_GT_S => make_relation(ValueType::I32),
        Instruction::OP_I64_GT_U => make_relation(ValueType::I64),
        Instruction::OP_I32_LE_S => make_relation(ValueType::I32),
        Instruction::OP_I64_LE_U => make_relation(ValueType::I64),
        Instruction::OP_I32_GE_S => make_relation(ValueType::I32),
        Instruction::OP_I64_GE_U => make_relation(ValueType::I64),
        Instruction::OP_F32_LT => make_relation(ValueType::F32),
        Instruction::OP_F64_LT => make_relation(ValueType::F64),
        Instruction::OP_F32_GT => make_relation(ValueType::F32),
        Instruction::OP_F64_GT => make_relation(ValueType::F64),
        Instruction::OP_F32_LE => make_relation(ValueType::F32),
        Instruction::OP_F64_LE => make_relation(ValueType::F64),
        Instruction::OP_F32_GE => make_relation(ValueType::F32),
        Instruction::OP_F64_GE => make_relation(ValueType::F64),
        _ => FuncType::new(Vec::new(), Vec::new()),
    }
}

/// The type of a conversion: from a value of the second type given to one of
/// the first.
pub open spec fn spec_ty_cvtop(i: Instruction) -> Option<(Seq<ValueType>, Seq<ValueType>)> {
    match i {
        Instruction::OP_I32_WRAP_I64 => Some(conversion(ValueType::I32, ValueType::I64)),
        Instruction::OP_I32_TRUNC_F32_S => Some(conversion(ValueType::I32, ValueType::F32)),
        Instruction::OP_I32_TRUNC_F32_U => Some(conversion(ValueType::I32, ValueType::F32)),
        Instruction::OP_I32_TRUNC_F64_S => Some(conversion(ValueType::I32, ValueType::F64)),
        Instruction::OP_I32_TRUNC_F64_U => Some(conversion(ValueType::I32, ValueType::F64)),
        Instruction::OP_I64_EXTEND_I32_S => Some(conversion(ValueType::I64, ValueType::I32)),
        Instruction::OP_I64_EXTEND_I32_U => Some(conversion(ValueType::I64, ValueType::I32)),
        Instruction::OP_I64_TRUNC_F32_S => Some(conversion(ValueType::I64, ValueType::F32)),
        Instruction::OP_I64_TRUNC_F32_U => Some(conversion(ValueType::I64, ValueType::F32)),
        Instruction::OP_I64_TRUNC_F64_S => Some(conversion(ValueType::I64, ValueType::F64)),
        Instruction::OP_I64_TRUNC_F64_U => Some(conversion(ValueType::I64, ValueType::F64)),
        Instruction::OP_F32_CONVERT_I32_S => Some(conversion(ValueType::F32, ValueType::I32)),
        Instruction::OP_F32_CONVERT_I32_U => Some(conversion(ValueType::F32, ValueType::I32)),
        Instruction::OP_F32_CONVERT_I64_S => Some(conversion(ValueType::F32, ValueType::I64)),
        Instruction::OP_F32_CONVERT_I64_U => Some(conversion(ValueType::F32, ValueType::I64)),
        Instruction::OP_F32_DEMOTE_F64 => Some(conversion(ValueType::F32, ValueType::F64)),
        Instruction::OP_F64_CONVERT_I32_S => Some(conversion(ValueType::F64, ValueType::I32)),
        Instruction::OP_F64_CONVERT_I32_U => Some(conversion(ValueType::F64, ValueType::I32)),
        Instruction::OP_F64_CONVERT_I64_S => Some(conversion(ValueType::F64, ValueType::I64)),
        Instruction::OP_F64_CONVERT_I64_U => Some(conversion(ValueType::F64, ValueType::I64)),
        Instruction::OP_F64_PROMOTE_F32 => Some(conversion(ValueType::F64, ValueType::F32)),
        Instruction::OP_I32_REINTERPRET_F32 => Some(conversion(ValueType::I32, ValueType::F32)),
        Instruction::OP_I64_REINTERPRET_F64 => Some(conversion(ValueType::I64, ValueType::F64)),
        Instruction::OP_F32_REINTERPRET_I32 => Some(conversion(ValueType::F32, ValueType::I32)),
        Instruction::OP_F64_REINTERPRET_I64 => Some(conversion(ValueType::F64, ValueType::I64)),
        _ => None,
    }
}

/// The type of a conversion.
pub fn get_ty_cvtop(i: &Instruction) -> (f: FuncType)
    requires
        spec_ty_cvtop(*i) is Some,
    ensures
        f@ == spec_ty_cvtop(*i).unwrap(),
{
    match i {
        Instruction::OP_I32_WRAP_I64 => make_conversion(ValueType::I32, ValueType::I64),
        Instruction::OP_I32_TRUNC_F32_S => make_conversion(ValueType::I32, ValueType::F32),
        Instruction::OP_I32_TRUNC_F32_U => make_conversion(ValueType::I32, ValueType::F32),
        Instruction::OP_I32_TRUNC_F64_S => make_conversion(ValueType::I32, ValueType::F64),
        Instruction::OP_I32_TRUNC_F64_U => make_conversion(ValueType::I32, ValueType::F64),
        Instruction::OP_I64_EXTEND_I32_S => make_conversion(ValueType::I64, ValueType::I32),
        Instruction::OP_I64_EXTEND_I32_U => make_conversion(ValueType::I64, ValueType::I32),
        Instruction::OP_I64_TRUNC_F32_S => make_conversion(ValueType::I64, ValueType::F32),
        Instruction::OP_I64_TRUNC_F32_U => make_conversion(ValueType::I64, ValueType::F32),
        Instruction::OP_I64_TRUNC_F64_S => make_conversion(ValueType::I64, ValueType::F64),
        Instruction::OP_I64_TRUNC_F64_U => make_conversion(ValueType::I64, ValueType::F64),
        Instruction::OP_F32_CONVERT_I32_S => make_conversion(ValueType::F32, ValueType::I32),
        Instruction::OP_F32_CONVERT_I32_U => make_conversion(ValueType::F32, ValueType::I32),
        Instruction::OP_F32_CONVERT_I64_S => make_conversion(ValueType::F32, ValueType::I64),
        Instruction::OP_F32_CONVERT_I64_U => make_conversion(ValueType::F32, ValueType::I64),
        Instruction::OP_F32_DEMOTE_F64 => make_conversion(ValueType::F32, ValueType::F64),
        Instruction::OP_F64_CONVERT_I32_S => make_conversion(ValueType::F64, ValueType::I32),
        Instruction::OP_F64_CONVERT_I32_U => make_conversion(ValueType::F64, ValueType::I32),
        Instruction::OP_F64_CONVERT_I64_S => make_conversion(ValueType::F64, ValueType::I64),
        Instruction::OP_F64_CONVERT_I64_U => make_conversion(ValueType::F64, ValueType::I64),
        Instruction::OP_F64_PROMOTE_F32 => make_conversion(ValueType::F64, ValueType::F32),
        Instruction::OP_I32_REINTERPRET_F32 => make_conversion(ValueType::I32, ValueType::F32),
        Instruction::OP_I64_REINTERPRET_F64 => make_conversion(ValueType::I64, ValueType::F64),
        Instruction::OP_F32_REINTERPRET_I32 => make_conversion(ValueType::F32, ValueType::I32),
        Instruction::OP_F64_REINTERPRET_I64 => make_conversion(ValueType::F64, ValueType::I64),
        _ => FuncType::new(Vec::new(), Vec::new()),
    }
}

/// The type of `drop` and `select` on values of type `v`.
pub open spec fn spec_ty_of_param(i: Instruction, v: ValueType) -> Option<(Seq<ValueType>, Seq<ValueType>)> {
    match i {
        Instruction::OP_DROP => Some((seq![v], Seq::empty())),
        Instruction::OP_SELECT => Some((seq![v, v, ValueType::I32], seq![v])),
        _ => None,
    }
}

/// The type of a parametric instruction on values of type `v`: `drop` takes one,
/// `select` takes two and an `i32` condition and gives one.
pub fn get_ty_of_param(i: &Instruction, v: ValueType) -> (f: FuncType)
    requires
        spec_ty_of_param(*i, v) is Some,
    ensures
        f@ == spec_ty_of_param(*i, v).unwrap(),
{
    match i {
        Instruction::OP_DROP => FuncType::new(vec![v], Vec::new()),
        _ => FuncType::new(vec![v, v, ValueType::I32], vec![v]),
    }
}

} // verus!
