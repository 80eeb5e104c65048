//! Where validation and execution meet: the types that validation gives the
//! numeric instructions are those of the values that running them gives.

use crate::engine::numeric::{spec_binary, spec_binary_kind, spec_unary, Step};
use crate::parser::ast::{Instruction, ValueType};
use crate::validation::instructions::{spec_ty_cvtop, spec_ty_of_binop, spec_ty_of_relop, spec_ty_of_testop, spec_ty_of_unop};
use crate::value::{spec_type_of, Value};
use vstd::prelude::*;

verus! {

/// The type of a binary operation or a comparison.
pub open spec fn binary_or_relation_type(i: Instruction) -> (Seq<ValueType>, Seq<ValueType>) {
    if spec_ty_of_binop(i) is Some {
        spec_ty_of_binop(i).unwrap()
    } else {
        spec_ty_of_relop(i).unwrap()
    }
}

/// The type of a unary operation, a test or a conversion.
pub open spec fn unary_or_conversion_type(i: Instruction) -> (Seq<ValueType>, Seq<ValueType>) {
    if spec_ty_of_unop(i) is Some {
        spec_ty_of_unop(i).unwrap()
    } else if spec_ty_of_testop(i) is Some {
        spec_ty_of_testop(i).unwrap()
    } else {
        spec_ty_cvtop(i).unwrap()
    }
}

/// Validation and execution agree on the integer binary operations and
/// comparisons: run on two operands of the integer type that validation gives
/// them, an instruction gives one value of the result type that validation
/// gives it, or it traps, which only a division or a remainder by zero does.
pub proof fn lemma_binary_types_agree(ins: Instruction, a: Value, b: Value)
    requires
        spec_ty_of_binop(ins) is Some || spec_ty_of_relop(ins) is Some,
        spec_type_of(a) == binary_or_relation_type(ins).0[0],
        spec_type_of(b) == binary_or_relation_type(ins).0[1],
        spec_type_of(a) is I32 || spec_type_of(a) is I64,
    ensures
        spec_binary_kind(ins) is Some,
        binary_or_relation_type(ins).0.len() == 2 && binary_or_relation_type(ins).1.len() == 1,
        ({
            let r = spec_binary(spec_binary_kind(ins).unwrap(), a, b);
            ||| r matches Step::Value(v) && spec_type_of(v) == binary_or_relation_type(ins).1[0]
            ||| r is Trap && (b == Value::I32(0) || b == Value::I64(0))
        }),
{
}

/// Validation and execution agree on the integer unary operations, tests and
/// conversions between integer types: run on an operand of the integer type
/// that validation gives it, an instruction whose result type is an integer
/// type gives one value of that type.
pub proof fn lemma_unary_types_agree(ins: Instruction, a: Value)
    requires
        spec_ty_of_unop(ins) is Some || spec_ty_of_testop(ins) is Some || spec_ty_cvtop(ins) is Some,
        spec_type_of(a) == unary_or_conversion_type(ins).0[0],
        spec_type_of(a) is I32 || spec_type_of(a) is I64,
        unary_or_conversion_type(ins).1[0] is I32 || unary_or_conversion_type(ins).1[0] is I64,
    ensures
        unary_or_conversion_type(ins).0.len() == 1 && unary_or_conversion_type(ins).1.len() == 1,
        spec_unary(ins, a) matches Step::Value(v) && spec_type_of(v) == unary_or_conversion_type(ins).1[0],
{
}


} // verus!
