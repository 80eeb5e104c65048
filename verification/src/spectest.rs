//! Running the cases of the WebAssembly specification tests: the imports that
//! the test modules expect, taking the results of an invocation off the stack,
//! and comparing them with the expected values.

use crate::engine::import_resolver::Import;
use crate::engine::stack::StackContent;
use crate::engine::store::{TableInstance, Variable};
use crate::parser::ast::FuncAddr;
use crate::value::Value;
use vstd::prelude::*;

verus! {

/// The bits of the `f32` 666.6.
pub const SPECTEST_F32_BITS: u32 = 0x4426_a666;

/// The bits of the `f64` 666.6.
pub const SPECTEST_F64_BITS: u64 = 0x4084_d4cc_cccc_cccd;

/// The imports that the specification tests hand in, all from the module
/// `spectest`: four immutable globals and a table.
pub open spec fn is_spectest_imports(s: Seq<Import>) -> bool {
    &&& s.len() == 5
    &&& s[0] matches Import::Global(m, n, g) && m@ == "spectest"@ && n@ == "global_i32"@ && g == Variable {
        mutable: false,
        val: Value::I32(666),
    }
    &&& s[1] matches Import::Global(m, n, g) && m@ == "spectest"@ && n@ == "global_i64"@ && g == Variable {
        mutable: false,
        val: Value::I64(666),
    }
    &&& s[2] matches Import::Global(m, n, g) && m@ == "spectest"@ && n@ == "global_f32"@ && g == Variable {
        mutable: false,
        val: Value::F32(SPECTEST_F32_BITS),
    }
    &&& s[3] matches Import::Global(m, n, g) && m@ == "spectest"@ && n@ == "global_f64"@ && g == Variable {
        mutable: false,
        val: Value::F64(SPECTEST_F64_BITS),
    }
    &&& s[4] matches Import::Table(m, n, t) && m@ == "spectest"@ && n@ == "table"@ && t.elem@ == Seq::new(
        10,
        |i: int| None::<FuncAddr>,
    ) && t.max == Some(20u32)
}

/// The imports that the specification tests hand in.
pub fn get_spectest_import() -> (r: Vec<Import>)
    ensures
        is_spectest_imports(r@),
{
    let mut imports: Vec<Import> = Vec::new();
    let module = "spectest".to_string();
    imports.push(Import::Global(module.clone(), "global_i32".to_string(), Variable::immutable(Value::I32(666))));
    imports.push(Import::Global(module.clone(), "global_i64".to_string(), Variable::immutable(Value::I64(666))));
    imports.push(
        Import::Global(module.clone(), "global_f32".to_string(), Variable::immutable(Value::F32(SPECTEST_F32_BITS))),
    );
    imports.push(
        Import::Global(module.clone(), "global_f64".to_string(), Variable::immutable(Value::F64(SPECTEST_F64_BITS))),
    );
    imports.push(Import::Table(module, "table".to_string(), TableInstance::new(10, Some(20))));
    proof {
        assert(imports@[4] matches Import::Table(_, _, t) && t.elem@ =~= Seq::new(10, |i: int| None::<FuncAddr>));
    }
    imports
}

/// The values on top of the stack, below which the stack holds no more value
/// directly: the number of them.
pub open spec fn top_values_count(s: Seq<StackContent>) -> nat
    decreases s.len(),
{
    if s.len() > 0 && s.last() is Value {
        top_values_count(s.drop_last()) + 1
    } else {
        0
    }
}

/// The run of values on top of a stack is at most the stack.
proof fn lemma_top_values_count_bound(s: Seq<StackContent>)
    ensures
        top_values_count(s) <= s.len(),
    decreases s.len(),
{
    if s.len() > 0 && s.last() is Value {
        lemma_top_values_count_bound(s.drop_last());
    }
}

/// Pops the stack while it pops values, and returns those values in their
/// order on the stack; the entry below them, where there is one, is popped as
/// well.
pub fn take_results(stack: &mut Vec<StackContent>) -> (r: Vec<Value>)
    ensures
        ({
            let s = old(stack)@;
            let n = top_values_count(s);
            &&& n <= s.len()
            &&& final(stack)@ == if n < s.len() {
                s.subrange(0, s.len() - n - 1)
            } else {
                Seq::empty()
            }
            &&& r@.len() == n
            &&& forall|i: int| 0 <= i < n ==> StackContent::Value(#[trigger] r@[i]) == s[s.len() - n + i]
        }),
{
    let ghost s = stack@;
    proof {
        lemma_top_values_count_bound(s);
    }
    let mut popped: Vec<Value> = Vec::new();
    loop
        invariant_except_break
            popped@.len() <= top_values_count(s),
            stack@ == s.subrange(0, s.len() - popped@.len()),
            top_values_count(stack@) == top_values_count(s) - popped@.len(),
            forall|i: int| 0 <= i < popped@.len() ==> StackContent::Value(#[trigger] popped@[i]) == s[s.len() - 1 - i],
        invariant
            top_values_count(s) <= s.len(),
        ensures
            popped@.len() == top_values_count(s),
            stack@ == if popped@.len() < s.len() {
                s.subrange(0, s.len() - popped@.len() - 1)
            } else {
                Seq::<StackContent>::empty()
            },
            forall|i: int| 0 <= i < popped@.len() ==> StackContent::Value(#[trigger] popped@[i]) == s[s.len() - 1 - i],
        decreases stack@.len(),
    {
        let ghost before = stack@;
        match stack.pop() {
            Some(StackContent::Value(v)) => {
                popped.push(v);
                proof {
                    assert(before.drop_last() =~= s.subrange(0, s.len() - popped@.len()));
                }
            },
            Some(_) => {
                proof {
                    assert(stack@ =~= s.subrange(0, s.len() - popped@.len() - 1));
                }
                break ;
            },
            None => {
                proof {
                    assert(stack@ =~= Seq::<StackContent>::empty());
                }
                break ;
            },
        }
    }
    let n = popped.len();
    let mut out: Vec<Value> = Vec::new();
    let mut j: usize = n;
    while j > 0
        invariant
            j <= n,
            n == popped@.len(),
            out@.len() == n - j,
            forall|i: int| 0 <= i < n - j ==> #[trigger] out@[i] == popped@[n - 1 - i],
        decreases j,
    {
        out.push(popped[j - 1]);
        j = j - 1;
    }
    proof {
        assert forall|i: int| 0 <= i < n implies StackContent::Value(#[trigger] out@[i]) == s[s.len() - n + i] by {
            assert(out@[i] == popped@[n - 1 - i]);
        }
    }
    out
}

/// The bits of an `f32` NaN: all exponent bits set, and a fraction.
pub open spec fn f32_is_nan(b: u32) -> bool {
    (b & 0x7f80_0000) == 0x7f80_0000 && (b & 0x007f_ffff) != 0
}

/// The bits of an `f64` NaN: all exponent bits set, and a fraction.
pub open spec fn f64_is_nan(b: u64) -> bool {
    (b & 0x7ff0_0000_0000_0000) == 0x7ff0_0000_0000_0000 && (b & 0x000f_ffff_ffff_ffff) != 0
}

/// The bits of an `f32` zero, of either sign.
pub open spec fn f32_is_zero(b: u32) -> bool {
    (b & 0x7fff_ffff) == 0
}

/// The bits of an `f64` zero, of either sign.
pub open spec fn f64_is_zero(b: u64) -> bool {
    (b & 0x7fff_ffff_ffff_ffff) == 0
}

/// An actual value matches an expected one: two NaNs of a type match; other
/// floats match where they are equal as floats, so that the two zeros match;
/// integers match where they are equal.
pub open spec fn values_match(actual: Value, expected: Value) -> bool {
    match (actual, expected) {
        (Value::F32(x), Value::F32(y)) => if f32_is_nan(x) && f32_is_nan(y) {
            true
        } else {
            !f32_is_nan(x) && !f32_is_nan(y) && (x == y || (f32_is_zero(x) && f32_is_zero(y)))
        },
        (Value::F64(x), Value::F64(y)) => if f64_is_nan(x) && f64_is_nan(y) {
            true
        } else {
            !f64_is_nan(x) && !f64_is_nan(y) && (x == y || (f64_is_zero(x) && f64_is_zero(y)))
        },
        _ => actual == expected,
    }
}

/// Whether an actual value matches an expected one.
pub fn value_matches(actual: Value, expected: Value) -> (b: bool)
    ensures
        b == values_match(actual, expected),
{
    match (actual, expected) {
        (Value::F32(x), Value::F32(y)) => {
            let nx = (x & 0x7f80_0000) == 0x7f80_0000 && (x & 0x007f_ffff) != 0;
            let ny = (y & 0x7f80_0000) == 0x7f80_0000 && (y & 0x007f_ffff) != 0;
            if nx && ny {
                true
            } else {
                !nx && !ny && (x == y || ((x & 0x7fff_ffff) == 0 && (y & 0x7fff_ffff) == 0))
            }
        },
        (Value::F64(x), Value::F64(y)) => {
            let nx = (x & 0x7ff0_0000_0000_0000) == 0x7ff0_0000_0000_0000 && (x & 0x000f_ffff_ffff_ffff) != 0;
            let ny = (y & 0x7ff0_0000_0000_0000) == 0x7ff0_0000_0000_0000 && (y & 0x000f_ffff_ffff_ffff) != 0;
            if nx && ny {
                true
            } else {
                !nx && !ny && (x == y || ((x & 0x7fff_ffff_ffff_ffff) == 0 && (y & 0x7fff_ffff_ffff_ffff) == 0))
            }
        },
        (Value::I32(x), Value::I32(y)) => x == y,
        (Value::I64(x), Value::I64(y)) => x == y,
        _ => false,
    }
}

/// The actual value at index `k` has an expected one that it matches.
pub open spec fn matches_at(actuals: Seq<Value>, expected: Seq<Value>, k: int) -> bool {
    k < expected.len() && values_match(actuals[k], expected[k])
}

/// The actual values match the expected ones at each index of the actual
/// values; an actual value without an expected one does not match.
pub open spec fn results_match(actuals: Seq<Value>, expected: Seq<Value>) -> bool {
    forall|i: int| 0 <= i < actuals.len() ==> #[trigger] matches_at(actuals, expected, i)
}

/// Whether the actual values match the expected ones, index by index over the
/// actual values.
pub fn results_do_match(actuals: &[Value], expected: &[Value]) -> (b: bool)
    ensures
        b == results_match(actuals@, expected@),
{
    let mut total_do_match = true;
    let mut i: usize = 0;
    while i < actuals.len()
        invariant
            i <= actuals@.len(),
            total_do_match == forall|k: int| 0 <= k < i ==> #[trigger] matches_at(actuals@, expected@, k),
        decreases actuals@.len() - i,
    {
        let do_match = if i < expected.len() {
            value_matches(actuals[i], expected[i])
        } else {
            false
        };
        proof {
            assert(do_match == matches_at(actuals@, expected@, i as int));
            if total_do_match && do_match {
                assert forall|k: int| 0 <= k < i + 1 implies #[trigger] matches_at(actuals@, expected@, k) by {
                    if k < i {
                        assert(matches_at(actuals@, expected@, k));
                    }
                }
            } else if !do_match {
                assert(!(forall|k: int| 0 <= k < i + 1 ==> #[trigger] matches_at(actuals@, expected@, k)));
            } else {
                let w = choose|k: int| 0 <= k < i && !matches_at(actuals@, expected@, k);
                assert(!matches_at(actuals@, expected@, w));
            }
        }
        total_do_match = total_do_match && do_match;
        i = i + 1;
    }
    total_do_match
}

} // verus!
