//! Running code: the loop over the instructions of a block, blocks and loops,
//! calls and returns. Every run is given fuel, one unit for each instruction,
//! and stops with an error where the fuel runs out.

use crate::debugger::{BorrowedProgramState, ProgramCounter};
use crate::engine::control::{spec_br, spec_exit_block, trailing_values};
use crate::engine::exec::{first_memory, is_store, load_width, spec_grow, spec_load_at, spec_memory_size, spec_store_at};
use crate::engine::numeric::{binary_kind, conversion, is_unary, spec_binary, spec_binary_kind, spec_conversion, spec_unary, FloatUnit, Step};
use crate::engine::stack::{label_of, Frame, Label, StackContent};
use crate::engine::module::ModuleInstance;
use crate::engine::store::{Store, Variable};
use crate::engine::{keeps, lemma_keeps_refl, lemma_keeps_trans, only_stack, top_value, EResult, Engine, InstructionOutcome};
use crate::parser::ast::{clone_wrapped, lemma_same_wrapped_at, lemma_same_wrapped_len, same_wrapped, LocalEntry, BlockType, CodeBlock, FuncAddr, Instruction, InstructionWrapper, TableAddr, ValueType};
use crate::value::{spec_type_of, spec_zero_of, types_of_values, Value};
use vstd::prelude::*;

verus! {

/// The function at the address exists, and the arguments have its parameter
/// types.
pub open spec fn args_fit(store: Store, func_addr: FuncAddr, args: Seq<Value>) -> bool {
    func_addr.0 < store.funcs@.len() && store.funcs@[func_addr.0 as int].ty.param_types@ == types_of_values(args)
}

/// The function that `call_indirect` calls: the table must exist, the top of
/// the stack must be an `i32`, and the element at that index of the first
/// table must hold a function address.
pub open spec fn indirect_target(table_addrs: Seq<TableAddr>, store: Store) -> Option<FuncAddr> {
    if table_addrs.len() > 0 && (table_addrs[0].0 as int) < store.tables@.len() {
        let elem = store.tables@[table_addrs[0].0 as int].elem@;
        match top_value(store.stack@) {
            Some(Value::I32(i)) => if ((i as usize) as int) < elem.len() {
                elem[(i as usize) as int]
            } else {
                None
            },
            _ => None,
        }
    } else {
        None
    }
}

/// Changing only the stack keeps what running code keeps.
pub proof fn lemma_only_stack_keeps(a: Store, b: Store)
    requires
        only_stack(a, b),
    ensures
        keeps(a, b),
{
}

/// The fuel after a run is at most the fuel before, and below it where the run
/// ended by a branch or a return: those take at least one instruction.
pub open spec fn fuel_used(fuel: u64, r: (EResult<InstructionOutcome>, u64)) -> bool {
    &&& r.1 <= fuel
    &&& (r.0 matches Ok(o) && !(o is EXIT)) ==> r.1 < fuel
}

/// Tells whether an instruction takes one operand and gives one value.
fn unary_instruction(ins: &Instruction) -> (b: bool)
    ensures
        b == is_unary(*ins),
{
    match ins {
        Instruction::OP_I32_CLZ | Instruction::OP_I64_CLZ | Instruction::OP_I32_CTZ
        | Instruction::OP_I64_CTZ | Instruction::OP_I32_POPCNT | Instruction::OP_I64_POPCNT
        | Instruction::OP_I32_EQZ | Instruction::OP_I64_EQZ | Instruction::OP_I32_WRAP_I64
        | Instruction::OP_I64_EXTEND_I32_S | Instruction::OP_I64_EXTEND_I32_U
        | Instruction::OP_I32_EXTEND8_S | Instruction::OP_I32_EXTEND16_S
        | Instruction::OP_I64_EXTEND8_S | Instruction::OP_I64_EXTEND16_S
        | Instruction::OP_I64_EXTEND32_S | Instruction::OP_I32_REINTERPRET_F32
        | Instruction::OP_I64_REINTERPRET_F64 | Instruction::OP_F32_REINTERPRET_I32
        | Instruction::OP_F64_REINTERPRET_I64 | Instruction::OP_F32_ABS | Instruction::OP_F64_ABS
        | Instruction::OP_F32_NEG | Instruction::OP_F64_NEG | Instruction::OP_F32_CEIL
        | Instruction::OP_F64_CEIL | Instruction::OP_F32_FLOOR | Instruction::OP_F64_FLOOR
        | Instruction::OP_F32_TRUNC | Instruction::OP_F64_TRUNC | Instruction::OP_F32_NEAREST
        | Instruction::OP_F64_NEAREST | Instruction::OP_F32_SQRT | Instruction::OP_F64_SQRT => true,
        _ => conversion(ins).is_some(),
    }
}

/// Tells whether an instruction is a load.
fn load_instruction(ins: &Instruction) -> (b: bool)
    ensures
        b == (load_width(*ins) is Some),
{
    match ins {
        Instruction::OP_I32_LOAD(_) | Instruction::OP_F32_LOAD(_) | Instruction::OP_I32_LOAD_8_s(_)
        | Instruction::OP_I32_LOAD_8_u(_) | Instruction::OP_I32_LOAD_16_s(_)
        | Instruction::OP_I32_LOAD_16_u(_) | Instruction::OP_I64_LOAD(_) | Instruction::OP_F64_LOAD(_)
        | Instruction::OP_I64_LOAD_8_s(_) | Instruction::OP_I64_LOAD_8_u(_)
        | Instruction::OP_I64_LOAD_16_s(_) | Instruction::OP_I64_LOAD_16_u(_)
        | Instruction::OP_I64_LOAD_32_s(_) | Instruction::OP_I64_LOAD_32_u(_) => true,
        _ => false,
    }
}

/// Tells whether an instruction is a store.
fn store_instruction(ins: &Instruction) -> (b: bool)
    ensures
        b == is_store(*ins),
{
    match ins {
        Instruction::OP_I32_STORE(_) | Instruction::OP_F32_STORE(_) | Instruction::OP_I64_STORE(_)
        | Instruction::OP_F64_STORE(_) | Instruction::OP_I32_STORE_8(_) | Instruction::OP_I32_STORE_16(_)
        | Instruction::OP_I64_STORE_8(_) | Instruction::OP_I64_STORE_16(_)
        | Instruction::OP_I64_STORE_32(_) => true,
        _ => false,
    }
}

/// The memory argument of a load or a store; zero for other instructions.
pub open spec fn spec_memarg(ins: Instruction) -> crate::parser::ast::MemArg {
    match ins {
        Instruction::OP_I32_LOAD(m) | Instruction::OP_F32_LOAD(m) | Instruction::OP_I32_LOAD_8_s(m)
        | Instruction::OP_I32_LOAD_8_u(m) | Instruction::OP_I32_LOAD_16_s(m)
        | Instruction::OP_I32_LOAD_16_u(m) | Instruction::OP_I64_LOAD(m) | Instruction::OP_F64_LOAD(m)
        | Instruction::OP_I64_LOAD_8_s(m) | Instruction::OP_I64_LOAD_8_u(m)
        | Instruction::OP_I64_LOAD_16_s(m) | Instruction::OP_I64_LOAD_16_u(m)
        | Instruction::OP_I64_LOAD_32_s(m) | Instruction::OP_I64_LOAD_32_u(m)
        | Instruction::OP_I32_STORE(m) | Instruction::OP_F32_STORE(m) | Instruction::OP_I64_STORE(m)
        | Instruction::OP_F64_STORE(m) | Instruction::OP_I32_STORE_8(m) | Instruction::OP_I32_STORE_16(m)
        | Instruction::OP_I64_STORE_8(m) | Instruction::OP_I64_STORE_16(m)
        | Instruction::OP_I64_STORE_32(m) => m,
        _ => crate::parser::ast::MemArg { align: 0, offset: 0 },
    }
}

/// Whether an instruction leaves the flow of control alone, as `is_plain` says.
fn plain_instruction(ins: &Instruction) -> (b: bool)
    ensures
        b == is_plain(*ins),
{
    match ins {
        Instruction::OP_BLOCK(..) | Instruction::OP_LOOP(..) | Instruction::OP_IF(..) | Instruction::OP_IF_AND_ELSE(..)
        | Instruction::OP_BR(_) | Instruction::OP_BR_IF(_) | Instruction::OP_BR_TABLE(..) | Instruction::OP_CALL(_)
        | Instruction::OP_CALL_INDIRECT(_) | Instruction::OP_RETURN | Instruction::OP_UNREACHABLE => false,
        _ => true,
    }
}

/// The memory argument of a load or a store.
fn memarg_of(ins: &Instruction) -> (m: crate::parser::ast::MemArg)
    ensures
        m == spec_memarg(*ins),
{
    match ins {
        Instruction::OP_I32_LOAD(m) | Instruction::OP_F32_LOAD(m) | Instruction::OP_I32_LOAD_8_s(m)
        | Instruction::OP_I32_LOAD_8_u(m) | Instruction::OP_I32_LOAD_16_s(m)
        | Instruction::OP_I32_LOAD_16_u(m) | Instruction::OP_I64_LOAD(m) | Instruction::OP_F64_LOAD(m)
        | Instruction::OP_I64_LOAD_8_s(m) | Instruction::OP_I64_LOAD_8_u(m)
        | Instruction::OP_I64_LOAD_16_s(m) | Instruction::OP_I64_LOAD_16_u(m)
        | Instruction::OP_I64_LOAD_32_s(m) | Instruction::OP_I64_LOAD_32_u(m)
        | Instruction::OP_I32_STORE(m) | Instruction::OP_F32_STORE(m) | Instruction::OP_I64_STORE(m)
        | Instruction::OP_F64_STORE(m) | Instruction::OP_I32_STORE_8(m) | Instruction::OP_I32_STORE_16(m)
        | Instruction::OP_I64_STORE_8(m) | Instruction::OP_I64_STORE_16(m)
        | Instruction::OP_I64_STORE_32(m) => *m,
        _ => crate::parser::ast::MemArg { align: 0, offset: 0 },
    }
}

/// The locals after `local.set` or `local.tee` of the local `idx` to `v`; where
/// there is no such local, `v` is added as a new one.
pub open spec fn set_local(l: Seq<Value>, idx: u32, v: Value) -> Seq<Value> {
    if (idx as int) < l.len() {
        l.update(idx as int, v)
    } else {
        l.push(v)
    }
}

/// Whether an instruction leaves the flow of control alone: it is neither a
/// block, a branch, a call, a return nor `unreachable`.
pub open spec fn is_plain(ins: Instruction) -> bool {
    !(ins is OP_BLOCK || ins is OP_LOOP || ins is OP_IF || ins is OP_IF_AND_ELSE || ins is OP_BR
        || ins is OP_BR_IF || ins is OP_BR_TABLE || ins is OP_CALL || ins is OP_CALL_INDIRECT
        || ins is OP_RETURN || ins is OP_UNREACHABLE)
}

/// What the instruction `ins`, which leaves the flow of control alone, does
/// where it succeeds, in the module instance `m`: from the store `s0` and the
/// locals `l0` to the store `s1` and the locals `l1`. Functions and tables never
/// change; only `local.set` and `local.tee` change the locals, only `global.set`
/// the globals, and only stores and `memory.grow` the memories. A float
/// operation pushes a value of the float unit's choosing.
pub open spec fn plain_step(m: ModuleInstance, s0: Store, l0: Seq<Value>, ins: Instruction, s1: Store, l1: Seq<Value>) -> bool {
    let st0 = s0.stack@;
    let st1 = s1.stack@;
    let n = st0.len();
    &&& s1.funcs@ == s0.funcs@
    &&& s1.tables@ == s0.tables@
    &&& (ins is OP_LOCAL_SET || ins is OP_LOCAL_TEE || l1 == l0)
    &&& (ins is OP_GLOBAL_SET || s1.globals@ == s0.globals@)
    &&& (is_store(ins) || ins is OP_MEMORY_GROW || s1.memory@ == s0.memory@)
    &&& match ins {
        Instruction::OP_NOP => st1 == st0,
        Instruction::OP_LOCAL_GET(idx) => (idx as int) < l0.len() && st1 == st0.push(StackContent::Value(l0[idx as int])),
        Instruction::OP_LOCAL_SET(idx) => match top_value(st0) {
            Some(v) => st1 == st0.drop_last() && l1 == set_local(l0, idx, v),
            None => false,
        },
        Instruction::OP_LOCAL_TEE(idx) => match top_value(st0) {
            Some(v) => st1 == st0 && l1 == set_local(l0, idx, v),
            None => false,
        },
        Instruction::OP_GLOBAL_GET(idx) => (idx as int) < s0.globals@.len() && st1 == st0.push(
            StackContent::Value(s0.globals@[idx as int].val),
        ),
        Instruction::OP_GLOBAL_SET(idx) => match top_value(st0) {
            Some(v) => (idx as int) < s0.globals@.len() && s0.globals@[idx as int].mutable && st1 == st0.drop_last()
                && s1.globals@ == s0.globals@.update(idx as int, (Variable { mutable: true, val: v })),
            None => false,
        },
        Instruction::OP_I32_CONST(v) => st1 == st0.push(StackContent::Value(Value::I32(v))),
        Instruction::OP_I64_CONST(v) => st1 == st0.push(StackContent::Value(Value::I64(v))),
        Instruction::OP_F32_CONST(v) => st1 == st0.push(StackContent::Value(Value::F32(v))),
        Instruction::OP_F64_CONST(v) => st1 == st0.push(StackContent::Value(Value::F64(v))),
        Instruction::OP_DROP => st1 == (if n > 0 {
            st0.drop_last()
        } else {
            st0
        }),
        Instruction::OP_SELECT => n >= 3 && st0[n - 2] is Value && st0[n - 3] is Value && match st0[n - 1] {
            StackContent::Value(Value::I32(c)) => st1 == st0.subrange(0, n - 3).push(
                if c != 0 {
                    st0[n - 3]
                } else {
                    st0[n - 2]
                },
            ),
            _ => false,
        },
        Instruction::OP_MEMORY_SIZE => match spec_memory_size(m.spec_mem_addrs(), s0.memory@) {
            Some(w) => st1 == st0.push(StackContent::Value(w)),
            None => false,
        },
        Instruction::OP_MEMORY_GROW => match (first_memory(m.spec_mem_addrs(), s0.memory@), top_value(st0)) {
            (Some(i), Some(Value::I32(k))) => k >= 0 && {
                let (data, w) = spec_grow(s0.memory@[i], k);
                &&& st1 == st0.drop_last().push(StackContent::Value(w))
                &&& s1.memory@.len() == s0.memory@.len()
                &&& s1.memory@[i].data@ == data
                &&& s1.memory@[i].max == s0.memory@[i].max
                &&& forall|j: int| 0 <= j < s0.memory@.len() && j != i ==> #[trigger] s1.memory@[j] == s0.memory@[j]
            },
            _ => false,
        },
        _ => if load_width(ins) is Some {
            match spec_load_at(ins, spec_memarg(ins), st0, m.spec_mem_addrs(), s0.memory@) {
                Some(w) => st1 == st0.drop_last().push(StackContent::Value(w)),
                None => false,
            }
        } else if is_store(ins) {
            match spec_store_at(ins, spec_memarg(ins), st0, m.spec_mem_addrs(), s0.memory@) {
                Some((i, d)) => {
                    &&& st1 == st0.subrange(0, n - 2)
                    &&& s1.memory@.len() == s0.memory@.len()
                    &&& s1.memory@[i].data@ == d
                    &&& s1.memory@[i].max == s0.memory@[i].max
                    &&& forall|j: int| 0 <= j < s0.memory@.len() && j != i ==> #[trigger] s1.memory@[j] == s0.memory@[j]
                },
                None => false,
            }
        } else if is_unary(ins) {
            match top_value(st0) {
                Some(v) => match spec_unary(ins, v) {
                    Step::Value(w) => st1 == st0.drop_last().push(StackContent::Value(w)),
                    Step::Trap(_) => false,
                    _ => st1.len() == n && st1.drop_last() == st0.drop_last() && st1.last() is Value,
                },
                None => false,
            }
        } else if spec_binary_kind(ins) is Some {
            n >= 2 && st0[n - 1] is Value && st0[n - 2] is Value && match spec_binary(
                spec_binary_kind(ins).unwrap(),
                st0[n - 2]->Value_0,
                st0[n - 1]->Value_0,
            ) {
                Step::Value(w) => st1 == st0.subrange(0, n - 2).push(StackContent::Value(w)),
                Step::Trap(_) => false,
                _ => st1.len() == n - 1 && st1.drop_last() == st0.subrange(0, n - 2) && st1.last() is Value,
            }
        } else {
            false
        },
    }
}

/// The zeroed locals that the groups `entries` declare, in their order.
pub open spec fn zero_locals(entries: Seq<LocalEntry>) -> Seq<Value>
    decreases entries.len(),
{
    if entries.len() == 0 {
        Seq::empty()
    } else {
        zero_locals(entries.drop_last()) + Seq::new(
            entries.last().count as nat,
            |j: int| spec_zero_of(entries.last().ty),
        )
    }
}

/// The `n` values on top of the stack, deepest first, where the top `n`
/// entries are values.
pub open spec fn call_args(s: Seq<StackContent>, n: nat) -> Option<Seq<Value>> {
    if n <= s.len() && forall|i: int| s.len() - n <= i < s.len() ==> #[trigger] s[i] is Value {
        Some(Seq::new(n, |i: int| s[s.len() - n + i]->Value_0))
    } else {
        None
    }
}

/// The number of results of a block of type `bt` in the module instance `m`,
/// where its type exists.
pub open spec fn block_results(m: ModuleInstance, bt: BlockType) -> Option<u32> {
    match bt {
        BlockType::Empty => Some(0),
        BlockType::ValueType(_) => Some(1),
        BlockType::FuncTy(t) => if 0 <= t < m.spec_fn_types().len() {
            Some(m.spec_fn_types()[t as int].return_types@.len() as u32)
        } else {
            None
        },
    }
}

/// The number of parameters of a block of type `bt` in the module instance `m`,
/// where its type exists.
pub open spec fn block_params(m: ModuleInstance, bt: BlockType) -> Option<u32> {
    match bt {
        BlockType::FuncTy(t) => if 0 <= t < m.spec_fn_types().len() {
            Some(m.spec_fn_types()[t as int].param_types@.len() as u32)
        } else {
            None
        },
        _ => Some(0),
    }
}

/// The stack after entering a block of type `bt` with a label of arity `arity`
/// and the block id `id`: the label goes below the block's parameters.
pub open spec fn enter_block(m: ModuleInstance, s: Seq<StackContent>, bt: BlockType, arity: u32, id: usize) -> Option<
    Seq<StackContent>,
> {
    match block_params(m, bt) {
        Some(p) => if p <= s.len() {
            Some(s.subrange(0, s.len() - p).push(StackContent::Label(label_of(arity, id))) + s.subrange(
                s.len() - p,
                s.len() as int,
            ))
        } else {
            None
        },
        None => None,
    }
}

/// Whether `br_if` branches on the stack `s`: its top is an `i32` other than zero.
pub open spec fn branch_taken(s: Seq<StackContent>) -> bool {
    s.len() > 0 && match s.last() {
        StackContent::Value(Value::I32(c)) => c != 0,
        _ => false,
    }
}

/// `s1` is `s0` with the top of the stack popped.
pub open spec fn popped(s0: Store, s1: Store) -> bool {
    only_stack(s0, s1) && s1.stack@ == s0.stack@.drop_last()
}

/// Running the instructions of `code` from index `i` on, with `fuel`, in the
/// module instance `m`, from the store `s0` and the locals `l0`, can end with
/// the outcome `out`, the store `s1`, the locals `l1` and the fuel `f1`. Each
/// instruction takes one unit of fuel; a block runs its instructions and is
/// left as `block_runs` says; a loop runs as `loop_runs` says; `if` pops its
/// condition; a branch ends the run with the stack as `spec_br` says; `return`
/// ends it as it is; a call runs as `call_step` says; `unreachable` never ends
/// a run well.
pub open spec fn runs(
    m: ModuleInstance,
    code: Seq<InstructionWrapper>,
    i: int,
    fuel: nat,
    s0: Store,
    l0: Seq<Value>,
    out: InstructionOutcome,
    s1: Store,
    l1: Seq<Value>,
    f1: nat,
) -> bool
    decreases fuel, 0int,
{
    if i < 0 || i >= code.len() {
        out == InstructionOutcome::EXIT && s1 == s0 && l1 == l0 && f1 == fuel
    } else if fuel == 0 {
        false
    } else {
        let f = (fuel - 1) as nat;
        let st = s0.stack@;
        let ins = code[i].spec_instruction();
        match ins {
            Instruction::OP_BLOCK(bt, cb) => match block_results(m, bt) {
                Some(a) => block_runs(m, code, i, f, s0, l0, bt, cb, a, out, s1, l1, f1),
                None => false,
            },
            Instruction::OP_LOOP(bt, cb) => match block_params(m, bt) {
                Some(p) => loop_runs(m, code, i, f, s0, l0, bt, cb, p, out, s1, l1, f1),
                None => false,
            },
            Instruction::OP_IF(bt, cb) => match top_value(st) {
                Some(Value::I32(c)) => exists|sp: Store|
                    #[trigger] popped(s0, sp) && if c != 0 {
                        match block_results(m, bt) {
                            Some(a) => block_runs(m, code, i, f, sp, l0, bt, cb, a, out, s1, l1, f1),
                            None => false,
                        }
                    } else {
                        runs(m, code, i + 1, f, sp, l0, out, s1, l1, f1)
                    },
                _ => false,
            },
            Instruction::OP_IF_AND_ELSE(bt, c1, c2) => match (top_value(st), block_results(m, bt)) {
                (Some(Value::I32(c)), Some(a)) => exists|sp: Store|
                    #[trigger] popped(s0, sp) && block_runs(
                        m,
                        code,
                        i,
                        f,
                        sp,
                        l0,
                        bt,
                        if c != 0 {
                            c1
                        } else {
                            c2
                        },
                        a,
                        out,
                        s1,
                        l1,
                        f1,
                    ),
                _ => false,
            },
            Instruction::OP_BR(l) => match spec_br(st, l as nat) {
                Some(t) => out == InstructionOutcome::BRANCH(l) && only_stack(s0, s1) && s1.stack@ == t && l1 == l0
                    && f1 == f,
                None => false,
            },
            Instruction::OP_BR_IF(l) => exists|sp: Store|
                #[trigger] only_stack(s0, sp) && sp.stack@ == (if st.len() > 0 {
                    st.drop_last()
                } else {
                    st
                }) && if branch_taken(st) {
                    match spec_br(sp.stack@, l as nat) {
                        Some(t) => out == InstructionOutcome::BRANCH(l) && only_stack(sp, s1) && s1.stack@ == t && l1
                            == l0 && f1 == f,
                        None => false,
                    }
                } else {
                    runs(m, code, i + 1, f, sp, l0, out, s1, l1, f1)
                },
            Instruction::OP_BR_TABLE(table, d) => match top_value(st) {
                Some(Value::I32(x)) => {
                    let k = (x as u32) as int;
                    let l = if k < table@.len() {
                        table@[k]
                    } else {
                        d
                    };
                    match spec_br(st.drop_last(), l as nat) {
                        Some(t) => out == InstructionOutcome::BRANCH(l) && only_stack(s0, s1) && s1.stack@ == t && l1
                            == l0 && f1 == f,
                        None => false,
                    }
                },
                _ => false,
            },
            Instruction::OP_RETURN => out == InstructionOutcome::RETURN && s1 == s0 && l1 == l0 && f1 == f,
            Instruction::OP_UNREACHABLE => false,
            Instruction::OP_CALL(idx) => (idx as int) < m.spec_func_addrs().len() && exists|sc: Store, fc: nat|
                #![trigger keeps(s0, sc), fuel_within(f, fc)]
                call_step(m, s0, m.spec_func_addrs()[idx as int], f, sc, fc) && fuel_within(f, fc) && keeps(s0, sc)
                    && runs(m, code, i + 1, fc, sc, l0, out, s1, l1, f1),
            Instruction::OP_CALL_INDIRECT(idx) => (idx as int) < m.spec_func_addrs().len() && match indirect_target(
                m.spec_table_addrs(),
                s0,
            ) {
                Some(a) => exists|sp: Store, sc: Store, fc: nat|
                    #![trigger popped(s0, sp), keeps(sp, sc), fuel_within(f, fc)]
                    popped(s0, sp) && call_step(m, sp, a, f, sc, fc) && fuel_within(f, fc) && keeps(sp, sc)
                        && runs(m, code, i + 1, fc, sc, l0, out, s1, l1, f1),
                None => false,
            },
            _ => exists|sm: Store, lm: Seq<Value>|
                #[trigger] plain_step(m, s0, l0, ins, sm, lm) && runs(m, code, i + 1, f, sm, lm, out, s1, l1, f1),
        }
    }
}

/// The run of a block's instructions ended with the outcome `o`, the store
/// `sb`, the locals `lb` and the fuel `fb`, no more than the `fuel` it began
/// with.
pub open spec fn ended_within(fuel: nat, o: InstructionOutcome, sb: Store, lb: Seq<Value>, fb: nat) -> bool {
    fb <= fuel
}

/// How a run goes on after a block met at index `i` of `code` whose
/// instructions ended with the outcome `o`, the store `sb`, the locals `lb` and
/// the fuel `fb`: a branch to its label goes on after it, a branch further out
/// ends the run one label less far out, a return leaves the block and ends the
/// run, and a normal end leaves the block and goes on after it.
pub open spec fn block_after(
    m: ModuleInstance,
    code: Seq<InstructionWrapper>,
    i: int,
    o: InstructionOutcome,
    sb: Store,
    lb: Seq<Value>,
    fb: nat,
    out: InstructionOutcome,
    s1: Store,
    l1: Seq<Value>,
    f1: nat,
) -> bool
    decreases fb, 1int,
{
    match o {
        InstructionOutcome::BRANCH(k) => if k == 0 {
            runs(m, code, i + 1, fb, sb, lb, out, s1, l1, f1)
        } else {
            out == InstructionOutcome::BRANCH((k - 1) as u32) && s1 == sb && l1 == lb && f1 == fb
        },
        InstructionOutcome::RETURN => match spec_exit_block(sb.stack@) {
            Some(t) => out == InstructionOutcome::RETURN && only_stack(sb, s1) && s1.stack@ == t && l1 == lb && f1 == fb,
            None => false,
        },
        InstructionOutcome::EXIT => match spec_exit_block(sb.stack@) {
            Some(t) => exists|sx: Store|
                #[trigger] only_stack(sb, sx) && sx.stack@ == t && runs(m, code, i + 1, fb, sx, lb, out, s1, l1, f1),
            None => false,
        },
    }
}

/// Running the block `cb` of type `bt` whose label has the arity `a`, met at
/// index `i` of `code` with `fuel` left: the block is entered, its instructions
/// run, and the run goes on as `block_after` says.
pub open spec fn block_runs(
    m: ModuleInstance,
    code: Seq<InstructionWrapper>,
    i: int,
    fuel: nat,
    s0: Store,
    l0: Seq<Value>,
    bt: BlockType,
    cb: CodeBlock,
    a: u32,
    out: InstructionOutcome,
    s1: Store,
    l1: Seq<Value>,
    f1: nat,
) -> bool
    decreases fuel, 2int,
{
    exists|se: Store, o: InstructionOutcome, sb: Store, lb: Seq<Value>, fb: nat|
        #![trigger only_stack(s0, se), ended_within(fuel, o, sb, lb, fb)]
        runs(m, cb.spec_instructions(), 0, fuel, se, l0, o, sb, lb, fb) && only_stack(s0, se) && enter_block(
            m,
            s0.stack@,
            bt,
            a,
            cb.spec_block_id(),
        ) == Some(se.stack@) && ended_within(fuel, o, sb, lb, fb) && block_after(m, code, i, o, sb, lb, fb, out, s1, l1, f1)
}

/// Running the loop `cb` of type `bt`, whose label has the arity `p` of its
/// parameters, met at index `i` of `code` with `fuel` left: the loop is entered
/// and its instructions run; a branch to its label runs it again, and
/// otherwise the run goes on as `block_after` says.
pub open spec fn loop_runs(
    m: ModuleInstance,
    code: Seq<InstructionWrapper>,
    i: int,
    fuel: nat,
    s0: Store,
    l0: Seq<Value>,
    bt: BlockType,
    cb: CodeBlock,
    p: u32,
    out: InstructionOutcome,
    s1: Store,
    l1: Seq<Value>,
    f1: nat,
) -> bool
    decreases fuel, 2int,
{
    exists|se: Store, o: InstructionOutcome, sb: Store, lb: Seq<Value>, fb: nat|
        #![trigger only_stack(s0, se), ended_within(fuel, o, sb, lb, fb)]
        runs(m, cb.spec_instructions(), 0, fuel, se, l0, o, sb, lb, fb) && only_stack(s0, se) && enter_block(
            m,
            s0.stack@,
            bt,
            p,
            cb.spec_block_id(),
        ) == Some(se.stack@) && ended_within(fuel, o, sb, lb, fb) && if o == InstructionOutcome::BRANCH(0) {
            fb < fuel && loop_runs(m, code, i, fb, sb, lb, bt, cb, p, out, s1, l1, f1)
        } else {
            block_after(m, code, i, o, sb, lb, fb, out, s1, l1, f1)
        }
}

/// The stack after the code of a function ended, its block left where that is
/// due: the `arity` values on top stay (all of them where there are fewer), and
/// the frame below them goes. `None` where no frame is there.
pub open spec fn leave_frame(t: Seq<StackContent>, arity: u32) -> Option<Seq<StackContent>> {
    let len = t.len() as int;
    let count = if (arity as int) < len {
        arity as int
    } else {
        len
    };
    if len - count >= 1 && t[len - count - 1] is Frame {
        Some(t.subrange(0, len - count - 1) + t.subrange(len - count, len))
    } else {
        None
    }
}

/// `left` is no more than `fuel`.
pub open spec fn fuel_within(fuel: nat, left: nat) -> bool {
    left <= fuel
}

/// Running the code `code` of a function whose frame has the arity `arity`,
/// with `fuel`, from the store `s0` and the locals `l0`, ends with the store
/// `s1` and the fuel `f1`: the code runs as `runs` says; where it did not end
/// by a branch, the function's block is left; and then the frame is replaced
/// by the results.
pub open spec fn function_runs(
    m: ModuleInstance,
    code: Seq<InstructionWrapper>,
    fuel: nat,
    s0: Store,
    l0: Seq<Value>,
    arity: u32,
    s1: Store,
    f1: nat,
) -> bool
    decreases fuel, 3int,
{
    exists|out: InstructionOutcome, sr: Store, lr: Seq<Value>|
        #![trigger only_stack(sr, s1), ended_within(fuel, out, sr, lr, f1)]
        runs(m, code, 0, fuel, s0, l0, out, sr, lr, f1) && ended_within(fuel, out, sr, lr, f1) && only_stack(sr, s1)
            && match out {
            InstructionOutcome::BRANCH(_) => leave_frame(sr.stack@, arity) == Some(s1.stack@),
            _ => match spec_exit_block(sr.stack@) {
                Some(t) => leave_frame(t, arity) == Some(s1.stack@),
                None => false,
            },
        }
}

/// A call of the function at `addr` with the arguments `args` and `fuel`, in
/// the module instance `m`, took the store `s0` to `s1` with the fuel `f1` left:
/// a frame with the arguments and the zeroed locals and a label were pushed,
/// and a copy of the function's code that agrees with it in every instruction
/// ran as `function_runs` says.
pub open spec fn call_runs(m: ModuleInstance, s0: Store, addr: FuncAddr, args: Seq<Value>, fuel: nat, s1: Store, f1: nat) -> bool
    decreases fuel, 4int,
{
    let f = s0.funcs@[addr.0 as int];
    let n = f.ty.return_types@.len() as u32;
    let l0 = args + zero_locals(f.code.locals@);
    let s = s0.stack@;
    exists|code: Seq<InstructionWrapper>, sf: Store|
        #![trigger same_wrapped(f.code.code@, code), only_stack(s0, sf)]
        same_wrapped(f.code.code@, code) && function_runs(m, code, fuel, sf, l0, n, s1, f1) && {
            &&& only_stack(s0, sf)
            &&& sf.stack@.len() == s.len() + 2
            &&& sf.stack@.subrange(0, s.len() as int) == s
            &&& sf.stack@[s.len() as int + 1] == StackContent::Label(label_of(n, 0))
            &&& sf.stack@[s.len() as int] matches StackContent::Frame(f0)
            &&& f0.arity == n
            &&& f0.locals@ == l0
        }
}

/// A call of the function at `addr` that takes its arguments off the stack of
/// `s0`, with `fuel`, ends with the store `s1` and the fuel `f1`: the function
/// exists, the values on top of the stack fit its parameters, and the call
/// with them runs as `call_runs` says.
pub open spec fn call_step(m: ModuleInstance, s0: Store, addr: FuncAddr, fuel: nat, s1: Store, f1: nat) -> bool
    decreases fuel, 5int,
{
    let s = s0.stack@;
    let n = s0.funcs@[addr.0 as int].ty.param_types@.len();
    addr.0 < s0.funcs@.len() && match call_args(s, n) {
        Some(args) => args_fit(s0, addr, args) && exists|sp: Store|
            #[trigger] only_stack(s0, sp) && sp.stack@ == s.subrange(0, s.len() - n) && call_runs(m, sp, addr, args, fuel, s1, f1),
        None => false,
    }
}

/// A function's code runs as `function_runs` says, given how its code ran.
proof fn lemma_function_runs_intro(
    m: ModuleInstance,
    code: Seq<InstructionWrapper>,
    fuel: nat,
    s0: Store,
    l0: Seq<Value>,
    arity: u32,
    s1: Store,
    f1: nat,
    out: InstructionOutcome,
    sr: Store,
    lr: Seq<Value>,
)
    requires
        runs(m, code, 0, fuel, s0, l0, out, sr, lr, f1),
        f1 <= fuel,
        only_stack(sr, s1),
        out is BRANCH ==> leave_frame(sr.stack@, arity) == Some(s1.stack@),
        !(out is BRANCH) ==> spec_exit_block(sr.stack@) is Some && leave_frame(spec_exit_block(sr.stack@).unwrap(), arity)
            == Some(s1.stack@),
    ensures
        function_runs(m, code, fuel, s0, l0, arity, s1, f1),
{
    assert(ended_within(fuel, out, sr, lr, f1));
}

/// A block runs as `block_runs` says, given how its instructions ran.
proof fn lemma_block_runs_intro(
    m: ModuleInstance,
    code: Seq<InstructionWrapper>,
    i: int,
    fuel: nat,
    s0: Store,
    l0: Seq<Value>,
    bt: BlockType,
    cb: CodeBlock,
    a: u32,
    out: InstructionOutcome,
    s1: Store,
    l1: Seq<Value>,
    f1: nat,
    se: Store,
    o: InstructionOutcome,
    sb: Store,
    lb: Seq<Value>,
    fb: nat,
)
    requires
        runs(m, cb.spec_instructions(), 0, fuel, se, l0, o, sb, lb, fb),
        only_stack(s0, se),
        enter_block(m, s0.stack@, bt, a, cb.spec_block_id()) == Some(se.stack@),
        fb <= fuel,
        block_after(m, code, i, o, sb, lb, fb, out, s1, l1, f1),
    ensures
        block_runs(m, code, i, fuel, s0, l0, bt, cb, a, out, s1, l1, f1),
{
    assert(ended_within(fuel, o, sb, lb, fb));
}

/// A loop runs as `loop_runs` says, given how its instructions ran once.
proof fn lemma_loop_runs_intro(
    m: ModuleInstance,
    code: Seq<InstructionWrapper>,
    i: int,
    fuel: nat,
    s0: Store,
    l0: Seq<Value>,
    bt: BlockType,
    cb: CodeBlock,
    p: u32,
    out: InstructionOutcome,
    s1: Store,
    l1: Seq<Value>,
    f1: nat,
    se: Store,
    o: InstructionOutcome,
    sb: Store,
    lb: Seq<Value>,
    fb: nat,
)
    requires
        runs(m, cb.spec_instructions(), 0, fuel, se, l0, o, sb, lb, fb),
        only_stack(s0, se),
        enter_block(m, s0.stack@, bt, p, cb.spec_block_id()) == Some(se.stack@),
        fb <= fuel,
        o == InstructionOutcome::BRANCH(0) ==> fb < fuel && loop_runs(m, code, i, fb, sb, lb, bt, cb, p, out, s1, l1, f1),
        o != InstructionOutcome::BRANCH(0) ==> block_after(m, code, i, o, sb, lb, fb, out, s1, l1, f1),
    ensures
        loop_runs(m, code, i, fuel, s0, l0, bt, cb, p, out, s1, l1, f1),
{
    assert(ended_within(fuel, o, sb, lb, fb));
}

/// After a block that ended normally, the run goes on after it.
proof fn lemma_block_after_exit(
    m: ModuleInstance,
    code: Seq<InstructionWrapper>,
    i: int,
    sb: Store,
    lb: Seq<Value>,
    fb: nat,
    out: InstructionOutcome,
    s1: Store,
    l1: Seq<Value>,
    f1: nat,
    sx: Store,
)
    requires
        spec_exit_block(sb.stack@) == Some(sx.stack@),
        only_stack(sb, sx),
        runs(m, code, i + 1, fb, sx, lb, out, s1, l1, f1),
    ensures
        block_after(m, code, i, InstructionOutcome::EXIT, sb, lb, fb, out, s1, l1, f1),
{
    reveal_with_fuel(block_after, 2);
    reveal_with_fuel(runs, 2);
    assert(runs(m, code, i + 1, fb, sx, lb, out, s1, l1, f1));
}

/// After a block left by a branch to its label, the run goes on after it.
proof fn lemma_block_after_branch(
    m: ModuleInstance,
    code: Seq<InstructionWrapper>,
    i: int,
    sb: Store,
    lb: Seq<Value>,
    fb: nat,
    out: InstructionOutcome,
    s1: Store,
    l1: Seq<Value>,
    f1: nat,
)
    requires
        runs(m, code, i + 1, fb, sb, lb, out, s1, l1, f1),
    ensures
        block_after(m, code, i, InstructionOutcome::BRANCH(0), sb, lb, fb, out, s1, l1, f1),
{
    reveal_with_fuel(block_after, 2);
    reveal_with_fuel(runs, 2);
    assert(runs(m, code, i + 1, fb, sb, lb, out, s1, l1, f1));
}

/// A run that begins with an instruction that leaves the flow of control alone.
proof fn lemma_runs_plain(
    m: ModuleInstance,
    code: Seq<InstructionWrapper>,
    i: int,
    fuel: nat,
    s0: Store,
    l0: Seq<Value>,
    out: InstructionOutcome,
    s1: Store,
    l1: Seq<Value>,
    f1: nat,
    sm: Store,
    lm: Seq<Value>,
)
    requires
        0 <= i < code.len(),
        fuel > 0,
        is_plain(code[i].spec_instruction()),
        plain_step(m, s0, l0, code[i].spec_instruction(), sm, lm),
        runs(m, code, i + 1, (fuel - 1) as nat, sm, lm, out, s1, l1, f1),
    ensures
        runs(m, code, i, fuel, s0, l0, out, s1, l1, f1),
{
    reveal_with_fuel(runs, 2);
    assert(runs(m, code, i + 1, (fuel - 1) as nat, sm, lm, out, s1, l1, f1));
}

/// A run that begins with a block.
proof fn lemma_runs_block(
    m: ModuleInstance,
    code: Seq<InstructionWrapper>,
    i: int,
    fuel: nat,
    s0: Store,
    l0: Seq<Value>,
    out: InstructionOutcome,
    s1: Store,
    l1: Seq<Value>,
    f1: nat,
    bt: BlockType,
    cb: CodeBlock,
    a: u32,
)
    requires
        0 <= i < code.len(),
        fuel > 0,
        code[i].spec_instruction() == Instruction::OP_BLOCK(bt, cb),
        block_results(m, bt) == Some(a),
        block_runs(m, code, i, (fuel - 1) as nat, s0, l0, bt, cb, a, out, s1, l1, f1),
    ensures
        runs(m, code, i, fuel, s0, l0, out, s1, l1, f1),
{
    reveal_with_fuel(runs, 2);
    reveal_with_fuel(block_runs, 2);
    assert(block_runs(m, code, i, (fuel - 1) as nat, s0, l0, bt, cb, a, out, s1, l1, f1));
}

/// A run that begins with a loop.
proof fn lemma_runs_loop(
    m: ModuleInstance,
    code: Seq<InstructionWrapper>,
    i: int,
    fuel: nat,
    s0: Store,
    l0: Seq<Value>,
    out: InstructionOutcome,
    s1: Store,
    l1: Seq<Value>,
    f1: nat,
    bt: BlockType,
    cb: CodeBlock,
    p: u32,
)
    requires
        0 <= i < code.len(),
        fuel > 0,
        code[i].spec_instruction() == Instruction::OP_LOOP(bt, cb),
        block_params(m, bt) == Some(p),
        loop_runs(m, code, i, (fuel - 1) as nat, s0, l0, bt, cb, p, out, s1, l1, f1),
    ensures
        runs(m, code, i, fuel, s0, l0, out, s1, l1, f1),
{
    reveal_with_fuel(runs, 2);
    reveal_with_fuel(loop_runs, 2);
    assert(loop_runs(m, code, i, (fuel - 1) as nat, s0, l0, bt, cb, p, out, s1, l1, f1));
}

/// A run that begins with an `if` without an else branch.
proof fn lemma_runs_if(
    m: ModuleInstance,
    code: Seq<InstructionWrapper>,
    i: int,
    fuel: nat,
    s0: Store,
    l0: Seq<Value>,
    out: InstructionOutcome,
    s1: Store,
    l1: Seq<Value>,
    f1: nat,
    bt: BlockType,
    cb: CodeBlock,
    c: i32,
    a: u32,
    sp: Store,
)
    requires
        0 <= i < code.len(),
        fuel > 0,
        code[i].spec_instruction() == Instruction::OP_IF(bt, cb),
        top_value(s0.stack@) == Some(Value::I32(c)),
        popped(s0, sp),
        c != 0 ==> block_results(m, bt) == Some(a) && block_runs(m, code, i, (fuel - 1) as nat, sp, l0, bt, cb, a, out, s1, l1, f1),
        c == 0 ==> runs(m, code, i + 1, (fuel - 1) as nat, sp, l0, out, s1, l1, f1),
    ensures
        runs(m, code, i, fuel, s0, l0, out, s1, l1, f1),
{
    reveal_with_fuel(runs, 2);
    reveal_with_fuel(block_runs, 2);
    assert(popped(s0, sp));
    if c != 0 {
        assert(block_runs(m, code, i, (fuel - 1) as nat, sp, l0, bt, cb, a, out, s1, l1, f1));
    } else {
        assert(runs(m, code, i + 1, (fuel - 1) as nat, sp, l0, out, s1, l1, f1));
    }
}

/// A run that begins with an `if` with an else branch.
proof fn lemma_runs_if_else(
    m: ModuleInstance,
    code: Seq<InstructionWrapper>,
    i: int,
    fuel: nat,
    s0: Store,
    l0: Seq<Value>,
    out: InstructionOutcome,
    s1: Store,
    l1: Seq<Value>,
    f1: nat,
    bt: BlockType,
    c1: CodeBlock,
    c2: CodeBlock,
    c: i32,
    a: u32,
    sp: Store,
)
    requires
        0 <= i < code.len(),
        fuel > 0,
        code[i].spec_instruction() == Instruction::OP_IF_AND_ELSE(bt, c1, c2),
        top_value(s0.stack@) == Some(Value::I32(c)),
        block_results(m, bt) == Some(a),
        popped(s0, sp),
        block_runs(
            m,
            code,
            i,
            (fuel - 1) as nat,
            sp,
            l0,
            bt,
            if c != 0 {
                c1
            } else {
                c2
            },
            a,
            out,
            s1,
            l1,
            f1,
        ),
    ensures
        runs(m, code, i, fuel, s0, l0, out, s1, l1, f1),
{
    reveal_with_fuel(runs, 2);
    reveal_with_fuel(block_runs, 2);
    assert(popped(s0, sp));
}

/// A run that begins with a call.
proof fn lemma_runs_call(
    m: ModuleInstance,
    code: Seq<InstructionWrapper>,
    i: int,
    fuel: nat,
    s0: Store,
    l0: Seq<Value>,
    out: InstructionOutcome,
    s1: Store,
    l1: Seq<Value>,
    f1: nat,
    idx: u32,
    sc: Store,
    fc: nat,
)
    requires
        0 <= i < code.len(),
        fuel > 0,
        code[i].spec_instruction() == Instruction::OP_CALL(idx),
        (idx as int) < m.spec_func_addrs().len(),
        call_step(m, s0, m.spec_func_addrs()[idx as int], (fuel - 1) as nat, sc, fc),
        fc <= fuel - 1,
        keeps(s0, sc),
        runs(m, code, i + 1, fc, sc, l0, out, s1, l1, f1),
    ensures
        runs(m, code, i, fuel, s0, l0, out, s1, l1, f1),
{
    reveal_with_fuel(runs, 2);
    assert(fuel_within((fuel - 1) as nat, fc));
    assert(call_step(m, s0, m.spec_func_addrs()[idx as int], (fuel - 1) as nat, sc, fc));
    assert(runs(m, code, i + 1, fc, sc, l0, out, s1, l1, f1));
}

/// A run that begins with an indirect call.
proof fn lemma_runs_call_indirect(
    m: ModuleInstance,
    code: Seq<InstructionWrapper>,
    i: int,
    fuel: nat,
    s0: Store,
    l0: Seq<Value>,
    out: InstructionOutcome,
    s1: Store,
    l1: Seq<Value>,
    f1: nat,
    idx: u32,
    a: FuncAddr,
    sp: Store,
    sc: Store,
    fc: nat,
)
    requires
        0 <= i < code.len(),
        fuel > 0,
        code[i].spec_instruction() == Instruction::OP_CALL_INDIRECT(idx),
        (idx as int) < m.spec_func_addrs().len(),
        indirect_target(m.spec_table_addrs(), s0) == Some(a),
        popped(s0, sp),
        call_step(m, sp, a, (fuel - 1) as nat, sc, fc),
        fc <= fuel - 1,
        keeps(sp, sc),
        runs(m, code, i + 1, fc, sc, l0, out, s1, l1, f1),
    ensures
        runs(m, code, i, fuel, s0, l0, out, s1, l1, f1),
{
    reveal_with_fuel(runs, 2);
    assert(fuel_within((fuel - 1) as nat, fc));
    assert(popped(s0, sp));
    assert(call_step(m, sp, a, (fuel - 1) as nat, sc, fc));
    assert(runs(m, code, i + 1, fc, sc, l0, out, s1, l1, f1));
}

/// A run that begins with `br_if`.
proof fn lemma_runs_br_if(
    m: ModuleInstance,
    code: Seq<InstructionWrapper>,
    i: int,
    fuel: nat,
    s0: Store,
    l0: Seq<Value>,
    out: InstructionOutcome,
    s1: Store,
    l1: Seq<Value>,
    f1: nat,
    l: u32,
    sp: Store,
)
    requires
        0 <= i < code.len(),
        fuel > 0,
        code[i].spec_instruction() == Instruction::OP_BR_IF(l),
        only_stack(s0, sp),
        sp.stack@ == (if s0.stack@.len() > 0 {
            s0.stack@.drop_last()
        } else {
            s0.stack@
        }),
        branch_taken(s0.stack@) ==> spec_br(sp.stack@, l as nat) == Some(s1.stack@) && out == InstructionOutcome::BRANCH(l)
            && only_stack(sp, s1) && l1 == l0 && f1 == fuel - 1,
        !branch_taken(s0.stack@) ==> runs(m, code, i + 1, (fuel - 1) as nat, sp, l0, out, s1, l1, f1),
    ensures
        runs(m, code, i, fuel, s0, l0, out, s1, l1, f1),
{
    reveal_with_fuel(runs, 2);
    assert(only_stack(s0, sp));
}

/// Whether the instructions of `code` from the index `k` on, run one after the
/// other from the store `s` and the locals `l`, are each `nop`, an instruction
/// that leaves the flow of control alone and that `plain_runnable` says runs
/// well, or an `if` or a `br_if` whose condition on top of the stack is zero,
/// from every state that the instructions before it can lead to; and whether
/// every state in which they can end meets `end`.
pub open spec fn straight_ends(
    m: ModuleInstance,
    code: Seq<InstructionWrapper>,
    k: int,
    s: Store,
    l: Seq<Value>,
    end: spec_fn(Store, Seq<Value>) -> bool,
) -> bool
    decreases code.len() - k,
{
    if k < 0 || k >= code.len() {
        end(s, l)
    } else {
        let ins = code[k].spec_instruction();
        if ins is OP_IF || ins is OP_BR_IF {
            &&& top_value(s.stack@) == Some(Value::I32(0))
            &&& forall|sp: Store| #[trigger] popped(s, sp) ==> straight_ends(m, code, k + 1, sp, l, end)
        } else {
            &&& (ins is OP_NOP || (is_plain(ins) && plain_runnable(m, s, l, ins) == Some(true)))
            &&& forall|s1: Store, l1: Seq<Value>|
                #[trigger] plain_step(m, s, l, ins, s1, l1) ==> straight_ends(m, code, k + 1, s1, l1, end)
        }
    }
}

/// Whether a function's frame can be left from the stack `st` with `arity`
/// results: the function's block can be left, and below the results that are
/// kept lies a frame.
pub open spec fn frame_exit_ok(st: Seq<StackContent>, arity: u32) -> bool {
    match spec_exit_block(st) {
        Some(t) => {
            let c = if (arity as int) < t.len() {
                arity as int
            } else {
                t.len() as int
            };
            t.len() > c && t[t.len() - c - 1] is Frame
        },
        None => false,
    }
}

/// The states from which a function's frame can be left with `arity` results.
pub open spec fn leaves_frame(arity: u32) -> spec_fn(Store, Seq<Value>) -> bool {
    |s: Store, l: Seq<Value>| frame_exit_ok(s.stack@, arity)
}

/// The store `s1` is `s0` with a frame of arity `n` and the locals `l`, and then
/// the label of the function's block, pushed on its stack.
pub open spec fn entered(s0: Store, s1: Store, n: u32, l: Seq<Value>) -> bool {
    let k = s0.stack@.len() as int;
    &&& only_stack(s0, s1)
    &&& s1.stack@.len() == k + 2
    &&& s1.stack@.subrange(0, k) == s0.stack@
    &&& s1.stack@[k] matches StackContent::Frame(f0) && f0.arity == n && f0.locals@ == l
    &&& s1.stack@[k + 1] == StackContent::Label(label_of(n, 0))
}

/// Whether calling the function at `addr` with `args`, from the store `s0`, runs
/// straight-line code that `straight_ends` says runs well within `fuel` and
/// ends where the function's frame can be left.
pub open spec fn straight_call(m: ModuleInstance, s0: Store, addr: FuncAddr, args: Seq<Value>, fuel: nat) -> bool {
    let f = s0.funcs@[addr.0 as int];
    let n = f.ty.return_types@.len() as u32;
    let l = args + zero_locals(f.code.locals@);
    &&& f.code.code@.len() <= fuel
    &&& forall|s1: Store| #[trigger] entered(s0, s1, n, l) ==> straight_ends(m, f.code.code@, 0, s1, l, leaves_frame(n))
}

/// Whether calling the function at `addr`, with its arguments taken off the
/// stack of `s0`, runs straight-line code as `straight_call` says.
pub open spec fn straight_call_from_stack(m: ModuleInstance, s0: Store, addr: FuncAddr, fuel: nat) -> bool {
    let s = s0.stack@;
    let n = s0.funcs@[addr.0 as int].ty.param_types@.len();
    &&& addr.0 < s0.funcs@.len()
    &&& call_args(s, n) matches Some(args)
    &&& args_fit(s0, addr, args)
    &&& forall|s1: Store|
        #[trigger] only_stack(s0, s1) && s1.stack@ == s.subrange(0, s.len() - n) ==> straight_call(m, s1, addr, args, fuel)
}

/// `br_table` with the labels `labels` and the default `d`, on an `i32` index
/// `x` on top of the stack: read as unsigned, an index past the end of the
/// labels branches to the default label, and only an index within them
/// branches to the label at that index. A run that ends well at the
/// instruction ends with that branch, taken on the stack without the index.
pub proof fn lemma_br_table_target(
    m: ModuleInstance,
    code: Seq<InstructionWrapper>,
    i: int,
    fuel: nat,
    s0: Store,
    l0: Seq<Value>,
    out: InstructionOutcome,
    s1: Store,
    l1: Seq<Value>,
    f1: nat,
    labels: Seq<u32>,
    d: u32,
    x: i32,
)
    requires
        0 <= i < code.len(),
        code[i].spec_instruction() matches Instruction::OP_BR_TABLE(t, dd) && t@ == labels && dd == d,
        top_value(s0.stack@) == Some(Value::I32(x)),
        runs(m, code, i, fuel, s0, l0, out, s1, l1, f1),
    ensures
        (x as u32) >= labels.len() ==> out == InstructionOutcome::BRANCH(d) && spec_br(s0.stack@.drop_last(), d as nat)
            == Some(s1.stack@),
        (x as u32) < labels.len() ==> out == InstructionOutcome::BRANCH(labels[x as u32 as int]) && spec_br(
            s0.stack@.drop_last(),
            labels[x as u32 as int] as nat,
        ) == Some(s1.stack@),
        only_stack(s0, s1),
        l1 == l0,
{
}

/// The conditional instructions on an `i32` condition `c` on top of the stack:
/// `br_if` branches where `c` is not zero and otherwise pops `c` and goes on
/// with the next instruction; `if` runs its block where `c` is not zero and
/// otherwise pops `c` and goes on; `if`/`else` runs its first block where `c`
/// is not zero and its second block where it is zero.
pub proof fn lemma_conditionals(
    m: ModuleInstance,
    code: Seq<InstructionWrapper>,
    i: int,
    fuel: nat,
    s0: Store,
    l0: Seq<Value>,
    out: InstructionOutcome,
    s1: Store,
    l1: Seq<Value>,
    f1: nat,
    c: i32,
)
    requires
        0 <= i < code.len(),
        top_value(s0.stack@) == Some(Value::I32(c)),
        runs(m, code, i, fuel, s0, l0, out, s1, l1, f1),
    ensures
        fuel > 0,
        match code[i].spec_instruction() {
            Instruction::OP_BR_IF(l) => if c != 0 {
                out == InstructionOutcome::BRANCH(l) && spec_br(s0.stack@.drop_last(), l as nat) == Some(s1.stack@)
            } else {
                exists|sp: Store| #[trigger] popped(s0, sp) && runs(m, code, i + 1, (fuel - 1) as nat, sp, l0, out, s1, l1, f1)
            },
            Instruction::OP_IF(bt, cb) => if c != 0 {
                exists|sp: Store|
                    #[trigger] popped(s0, sp) && match block_results(m, bt) {
                        Some(a) => block_runs(m, code, i, (fuel - 1) as nat, sp, l0, bt, cb, a, out, s1, l1, f1),
                        None => false,
                    }
            } else {
                exists|sp: Store| #[trigger] popped(s0, sp) && runs(m, code, i + 1, (fuel - 1) as nat, sp, l0, out, s1, l1, f1)
            },
            Instruction::OP_IF_AND_ELSE(bt, c1, c2) => if c != 0 {
                exists|sp: Store|
                    #[trigger] popped(s0, sp) && match block_results(m, bt) {
                        Some(a) => block_runs(m, code, i, (fuel - 1) as nat, sp, l0, bt, c1, a, out, s1, l1, f1),
                        None => false,
                    }
            } else {
                exists|sp: Store|
                    #[trigger] popped(s0, sp) && match block_results(m, bt) {
                        Some(a) => block_runs(m, code, i, (fuel - 1) as nat, sp, l0, bt, c2, a, out, s1, l1, f1),
                        None => false,
                    }
            },
            _ => true,
        },
{
    let st = s0.stack@;
    if let Instruction::OP_BR_IF(l) = code[i].spec_instruction() {
        let sp = choose|sp: Store|
            #[trigger] only_stack(s0, sp) && sp.stack@ == (if st.len() > 0 {
                st.drop_last()
            } else {
                st
            }) && if branch_taken(st) {
                match spec_br(sp.stack@, l as nat) {
                    Some(t) => out == InstructionOutcome::BRANCH(l) && only_stack(sp, s1) && s1.stack@ == t && l1
                        == l0 && f1 == (fuel - 1) as nat,
                    None => false,
                }
            } else {
                runs(m, code, i + 1, (fuel - 1) as nat, sp, l0, out, s1, l1, f1)
            };
        assert(popped(s0, sp));
    }
}

/// `local.get` after `local.set` of the same local gives back the value set,
/// and `local.set` changes that local only.
pub proof fn lemma_local_set_then_get(
    m: ModuleInstance,
    s0: Store,
    l0: Seq<Value>,
    s1: Store,
    l1: Seq<Value>,
    s2: Store,
    l2: Seq<Value>,
    idx: u32,
    v: Value,
)
    requires
        (idx as int) < l0.len(),
        top_value(s0.stack@) == Some(v),
        plain_step(m, s0, l0, Instruction::OP_LOCAL_SET(idx), s1, l1),
        plain_step(m, s1, l1, Instruction::OP_LOCAL_GET(idx), s2, l2),
    ensures
        s2.stack@ == s0.stack@.drop_last().push(StackContent::Value(v)),
        l2 == l1,
        l1.len() == l0.len(),
        l1[idx as int] == v,
        forall|j: int| 0 <= j < l0.len() && j != idx ==> #[trigger] l1[j] == l0[j],
{
}

/// `local.tee` leaves the stack as it was and sets the local as `local.set`
/// does with the value on top of the stack.
pub proof fn lemma_local_tee(m: ModuleInstance, s0: Store, l0: Seq<Value>, s1: Store, l1: Seq<Value>, idx: u32, v: Value)
    requires
        (idx as int) < l0.len(),
        top_value(s0.stack@) == Some(v),
        plain_step(m, s0, l0, Instruction::OP_LOCAL_TEE(idx), s1, l1),
    ensures
        s1.stack@ == s0.stack@,
        l1.len() == l0.len(),
        l1[idx as int] == v,
        forall|j: int| 0 <= j < l0.len() && j != idx ==> #[trigger] l1[j] == l0[j],
{
}

/// `global.get` after `global.set` of the same global gives back the value set,
/// and `global.set` changes that global only, which must be mutable.
pub proof fn lemma_global_set_then_get(
    m: ModuleInstance,
    s0: Store,
    l0: Seq<Value>,
    s1: Store,
    l1: Seq<Value>,
    s2: Store,
    l2: Seq<Value>,
    idx: u32,
    v: Value,
)
    requires
        top_value(s0.stack@) == Some(v),
        plain_step(m, s0, l0, Instruction::OP_GLOBAL_SET(idx), s1, l1),
        plain_step(m, s1, l1, Instruction::OP_GLOBAL_GET(idx), s2, l2),
    ensures
        s0.globals@[idx as int].mutable,
        s2.stack@ == s0.stack@.drop_last().push(StackContent::Value(v)),
        s1.globals@.len() == s0.globals@.len(),
        s1.globals@[idx as int].val == v,
        forall|j: int| 0 <= j < s0.globals@.len() && j != idx ==> #[trigger] s1.globals@[j] == s0.globals@[j],
        l2 == l0,
{
}

/// `select` on the values `a` and `b` and an `i32` condition `c` leaves `a`
/// where `c` is not zero and `b` where it is zero; `drop` takes the top value
/// off.
pub proof fn lemma_select_and_drop(
    m: ModuleInstance,
    rest: Seq<StackContent>,
    s0: Store,
    l0: Seq<Value>,
    s1: Store,
    l1: Seq<Value>,
    a: Value,
    b: Value,
    c: i32,
)
    ensures
        s0.stack@ == rest.push(StackContent::Value(a)).push(StackContent::Value(b)).push(
            StackContent::Value(Value::I32(c)),
        ) && plain_step(m, s0, l0, Instruction::OP_SELECT, s1, l1) ==> {
            &&& c != 0 ==> s1.stack@ == rest.push(StackContent::Value(a))
            &&& c == 0 ==> s1.stack@ == rest.push(StackContent::Value(b))
            &&& l1 == l0
        },
        s0.stack@ == rest.push(StackContent::Value(a)) && plain_step(m, s0, l0, Instruction::OP_DROP, s1, l1) ==> s1.stack@
            == rest && l1 == l0,
{
    let st = s0.stack@;
    if st == rest.push(StackContent::Value(a)).push(StackContent::Value(b)).push(StackContent::Value(Value::I32(c))) {
        assert(st.subrange(0, st.len() - 3) =~= rest);
    }
    if st == rest.push(StackContent::Value(a)) {
        assert(st.drop_last() =~= rest);
    }
}

/// `memory.grow` by `k` pages gives the size of the first memory before, in
/// pages, and `memory.size` then gives that size plus `k`; where `memory.grow`
/// gives -1 the memory is left as it was.
pub proof fn lemma_grow_then_size(
    m: ModuleInstance,
    s0: Store,
    l0: Seq<Value>,
    s1: Store,
    l1: Seq<Value>,
    s2: Store,
    l2: Seq<Value>,
    k: i32,
    w: i32,
)
    requires
        top_value(s0.stack@) == Some(Value::I32(k)),
        plain_step(m, s0, l0, Instruction::OP_MEMORY_GROW, s1, l1),
        top_value(s1.stack@) == Some(Value::I32(w)),
        plain_step(m, s1, l1, Instruction::OP_MEMORY_SIZE, s2, l2),
    ensures
        first_memory(m.spec_mem_addrs(), s0.memory@) is Some,
        ({
            let i = first_memory(m.spec_mem_addrs(), s0.memory@).unwrap();
            let old = crate::engine::memory::pages_of(s0.memory@[i].data@.len());
            &&& w == -1 ==> s1.memory@[i].data@ == s0.memory@[i].data@ && top_value(s2.stack@) == Some(
                Value::I32(old as i32),
            )
            &&& w != -1 ==> w == old as i32 && top_value(s2.stack@) == Some(Value::I32((old + k) as i32))
        }),
{
    let i = first_memory(m.spec_mem_addrs(), s0.memory@).unwrap();
    let len = s0.memory@[i].data@.len();
    if k > 0 && w != -1 {
        vstd::arithmetic::div_mod::lemma_hoist_over_denominator(len as int, k as int, crate::PAGE_SIZE as nat);
    }
}

/// Straight-line code that agrees instruction by instruction runs alike.
proof fn lemma_straight_same(
    m: ModuleInstance,
    a: Seq<InstructionWrapper>,
    b: Seq<InstructionWrapper>,
    k: int,
    s: Store,
    l: Seq<Value>,
    end: spec_fn(Store, Seq<Value>) -> bool,
)
    requires
        same_wrapped(a, b),
        0 <= k,
        straight_ends(m, a, k, s, l, end),
    ensures
        straight_ends(m, b, k, s, l, end),
    decreases a.len() - k,
{
    lemma_same_wrapped_len(a, b);
    if k < a.len() {
        lemma_same_wrapped_at(a, b, k);
        let ins = a[k].spec_instruction();
        if ins is OP_IF || ins is OP_BR_IF {
            if ins is OP_IF {
                assert(b[k].spec_instruction() is OP_IF);
            } else {
                assert(b[k].spec_instruction() == ins);
            }
            assert forall|sp: Store| #[trigger] popped(s, sp) implies straight_ends(m, b, k + 1, sp, l, end) by {
                lemma_straight_same(m, a, b, k + 1, sp, l, end);
            }
        } else {
            assert(b[k].spec_instruction() == ins);
            assert forall|s1: Store, l1: Seq<Value>| #[trigger] plain_step(m, s, l, ins, s1, l1) implies straight_ends(
                m,
                b,
                k + 1,
                s1,
                l1,
                end,
            ) by {
                lemma_straight_same(m, a, b, k + 1, s1, l1, end);
            }
        }
    }
}

/// Whether `exec_plain` runs the instruction `ins` well from the store `s0` and
/// the locals `l0`, in the module instance `m`: the local, global, operands and
/// memory that it needs are there and it does not trap. `None` for an operation
/// of the float unit, whose success is the unit's to say. An instruction that
/// changes the flow of control, and `nop`, are not run here.
pub open spec fn plain_runnable(m: ModuleInstance, s0: Store, l0: Seq<Value>, ins: Instruction) -> Option<bool> {
    let st = s0.stack@;
    let n = st.len();
    match ins {
        Instruction::OP_LOCAL_GET(idx) => Some((idx as int) < l0.len()),
        Instruction::OP_LOCAL_SET(_) => Some(top_value(st) is Some),
        Instruction::OP_LOCAL_TEE(_) => Some(top_value(st) is Some),
        Instruction::OP_GLOBAL_GET(idx) => Some((idx as int) < s0.globals@.len()),
        Instruction::OP_GLOBAL_SET(idx) => Some(
            top_value(st) is Some && (idx as int) < s0.globals@.len() && s0.globals@[idx as int].mutable,
        ),
        Instruction::OP_I32_CONST(_) => Some(true),
        Instruction::OP_I64_CONST(_) => Some(true),
        Instruction::OP_F32_CONST(_) => Some(true),
        Instruction::OP_F64_CONST(_) => Some(true),
        Instruction::OP_DROP => Some(true),
        Instruction::OP_SELECT => Some(
            n >= 3 && st[n - 2] is Value && st[n - 3] is Value && st[n - 1] matches StackContent::Value(Value::I32(_)),
        ),
        Instruction::OP_MEMORY_SIZE => Some(spec_memory_size(m.spec_mem_addrs(), s0.memory@) is Some),
        Instruction::OP_MEMORY_GROW => Some(
            first_memory(m.spec_mem_addrs(), s0.memory@) is Some && match top_value(st) {
                Some(Value::I32(k)) => k >= 0,
                _ => false,
            },
        ),
        _ => if load_width(ins) is Some {
            Some(spec_load_at(ins, spec_memarg(ins), st, m.spec_mem_addrs(), s0.memory@) is Some)
        } else if is_store(ins) {
            Some(spec_store_at(ins, spec_memarg(ins), st, m.spec_mem_addrs(), s0.memory@) is Some)
        } else if is_unary(ins) {
            match top_value(st) {
                Some(v) => match spec_unary(ins, v) {
                    Step::Value(_) => Some(true),
                    Step::Trap(_) => Some(false),
                    _ => None,
                },
                None => Some(false),
            }
        } else if spec_binary_kind(ins) is Some {
            if n >= 2 && st[n - 1] is Value && st[n - 2] is Value {
                match spec_binary(spec_binary_kind(ins).unwrap(), st[n - 2]->Value_0, st[n - 1]->Value_0) {
                    Step::Value(_) => Some(true),
                    Step::Trap(_) => Some(false),
                    _ => None,
                }
            } else {
                Some(false)
            }
        } else {
            Some(false)
        },
    }
}

impl<P: ProgramCounter, F: FloatUnit> Engine<P, F> {
    /// Runs an instruction that does not change the flow of control.
    fn exec_plain(&mut self, fr: &mut Frame, ins: &Instruction) -> (r: EResult<()>)
        ensures
            final(self).module == old(self).module,
            final(self).debugger == old(self).debugger,
            keeps(old(self).store, final(self).store),
            final(fr).arity == old(fr).arity,
            r is Ok ==> plain_step(old(self).module, old(self).store, old(fr).locals@, *ins, final(self).store, final(fr).locals@),
            plain_runnable(old(self).module, old(self).store, old(fr).locals@, *ins) == Some(true) ==> r is Ok,
            plain_runnable(old(self).module, old(self).store, old(fr).locals@, *ins) == Some(false) ==> r is Err,
    {
        let ghost s0 = self.store;
        let r = match ins {
            Instruction::OP_LOCAL_GET(idx) => self.local_get(*idx, fr),
            Instruction::OP_LOCAL_SET(idx) => self.local_set(*idx, fr),
            Instruction::OP_LOCAL_TEE(idx) => self.local_tee(*idx, fr),
            Instruction::OP_GLOBAL_GET(idx) => self.global_get(*idx),
            Instruction::OP_GLOBAL_SET(idx) => self.global_set(*idx),
            Instruction::OP_I32_CONST(v) => {
                self.push_value(Value::I32(*v));
                Ok(())
            },
            Instruction::OP_I64_CONST(v) => {
                self.push_value(Value::I64(*v));
                Ok(())
            },
            Instruction::OP_F32_CONST(v) => {
                self.push_value(Value::F32(*v));
                Ok(())
            },
            Instruction::OP_F64_CONST(v) => {
                self.push_value(Value::F64(*v));
                Ok(())
            },
            Instruction::OP_DROP => {
                self.drop_top();
                proof {
                    if s0.stack@.len() == 0 {
                        assert(self.store.stack@ =~= s0.stack@);
                    }
                }
                Ok(())
            },
            Instruction::OP_SELECT => self.select(),
            Instruction::OP_MEMORY_SIZE => self.memory_size(),
            Instruction::OP_MEMORY_GROW => self.memory_grow(),
            _ => {
                if load_instruction(ins) {
                    self.exec_load(ins, memarg_of(ins))
                } else if store_instruction(ins) {
                    self.exec_store(ins, memarg_of(ins))
                } else if unary_instruction(ins) {
                    self.exec_unary(ins)
                } else if binary_kind(ins).is_some() {
                    self.exec_binary(ins)
                } else {
                    Err("Instruction cannot run here")
                }
            },
        };
        r
    }

    /// Runs an instruction that leaves the flow of control alone, once the program
    /// counter has answered `pc`: an error of the counter is the step's error and
    /// nothing changes; `nop` changes nothing; any other instruction runs as
    /// `exec_plain` says.
    pub fn step(&mut self, fr: &mut Frame, ins: &Instruction, pc: Result<(), &'static str>) -> (r: EResult<()>)
        requires
            is_plain(*ins),
        ensures
            final(self).module == old(self).module,
            final(self).debugger == old(self).debugger,
            keeps(old(self).store, final(self).store),
            final(fr).arity == old(fr).arity,
            pc matches Err(e) ==> r == Err::<(), &'static str>(e) && final(self).store == old(self).store
                && final(fr).locals@ == old(fr).locals@,
            pc is Ok && *ins is OP_NOP ==> r is Ok && final(self).store == old(self).store && final(fr).locals@
                == old(fr).locals@,
            pc is Ok && r is Ok ==> plain_step(old(self).module, old(self).store, old(fr).locals@, *ins, final(self).store, final(fr).locals@),
            pc is Ok && plain_runnable(old(self).module, old(self).store, old(fr).locals@, *ins) == Some(true) ==> r is Ok,
            pc is Ok && !(*ins is OP_NOP) && plain_runnable(old(self).module, old(self).store, old(fr).locals@, *ins) == Some(
                false,
            ) ==> r is Err,
    {
        proof {
            lemma_keeps_refl(self.store);
        }
        match pc {
            Err(e) => Err(e),
            Ok(()) => match ins {
                Instruction::OP_NOP => Ok(()),
                _ => self.exec_plain(fr, ins),
            },
        }
    }

    /// Takes `n` values off the top of the stack and returns them in their order
    /// on the stack.
    pub fn extract_args_of_stack(&mut self, n: usize) -> (r: EResult<Vec<Value>>)
        ensures
            final(self).module == old(self).module,
            final(self).debugger == old(self).debugger,
            only_stack(old(self).store, final(self).store),
            ({
                let s = old(self).store.stack@;
                if n <= s.len() && forall|i: int| s.len() - n <= i < s.len() ==> #[trigger] s[i] is Value {
                    r matches Ok(v) && v@.len() == n && final(self).store.stack@ == s.subrange(0, s.len() - n)
                        && forall|i: int| 0 <= i < n ==> StackContent::Value(#[trigger] v@[i]) == s[s.len() - n + i]
                } else {
                    r is Err
                }
            }),
    {
        let ghost s = self.store.stack@;
        let mut args: Vec<Value> = Vec::new();
        let mut k: usize = 0;
        while k < n
            invariant
                k <= n,
                self.module == old(self).module,
                self.debugger == old(self).debugger,
                only_stack(old(self).store, self.store),
                s == old(self).store.stack@,
                k <= s.len(),
                self.store.stack@ == s.subrange(0, s.len() - k),
                args@.len() == k,
                forall|i: int| 0 <= i < k ==> StackContent::Value(#[trigger] args@[i]) == s[s.len() - 1 - i],
            decreases n - k,
        {
            let ghost before = self.store.stack@;
            match self.store.stack.pop() {
                Some(StackContent::Value(v)) => {
                    args.push(v);
                    proof {
                        assert(before.drop_last() =~= s.subrange(0, s.len() - (k + 1)));
                    }
                },
                _ => {
                    proof {
                        if n <= s.len() {
                            assert(!(s[s.len() - 1 - k] is Value));
                        }
                    }
                    return Err("No value left at the stack.");
                },
            }
            k = k + 1;
        }
        let mut out: Vec<Value> = Vec::new();
        let mut j: usize = n;
        while j > 0
            invariant
                j <= n,
                args@.len() == n,
                out@.len() == n - j,
                forall|i: int| 0 <= i < n - j ==> #[trigger] out@[i] == args@[n - 1 - i],
            decreases j,
        {
            out.push(args[j - 1]);
            j = j - 1;
        }
        proof {
            assert forall|i: int| s.len() - n <= i < s.len() implies #[trigger] s[i] is Value by {
                let t = s.len() - 1 - i;
                assert(StackContent::Value(args@[t]) == s[s.len() - 1 - t]);
            }
            assert forall|i: int| 0 <= i < n implies StackContent::Value(#[trigger] out@[i]) == s[s.len() - n + i] by {
                assert(out@[i] == args@[n - 1 - i]);
            }
        }
        Ok(out)
    }

    /// Checks that the arguments have the parameter types of the function.
    fn check_parameters_of_function(&self, func_addr: &FuncAddr, args: &[Value]) -> (r: EResult<()>)
        ensures
            r is Ok <==> args_fit(self.store, *func_addr, args@),
            func_addr.0 < self.store.funcs@.len() && !args_fit(self.store, *func_addr, args@)
                ==> r == Err::<(), &'static str>("Function expected different parameters!"),
    {
        let f = match self.store.get_func_instance(func_addr) {
            Ok(f) => f,
            Err(e) => {
                return Err(e);
            },
        };
        let params = &f.ty.param_types;
        if params.len() != args.len() {
            proof {
                assert(types_of_values(args@).len() == args@.len());
            }
            return Err("Function expected different parameters!");
        }
        let mut i: usize = 0;
        while i < args.len()
            invariant
                i <= args@.len(),
                params@.len() == args@.len(),
                func_addr.0 < self.store.funcs@.len(),
                params@ == self.store.funcs@[func_addr.0 as int].ty.param_types@,
                forall|k: int| 0 <= k < i ==> params@[k] == spec_type_of(#[trigger] args@[k]),
            decreases args@.len() - i,
        {
            if params[i] != args[i].value_type() {
                proof {
                    assert(types_of_values(args@)[i as int] == spec_type_of(args@[i as int]));
                }
                return Err("Function expected different parameters!");
            }
            i = i + 1;
        }
        proof {
            assert(params@ =~= types_of_values(args@));
        }
        Ok(())
    }

    /// Calls the function at `func_addr` with `args`: checks the arguments,
    /// pushes a frame with the arguments and the zeroed locals and a label, and
    /// runs the function.
    pub fn invoke_function(&mut self, func_addr: FuncAddr, args: Vec<Value>, fuel: u64) -> (r: (EResult<()>, u64))
        ensures
            final(self).module == old(self).module,
            old(self).debugger.never_fails() ==> final(self).debugger.never_fails(),
            old(self).debugger.remembers() ==> final(self).debugger.remembers(),
            keeps(old(self).store, final(self).store),
            r.1 <= fuel,
            !args_fit(old(self).store, func_addr, args@) ==> r.0 is Err && final(self).store == old(self).store,
            func_addr.0 < old(self).store.funcs@.len() && !args_fit(old(self).store, func_addr, args@)
                ==> r.0 == Err::<(), &'static str>("Function expected different parameters!"),
            args_fit(old(self).store, func_addr, args@) && old(self).debugger.never_fails() && straight_call(
                old(self).module,
                old(self).store,
                func_addr,
                args@,
                fuel as nat,
            ) ==> r == (Ok::<(), &'static str>(()), (fuel - old(self).store.funcs@[func_addr.0 as int].code.code@.len()) as u64),
            args_fit(old(self).store, func_addr, args@) && old(self).store.funcs@[func_addr.0 as int].code.code@.len() == 0
                && old(self).store.funcs@[func_addr.0 as int].ty.return_types@.len() == 0 ==> {
                &&& r == (Ok::<(), &'static str>(()), fuel)
                &&& only_stack(old(self).store, final(self).store)
                &&& final(self).store.stack@ == old(self).store.stack@
            },
            args_fit(old(self).store, func_addr, args@) && r.0 is Ok ==> call_runs(
                old(self).module,
                old(self).store,
                func_addr,
                args@,
                fuel as nat,
                final(self).store,
                r.1 as nat,
            ),
        decreases fuel, 3int,
    {
        match self.check_parameters_of_function(&func_addr, args.as_slice()) {
            Err(e) => {
                return (Err(e), fuel);
            },
            Ok(()) => {},
        }
        let n: u32;
        let ghost args_view = args@;
        let mut locals = args;
        {
            let f = &self.store.funcs[func_addr.0];
            n = f.ty.return_types.len() as u32;
            let entries = &f.code.locals;
            let mut i: usize = 0;
            while i < entries.len()
                invariant
                    i <= entries@.len(),
                    locals@ == args_view + zero_locals(entries@.subrange(0, i as int)),
                decreases entries@.len() - i,
            {
                let entry = entries[i];
                let ghost before = locals@;
                let mut c: u32 = 0;
                while c < entry.count
                    invariant
                        c <= entry.count,
                        locals@ == before + Seq::new(c as nat, |j: int| spec_zero_of(entry.ty)),
                    decreases entry.count - c,
                {
                    locals.push(Value::zero_of(entry.ty));
                    c = c + 1;
                    proof {
                        assert(locals@ =~= before + Seq::new(c as nat, |j: int| spec_zero_of(entry.ty)));
                    }
                }
                proof {
                    let e2 = entries@.subrange(0, i + 1);
                    assert(e2.drop_last() =~= entries@.subrange(0, i as int));
                    assert(e2.last() == entry);
                    assert(locals@ =~= args_view + zero_locals(e2));
                }
                i = i + 1;
            }
            proof {
                assert(entries@.subrange(0, entries@.len() as int) =~= entries@);
            }
        }
        let mut frame = Frame { arity: n, locals };
        let ghost s0 = self.store;
        let ghost s0_module = self.module;
        self.store.stack.push(StackContent::Frame(frame.copy()));
        self.store.stack.push(StackContent::Label(Label::new(n, 0)));
        proof {
            lemma_only_stack_keeps(s0, self.store);
        }
        let ghost s1 = self.store;
        let ghost l1 = frame.locals@;
        proof {
            let st = s1.stack@;
            if n == 0 {
                assert(st.last() is Label);
                assert(trailing_values(st) == 0);
                assert(st.subrange(st.len() - 0, st.len() as int) =~= Seq::<StackContent>::empty());
                assert(spec_exit_block(st) == Some(st.subrange(0, st.len() - 1)));
                assert(st.subrange(0, st.len() - 1).drop_last() =~= s0.stack@);
            }
        }
        proof {
            let f = s0.funcs@[func_addr.0 as int];
            assert(l1 == args_view + zero_locals(f.code.locals@));
            assert(n == f.ty.return_types@.len() as u32);
            assert(s1.stack@.subrange(0, s0.stack@.len() as int) =~= s0.stack@);
            assert(entered(s0, s1, n, l1));
        }
        let r = self.run_function(&mut frame, &func_addr, fuel);
        proof {
            lemma_keeps_trans(s0, s1, self.store);
            let code = s0.funcs@[func_addr.0 as int].code.code@;
            if r.0 is Ok {
                reveal_with_fuel(call_runs, 2);
                let code2 = choose|code2: Seq<InstructionWrapper>|
                    #[trigger] same_wrapped(code, code2) && function_runs(s0_module, code2, fuel as nat, s1, l1, n, self.store, r.1 as nat);
                let f = s0.funcs@[func_addr.0 as int];
                assert(l1 == args_view + zero_locals(f.code.locals@));
                assert(n == f.ty.return_types@.len() as u32);
                assert(function_runs(s0_module, code2, fuel as nat, s1, l1, n, self.store, r.1 as nat));
                assert(same_wrapped(code, code2));
                assert(only_stack(s0, s1));
                assert(s1.stack@.len() == s0.stack@.len() + 2);
                assert(s1.stack@.subrange(0, s0.stack@.len() as int) == s0.stack@);
                assert(s1.stack@[s0.stack@.len() as int + 1] == StackContent::Label(label_of(n, 0)));
                assert(s1.stack@[s0.stack@.len() as int] matches StackContent::Frame(f0) && f0.arity == n && f0.locals@ == l1);
            }
        }
        r
    }

    /// Runs the code of the function at `func_addr` in the frame `fr`, leaves its
    /// block, and replaces the frame on the stack by the function's results.
    pub fn run_function(&mut self, fr: &mut Frame, func_addr: &FuncAddr, fuel: u64) -> (r: (EResult<()>, u64))
        ensures
            final(self).module == old(self).module,
            old(self).debugger.never_fails() ==> final(self).debugger.never_fails(),
            old(self).debugger.remembers() ==> final(self).debugger.remembers(),
            keeps(old(self).store, final(self).store),
            r.1 <= fuel,
            ({
                let orig = old(self).store.funcs@[func_addr.0 as int].code.code@;
                func_addr.0 < old(self).store.funcs@.len() && r.0 is Ok ==> exists|code: Seq<InstructionWrapper>|
                    #[trigger] same_wrapped(orig, code) && function_runs(
                        old(self).module,
                        code,
                        fuel as nat,
                        old(self).store,
                        old(fr).locals@,
                        old(fr).arity,
                        final(self).store,
                        r.1 as nat,
                    )
            }),
            func_addr.0 < old(self).store.funcs@.len() && old(self).store.funcs@[func_addr.0 as int].code.code@.len() == 0
                && old(fr).arity == 0 && spec_exit_block(old(self).store.stack@) is Some
                && spec_exit_block(old(self).store.stack@).unwrap().len() > 0
                && spec_exit_block(old(self).store.stack@).unwrap().last() is Frame ==> {
                &&& r == (Ok::<(), &'static str>(()), fuel)
                &&& only_stack(old(self).store, final(self).store)
                &&& final(self).store.stack@ == spec_exit_block(old(self).store.stack@).unwrap().drop_last()
            },
            ({
                let orig = old(self).store.funcs@[func_addr.0 as int].code.code@;
                func_addr.0 < old(self).store.funcs@.len() && old(self).debugger.never_fails() && orig.len() <= fuel
                    && straight_ends(old(self).module, orig, 0, old(self).store, old(fr).locals@, leaves_frame(old(fr).arity))
                    ==> r == (Ok::<(), &'static str>(()), (fuel - orig.len()) as u64)
            }),
        decreases fuel, 2int,
    {
        let code: Vec<InstructionWrapper> = match self.store.get_func_instance(func_addr) {
            Ok(f) => clone_wrapped(&f.code.code),
            Err(e) => {
                return (Err(e), fuel);
            },
        };
        let ghost body = self.store.funcs@[func_addr.0 as int].code.code@;
        proof {
            lemma_same_wrapped_len(body, code@);
            if straight_ends(self.module, body, 0, self.store, fr.locals@, leaves_frame(fr.arity)) {
                lemma_straight_same(self.module, body, code@, 0, self.store, fr.locals@, leaves_frame(fr.arity));
            }
        }
        let ghost m = self.module;
        let ghost l0 = fr.locals@;
        let ghost s0 = self.store;
        let (res, left) = self.run_instructions(fr, code.as_slice(), fuel);
        let ghost s1 = self.store;
        let ghost out = res->Ok_0;
        match res {
            Err(e) => {
                return (Err(e), left);
            },
            Ok(InstructionOutcome::BRANCH(_)) => {},
            Ok(_) => {
                match self.exit_block() {
                    Err(e) => {
                        proof {
                            lemma_only_stack_keeps(s1, self.store);
                            lemma_keeps_trans(s0, s1, self.store);
                        }
                        return (Err(e), left);
                    },
                    Ok(()) => {},
                }
            },
        }
        let ghost s2 = self.store;
        proof {
            lemma_only_stack_keeps(s1, s2);
            lemma_keeps_trans(s0, s1, s2);
        }
        let ghost t = self.store.stack@;
        let len = self.store.stack.len();
        let count = if (fr.arity as usize) < len {
            fr.arity as usize
        } else {
            len
        };
        let mut ret = self.store.stack.split_off(len - count);
        match self.store.stack.pop() {
            Some(StackContent::Frame(_)) => {},
            _ => {
                proof {
                    lemma_only_stack_keeps(s2, self.store);
                    lemma_keeps_trans(s0, s2, self.store);
                }
                return (Err("Cannot remove frame"), left);
            },
        }
        self.store.stack.append(&mut ret);
        proof {
            lemma_only_stack_keeps(s2, self.store);
            lemma_keeps_trans(s0, s2, self.store);
            assert(self.store.stack@ =~= t.subrange(0, len - count - 1) + t.subrange(len - count, len as int));
            lemma_function_runs_intro(m, code@, fuel as nat, s0, l0, fr.arity, self.store, left as nat, out, s1, fr.locals@);
            assert(same_wrapped(body, code@));
        }
        (Ok(()), left)
    }

    /// Calls the function at `func_addr`, taking its arguments off the stack.
    pub fn call_function(&mut self, func_addr: FuncAddr, fuel: u64) -> (r: (EResult<()>, u64))
        ensures
            final(self).module == old(self).module,
            old(self).debugger.never_fails() ==> final(self).debugger.never_fails(),
            old(self).debugger.remembers() ==> final(self).debugger.remembers(),
            keeps(old(self).store, final(self).store),
            r.1 <= fuel,
            func_addr.0 >= old(self).store.funcs@.len() ==> r.0 is Err && final(self).store == old(self).store,
            ({
                let f = old(self).store.funcs@[func_addr.0 as int];
                let s = old(self).store.stack@;
                let n = f.ty.param_types@.len();
                func_addr.0 < old(self).store.funcs@.len() ==> match call_args(s, n) {
                    None => r.0 is Err,
                    Some(args) => {
                        !args_fit(old(self).store, func_addr, args) ==> r.0 is Err
                    },
                }
            }),
            r.0 is Ok ==> call_step(old(self).module, old(self).store, func_addr, fuel as nat, final(self).store, r.1 as nat),
            old(self).debugger.never_fails() && straight_call_from_stack(old(self).module, old(self).store, func_addr, fuel as nat)
                ==> r == (Ok::<(), &'static str>(()), (fuel - old(self).store.funcs@[func_addr.0 as int].code.code@.len()) as u64),
        decreases fuel, 4int,
    {
        let param_count = match self.store.get_func_instance(&func_addr) {
            Ok(f) => f.ty.param_types.len(),
            Err(e) => {
                return (Err(e), fuel);
            },
        };
        let ghost s0 = self.store;
        let args = match self.extract_args_of_stack(param_count) {
            Ok(a) => a,
            Err(e) => {
                proof {
                    lemma_only_stack_keeps(s0, self.store);
                }
                return (Err(e), fuel);
            },
        };
        let ghost s1 = self.store;
        proof {
            lemma_only_stack_keeps(s0, s1);
            let n = param_count as nat;
            assert(args@ =~= call_args(s0.stack@, n).unwrap());
        }
        let ghost args_view = args@;
        let ghost m = self.module;
        proof {
            let n = param_count as int;
            assert(s1.stack@ == s0.stack@.subrange(0, s0.stack@.len() - n));
            assert(only_stack(s0, s1));
        }
        let r = self.invoke_function(func_addr, args, fuel);
        proof {
            lemma_keeps_trans(s0, s1, self.store);
            if r.0 is Ok {
                reveal_with_fuel(call_step, 2);
                assert(args_fit(s0, func_addr, args_view));
                assert(only_stack(s0, s1));
                assert(call_runs(m, s1, func_addr, args_view, fuel as nat, self.store, r.1 as nat));
            }
        }
        r
    }

    /// `call_indirect`: takes an `i32` index off the stack, and calls the function
    /// at that index of the first table, taking its arguments off the stack.
    pub fn call_indirect_function(&mut self, fuel: u64) -> (r: (EResult<()>, u64))
        ensures
            final(self).module == old(self).module,
            old(self).debugger.never_fails() ==> final(self).debugger.never_fails(),
            old(self).debugger.remembers() ==> final(self).debugger.remembers(),
            keeps(old(self).store, final(self).store),
            r.1 <= fuel,
            indirect_target(old(self).module.spec_table_addrs(), old(self).store) is None ==> r.0 is Err,
            r.0 is Ok ==> exists|a: FuncAddr, sp: Store|
                #[trigger] call_step(old(self).module, sp, a, fuel as nat, final(self).store, r.1 as nat)
                    && indirect_target(old(self).module.spec_table_addrs(), old(self).store) == Some(a) && popped(old(self).store, sp),
            ({
                let t = indirect_target(old(self).module.spec_table_addrs(), old(self).store);
                old(self).debugger.never_fails() && t is Some && (forall|sp: Store|
                    #[trigger] popped(old(self).store, sp) ==> straight_call_from_stack(old(self).module, sp, t.unwrap(), fuel as nat))
                    ==> r == (Ok::<(), &'static str>(()), (fuel - old(self).store.funcs@[t.unwrap().0 as int].code.code@.len()) as u64)
            }),
        decreases fuel, 5int,
    {
        let ta = match self.module.lookup_table_addr(&0) {
            Some(a) => a.0,
            None => {
                return (Err("Cannot find first table addr"), fuel);
            },
        };
        if ta >= self.store.tables.len() {
            return (Err("Cannot access table"), fuel);
        }
        let ghost s0 = self.store;
        let i = match self.pop_value() {
            Ok(Value::I32(x)) => x,
            _ => {
                proof {
                    lemma_only_stack_keeps(s0, self.store);
                }
                return (Err("invalid index type"), fuel);
            },
        };
        proof {
            lemma_only_stack_keeps(s0, self.store);
        }
        let k = i as usize;
        if k >= self.store.tables[ta].elem.len() {
            return (Err("Attempt to perform indirect call to index larger than the table"), fuel);
        }
        let addr = match &self.store.tables[ta].elem[k] {
            Some(a) => FuncAddr(a.0),
            None => {
                return (Err("Accessed element is not defined"), fuel);
            },
        };
        let ghost s1 = self.store;
        let ghost m = self.module;
        proof {
            assert(indirect_target(m.spec_table_addrs(), s0) == Some(addr));
            assert(popped(s0, s1));
        }
        let r = self.call_function(addr, fuel);
        proof {
            lemma_keeps_trans(s0, s1, self.store);
            if r.0 is Ok {
                assert(call_step(m, s1, addr, fuel as nat, self.store, r.1 as nat));
            }
        }
        r
    }

    /// Enters a block with the given arity and runs its instructions.
    fn run_block(&mut self, fr: &mut Frame, ty: &BlockType, block: &CodeBlock, arity: u32, fuel: u64) -> (r: (
        EResult<InstructionOutcome>,
        u64,
    ))
        ensures
            final(self).module == old(self).module,
            old(self).debugger.never_fails() ==> final(self).debugger.never_fails(),
            old(self).debugger.remembers() ==> final(self).debugger.remembers(),
            keeps(old(self).store, final(self).store),
            fuel_used(fuel, r),
            final(fr).arity == old(fr).arity,
            r.0 is Ok ==> exists|se: Store|
                #[trigger] only_stack(old(self).store, se) && enter_block(
                    old(self).module,
                    old(self).store.stack@,
                    *ty,
                    arity,
                    block.spec_block_id(),
                ) == Some(se.stack@) && runs(
                    old(self).module,
                    block.spec_instructions(),
                    0,
                    fuel as nat,
                    se,
                    old(fr).locals@,
                    r.0->Ok_0,
                    final(self).store,
                    final(fr).locals@,
                    r.1 as nat,
                ),
        decreases fuel, 1int,
    {
        let ghost s0 = self.store;
        match self.setup_stack_for_entering_block(ty, block.get_block_id(), arity) {
            Err(e) => {
                proof {
                    lemma_only_stack_keeps(s0, self.store);
                }
                return (Err(e), fuel);
            },
            Ok(()) => {},
        }
        let ghost s1 = self.store;
        proof {
            lemma_only_stack_keeps(s0, s1);
        }
        let r = self.run_instructions(fr, block.get_instructions(), fuel);
        proof {
            lemma_keeps_trans(s0, s1, self.store);
            if r.0 is Ok {
                assert(only_stack(s0, s1));
            }
        }
        r
    }

    /// Leaves a block after it ended as `outcome` says: a branch out of more than
    /// this block goes on outwards, a return leaves the block and goes on, a
    /// normal end leaves the block. `None` means that the code after the block
    /// runs on.
    fn after_block(&mut self, outcome: InstructionOutcome) -> (r: Option<EResult<InstructionOutcome>>)
        ensures
            final(self).module == old(self).module,
            final(self).debugger == old(self).debugger,
            keeps(old(self).store, final(self).store),
            only_stack(old(self).store, final(self).store),
            r matches Some(Ok(o)) ==> !(o is EXIT) && !(outcome is EXIT),
            match outcome {
                InstructionOutcome::BRANCH(k) => if k == 0 {
                    r is None && final(self).store == old(self).store
                } else {
                    r == Some(Ok::<InstructionOutcome, &'static str>(InstructionOutcome::BRANCH((k - 1) as u32)))
                        && final(self).store == old(self).store
                },
                InstructionOutcome::RETURN => match spec_exit_block(old(self).store.stack@) {
                    Some(t) => r == Some(Ok::<InstructionOutcome, &'static str>(InstructionOutcome::RETURN))
                        && final(self).store.stack@ == t,
                    None => r matches Some(Err(_)),
                },
                InstructionOutcome::EXIT => match spec_exit_block(old(self).store.stack@) {
                    Some(t) => r is None && final(self).store.stack@ == t,
                    None => r matches Some(Err(_)),
                },
            },
    {
        let ghost s0 = self.store;
        let r = match outcome {
            InstructionOutcome::BRANCH(0) => None,
            InstructionOutcome::BRANCH(x) => Some(Ok(InstructionOutcome::BRANCH(x - 1))),
            InstructionOutcome::RETURN => match self.exit_block() {
                Err(e) => Some(Err(e)),
                Ok(()) => Some(Ok(InstructionOutcome::RETURN)),
            },
            InstructionOutcome::EXIT => match self.exit_block() {
                Err(e) => Some(Err(e)),
                Ok(()) => None,
            },
        };
        proof {
            lemma_only_stack_keeps(s0, self.store);
        }
        r
    }

    /// Runs a sequence of instructions in the frame `fr`, until its end, a branch
    /// out of it, a return, or an error. A run that ends well ends as `runs`
    /// says.
    pub fn run_instructions(&mut self, fr: &mut Frame, code: &[InstructionWrapper], fuel: u64) -> (r: (
        EResult<InstructionOutcome>,
        u64,
    ))
        ensures
            final(self).module == old(self).module,
            old(self).debugger.never_fails() ==> final(self).debugger.never_fails(),
            old(self).debugger.remembers() ==> final(self).debugger.remembers(),
            keeps(old(self).store, final(self).store),
            fuel_used(fuel, r),
            code@.len() == 0 ==> r == (Ok::<InstructionOutcome, &'static str>(InstructionOutcome::EXIT), fuel)
                && final(self).store == old(self).store,
            code@.len() > 0 && fuel == 0 ==> r.0 == Err::<InstructionOutcome, &'static str>("Out of fuel")
                && final(self).store == old(self).store,
            code@.len() > 0 && fuel > 0 && code@[0].spec_instruction() is OP_UNREACHABLE ==> r.0 is Err
                && final(self).store == old(self).store && final(fr).locals@ == old(fr).locals@,
            old(self).debugger.remembers() && code@.len() > 0 && fuel > 0 && (code@[0].spec_instruction() is OP_UNREACHABLE
                || code@[0].spec_instruction() is OP_RETURN) ==> final(self).debugger.last_told() == code@[0].spec_id(),
            old(self).debugger.never_fails() && code@.len() > 0 && fuel > 0 && code@[0].spec_instruction() is OP_RETURN
                ==> r == (Ok::<InstructionOutcome, &'static str>(InstructionOutcome::RETURN), (fuel - 1) as u64)
                && final(self).store == old(self).store && final(fr).locals@ == old(fr).locals@,
            forall|end: spec_fn(Store, Seq<Value>) -> bool|
                #[trigger] straight_ends(old(self).module, code@, 0, old(self).store, old(fr).locals@, end)
                    && old(self).debugger.never_fails() && code@.len() <= fuel ==> r == (Ok::<
                    InstructionOutcome,
                    &'static str,
                >(InstructionOutcome::EXIT), (fuel - code@.len()) as u64) && end(final(self).store, final(fr).locals@),
            old(self).debugger.remembers() && r.0 == Ok::<InstructionOutcome, &'static str>(InstructionOutcome::EXIT)
                && code@.len() > 0 && is_plain(code@.last().spec_instruction()) ==> final(self).debugger.last_told()
                == code@.last().spec_id(),
            final(fr).arity == old(fr).arity,
            r.0 is Ok ==> runs(
                old(self).module,
                code@,
                0,
                fuel as nat,
                old(self).store,
                old(fr).locals@,
                r.0->Ok_0,
                final(self).store,
                final(fr).locals@,
                r.1 as nat,
            ),
        decreases fuel, 0int,
    {
        let ghost m = self.module;
        let mut left = fuel;
        let mut i: usize = 0;
        proof {
            lemma_keeps_refl(self.store);
        }
        while i < code.len()
            invariant
                i <= code@.len(),
                left <= fuel,
                self.module == old(self).module,
                m == old(self).module,
                keeps(old(self).store, self.store),
                i == 0 ==> self.store == old(self).store && left == fuel && self.debugger == old(self).debugger
                    && fr.locals@ == old(fr).locals@,
                i > 0 ==> !(code@[0].spec_instruction() is OP_UNREACHABLE) && !(code@[0].spec_instruction() is OP_RETURN),
                old(self).debugger.never_fails() ==> self.debugger.never_fails(),
                old(self).debugger.remembers() ==> self.debugger.remembers(),
                forall|end: spec_fn(Store, Seq<Value>) -> bool|
                    #[trigger] straight_ends(m, code@, 0, old(self).store, old(fr).locals@, end) && old(self).debugger.never_fails()
                        && code@.len() <= fuel ==> left == fuel - i && straight_ends(m, code@, i as int, self.store, fr.locals@, end),
                old(self).debugger.remembers() && i > 0 && is_plain(code@[i - 1].spec_instruction()) ==> self.debugger.last_told()
                    == code@[i - 1].spec_id(),
                fuel == 0 ==> i == 0,
                fr.arity == old(fr).arity,
                forall|out: InstructionOutcome, sf: Store, lf: Seq<Value>, ff: nat|
                    #[trigger] runs(m, code@, i as int, left as nat, self.store, fr.locals@, out, sf, lf, ff)
                        ==> runs(m, code@, 0, fuel as nat, old(self).store, old(fr).locals@, out, sf, lf, ff),
            decreases code@.len() - i,
        {
            if left == 0 {
                return (Err("Out of fuel"), 0);
            }
            let ghost left0 = left;
            let ghost s_pre = self.store;
            let ghost l_pre = fr.locals@;
            left = left - 1;
            let w = &code[i];
            let ghost s0 = self.store;
            let pc = self.debugger.set_pc(BorrowedProgramState::new(w.get_id(), self.store.stack.as_slice(), fr.locals.as_slice()));
            let ins = w.get_instruction();
            if !plain_instruction(ins) {
                match pc {
                    Err(e) => {
                        return (Err(e), left);
                    },
                    Ok(()) => {},
                }
            }
            match ins {
                Instruction::OP_BLOCK(ty, block) => {
                    let arity = match self.get_return_count_block(ty) {
                        Ok(a) => a,
                        Err(e) => {
                            return (Err(e), left);
                        },
                    };
                    let (res, l2) = self.run_block(fr, ty, block, arity, left);
                    left = l2;
                    proof {
                        lemma_keeps_trans(old(self).store, s_pre, self.store);
                    }
                    let outcome = match res {
                        Err(e) => {
                            return (Err(e), left);
                        },
                        Ok(o) => o,
                    };
                    let ghost s1 = self.store;
                    let ghost l1 = fr.locals@;
                    let ghost se = choose|se: Store|
                        #[trigger] only_stack(s_pre, se) && enter_block(m, s_pre.stack@, *ty, arity, block.spec_block_id()) == Some(se.stack@)
                            && runs(m, block.spec_instructions(), 0, (left0 - 1) as nat, se, l_pre, outcome, s1, l1, l2 as nat);
                    let after = self.after_block(outcome);
                    proof {
                        lemma_keeps_trans(old(self).store, s1, self.store);
                    }
                    match after {
                        Some(r) => {
                            proof {
                                if r is Ok {
                                    assert(block_after(m, code@, i as int, outcome, s1, l1, l2 as nat, r->Ok_0, self.store, fr.locals@, left as nat));
                                    lemma_block_runs_intro(m, code@, i as int, (left0 - 1) as nat, s_pre, l_pre, *ty, *block, arity, r->Ok_0, self.store, fr.locals@, left as nat, se, outcome, s1, l1, l2 as nat);
                                    lemma_runs_block(m, code@, i as int, left0 as nat, s_pre, l_pre, r->Ok_0, self.store, fr.locals@, left as nat, *ty, *block, arity);
                                }
                            }
                            return (r, left);
                        },
                        None => {
                            proof {
                                {
                                    assert forall|out: InstructionOutcome, sf: Store, lf: Seq<Value>, ff: nat|
                                        #[trigger] runs(m, code@, i + 1, left as nat, self.store, fr.locals@, out, sf, lf, ff)
                                            implies runs(m, code@, 0, fuel as nat, old(self).store, old(fr).locals@, out, sf, lf, ff) by {
                                        if outcome == InstructionOutcome::BRANCH(0) {
                                            lemma_block_after_branch(m, code@, i as int, s1, l1, l2 as nat, out, sf, lf, ff);
                                        } else {
                                            lemma_block_after_exit(m, code@, i as int, s1, l1, l2 as nat, out, sf, lf, ff, self.store);
                                        }
                                        lemma_block_runs_intro(m, code@, i as int, (left0 - 1) as nat, s_pre, l_pre, *ty, *block, arity, out, sf, lf, ff, se, outcome, s1, l1, l2 as nat);
                                        lemma_runs_block(m, code@, i as int, left0 as nat, s_pre, l_pre, out, sf, lf, ff, *ty, *block, arity);
                                    }
                                }
                            }
                        },
                    }
                },
                Instruction::OP_LOOP(ty, block) => {
                    let param_count = match self.get_param_count_block(ty) {
                        Ok(p) => p,
                        Err(e) => {
                            return (Err(e), left);
                        },
                    };
                    proof {
                        {
                            assert forall|out: InstructionOutcome, sf: Store, lf: Seq<Value>, ff: nat|
                                #[trigger] loop_runs(m, code@, i as int, left as nat, self.store, fr.locals@, *ty, *block, param_count, out, sf, lf, ff)
                                    implies runs(m, code@, 0, fuel as nat, old(self).store, old(fr).locals@, out, sf, lf, ff) by {
                                lemma_runs_loop(m, code@, i as int, left0 as nat, s_pre, l_pre, out, sf, lf, ff, *ty, *block, param_count);
                            }
                        }
                    }
                    loop
                        invariant_except_break
                            forall|out: InstructionOutcome, sf: Store, lf: Seq<Value>, ff: nat|
                                #[trigger] loop_runs(m, code@, i as int, left as nat, self.store, fr.locals@, *ty, *block, param_count, out, sf, lf, ff)
                                    ==> runs(m, code@, 0, fuel as nat, old(self).store, old(fr).locals@, out, sf, lf, ff),
                        invariant
                            left < fuel,
                            i < code@.len(),
                            !(code@[0].spec_instruction() is OP_UNREACHABLE) && !(code@[0].spec_instruction() is OP_RETURN),
                            forall|end: spec_fn(Store, Seq<Value>) -> bool|
                                !(#[trigger] straight_ends(m, code@, 0, old(self).store, old(fr).locals@, end)
                                    && old(self).debugger.never_fails() && code@.len() <= fuel),
                            old(self).debugger.never_fails() ==> self.debugger.never_fails(),
                            old(self).debugger.remembers() ==> self.debugger.remembers(),
                            self.module == old(self).module,
                            m == old(self).module,
                            keeps(old(self).store, self.store),
                            fr.arity == old(fr).arity,
                        ensures
                            forall|out: InstructionOutcome, sf: Store, lf: Seq<Value>, ff: nat|
                                #[trigger] runs(m, code@, i + 1, left as nat, self.store, fr.locals@, out, sf, lf, ff)
                                    ==> runs(m, code@, 0, fuel as nat, old(self).store, old(fr).locals@, out, sf, lf, ff),
                        decreases left,
                    {
                        let ghost s_it = self.store;
                        let ghost l_it = fr.locals@;
                        let ghost left_it = left;
                        let (res, l2) = self.run_block(fr, ty, block, param_count, left);
                        proof {
                            lemma_keeps_trans(old(self).store, s_it, self.store);
                        }
                        let outcome = match res {
                            Err(e) => {
                                return (Err(e), l2);
                            },
                            Ok(o) => o,
                        };
                        let ghost s_b = self.store;
                        let ghost l_b = fr.locals@;
                        let ghost se = choose|se: Store|
                            #[trigger] only_stack(s_it, se) && enter_block(m, s_it.stack@, *ty, param_count, block.spec_block_id()) == Some(se.stack@)
                                && runs(m, block.spec_instructions(), 0, left_it as nat, se, l_it, outcome, s_b, l_b, l2 as nat);
                        if outcome == InstructionOutcome::BRANCH(0) {
                            left = l2;
                            proof {
                                {
                                    assert forall|out: InstructionOutcome, sf: Store, lf: Seq<Value>, ff: nat|
                                        #[trigger] loop_runs(m, code@, i as int, left as nat, self.store, fr.locals@, *ty, *block, param_count, out, sf, lf, ff)
                                            implies runs(m, code@, 0, fuel as nat, old(self).store, old(fr).locals@, out, sf, lf, ff) by {
                                        assert(l2 < left_it);
                                        assert(only_stack(s_it, se));
                                        assert(runs(m, block.spec_instructions(), 0, left_it as nat, se, l_it, outcome, s_b, l_b, l2 as nat));
                                        assert(enter_block(m, s_it.stack@, *ty, param_count, block.spec_block_id()) == Some(se.stack@));
                                        lemma_loop_runs_intro(m, code@, i as int, left_it as nat, s_it, l_it, *ty, *block, param_count, out, sf, lf, ff, se, outcome, s_b, l_b, l2 as nat);
                                    }
                                }
                            }
                            continue ;
                        }
                        left = l2;
                        let after = self.after_block(outcome);
                        proof {
                            lemma_keeps_trans(old(self).store, s_b, self.store);
                        }
                        match after {
                            Some(r) => {
                                proof {
                                    if r is Ok {
                                        assert(block_after(m, code@, i as int, outcome, s_b, l_b, l2 as nat, r->Ok_0, self.store, fr.locals@, left as nat));
                                        lemma_loop_runs_intro(m, code@, i as int, left_it as nat, s_it, l_it, *ty, *block, param_count, r->Ok_0, self.store, fr.locals@, left as nat, se, outcome, s_b, l_b, l2 as nat);
                                    }
                                }
                                return (r, left);
                            },
                            None => {
                                proof {
                                    {
                                        assert forall|out: InstructionOutcome, sf: Store, lf: Seq<Value>, ff: nat|
                                            #[trigger] runs(m, code@, i + 1, left as nat, self.store, fr.locals@, out, sf, lf, ff)
                                                implies runs(m, code@, 0, fuel as nat, old(self).store, old(fr).locals@, out, sf, lf, ff) by {
                                            lemma_block_after_exit(m, code@, i as int, s_b, l_b, l2 as nat, out, sf, lf, ff, self.store);
                                            lemma_loop_runs_intro(m, code@, i as int, left_it as nat, s_it, l_it, *ty, *block, param_count, out, sf, lf, ff, se, outcome, s_b, l_b, l2 as nat);
                                        }
                                    }
                                }
                                break ;
                            },
                        }
                    }
                },
                Instruction::OP_IF(ty, block) => {
                    let c = match self.pop_value() {
                        Ok(Value::I32(c)) => c,
                        _ => {
                            return (Err("Value must be i32.const"), left);
                        },
                    };
                    let ghost s_p = self.store;
                    proof {
                        lemma_only_stack_keeps(s0, self.store);
                        lemma_keeps_trans(old(self).store, s0, self.store);
                    }
                    if c != 0 {
                        let arity = match self.get_return_count_block(ty) {
                            Ok(a) => a,
                            Err(e) => {
                                return (Err(e), left);
                            },
                        };
                        let (res, l2) = self.run_block(fr, ty, block, arity, left);
                        left = l2;
                        proof {
                            lemma_keeps_trans(old(self).store, s_p, self.store);
                        }
                        let outcome = match res {
                            Err(e) => {
                                return (Err(e), left);
                            },
                            Ok(o) => o,
                        };
                        let ghost s1 = self.store;
                        let ghost l1 = fr.locals@;
                        let ghost se = choose|se: Store|
                            #[trigger] only_stack(s_p, se) && enter_block(m, s_p.stack@, *ty, arity, block.spec_block_id()) == Some(se.stack@)
                                && runs(m, block.spec_instructions(), 0, (left0 - 1) as nat, se, l_pre, outcome, s1, l1, l2 as nat);
                        let after = self.after_block(outcome);
                        proof {
                            lemma_keeps_trans(old(self).store, s1, self.store);
                        }
                        match after {
                            Some(r) => {
                                proof {
                                    if r is Ok {
                                        assert(block_after(m, code@, i as int, outcome, s1, l1, l2 as nat, r->Ok_0, self.store, fr.locals@, left as nat));
                                        lemma_block_runs_intro(m, code@, i as int, (left0 - 1) as nat, s_p, l_pre, *ty, *block, arity, r->Ok_0, self.store, fr.locals@, left as nat, se, outcome, s1, l1, l2 as nat);
                                        lemma_runs_if(m, code@, i as int, left0 as nat, s_pre, l_pre, r->Ok_0, self.store, fr.locals@, left as nat, *ty, *block, c, arity, s_p);
                                    }
                                }
                                return (r, left);
                            },
                            None => {
                                proof {
                                    {
                                        assert forall|out: InstructionOutcome, sf: Store, lf: Seq<Value>, ff: nat|
                                            #[trigger] runs(m, code@, i + 1, left as nat, self.store, fr.locals@, out, sf, lf, ff)
                                                implies runs(m, code@, 0, fuel as nat, old(self).store, old(fr).locals@, out, sf, lf, ff) by {
                                            if outcome == InstructionOutcome::BRANCH(0) {
                                                lemma_block_after_branch(m, code@, i as int, s1, l1, l2 as nat, out, sf, lf, ff);
                                            } else {
                                                lemma_block_after_exit(m, code@, i as int, s1, l1, l2 as nat, out, sf, lf, ff, self.store);
                                            }
                                            lemma_block_runs_intro(m, code@, i as int, (left0 - 1) as nat, s_p, l_pre, *ty, *block, arity, out, sf, lf, ff, se, outcome, s1, l1, l2 as nat);
                                            lemma_runs_if(m, code@, i as int, left0 as nat, s_pre, l_pre, out, sf, lf, ff, *ty, *block, c, arity, s_p);
                                        }
                                    }
                                }
                            },
                        }
                    } else {
                        proof {
                            {
                                assert forall|out: InstructionOutcome, sf: Store, lf: Seq<Value>, ff: nat|
                                    #[trigger] runs(m, code@, i + 1, left as nat, self.store, fr.locals@, out, sf, lf, ff)
                                        implies runs(m, code@, 0, fuel as nat, old(self).store, old(fr).locals@, out, sf, lf, ff) by {
                                    lemma_runs_if(m, code@, i as int, left0 as nat, s_pre, l_pre, out, sf, lf, ff, *ty, *block, c, 0u32, s_p);
                                }
                            }
                            assert(popped(s_pre, s_p));
                        }
                    }
                },
                Instruction::OP_IF_AND_ELSE(ty, block1, block2) => {
                    let c = match self.pop_value() {
                        Ok(Value::I32(c)) => c,
                        _ => {
                            return (Err("Value must be i32.const"), left);
                        },
                    };
                    let ghost s_p = self.store;
                    proof {
                        lemma_only_stack_keeps(s0, self.store);
                        lemma_keeps_trans(old(self).store, s0, self.store);
                    }
                    let arity = match self.get_return_count_block(ty) {
                        Ok(a) => a,
                        Err(e) => {
                            return (Err(e), left);
                        },
                    };
                    let block = if c != 0 {
                        block1
                    } else {
                        block2
                    };
                    let (res, l2) = self.run_block(fr, ty, block, arity, left);
                    left = l2;
                    proof {
                        lemma_keeps_trans(old(self).store, s_p, self.store);
                    }
                    let outcome = match res {
                        Err(e) => {
                            return (Err(e), left);
                        },
                        Ok(o) => o,
                    };
                    let ghost s1 = self.store;
                    let ghost l1 = fr.locals@;
                    let ghost se = choose|se: Store|
                        #[trigger] only_stack(s_p, se) && enter_block(m, s_p.stack@, *ty, arity, block.spec_block_id()) == Some(se.stack@)
                            && runs(m, block.spec_instructions(), 0, (left0 - 1) as nat, se, l_pre, outcome, s1, l1, l2 as nat);
                    let after = self.after_block(outcome);
                    proof {
                        lemma_keeps_trans(old(self).store, s1, self.store);
                    }
                    match after {
                        Some(r) => {
                            proof {
                                if r is Ok {
                                    assert(block_after(m, code@, i as int, outcome, s1, l1, l2 as nat, r->Ok_0, self.store, fr.locals@, left as nat));
                                    lemma_block_runs_intro(m, code@, i as int, (left0 - 1) as nat, s_p, l_pre, *ty, *block, arity, r->Ok_0, self.store, fr.locals@, left as nat, se, outcome, s1, l1, l2 as nat);
                                    lemma_runs_if_else(m, code@, i as int, left0 as nat, s_pre, l_pre, r->Ok_0, self.store, fr.locals@, left as nat, *ty, *block1, *block2, c, arity, s_p);
                                }
                            }
                            return (r, left);
                        },
                        None => {
                            proof {
                                {
                                    assert forall|out: InstructionOutcome, sf: Store, lf: Seq<Value>, ff: nat|
                                        #[trigger] runs(m, code@, i + 1, left as nat, self.store, fr.locals@, out, sf, lf, ff)
                                            implies runs(m, code@, 0, fuel as nat, old(self).store, old(fr).locals@, out, sf, lf, ff) by {
                                        if outcome == InstructionOutcome::BRANCH(0) {
                                            lemma_block_after_branch(m, code@, i as int, s1, l1, l2 as nat, out, sf, lf, ff);
                                        } else {
                                            lemma_block_after_exit(m, code@, i as int, s1, l1, l2 as nat, out, sf, lf, ff, self.store);
                                        }
                                        lemma_block_runs_intro(m, code@, i as int, (left0 - 1) as nat, s_p, l_pre, *ty, *block, arity, out, sf, lf, ff, se, outcome, s1, l1, l2 as nat);
                                        lemma_runs_if_else(m, code@, i as int, left0 as nat, s_pre, l_pre, out, sf, lf, ff, *ty, *block1, *block2, c, arity, s_p);
                                    }
                                }
                            }
                        },
                    }
                },
                Instruction::OP_BR(label_idx) => {
                    let r = self.br(*label_idx);
                    proof {
                        lemma_only_stack_keeps(s0, self.store);
                        lemma_keeps_trans(old(self).store, s0, self.store);
                        if r is Ok {
                            assert(runs(m, code@, i as int, left0 as nat, s_pre, l_pre, r->Ok_0, self.store, fr.locals@, left as nat));
                        }
                    }
                    return (r, left);
                },
                Instruction::OP_BR_IF(label_idx) => {
                    let element = self.store.stack.pop();
                    let ghost s_p = self.store;
                    proof {
                        lemma_only_stack_keeps(s0, self.store);
                        lemma_keeps_trans(old(self).store, s0, self.store);
                        assert(s_p.stack@ =~= (if s_pre.stack@.len() > 0 { s_pre.stack@.drop_last() } else { s_pre.stack@ }));
                    }
                    if let Some(StackContent::Value(Value::I32(c))) = element {
                        if c != 0 {
                            let r = self.br(*label_idx);
                            proof {
                                lemma_only_stack_keeps(s_p, self.store);
                                lemma_keeps_trans(old(self).store, s_p, self.store);
                                if r is Ok {
                                    assert(branch_taken(s_pre.stack@));
                                    lemma_runs_br_if(m, code@, i as int, left0 as nat, s_pre, l_pre, r->Ok_0, self.store, fr.locals@, left as nat, *label_idx, s_p);
                                }
                            }
                            return (r, left);
                        }
                    }
                    proof {
                        if s_pre.stack@.len() > 0 {
                            assert(popped(s_pre, s_p));
                        }
                        assert(!branch_taken(s_pre.stack@));
                        {
                            assert forall|out: InstructionOutcome, sf: Store, lf: Seq<Value>, ff: nat|
                                #[trigger] runs(m, code@, i + 1, left as nat, self.store, fr.locals@, out, sf, lf, ff)
                                    implies runs(m, code@, 0, fuel as nat, old(self).store, old(fr).locals@, out, sf, lf, ff) by {
                                lemma_runs_br_if(m, code@, i as int, left0 as nat, s_pre, l_pre, out, sf, lf, ff, *label_idx, s_p);
                            }
                        }
                    }
                },
                Instruction::OP_BR_TABLE(table, default) => {
                    let v = self.pop_value();
                    proof {
                        lemma_only_stack_keeps(s0, self.store);
                        lemma_keeps_trans(old(self).store, s0, self.store);
                    }
                    let index = match v {
                        Ok(Value::I32(index)) => index,
                        _ => {
                            proof {
                                assert(!(code@[0].spec_instruction() is OP_UNREACHABLE));
                            }
                            return (Err("invalid index type"), left);
                        },
                    };
                    let k = index as u32 as usize;
                    let label_idx = if k < table.len() {
                        table[k]
                    } else {
                        *default
                    };
                    let ghost s1 = self.store;
                    let r = self.br(label_idx);
                    proof {
                        lemma_only_stack_keeps(s1, self.store);
                        lemma_keeps_trans(old(self).store, s1, self.store);
                        if r is Ok {
                            assert(runs(m, code@, i as int, left0 as nat, s_pre, l_pre, r->Ok_0, self.store, fr.locals@, left as nat));
                        }
                    }
                    return (r, left);
                },
                Instruction::OP_CALL(idx) => {
                    let addr = match self.module.lookup_function_addr(idx) {
                        Some(a) => FuncAddr(a.0),
                        None => {
                            return (Err("Cannot find function's addr"), left);
                        },
                    };
                    let (res, l2) = self.call_function(addr, left);
                    left = l2;
                    proof {
                        lemma_keeps_trans(old(self).store, s0, self.store);
                    }
                    match res {
                        Err(e) => {
                            return (Err(e), left);
                        },
                        Ok(()) => {},
                    }
                    proof {
                        assert forall|out: InstructionOutcome, sf: Store, lf: Seq<Value>, ff: nat|
                            #[trigger] runs(m, code@, i + 1, left as nat, self.store, fr.locals@, out, sf, lf, ff)
                                implies runs(m, code@, 0, fuel as nat, old(self).store, old(fr).locals@, out, sf, lf, ff) by {
                            lemma_runs_call(m, code@, i as int, left0 as nat, s_pre, l_pre, out, sf, lf, ff, *idx, self.store, left as nat);
                        }
                    }
                },
                Instruction::OP_CALL_INDIRECT(idx) => {
                    match self.module.lookup_function_addr(idx) {
                        Some(_) => {},
                        None => {
                            return (Err("Cannot find function's addr"), left);
                        },
                    }
                    let (res, l2) = self.call_indirect_function(left);
                    left = l2;
                    proof {
                        lemma_keeps_trans(old(self).store, s0, self.store);
                        assert(!(code@[0].spec_instruction() is OP_UNREACHABLE));
                    }
                    match res {
                        Err(e) => {
                            return (Err(e), left);
                        },
                        Ok(()) => {},
                    }
                    let ghost (a, sp) = choose|a: FuncAddr, sp: Store|
                        #[trigger] call_step(m, sp, a, (left0 - 1) as nat, self.store, left as nat)
                            && indirect_target(m.spec_table_addrs(), s_pre) == Some(a) && popped(s_pre, sp);
                    proof {
                        assert forall|out: InstructionOutcome, sf: Store, lf: Seq<Value>, ff: nat|
                            #[trigger] runs(m, code@, i + 1, left as nat, self.store, fr.locals@, out, sf, lf, ff)
                                implies runs(m, code@, 0, fuel as nat, old(self).store, old(fr).locals@, out, sf, lf, ff) by {
                            lemma_runs_call_indirect(m, code@, i as int, left0 as nat, s_pre, l_pre, out, sf, lf, ff, *idx, a, sp, self.store, left as nat);
                        }
                    }
                },
                Instruction::OP_RETURN => {
                    proof {
                        {
                            assert(runs(m, code@, i as int, left0 as nat, s_pre, l_pre, InstructionOutcome::RETURN, self.store, fr.locals@, left as nat));
                        }
                    }
                    return (Ok(InstructionOutcome::RETURN), left);
                },
                Instruction::OP_UNREACHABLE => {
                    return (Err("Reached unreachable => trap!"), left);
                },
                _ => {
                    let r = self.step(fr, ins, pc);
                    proof {
                        lemma_keeps_trans(old(self).store, s0, self.store);
                    }
                    match r {
                        Err(e) => {
                            return (Err(e), left);
                        },
                        Ok(()) => {},
                    }
                    proof {
                        assert(is_plain(*ins));
                        {
                            assert forall|out: InstructionOutcome, sf: Store, lf: Seq<Value>, ff: nat|
                                #[trigger] runs(m, code@, i + 1, left as nat, self.store, fr.locals@, out, sf, lf, ff)
                                    implies runs(m, code@, 0, fuel as nat, old(self).store, old(fr).locals@, out, sf, lf, ff) by {
                                lemma_runs_plain(m, code@, i as int, left0 as nat, s_pre, l_pre, out, sf, lf, ff, self.store, fr.locals@);
                            }
                        }
                    }
                },
            }
            i = i + 1;
        }
        proof {
            {
                assert(runs(m, code@, i as int, left as nat, self.store, fr.locals@, InstructionOutcome::EXIT, self.store, fr.locals@, left as nat));
            }
        }
        (Ok(InstructionOutcome::EXIT), left)
    }
}

} // verus!
