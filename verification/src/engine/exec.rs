//! The instructions that do not change the flow of control: the stack, locals,
//! globals, numbers and memory.

use crate::debugger::ProgramCounter;
use crate::engine::memory::{bytes_at, can_grow, grow_memory, pages_of, write_bytes, zeros, MemoryInstance};
use crate::engine::store::Variable;
use crate::engine::numeric::{
    binary_kind, flag, is_binary, is_unary, spec_binary, spec_binary_kind, spec_unary, unary_step,
    binary_step, FloatUnit, Step,
};
use crate::engine::stack::{Frame, StackContent};
use crate::engine::{keeps, only_stack, top_value, EResult, Engine};
use crate::page::Page;
use crate::parser::ast::{Instruction, MemArg, MemoryAddr};
use crate::value::Value;
use crate::PAGE_SIZE;
use vstd::bytes::{spec_u32_from_le_bytes, spec_u32_to_le_bytes, spec_u64_from_le_bytes, spec_u64_to_le_bytes};
use vstd::prelude::*;

verus! {

/// What `memory.grow` does to the first memory, with `n` pages asked for: its
/// new bytes and the value pushed, the old number of pages or `-1` where it
/// cannot grow.
pub open spec fn spec_grow(m: MemoryInstance, n: i32) -> (Seq<u8>, Value) {
    let len = m.data@.len();
    let grows = n > 0 && can_grow(len, m.max, n as nat) && n * PAGE_SIZE <= usize::MAX;
    if n == 0 || grows {
        (if grows {
            m.data@ + zeros((n * PAGE_SIZE) as nat)
        } else {
            m.data@
        }, Value::I32(pages_of(len) as i32))
    } else {
        (m.data@, Value::I32(-1i32))
    }
}

/// The address that a load or store with `offset` reaches from the operand `v`:
/// their sum as an `i32`, where it is not negative and does not overflow.
pub open spec fn effective_address(v: i32, offset: u32) -> Option<int> {
    let s = v as int + (offset as i32) as int;
    if s < 0 || s > i32::MAX {
        None
    } else {
        Some(s)
    }
}

/// How many bytes a load reads: four for the 32-bit types, eight for the 64-bit
/// ones (also where fewer are used).
pub open spec fn load_width(ins: Instruction) -> Option<nat> {
    match ins {
        Instruction::OP_I32_LOAD(_) | Instruction::OP_F32_LOAD(_) | Instruction::OP_I32_LOAD_8_s(_)
        | Instruction::OP_I32_LOAD_8_u(_) | Instruction::OP_I32_LOAD_16_s(_)
        | Instruction::OP_I32_LOAD_16_u(_) => Some(4),
        Instruction::OP_I64_LOAD(_) | Instruction::OP_F64_LOAD(_) | Instruction::OP_I64_LOAD_8_s(_)
        | Instruction::OP_I64_LOAD_8_u(_) | Instruction::OP_I64_LOAD_16_s(_)
        | Instruction::OP_I64_LOAD_16_u(_) | Instruction::OP_I64_LOAD_32_s(_)
        | Instruction::OP_I64_LOAD_32_u(_) => Some(8),
        _ => None,
    }
}

/// The value a load gives for the four bytes `w32` or the eight bytes `w64` it read.
pub open spec fn load_value(ins: Instruction, w32: u32, w64: u64) -> Value {
    match ins {
        Instruction::OP_I32_LOAD(_) => Value::I32(w32 as i32),
        Instruction::OP_F32_LOAD(_) => Value::F32(w32),
        Instruction::OP_I32_LOAD_8_s(_) => Value::I32(w32 as i8 as i32),
        Instruction::OP_I32_LOAD_8_u(_) => Value::I32(w32 as u8 as i32),
        Instruction::OP_I32_LOAD_16_s(_) => Value::I32(w32 as i16 as i32),
        Instruction::OP_I32_LOAD_16_u(_) => Value::I32(w32 as u16 as i32),
        Instruction::OP_I64_LOAD(_) => Value::I64(w64 as i64),
        Instruction::OP_F64_LOAD(_) => Value::F64(w64),
        Instruction::OP_I64_LOAD_8_s(_) => Value::I64(w64 as i8 as i64),
        Instruction::OP_I64_LOAD_8_u(_) => Value::I64(w64 as u8 as i64),
        Instruction::OP_I64_LOAD_16_s(_) => Value::I64(w64 as i16 as i64),
        Instruction::OP_I64_LOAD_16_u(_) => Value::I64(w64 as u16 as i64),
        Instruction::OP_I64_LOAD_32_s(_) => Value::I64(w64 as i32 as i64),
        _ => Value::I64(w64 as u32 as i64),
    }
}

/// What a load gives from memory `data` at address `ea`.
pub open spec fn spec_load(ins: Instruction, data: Seq<u8>, ea: int) -> Option<Value> {
    match load_width(ins) {
        Some(n) => if ea + n <= data.len() {
            if n == 4 {
                Some(load_value(ins, spec_u32_from_le_bytes(bytes_at(data, ea, 4)), 0))
            } else {
                Some(load_value(ins, 0, spec_u64_from_le_bytes(bytes_at(data, ea, 8))))
            }
        } else {
            None
        },
        None => None,
    }
}

/// The bytes a store writes of the value `v`, where the value has the type the
/// store takes.
pub open spec fn store_bytes(ins: Instruction, v: Value) -> Option<Seq<u8>> {
    match (ins, v) {
        (Instruction::OP_I32_STORE(_), Value::I32(x)) => Some(spec_u32_to_le_bytes(x as u32)),
        (Instruction::OP_F32_STORE(_), Value::F32(x)) => Some(spec_u32_to_le_bytes(x)),
        (Instruction::OP_I64_STORE(_), Value::I64(x)) => Some(spec_u64_to_le_bytes(x as u64)),
        (Instruction::OP_F64_STORE(_), Value::F64(x)) => Some(spec_u64_to_le_bytes(x)),
        (Instruction::OP_I32_STORE_8(_), Value::I32(x)) => Some(spec_u64_to_le_bytes(x as u64).subrange(0, 1)),
        (Instruction::OP_I32_STORE_16(_), Value::I32(x)) => Some(spec_u64_to_le_bytes(x as u64).subrange(0, 2)),
        (Instruction::OP_I64_STORE_8(_), Value::I64(x)) => Some(spec_u64_to_le_bytes(x as u64).subrange(0, 1)),
        (Instruction::OP_I64_STORE_16(_), Value::I64(x)) => Some(spec_u64_to_le_bytes(x as u64).subrange(0, 2)),
        (Instruction::OP_I64_STORE_32(_), Value::I64(x)) => Some(spec_u64_to_le_bytes(x as u64).subrange(0, 4)),
        _ => None,
    }
}

/// Whether an instruction is a store.
pub open spec fn is_store(ins: Instruction) -> bool {
    match ins {
        Instruction::OP_I32_STORE(_) | Instruction::OP_F32_STORE(_) | Instruction::OP_I64_STORE(_)
        | Instruction::OP_F64_STORE(_) | Instruction::OP_I32_STORE_8(_) | Instruction::OP_I32_STORE_16(_)
        | Instruction::OP_I64_STORE_8(_) | Instruction::OP_I64_STORE_16(_)
        | Instruction::OP_I64_STORE_32(_) => true,
        _ => false,
    }
}

/// The index in the store of the first memory of a module with memory
/// addresses `mem_addrs`, where it exists.
pub open spec fn first_memory(mem_addrs: Seq<MemoryAddr>, memory: Seq<MemoryInstance>) -> Option<int> {
    if mem_addrs.len() > 0 && mem_addrs[0].0 < memory.len() {
        Some(mem_addrs[0].0 as int)
    } else {
        None
    }
}

/// What a load gives on the given stack and memories: `None` where it fails.
pub open spec fn spec_load_at(
    ins: Instruction,
    arg: MemArg,
    stack: Seq<StackContent>,
    mem_addrs: Seq<MemoryAddr>,
    memory: Seq<MemoryInstance>,
) -> Option<Value> {
    match top_value(stack) {
        Some(Value::I32(v)) => match effective_address(v, arg.offset) {
            Some(ea) => match first_memory(mem_addrs, memory) {
                Some(i) => spec_load(ins, memory[i].data@, ea),
                None => None,
            },
            None => None,
        },
        _ => None,
    }
}

/// What a store does on the given stack and memories: the index of the memory it
/// writes and its new bytes; `None` where it fails.
pub open spec fn spec_store_at(
    ins: Instruction,
    arg: MemArg,
    stack: Seq<StackContent>,
    mem_addrs: Seq<MemoryAddr>,
    memory: Seq<MemoryInstance>,
) -> Option<(int, Seq<u8>)> {
    let n = stack.len();
    if n >= 2 {
        match (stack[n - 1], stack[n - 2]) {
            (StackContent::Value(k), StackContent::Value(Value::I32(v))) => match effective_address(v, arg.offset) {
                Some(ea) => match first_memory(mem_addrs, memory) {
                    Some(i) => match store_bytes(ins, k) {
                        Some(bytes) => if ea + bytes.len() <= memory[i].data@.len() {
                            Some((i, write_bytes(memory[i].data@, ea, bytes)))
                        } else {
                            None
                        },
                        None => None,
                    },
                    None => None,
                },
                None => None,
            },
            _ => None,
        }
    } else {
        None
    }
}

/// What `i32.load` gives back of `i32.store`: a store of `x` at the operand `v`,
/// then a load from `v` with the same offset on the memories the store left,
/// gives `x`.
pub proof fn lemma_i32_load_after_store(
    arg: MemArg,
    v: i32,
    x: i32,
    stack: Seq<StackContent>,
    mem_addrs: Seq<MemoryAddr>,
    memory: Seq<MemoryInstance>,
    after: Seq<MemoryInstance>,
    i: int,
    d: Seq<u8>,
)
    requires
        spec_store_at(
            Instruction::OP_I32_STORE(arg),
            arg,
            stack.push(StackContent::Value(Value::I32(v))).push(StackContent::Value(Value::I32(x))),
            mem_addrs,
            memory,
        ) == Some((i, d)),
        after.len() == memory.len(),
        after[i].data@ == d,
    ensures
        spec_load_at(
            Instruction::OP_I32_LOAD(arg),
            arg,
            stack.push(StackContent::Value(Value::I32(v))),
            mem_addrs,
            after,
        ) == Some(Value::I32(x)),
{
    vstd::bytes::lemma_auto_spec_u32_to_from_le_bytes();
    let st = stack.push(StackContent::Value(Value::I32(v))).push(StackContent::Value(Value::I32(x)));
    assert(st[st.len() - 1] == StackContent::Value(Value::I32(x)));
    assert(st[st.len() - 2] == StackContent::Value(Value::I32(v)));
    assert(effective_address(v, arg.offset) is Some);
    assert(first_memory(mem_addrs, memory) is Some);
    let ea = effective_address(v, arg.offset).unwrap();
    let k = first_memory(mem_addrs, memory).unwrap();
    assert(k == i);
    assert(d == write_bytes(memory[k].data@, ea, spec_u32_to_le_bytes(x as u32)));
    crate::engine::memory::read_after_write_u32(memory[k].data@, ea, x as u32);
    assert((x as u32) as i32 == x) by (bit_vector);
    let ld = stack.push(StackContent::Value(Value::I32(v)));
    assert(top_value(ld) == Some(Value::I32(v)));
    assert(first_memory(mem_addrs, after) == Some(i));
}

/// What `i64.load` gives back of `i64.store`: a store of `x` at the operand `v`,
/// then a load from `v` with the same offset on the memories the store left,
/// gives `x`.
pub proof fn lemma_i64_load_after_store(
    arg: MemArg,
    v: i32,
    x: i64,
    stack: Seq<StackContent>,
    mem_addrs: Seq<MemoryAddr>,
    memory: Seq<MemoryInstance>,
    after: Seq<MemoryInstance>,
    i: int,
    d: Seq<u8>,
)
    requires
        spec_store_at(
            Instruction::OP_I64_STORE(arg),
            arg,
            stack.push(StackContent::Value(Value::I32(v))).push(StackContent::Value(Value::I64(x))),
            mem_addrs,
            memory,
        ) == Some((i, d)),
        after.len() == memory.len(),
        after[i].data@ == d,
    ensures
        spec_load_at(
            Instruction::OP_I64_LOAD(arg),
            arg,
            stack.push(StackContent::Value(Value::I32(v))),
            mem_addrs,
            after,
        ) == Some(Value::I64(x)),
{
    vstd::bytes::lemma_auto_spec_u64_to_from_le_bytes();
    let st = stack.push(StackContent::Value(Value::I32(v))).push(StackContent::Value(Value::I64(x)));
    assert(st[st.len() - 1] == StackContent::Value(Value::I64(x)));
    assert(st[st.len() - 2] == StackContent::Value(Value::I32(v)));
    assert(effective_address(v, arg.offset) is Some);
    assert(first_memory(mem_addrs, memory) is Some);
    let ea = effective_address(v, arg.offset).unwrap();
    let k = first_memory(mem_addrs, memory).unwrap();
    assert(k == i);
    assert(d == write_bytes(memory[k].data@, ea, spec_u64_to_le_bytes(x as u64)));
    crate::engine::memory::read_after_write_u64(memory[k].data@, ea, x as u64);
    assert((x as u64) as i64 == x) by (bit_vector);
    let ld = stack.push(StackContent::Value(Value::I32(v)));
    assert(top_value(ld) == Some(Value::I32(v)));
    assert(first_memory(mem_addrs, after) == Some(i));
}

/// What the narrow loads give back of `i32.store`: after a store of `x` at the
/// operand `v`, a load from `v` with the same offset gives the low 8 or 16 bits
/// of `x`, read as an unsigned number by the `_u` loads and as a two's
/// complement number by the `_s` loads.
pub proof fn lemma_i32_narrow_load_after_store(
    arg: MemArg,
    v: i32,
    x: i32,
    stack: Seq<StackContent>,
    mem_addrs: Seq<MemoryAddr>,
    memory: Seq<MemoryInstance>,
    after: Seq<MemoryInstance>,
    i: int,
    d: Seq<u8>,
)
    requires
        spec_store_at(
            Instruction::OP_I32_STORE(arg),
            arg,
            stack.push(StackContent::Value(Value::I32(v))).push(StackContent::Value(Value::I32(x))),
            mem_addrs,
            memory,
        ) == Some((i, d)),
        after.len() == memory.len(),
        after[i].data@ == d,
    ensures
        ({
            let st = stack.push(StackContent::Value(Value::I32(v)));
            let u = x as u32;
            &&& spec_load_at(Instruction::OP_I32_LOAD_8_u(arg), arg, st, mem_addrs, after) == Some(
                Value::I32((u % 256) as i32),
            )
            &&& spec_load_at(Instruction::OP_I32_LOAD_16_u(arg), arg, st, mem_addrs, after) == Some(
                Value::I32((u % 65536) as i32),
            )
            &&& spec_load_at(Instruction::OP_I32_LOAD_8_s(arg), arg, st, mem_addrs, after) == Some(
                Value::I32(
                    (if u % 256 >= 128 {
                        (u % 256) as int - 256
                    } else {
                        (u % 256) as int
                    }) as i32,
                ),
            )
            &&& spec_load_at(Instruction::OP_I32_LOAD_16_s(arg), arg, st, mem_addrs, after) == Some(
                Value::I32(
                    (if u % 65536 >= 32768 {
                        (u % 65536) as int - 65536
                    } else {
                        (u % 65536) as int
                    }) as i32,
                ),
            )
        }),
{
    vstd::bytes::lemma_auto_spec_u32_to_from_le_bytes();
    let st = stack.push(StackContent::Value(Value::I32(v))).push(StackContent::Value(Value::I32(x)));
    assert(st[st.len() - 1] == StackContent::Value(Value::I32(x)));
    assert(st[st.len() - 2] == StackContent::Value(Value::I32(v)));
    assert(effective_address(v, arg.offset) is Some);
    assert(first_memory(mem_addrs, memory) is Some);
    let ea = effective_address(v, arg.offset).unwrap();
    let k = first_memory(mem_addrs, memory).unwrap();
    assert(k == i);
    assert(d == write_bytes(memory[k].data@, ea, spec_u32_to_le_bytes(x as u32)));
    crate::engine::memory::read_after_write_u32(memory[k].data@, ea, x as u32);
    let u = x as u32;
    assert({
        &&& u as u8 as i32 == (u % 256) as i32
        &&& u as u16 as i32 == (u % 65536) as i32
        &&& u as i8 as i32 == (if u % 256 >= 128 {
            (u % 256) as int - 256
        } else {
            (u % 256) as int
        }) as i32
        &&& u as i16 as i32 == (if u % 65536 >= 32768 {
            (u % 65536) as int - 65536
        } else {
            (u % 65536) as int
        }) as i32
    }) by (bit_vector);
    let ld = stack.push(StackContent::Value(Value::I32(v)));
    assert(top_value(ld) == Some(Value::I32(v)));
    assert(first_memory(mem_addrs, after) == Some(i));
}

/// What the narrow loads give back of `i64.store`: after a store of `x` at the
/// operand `v`, a load from `v` with the same offset gives the low 8, 16 or 32
/// bits of `x`, read as an unsigned number by the `_u` loads and as a two's
/// complement number by the `_s` loads.
pub proof fn lemma_i64_narrow_load_after_store(
    arg: MemArg,
    v: i32,
    x: i64,
    stack: Seq<StackContent>,
    mem_addrs: Seq<MemoryAddr>,
    memory: Seq<MemoryInstance>,
    after: Seq<MemoryInstance>,
    i: int,
    d: Seq<u8>,
)
    requires
        spec_store_at(
            Instruction::OP_I64_STORE(arg),
            arg,
            stack.push(StackContent::Value(Value::I32(v))).push(StackContent::Value(Value::I64(x))),
            mem_addrs,
            memory,
        ) == Some((i, d)),
        after.len() == memory.len(),
        after[i].data@ == d,
    ensures
        ({
            let st = stack.push(StackContent::Value(Value::I32(v)));
            let u = x as u64;
            &&& spec_load_at(Instruction::OP_I64_LOAD_8_u(arg), arg, st, mem_addrs, after) == Some(
                Value::I64((u % 256) as i64),
            )
            &&& spec_load_at(Instruction::OP_I64_LOAD_8_s(arg), arg, st, mem_addrs, after) == Some(
                Value::I64(
                    (if u % 256 >= 128 {
                        (u % 256) as int - 256
                    } else {
                        (u % 256) as int
                    }) as i64,
                ),
            )
            &&& spec_load_at(Instruction::OP_I64_LOAD_16_u(arg), arg, st, mem_addrs, after) == Some(
                Value::I64((u % 65536) as i64),
            )
            &&& spec_load_at(Instruction::OP_I64_LOAD_16_s(arg), arg, st, mem_addrs, after) == Some(
                Value::I64(
                    (if u % 65536 >= 32768 {
                        (u % 65536) as int - 65536
                    } else {
                        (u % 65536) as int
                    }) as i64,
                ),
            )
            &&& spec_load_at(Instruction::OP_I64_LOAD_32_u(arg), arg, st, mem_addrs, after) == Some(
                Value::I64((u % 0x1_0000_0000) as i64),
            )
            &&& spec_load_at(Instruction::OP_I64_LOAD_32_s(arg), arg, st, mem_addrs, after) == Some(
                Value::I64(
                    (if u % 0x1_0000_0000 >= 0x8000_0000 {
                        (u % 0x1_0000_0000) as int - 0x1_0000_0000
                    } else {
                        (u % 0x1_0000_0000) as int
                    }) as i64,
                ),
            )
        }),
{
    vstd::bytes::lemma_auto_spec_u64_to_from_le_bytes();
    let st = stack.push(StackContent::Value(Value::I32(v))).push(StackContent::Value(Value::I64(x)));
    assert(st[st.len() - 1] == StackContent::Value(Value::I64(x)));
    assert(st[st.len() - 2] == StackContent::Value(Value::I32(v)));
    assert(effective_address(v, arg.offset) is Some);
    assert(first_memory(mem_addrs, memory) is Some);
    let ea = effective_address(v, arg.offset).unwrap();
    let k = first_memory(mem_addrs, memory).unwrap();
    assert(k == i);
    assert(d == write_bytes(memory[k].data@, ea, spec_u64_to_le_bytes(x as u64)));
    crate::engine::memory::read_after_write_u64(memory[k].data@, ea, x as u64);
    let u = x as u64;
    assert({
        &&& u as u8 as i64 == (u % 256) as i64
        &&& u as i8 as i64 == (if u % 256 >= 128 {
            (u % 256) as int - 256
        } else {
            (u % 256) as int
        }) as i64
        &&& u as u16 as i64 == (u % 65536) as i64
        &&& u as i16 as i64 == (if u % 65536 >= 32768 {
            (u % 65536) as int - 65536
        } else {
            (u % 65536) as int
        }) as i64
        &&& u as u32 as i64 == (u % 0x1_0000_0000) as i64
        &&& u as i32 as i64 == (if u % 0x1_0000_0000 >= 0x8000_0000 {
            (u % 0x1_0000_0000) as int - 0x1_0000_0000
        } else {
            (u % 0x1_0000_0000) as int
        }) as i64
    }) by (bit_vector);
    let ld = stack.push(StackContent::Value(Value::I32(v)));
    assert(top_value(ld) == Some(Value::I32(v)));
    assert(first_memory(mem_addrs, after) == Some(i));
}

/// The number of pages of the first memory, as the value that `memory.size` pushes.
pub open spec fn spec_memory_size(mem_addrs: Seq<MemoryAddr>, memory: Seq<MemoryInstance>) -> Option<Value> {
    match first_memory(mem_addrs, memory) {
        Some(i) => Some(Value::I32(pages_of(memory[i].data@.len()) as i32)),
        None => None,
    }
}

/// Computes the effective address.
fn effective_address_of(v: i32, offset: u32) -> (r: Option<usize>)
    ensures
        match effective_address(v, offset) {
            Some(a) => r == Some(a as usize),
            None => r is None,
        },
{
    let s: i64 = v as i64 + (offset as i32) as i64;
    if s < 0 || s > i32::MAX as i64 {
        None
    } else {
        Some(s as usize)
    }
}

impl<P: ProgramCounter, F: FloatUnit> Engine<P, F> {
    /// Pushes a value.
    pub fn push_value(&mut self, v: Value)
        ensures
            final(self).module == old(self).module,
            final(self).debugger == old(self).debugger,
            only_stack(old(self).store, final(self).store),
            final(self).store.stack@ == old(self).store.stack@.push(StackContent::Value(v)),
    {
        self.store.stack.push(StackContent::Value(v));
    }

    /// Pops the value on top of the stack; fails where the top is not a value.
    pub fn pop_value(&mut self) -> (r: EResult<Value>)
        ensures
            final(self).module == old(self).module,
            final(self).debugger == old(self).debugger,
            only_stack(old(self).store, final(self).store),
            match top_value(old(self).store.stack@) {
                Some(v) => r == Ok::<Value, &'static str>(v) && final(self).store.stack@ == old(self).store.stack@.drop_last(),
                None => r is Err,
            },
    {
        match self.store.stack.pop() {
            Some(StackContent::Value(v)) => Ok(v),
            Some(_) => Err("Top of stack was not a value"),
            None => Err("Empty stack"),
        }
    }

    /// `local.get`: pushes the local with index `idx`.
    pub fn local_get(&mut self, idx: u32, fr: &Frame) -> (r: EResult<()>)
        ensures
            final(self).module == old(self).module,
            final(self).debugger == old(self).debugger,
            only_stack(old(self).store, final(self).store),
            (idx as int) < fr.locals@.len() ==> r is Ok && final(self).store.stack@ == old(self).store.stack@.push(StackContent::Value(fr.locals@[idx as int])),
            (idx as int) >= fr.locals@.len() ==> r is Err,
    {
        let k = idx as usize;
        if k < fr.locals.len() {
            let v = fr.locals[k];
            self.push_value(v);
            Ok(())
        } else {
            Err("Trying to access locals, but out of bounds")
        }
    }

    /// `local.set`: pops a value into the local with index `idx`; where there is
    /// no such local, the value is added as a new local.
    pub fn local_set(&mut self, idx: u32, fr: &mut Frame) -> (r: EResult<()>)
        ensures
            final(self).module == old(self).module,
            final(self).debugger == old(self).debugger,
            only_stack(old(self).store, final(self).store),
            final(fr).arity == old(fr).arity,
            match top_value(old(self).store.stack@) {
                Some(v) => r is Ok && final(self).store.stack@ == old(self).store.stack@.drop_last() && (if (idx as int)
                    < old(fr).locals@.len() {
                    final(fr).locals@ == old(fr).locals@.update(idx as int, v)
                } else {
                    final(fr).locals@ == old(fr).locals@.push(v)
                }),
                None => r is Err,
            },
    {
        let v = match self.pop_value() {
            Ok(v) => v,
            Err(e) => {
                return Err(e);
            },
        };
        let k = idx as usize;
        if k < fr.locals.len() {
            fr.locals.set(k, v);
        } else {
            fr.locals.push(v);
        }
        Ok(())
    }

    /// `local.tee`: sets the local with index `idx` to the value on top of the
    /// stack, which stays there.
    pub fn local_tee(&mut self, idx: u32, fr: &mut Frame) -> (r: EResult<()>)
        ensures
            final(self).module == old(self).module,
            final(self).debugger == old(self).debugger,
            only_stack(old(self).store, final(self).store),
            final(fr).arity == old(fr).arity,
            match top_value(old(self).store.stack@) {
                Some(v) => r is Ok && final(self).store.stack@ == old(self).store.stack@ && (if (idx as int)
                    < old(fr).locals@.len() {
                    final(fr).locals@ == old(fr).locals@.update(idx as int, v)
                } else {
                    final(fr).locals@ == old(fr).locals@.push(v)
                }),
                None => r is Err,
            },
    {
        let v = match self.pop_value() {
            Ok(v) => v,
            Err(e) => {
                return Err(e);
            },
        };
        self.push_value(v);
        self.push_value(v);
        let r = self.local_set(idx, fr);
        proof {
            assert(self.store.stack@ =~= old(self).store.stack@);
        }
        r
    }

    /// `global.get`: pushes the value of the global with index `idx`.
    pub fn global_get(&mut self, idx: u32) -> (r: EResult<()>)
        ensures
            final(self).module == old(self).module,
            final(self).debugger == old(self).debugger,
            only_stack(old(self).store, final(self).store),
            (idx as int) < old(self).store.globals@.len() ==> r is Ok && final(self).store.stack@ == old(self).store.stack@.push(StackContent::Value(old(self).store.globals@[idx as int].val)),
            (idx as int) >= old(self).store.globals@.len() ==> r is Err,
    {
        let k = idx as usize;
        if k < self.store.globals.len() {
            let v = self.store.globals[k].val;
            self.push_value(v);
            Ok(())
        } else {
            Err("Cannot access global")
        }
    }

    /// `global.set`: pops a value into the global with index `idx`, which must
    /// exist and be mutable.
    pub fn global_set(&mut self, idx: u32) -> (r: EResult<()>)
        ensures
            final(self).module == old(self).module,
            final(self).debugger == old(self).debugger,
            keeps(old(self).store, final(self).store),
            final(self).store.memory@ == old(self).store.memory@,
            match top_value(old(self).store.stack@) {
                Some(v) => if (idx as int) < old(self).store.globals@.len() && old(self).store.globals@[idx as int].mutable {
                    r is Ok && final(self).store.stack@ == old(self).store.stack@.drop_last() && final(self).store.globals@ == old(self).store.globals@.update(
                        idx as int,
                        (Variable { mutable: true, val: v }),
                    )
                } else {
                    r is Err
                },
                None => r is Err,
            },
    {
        let v = match self.pop_value() {
            Ok(v) => v,
            Err(e) => {
                return Err(e);
            },
        };
        let k = idx as usize;
        if k >= self.store.globals.len() {
            return Err("Cannot access global");
        }
        if !self.store.globals[k].mutable {
            return Err("Attempting to modify a immutable global");
        }
        self.store.globals.set(k, Variable { mutable: true, val: v });
        Ok(())
    }

    /// `select`: pops an `i32` condition and two values, and pushes the first of
    /// them where the condition is not zero, else the second.
    pub fn select(&mut self) -> (r: EResult<()>)
        ensures
            final(self).module == old(self).module,
            final(self).debugger == old(self).debugger,
            only_stack(old(self).store, final(self).store),
            ({
                let s = old(self).store.stack@;
                let n = s.len();
                if n >= 3 && s[n - 2] is Value && s[n - 3] is Value {
                    match s[n - 1] {
                        StackContent::Value(Value::I32(c)) => r is Ok && final(self).store.stack@ == s.subrange(
                            0,
                            n - 3,
                        ).push(
                            if c != 0 {
                                s[n - 3]
                            } else {
                                s[n - 2]
                            },
                        ),
                        _ => r is Err,
                    }
                } else {
                    r is Err
                }
            }),
    {
        let ghost s = self.store.stack@;
        let c = match self.pop_value() {
            Ok(Value::I32(c)) => c,
            _ => {
                return Err("Expected I32 on top of stack");
            },
        };
        let v1 = match self.pop_value() {
            Ok(v) => v,
            Err(e) => {
                return Err(e);
            },
        };
        let v2 = match self.pop_value() {
            Ok(v) => v,
            Err(e) => {
                return Err(e);
            },
        };
        if c != 0 {
            self.push_value(v2);
        } else {
            self.push_value(v1);
        }
        proof {
            let n = s.len();
            assert(s.drop_last().drop_last().drop_last() =~= s.subrange(0, n - 3));
        }
        Ok(())
    }

    /// `drop`: pops the top of the stack, where there is one.
    pub fn drop_top(&mut self)
        ensures
            final(self).module == old(self).module,
            final(self).debugger == old(self).debugger,
            only_stack(old(self).store, final(self).store),
            old(self).store.stack@.len() > 0 ==> final(self).store.stack@ == old(self).store.stack@.drop_last(),
            old(self).store.stack@.len() == 0 ==> final(self).store.stack@.len() == 0,
    {
        let _ = self.store.stack.pop();
    }

    /// A unary numeric instruction: pops its operand and pushes what it gives.
    pub fn exec_unary(&mut self, ins: &Instruction) -> (r: EResult<()>)
        requires
            is_unary(*ins),
        ensures
            final(self).module == old(self).module,
            final(self).debugger == old(self).debugger,
            only_stack(old(self).store, final(self).store),
            match top_value(old(self).store.stack@) {
                Some(v) => match spec_unary(*ins, v) {
                    Step::Value(w) => r is Ok && final(self).store.stack@ == old(self).store.stack@.drop_last().push(
                        StackContent::Value(w),
                    ),
                    Step::Trap(m) => r == Err::<(), &'static str>(m),
                    _ => r is Ok ==> final(self).store.stack@.len() == old(self).store.stack@.len()
                        && final(self).store.stack@.drop_last() == old(self).store.stack@.drop_last() && final(self).store.stack@.last() is Value,
                },
                None => r is Err,
            },
    {
        let v = match self.pop_value() {
            Ok(v) => v,
            Err(e) => {
                return Err(e);
            },
        };
        let w = match unary_step(ins, v) {
            Step::Value(w) => w,
            Step::Trap(m) => {
                return Err(m);
            },
            Step::Unary(op) => match self.floats.unary(op, v) {
                Some(w) => w,
                None => {
                    return Err("Type mismatch");
                },
            },
            Step::Convert(c) => match self.floats.convert(c, v) {
                Some(w) => w,
                None => {
                    return Err("Type mismatch");
                },
            },
            _ => {
                return Err("Type mismatch");
            },
        };
        self.push_value(w);
        Ok(())
    }

    /// A binary numeric instruction: pops its two operands and pushes what it gives.
    pub fn exec_binary(&mut self, ins: &Instruction) -> (r: EResult<()>)
        requires
            spec_binary_kind(*ins) is Some,
        ensures
            final(self).module == old(self).module,
            final(self).debugger == old(self).debugger,
            only_stack(old(self).store, final(self).store),
            ({
                let s = old(self).store.stack@;
                let n = s.len();
                if n >= 2 && s[n - 1] is Value && s[n - 2] is Value {
                    let a = s[n - 2]->Value_0;
                    let b = s[n - 1]->Value_0;
                    match spec_binary(spec_binary_kind(*ins).unwrap(), a, b) {
                        Step::Value(w) => r is Ok && final(self).store.stack@ == s.subrange(0, n - 2).push(
                            StackContent::Value(w),
                        ),
                        Step::Trap(m) => r == Err::<(), &'static str>(m),
                        _ => r is Ok ==> final(self).store.stack@.len() == n - 1 && final(self).store.stack@.drop_last()
                            == s.subrange(0, n - 2) && final(self).store.stack@.last() is Value,
                    }
                } else {
                    r is Err
                }
            }),
    {
        let ghost s = self.store.stack@;
        let b = match self.pop_value() {
            Ok(v) => v,
            Err(e) => {
                return Err(e);
            },
        };
        let a = match self.pop_value() {
            Ok(v) => v,
            Err(e) => {
                return Err(e);
            },
        };
        proof {
            assert(s.drop_last().drop_last() =~= s.subrange(0, s.len() - 2));
        }
        let k = match binary_kind(ins) {
            Some(k) => k,
            None => {
                return Err("Type mismatch");
            },
        };
        let w = match binary_step(k, a, b) {
            Step::Value(w) => w,
            Step::Trap(m) => {
                return Err(m);
            },
            Step::Binary(op) => match self.floats.binary(op, a, b) {
                Some(w) => w,
                None => {
                    return Err("Type mismatch");
                },
            },
            Step::Compare(op) => match self.floats.compare(op, a, b) {
                Some(c) => Value::I32(if c { 1 } else { 0 }),
                None => {
                    return Err("Type mismatch");
                },
            },
            _ => {
                return Err("Type mismatch");
            },
        };
        self.push_value(w);
        Ok(())
    }

    /// The index in the store of the first memory of the module.
    pub fn memory_index(&self) -> (r: EResult<usize>)
        ensures
            match r {
                Ok(i) => self.module.spec_mem_addrs().len() > 0 && i == self.module.spec_mem_addrs()[0].0 && i
                    < self.store.memory@.len(),
                Err(_) => self.module.spec_mem_addrs().len() == 0 || self.module.spec_mem_addrs()[0].0
                    >= self.store.memory@.len(),
            },
    {
        let addr = match self.module.lookup_memory_addr(&0) {
            Some(a) => a.0,
            None => {
                return Err("No memory address found");
            },
        };
        if addr >= self.store.memory.len() {
            return Err("Cannot access memory");
        }
        Ok(addr)
    }

    /// A load: pops the address operand and pushes the value read at the
    /// effective address from the first memory.
    pub fn exec_load(&mut self, ins: &Instruction, arg: MemArg) -> (r: EResult<()>)
        requires
            load_width(*ins) is Some,
        ensures
            final(self).module == old(self).module,
            final(self).debugger == old(self).debugger,
            only_stack(old(self).store, final(self).store),
            match spec_load_at(*ins, arg, old(self).store.stack@, old(self).module.spec_mem_addrs(), old(self).store.memory@) {
                Some(w) => r is Ok && final(self).store.stack@ == old(self).store.stack@.drop_last().push(
                    StackContent::Value(w),
                ),
                None => r is Err,
            },
    {
        let v = match self.pop_value() {
            Ok(Value::I32(v)) => v,
            _ => {
                return Err("Expected I32, found something else");
            },
        };
        let ea = match effective_address_of(v, arg.offset) {
            Some(ea) => ea,
            None => {
                return Err("Cannot access range");
            },
        };
        let mi = match self.memory_index() {
            Ok(i) => i,
            Err(e) => {
                return Err(e);
            },
        };
        let wide = match ins {
            Instruction::OP_I64_LOAD(_) | Instruction::OP_F64_LOAD(_) | Instruction::OP_I64_LOAD_8_s(_)
            | Instruction::OP_I64_LOAD_8_u(_) | Instruction::OP_I64_LOAD_16_s(_)
            | Instruction::OP_I64_LOAD_16_u(_) | Instruction::OP_I64_LOAD_32_s(_)
            | Instruction::OP_I64_LOAD_32_u(_) => true,
            _ => false,
        };
        let (w32, w64): (u32, u64) = if wide {
            match self.store.memory[mi].read_u64(ea) {
                Some(w) => (0, w),
                None => {
                    return Err("Cannot access range");
                },
            }
        } else {
            match self.store.memory[mi].read_u32(ea) {
                Some(w) => (w, 0),
                None => {
                    return Err("Cannot access range");
                },
            }
        };
        let value = match ins {
            Instruction::OP_I32_LOAD(_) => Value::I32(w32 as i32),
            Instruction::OP_F32_LOAD(_) => Value::F32(w32),
            Instruction::OP_I32_LOAD_8_s(_) => Value::I32(w32 as i8 as i32),
            Instruction::OP_I32_LOAD_8_u(_) => Value::I32(w32 as u8 as i32),
            Instruction::OP_I32_LOAD_16_s(_) => Value::I32(w32 as i16 as i32),
            Instruction::OP_I32_LOAD_16_u(_) => Value::I32(w32 as u16 as i32),
            Instruction::OP_I64_LOAD(_) => Value::I64(w64 as i64),
            Instruction::OP_F64_LOAD(_) => Value::F64(w64),
            Instruction::OP_I64_LOAD_8_s(_) => Value::I64(w64 as i8 as i64),
            Instruction::OP_I64_LOAD_8_u(_) => Value::I64(w64 as u8 as i64),
            Instruction::OP_I64_LOAD_16_s(_) => Value::I64(w64 as i16 as i64),
            Instruction::OP_I64_LOAD_16_u(_) => Value::I64(w64 as u16 as i64),
            Instruction::OP_I64_LOAD_32_s(_) => Value::I64(w64 as i32 as i64),
            _ => Value::I64(w64 as u32 as i64),
        };
        proof {
            assert(spec_load(*ins, self.store.memory@[mi as int].data@, ea as int) == Some(value));
        }
        self.push_value(value);
        Ok(())
    }

    /// A store: pops the value and the address operand and writes the bytes of
    /// the value at the effective address of the first memory.
    pub fn exec_store(&mut self, ins: &Instruction, arg: MemArg) -> (r: EResult<()>)
        requires
            is_store(*ins),
        ensures
            final(self).module == old(self).module,
            final(self).debugger == old(self).debugger,
            keeps(old(self).store, final(self).store),
            final(self).store.globals@ == old(self).store.globals@,
            match spec_store_at(*ins, arg, old(self).store.stack@, old(self).module.spec_mem_addrs(), old(self).store.memory@) {
                Some((i, d)) => {
                    &&& r is Ok
                    &&& final(self).store.stack@ == old(self).store.stack@.subrange(0, old(self).store.stack@.len() - 2)
                    &&& final(self).store.memory@.len() == old(self).store.memory@.len()
                    &&& final(self).store.memory@[i].data@ == d
                    &&& final(self).store.memory@[i].max == old(self).store.memory@[i].max
                    &&& forall|j: int| 0 <= j < old(self).store.memory@.len() && j != i ==> #[trigger] final(self).store.memory@[j] == old(self).store.memory@[j]
                },
                None => r is Err,
            },
    {
        let ghost s = self.store.stack@;
        let k = match self.pop_value() {
            Ok(v) => v,
            Err(e) => {
                return Err(e);
            },
        };
        let v = match self.pop_value() {
            Ok(Value::I32(v)) => v,
            _ => {
                return Err("Expected I32, found something else");
            },
        };
        proof {
            assert(s.drop_last().drop_last() =~= s.subrange(0, s.len() - 2));
        }
        let ea = match effective_address_of(v, arg.offset) {
            Some(ea) => ea,
            None => {
                return Err("Cannot access range");
            },
        };
        let mi = match self.memory_index() {
            Ok(i) => i,
            Err(e) => {
                return Err(e);
            },
        };
        let ghost old_mem = self.store.memory@;
        proof {
            vstd::bytes::lemma_auto_spec_u32_to_from_le_bytes();
            vstd::bytes::lemma_auto_spec_u64_to_from_le_bytes();
        }
        let mut instance = self.store.memory.remove(mi);
        let ok = match (ins, k) {
            (Instruction::OP_I32_STORE(_), Value::I32(x)) => instance.write_u32(ea, x as u32),
            (Instruction::OP_F32_STORE(_), Value::F32(x)) => instance.write_u32(ea, x),
            (Instruction::OP_I64_STORE(_), Value::I64(x)) => instance.write_u64(ea, x as u64),
            (Instruction::OP_F64_STORE(_), Value::F64(x)) => instance.write_u64(ea, x),
            (Instruction::OP_I32_STORE_8(_), Value::I32(x)) => instance.write_low_bytes(ea, x as u64, 1),
            (Instruction::OP_I32_STORE_16(_), Value::I32(x)) => instance.write_low_bytes(ea, x as u64, 2),
            (Instruction::OP_I64_STORE_8(_), Value::I64(x)) => instance.write_low_bytes(ea, x as u64, 1),
            (Instruction::OP_I64_STORE_16(_), Value::I64(x)) => instance.write_low_bytes(ea, x as u64, 2),
            (Instruction::OP_I64_STORE_32(_), Value::I64(x)) => instance.write_low_bytes(ea, x as u64, 4),
            _ => {
                self.store.memory.insert(mi, instance);
                proof {
                    assert forall|j: int| 0 <= j < old_mem.len() implies (#[trigger] self.store.memory@[j]).max
                        == old_mem[j].max && self.store.memory@[j].data@.len() >= old_mem[j].data@.len() by {
                        if j != mi as int {
                            assert(self.store.memory@[j] == old_mem[j]);
                        }
                    }
                }
                return Err("Expected a different value on the stack");
            },
        };
        self.store.memory.insert(mi, instance);
        proof {
            assert forall|j: int| 0 <= j < old_mem.len() implies (#[trigger] self.store.memory@[j]).max
                == old_mem[j].max && self.store.memory@[j].data@.len() >= old_mem[j].data@.len() by {
                if j != mi as int {
                    assert(self.store.memory@[j] == old_mem[j]);
                }
            }
        }
        if !ok {
            return Err("Offset is corrupt");
        }
        proof {
            assert(self.store.memory@ =~= old_mem.update(
                mi as int,
                (MemoryInstance {
                    data: self.store.memory@[mi as int].data,
                    max: old_mem[mi as int].max,
                }),
            ));
            assert(store_bytes(*ins, k) is Some);
        }
        Ok(())
    }

    /// `memory.size`: pushes the number of pages of the first memory.
    pub fn memory_size(&mut self) -> (r: EResult<()>)
        ensures
            final(self).module == old(self).module,
            final(self).debugger == old(self).debugger,
            only_stack(old(self).store, final(self).store),
            match spec_memory_size(old(self).module.spec_mem_addrs(), old(self).store.memory@) {
                Some(w) => r is Ok && final(self).store.stack@ == old(self).store.stack@.push(StackContent::Value(w)),
                None => r is Err,
            },
    {
        let mi = match self.memory_index() {
            Ok(i) => i,
            Err(e) => {
                return Err(e);
            },
        };
        let sz = self.store.memory[mi].data.len() / PAGE_SIZE;
        self.push_value(Value::I32(sz as i32));
        Ok(())
    }

    /// `memory.grow`: pops the number of pages to add to the first memory, and
    /// pushes the old number of pages, or `-1` where the memory cannot grow.
    pub fn memory_grow(&mut self) -> (r: EResult<()>)
        ensures
            final(self).module == old(self).module,
            final(self).debugger == old(self).debugger,
            keeps(old(self).store, final(self).store),
            final(self).store.globals@ == old(self).store.globals@,
            match (first_memory(old(self).module.spec_mem_addrs(), old(self).store.memory@), top_value(old(self).store.stack@)) {
                (Some(i), Some(Value::I32(n))) => if n < 0 {
                    r is Err
                } else {
                    let (data, w) = spec_grow(old(self).store.memory@[i], n);
                    &&& r is Ok
                    &&& final(self).store.stack@ == old(self).store.stack@.drop_last().push(StackContent::Value(w))
                    &&& final(self).store.memory@.len() == old(self).store.memory@.len()
                    &&& final(self).store.memory@[i].data@ == data
                    &&& final(self).store.memory@[i].max == old(self).store.memory@[i].max
                    &&& forall|j: int| 0 <= j < old(self).store.memory@.len() && j != i ==> #[trigger] final(self).store.memory@[j] == old(self).store.memory@[j]
                },
                _ => r is Err,
            },
    {
        let mi = match self.memory_index() {
            Ok(i) => i,
            Err(e) => {
                return Err(e);
            },
        };
        let n = match self.pop_value() {
            Ok(Value::I32(n)) => n,
            _ => {
                return Err("Unexpected stack element. Expected I32");
            },
        };
        if n < 0 {
            return Err("Memory grow expected n > 0");
        }
        let ghost old_mem = self.store.memory@;
        let mut instance = self.store.memory.remove(mi);
        let sz = instance.data.len() / PAGE_SIZE;
        let res = grow_memory(&mut instance, Page::new(n as usize));
        self.store.memory.insert(mi, instance);
        proof {
            assert forall|j: int| 0 <= j < old_mem.len() implies (#[trigger] self.store.memory@[j]).max
                == old_mem[j].max && self.store.memory@[j].data@.len() >= old_mem[j].data@.len() by {
                if j != mi as int {
                    assert(self.store.memory@[j] == old_mem[j]);
                }
            }
        }
        match res {
            Err(()) => {
                self.push_value(Value::I32(-1));
            },
            Ok(_) => {
                self.push_value(Value::I32(sz as i32));
            },
        }
        Ok(())
    }
}

} // verus!
