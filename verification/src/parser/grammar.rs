//! The grammar of instructions in the binary format, as spec functions.
//!
//! `spec_leaf` says what an instruction without a nested block reads, errors
//! included. `decodes` says when the bytes `input[a..b]` are the encoding of an
//! instruction, nested blocks included.

use crate::parser::ast::{
    block_smaller, lemma_plain_opcode_round_trip, plain_opcode, spec_plain_instruction, wrapper_smaller, BlockType, CodeBlock, Instruction,
    InstructionWrapper, MemArg, ValueType, spec_value_type_of_byte,
};
use crate::parser::reader::{
    spec_take_leb_i32, spec_take_leb_i64_upto, spec_take_leb_u32, window, ParseError,
};
use vstd::bytes::{spec_u32_from_le_bytes, spec_u64_from_le_bytes};
use vstd::prelude::*;

verus! {

/// The byte that ends a block or an expression.
pub const END_BYTE: u8 = 0x0B;

/// The byte that ends the first branch of an `if` with an `else`.
pub const ELSE_BYTE: u8 = 0x05;

/// The instruction of an opcode that takes one index as its immediate.
pub open spec fn spec_index_instruction(op: u8, x: u32) -> Option<Instruction> {
    if op == 0x0C {
        Some(Instruction::OP_BR(x))
    } else if op == 0x0D {
        Some(Instruction::OP_BR_IF(x))
    } else if op == 0x10 {
        Some(Instruction::OP_CALL(x))
    } else if op == 0x20 {
        Some(Instruction::OP_LOCAL_GET(x))
    } else if op == 0x21 {
        Some(Instruction::OP_LOCAL_SET(x))
    } else if op == 0x22 {
        Some(Instruction::OP_LOCAL_TEE(x))
    } else if op == 0x23 {
        Some(Instruction::OP_GLOBAL_GET(x))
    } else if op == 0x24 {
        Some(Instruction::OP_GLOBAL_SET(x))
    } else {
        None
    }
}

/// The load or store of an opcode that takes a memory argument.
pub open spec fn spec_memarg_instruction(op: u8, m: MemArg) -> Option<Instruction> {
    match op {
        0x28 => Some(Instruction::OP_I32_LOAD(m)),
        0x29 => Some(Instruction::OP_I64_LOAD(m)),
        0x2A => Some(Instruction::OP_F32_LOAD(m)),
        0x2B => Some(Instruction::OP_F64_LOAD(m)),
        0x2C => Some(Instruction::OP_I32_LOAD_8_s(m)),
        0x2D => Some(Instruction::OP_I32_LOAD_8_u(m)),
        0x2E => Some(Instruction::OP_I32_LOAD_16_s(m)),
        0x2F => Some(Instruction::OP_I32_LOAD_16_u(m)),
        0x30 => Some(Instruction::OP_I64_LOAD_8_s(m)),
        0x31 => Some(Instruction::OP_I64_LOAD_8_u(m)),
        0x32 => Some(Instruction::OP_I64_LOAD_16_s(m)),
        0x33 => Some(Instruction::OP_I64_LOAD_16_u(m)),
        0x34 => Some(Instruction::OP_I64_LOAD_32_s(m)),
        0x35 => Some(Instruction::OP_I64_LOAD_32_u(m)),
        0x36 => Some(Instruction::OP_I32_STORE(m)),
        0x37 => Some(Instruction::OP_I64_STORE(m)),
        0x38 => Some(Instruction::OP_F32_STORE(m)),
        0x39 => Some(Instruction::OP_F64_STORE(m)),
        0x3a => Some(Instruction::OP_I32_STORE_8(m)),
        0x3b => Some(Instruction::OP_I32_STORE_16(m)),
        0x3c => Some(Instruction::OP_I64_STORE_8(m)),
        0x3d => Some(Instruction::OP_I64_STORE_16(m)),
        0x3e => Some(Instruction::OP_I64_STORE_32(m)),
        _ => None,
    }
}

/// The saturating truncation that follows the prefix byte `0xFC`.
pub open spec fn spec_saturating_instruction(sub: u8) -> Option<Instruction> {
    match sub {
        0x00 => Some(Instruction::OP_I32_TRUNC_SAT_F32_S),
        0x01 => Some(Instruction::OP_I32_TRUNC_SAT_F32_U),
        0x02 => Some(Instruction::OP_I32_TRUNC_SAT_F64_S),
        0x03 => Some(Instruction::OP_I32_TRUNC_SAT_F64_U),
        0x04 => Some(Instruction::OP_I64_TRUNC_SAT_F32_S),
        0x05 => Some(Instruction::OP_I64_TRUNC_SAT_F32_U),
        0x06 => Some(Instruction::OP_I64_TRUNC_SAT_F64_S),
        0x07 => Some(Instruction::OP_I64_TRUNC_SAT_F64_U),
        _ => None,
    }
}

/// The first byte of the encoding of an instruction that is neither a block,
/// a loop, an `if` nor a `br_table`, as the opcode table of the binary format
/// gives it.
pub open spec fn leaf_opcode(ins: Instruction) -> Option<u8> {
    match ins {
        Instruction::OP_BR(_) => Some(0x0Cu8),
        Instruction::OP_BR_IF(_) => Some(0x0Du8),
        Instruction::OP_CALL(_) => Some(0x10u8),
        Instruction::OP_CALL_INDIRECT(_) => Some(0x11u8),
        Instruction::OP_LOCAL_GET(_) => Some(0x20u8),
        Instruction::OP_LOCAL_SET(_) => Some(0x21u8),
        Instruction::OP_LOCAL_TEE(_) => Some(0x22u8),
        Instruction::OP_GLOBAL_GET(_) => Some(0x23u8),
        Instruction::OP_GLOBAL_SET(_) => Some(0x24u8),
        Instruction::OP_I32_LOAD(_) => Some(0x28u8),
        Instruction::OP_I64_LOAD(_) => Some(0x29u8),
        Instruction::OP_F32_LOAD(_) => Some(0x2Au8),
        Instruction::OP_F64_LOAD(_) => Some(0x2Bu8),
        Instruction::OP_I32_LOAD_8_s(_) => Some(0x2Cu8),
        Instruction::OP_I32_LOAD_8_u(_) => Some(0x2Du8),
        Instruction::OP_I32_LOAD_16_s(_) => Some(0x2Eu8),
        Instruction::OP_I32_LOAD_16_u(_) => Some(0x2Fu8),
        Instruction::OP_I64_LOAD_8_s(_) => Some(0x30u8),
        Instruction::OP_I64_LOAD_8_u(_) => Some(0x31u8),
        Instruction::OP_I64_LOAD_16_s(_) => Some(0x32u8),
        Instruction::OP_I64_LOAD_16_u(_) => Some(0x33u8),
        Instruction::OP_I64_LOAD_32_s(_) => Some(0x34u8),
        Instruction::OP_I64_LOAD_32_u(_) => Some(0x35u8),
        Instruction::OP_I32_STORE(_) => Some(0x36u8),
        Instruction::OP_I64_STORE(_) => Some(0x37u8),
        Instruction::OP_F32_STORE(_) => Some(0x38u8),
        Instruction::OP_F64_STORE(_) => Some(0x39u8),
        Instruction::OP_I32_STORE_8(_) => Some(0x3au8),
        Instruction::OP_I32_STORE_16(_) => Some(0x3bu8),
        Instruction::OP_I64_STORE_8(_) => Some(0x3cu8),
        Instruction::OP_I64_STORE_16(_) => Some(0x3du8),
        Instruction::OP_I64_STORE_32(_) => Some(0x3eu8),
        Instruction::OP_MEMORY_SIZE => Some(0x3fu8),
        Instruction::OP_MEMORY_GROW => Some(0x40u8),
        Instruction::OP_I32_CONST(_) => Some(0x41u8),
        Instruction::OP_I64_CONST(_) => Some(0x42u8),
        Instruction::OP_F32_CONST(_) => Some(0x43u8),
        Instruction::OP_F64_CONST(_) => Some(0x44u8),
        Instruction::OP_I32_TRUNC_SAT_F32_S => Some(0xFCu8),
        Instruction::OP_I32_TRUNC_SAT_F32_U => Some(0xFCu8),
        Instruction::OP_I32_TRUNC_SAT_F64_S => Some(0xFCu8),
        Instruction::OP_I32_TRUNC_SAT_F64_U => Some(0xFCu8),
        Instruction::OP_I64_TRUNC_SAT_F32_S => Some(0xFCu8),
        Instruction::OP_I64_TRUNC_SAT_F32_U => Some(0xFCu8),
        Instruction::OP_I64_TRUNC_SAT_F64_S => Some(0xFCu8),
        Instruction::OP_I64_TRUNC_SAT_F64_U => Some(0xFCu8),
        _ => plain_opcode(ins),
    }
}

/// The byte after the prefix `0xFC` in the encoding of a saturating truncation.
pub open spec fn saturating_code(ins: Instruction) -> Option<u8> {
    match ins {
        Instruction::OP_I32_TRUNC_SAT_F32_S => Some(0x00u8),
        Instruction::OP_I32_TRUNC_SAT_F32_U => Some(0x01u8),
        Instruction::OP_I32_TRUNC_SAT_F64_S => Some(0x02u8),
        Instruction::OP_I32_TRUNC_SAT_F64_U => Some(0x03u8),
        Instruction::OP_I64_TRUNC_SAT_F32_S => Some(0x04u8),
        Instruction::OP_I64_TRUNC_SAT_F32_U => Some(0x05u8),
        Instruction::OP_I64_TRUNC_SAT_F64_S => Some(0x06u8),
        Instruction::OP_I64_TRUNC_SAT_F64_U => Some(0x07u8),
        _ => None,
    }
}

/// Reading an instruction that is neither a block, a loop, an `if` nor a
/// `br_table` follows the opcode table of the binary format: what is read is
/// an instruction whose encoding starts with the byte read (and, after the
/// prefix `0xFC`, with the byte after it), so no two opcodes are read as the
/// same instruction.
pub proof fn lemma_leaf_opcode(input: Seq<u8>, pos: int)
    requires
        0 <= pos < input.len(),
    ensures
        spec_leaf(input, pos) matches Ok((ins, p)) ==> leaf_opcode(ins) == Some(input[pos]) && (input[pos] == 0xFC
            ==> saturating_code(ins) == Some(input[pos + 1])),
{
    let op = input[pos];
    if spec_plain_instruction(op) is Some {
        lemma_plain_opcode_round_trip(op, spec_plain_instruction(op).unwrap());
    }
}

/// A byte that must be zero, at `pos`.
pub open spec fn spec_take_zero(input: Seq<u8>, pos: int) -> Result<usize, ParseError> {
    if pos >= input.len() {
        Err(ParseError::Eof)
    } else if input[pos] != 0 {
        Err(ParseError::Malformed)
    } else {
        Ok((pos + 1) as usize)
    }
}

/// A memory argument: the alignment, then the offset, both unsigned LEB128.
pub open spec fn spec_take_memarg(input: Seq<u8>, pos: int) -> Result<(MemArg, usize), ParseError> {
    match spec_take_leb_u32(input, pos) {
        Err(e) => Err(e),
        Ok((align, p)) => match spec_take_leb_u32(input, p as int) {
            Err(e) => Err(e),
            Ok((offset, q)) => Ok((MemArg { align, offset }, q)),
        },
    }
}

/// The type of a block: `0x40` for none, a value type byte, or a signed 33-bit
/// index of a function type.
pub open spec fn spec_take_blocktype(input: Seq<u8>, pos: int) -> Result<(BlockType, usize), ParseError> {
    if pos >= input.len() {
        Err(ParseError::Eof)
    } else if input[pos] == 0x40 {
        Ok((BlockType::Empty, (pos + 1) as usize))
    } else if spec_value_type_of_byte(input[pos]) is Some {
        Ok((BlockType::ValueType(spec_value_type_of_byte(input[pos]).unwrap()), (pos + 1) as usize))
    } else {
        match spec_take_leb_i64_upto(input, pos, 5) {
            Err(e) => Err(e),
            Ok((k, p)) => Ok((BlockType::FuncTy(k), p)),
        }
    }
}

/// `n` unsigned LEB128 numbers, one after the other.
pub open spec fn spec_take_u32_seq(input: Seq<u8>, pos: int, n: nat) -> Result<(Seq<u32>, usize), ParseError>
    decreases n,
{
    if n == 0 {
        Ok((Seq::empty(), pos as usize))
    } else {
        match spec_take_u32_seq(input, pos, (n - 1) as nat) {
            Err(e) => Err(e),
            Ok((s, p)) => match spec_take_leb_u32(input, p as int) {
                Err(e) => Err(e),
                Ok((x, q)) => Ok((s.push(x), q)),
            },
        }
    }
}

/// The immediates of `br_table`: the count of labels, the labels, and the default.
pub open spec fn spec_take_br_table(input: Seq<u8>, pos: int) -> Result<(Seq<u32>, u32, usize), ParseError> {
    match spec_take_leb_u32(input, pos) {
        Err(e) => Err(e),
        Ok((n, p)) => match spec_take_u32_seq(input, p as int, n as nat) {
            Err(e) => Err(e),
            Ok((labels, q)) => match spec_take_leb_u32(input, q as int) {
                Err(e) => Err(e),
                Ok((d, r)) => Ok((labels, d, r)),
            },
        },
    }
}

/// Whether `op` opens a nested block or carries a list: those are read by
/// `decodes`, not by `spec_leaf`.
pub open spec fn is_compound_opcode(op: u8) -> bool {
    op == 0x02 || op == 0x03 || op == 0x04 || op == 0x0E
}

/// What reading the instruction at `pos` gives, for an opcode that is not
/// compound: the instruction and the position after it, or the error.
pub open spec fn spec_leaf(input: Seq<u8>, pos: int) -> Result<(Instruction, usize), ParseError> {
    let op = input[pos];
    let next = pos + 1;
    if spec_plain_instruction(op) is Some {
        Ok((spec_plain_instruction(op).unwrap(), next as usize))
    } else if spec_index_instruction(op, 0) is Some {
        match spec_take_leb_u32(input, next) {
            Err(e) => Err(e),
            Ok((x, p)) => Ok((spec_index_instruction(op, x).unwrap(), p)),
        }
    } else if op == 0x11 {
        match spec_take_leb_u32(input, next) {
            Err(e) => Err(e),
            Ok((x, p)) => match spec_take_zero(input, p as int) {
                Err(e) => Err(e),
                Ok(q) => Ok((Instruction::OP_CALL_INDIRECT(x), q)),
            },
        }
    } else if spec_memarg_instruction(op, MemArg { align: 0, offset: 0 }) is Some {
        match spec_take_memarg(input, next) {
            Err(e) => Err(e),
            Ok((m, p)) => Ok((spec_memarg_instruction(op, m).unwrap(), p)),
        }
    } else if op == 0x3f || op == 0x40 {
        match spec_take_zero(input, next) {
            Err(e) => Err(e),
            Ok(q) => Ok((
                if op == 0x3f {
                    Instruction::OP_MEMORY_SIZE
                } else {
                    Instruction::OP_MEMORY_GROW
                },
                q,
            )),
        }
    } else if op == 0x41 {
        match spec_take_leb_i32(input, next) {
            Err(e) => Err(e),
            Ok((v, p)) => Ok((Instruction::OP_I32_CONST(v), p)),
        }
    } else if op == 0x42 {
        match spec_take_leb_i64_upto(input, next, 10) {
            Err(e) => Err(e),
            Ok((v, p)) => Ok((Instruction::OP_I64_CONST(v), p)),
        }
    } else if op == 0x43 {
        if next + 4 > input.len() {
            Err(ParseError::Eof)
        } else {
            Ok((Instruction::OP_F32_CONST(spec_u32_from_le_bytes(window(input, next, 4))), (next + 4) as usize))
        }
    } else if op == 0x44 {
        if next + 8 > input.len() {
            Err(ParseError::Eof)
        } else {
            Ok((Instruction::OP_F64_CONST(spec_u64_from_le_bytes(window(input, next, 8))), (next + 8) as usize))
        }
    } else if op == 0xfc {
        if next >= input.len() {
            Err(ParseError::Eof)
        } else if spec_saturating_instruction(input[next]) is Some {
            Ok((spec_saturating_instruction(input[next]).unwrap(), (next + 1) as usize))
        } else {
            Err(ParseError::Malformed)
        }
    } else {
        Err(ParseError::Malformed)
    }
}

/// The bytes `input[a..b]` encode the instruction `ins`. A block is its opcode,
/// its type, the encodings of its instructions one after the other, and the end
/// byte; an `if` with an `else` has the else byte between its two branches.
pub open spec fn decodes(input: Seq<u8>, a: int, b: int, ins: Instruction) -> bool
    decreases ins, 2int,
{
    &&& 0 <= a < b <= input.len()
    &&& match ins {
        Instruction::OP_BLOCK(bt, cb) => {
            proof {
                block_smaller(cb);
            }
            input[a] == 0x02 && decodes_block(input, a + 1, b, bt, cb.spec_instructions())
        },
        Instruction::OP_LOOP(bt, cb) => {
            proof {
                block_smaller(cb);
            }
            input[a] == 0x03 && decodes_block(input, a + 1, b, bt, cb.spec_instructions())
        },
        Instruction::OP_IF(bt, cb) => {
            proof {
                block_smaller(cb);
            }
            input[a] == 0x04 && decodes_block(input, a + 1, b, bt, cb.spec_instructions())
        },
        Instruction::OP_IF_AND_ELSE(bt, c1, c2) => {
            proof {
                block_smaller(c1);
                block_smaller(c2);
            }
            &&& input[a] == 0x04
            &&& input[b - 1] == END_BYTE
            &&& match spec_take_blocktype(input, a + 1) {
                Ok((t, q)) => t == bt && exists|m: int|
                    #![trigger input[m]]
                    input[m] == ELSE_BYTE && decodes_seq(input, q as int, m, c1.spec_instructions())
                        && decodes_seq(input, m + 1, b - 1, c2.spec_instructions()),
                Err(_) => false,
            }
        },
        Instruction::OP_BR_TABLE(labels, d) => input[a] == 0x0E && spec_take_br_table(input, a + 1)
            == Ok::<(Seq<u32>, u32, usize), ParseError>((labels@, d, b as usize)),
        _ => !is_compound_opcode(input[a]) && spec_leaf(input, a) == Ok::<(Instruction, usize), ParseError>(
            (ins, b as usize),
        ),
    }
}

/// After the opcode: the block type at `a`, the instructions, and the end byte
/// just before `b`.
pub open spec fn decodes_block(input: Seq<u8>, a: int, b: int, bt: BlockType, s: Seq<InstructionWrapper>) -> bool
    decreases s, 2int,
{
    &&& 0 < b <= input.len()
    &&& input[b - 1] == END_BYTE
    &&& match spec_take_blocktype(input, a) {
        Ok((t, q)) => t == bt && decodes_seq(input, q as int, b - 1, s),
        Err(_) => false,
    }
}

/// The bytes `input[a..b]` encode the instructions of `s`, one after the other.
pub open spec fn decodes_seq(input: Seq<u8>, a: int, b: int, s: Seq<InstructionWrapper>) -> bool
    decreases s, 1int,
{
    exists|pts: Seq<int>|
        #[trigger] cuts(a, b, s.len(), pts) && forall|k: int|
            #![trigger pts[k], s[k]]
            0 <= k < s.len() ==> {
                proof {
                    wrapper_smaller(s, k);
                }
                decodes(input, pts[k], pts[k + 1], s[k].spec_instruction())
            }
}

/// `pts` runs from `a` to `b` in `n` steps.
pub open spec fn cuts(a: int, b: int, n: nat, pts: Seq<int>) -> bool {
    &&& pts.len() == n + 1
    &&& pts[0] == a
    &&& pts[n as int] == b
}

/// `pts` cuts `input[a..b]` into the encodings of the instructions of `s`.
pub open spec fn splits(input: Seq<u8>, a: int, b: int, s: Seq<InstructionWrapper>, pts: Seq<int>) -> bool {
    &&& cuts(a, b, s.len(), pts)
    &&& forall|k: int|
        #![trigger pts[k], s[k]]
        0 <= k < s.len() ==> decodes(input, pts[k], pts[k + 1], s[k].spec_instruction())
}

/// `pts` cuts `input[a..b]` into the encodings of the instructions of `s`.
pub open spec fn list_splits(input: Seq<u8>, a: int, b: int, s: Seq<Instruction>, pts: Seq<int>) -> bool {
    &&& pts.len() == s.len() + 1
    &&& pts[0] == a
    &&& pts[s.len() as int] == b
    &&& forall|k: int| #![trigger pts[k], s[k]] 0 <= k < s.len() ==> decodes(input, pts[k], pts[k + 1], s[k])
}

/// Split points are a witness of a decoding.
pub proof fn lemma_decodes_seq_intro(input: Seq<u8>, a: int, b: int, s: Seq<InstructionWrapper>, pts: Seq<int>)
    requires
        splits(input, a, b, s, pts),
    ensures
        decodes_seq(input, a, b, s),
{
}

/// Where a read ended, or the error it met.
pub open spec fn end_of<T>(r: Result<(T, usize), ParseError>) -> Result<usize, ParseError> {
    match r {
        Ok((_, p)) => Ok(p),
        Err(e) => Err(e),
    }
}

/// `p` lies after `pos` and within the input. Reading always moves forward, so
/// where this is tested below it holds.
pub open spec fn forward(pos: int, p: int, len: int) -> bool {
    pos < p <= len
}

/// Where reading the instruction at `pos` ends, or the error it meets. A block
/// is read up to its end byte; an `if` whose first branch stops at an else byte
/// goes on with its second branch.
pub open spec fn spec_instr_end(input: Seq<u8>, pos: int) -> Result<usize, ParseError>
    decreases input.len() - pos, 0int,
{
    if pos < 0 || pos >= input.len() {
        Err(ParseError::Eof)
    } else {
        let op = input[pos];
        if op == 0x02 || op == 0x03 || op == 0x04 {
            match spec_take_blocktype(input, pos + 1) {
                Err(x) => Err(x),
                Ok((_, q)) => if !forward(pos, q as int, input.len() as int) {
                    Err(ParseError::Malformed)
                } else {
                    match spec_body_end(input, q as int, op == 0x04) {
                        Err(x) => Err(x),
                        Ok(e) => if op == 0x04 && e < input.len() && input[e as int] == ELSE_BYTE {
                            if !forward(pos, e + 1, input.len() as int) {
                                Err(ParseError::Malformed)
                            } else {
                                match spec_body_end(input, e + 1, false) {
                                    Err(x) => Err(x),
                                    Ok(e2) => Ok((e2 + 1) as usize),
                                }
                            }
                        } else {
                            Ok((e + 1) as usize)
                        },
                    }
                },
            }
        } else if op == 0x0E {
            match spec_take_br_table(input, pos + 1) {
                Err(x) => Err(x),
                Ok((_, _, p)) => Ok(p),
            }
        } else {
            end_of(spec_leaf(input, pos))
        }
    }
}

/// Where reading instructions from `pos` stops: the position of the end byte
/// (or, in the first branch of an `if`, of an else byte) that follows them, or
/// the error that reading them meets.
pub open spec fn spec_body_end(input: Seq<u8>, pos: int, in_then: bool) -> Result<usize, ParseError>
    decreases input.len() - pos, 1int,
{
    if pos < 0 || pos >= input.len() {
        Err(ParseError::Eof)
    } else if input[pos] == END_BYTE || (in_then && input[pos] == ELSE_BYTE) {
        Ok(pos as usize)
    } else {
        match spec_instr_end(input, pos) {
            Err(x) => Err(x),
            Ok(w) => if !forward(pos, w as int, input.len() as int) {
                Err(ParseError::Malformed)
            } else {
                spec_body_end(input, w as int, in_then)
            },
        }
    }
}

/// Where reading an expression at `pos` ends, after its end byte, or the error
/// it meets.
pub open spec fn spec_expr_end(input: Seq<u8>, pos: int) -> Result<usize, ParseError> {
    match spec_body_end(input, pos, false) {
        Err(x) => Err(x),
        Ok(e) => Ok((e + 1) as usize),
    }
}

} // verus!
