//! Reading instructions and expressions.

use crate::parser::ast::{
    plain_instruction, spec_plain_instruction, BlockType, CodeBlock, Counter, Expr, Instruction,
    InstructionWrapper, MemArg, ValueType,
};
use crate::parser::grammar::{
    decodes, is_compound_opcode, list_splits, spec_index_instruction, spec_leaf,
    spec_memarg_instruction, spec_saturating_instruction, spec_take_blocktype, spec_take_br_table,
    spec_take_memarg, spec_take_u32_seq, spec_take_zero, splits, decodes_seq, decodes_block, lemma_decodes_seq_intro, END_BYTE, ELSE_BYTE,
    end_of, spec_instr_end, spec_body_end, spec_expr_end,
};
use crate::parser::reader::{
    spec_take_leb_i32, spec_take_leb_i64_upto, spec_take_leb_u32, take_f32, take_f64, take_leb_i32,
    take_leb_i33, take_leb_i64, take_leb_u32, ParseError,
};
use vstd::prelude::*;

verus! {

/// Decodes an opcode that takes one index; `None` for any other byte.
pub fn index_instruction(op: u8, x: u32) -> (i: Option<Instruction>)
    ensures
        i == spec_index_instruction(op, x),
{
    if op == 0x0C {
        Some(Instruction::OP_BR(x))
    } else if op == 0x0D {
        Some(Instruction::OP_BR_IF(x))
    } else if op == 0x10 {
        Some(Instruction::OP_CALL(x))
    } else if op == 0x20 {
        Some(Instruction::OP_LOCAL_GET(x))
    } else if op == 0x21 {
        Some(Instruction::OP_LOCAL_SET(x))
    } else if op == 0x22 {
        Some(Instruction::OP_LOCAL_TEE(x))
    } else if op == 0x23 {
        Some(Instruction::OP_GLOBAL_GET(x))
    } else if op == 0x24 {
        Some(Instruction::OP_GLOBAL_SET(x))
    } else {
        None
    }
}

/// Decodes an opcode of a load or a store; `None` for any other byte.
pub fn memarg_instruction(op: u8, m: MemArg) -> (i: Option<Instruction>)
    ensures
        i == spec_memarg_instruction(op, m),
{
    match op {
        0x28 => Some(Instruction::OP_I32_LOAD(m)),
        0x29 => Some(Instruction::OP_I64_LOAD(m)),
        0x2A => Some(Instruction::OP_F32_LOAD(m)),
        0x2B => Some(Instruction::OP_F64_LOAD(m)),
        0x2C => Some(Instruction::OP_I32_LOAD_8_s(m)),
        0x2D => Some(Instruction::OP_I32_LOAD_8_u(m)),
        0x2E => Some(Instruction::OP_I32_LOAD_16_s(m)),
        0x2F => Some(Instruction::OP_I32_LOAD_16_u(m)),
        0x30 => Some(Instruction::OP_I64_LOAD_8_s(m)),
        0x31 => Some(Instruction::OP_I64_LOAD_8_u(m)),
        0x32 => Some(Instruction::OP_I64_LOAD_16_s(m)),
        0x33 => Some(Instruction::OP_I64_LOAD_16_u(m)),
        0x34 => Some(Instruction::OP_I64_LOAD_32_s(m)),
        0x35 => Some(Instruction::OP_I64_LOAD_32_u(m)),
        0x36 => Some(Instruction::OP_I32_STORE(m)),
        0x37 => Some(Instruction::OP_I64_STORE(m)),
        0x38 => Some(Instruction::OP_F32_STORE(m)),
        0x39 => Some(Instruction::OP_F64_STORE(m)),
        0x3a => Some(Instruction::OP_I32_STORE_8(m)),
        0x3b => Some(Instruction::OP_I32_STORE_16(m)),
        0x3c => Some(Instruction::OP_I64_STORE_8(m)),
        0x3d => Some(Instruction::OP_I64_STORE_16(m)),
        0x3e => Some(Instruction::OP_I64_STORE_32(m)),
        _ => None,
    }
}

/// Decodes the byte after the prefix `0xFC`; `None` for an unknown one.
pub fn saturating_instruction(sub: u8) -> (i: Option<Instruction>)
    ensures
        i == spec_saturating_instruction(sub),
{
    match sub {
        0x00 => Some(Instruction::OP_I32_TRUNC_SAT_F32_S),
        0x01 => Some(Instruction::OP_I32_TRUNC_SAT_F32_U),
        0x02 => Some(Instruction::OP_I32_TRUNC_SAT_F64_S),
        0x03 => Some(Instruction::OP_I32_TRUNC_SAT_F64_U),
        0x04 => Some(Instruction::OP_I64_TRUNC_SAT_F32_S),
        0x05 => Some(Instruction::OP_I64_TRUNC_SAT_F32_U),
        0x06 => Some(Instruction::OP_I64_TRUNC_SAT_F64_S),
        0x07 => Some(Instruction::OP_I64_TRUNC_SAT_F64_U),
        _ => None,
    }
}

/// Reads a byte that must be zero.
pub fn take_zero(input: &[u8], pos: usize) -> (r: Result<usize, ParseError>)
    requires
        pos <= input@.len(),
    ensures
        r == spec_take_zero(input@, pos as int),
{
    if pos >= input.len() {
        Err(ParseError::Eof)
    } else if input[pos] != 0 {
        Err(ParseError::Malformed)
    } else {
        Ok(pos + 1)
    }
}

/// Reads a memory argument.
pub fn take_memarg(input: &[u8], pos: usize) -> (r: Result<(MemArg, usize), ParseError>)
    requires
        pos <= input@.len(),
    ensures
        r == spec_take_memarg(input@, pos as int),
        r matches Ok((_, p)) ==> pos < p <= input@.len(),
{
    match take_leb_u32(input, pos) {
        Err(e) => Err(e),
        Ok((align, p)) => match take_leb_u32(input, p) {
            Err(e) => Err(e),
            Ok((offset, q)) => Ok((MemArg { align, offset }, q)),
        },
    }
}

/// Reads the type of a block.
pub fn take_blocktype(input: &[u8], pos: usize) -> (r: Result<(BlockType, usize), ParseError>)
    requires
        pos <= input@.len(),
    ensures
        r == spec_take_blocktype(input@, pos as int),
        r matches Ok((_, p)) ==> pos < p <= input@.len(),
{
    if pos >= input.len() {
        return Err(ParseError::Eof);
    }
    let b = input[pos];
    if b == 0x40 {
        return Ok((BlockType::Empty, pos + 1));
    }
    match ValueType::from_byte(b) {
        Some(t) => Ok((BlockType::ValueType(t), pos + 1)),
        None => match take_leb_i33(input, pos) {
            Err(e) => Err(e),
            Ok((k, p)) => Ok((BlockType::FuncTy(k), p)),
        },
    }
}

/// Reads `n` unsigned LEB128 numbers.
pub fn take_u32_vec(input: &[u8], pos: usize, n: u32) -> (r: Result<(Vec<u32>, usize), ParseError>)
    requires
        pos <= input@.len(),
    ensures
        match spec_take_u32_seq(input@, pos as int, n as nat) {
            Ok((s, p)) => r matches Ok((v, q)) && v@ == s && q == p && pos <= q <= input@.len(),
            Err(e) => r == Err::<(Vec<u32>, usize), ParseError>(e),
        },
{
    let mut v: Vec<u32> = Vec::new();
    let mut cur = pos;
    let mut i: u32 = 0;
    while i < n
        invariant
            i <= n,
            pos <= cur <= input@.len(),
            spec_take_u32_seq(input@, pos as int, i as nat) == Ok::<(Seq<u32>, usize), ParseError>(
                (v@, cur),
            ),
        decreases n - i,
    {
        match take_leb_u32(input, cur) {
            Err(e) => {
                proof {
                    lemma_u32_seq_err(input@, pos as int, (i + 1) as nat, n as nat, e);
                }
                return Err(e);
            },
            Ok((x, q)) => {
                v.push(x);
                cur = q;
            },
        }
        i = i + 1;
    }
    Ok((v, cur))
}

/// An error in reading the first `i` numbers is the error of reading `n >= i`.
proof fn lemma_u32_seq_err(input: Seq<u8>, pos: int, i: nat, n: nat, e: ParseError)
    requires
        i <= n,
        spec_take_u32_seq(input, pos, i) == Err::<(Seq<u32>, usize), ParseError>(e),
    ensures
        spec_take_u32_seq(input, pos, n) == Err::<(Seq<u32>, usize), ParseError>(e),
    decreases n - i,
{
    if i < n {
        lemma_u32_seq_err(input, pos, i + 1, n, e);
    }
}

/// Reads the immediates of `br_table`.
pub fn take_br_table(input: &[u8], pos: usize) -> (r: Result<(Vec<u32>, u32, usize), ParseError>)
    requires
        pos <= input@.len(),
    ensures
        match spec_take_br_table(input@, pos as int) {
            Ok((s, d, p)) => r matches Ok((v, e, q)) && v@ == s && e == d && q == p && pos < q
                <= input@.len(),
            Err(e) => r == Err::<(Vec<u32>, u32, usize), ParseError>(e),
        },
{
    match take_leb_u32(input, pos) {
        Err(e) => Err(e),
        Ok((n, p)) => match take_u32_vec(input, p, n) {
            Err(e) => Err(e),
            Ok((labels, q)) => match take_leb_u32(input, q) {
                Err(e) => Err(e),
                Ok((d, r)) => Ok((labels, d, r)),
            },
        },
    }
}

/// Reads an instruction whose opcode is not compound.
pub fn parse_leaf(input: &[u8], pos: usize) -> (r: Result<(Instruction, usize), ParseError>)
    requires
        pos < input@.len(),
    ensures
        r == spec_leaf(input@, pos as int),
        r matches Ok((_, p)) ==> pos < p <= input@.len(),
{
    let op = input[pos];
    let next = pos + 1;
    if let Some(i) = plain_instruction(op) {
        return Ok((i, next));
    }
    if index_instruction(op, 0).is_some() {
        return match take_leb_u32(input, next) {
            Err(e) => Err(e),
            Ok((x, p)) => match index_instruction(op, x) {
                Some(i) => Ok((i, p)),
                None => Err(ParseError::Malformed),
            },
        };
    }
    if op == 0x11 {
        return match take_leb_u32(input, next) {
            Err(e) => Err(e),
            Ok((x, p)) => match take_zero(input, p) {
                Err(e) => Err(e),
                Ok(q) => Ok((Instruction::OP_CALL_INDIRECT(x), q)),
            },
        };
    }
    if memarg_instruction(op, MemArg { align: 0, offset: 0 }).is_some() {
        return match take_memarg(input, next) {
            Err(e) => Err(e),
            Ok((m, p)) => match memarg_instruction(op, m) {
                Some(i) => Ok((i, p)),
                None => Err(ParseError::Malformed),
            },
        };
    }
    if op == 0x3f || op == 0x40 {
        return match take_zero(input, next) {
            Err(e) => Err(e),
            Ok(q) => Ok((
                if op == 0x3f {
                    Instruction::OP_MEMORY_SIZE
                } else {
                    Instruction::OP_MEMORY_GROW
                },
                q,
            )),
        };
    }
    if op == 0x41 {
        return match take_leb_i32(input, next) {
            Err(e) => Err(e),
            Ok((v, p)) => Ok((Instruction::OP_I32_CONST(v), p)),
        };
    }
    if op == 0x42 {
        return match take_leb_i64(input, next) {
            Err(e) => Err(e),
            Ok((v, p)) => Ok((Instruction::OP_I64_CONST(v), p)),
        };
    }
    if op == 0x43 {
        return match take_f32(input, next) {
            Err(e) => Err(e),
            Ok((v, p)) => Ok((Instruction::OP_F32_CONST(v), p)),
        };
    }
    if op == 0x44 {
        return match take_f64(input, next) {
            Err(e) => Err(e),
            Ok((v, p)) => Ok((Instruction::OP_F64_CONST(v), p)),
        };
    }
    if op == 0xfc {
        if next >= input.len() {
            return Err(ParseError::Eof);
        }
        return match saturating_instruction(input[next]) {
            Some(i) => Ok((i, next + 1)),
            None => Err(ParseError::Malformed),
        };
    }
    Err(ParseError::Malformed)
}

/// From `old` to `new` the counter handed out fewer ids of each kind than the
/// `n` bytes that were read, and took none back.
pub open spec fn ids_within(old: (nat, nat), new: (nat, nat), n: int) -> bool {
    &&& old.0 <= new.0
    &&& old.1 <= new.1
    &&& new.0 + 1 <= old.0 + n
    &&& new.1 + 1 <= old.1 + n
}

/// The counter can hand out an id of each kind for every byte from `pos` on.
pub open spec fn room_for(c: (nat, nat), len: int, pos: int) -> bool {
    &&& c.0 + (len - pos) <= usize::MAX
    &&& c.1 + (len - pos) <= usize::MAX
}

/// Reads one instruction at `pos`. The blocks it holds and their instructions
/// take fresh ids from `counter`.
#[verifier::rlimit(40)]
pub fn parse_instr(input: &[u8], pos: usize, counter: &mut Counter) -> (r: Result<(Instruction, usize), ParseError>)
    requires
        pos <= input@.len(),
        room_for(old(counter)@, input@.len() as int, pos as int),
    ensures
        pos == input@.len() ==> r == Err::<(Instruction, usize), ParseError>(ParseError::Eof),
        pos < input@.len() && !is_compound_opcode(input@[pos as int]) ==> r == spec_leaf(
            input@,
            pos as int,
        ) && final(counter)@ == old(counter)@,
        pos < input@.len() && input@[pos as int] == 0x0E ==> (spec_take_br_table(input@, pos + 1) is Ok
            <==> r is Ok) && (spec_take_br_table(input@, pos + 1) matches Err(e) ==> r == Err::<
            (Instruction, usize),
            ParseError,
        >(e)),
        r matches Ok((ins, p)) ==> pos < p <= input@.len() && decodes(input@, pos as int, p as int, ins)
            && ids_within(old(counter)@, final(counter)@, p - pos),
        end_of(r) == spec_instr_end(input@, pos as int),
    decreases input@.len() - pos, 0int,
{
    if pos >= input.len() {
        return Err(ParseError::Eof);
    }
    let op = input[pos];
    if op == 0x02 || op == 0x03 {
        take_block(input, pos + 1, counter, op)
    } else if op == 0x04 {
        take_conditional(input, pos + 1, counter)
    } else if op == 0x0E {
        match take_br_table(input, pos + 1) {
            Err(e) => Err(e),
            Ok((labels, d, p)) => {
                let ins = Instruction::OP_BR_TABLE(labels, d);
                Ok((ins, p))
            },
        }
    } else {
        parse_leaf(input, pos)
    }
}

/// Reads instructions from `pos` up to an end byte, or, in the first branch of
/// an `if`, up to an end or an else byte. It returns them with the position of
/// that byte, which it does not consume.
fn take_body(input: &[u8], pos: usize, counter: &mut Counter, in_then: bool) -> (r: Result<
    (Vec<Instruction>, usize),
    ParseError,
>)
    requires
        pos <= input@.len(),
        room_for(old(counter)@, input@.len() as int, pos as int),
    ensures
        r matches Ok((v, e)) ==> {
            &&& pos <= e < input@.len()
            &&& (input@[e as int] == END_BYTE || (in_then && input@[e as int] == ELSE_BYTE))
            &&& exists|pts: Seq<int>| #[trigger] list_splits(input@, pos as int, e as int, v@, pts)
            &&& old(counter)@.0 <= final(counter)@.0
            &&& old(counter)@.1 <= final(counter)@.1
            &&& final(counter)@.0 + v@.len() <= old(counter)@.0 + (e - pos)
            &&& final(counter)@.1 + v@.len() <= old(counter)@.1 + (e - pos)
        },
        end_of(r) == spec_body_end(input@, pos as int, in_then),
    decreases input@.len() - pos, 1int,
{
    let mut v: Vec<Instruction> = Vec::new();
    let mut cur = pos;
    let ghost mut pts: Seq<int> = seq![pos as int];
    loop
        invariant
            pos <= cur <= input@.len(),
            room_for(old(counter)@, input@.len() as int, pos as int),
            list_splits(input@, pos as int, cur as int, v@, pts),
            old(counter)@.0 <= counter@.0,
            old(counter)@.1 <= counter@.1,
            counter@.0 + v@.len() <= old(counter)@.0 + (cur - pos),
            counter@.1 + v@.len() <= old(counter)@.1 + (cur - pos),
            spec_body_end(input@, pos as int, in_then) == spec_body_end(input@, cur as int, in_then),
        decreases input@.len() - cur,
    {
        if cur >= input.len() {
            return Err(ParseError::Eof);
        }
        let b = input[cur];
        if b == END_BYTE || (in_then && b == ELSE_BYTE) {
            return Ok((v, cur));
        }
        match parse_instr(input, cur, counter) {
            Err(e) => {
                return Err(e);
            },
            Ok((ins, w)) => {
                proof {
                    let n = v@.len() as int;
                    let s2 = v@.push(ins);
                    let p2 = pts.push(w as int);
                    assert forall|k: int| #![trigger p2[k], s2[k]] 0 <= k < s2.len() implies decodes(
                        input@,
                        p2[k],
                        p2[k + 1],
                        s2[k],
                    ) by {
                        if k < n {
                            assert(pts[k] == p2[k] && pts[k + 1] == p2[k + 1] && v@[k] == s2[k]);
                        }
                    }
                    pts = p2;
                }
                v.push(ins);
                cur = w;
            },
        }
    }
}

/// Reads a `block` (opcode `0x02`) or a `loop` (opcode `0x03`) after its opcode.
fn take_block(input: &[u8], pos: usize, counter: &mut Counter, op: u8) -> (r: Result<
    (Instruction, usize),
    ParseError,
>)
    requires
        1 <= pos <= input@.len(),
        op == 0x02 || op == 0x03,
        input@[pos - 1] == op,
        room_for(old(counter)@, input@.len() as int, pos - 1),
    ensures
        r matches Ok((ins, p)) ==> pos < p <= input@.len() && decodes(input@, pos - 1, p as int, ins)
            && ids_within(old(counter)@, final(counter)@, p - (pos - 1)),
        end_of(r) == spec_instr_end(input@, pos - 1),
    decreases input@.len() - pos, 2int,
{
    let (bt, q) = match take_blocktype(input, pos) {
        Err(e) => {
            return Err(e);
        },
        Ok(x) => x,
    };
    let (body, e) = match take_body(input, q, counter, false) {
        Err(e) => {
            return Err(e);
        },
        Ok(x) => x,
    };
    let ghost pts = choose|pts: Seq<int>| list_splits(input@, q as int, e as int, body@, pts);
    let cb = CodeBlock::new(counter, body);
    proof {
        let s = cb.spec_instructions();
        assert(splits(input@, q as int, e as int, s, pts)) by {
            assert forall|k: int| #![trigger pts[k], s[k]] 0 <= k < s.len() implies decodes(
                input@,
                pts[k],
                pts[k + 1],
                s[k].spec_instruction(),
            ) by {
                assert(s[k].spec_instruction() == body@[k]);
            }
        }
    }
    proof {
        let s = cb.spec_instructions();
        lemma_decodes_seq_intro(input@, q as int, e as int, s, pts);
        assert(e < input.len());
        assert(decodes_block(input@, pos as int, e + 1, bt, s));
    }
    let ins = if op == 0x02 {
        Instruction::OP_BLOCK(bt, cb)
    } else {
        Instruction::OP_LOOP(bt, cb)
    };
    Ok((ins, e + 1))
}

/// Reads an `if` after its opcode: the first branch and, after an else byte, the
/// second.
fn take_conditional(input: &[u8], pos: usize, counter: &mut Counter) -> (r: Result<
    (Instruction, usize),
    ParseError,
>)
    requires
        1 <= pos <= input@.len(),
        input@[pos - 1] == 0x04,
        room_for(old(counter)@, input@.len() as int, pos - 1),
    ensures
        r matches Ok((ins, p)) ==> pos < p <= input@.len() && decodes(input@, pos - 1, p as int, ins)
            && ids_within(old(counter)@, final(counter)@, p - (pos - 1)),
        end_of(r) == spec_instr_end(input@, pos - 1),
    decreases input@.len() - pos, 2int,
{
    let (bt, q) = match take_blocktype(input, pos) {
        Err(e) => {
            return Err(e);
        },
        Ok(x) => x,
    };
    let (body, e) = match take_body(input, q, counter, true) {
        Err(e) => {
            return Err(e);
        },
        Ok(x) => x,
    };
    let ghost pts = choose|pts: Seq<int>| list_splits(input@, q as int, e as int, body@, pts);
    if input[e] == ELSE_BYTE {
        let (else_body, e2) = match take_body(input, e + 1, counter, false) {
            Err(err) => {
                return Err(err);
            },
            Ok(x) => x,
        };
        let ghost start2: int = e + 1;
        let ghost pts2 = choose|pts: Seq<int>| list_splits(input@, start2, e2 as int, else_body@, pts);
        let cb = CodeBlock::new(counter, body);
        let cb2 = CodeBlock::new(counter, else_body);
        proof {
            let s = cb.spec_instructions();
            assert(splits(input@, q as int, e as int, s, pts)) by {
                assert forall|k: int| #![trigger pts[k], s[k]] 0 <= k < s.len() implies decodes(
                    input@,
                    pts[k],
                    pts[k + 1],
                    s[k].spec_instruction(),
                ) by {
                    assert(s[k].spec_instruction() == body@[k]);
                }
            }
            let s2 = cb2.spec_instructions();
            assert(splits(input@, e + 1, e2 as int, s2, pts2)) by {
                assert forall|k: int| #![trigger pts2[k], s2[k]] 0 <= k < s2.len() implies decodes(
                    input@,
                    pts2[k],
                    pts2[k + 1],
                    s2[k].spec_instruction(),
                ) by {
                    assert(s2[k].spec_instruction() == else_body@[k]);
                }
            }
            assert(input@[e as int] == ELSE_BYTE);
            lemma_decodes_seq_intro(input@, q as int, e as int, s, pts);
            assert(decodes_seq(input@, start2, e2 as int, s2));
            assert(e2 < input.len());
        }
        Ok((Instruction::OP_IF_AND_ELSE(bt, cb, cb2), e2 + 1))
    } else {
        let cb = CodeBlock::new(counter, body);
        proof {
            let s = cb.spec_instructions();
            assert(splits(input@, q as int, e as int, s, pts)) by {
                assert forall|k: int| #![trigger pts[k], s[k]] 0 <= k < s.len() implies decodes(
                    input@,
                    pts[k],
                    pts[k + 1],
                    s[k].spec_instruction(),
                ) by {
                    assert(s[k].spec_instruction() == body@[k]);
                }
            }
            lemma_decodes_seq_intro(input@, q as int, e as int, s, pts);
            assert(e < input.len());
            assert(decodes_block(input@, pos as int, e + 1, bt, s));
        }
        Ok((Instruction::OP_IF(bt, cb), e + 1))
    }
}

/// Reads an expression: instructions up to an end byte, which it consumes. Each
/// instruction is wrapped with a fresh id.
pub fn take_expr(input: &[u8], pos: usize, counter: &mut Counter) -> (r: Result<(Expr, usize), ParseError>)
    requires
        pos <= input@.len(),
        room_for(old(counter)@, input@.len() as int, pos as int),
    ensures
        r matches Ok((ws, p)) ==> {
            &&& pos < p <= input@.len()
            &&& input@[p - 1] == END_BYTE
            &&& decodes_seq(input@, pos as int, p - 1, ws@)
            &&& old(counter)@.0 <= final(counter)@.0 <= old(counter)@.0 + (p - pos)
            &&& old(counter)@.1 <= final(counter)@.1 <= old(counter)@.1 + (p - pos)
        },
        end_of(r) == spec_expr_end(input@, pos as int),
{
    let (body, e) = match take_body(input, pos, counter, false) {
        Err(e) => {
            return Err(e);
        },
        Ok(x) => x,
    };
    let ghost pts = choose|pts: Seq<int>| list_splits(input@, pos as int, e as int, body@, pts);
    let ghost plain = body@;
    let ws = InstructionWrapper::wrap_instructions(counter, body);
    proof {
        let s = ws@;
        assert(splits(input@, pos as int, e as int, s, pts)) by {
            assert forall|k: int| #![trigger pts[k], s[k]] 0 <= k < s.len() implies decodes(
                input@,
                pts[k],
                pts[k + 1],
                s[k].spec_instruction(),
            ) by {
                assert(s[k].spec_instruction() == plain[k]);
            }
        }
        lemma_decodes_seq_intro(input@, pos as int, e as int, s, pts);
        assert(e < input.len());
    }
    Ok((ws, e + 1))
}

} // verus!
