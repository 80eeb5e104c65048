//! Decoding instructions with blocks.

use funky::parser::ast::{BlockType, CodeBlock, Counter, Instruction, ValueType};
use funky::parser::instructions::parse_instr;
use funky::parser::reader::ParseError;

/// Decodes the instruction `op` followed by `payload`, checks that all of it was
/// read, and returns the instruction.
fn decode(op: u8, payload: &[u8]) -> Instruction {
    let mut bytes = vec![op];
    bytes.extend_from_slice(payload);
    let mut counter = Counter::new();
    let (ins, p) = parse_instr(&bytes, 0, &mut counter).unwrap();
    assert_eq!(bytes.len(), p);
    ins
}

#[test]
fn test_instruction_block() {
    let ins = decode(0x02, &[0x40, 0x01, 0x01, 0x0B]);
    let mut counter = Counter::new();
    assert_eq!(ins, Instruction::OP_BLOCK(BlockType::Empty, CodeBlock::new(&mut counter, vec![Instruction::OP_NOP, Instruction::OP_NOP])));
}

#[test]
fn test_instruction_block_val_type() {
    let ins = decode(0x02, &[0x7C, 0x01, 0x01, 0x0B]);
    let mut counter = Counter::new();
    assert_eq!(
        ins,
        Instruction::OP_BLOCK(
            BlockType::ValueType(ValueType::F64),
            CodeBlock::new(&mut counter, vec![Instruction::OP_NOP, Instruction::OP_NOP])
        )
    );
}

#[test]
fn test_instruction_block_s33() {
    let ins = decode(0x02, &[0x80, 0x7f, 0x01, 0x01, 0x0B]);
    let mut counter = Counter::new();
    assert_eq!(
        ins,
        Instruction::OP_BLOCK(BlockType::FuncTy(-128), CodeBlock::new(&mut counter, vec![Instruction::OP_NOP, Instruction::OP_NOP]))
    );
}

#[test]
fn test_instruction_block_nested_2() {
    let ins = decode(0x02, &[0x40, 0x01, 0x01, 0x02, 0x40, 0x01, 0x0B, 0x01, 0x0B]);
    let mut counter = Counter::new();
    let innerblock = CodeBlock::new(&mut counter, vec![Instruction::OP_NOP]);
    assert_eq!(
        ins,
        Instruction::OP_BLOCK(
            BlockType::Empty,
            CodeBlock::new(
                &mut counter,
                vec![
                    Instruction::OP_NOP,
                    Instruction::OP_NOP,
                    Instruction::OP_BLOCK(BlockType::Empty, innerblock),
                    Instruction::OP_NOP,
                ]
            )
        )
    );
}

#[test]
fn test_instruction_block_nested_3() {
    let ins = decode(0x02, &[0x40, 0x02, 0x40, 0x02, 0x40, 0x0B, 0x0B, 0x0B]);
    let mut counter = Counter::new();
    let block1 = CodeBlock::new(&mut counter, vec![]);
    let block3 = CodeBlock::new(&mut counter, vec![Instruction::OP_BLOCK(BlockType::Empty, block1)]);
    let block2 = CodeBlock::new(&mut counter, vec![Instruction::OP_BLOCK(BlockType::Empty, block3)]);
    assert_eq!(ins, Instruction::OP_BLOCK(BlockType::Empty, block2));
}

#[test]
fn test_instruction_if() {
    let ins = decode(0x04, &[0x40, 0x01, 0x01, 0x0B]);
    let mut counter = Counter::new();
    assert_eq!(ins, Instruction::OP_IF(BlockType::Empty, CodeBlock::new(&mut counter, vec![Instruction::OP_NOP, Instruction::OP_NOP])));
}

#[test]
fn test_instruction_if_conditionals() {
    let ins = decode(0x04, &[0x40, 0x01, 0x05, 0x01, 0x0B]);
    let mut counter = Counter::new();
    assert_eq!(
        ins,
        Instruction::OP_IF_AND_ELSE(
            BlockType::Empty,
            CodeBlock::new(&mut counter, vec![Instruction::OP_NOP]),
            CodeBlock::new(&mut counter, vec![Instruction::OP_NOP])
        )
    );
}

#[test]
fn test_instruction_loop() {
    let ins = decode(0x03, &[0x40, 0x01, 0x01, 0x0B]);
    let mut counter = Counter::new();
    assert_eq!(ins, Instruction::OP_LOOP(BlockType::Empty, CodeBlock::new(&mut counter, vec![Instruction::OP_NOP, Instruction::OP_NOP])));
}

#[test]
fn test_instruction_loop_nested() {
    let ins = decode(0x03, &[0x40, 0x01, 0x01, 0x03, 0x40, 0x01, 0x01, 0x0B, 0x0B]);
    let mut counter = Counter::new();
    let innerblock = CodeBlock::new(&mut counter, vec![Instruction::OP_NOP, Instruction::OP_NOP]);
    assert_eq!(
        ins,
        Instruction::OP_LOOP(
            BlockType::Empty,
            CodeBlock::new(
                &mut counter,
                vec![Instruction::OP_NOP, Instruction::OP_NOP, Instruction::OP_LOOP(BlockType::Empty, innerblock)]
            ),
        )
    );
}

#[test]
fn unfinished_blocks_and_bad_opcodes_are_refused() {
    let mut counter = Counter::new();
    assert!(parse_instr(&[0x02, 0x40, 0x01], 0, &mut counter).is_err());
    let mut counter = Counter::new();
    assert!(parse_instr(&[0xff, 0x00, 0x00, 0x00, 0x00], 0, &mut counter).is_err());
}

#[test]
fn leaf_instructions_are_decoded_with_their_immediates() {
    let mut counter = Counter::new();
    let (ins, p) = parse_instr(&[0x41, 0x7f, 0x0b, 0x0b, 0x0b], 0, &mut counter).unwrap();
    assert_eq!(Instruction::OP_I32_CONST(-1), ins);
    assert_eq!(2, p);
    let (ins, p) = parse_instr(&[0x20, 0x05, 0x0b, 0x0b, 0x0b], 0, &mut counter).unwrap();
    assert_eq!(Instruction::OP_LOCAL_GET(5), ins);
    assert_eq!(2, p);
    let (ins, p) = parse_instr(&[0x6a], 0, &mut counter).unwrap();
    assert_eq!(Instruction::OP_I32_ADD, ins);
    assert_eq!(1, p);
}

#[test]
fn i32_constants_take_up_to_five_bytes() {
    assert_eq!(decode(0x41, &[0xFF, 0xFF, 0xFF, 0xFF, 0x07]), Instruction::OP_I32_CONST(i32::MAX));
    assert_eq!(decode(0x41, &[0x80, 0x80, 0x80, 0x80, 0x78]), Instruction::OP_I32_CONST(i32::MIN));
    assert_eq!(decode(0x41, &[0x7F]), Instruction::OP_I32_CONST(-1));
    let mut counter = Counter::new();
    assert!(parse_instr(&[0x41, 0x80, 0x80, 0x80, 0x80, 0x80], 0, &mut counter).is_err());
    assert!(parse_instr(&[0x41, 0x80, 0x80], 0, &mut counter).is_err());
}

#[test]
fn i64_constants_take_up_to_ten_bytes() {
    assert_eq!(
        decode(0x42, &[0xFF, 0xFF, 0xFF, 0xFF, 0xFF, 0xFF, 0xFF, 0xFF, 0xFF, 0x00]),
        Instruction::OP_I64_CONST(i64::MAX)
    );
    assert_eq!(
        decode(0x42, &[0x80, 0x80, 0x80, 0x80, 0x80, 0x80, 0x80, 0x80, 0x80, 0x7F]),
        Instruction::OP_I64_CONST(i64::MIN)
    );
    assert_eq!(decode(0x42, &[0x7F]), Instruction::OP_I64_CONST(-1));
    let mut counter = Counter::new();
    assert_eq!(
        Err(ParseError::Malformed),
        parse_instr(&[0x42, 0x80, 0x80, 0x80, 0x80, 0x80, 0x80, 0x80, 0x80, 0x80, 0x01], 0, &mut counter).map(|_| ())
    );
    assert_eq!(Err(ParseError::Eof), parse_instr(&[0x42, 0x80, 0x80], 0, &mut counter).map(|_| ()));
}

#[test]
fn indices_read_only_the_bytes_they_need() {
    assert_eq!(decode(0x20, &[0x00]), Instruction::OP_LOCAL_GET(0));
    assert_eq!(decode(0x10, &[0xFF, 0xFF, 0xFF, 0xFF, 0x0F]), Instruction::OP_CALL(u32::MAX));
    let mut counter = Counter::new();
    assert_eq!(Err(ParseError::Eof), parse_instr(&[0x20, 0x80], 0, &mut counter).map(|_| ()));
    assert_eq!(
        Err(ParseError::Malformed),
        parse_instr(&[0x20, 0x80, 0x80, 0x80, 0x80, 0x80], 0, &mut counter).map(|_| ())
    );
}
