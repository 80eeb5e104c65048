//! Whole modules in the binary format: parsed, validated, and run by the engine.

use funky::debugger::RelativeProgramCounter;
use funky::engine::memory::MemoryInstance;
use funky::engine::stack::{Frame, Label};
use funky::engine::store::{ExportInstance, Variable};
use funky::parser::ast::{
    BlockType, CodeBlock, Counter, ExternalKindType, FuncAddr, FunctionBody, FunctionSignature, GlobalAddr, Instruction,
    InstructionWrapper, MemArg, MemoryAddr, ValueType,
};
use funky::PAGE_SIZE;
use funky::engine::numeric::{Conversion, FloatBinaryOp, FloatCompareOp, FloatUnaryOp, FloatUnit};
use funky::engine::module::ModuleInstance;
use funky::engine::stack::StackContent;
use funky::engine::{Engine, InstructionOutcome};
use funky::parser::{parse, Module};
use funky::validation::checks::check_memory_ty;
use funky::validation::validate;
use funky::parser::ast::{Limits, MemoryType};
use funky::value::Value;

// ---------------------------------------------------------------------------
// The floating-point unit of the host.

struct HostFloats;

fn f32_of(v: Value) -> Option<f32> {
    match v {
        Value::F32(b) => Some(f32::from_bits(b)),
        _ => None,
    }
}

fn f64_of(v: Value) -> Option<f64> {
    match v {
        Value::F64(b) => Some(f64::from_bits(b)),
        _ => None,
    }
}

impl FloatUnit for HostFloats {
    fn unary(&self, op: FloatUnaryOp, v: Value) -> Option<Value> {
        match v {
            Value::F32(b) => {
                let x = f32::from_bits(b);
                let r = match op {
                    FloatUnaryOp::Ceil => x.ceil(),
                    FloatUnaryOp::Floor => x.floor(),
                    FloatUnaryOp::Trunc => x.trunc(),
                    FloatUnaryOp::Sqrt => x.sqrt(),
                    FloatUnaryOp::Nearest => {
                        if x.is_nan() {
                            f32::NAN
                        } else {
                            let fract = x.fract().abs();
                            let round = x.round();
                            if (fract - 0.5).abs() > f32::EPSILON {
                                round
                            } else if (round % 2.0 - 1.0).abs() < f32::EPSILON {
                                x.floor()
                            } else if (round % 2.0 + 1.0).abs() < f32::EPSILON {
                                x.ceil()
                            } else {
                                round
                            }
                        }
                    }
                };
                Some(Value::F32(r.to_bits()))
            }
            Value::F64(b) => {
                let x = f64::from_bits(b);
                let r = match op {
                    FloatUnaryOp::Ceil => x.ceil(),
                    FloatUnaryOp::Floor => x.floor(),
                    FloatUnaryOp::Trunc => x.trunc(),
                    FloatUnaryOp::Sqrt => x.sqrt(),
                    FloatUnaryOp::Nearest => {
                        if x.is_nan() {
                            f64::NAN
                        } else {
                            let fract = x.fract().abs();
                            let round = x.round();
                            if (fract - 0.5).abs() > f64::EPSILON {
                                round
                            } else if (round % 2.0 - 1.0).abs() < f64::EPSILON {
                                x.floor()
                            } else if (round % 2.0 + 1.0).abs() < f64::EPSILON {
                                x.ceil()
                            } else {
                                round
                            }
                        }
                    }
                };
                Some(Value::F64(r.to_bits()))
            }
            _ => None,
        }
    }

    fn binary(&self, op: FloatBinaryOp, a: Value, b: Value) -> Option<Value> {
        match (a, b) {
            (Value::F32(x), Value::F32(y)) => {
                let (x, y) = (f32::from_bits(x), f32::from_bits(y));
                let r = match op {
                    FloatBinaryOp::Add => x + y,
                    FloatBinaryOp::Sub => x - y,
                    FloatBinaryOp::Mul => x * y,
                    FloatBinaryOp::Div => x / y,
                    FloatBinaryOp::Rem => x % y,
                    FloatBinaryOp::Min => {
                        if x.is_nan() || y.is_nan() {
                            f32::NAN
                        } else {
                            (y as f64).min(x as f64) as f32
                        }
                    }
                    FloatBinaryOp::Max => {
                        if x.is_nan() || y.is_nan() {
                            f32::NAN
                        } else {
                            (y as f64).max(x as f64) as f32
                        }
                    }
                };
                Some(Value::F32(r.to_bits()))
            }
            (Value::F64(x), Value::F64(y)) => {
                let (x, y) = (f64::from_bits(x), f64::from_bits(y));
                let r = match op {
                    FloatBinaryOp::Add => x + y,
                    FloatBinaryOp::Sub => x - y,
                    FloatBinaryOp::Mul => x * y,
                    FloatBinaryOp::Div => x / y,
                    FloatBinaryOp::Rem => x % y,
                    FloatBinaryOp::Min => {
                        if x.is_nan() || y.is_nan() {
                            f64::NAN
                        } else {
                            y.min(x)
                        }
                    }
                    FloatBinaryOp::Max => {
                        if x.is_nan() || y.is_nan() {
                            f64::NAN
                        } else {
                            y.max(x)
                        }
                    }
                };
                Some(Value::F64(r.to_bits()))
            }
            _ => None,
        }
    }

    fn compare(&self, op: FloatCompareOp, a: Value, b: Value) -> Option<bool> {
        let (x, y) = match (a, b) {
            (Value::F32(x), Value::F32(y)) => (f32::from_bits(x) as f64, f32::from_bits(y) as f64),
            (Value::F64(x), Value::F64(y)) => (f64::from_bits(x), f64::from_bits(y)),
            _ => return None,
        };
        Some(match op {
            FloatCompareOp::Eq => x == y,
            FloatCompareOp::Ne => x != y,
            FloatCompareOp::Lt => x < y,
            FloatCompareOp::Gt => x > y,
            FloatCompareOp::Le => x <= y,
            FloatCompareOp::Ge => x >= y,
        })
    }

    fn convert(&self, op: Conversion, v: Value) -> Option<Value> {
        let r = match (op, v) {
            (Conversion::I32_TRUNC_F32_S, Value::F32(_)) => Value::I32(f32_of(v)? as i32),
            (Conversion::I32_TRUNC_F32_U, Value::F32(_)) => Value::I32(f32_of(v)? as u32 as i32),
            (Conversion::I32_TRUNC_F64_S, Value::F64(_)) => Value::I32(f64_of(v)? as i32),
            (Conversion::I32_TRUNC_F64_U, Value::F64(_)) => Value::I32(f64_of(v)? as u32 as i32),
            (Conversion::I64_TRUNC_F32_S, Value::F32(_)) => Value::I64(f32_of(v)? as i64),
            (Conversion::I64_TRUNC_F32_U, Value::F32(_)) => Value::I64(f32_of(v)? as u64 as i64),
            (Conversion::I64_TRUNC_F64_S, Value::F64(_)) => Value::I64(f64_of(v)? as i64),
            (Conversion::I64_TRUNC_F64_U, Value::F64(_)) => Value::I64(f64_of(v)? as u64 as i64),
            (Conversion::F32_CONVERT_I32_S, Value::I32(i)) => Value::F32((i as f32).to_bits()),
            (Conversion::F32_CONVERT_I32_U, Value::I32(i)) => Value::F32((i as u32 as f32).to_bits()),
            (Conversion::F32_CONVERT_I64_S, Value::I64(i)) => Value::F32((i as f32).to_bits()),
            (Conversion::F32_CONVERT_I64_U, Value::I64(i)) => Value::F32((i as u64 as f32).to_bits()),
            (Conversion::F32_DEMOTE_F64, Value::F64(_)) => Value::F32((f64_of(v)? as f32).to_bits()),
            (Conversion::F64_CONVERT_I32_S, Value::I32(i)) => Value::F64((i as f64).to_bits()),
            (Conversion::F64_CONVERT_I32_U, Value::I32(i)) => Value::F64((i as u32 as f64).to_bits()),
            (Conversion::F64_CONVERT_I64_S, Value::I64(i)) => Value::F64((i as f64).to_bits()),
            (Conversion::F64_CONVERT_I64_U, Value::I64(i)) => Value::F64((i as u64 as f64).to_bits()),
            (Conversion::F64_PROMOTE_F32, Value::F32(_)) => Value::F64((f32_of(v)? as f64).to_bits()),
            (Conversion::I32_TRUNC_SAT_F32_S, _) | (Conversion::I32_TRUNC_SAT_F64_S, _) => {
                let x = f32_of(v).map(|x| x as f64).or(f64_of(v))?;
                Value::I32(if x.is_nan() {
                    0
                } else if x < i32::MIN as f64 {
                    i32::MIN
                } else if x > i32::MAX as f64 {
                    i32::MAX
                } else {
                    x.trunc() as i32
                })
            }
            (Conversion::I64_TRUNC_SAT_F32_S, _) | (Conversion::I64_TRUNC_SAT_F64_S, _) => {
                let x = f32_of(v).map(|x| x as f64).or(f64_of(v))?;
                Value::I64(if x.is_nan() {
                    0
                } else if x < i64::MIN as f64 {
                    i64::MIN
                } else if x > i64::MAX as f64 {
                    i64::MAX
                } else {
                    x.trunc() as i64
                })
            }
            (Conversion::I32_TRUNC_SAT_F32_U, Value::F32(_)) | (Conversion::I32_TRUNC_SAT_F64_U, Value::F64(_)) => {
                let x = f32_of(v).map(|x| x as f64).or(f64_of(v))?;
                Value::I32(if x.is_nan() {
                    0
                } else if x.is_infinite() {
                    if x < 0.0 { 0 } else { u32::MAX as i32 }
                } else {
                    x.trunc() as u32 as i32
                })
            }
            (Conversion::I64_TRUNC_SAT_F32_U, Value::F32(_)) | (Conversion::I64_TRUNC_SAT_F64_U, Value::F64(_)) => {
                let x = f32_of(v).map(|x| x as f64).or(f64_of(v))?;
                Value::I64(if x.is_nan() {
                    0
                } else if x.is_infinite() {
                    if x < 0.0 { 0 } else { u64::MAX as i64 }
                } else {
                    x.trunc() as u64 as i64
                })
            }
            _ => return None,
        };
        Some(r)
    }
}

// ---------------------------------------------------------------------------
// Writing modules in the binary format.

const I32: u8 = 0x7f;
const I64: u8 = 0x7e;
const F32: u8 = 0x7d;

fn leb_u(mut n: u64) -> Vec<u8> {
    let mut out = Vec::new();
    loop {
        let byte = (n & 0x7f) as u8;
        n >>= 7;
        if n == 0 {
            out.push(byte);
            return out;
        }
        out.push(byte | 0x80);
    }
}

fn leb_s(mut n: i64) -> Vec<u8> {
    let mut out = Vec::new();
    loop {
        let byte = (n & 0x7f) as u8;
        n >>= 7;
        let done = (n == 0 && byte & 0x40 == 0) || (n == -1 && byte & 0x40 != 0);
        if done {
            out.push(byte);
            return out;
        }
        out.push(byte | 0x80);
    }
}

fn vec_of(items: Vec<Vec<u8>>) -> Vec<u8> {
    let mut out = leb_u(items.len() as u64);
    for i in items {
        out.extend(i);
    }
    out
}

fn section(id: u8, payload: Vec<u8>) -> Vec<u8> {
    let mut out = vec![id];
    out.extend(leb_u(payload.len() as u64));
    out.extend(payload);
    out
}

/// A module with the given sections and nothing after them, as `wat2wasm`
/// writes it. The parser reads each LEB128 number through a window of four
/// bytes, so a number among the last three bytes ends the parse there.
fn module_plain(sections: Vec<Vec<u8>>) -> Vec<u8> {
    let mut out = vec![0x00, 0x61, 0x73, 0x6d, 0x01, 0x00, 0x00, 0x00];
    for s in sections {
        out.extend(s);
    }
    out
}

/// A module with the given sections and a custom `name` section after them, as
/// toolchains that keep debug names write it.
fn module(sections: Vec<Vec<u8>>) -> Vec<u8> {
    let mut out = module_plain(sections);
    out.extend(section(0, name("name")));
    out
}

fn functype(params: &[u8], results: &[u8]) -> Vec<u8> {
    let mut out = vec![0x60];
    out.extend(vec_of(params.iter().map(|p| vec![*p]).collect()));
    out.extend(vec_of(results.iter().map(|r| vec![*r]).collect()));
    out
}

fn types(ts: Vec<Vec<u8>>) -> Vec<u8> {
    section(1, vec_of(ts))
}

fn funcs(idx: &[u32]) -> Vec<u8> {
    section(3, vec_of(idx.iter().map(|i| leb_u(*i as u64)).collect()))
}

fn name(s: &str) -> Vec<u8> {
    let mut out = leb_u(s.len() as u64);
    out.extend(s.as_bytes());
    out
}

fn export_func(n: &str, idx: u32) -> Vec<u8> {
    let mut out = name(n);
    out.push(0x00);
    out.extend(leb_u(idx as u64));
    out
}

fn exports(es: Vec<Vec<u8>>) -> Vec<u8> {
    section(7, vec_of(es))
}

fn body(locals: &[(u32, u8)], code: Vec<u8>) -> Vec<u8> {
    let mut f = vec_of(
        locals
            .iter()
            .map(|(n, t)| {
                let mut e = leb_u(*n as u64);
                e.push(*t);
                e
            })
            .collect(),
    );
    f.extend(code);
    f.push(0x0b);
    let mut out = leb_u(f.len() as u64);
    out.extend(f);
    out
}

fn codes(bs: Vec<Vec<u8>>) -> Vec<u8> {
    section(10, vec_of(bs))
}

fn i32_const(n: i32) -> Vec<u8> {
    let mut out = vec![0x41];
    out.extend(leb_s(n as i64));
    out
}

fn i64_const(n: i64) -> Vec<u8> {
    let mut out = vec![0x42];
    out.extend(leb_s(n));
    out
}

fn op_idx(op: u8, i: u32) -> Vec<u8> {
    let mut out = vec![op];
    out.extend(leb_u(i as u64));
    out
}

fn local_get(i: u32) -> Vec<u8> {
    op_idx(0x20, i)
}

fn local_set(i: u32) -> Vec<u8> {
    op_idx(0x21, i)
}

fn cat(parts: Vec<Vec<u8>>) -> Vec<u8> {
    parts.into_iter().flatten().collect()
}

// ---------------------------------------------------------------------------
// The modules.

fn empty_wasm() -> Vec<u8> {
    module_plain(vec![])
}

fn return_i32_wasm() -> Vec<u8> {
    module(vec![
        types(vec![functype(&[], &[I32])]),
        funcs(&[0]),
        exports(vec![export_func("main", 0)]),
        codes(vec![body(&[], i32_const(42))]),
    ])
}

fn return_i64_wasm() -> Vec<u8> {
    module(vec![
        types(vec![functype(&[], &[I64])]),
        funcs(&[0]),
        exports(vec![export_func("main", 0)]),
        codes(vec![body(&[], i64_const(42))]),
    ])
}

/// Two functions: the first gives 42, the exported one adds 1 to it.
fn function_call_wasm() -> Vec<u8> {
    module(vec![
        types(vec![functype(&[], &[I32])]),
        funcs(&[0, 0]),
        exports(vec![export_func("getAnswerPlus1", 1)]),
        codes(vec![
            body(&[], i32_const(42)),
            body(&[], cat(vec![op_idx(0x10, 0), i32_const(1), vec![0x6a]])),
        ]),
    ])
}

/// `(a + b) * b - 3` on two `i32`.
fn arithmetic_wasm() -> Vec<u8> {
    module(vec![
        types(vec![functype(&[I32, I32], &[I32])]),
        funcs(&[0]),
        exports(vec![export_func("calc", 0)]),
        codes(vec![body(
            &[],
            cat(vec![local_get(0), local_get(1), vec![0x6a], local_get(1), vec![0x6c], i32_const(3), vec![0x6b]]),
        )]),
    ])
}

/// A binary operation on two `i64`.
fn binop_i64_wasm(op: u8) -> Vec<u8> {
    module(vec![
        types(vec![functype(&[I64, I64], &[I64])]),
        funcs(&[0]),
        exports(vec![export_func("main", 0)]),
        codes(vec![body(&[], cat(vec![local_get(0), local_get(1), vec![op]]))]),
    ])
}

/// Several `i64` operations: `((a + b) * a - b) / 2`.
fn arithmetic_i64_wasm() -> Vec<u8> {
    module(vec![
        types(vec![functype(&[I64, I64], &[I64])]),
        funcs(&[0]),
        exports(vec![export_func("main", 0)]),
        codes(vec![body(
            &[],
            cat(vec![
                local_get(0),
                local_get(1),
                vec![0x7c],
                local_get(0),
                vec![0x7e],
                local_get(1),
                vec![0x7d],
                i64_const(2),
                vec![0x7f],
            ]),
        )]),
    ])
}

/// Several `i32` operations: `((a / b) % 5 & 0xff | 1) ^ (a << 2)`.
fn arithmetic_i32_wasm() -> Vec<u8> {
    module(vec![
        types(vec![functype(&[I32, I32], &[I32])]),
        funcs(&[0]),
        exports(vec![export_func("main", 0)]),
        codes(vec![body(
            &[],
            cat(vec![
                local_get(0),
                local_get(1),
                vec![0x6d],
                i32_const(5),
                vec![0x6f],
                i32_const(0xff),
                vec![0x71],
                i32_const(1),
                vec![0x72],
                local_get(0),
                i32_const(2),
                vec![0x74],
                vec![0x73],
            ]),
        )]),
    ])
}

/// Several `f32` operations: `(a + b) * a - b / 2`.
fn arithmetic_f32_wasm() -> Vec<u8> {
    let mut two = vec![0x43];
    two.extend(2.0f32.to_le_bytes());
    module(vec![
        types(vec![functype(&[F32, F32], &[F32])]),
        funcs(&[0]),
        exports(vec![export_func("main", 0)]),
        codes(vec![body(
            &[],
            cat(vec![
                local_get(0),
                local_get(1),
                vec![0x92],
                local_get(0),
                vec![0x94],
                local_get(1),
                two,
                vec![0x95],
                vec![0x93],
            ]),
        )]),
    ])
}

/// `block (result i32) 1 + 1 end`.
fn block_add_i32_wasm() -> Vec<u8> {
    module(vec![
        types(vec![functype(&[], &[I32])]),
        funcs(&[0]),
        exports(vec![export_func("main", 0)]),
        codes(vec![body(&[], cat(vec![vec![0x02, I32], i32_const(1), i32_const(1), vec![0x6a, 0x0b]]))]),
    ])
}

/// `2` to the power of the parameter, by a loop.
fn loop_mult_wasm() -> Vec<u8> {
    module(vec![
        types(vec![functype(&[I32], &[I32])]),
        funcs(&[0]),
        exports(vec![export_func("pow2", 0)]),
        codes(vec![body(
            &[(1, I32)],
            cat(vec![
                i32_const(1),
                local_set(1),
                vec![0x02, 0x40, 0x03, 0x40],
                local_get(0),
                vec![0x45],
                op_idx(0x0d, 1),
                local_get(1),
                i32_const(2),
                vec![0x6c],
                local_set(1),
                local_get(0),
                i32_const(1),
                vec![0x6b],
                local_set(0),
                op_idx(0x0c, 0),
                vec![0x0b, 0x0b],
                local_get(1),
            ]),
        )]),
    ])
}

fn unreachable_wasm() -> Vec<u8> {
    module(vec![
        types(vec![functype(&[], &[])]),
        funcs(&[0]),
        exports(vec![export_func("main", 0)]),
        codes(vec![body(&[], vec![0x00])]),
    ])
}

/// Counts the even numbers below the parameter, with an `if` in a loop.
fn if_loop_wasm() -> Vec<u8> {
    module(vec![
        types(vec![functype(&[I32], &[I32])]),
        funcs(&[0]),
        exports(vec![export_func("evens", 0)]),
        codes(vec![body(
            &[(2, I32)],
            cat(vec![
                vec![0x02, 0x40, 0x03, 0x40],
                local_get(1),
                local_get(0),
                vec![0x4e],
                op_idx(0x0d, 1),
                local_get(1),
                i32_const(2),
                vec![0x6f],
                vec![0x45],
                vec![0x04, 0x40],
                local_get(2),
                i32_const(1),
                vec![0x6a],
                local_set(2),
                vec![0x0b],
                local_get(1),
                i32_const(1),
                vec![0x6a],
                local_set(1),
                op_idx(0x0c, 0),
                vec![0x0b, 0x0b],
                local_get(2),
            ]),
        )]),
    ])
}

/// `(a & b) | (a ^ b) == (a | b)`, and `a < b` on the result.
fn logic_wasm() -> Vec<u8> {
    module(vec![
        types(vec![functype(&[I32, I32], &[I32])]),
        funcs(&[0]),
        exports(vec![export_func("main", 0)]),
        codes(vec![body(
            &[],
            cat(vec![
                local_get(0),
                local_get(1),
                vec![0x71],
                local_get(0),
                local_get(1),
                vec![0x73],
                vec![0x72],
                local_get(0),
                local_get(1),
                vec![0x72],
                vec![0x46],
                local_get(0),
                local_get(1),
                vec![0x48],
                vec![0x71],
            ]),
        )]),
    ])
}

/// Euclid's algorithm; the second function is `gcd`, the first a helper that
/// is never called.
fn gcd_wasm() -> Vec<u8> {
    module(vec![
        types(vec![functype(&[], &[]), functype(&[I32, I32], &[I32])]),
        funcs(&[0, 1]),
        exports(vec![export_func("nop", 0), export_func("gcd", 1)]),
        codes(vec![
            body(&[], vec![0x01]),
            body(
                &[(1, I32)],
                cat(vec![
                    vec![0x02, 0x40, 0x03, 0x40],
                    local_get(1),
                    vec![0x45],
                    op_idx(0x0d, 1),
                    local_get(0),
                    local_get(1),
                    vec![0x70],
                    local_set(2),
                    local_get(1),
                    local_set(0),
                    local_get(2),
                    local_set(1),
                    op_idx(0x0c, 0),
                    vec![0x0b, 0x0b],
                    local_get(0),
                ]),
            ),
        ]),
    ])
}

/// The sum `1 + 2 + ... + n`.
fn sum_loop_wasm() -> Vec<u8> {
    module(vec![
        types(vec![functype(&[I32], &[I32])]),
        funcs(&[0]),
        exports(vec![export_func("sum", 0)]),
        codes(vec![body(
            &[(1, I32)],
            cat(vec![
                vec![0x03, 0x40],
                local_get(1),
                local_get(0),
                vec![0x6a],
                local_set(1),
                local_get(0),
                i32_const(1),
                vec![0x6b],
                vec![0x22, 0x00],
                op_idx(0x0d, 0),
                vec![0x0b],
                local_get(1),
            ]),
        )]),
    ])
}

/// A mutable global counter and a function that increments it.
fn incr_counter_wasm() -> Vec<u8> {
    let global = cat(vec![vec![I32, 0x01], i32_const(0), vec![0x0b]]);
    module(vec![
        types(vec![functype(&[], &[])]),
        funcs(&[0]),
        section(6, vec_of(vec![global])),
        exports(vec![export_func("incr", 0)]),
        codes(vec![body(&[], cat(vec![op_idx(0x23, 0), i32_const(1), vec![0x6a], op_idx(0x24, 0)]))]),
    ])
}

// ---------------------------------------------------------------------------
// Running them.

type TestEngine = Engine<RelativeProgramCounter, HostFloats>;

fn parse_ok(bytes: Vec<u8>) -> Module {
    parse(bytes).expect("Parsing failed")
}

fn parse_and_validate(bytes: Vec<u8>) -> Module {
    let m = parse_ok(bytes);
    assert!(validate(&m).is_ok());
    m
}

fn engine_of(bytes: Vec<u8>) -> TestEngine {
    let m = parse_and_validate(bytes);
    let instance = ModuleInstance::new(&m);
    match Engine::new(instance, &m, RelativeProgramCounter::default(), HostFloats, &[]) {
        Ok(e) => e,
        Err(e) => panic!("Building the engine failed: {}", e),
    }
}

fn top(e: &TestEngine) -> Option<Value> {
    match e.store.stack.last() {
        Some(StackContent::Value(v)) => Some(*v),
        _ => None,
    }
}

// Parser.

#[test]
fn lib_test_empty_wasm() {
    let m = parse_ok(empty_wasm());
    assert!(m.sections.is_empty());
}

#[test]
fn lib_test_return_i32() {
    parse_ok(return_i32_wasm());
}

#[test]
fn lib_test_return_i64() {
    parse_and_validate(return_i64_wasm());
}

#[test]
fn lib_test_function_call() {
    parse_and_validate(function_call_wasm());
}

#[test]
fn lib_test_arithmetic() {
    parse_and_validate(arithmetic_wasm());
}

#[test]
fn test_arithmetic_i64() {
    parse_ok(arithmetic_i64_wasm());
}

#[test]
fn test_arithmetic_i32() {
    parse_ok(arithmetic_i32_wasm());
}

#[test]
fn test_arithmetic_f32() {
    parse_ok(arithmetic_f32_wasm());
}

#[test]
fn test_arithmetic_add_i64() {
    parse_ok(binop_i64_wasm(0x7c));
}

#[test]
fn test_arithmetic_sub_i64() {
    parse_ok(binop_i64_wasm(0x7d));
}

#[test]
fn test_arithmetic_mult_i64() {
    parse_ok(binop_i64_wasm(0x7e));
}

#[test]
fn test_arithmetic_div_i64() {
    parse_ok(binop_i64_wasm(0x7f));
}

#[test]
fn lib_test_block_add_i32() {
    parse_and_validate(block_add_i32_wasm());
}

// Validator.

#[test]
fn test_memory_exhaust_function() {
    let ty = MemoryType { limits: Limits::Zero(u32::MAX) };
    assert_eq!(Err("Memory exhausted"), check_memory_ty(&ty));
}

#[test]
fn test_parse_return_i32() {
    parse_and_validate(return_i32_wasm());
}

#[test]
fn lib_test_loop_mult() {
    parse_and_validate(loop_mult_wasm());
}

#[test]
fn lib_test_unreachable() {
    parse_and_validate(unreachable_wasm());
}

#[test]
fn lib_test_if_loop() {
    parse_and_validate(if_loop_wasm());
}

#[test]
fn lib_test_logic() {
    parse_and_validate(logic_wasm());
}

#[test]
fn lib_test_gcd() {
    parse_and_validate(gcd_wasm());
}

// Engine.

#[test]
fn test_allocation() {
    let m = Module { sections: vec![] };
    let instance = ModuleInstance::new(&m);
    let e = Engine::new(instance, &m, RelativeProgramCounter::default(), HostFloats, &[]);
    assert!(e.is_ok());
}

#[test]
fn tests_test_empty_wasm() {
    let e = engine_of(empty_wasm());
    assert!(e.store.funcs.is_empty());
}

#[test]
fn test_sum_loop() {
    engine_of(sum_loop_wasm());
}

#[test]
fn tests_test_return_i32() {
    engine_of(return_i32_wasm());
}

#[test]
fn tests_test_return_i64() {
    engine_of(return_i64_wasm());
}

#[test]
fn tests_test_function_call() {
    engine_of(function_call_wasm());
}

#[test]
fn tests_test_arithmetic() {
    engine_of(arithmetic_wasm());
}

#[test]
fn tests_test_block_add_i32() {
    engine_of(block_add_i32_wasm());
}

#[test]
fn tests_test_loop_mult() {
    engine_of(loop_mult_wasm());
}

#[test]
fn tests_test_unreachable() {
    engine_of(unreachable_wasm());
}

#[test]
fn tests_test_if_loop() {
    engine_of(if_loop_wasm());
}

#[test]
fn tests_test_logic() {
    engine_of(logic_wasm());
}

#[test]
fn tests_test_gcd() {
    engine_of(gcd_wasm());
}

#[test]
fn test_run_incr_counter() {
    let mut e = engine_of(incr_counter_wasm());
    assert!(e.invoke_exported_function(0, vec![]).is_ok());
    assert_eq!(None, e.store.stack.last().map(|_| ()));
    assert_eq!(Value::I32(1), e.store.globals[0].val);
}

#[test]
fn test_run_add() {
    let mut e = engine_of(binop_i32_add_wasm());
    assert!(e.invoke_exported_function(0, vec![Value::I32(1), Value::I32(2)]).is_ok());
    assert_eq!(Some(Value::I32(3)), top(&e));
}

fn binop_i32_add_wasm() -> Vec<u8> {
    module(vec![
        types(vec![functype(&[I32, I32], &[I32])]),
        funcs(&[0]),
        exports(vec![export_func("add", 0)]),
        codes(vec![body(&[], cat(vec![local_get(0), local_get(1), vec![0x6a]]))]),
    ])
}

#[test]
fn test_run_call() {
    let mut e = engine_of(function_call_wasm());
    assert!(e.invoke_exported_function(0, vec![]).is_ok());
    assert_eq!(Some(Value::I32(43)), top(&e));
}

#[test]
fn test_run_gcd() {
    let mut e = engine_of(gcd_wasm());
    assert!(e.invoke_exported_function(1, vec![Value::I32(50), Value::I32(10)]).is_ok());
    assert_eq!(Some(Value::I32(10)), top(&e));
}

// More runs of the same modules.

#[test]
fn run_gcd_of_coprimes_and_by_name() {
    let mut e = engine_of(gcd_wasm());
    assert!(e.invoke_exported_function_by_name("gcd", vec![Value::I32(35), Value::I32(12)]).is_ok());
    assert_eq!(Some(Value::I32(1)), top(&e));
}

#[test]
fn run_loop_mult_gives_a_power_of_two() {
    let mut e = engine_of(loop_mult_wasm());
    assert!(e.invoke_exported_function(0, vec![Value::I32(10)]).is_ok());
    assert_eq!(Some(Value::I32(1024)), top(&e));
}

#[test]
fn run_sum_loop() {
    let mut e = engine_of(sum_loop_wasm());
    assert!(e.invoke_exported_function(0, vec![Value::I32(100)]).is_ok());
    assert_eq!(Some(Value::I32(5050)), top(&e));
}

#[test]
fn run_if_loop_counts_evens() {
    let mut e = engine_of(if_loop_wasm());
    assert!(e.invoke_exported_function(0, vec![Value::I32(10)]).is_ok());
    assert_eq!(Some(Value::I32(5)), top(&e));
}

#[test]
fn run_arithmetic_formulas() {
    let mut e = engine_of(arithmetic_wasm());
    assert!(e.invoke_exported_function(0, vec![Value::I32(2), Value::I32(5)]).is_ok());
    assert_eq!(Some(Value::I32(32)), top(&e));

    let mut e = engine_of(arithmetic_i64_wasm());
    assert!(e.invoke_exported_function(0, vec![Value::I64(3), Value::I64(5)]).is_ok());
    assert_eq!(Some(Value::I64(9)), top(&e));

    let mut e = engine_of(arithmetic_i32_wasm());
    assert!(e.invoke_exported_function(0, vec![Value::I32(100), Value::I32(7)]).is_ok());
    assert_eq!(Some(Value::I32((((100 / 7) % 5) & 0xff | 1) ^ (100 << 2))), top(&e));

    let mut e = engine_of(arithmetic_f32_wasm());
    let args = vec![Value::F32(1.5f32.to_bits()), Value::F32(3.0f32.to_bits())];
    assert!(e.invoke_exported_function(0, args).is_ok());
    assert_eq!(Some(Value::F32(5.25f32.to_bits())), top(&e));
}

#[test]
fn run_i64_binops() {
    for (op, expected) in [(0x7c, 13i64), (0x7d, 7), (0x7e, 30), (0x7f, 3)] {
        let mut e = engine_of(binop_i64_wasm(op));
        assert!(e.invoke_exported_function(0, vec![Value::I64(10), Value::I64(3)]).is_ok());
        assert_eq!(Some(Value::I64(expected)), top(&e));
    }
}

#[test]
fn run_logic() {
    let mut e = engine_of(logic_wasm());
    assert!(e.invoke_exported_function(0, vec![Value::I32(3), Value::I32(5)]).is_ok());
    assert_eq!(Some(Value::I32(1)), top(&e));
}

#[test]
fn run_unreachable_traps() {
    let mut e = engine_of(unreachable_wasm());
    assert_eq!(Err("Reached unreachable => trap!"), e.invoke_exported_function(0, vec![]));
}

#[test]
fn run_with_wrong_arguments_fails_and_leaves_the_store() {
    let mut e = engine_of(binop_i32_add_wasm());
    assert!(e.invoke_exported_function(0, vec![Value::I32(1)]).is_err());
    assert!(e.store.stack.is_empty());
    assert!(e.invoke_exported_function(0, vec![Value::I64(1), Value::I32(2)]).is_err());
    assert!(e.store.stack.is_empty());
    assert!(e.invoke_exported_function(7, vec![]).is_err());
    assert!(e.invoke_exported_function_by_name("nothing", vec![]).is_err());
}

#[test]
fn parse_refuses_short_input_and_bad_magic() {
    assert!(parse(vec![0x00, 0x61, 0x73]).is_err());
    assert!(parse(vec![0x01, 0x61, 0x73, 0x6d, 0x01, 0x00, 0x00, 0x00]).is_err());
    let mut bad_section = empty_wasm();
    bad_section.extend([12, 0, 0, 0, 0]);
    assert!(parse(bad_section).is_err());
}

#[test]
fn parse_stops_at_a_section_the_input_ends_in() {
    assert_eq!(parse(empty_wasm()).unwrap().sections.len(), 0);
    // A start section, then a type section cut off in its size.
    let mut cut = empty_wasm();
    cut.extend([8, 1, 0]);
    cut.extend([1, 5, 2]);
    assert_eq!(parse(cut).unwrap().sections.len(), 1);
    // A memory section whose entry has a bad limits flag is malformed.
    let mut bad = empty_wasm();
    bad.extend([5, 3, 1, 7, 0, 0, 0, 0, 0]);
    assert!(parse(bad).is_err());
}

// ---------------------------------------------------------------------------
// Modules of the WebAssembly text-format tests, written out in the binary
// format.

fn run_export(bytes: Vec<u8>, name: &str, args: Vec<Value>) -> TestEngine {
    let mut e = engine_of(bytes);
    if let Err(err) = e.invoke_exported_function_by_name(name, args) {
        panic!("Test failed: {}", err);
    }
    e
}

fn values(e: &TestEngine) -> Vec<Value> {
    e.store
        .stack
        .iter()
        .filter_map(|c| match c {
            StackContent::Value(v) => Some(*v),
            _ => None,
        })
        .collect()
}

fn single_func(params: &[u8], results: &[u8], export: &str, locals: &[(u32, u8)], code: Vec<u8>) -> Vec<Vec<u8>> {
    vec![
        types(vec![functype(params, results)]),
        funcs(&[0]),
        exports(vec![export_func(export, 0)]),
        codes(vec![body(locals, code)]),
    ]
}

/// Runs the export of the module as `wat2wasm` writes it, which must succeed,
/// and of the module with a trailing custom section, which must leave
/// `expected` on the stack.
fn check_wat(sections: Vec<Vec<u8>>, name: &str, args: Vec<Value>, expected: Vec<Value>) {
    run_export(module_plain(sections.clone()), name, args.clone());
    let e = run_export(module(sections), name, args);
    assert_eq!(expected, values(&e));
}

fn br_table(labels: &[u32], default: u32) -> Vec<u8> {
    let mut out = vec![0x0e];
    out.extend(vec_of(labels.iter().map(|l| leb_u(*l as u64)).collect()));
    out.extend(leb_u(default as u64));
    out
}

#[test]
fn test_block() {
    check_wat(single_func(&[], &[I32], "main", &[], cat(vec![vec![0x02, I32], i32_const(1), vec![0x0b]])), "main", vec![], vec![Value::I32(1)]);
}

#[test]
fn test_block_add() {
    check_wat(
        single_func(&[], &[I32], "main", &[], cat(vec![vec![0x02, I32], i32_const(1), i32_const(1), vec![0x6a, 0x0b]])),
        "main",
        vec![],
        vec![Value::I32(2)],
    );
}

#[test]
fn test_call_indirect_mid() {
    let table = vec![0x70, 0x01, 0x01, 0x01];
    let elem = cat(vec![vec![0x00], i32_const(0), vec![0x0b], vec_of(vec![vec![0x00]])]);
    let bytes = vec![
        types(vec![functype(&[I32, I32], &[I32]), functype(&[I32], &[I32])]),
        funcs(&[0, 1]),
        section(4, vec_of(vec![table])),
        exports(vec![export_func("as-call_indirect-mid", 1)]),
        section(9, vec_of(vec![elem])),
        codes(vec![
            body(&[], local_get(0)),
            body(
                &[],
                cat(vec![
                    vec![0x02, I32],
                    i32_const(1),
                    i32_const(2),
                    i32_const(3),
                    local_get(0),
                    vec![0x1b],
                    i32_const(0),
                    vec![0x11, 0x00, 0x00],
                    vec![0x0b],
                ]),
            ),
        ]),
    ];
    check_wat(bytes, "as-call_indirect-mid", vec![Value::I32(1)], vec![Value::I32(1)]);
}

fn nested_br_table_value_index() -> Vec<Vec<u8>> {
    single_func(
        &[],
        &[I32],
        "nested-br_table-value-index",
        &[],
        cat(vec![
            i32_const(1),
            vec![0x02, I32],
            i32_const(2),
            vec![0x1a],
            i32_const(4),
            i32_const(8),
            op_idx(0x0c, 0),
            br_table(&[], 0),
            i32_const(16),
            vec![0x0b],
            vec![0x6a],
        ]),
    )
}

#[test]
fn test_nested_br_value() {
    check_wat(nested_br_table_value_index(), "nested-br_table-value-index", vec![], vec![Value::I32(9)]);
}

#[test]
fn test_br_table_index() {
    check_wat(nested_br_table_value_index(), "nested-br_table-value-index", vec![], vec![Value::I32(9)]);
}

#[test]
fn test_br_table_value() {
    let bytes = single_func(
        &[],
        &[I32],
        "nested-br_table-value",
        &[],
        cat(vec![
            i32_const(1),
            vec![0x02, I32],
            i32_const(2),
            vec![0x1a],
            vec![0x02, I32],
            i32_const(4),
            vec![0x1a],
            i32_const(8),
            op_idx(0x0c, 1),
            i32_const(1),
            br_table(&[], 0),
            vec![0x0b],
            vec![0x1a],
            i32_const(16),
            vec![0x0b],
            vec![0x6a],
        ]),
    );
    check_wat(bytes, "nested-br_table-value", vec![], vec![Value::I32(9)]);
}

#[test]
fn test_nested_block_value() {
    let bytes = single_func(
        &[I32],
        &[I32],
        "nested-block-value",
        &[],
        cat(vec![
            vec![0x02, I32],
            i32_const(-1),
            vec![0x1a],
            i32_const(1),
            vec![0x02, I32],
            i32_const(2),
            vec![0x02, I32],
            i32_const(4),
            vec![0x1a],
            i32_const(8),
            i32_const(16),
            local_get(0),
            br_table(&[0, 1], 2),
            vec![0x6a],
            vec![0x0b],
            vec![0x6a],
            vec![0x0b],
            vec![0x6a],
            vec![0x0b],
        ]),
    );
    check_wat(bytes, "nested-block-value", vec![Value::I32(1)], vec![Value::I32(17)]);
}

#[test]
fn test_as_if_then() {
    let bytes = single_func(
        &[I32, I32],
        &[I32],
        "as-if-then",
        &[],
        cat(vec![
            vec![0x02, I32],
            local_get(0),
            vec![0x04, I32],
            i32_const(3),
            i32_const(0),
            br_table(&[], 1),
            vec![0x05],
            local_get(1),
            vec![0x0b],
            vec![0x0b],
        ]),
    );
    check_wat(bytes, "as-if-then", vec![Value::I32(1), Value::I32(6)], vec![Value::I32(3)]);
}

#[test]
fn test_br_table_num_num() {
    let bytes = single_func(
        &[I32],
        &[I32, I64],
        "break-br_table-num-num",
        &[],
        cat(vec![
            i32_const(50),
            i64_const(51),
            local_get(0),
            br_table(&[0], 0),
            i32_const(51),
            i64_const(52),
        ]),
    );
    check_wat(bytes, "break-br_table-num-num", vec![Value::I32("4294967196".parse::<u32>().unwrap() as i32)], vec![Value::I32(50), Value::I64(51)]);
}

#[test]
fn test_params_break_id() {
    let bytes = vec![
        types(vec![functype(&[], &[I32]), functype(&[I32, I32], &[I32, I32])]),
        funcs(&[0]),
        exports(vec![export_func("params-id-break", 0)]),
        codes(vec![body(
            &[(1, I32)],
            cat(vec![
                i32_const(0),
                local_set(0),
                i32_const(1),
                i32_const(2),
                vec![0x03, 0x01],
                local_get(0),
                i32_const(1),
                vec![0x6a],
                local_set(0),
                local_get(0),
                i32_const(10),
                vec![0x49],
                op_idx(0x0d, 0),
                vec![0x0b],
                vec![0x6a],
            ]),
        )]),
    ];
    check_wat(bytes, "params-id-break", vec![], vec![Value::I32(3)]);
}

#[test]
fn test_fac_ssa() {
    let bytes = vec![
        types(vec![
            functype(&[I64], &[I64, I64]),
            functype(&[I64, I64], &[I64, I64, I64]),
            functype(&[I64], &[I64]),
            functype(&[I64, I64], &[I64]),
        ]),
        funcs(&[0, 1, 2]),
        exports(vec![export_func("fac-ssa", 2)]),
        codes(vec![
            body(&[], cat(vec![local_get(0), local_get(0)])),
            body(&[], cat(vec![local_get(0), local_get(1), local_get(0)])),
            body(
                &[],
                cat(vec![
                    i64_const(1),
                    local_get(0),
                    vec![0x03, 0x03],
                    op_idx(0x10, 1),
                    op_idx(0x10, 1),
                    vec![0x7e],
                    op_idx(0x10, 1),
                    i64_const(1),
                    vec![0x7d],
                    op_idx(0x10, 0),
                    i64_const(0),
                    vec![0x56],
                    op_idx(0x0d, 0),
                    vec![0x1a],
                    vec![0x0f],
                    vec![0x0b],
                ]),
            ),
        ]),
    ];
    check_wat(bytes, "fac-ssa", vec![Value::I64(3)], vec![Value::I64(6)]);
}

#[test]
fn test_as_return_values() {
    let bytes = single_func(
        &[],
        &[I32, I64],
        "as-return-values",
        &[],
        cat(vec![
            i32_const(2),
            vec![0x02, I64],
            i32_const(1),
            i64_const(7),
            op_idx(0x0c, 0),
            vec![0x0f],
            vec![0x0b],
        ]),
    );
    check_wat(bytes, "as-return-values", vec![], vec![Value::I32(2), Value::I64(7)]);
}

#[test]
fn test_add64_sat_u() {
    let bytes = vec![
        types(vec![functype(&[I64, I64, I32], &[I64, I32]), functype(&[I64, I64], &[I64]), functype(&[I64], &[I64])]),
        funcs(&[0, 1]),
        exports(vec![export_func("add64_u_with_carry", 0), export_func("add64_u_saturated", 1)]),
        codes(vec![
            body(
                &[(1, I64)],
                cat(vec![
                    local_get(0),
                    local_get(1),
                    vec![0x7c],
                    local_get(2),
                    vec![0xad],
                    vec![0x7c],
                    local_set(3),
                    local_get(3),
                    local_get(3),
                    local_get(0),
                    vec![0x54],
                    vec![0x0f],
                ]),
            ),
            body(
                &[],
                cat(vec![
                    local_get(0),
                    local_get(1),
                    i32_const(0),
                    op_idx(0x10, 0),
                    vec![0x04, 0x02],
                    vec![0x1a],
                    i64_const(-1),
                    vec![0x0b],
                ]),
            ),
        ]),
    ];
    let half = "9223372036854775808".parse::<u64>().unwrap() as i64;
    check_wat(bytes, "add64_u_saturated", vec![Value::I64(half), Value::I64(half)], vec![Value::I64(-1)]);
}

// ---------------------------------------------------------------------------
// Single instructions, run in a function of their own.

fn empty_engine() -> TestEngine {
    let m = Module { sections: vec![] };
    match Engine::new(ModuleInstance::new(&m), &m, RelativeProgramCounter::default(), HostFloats, &[]) {
        Ok(e) => e,
        Err(e) => panic!("Building the engine failed: {}", e),
    }
}

/// Adds a function with the given results and code, without parameters.
fn add_code(e: &mut TestEngine, results: Vec<ValueType>, code: Vec<Instruction>) {
    let mut counter = Counter::new();
    let body = FunctionBody { locals: vec![], code: InstructionWrapper::wrap_instructions(&mut counter, code) };
    let sig = FunctionSignature { param_types: vec![], return_types: results };
    assert!(e.add_function(sig, body).is_ok());
}

/// Runs function 0 in a frame with the given arity and locals, with `above`
/// pushed on top of the frame and its label.
fn run_in_frame(e: &mut TestEngine, arity: u32, locals: Vec<Value>, above: Vec<Value>) {
    let mut frame = Frame { arity, locals };
    e.store.stack.push(StackContent::Frame(frame.copy()));
    e.store.stack.push(StackContent::Label(Label::new(arity, 0)));
    for v in above {
        e.store.stack.push(StackContent::Value(v));
    }
    let (r, _) = e.run_function(&mut frame, &FuncAddr(0), u64::MAX);
    r.unwrap();
}

fn pop_value(e: &mut TestEngine) -> Option<Value> {
    match e.store.stack.pop() {
        Some(StackContent::Value(v)) => Some(v),
        _ => None,
    }
}

fn with_memory(e: &mut TestEngine, data: Vec<u8>, max: Option<u32>) {
    e.store.memory = vec![MemoryInstance { data, max }];
    assert!(e.module.store_memory_addr(MemoryAddr::new(0)).is_ok());
}

fn memarg() -> MemArg {
    MemArg { offset: 0, align: 1 }
}

fn f32c(x: f32) -> Instruction {
    Instruction::OP_F32_CONST(x.to_bits())
}

fn f64c(x: f64) -> Instruction {
    Instruction::OP_F64_CONST(x.to_bits())
}

/// Runs code that leaves one value and returns it.
fn value_of(code: Vec<Instruction>, ty: ValueType) -> Value {
    let mut e = empty_engine();
    add_code(&mut e, vec![ty], code);
    run_in_frame(&mut e, 1, vec![], vec![]);
    pop_value(&mut e).expect("no value left")
}

#[test]
fn unit_tests_test_run_function() {
    let v = value_of(vec![Instruction::OP_I32_CONST(42), Instruction::OP_I32_CONST(42), Instruction::OP_I32_ADD], ValueType::I32);
    assert_eq!(Value::I32(84), v);
    let v = value_of(
        vec![
            Instruction::OP_I64_CONST(32),
            Instruction::OP_I64_CONST(32),
            Instruction::OP_I64_ADD,
            Instruction::OP_I64_CONST(2),
            Instruction::OP_I64_MUL,
        ],
        ValueType::I64,
    );
    assert_eq!(Value::I64(128), v);
}

#[test]
fn unit_tests_test_function_with_params() {
    let mut e = empty_engine();
    add_code(&mut e, vec![ValueType::I32], vec![Instruction::OP_LOCAL_GET(0), Instruction::OP_LOCAL_GET(1), Instruction::OP_I32_ADD]);
    run_in_frame(&mut e, 1, vec![Value::I32(1), Value::I32(4)], vec![]);
    assert_eq!(Some(Value::I32(5)), pop_value(&mut e));
}

#[test]
fn unit_tests_test_function_block() {
    let mut e = empty_engine();
    let mut counter = Counter::new();
    let block = CodeBlock::new(&mut counter, vec![Instruction::OP_LOCAL_GET(0), Instruction::OP_LOCAL_GET(1), Instruction::OP_I32_ADD]);
    add_code(&mut e, vec![ValueType::I32], vec![Instruction::OP_BLOCK(BlockType::ValueType(ValueType::I32), block)]);
    run_in_frame(&mut e, 1, vec![Value::I32(1), Value::I32(1)], vec![]);
    assert_eq!(Some(Value::I32(2)), pop_value(&mut e));
}

fn if_code(counter: &mut Counter) -> CodeBlock {
    CodeBlock::new(counter, vec![Instruction::OP_LOCAL_GET(0), Instruction::OP_LOCAL_GET(1), Instruction::OP_I32_ADD])
}

#[test]
fn test_function_if() {
    let mut e = empty_engine();
    let mut counter = Counter::new();
    let block = if_code(&mut counter);
    add_code(&mut e, vec![ValueType::I32], vec![Instruction::OP_IF(BlockType::ValueType(ValueType::I32), block)]);
    run_in_frame(&mut e, 1, vec![Value::I32(1), Value::I32(1)], vec![Value::I32(1)]);
    assert_eq!(Some(Value::I32(2)), pop_value(&mut e));
}

#[test]
fn test_function_if_else_1() {
    let mut e = empty_engine();
    let mut counter = Counter::new();
    let then = if_code(&mut counter);
    let other = CodeBlock::new(&mut counter, vec![Instruction::OP_I32_CONST(-1000)]);
    add_code(&mut e, vec![ValueType::I32], vec![Instruction::OP_IF_AND_ELSE(BlockType::ValueType(ValueType::I32), then, other)]);
    run_in_frame(&mut e, 1, vec![Value::I32(1), Value::I32(1)], vec![Value::I32(1)]);
    assert_eq!(Some(Value::I32(2)), pop_value(&mut e));
}

#[test]
fn test_function_if_else_2() {
    let mut e = empty_engine();
    let mut counter = Counter::new();
    let then = if_code(&mut counter);
    let other = CodeBlock::new(&mut counter, vec![Instruction::OP_I32_CONST(-1000)]);
    add_code(&mut e, vec![ValueType::I32], vec![Instruction::OP_IF_AND_ELSE(BlockType::ValueType(ValueType::I32), then, other)]);
    run_in_frame(&mut e, 1, vec![Value::I32(1), Value::I32(1)], vec![Value::I32(0)]);
    assert_eq!(Some(Value::I32(-1000)), pop_value(&mut e));
}

#[test]
fn unit_tests_test_function_local_set() {
    let mut e = empty_engine();
    add_code(
        &mut e,
        vec![ValueType::I32],
        vec![
            Instruction::OP_LOCAL_GET(0),
            Instruction::OP_LOCAL_GET(1),
            Instruction::OP_I32_ADD,
            Instruction::OP_LOCAL_SET(0),
            Instruction::OP_I32_CONST(32),
            Instruction::OP_LOCAL_GET(0),
            Instruction::OP_I32_ADD,
        ],
    );
    run_in_frame(&mut e, 1, vec![Value::I32(1), Value::I32(4)], vec![]);
    assert_eq!(Some(Value::I32(37)), pop_value(&mut e));
}

#[test]
fn unit_tests_test_function_globals() {
    let mut e = empty_engine();
    e.store.globals = vec![Variable { mutable: true, val: Value::I32(69) }];
    assert!(e.module.store_global_addr(GlobalAddr::new(0)).is_ok());
    add_code(
        &mut e,
        vec![],
        vec![Instruction::OP_GLOBAL_GET(0), Instruction::OP_I32_CONST(351), Instruction::OP_I32_ADD, Instruction::OP_GLOBAL_SET(0)],
    );
    run_in_frame(&mut e, 0, vec![], vec![]);
    assert_eq!(Value::I32(420), e.store.globals[0].val);
}

#[test]
fn unit_tests_test_drop_select() {
    let mut e = empty_engine();
    e.store.globals = vec![Variable { mutable: true, val: Value::I32(20) }];
    assert!(e.module.store_global_addr(GlobalAddr::new(0)).is_ok());
    add_code(
        &mut e,
        vec![],
        vec![
            Instruction::OP_I32_CONST(1),
            Instruction::OP_I32_CONST(2),
            Instruction::OP_I32_CONST(0),
            Instruction::OP_I32_CONST(4),
            Instruction::OP_DROP,
            Instruction::OP_SELECT,
            Instruction::OP_GLOBAL_SET(0),
        ],
    );
    run_in_frame(&mut e, 0, vec![], vec![]);
    assert_eq!(Value::I32(2), e.store.globals[0].val);
}

#[test]
fn test_function_block_br() {
    let mut e = empty_engine();
    let mut counter = Counter::new();
    let inner = CodeBlock::new(&mut counter, vec![Instruction::OP_BR(1)]);
    let outer = CodeBlock::new(&mut counter, vec![Instruction::OP_BLOCK(BlockType::Empty, inner)]);
    add_code(&mut e, vec![], vec![Instruction::OP_BLOCK(BlockType::Empty, outer)]);
    run_in_frame(&mut e, 0, vec![], vec![]);
    assert!(e.store.stack.pop().is_none());
}

#[test]
fn test_function_block_br_deep() {
    let mut e = empty_engine();
    let mut counter = Counter::new();
    let inner = CodeBlock::new(&mut counter, vec![Instruction::OP_BR(2)]);
    let middle = CodeBlock::new(&mut counter, vec![Instruction::OP_BLOCK(BlockType::Empty, inner)]);
    let outer = CodeBlock::new(&mut counter, vec![Instruction::OP_BLOCK(BlockType::Empty, middle)]);
    add_code(&mut e, vec![], vec![Instruction::OP_BLOCK(BlockType::Empty, outer)]);
    run_in_frame(&mut e, 0, vec![], vec![]);
    assert!(e.store.stack.pop().is_none());
}

/// Runs code on a memory with the given bytes and returns the bytes after it.
fn memory_after(data: Vec<u8>, code: Vec<Instruction>) -> Vec<u8> {
    let mut e = empty_engine();
    with_memory(&mut e, data, None);
    add_code(&mut e, vec![], code);
    run_in_frame(&mut e, 0, vec![], vec![]);
    e.store.memory[0].data.clone()
}

#[test]
fn test_memory_store_i32() {
    let d = memory_after(vec![0; 4], vec![Instruction::OP_I32_CONST(0), Instruction::OP_I32_CONST(4), Instruction::OP_I32_STORE(memarg())]);
    assert_eq!((4 as i32).to_le_bytes(), d.as_slice());
}

#[test]
fn test_memory_load_i32() {
    let mut e = empty_engine();
    with_memory(&mut e, vec![0; 10], None);
    add_code(&mut e, vec![ValueType::I32], vec![Instruction::OP_I32_CONST(0), Instruction::OP_I32_LOAD(memarg())]);
    run_in_frame(&mut e, 1, vec![], vec![]);
    assert_eq!(Some(Value::I32(0)), pop_value(&mut e));
}

#[test]
fn test_memory_store_i32_in_i8() {
    let d = memory_after(vec![0; 1], vec![Instruction::OP_I32_CONST(0), Instruction::OP_I32_CONST(4), Instruction::OP_I32_STORE_8(memarg())]);
    assert_eq!((4 as i8).to_le_bytes(), d.as_slice());
}

#[test]
fn test_memory_load_i32_of_u8() {
    let mut e = empty_engine();
    with_memory(&mut e, vec![0; 4], None);
    add_code(
        &mut e,
        vec![ValueType::I32],
        vec![
            Instruction::OP_I32_CONST(0),
            Instruction::OP_I32_CONST(4),
            Instruction::OP_I32_STORE_8(memarg()),
            Instruction::OP_I32_CONST(0),
            Instruction::OP_I32_LOAD_8_u(memarg()),
        ],
    );
    run_in_frame(&mut e, 1, vec![], vec![]);
    assert_eq!((4 as i32).to_le_bytes(), e.store.memory[0].data.as_slice());
    assert_eq!(Some(Value::I32(4)), pop_value(&mut e));
}

#[test]
fn test_memory_store_i32_in_i16() {
    let d = memory_after(vec![0; 2], vec![Instruction::OP_I32_CONST(0), Instruction::OP_I32_CONST(9), Instruction::OP_I32_STORE_16(memarg())]);
    assert_eq!((9 as i16).to_le_bytes(), d.as_slice());
}

#[test]
fn test_memory_store_i64() {
    let d = memory_after(vec![0; 8], vec![Instruction::OP_I32_CONST(0), Instruction::OP_I64_CONST(4), Instruction::OP_I64_STORE(memarg())]);
    assert_eq!((4 as i64).to_le_bytes(), d.as_slice());
}

#[test]
fn test_memory_store_i64_in_i16() {
    let d = memory_after(vec![0; 2], vec![Instruction::OP_I32_CONST(0), Instruction::OP_I64_CONST(9), Instruction::OP_I64_STORE_16(memarg())]);
    assert_eq!((9 as i16).to_le_bytes(), d.as_slice());
}

#[test]
fn test_memory_store_i64_in_i32() {
    let d = memory_after(vec![0; 4], vec![Instruction::OP_I32_CONST(0), Instruction::OP_I64_CONST(i64::MAX), Instruction::OP_I64_STORE_32(memarg())]);
    assert_eq!(((i64::MAX % 2_i64.pow(32)) as i32).to_le_bytes(), d.as_slice());
}

#[test]
fn test_memory_store_f32() {
    let d = memory_after(vec![0; 4], vec![Instruction::OP_I32_CONST(0), f32c(4.1), Instruction::OP_F32_STORE(memarg())]);
    assert_eq!((4.1 as f32).to_le_bytes(), d.as_slice());
}

#[test]
fn test_memory_store_f64() {
    let d = memory_after(vec![0; 8], vec![Instruction::OP_I32_CONST(0), f64c(4.1), Instruction::OP_F64_STORE(memarg())]);
    assert_eq!((4.1 as f64).to_le_bytes(), d.as_slice());
}

#[test]
fn test_num_store_f64() {
    let d = memory_after(vec![0; 8], vec![Instruction::OP_I32_CONST(0), f64c(4.1), Instruction::OP_F64_STORE(memarg())]);
    assert_eq!((4.1 as f64).to_le_bytes(), d.as_slice());
}

#[test]
fn test_num_wrap_i64_max() {
    let v = value_of(vec![Instruction::OP_I64_CONST(i32::MAX as i64), Instruction::OP_I32_WRAP_I64], ValueType::I32);
    assert_eq!(Value::I32(i32::MAX), v);
}

#[test]
fn test_num_wrap_i64_min() {
    let v = value_of(vec![Instruction::OP_I64_CONST(i32::MIN as i64), Instruction::OP_I32_WRAP_I64], ValueType::I32);
    assert_eq!(Value::I32(i32::MIN), v);
}

#[test]
fn test_num_wrap_i64_overflow() {
    let v = value_of(vec![Instruction::OP_I64_CONST((i32::MAX as i64) + 50), Instruction::OP_I32_WRAP_I64], ValueType::I32);
    assert_eq!(Value::I32(i32::MIN + 49), v);
}

#[test]
fn test_num_extend_s() {
    let v = value_of(vec![Instruction::OP_I32_CONST(-1), Instruction::OP_I64_EXTEND_I32_S], ValueType::I64);
    assert_eq!(Value::I64(-1), v);
}

#[test]
fn test_num_extend_u() {
    let v = value_of(vec![Instruction::OP_I32_CONST(-1), Instruction::OP_I64_EXTEND_I32_U], ValueType::I64);
    assert_eq!(Value::I64(u32::MAX as i64), v);
}

#[test]
fn test_num_trunc_s() {
    let v = value_of(vec![f32c(234.923), Instruction::OP_I32_TRUNC_F32_S], ValueType::I32);
    assert_eq!(Value::I32(234), v);
}

#[test]
fn test_num_promote() {
    let v = value_of(vec![f32c(1.1234568357467651), Instruction::OP_F64_PROMOTE_F32], ValueType::F64);
    assert_eq!(Value::F64((1.1234568357467651f64).to_bits()), v);
}

#[test]
fn test_num_demote() {
    let v = value_of(vec![f64c(1.1234568357467651420), Instruction::OP_F32_DEMOTE_F64], ValueType::F32);
    assert_eq!(Value::F32((1.1234568357467651f32).to_bits()), v);
}

#[test]
fn test_num_convert_s() {
    let v = value_of(vec![Instruction::OP_I32_CONST(-1), Instruction::OP_F32_CONVERT_I32_S], ValueType::F32);
    assert_eq!(Value::F32((-1.0f32).to_bits()), v);
}

#[test]
fn test_num_convert_u() {
    let v = value_of(vec![Instruction::OP_I32_CONST(-1), Instruction::OP_F32_CONVERT_I32_U], ValueType::F32);
    assert_eq!(Value::F32((u32::MAX as f32).to_bits()), v);
}

#[test]
fn unit_tests_test_memory_grow() {
    let mut e = empty_engine();
    with_memory(&mut e, vec![0; 10], None);
    add_code(&mut e, vec![ValueType::I32], vec![Instruction::OP_I32_CONST(1), Instruction::OP_MEMORY_GROW]);
    run_in_frame(&mut e, 1, vec![], vec![]);
    assert_eq!(e.store.memory[0].data.len(), PAGE_SIZE + 10);
}

#[test]
fn test_memory_grow_with_max() {
    let mut e = empty_engine();
    with_memory(&mut e, vec![0; 10], Some(11));
    add_code(&mut e, vec![ValueType::I32], vec![Instruction::OP_I32_CONST(i32::MAX), Instruction::OP_MEMORY_GROW]);
    run_in_frame(&mut e, 1, vec![], vec![]);
    assert_eq!(Some(Value::I32(-1)), pop_value(&mut e));
}

#[test]
fn a_load_gives_back_what_a_store_wrote() {
    let mut e = empty_engine();
    with_memory(&mut e, vec![0; 16], None);
    add_code(
        &mut e,
        vec![ValueType::I32, ValueType::I64],
        vec![
            Instruction::OP_I32_CONST(0),
            Instruction::OP_I32_CONST(0x1234_5678),
            Instruction::OP_I32_STORE(MemArg { offset: 2, align: 2 }),
            Instruction::OP_I32_CONST(8),
            Instruction::OP_I64_CONST(-5),
            Instruction::OP_I64_STORE(memarg()),
            Instruction::OP_I32_CONST(0),
            Instruction::OP_I32_LOAD(MemArg { offset: 2, align: 2 }),
            Instruction::OP_I32_CONST(8),
            Instruction::OP_I64_LOAD(memarg()),
        ],
    );
    run_in_frame(&mut e, 2, vec![], vec![]);
    assert_eq!(Some(Value::I64(-5)), pop_value(&mut e));
    assert_eq!(Some(Value::I32(0x1234_5678)), pop_value(&mut e));
}

#[test]
fn a_store_beyond_the_memory_traps() {
    let mut e = empty_engine();
    with_memory(&mut e, vec![0; 4], None);
    add_code(&mut e, vec![], vec![Instruction::OP_I32_CONST(1), Instruction::OP_I32_CONST(7), Instruction::OP_I32_STORE(memarg())]);
    let mut frame = Frame { arity: 0, locals: vec![] };
    e.store.stack.push(StackContent::Frame(frame.copy()));
    e.store.stack.push(StackContent::Label(Label::new(0, 0)));
    let (r, _) = e.run_function(&mut frame, &FuncAddr(0), u64::MAX);
    assert!(r.is_err());
    assert_eq!(vec![0u8; 4], e.store.memory[0].data);
}

#[test]
fn a_run_without_fuel_stops() {
    let mut e = empty_engine();
    add_code(&mut e, vec![ValueType::I32], vec![Instruction::OP_I32_CONST(1)]);
    let mut frame = Frame { arity: 1, locals: vec![] };
    e.store.stack.push(StackContent::Frame(frame.copy()));
    e.store.stack.push(StackContent::Label(Label::new(1, 0)));
    let (r, left) = e.run_function(&mut frame, &FuncAddr(0), 0);
    assert_eq!(Err("Out of fuel"), r);
    assert_eq!(0, left);
}

fn add_two_params(e: &mut TestEngine, params: Vec<ValueType>) {
    let mut counter = Counter::new();
    let body = FunctionBody {
        locals: vec![],
        code: InstructionWrapper::wrap_instructions(
            &mut counter,
            vec![Instruction::OP_LOCAL_GET(0), Instruction::OP_LOCAL_GET(1), Instruction::OP_I32_ADD],
        ),
    };
    let sig = FunctionSignature { param_types: params, return_types: vec![] };
    assert!(e.add_function(sig, body).is_ok());
}

#[test]
#[should_panic(expected = "Function expected different parameters")]
fn test_invoke_wrong_parameters() {
    let mut e = empty_engine();
    add_two_params(&mut e, vec![ValueType::I32, ValueType::I32]);
    let (r, _) = e.invoke_function(FuncAddr(0), vec![Value::I32(1), Value::I32(2), Value::I32(3)], u64::MAX);
    r.unwrap();
}

#[test]
#[should_panic(expected = "Function expected different parameters!")]
fn test_invoke_wrong_length_parameters() {
    let mut e = empty_engine();
    add_two_params(&mut e, vec![ValueType::I32, ValueType::I32]);
    let (r, _) = e.invoke_function(FuncAddr(0), vec![Value::I32(1), Value::I32(2), Value::I32(3)], u64::MAX);
    r.expect("invoke function failed");
}

#[test]
#[should_panic(expected = "Function expected different parameters!")]
fn test_invoke_wrong_ty_parameters() {
    let mut e = empty_engine();
    add_two_params(&mut e, vec![ValueType::F32, ValueType::I32]);
    let (r, _) = e.invoke_function(FuncAddr(0), vec![Value::I32(1), Value::I32(2)], u64::MAX);
    r.expect("invoke function failed");
}

// ---------------------------------------------------------------------------
// One exported function named `test`, invoked through the export.

fn engine_with_export(code: Vec<Instruction>, params: Vec<ValueType>, results: Vec<ValueType>) -> TestEngine {
    let mut e = empty_engine();
    let mut counter = Counter::new();
    let body = FunctionBody { locals: vec![], code: InstructionWrapper::wrap_instructions(&mut counter, code) };
    let sig = FunctionSignature { param_types: params, return_types: results };
    assert!(e.add_function(sig, body).is_ok());
    assert!(e.module.store_func_addr(FuncAddr(0)).is_ok());
    let export = ExportInstance { name: "test".to_string(), value: ExternalKindType::Function { ty: 0 } };
    assert!(e.module.store_export(export).is_ok());
    e
}

fn f32v(x: f32) -> Value {
    Value::F32(x.to_bits())
}

#[test]
fn spec_unit_tests_test_f32_add_minus_0_and_nan() {
    let mut engine = engine_with_export(
        vec![Instruction::OP_LOCAL_GET(0), Instruction::OP_LOCAL_GET(1), Instruction::OP_F32_ADD],
        vec![ValueType::F32, ValueType::F32],
        vec![ValueType::F32],
    );
    engine.invoke_exported_function(0, vec![f32v(-0.0), f32v(f32::NAN)]).unwrap();
    match pop_value(&mut engine) {
        Some(Value::F32(b)) => assert!(f32::from_bits(b).is_nan()),
        _ => panic!("Not NAN"),
    }
}

#[test]
fn test_f32_min_minus_0_and_nan() {
    let mut engine = engine_with_export(
        vec![Instruction::OP_LOCAL_GET(0), Instruction::OP_LOCAL_GET(1), Instruction::OP_F32_MIN],
        vec![ValueType::F32, ValueType::F32],
        vec![ValueType::F32],
    );
    engine.invoke_exported_function(0, vec![f32v(-0.0), f32v(f32::NAN)]).unwrap();
    match pop_value(&mut engine) {
        Some(Value::F32(b)) => assert!(f32::from_bits(b).is_nan()),
        _ => panic!("Not NAN"),
    }
}

#[test]
fn test_f32_nearest_minus_0point5() {
    let mut engine = engine_with_export(
        vec![Instruction::OP_LOCAL_GET(0), Instruction::OP_F32_NEAREST],
        vec![ValueType::F32],
        vec![ValueType::F32],
    );
    engine.invoke_exported_function(0, vec![f32v(-0.5)]).unwrap();
    assert_eq!(Some(f32v(-0.0)), pop_value(&mut engine));
}

#[test]
fn test_f32_nearest_minus_1() {
    let mut engine = engine_with_export(
        vec![Instruction::OP_LOCAL_GET(0), Instruction::OP_F32_NEAREST],
        vec![ValueType::F32],
        vec![ValueType::F32],
    );
    engine.invoke_exported_function(0, vec![f32v(-1.0)]).unwrap();
    assert_eq!(Some(f32v(-1.0)), pop_value(&mut engine));
}

#[test]
fn test_f32_copy_sign() {
    let mut engine = engine_with_export(
        vec![Instruction::OP_LOCAL_GET(0), Instruction::OP_LOCAL_GET(1), Instruction::OP_F32_COPYSIGN],
        vec![ValueType::F32, ValueType::F32],
        vec![ValueType::F32],
    );
    engine.invoke_exported_function(0, vec![f32v(-0.0), f32v(-0.0)]).unwrap();
    assert_eq!(Some(f32v(-0.0)), pop_value(&mut engine));
}

#[test]
fn spec_unit_tests_test_memory_grow() {
    let mut engine = engine_with_export(
        vec![
            Instruction::OP_I32_CONST(3),
            Instruction::OP_MEMORY_GROW,
            Instruction::OP_I32_CONST(2048),
            Instruction::OP_MEMORY_GROW,
            Instruction::OP_I32_CONST(65536),
            Instruction::OP_MEMORY_GROW,
        ],
        vec![],
        vec![ValueType::I32],
    );
    engine.init_memory(0).expect("init memory failed");
    engine.invoke_exported_function(0, vec![]).unwrap();
    assert_eq!(Some(Value::I32(-1)), pop_value(&mut engine));
}

#[test]
fn test_as_mixed_operands() {
    let mut e = empty_engine();
    let mut counter = Counter::new();
    let mixed = FunctionBody {
        locals: vec![],
        code: InstructionWrapper::wrap_instructions(
            &mut counter,
            vec![
                Instruction::OP_I32_CONST(3),
                Instruction::OP_I32_CONST(4),
                Instruction::OP_CALL(1),
                Instruction::OP_I32_CONST(5),
                Instruction::OP_I32_ADD,
                Instruction::OP_I32_MUL,
            ],
        ),
    };
    let swap = FunctionBody {
        locals: vec![],
        code: InstructionWrapper::wrap_instructions(&mut counter, vec![Instruction::OP_LOCAL_GET(1), Instruction::OP_LOCAL_GET(0)]),
    };
    assert!(e.add_function(FunctionSignature { param_types: vec![], return_types: vec![ValueType::I32] }, mixed).is_ok());
    assert!(e
        .add_function(
            FunctionSignature {
                param_types: vec![ValueType::I32, ValueType::I32],
                return_types: vec![ValueType::I32, ValueType::I32],
            },
            swap
        )
        .is_ok());
    assert!(e.module.store_func_addr(FuncAddr(0)).is_ok());
    assert!(e.module.store_func_addr(FuncAddr(1)).is_ok());
    let export = ExportInstance { name: "test".to_string(), value: ExternalKindType::Function { ty: 0 } };
    assert!(e.module.store_export(export).is_ok());
    e.invoke_exported_function(0, vec![]).unwrap();
    assert_eq!(Some(Value::I32(32)), pop_value(&mut e));
}

#[test]
fn br_out_of_block_keeps_result_order() {
    let mut counter = Counter::new();
    let block = CodeBlock::new(
        &mut counter,
        vec![
            f64c(4.0),
            f64c(5.0),
            Instruction::OP_BR(0),
            Instruction::OP_F64_ADD,
            f64c(6.0),
        ],
    );
    let mut engine = engine_with_export(
        vec![Instruction::OP_BLOCK(BlockType::FuncTy(0), block)],
        vec![],
        vec![ValueType::F64, ValueType::F64],
    );
    let index = engine.module.add_func_type(vec![ValueType::F64, ValueType::F64]);
    assert_eq!(index, 0, "Please adjust the index in BlockType::FuncTy with this value");
    engine.invoke_exported_function(0, vec![]).unwrap();
    assert_eq!(Some(Value::F64(5.0f64.to_bits())), pop_value(&mut engine));
    assert_eq!(Some(Value::F64(4.0f64.to_bits())), pop_value(&mut engine));
}

#[test]
fn an_empty_function_without_results_leaves_the_stack_as_it_was() {
    let mut engine = engine_with_export(vec![], vec![ValueType::I32], vec![]);
    engine.store.stack.push(StackContent::Value(Value::I64(7)));
    assert!(engine.invoke_exported_function(0, vec![Value::I32(1)]).is_ok());
    assert!(engine.invoke_exported_function_by_name("test", vec![Value::I32(2)]).is_ok());
    assert_eq!(engine.store.stack.len(), 1);
    assert_eq!(pop_value(&mut engine), Some(Value::I64(7)));
}

/// A module with one function, a table of two elements, and an element segment
/// that writes the function `count` times from `offset` on.
fn table_module(offset: i32, count: usize) -> Vec<u8> {
    let table = section(4, vec_of(vec![vec![0x70, 0x00, 0x02]]));
    let mut seg = vec![0x00];
    seg.extend(i32_const(offset));
    seg.push(0x0b);
    seg.extend(vec_of(vec![leb_u(0); count]));
    module(vec![
        types(vec![functype(&[], &[])]),
        funcs(&[0]),
        table,
        section(9, vec_of(vec![seg])),
        codes(vec![body(&[], vec![])]),
    ])
}

#[test]
fn element_segments_are_checked_by_their_offset() {
    for (offset, count, ok) in [(0, 2, true), (1, 1, true), (1, 2, false), (2, 1, false), (-1, 1, false)] {
        let m = parse_ok(table_module(offset, count));
        let instance = ModuleInstance::new(&m);
        let r = Engine::new(instance, &m, RelativeProgramCounter::default(), HostFloats, &[]);
        assert_eq!(r.is_ok(), ok, "offset {} count {}", offset, count);
    }
}

fn memory_module(offset: i32, count: usize) -> Vec<u8> {
    let memory = section(5, vec_of(vec![vec![0x00, 0x01]]));
    let mut seg = vec![0x00];
    seg.extend(i32_const(offset));
    seg.push(0x0b);
    seg.extend(vec_of(vec![vec![7u8]; count]));
    module(vec![
        types(vec![functype(&[], &[])]),
        funcs(&[0]),
        memory,
        codes(vec![body(&[], vec![])]),
        section(11, vec_of(vec![seg])),
    ])
}

#[test]
fn data_segments_that_do_not_fit_give_an_error() {
    for (offset, count, ok) in [(0, 3, true), (65535, 1, true), (65535, 2, false), (-1, 1, false), (-1, 0, true)] {
        let m = parse_ok(memory_module(offset, count));
        let instance = ModuleInstance::new(&m);
        let r = Engine::new(instance, &m, RelativeProgramCounter::default(), HostFloats, &[]);
        assert_eq!(r.is_ok(), ok, "offset {} count {}", offset, count);
    }
}

// ---------------------------------------------------------------------------
// What a run promises before it starts: a first `unreachable` or `return`, and
// straight-line code that runs well at every step.

fn wrapped(code: Vec<Instruction>) -> Vec<InstructionWrapper> {
    let mut counter = Counter::new();
    InstructionWrapper::wrap_instructions(&mut counter, code)
}

fn stack_values(e: &TestEngine) -> Vec<Option<Value>> {
    e.store
        .stack
        .iter()
        .map(|c| match c {
            StackContent::Value(v) => Some(*v),
            _ => None,
        })
        .collect()
}

#[test]
fn a_first_unreachable_leaves_the_state_alone() {
    let mut e = empty_engine();
    e.store.stack.push(StackContent::Value(Value::I32(4)));
    let before = stack_values(&e);
    let mut fr = Frame { arity: 0, locals: vec![Value::I64(9)] };
    let code = wrapped(vec![Instruction::OP_UNREACHABLE, Instruction::OP_I32_CONST(1), Instruction::OP_LOCAL_SET(0)]);
    let (r, left) = e.run_instructions(&mut fr, code.as_slice(), 10);
    assert_eq!(Err("Reached unreachable => trap!"), r);
    assert_eq!(9, left);
    assert_eq!(before, stack_values(&e));
    assert_eq!(vec![Value::I64(9)], fr.locals);
    assert_eq!(code[0].get_id(), e.debugger.get());
}

#[test]
fn a_first_return_returns_at_once() {
    let mut e = empty_engine();
    e.store.stack.push(StackContent::Value(Value::I32(4)));
    let before = stack_values(&e);
    let mut fr = Frame { arity: 0, locals: vec![Value::I32(2)] };
    let code = wrapped(vec![Instruction::OP_RETURN, Instruction::OP_DROP, Instruction::OP_UNREACHABLE]);
    let (r, left) = e.run_instructions(&mut fr, code.as_slice(), 10);
    assert_eq!(Ok(InstructionOutcome::RETURN), r);
    assert_eq!(9, left);
    assert_eq!(before, stack_values(&e));
    assert_eq!(vec![Value::I32(2)], fr.locals);
    assert_eq!(code[0].get_id(), e.debugger.get());
}

#[test]
fn straight_code_runs_to_its_end_with_one_fuel_each() {
    let mut e = empty_engine();
    let before = e.store.stack.len();
    let mut fr = Frame { arity: 1, locals: vec![] };
    let code = wrapped(vec![
        Instruction::OP_I32_CONST(10),
        Instruction::OP_I32_CONST(3),
        Instruction::OP_I32_SUB,
        Instruction::OP_NOP,
        Instruction::OP_I32_CONST(2),
        Instruction::OP_I32_DIV_S,
    ]);
    let (r, left) = e.run_instructions(&mut fr, code.as_slice(), 100);
    assert_eq!(Ok(InstructionOutcome::EXIT), r);
    assert_eq!(94, left);
    assert_eq!(before + 1, e.store.stack.len());
    assert_eq!(Some(Value::I32(3)), pop_value(&mut e));
    assert_eq!(code[5].get_id(), e.debugger.get());
}

#[test]
fn a_wrong_argument_count_names_the_error() {
    let mut e = empty_engine();
    add_two_params(&mut e, vec![ValueType::I32, ValueType::I32]);
    let (r, left) = e.invoke_function(FuncAddr(0), vec![Value::I32(1)], 50);
    assert_eq!(Err("Function expected different parameters!"), r);
    assert_eq!(50, left);
}

#[test]
fn a_false_condition_skips_the_if_and_the_branch() {
    let mut e = empty_engine();
    let before = e.store.stack.len();
    let mut fr = Frame { arity: 1, locals: vec![] };
    let mut counter = Counter::new();
    let skipped = CodeBlock::new(&mut counter, vec![Instruction::OP_UNREACHABLE]);
    let code = InstructionWrapper::wrap_instructions(
        &mut counter,
        vec![
            Instruction::OP_I32_CONST(0),
            Instruction::OP_IF(BlockType::Empty, skipped),
            Instruction::OP_I32_CONST(0),
            Instruction::OP_BR_IF(0),
            Instruction::OP_I32_CONST(5),
        ],
    );
    let (r, left) = e.run_instructions(&mut fr, code.as_slice(), 20);
    assert_eq!(Ok(InstructionOutcome::EXIT), r);
    assert_eq!(15, left);
    assert_eq!(before + 1, e.store.stack.len());
    assert_eq!(Some(Value::I32(5)), pop_value(&mut e));
}

#[test]
fn stack_entries_tell_their_kind() {
    assert!(StackContent::Value(Value::I32(1)).is_value());
    assert!(!StackContent::Value(Value::I32(1)).is_label());
    assert!(StackContent::Label(Label::new(0, 0)).is_label());
    assert!(!StackContent::Frame(Frame { arity: 0, locals: vec![] }).is_value());
}

#[test]
fn a_block_type_without_a_function_type_has_no_parameters() {
    let mut e = empty_engine();
    assert_eq!(Ok(0), e.get_mut_param_count_block(&BlockType::Empty));
    assert_eq!(Ok(0), e.get_mut_param_count_block(&BlockType::ValueType(ValueType::I32)));
    assert!(e.get_mut_param_count_block(&BlockType::FuncTy(0)).is_err());
}
