//! The arguments of an invocation on the command line: each is a value written
//! as `I32(5)`, `I64(-3)`, `F32(1.5)`, `F64(inf)`, `F32(nan)` and so on.
//! Which form an argument has is decided by regular expressions.

use crate::value::Value;
use vstd::prelude::*;

verus! {

/// An `i32` in decimal.
pub const I32_PATTERN: &'static str = r"I32\((-?[0-9]+)\)";

/// An `i64` in decimal.
pub const I64_PATTERN: &'static str = r"I64\((-?[0-9]+)\)";

/// An `f32` in decimal.
pub const F32_PATTERN: &'static str = r"F32\((-?[0-9]+(\.[0-9]+)?)\)";

/// An `f64` in decimal.
pub const F64_PATTERN: &'static str = r"F64\((-?[0-9]+(\.[0-9]+)?)\)";

/// The positive infinity of `f32`.
pub const F32_INF_PATTERN: &'static str = r"F32\(inf\)";

/// The negative infinity of `f32`.
pub const F32_NEG_INF_PATTERN: &'static str = r"F32\(-inf\)";

/// The positive infinity of `f64`.
pub const F64_INF_PATTERN: &'static str = r"F64\(inf\)";

/// The negative infinity of `f64`.
pub const F64_NEG_INF_PATTERN: &'static str = r"F64\(-inf\)";

/// A NaN of `f32`.
pub const F32_NAN_PATTERN: &'static str = r"F32\(nan\)";

/// A NaN of `f64`.
pub const F64_NAN_PATTERN: &'static str = r"F64\(nan\)";

/// The bits of `f32::INFINITY`.
pub const F32_INF_BITS: u32 = 0x7f80_0000;

/// The bits of `-f32::INFINITY`.
pub const F32_NEG_INF_BITS: u32 = 0xff80_0000;

/// The bits of `f64::INFINITY`.
pub const F64_INF_BITS: u64 = 0x7ff0_0000_0000_0000;

/// The bits of `-f64::INFINITY`.
pub const F64_NEG_INF_BITS: u64 = 0xfff0_0000_0000_0000;

/// The bits of `f32::NAN`.
pub const F32_NAN_BITS: u32 = 0x7fc0_0000;

/// The bits of `f64::NAN`.
pub const F64_NAN_BITS: u64 = 0x7ff8_0000_0000_0000;

/// The regular expression `pattern` compiles and matches somewhere in `text`.
pub uninterp spec fn regex_matches(pattern: Seq<char>, text: Seq<char>) -> bool;

/// The text of the first group of the first match of the regular expression
/// `pattern` in `text`; `None` where it does not compile, does not match, or the
/// group takes no part in the match.
pub uninterp spec fn regex_first_group(pattern: Seq<char>, text: Seq<char>) -> Option<Seq<char>>;

/// Whether `regex::Regex::new(pattern)` compiles and matches in `text`.
#[verifier::external_body]
fn regex_is_match(pattern: &str, text: &str) -> (b: bool)
    ensures
        b == regex_matches(pattern@, text@),
{
    match regex::Regex::new(pattern) {
        Ok(re) => re.is_match(text),
        Err(_) => false,
    }
}

/// The first group of `regex::Regex::new(pattern).captures(text)`.
#[verifier::external_body]
fn regex_capture(pattern: &str, text: &str) -> (r: Option<String>)
    ensures
        match r {
            Some(s) => regex_first_group(pattern@, text@) == Some(s@),
            None => regex_first_group(pattern@, text@) is None,
        },
{
    let re = match regex::Regex::new(pattern) {
        Ok(re) => re,
        Err(_) => {
            return None;
        },
    };
    let caps = re.captures(text)?;
    let m = caps.get(1)?;
    Some(m.as_str().to_string())
}

/// The value of a string of decimal digits; `None` where it holds another
/// character.
pub open spec fn digits_value(s: Seq<char>) -> Option<int>
    decreases s.len(),
{
    if s.len() == 0 {
        Some(0)
    } else if '0' <= s.last() && s.last() <= '9' {
        match digits_value(s.drop_last()) {
            Some(v) => Some(v * 10 + (s.last() as int - '0' as int)),
            None => None,
        }
    } else {
        None
    }
}

/// The integer that `str::parse` reads from `s`: an optional sign, `-` only
/// where `signed`, and at least one decimal digit, nothing else.
pub open spec fn decimal_value(s: Seq<char>, signed: bool) -> Option<int> {
    if s.len() == 0 {
        None
    } else if s[0] == '-' || s[0] == '+' {
        if s.len() == 1 || (s[0] == '-' && !signed) {
            None
        } else {
            match digits_value(s.skip(1)) {
                Some(v) => Some(if s[0] == '-' { -v } else { v }),
                None => None,
            }
        }
    } else {
        digits_value(s)
    }
}

/// `str::parse::<i32>` on `s`: the value where it is an `i32`.
pub open spec fn parsed_i32(s: Seq<char>) -> Option<i32> {
    match decimal_value(s, true) {
        Some(v) => if i32::MIN <= v <= i32::MAX {
            Some(v as i32)
        } else {
            None
        },
        None => None,
    }
}

/// `str::parse::<u32>` on `s`: the value where it is a `u32`.
pub open spec fn parsed_u32(s: Seq<char>) -> Option<u32> {
    match decimal_value(s, false) {
        Some(v) => if 0 <= v <= u32::MAX {
            Some(v as u32)
        } else {
            None
        },
        None => None,
    }
}

/// `str::parse::<i64>` on `s`: the value where it is an `i64`.
pub open spec fn parsed_i64(s: Seq<char>) -> Option<i64> {
    match decimal_value(s, true) {
        Some(v) => if i64::MIN <= v <= i64::MAX {
            Some(v as i64)
        } else {
            None
        },
        None => None,
    }
}

/// `str::parse::<u64>` on `s`: the value where it is a `u64`.
pub open spec fn parsed_u64(s: Seq<char>) -> Option<u64> {
    match decimal_value(s, false) {
        Some(v) => if 0 <= v <= u64::MAX {
            Some(v as u64)
        } else {
            None
        },
        None => None,
    }
}

/// `str::parse::<i32>`, which reads an optional sign and decimal digits and
/// fails on anything else and on a value out of range.
#[verifier::external_body]
fn parse_i32(s: &str) -> (r: Option<i32>)
    ensures
        r == parsed_i32(s@),
{
    s.parse::<i32>().ok()
}

/// `str::parse::<u32>`, which reads an optional `+` and decimal digits and
/// fails on anything else and on a value out of range.
#[verifier::external_body]
fn parse_u32(s: &str) -> (r: Option<u32>)
    ensures
        r == parsed_u32(s@),
{
    s.parse::<u32>().ok()
}

/// `str::parse::<i64>`, which reads an optional sign and decimal digits and
/// fails on anything else and on a value out of range.
#[verifier::external_body]
fn parse_i64(s: &str) -> (r: Option<i64>)
    ensures
        r == parsed_i64(s@),
{
    s.parse::<i64>().ok()
}

/// `str::parse::<u64>`, which reads an optional `+` and decimal digits and
/// fails on anything else and on a value out of range.
#[verifier::external_body]
fn parse_u64(s: &str) -> (r: Option<u64>)
    ensures
        r == parsed_u64(s@),
{
    s.parse::<u64>().ok()
}

/// An argument: a value, or the decimal text of a float, which the embedder
/// reads.
#[derive(Debug)]
pub enum Arg {
    Value(Value),
    F32Text(String),
    F64Text(String),
}

/// What an argument holds.
pub enum ArgView {
    Value(Value),
    F32Text(Seq<char>),
    F64Text(Seq<char>),
}

impl View for Arg {
    type V = ArgView;

    open spec fn view(&self) -> ArgView {
        match self {
            Arg::Value(v) => ArgView::Value(*v),
            Arg::F32Text(s) => ArgView::F32Text(s@),
            Arg::F64Text(s) => ArgView::F64Text(s@),
        }
    }
}

/// An `i32` written in decimal, where it is out of range of `i32` but within
/// `u32`, taken by its bits.
pub open spec fn int32_of(t: Seq<char>) -> Option<Value> {
    match parsed_i32(t) {
        Some(x) => Some(Value::I32(x)),
        None => match parsed_u32(t) {
            Some(u) => Some(Value::I32(u as i32)),
            None => None,
        },
    }
}

/// An `i64` written in decimal, where it is out of range of `i64` but within
/// `u64`, taken by its bits.
pub open spec fn int64_of(t: Seq<char>) -> Option<Value> {
    match parsed_i64(t) {
        Some(x) => Some(Value::I64(x)),
        None => match parsed_u64(t) {
            Some(u) => Some(Value::I64(u as i64)),
            None => None,
        },
    }
}

/// The argument that a text stands for: the first of the patterns that matches
/// decides; `None` where none matches or the number does not fit.
pub open spec fn spec_parse_arg(a: Seq<char>) -> Option<ArgView> {
    if regex_matches(I32_PATTERN@, a) {
        match regex_first_group(I32_PATTERN@, a) {
            Some(t) => match int32_of(t) {
                Some(v) => Some(ArgView::Value(v)),
                None => None,
            },
            None => None,
        }
    } else if regex_matches(I64_PATTERN@, a) {
        match regex_first_group(I64_PATTERN@, a) {
            Some(t) => match int64_of(t) {
                Some(v) => Some(ArgView::Value(v)),
                None => None,
            },
            None => None,
        }
    } else if regex_matches(F32_PATTERN@, a) {
        match regex_first_group(F32_PATTERN@, a) {
            Some(t) => Some(ArgView::F32Text(t)),
            None => None,
        }
    } else if regex_matches(F64_PATTERN@, a) {
        match regex_first_group(F64_PATTERN@, a) {
            Some(t) => Some(ArgView::F64Text(t)),
            None => None,
        }
    } else if regex_matches(F32_INF_PATTERN@, a) {
        Some(ArgView::Value(Value::F32(F32_INF_BITS)))
    } else if regex_matches(F32_NEG_INF_PATTERN@, a) {
        Some(ArgView::Value(Value::F32(F32_NEG_INF_BITS)))
    } else if regex_matches(F64_INF_PATTERN@, a) {
        Some(ArgView::Value(Value::F64(F64_INF_BITS)))
    } else if regex_matches(F64_NEG_INF_PATTERN@, a) {
        Some(ArgView::Value(Value::F64(F64_NEG_INF_BITS)))
    } else if regex_matches(F32_NAN_PATTERN@, a) {
        Some(ArgView::Value(Value::F32(F32_NAN_BITS)))
    } else if regex_matches(F64_NAN_PATTERN@, a) {
        Some(ArgView::Value(Value::F64(F64_NAN_BITS)))
    } else {
        None
    }
}

/// Reads an `i32` in decimal; out of the range of `i32`, as the bits of a `u32`.
fn read_int32(t: &str) -> (r: Option<Value>)
    ensures
        r == int32_of(t@),
{
    match parse_i32(t) {
        Some(x) => Some(Value::I32(x)),
        None => match parse_u32(t) {
            Some(u) => Some(Value::I32(u as i32)),
            None => None,
        },
    }
}

/// Reads an `i64` in decimal; out of the range of `i64`, as the bits of a `u64`.
fn read_int64(t: &str) -> (r: Option<Value>)
    ensures
        r == int64_of(t@),
{
    match parse_i64(t) {
        Some(x) => Some(Value::I64(x)),
        None => match parse_u64(t) {
            Some(u) => Some(Value::I64(u as i64)),
            None => None,
        },
    }
}

/// The argument that a text stands for.
pub fn parse_arg(a: &str) -> (r: Option<Arg>)
    ensures
        match r {
            Some(x) => spec_parse_arg(a@) == Some(x@),
            None => spec_parse_arg(a@) is None,
        },
{
    if regex_is_match(I32_PATTERN, a) {
        match regex_capture(I32_PATTERN, a) {
            Some(t) => match read_int32(t.as_str()) {
                Some(v) => Some(Arg::Value(v)),
                None => None,
            },
            None => None,
        }
    } else if regex_is_match(I64_PATTERN, a) {
        match regex_capture(I64_PATTERN, a) {
            Some(t) => match read_int64(t.as_str()) {
                Some(v) => Some(Arg::Value(v)),
                None => None,
            },
            None => None,
        }
    } else if regex_is_match(F32_PATTERN, a) {
        match regex_capture(F32_PATTERN, a) {
            Some(t) => Some(Arg::F32Text(t)),
            None => None,
        }
    } else if regex_is_match(F64_PATTERN, a) {
        match regex_capture(F64_PATTERN, a) {
            Some(t) => Some(Arg::F64Text(t)),
            None => None,
        }
    } else if regex_is_match(F32_INF_PATTERN, a) {
        Some(Arg::Value(Value::F32(F32_INF_BITS)))
    } else if regex_is_match(F32_NEG_INF_PATTERN, a) {
        Some(Arg::Value(Value::F32(F32_NEG_INF_BITS)))
    } else if regex_is_match(F64_INF_PATTERN, a) {
        Some(Arg::Value(Value::F64(F64_INF_BITS)))
    } else if regex_is_match(F64_NEG_INF_PATTERN, a) {
        Some(Arg::Value(Value::F64(F64_NEG_INF_BITS)))
    } else if regex_is_match(F32_NAN_PATTERN, a) {
        Some(Arg::Value(Value::F32(F32_NAN_BITS)))
    } else if regex_is_match(F64_NAN_PATTERN, a) {
        Some(Arg::Value(Value::F64(F64_NAN_BITS)))
    } else {
        None
    }
}

/// The arguments that the texts stand for, in order; where one stands for
/// none, its index.
pub fn parse_args(args: Vec<String>) -> (r: Result<Vec<Arg>, usize>)
    ensures
        match r {
            Ok(v) => v@.len() == args@.len() && forall|k: int|
                0 <= k < args@.len() ==> spec_parse_arg(#[trigger] args@[k]@) == Some(v@[k]@),
            Err(i) => i < args@.len() && spec_parse_arg(args@[i as int]@) is None && forall|k: int|
                0 <= k < i ==> #[trigger] spec_parse_arg(args@[k]@) is Some,
        },
{
    let mut out: Vec<Arg> = Vec::new();
    let mut i: usize = 0;
    while i < args.len()
        invariant
            i <= args@.len(),
            out@.len() == i,
            forall|k: int| 0 <= k < i ==> spec_parse_arg(#[trigger] args@[k]@) == Some(out@[k]@),
        decreases args@.len() - i,
    {
        match parse_arg(args[i].as_str()) {
            Some(x) => {
                out.push(x);
            },
            None => {
                return Err(i);
            },
        }
        i = i + 1;
    }
    Ok(out)
}

} // verus!
