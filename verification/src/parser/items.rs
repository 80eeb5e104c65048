//! Readers of the entries that sections are made of: types, limits, imports,
//! exports and locals.

use crate::parser::ast::{
    spec_mu_of_byte, spec_value_type_of_byte, ExportEntry, ExternalKindType, FunctionSignature,
    GlobalType, ImportDesc, ImportEntry, Limits, LocalEntry, MemoryType, Mu, TableType, ValueType,
};
use crate::parser::reader::{
    spec_take_leb_u32, spec_take_name, take_byte, take_leb_u32, take_name, window, ParseError,
};
use vstd::prelude::*;

verus! {

/// A value type byte.
pub open spec fn spec_take_valtype(input: Seq<u8>, pos: int) -> Result<(ValueType, usize), ParseError> {
    if pos >= input.len() {
        Err(ParseError::Eof)
    } else {
        match spec_value_type_of_byte(input[pos]) {
            None => Err(ParseError::Malformed),
            Some(t) => Ok((t, (pos + 1) as usize)),
        }
    }
}

/// Limits: `0x00` and a minimum, or `0x01`, a minimum and a maximum.
pub open spec fn spec_take_limits(input: Seq<u8>, pos: int) -> Result<(Limits, usize), ParseError> {
    if pos >= input.len() {
        Err(ParseError::Eof)
    } else if input[pos] == 0x00 {
        match spec_take_leb_u32(input, pos + 1) {
            Err(e) => Err(e),
            Ok((n, p)) => Ok((Limits::Zero(n), p)),
        }
    } else if input[pos] == 0x01 {
        match spec_take_leb_u32(input, pos + 1) {
            Err(e) => Err(e),
            Ok((n, p)) => match spec_take_leb_u32(input, p as int) {
                Err(e) => Err(e),
                Ok((m, q)) => Ok((Limits::One(n, m), q)),
            },
        }
    } else {
        Err(ParseError::Malformed)
    }
}

/// A table type: the element type `0x70`, then limits.
pub open spec fn spec_take_tabletype(input: Seq<u8>, pos: int) -> Result<(TableType, usize), ParseError> {
    if pos >= input.len() {
        Err(ParseError::Eof)
    } else if input[pos] != 0x70 {
        Err(ParseError::Malformed)
    } else {
        match spec_take_limits(input, pos + 1) {
            Err(e) => Err(e),
            Ok((l, p)) => Ok((TableType { element_type: 0x70, limits: l }, p)),
        }
    }
}

/// A memory type: limits.
pub open spec fn spec_take_memtype(input: Seq<u8>, pos: int) -> Result<(MemoryType, usize), ParseError> {
    match spec_take_limits(input, pos) {
        Err(e) => Err(e),
        Ok((l, p)) => Ok((MemoryType { limits: l }, p)),
    }
}

/// A global type: a value type, then the mutability byte.
pub open spec fn spec_take_globaltype(input: Seq<u8>, pos: int) -> Result<(GlobalType, usize), ParseError> {
    match spec_take_valtype(input, pos) {
        Err(e) => Err(e),
        Ok((t, p)) => if p >= input.len() {
            Err(ParseError::Eof)
        } else {
            match spec_mu_of_byte(input[p as int]) {
                None => Err(ParseError::Malformed),
                Some(m) => Ok((GlobalType { value_type: t, mu: m }, (p + 1) as usize)),
            }
        },
    }
}

/// The value types of a list of bytes, where each byte encodes one.
pub open spec fn spec_types_of_bytes(s: Seq<u8>) -> Option<Seq<ValueType>> {
    if forall|i: int| 0 <= i < s.len() ==> (#[trigger] spec_value_type_of_byte(s[i])) is Some {
        Some(Seq::new(s.len(), |i: int| spec_value_type_of_byte(s[i]).unwrap()))
    } else {
        None
    }
}

/// A function type: `0x60`, the parameter types and the result types, each a
/// count and that many value type bytes. The bytes are all read before any is
/// decoded.
pub open spec fn spec_take_functype(input: Seq<u8>, pos: int) -> Result<
    ((Seq<ValueType>, Seq<ValueType>), usize),
    ParseError,
> {
    if pos >= input.len() {
        Err(ParseError::Eof)
    } else if input[pos] != 0x60 {
        Err(ParseError::Malformed)
    } else {
        match spec_take_leb_u32(input, pos + 1) {
            Err(e) => Err(e),
            Ok((n1, p1)) => if p1 + n1 > input.len() {
                Err(ParseError::Eof)
            } else {
                match spec_take_leb_u32(input, p1 + n1) {
                    Err(e) => Err(e),
                    Ok((n2, p2)) => if p2 + n2 > input.len() {
                        Err(ParseError::Eof)
                    } else {
                        match (
                            spec_types_of_bytes(window(input, p1 as int, n1 as int)),
                            spec_types_of_bytes(window(input, p2 as int, n2 as int)),
                        ) {
                            (Some(params), Some(results)) => Ok(((params, results), (p2 + n2) as usize)),
                            _ => Err(ParseError::Malformed),
                        }
                    },
                }
            },
        }
    }
}

/// What an import brings in: a tag byte, then a type index, a table type, a
/// memory type or a global type.
pub open spec fn spec_take_import_desc(input: Seq<u8>, pos: int) -> Result<(ImportDesc, usize), ParseError> {
    if pos >= input.len() {
        Err(ParseError::Eof)
    } else if input[pos] == 0x00 {
        match spec_take_leb_u32(input, pos + 1) {
            Err(e) => Err(e),
            Ok((t, p)) => Ok((ImportDesc::Function { ty: t }, p)),
        }
    } else if input[pos] == 0x01 {
        match spec_take_tabletype(input, pos + 1) {
            Err(e) => Err(e),
            Ok((t, p)) => Ok((ImportDesc::Table { ty: t }, p)),
        }
    } else if input[pos] == 0x02 {
        match spec_take_memtype(input, pos + 1) {
            Err(e) => Err(e),
            Ok((t, p)) => Ok((ImportDesc::Memory { ty: t }, p)),
        }
    } else if input[pos] == 0x03 {
        match spec_take_globaltype(input, pos + 1) {
            Err(e) => Err(e),
            Ok((t, p)) => Ok((ImportDesc::Global { ty: t }, p)),
        }
    } else {
        Err(ParseError::Malformed)
    }
}

/// An import: the module's name, the item's name, and what it brings in.
pub open spec fn spec_take_import(input: Seq<u8>, pos: int) -> Result<
    ((Seq<char>, Seq<char>, ImportDesc), usize),
    ParseError,
> {
    match spec_take_name(input, pos) {
        Err(e) => Err(e),
        Ok((m, p)) => match spec_take_name(input, p as int) {
            Err(e) => Err(e),
            Ok((n, q)) => match spec_take_import_desc(input, q as int) {
                Err(e) => Err(e),
                Ok((d, r)) => Ok(((m, n, d), r)),
            },
        },
    }
}

/// What an export hands out: a tag byte, then an index.
pub open spec fn spec_take_export_kind(input: Seq<u8>, pos: int) -> Result<(ExternalKindType, usize), ParseError> {
    if pos >= input.len() {
        Err(ParseError::Eof)
    } else if input[pos] > 0x03 {
        Err(ParseError::Malformed)
    } else {
        match spec_take_leb_u32(input, pos + 1) {
            Err(e) => Err(e),
            Ok((t, p)) => Ok((
                if input[pos] == 0x00 {
                    ExternalKindType::Function { ty: t }
                } else if input[pos] == 0x01 {
                    ExternalKindType::Table { ty: t }
                } else if input[pos] == 0x02 {
                    ExternalKindType::Memory { ty: t }
                } else {
                    ExternalKindType::Global { ty: t }
                },
                p,
            )),
        }
    }
}

/// An export: its name and what it hands out.
pub open spec fn spec_take_export(input: Seq<u8>, pos: int) -> Result<((Seq<char>, ExternalKindType), usize), ParseError> {
    match spec_take_name(input, pos) {
        Err(e) => Err(e),
        Ok((n, p)) => match spec_take_export_kind(input, p as int) {
            Err(e) => Err(e),
            Ok((k, q)) => Ok(((n, k), q)),
        },
    }
}

/// A group of locals: a count and a value type.
pub open spec fn spec_take_local(input: Seq<u8>, pos: int) -> Result<(LocalEntry, usize), ParseError> {
    match spec_take_leb_u32(input, pos) {
        Err(e) => Err(e),
        Ok((n, p)) => match spec_take_valtype(input, p as int) {
            Err(e) => Err(e),
            Ok((t, q)) => Ok((LocalEntry { count: n, ty: t }, q)),
        },
    }
}

/// `n` entries, one after the other, each read by `item`.
pub open spec fn spec_take_n<T>(
    input: Seq<u8>,
    pos: int,
    n: nat,
    item: spec_fn(Seq<u8>, int) -> Result<(T, usize), ParseError>,
) -> Result<(Seq<T>, usize), ParseError>
    decreases n,
{
    if n == 0 {
        Ok((Seq::empty(), pos as usize))
    } else {
        match spec_take_n(input, pos, (n - 1) as nat, item) {
            Err(e) => Err(e),
            Ok((s, p)) => match item(input, p as int) {
                Err(e) => Err(e),
                Ok((x, q)) => Ok((s.push(x), q)),
            },
        }
    }
}

/// An error in reading the first `i` entries is the error of reading `n >= i`.
pub proof fn lemma_take_n_err<T>(
    input: Seq<u8>,
    pos: int,
    i: nat,
    n: nat,
    item: spec_fn(Seq<u8>, int) -> Result<(T, usize), ParseError>,
    e: ParseError,
)
    requires
        i <= n,
        spec_take_n(input, pos, i, item) == Err::<(Seq<T>, usize), ParseError>(e),
    ensures
        spec_take_n(input, pos, n, item) == Err::<(Seq<T>, usize), ParseError>(e),
    decreases n - i,
{
    if i < n {
        lemma_take_n_err(input, pos, i + 1, n, item, e);
    }
}

/// Reads a value type.
pub fn take_valtype(input: &[u8], pos: usize) -> (r: Result<(ValueType, usize), ParseError>)
    requires
        pos <= input@.len(),
    ensures
        r == spec_take_valtype(input@, pos as int),
        r matches Ok((_, p)) ==> pos < p <= input@.len(),
{
    if pos >= input.len() {
        return Err(ParseError::Eof);
    }
    match ValueType::from_byte(input[pos]) {
        None => Err(ParseError::Malformed),
        Some(t) => Ok((t, pos + 1)),
    }
}

/// Reads limits.
pub fn take_limits(input: &[u8], pos: usize) -> (r: Result<(Limits, usize), ParseError>)
    requires
        pos <= input@.len(),
    ensures
        r == spec_take_limits(input@, pos as int),
        r matches Ok((_, p)) ==> pos < p <= input@.len(),
{
    if pos >= input.len() {
        return Err(ParseError::Eof);
    }
    let tag = input[pos];
    if tag == 0x00 {
        match take_leb_u32(input, pos + 1) {
            Err(e) => Err(e),
            Ok((n, p)) => Ok((Limits::Zero(n), p)),
        }
    } else if tag == 0x01 {
        match take_leb_u32(input, pos + 1) {
            Err(e) => Err(e),
            Ok((n, p)) => match take_leb_u32(input, p) {
                Err(e) => Err(e),
                Ok((m, q)) => Ok((Limits::One(n, m), q)),
            },
        }
    } else {
        Err(ParseError::Malformed)
    }
}

/// Reads a table type.
pub fn take_tabletype(input: &[u8], pos: usize) -> (r: Result<(TableType, usize), ParseError>)
    requires
        pos <= input@.len(),
    ensures
        r == spec_take_tabletype(input@, pos as int),
        r matches Ok((_, p)) ==> pos < p <= input@.len(),
{
    if pos >= input.len() {
        return Err(ParseError::Eof);
    }
    if input[pos] != 0x70 {
        return Err(ParseError::Malformed);
    }
    match take_limits(input, pos + 1) {
        Err(e) => Err(e),
        Ok((l, p)) => Ok((TableType { element_type: 0x70, limits: l }, p)),
    }
}

/// Reads a memory type.
pub fn take_memtype(input: &[u8], pos: usize) -> (r: Result<(MemoryType, usize), ParseError>)
    requires
        pos <= input@.len(),
    ensures
        r == spec_take_memtype(input@, pos as int),
        r matches Ok((_, p)) ==> pos < p <= input@.len(),
{
    match take_limits(input, pos) {
        Err(e) => Err(e),
        Ok((l, p)) => Ok((MemoryType { limits: l }, p)),
    }
}

/// Reads a global type.
pub fn take_globaltype(input: &[u8], pos: usize) -> (r: Result<(GlobalType, usize), ParseError>)
    requires
        pos <= input@.len(),
    ensures
        r == spec_take_globaltype(input@, pos as int),
        r matches Ok((_, p)) ==> pos < p <= input@.len(),
{
    let (t, p) = match take_valtype(input, pos) {
        Err(e) => {
            return Err(e);
        },
        Ok(x) => x,
    };
    let (b, q) = match take_byte(input, p) {
        Err(e) => {
            return Err(e);
        },
        Ok(x) => x,
    };
    assert(q == p + 1 && p < input@.len());
    match Mu::from_byte(b) {
        None => Err(ParseError::Malformed),
        Some(m) => Ok((GlobalType { value_type: t, mu: m }, q)),
    }
}

/// Decodes each byte of `input[pos..pos + n]` as a value type.
fn types_of_bytes(input: &[u8], pos: usize, n: usize) -> (r: Option<Vec<ValueType>>)
    requires
        pos + n <= input@.len(),
    ensures
        match spec_types_of_bytes(window(input@, pos as int, n as int)) {
            Some(ts) => r matches Some(v) && v@ == ts,
            None => r is None,
        },
{
    let ghost w = window(input@, pos as int, n as int);
    let mut v: Vec<ValueType> = Vec::new();
    let mut i: usize = 0;
    while i < n
        invariant
            i <= n,
            pos + n <= input.len(),
            w == window(input@, pos as int, n as int),
            v@.len() == i,
            forall|k: int| 0 <= k < i ==> (#[trigger] spec_value_type_of_byte(w[k])) == Some(v@[k]),
        decreases n - i,
    {
        match ValueType::from_byte(input[pos + i]) {
            None => {
                proof {
                    assert(spec_value_type_of_byte(w[i as int]) is None);
                }
                return None;
            },
            Some(t) => {
                v.push(t);
            },
        }
        i = i + 1;
    }
    proof {
        assert forall|k: int| 0 <= k < w.len() implies (#[trigger] spec_value_type_of_byte(w[k])) is Some by {}
        assert(v@ =~= Seq::new(w.len(), |k: int| spec_value_type_of_byte(w[k]).unwrap()));
    }
    Some(v)
}

/// Reads a function type.
pub fn take_functype(input: &[u8], pos: usize) -> (r: Result<(FunctionSignature, usize), ParseError>)
    requires
        pos <= input@.len(),
    ensures
        match spec_take_functype(input@, pos as int) {
            Ok(((ps, rs), p)) => r matches Ok((sig, q)) && sig.param_types@ == ps && sig.return_types@
                == rs && q == p && pos < q <= input@.len(),
            Err(e) => r == Err::<(FunctionSignature, usize), ParseError>(e),
        },
{
    if pos >= input.len() {
        return Err(ParseError::Eof);
    }
    if input[pos] != 0x60 {
        return Err(ParseError::Malformed);
    }
    let (n1, p1) = match take_leb_u32(input, pos + 1) {
        Err(e) => {
            return Err(e);
        },
        Ok(x) => x,
    };
    if input.len() - p1 < n1 as usize {
        return Err(ParseError::Eof);
    }
    let (n2, p2) = match take_leb_u32(input, p1 + n1 as usize) {
        Err(e) => {
            return Err(e);
        },
        Ok(x) => x,
    };
    if input.len() - p2 < n2 as usize {
        return Err(ParseError::Eof);
    }
    let params = types_of_bytes(input, p1, n1 as usize);
    let results = types_of_bytes(input, p2, n2 as usize);
    match (params, results) {
        (Some(ps), Some(rs)) => Ok((FunctionSignature { param_types: ps, return_types: rs }, p2 + n2 as usize)),
        _ => Err(ParseError::Malformed),
    }
}

/// Reads what an import brings in.
pub fn take_import_desc(input: &[u8], pos: usize) -> (r: Result<(ImportDesc, usize), ParseError>)
    requires
        pos <= input@.len(),
    ensures
        r == spec_take_import_desc(input@, pos as int),
        r matches Ok((_, p)) ==> pos < p <= input@.len(),
{
    if pos >= input.len() {
        return Err(ParseError::Eof);
    }
    let tag = input[pos];
    if tag == 0x00 {
        match take_leb_u32(input, pos + 1) {
            Err(e) => Err(e),
            Ok((t, p)) => Ok((ImportDesc::Function { ty: t }, p)),
        }
    } else if tag == 0x01 {
        match take_tabletype(input, pos + 1) {
            Err(e) => Err(e),
            Ok((t, p)) => Ok((ImportDesc::Table { ty: t }, p)),
        }
    } else if tag == 0x02 {
        match take_memtype(input, pos + 1) {
            Err(e) => Err(e),
            Ok((t, p)) => Ok((ImportDesc::Memory { ty: t }, p)),
        }
    } else if tag == 0x03 {
        match take_globaltype(input, pos + 1) {
            Err(e) => Err(e),
            Ok((t, p)) => Ok((ImportDesc::Global { ty: t }, p)),
        }
    } else {
        Err(ParseError::Malformed)
    }
}

/// Reads an import.
pub fn take_import(input: &[u8], pos: usize) -> (r: Result<(ImportEntry, usize), ParseError>)
    requires
        pos <= input@.len(),
    ensures
        match spec_take_import(input@, pos as int) {
            Ok(((m, n, d), p)) => r matches Ok((e, q)) && e.module_name@ == m && e.name@ == n && e.desc
                == d && q == p && pos < q <= input@.len(),
            Err(e) => r == Err::<(ImportEntry, usize), ParseError>(e),
        },
{
    let (module_name, p) = match take_name(input, pos) {
        Err(e) => {
            return Err(e);
        },
        Ok(x) => x,
    };
    let (name, q) = match take_name(input, p) {
        Err(e) => {
            return Err(e);
        },
        Ok(x) => x,
    };
    match take_import_desc(input, q) {
        Err(e) => Err(e),
        Ok((desc, r)) => Ok((ImportEntry { module_name, name, desc }, r)),
    }
}

/// Reads what an export hands out.
pub fn take_export_kind(input: &[u8], pos: usize) -> (r: Result<(ExternalKindType, usize), ParseError>)
    requires
        pos <= input@.len(),
    ensures
        r == spec_take_export_kind(input@, pos as int),
        r matches Ok((_, p)) ==> pos < p <= input@.len(),
{
    if pos >= input.len() {
        return Err(ParseError::Eof);
    }
    let tag = input[pos];
    if tag > 0x03 {
        return Err(ParseError::Malformed);
    }
    match take_leb_u32(input, pos + 1) {
        Err(e) => Err(e),
        Ok((t, p)) => Ok((
            if tag == 0x00 {
                ExternalKindType::Function { ty: t }
            } else if tag == 0x01 {
                ExternalKindType::Table { ty: t }
            } else if tag == 0x02 {
                ExternalKindType::Memory { ty: t }
            } else {
                ExternalKindType::Global { ty: t }
            },
            p,
        )),
    }
}

/// Reads an export.
pub fn take_export(input: &[u8], pos: usize) -> (r: Result<(ExportEntry, usize), ParseError>)
    requires
        pos <= input@.len(),
    ensures
        match spec_take_export(input@, pos as int) {
            Ok(((n, k), p)) => r matches Ok((e, q)) && e.name@ == n && e.kind == k && q == p && pos < q
                <= input@.len(),
            Err(e) => r == Err::<(ExportEntry, usize), ParseError>(e),
        },
{
    let (name, p) = match take_name(input, pos) {
        Err(e) => {
            return Err(e);
        },
        Ok(x) => x,
    };
    match take_export_kind(input, p) {
        Err(e) => Err(e),
        Ok((kind, q)) => Ok((ExportEntry { name, kind }, q)),
    }
}

/// Reads a group of locals.
pub fn take_local(input: &[u8], pos: usize) -> (r: Result<(LocalEntry, usize), ParseError>)
    requires
        pos <= input@.len(),
    ensures
        r == spec_take_local(input@, pos as int),
        r matches Ok((_, p)) ==> pos < p <= input@.len(),
{
    match take_leb_u32(input, pos) {
        Err(e) => Err(e),
        Ok((n, p)) => match take_valtype(input, p) {
            Err(e) => Err(e),
            Ok((t, q)) => Ok((LocalEntry { count: n, ty: t }, q)),
        },
    }
}

} // verus!
