//! Sections and the module: the entries of each section, the sections one after
//! the other, and the header.

use crate::parser::ast::{
    CodeSection, Counter, CustomSection, DataSection, DataSegment, ElementSection, ElementSegment,
    ExportEntry, ExportSection, ExternalKindType, FunctionBody, FunctionSection, FunctionSignature,
    GlobalSection, GlobalVariable, ImportDesc, ImportEntry, ImportSection, InstructionWrapper,
    LocalEntry, MemorySection, MemoryType, Section, StartSection, TableSection, TableType,
    TypeSection, ValueType,
};
use crate::parser::grammar::{cuts, decodes_seq, end_of, forward, spec_expr_end, END_BYTE};
use crate::parser::instructions::{room_for, take_expr, take_u32_vec};
use crate::parser::items::{
    lemma_take_n_err, spec_take_export, spec_take_functype, spec_take_import, spec_take_local,
    spec_take_memtype, spec_take_n, spec_take_tabletype, take_export, take_functype, take_import,
    take_local, take_memtype, take_tabletype,
};
use crate::parser::reader::{
    spec_take_leb_u32, spec_take_name, take_bytes, take_leb_u32, take_name, window, ParseError,
};
use crate::parser::grammar::spec_take_u32_seq;
use vstd::prelude::*;

verus! {

/// The first four bytes of every module.
pub const MAGIC_NUMBER: [u8; 4] = [0, 97, 115, 109];

/// A module: its sections in the order of the binary.
#[derive(Debug)]
pub struct Module {
    pub sections: Vec<Section>,
}

/// The counter handed out no more than `n` ids of each kind, and took none back.
pub open spec fn grew_within(old: (nat, nat), new: (nat, nat), n: int) -> bool {
    &&& old.0 <= new.0 <= old.0 + n
    &&& old.1 <= new.1 <= old.1 + n
}

/// The parameter and result types of a signature.
pub open spec fn sig_view(f: FunctionSignature) -> (Seq<ValueType>, Seq<ValueType>) {
    (f.param_types@, f.return_types@)
}

/// The names and the description of an import.
pub open spec fn import_view(e: ImportEntry) -> (Seq<char>, Seq<char>, ImportDesc) {
    (e.module_name@, e.name@, e.desc)
}

/// The name and the kind of an export.
pub open spec fn export_view(e: ExportEntry) -> (Seq<char>, ExternalKindType) {
    (e.name@, e.kind)
}

/// Reads a function type, as a spec function value.
pub open spec fn functype_reader() -> spec_fn(Seq<u8>, int) -> Result<((Seq<ValueType>, Seq<ValueType>), usize), ParseError> {
    |input: Seq<u8>, p: int| spec_take_functype(input, p)
}

/// Reads an import, as a spec function value.
pub open spec fn import_reader() -> spec_fn(Seq<u8>, int) -> Result<((Seq<char>, Seq<char>, ImportDesc), usize), ParseError> {
    |input: Seq<u8>, p: int| spec_take_import(input, p)
}

/// Reads a table type, as a spec function value.
pub open spec fn table_reader() -> spec_fn(Seq<u8>, int) -> Result<(TableType, usize), ParseError> {
    |input: Seq<u8>, p: int| spec_take_tabletype(input, p)
}

/// Reads a memory type, as a spec function value.
pub open spec fn memory_reader() -> spec_fn(Seq<u8>, int) -> Result<(MemoryType, usize), ParseError> {
    |input: Seq<u8>, p: int| spec_take_memtype(input, p)
}

/// Reads an export, as a spec function value.
pub open spec fn export_reader() -> spec_fn(Seq<u8>, int) -> Result<((Seq<char>, ExternalKindType), usize), ParseError> {
    |input: Seq<u8>, p: int| spec_take_export(input, p)
}

/// Reads a group of locals, as a spec function value.
pub open spec fn local_reader() -> spec_fn(Seq<u8>, int) -> Result<(LocalEntry, usize), ParseError> {
    |input: Seq<u8>, p: int| spec_take_local(input, p)
}

/// `input[a..b]` is an expression: instructions and the end byte.
pub open spec fn expr_at(input: Seq<u8>, a: int, b: int, ws: Seq<InstructionWrapper>) -> bool {
    &&& a < b <= input.len()
    &&& input[b - 1] == END_BYTE
    &&& decodes_seq(input, a, b - 1, ws)
}

/// `input[a..b]` is a global: its type and its initialiser.
pub open spec fn global_at(input: Seq<u8>, a: int, b: int, g: GlobalVariable) -> bool {
    match crate::parser::items::spec_take_globaltype(input, a) {
        Ok((t, q)) => t == g.ty && expr_at(input, q as int, b, g.init@),
        Err(_) => false,
    }
}

/// `input[a..b]` is an element segment: the table index, the offset expression,
/// and the function indices.
pub open spec fn element_at(input: Seq<u8>, a: int, b: int, e: ElementSegment) -> bool {
    match spec_take_leb_u32(input, a) {
        Ok((t, q)) => t == e.table && exists|m: int|
            #[trigger] expr_at(input, q as int, m, e.offset@) && match spec_take_leb_u32(input, m) {
                Ok((n, p)) => spec_take_u32_seq(input, p as int, n as nat) == Ok::<
                    (Seq<u32>, usize),
                    ParseError,
                >((e.init@, b as usize)),
                Err(_) => false,
            },
        Err(_) => false,
    }
}

/// `input[a..b]` is a data segment: the memory index, the offset expression, and
/// the bytes.
pub open spec fn data_at(input: Seq<u8>, a: int, b: int, d: DataSegment) -> bool {
    match spec_take_leb_u32(input, a) {
        Ok((i, q)) => i == d.data && exists|m: int|
            #[trigger] expr_at(input, q as int, m, d.offset@) && match spec_take_leb_u32(input, m) {
                Ok((n, p)) => p + n == b && b <= input.len() && window(input, p as int, n as int)
                    == d.init@,
                Err(_) => false,
            },
        Err(_) => false,
    }
}

/// `input[a..b]` is the code of a function: its size, which is not checked, its
/// groups of locals, and its body.
pub open spec fn code_at(input: Seq<u8>, a: int, b: int, f: FunctionBody) -> bool {
    match spec_take_leb_u32(input, a) {
        Ok((_, q)) => match spec_take_leb_u32(input, q as int) {
            Ok((n, q2)) => match spec_take_n(input, q2 as int, n as nat, local_reader()) {
                Ok((ls, q3)) => ls == f.locals@ && expr_at(input, q3 as int, b, f.code@),
                Err(_) => false,
            },
            Err(_) => false,
        },
        Err(_) => false,
    }
}

/// `input[a..b]` holds the entries of `s` one after the other, each as `at` says.
pub open spec fn all_at<T>(input: Seq<u8>, a: int, b: int, s: Seq<T>, at: spec_fn(Seq<u8>, int, int, T) -> bool) -> bool {
    exists|pts: Seq<int>|
        #[trigger] cuts(a, b, s.len(), pts) && forall|k: int|
            #![trigger pts[k], s[k]]
            0 <= k < s.len() ==> at(input, pts[k], pts[k + 1], s[k])
}

/// `global_at` as a spec function value.
pub open spec fn global_fn() -> spec_fn(Seq<u8>, int, int, GlobalVariable) -> bool {
    |input: Seq<u8>, a: int, b: int, g: GlobalVariable| global_at(input, a, b, g)
}

/// `element_at` as a spec function value.
pub open spec fn element_fn() -> spec_fn(Seq<u8>, int, int, ElementSegment) -> bool {
    |input: Seq<u8>, a: int, b: int, e: ElementSegment| element_at(input, a, b, e)
}

/// `data_at` as a spec function value.
pub open spec fn data_fn() -> spec_fn(Seq<u8>, int, int, DataSegment) -> bool {
    |input: Seq<u8>, a: int, b: int, d: DataSegment| data_at(input, a, b, d)
}

/// `code_at` as a spec function value.
pub open spec fn code_fn() -> spec_fn(Seq<u8>, int, int, FunctionBody) -> bool {
    |input: Seq<u8>, a: int, b: int, f: FunctionBody| code_at(input, a, b, f)
}

/// The content of a section, from `q` (after its size) to `b`, is `sec`, whose id is
/// `id`; `size` is the size that the section declares.
pub open spec fn content_at(input: Seq<u8>, id: u8, size: u32, q: int, b: int, sec: Section) -> bool {
    match sec {
        Section::Custom(c) => id == 0 && match spec_take_name(input, q) {
            Ok((nm, r)) => c.name@ == nm && r - q <= size && b == q + size,
            Err(_) => false,
        },
        Section::Type(t) => id == 1 && match spec_take_leb_u32(input, q) {
            Ok((n, r)) => match spec_take_n(input, r as int, n as nat, functype_reader()) {
                Ok((s, e)) => e == b && t.entries@.len() == s.len() && forall|k: int|
                    0 <= k < s.len() ==> sig_view(#[trigger] t.entries@[k]) == s[k],
                Err(_) => false,
            },
            Err(_) => false,
        },
        Section::Import(i) => id == 2 && match spec_take_leb_u32(input, q) {
            Ok((n, r)) => match spec_take_n(input, r as int, n as nat, import_reader()) {
                Ok((s, e)) => e == b && i.entries@.len() == s.len() && forall|k: int|
                    0 <= k < s.len() ==> import_view(#[trigger] i.entries@[k]) == s[k],
                Err(_) => false,
            },
            Err(_) => false,
        },
        Section::Function(f) => id == 3 && match spec_take_leb_u32(input, q) {
            Ok((n, r)) => spec_take_u32_seq(input, r as int, n as nat) == Ok::<(Seq<u32>, usize), ParseError>(
                (f.types@, b as usize),
            ),
            Err(_) => false,
        },
        Section::Table(t) => id == 4 && match spec_take_leb_u32(input, q) {
            Ok((n, r)) => spec_take_n(input, r as int, n as nat, table_reader()) == Ok::<
                (Seq<TableType>, usize),
                ParseError,
            >((t.entries@, b as usize)),
            Err(_) => false,
        },
        Section::Memory(m) => id == 5 && match spec_take_leb_u32(input, q) {
            Ok((n, r)) => spec_take_n(input, r as int, n as nat, memory_reader()) == Ok::<
                (Seq<MemoryType>, usize),
                ParseError,
            >((m.entries@, b as usize)),
            Err(_) => false,
        },
        Section::Global(g) => id == 6 && match spec_take_leb_u32(input, q) {
            Ok((n, r)) => g.globals@.len() == n && all_at(input, r as int, b, g.globals@, global_fn()),
            Err(_) => false,
        },
        Section::Export(x) => id == 7 && match spec_take_leb_u32(input, q) {
            Ok((n, r)) => match spec_take_n(input, r as int, n as nat, export_reader()) {
                Ok((s, e)) => e == b && x.entries@.len() == s.len() && forall|k: int|
                    0 <= k < s.len() ==> export_view(#[trigger] x.entries@[k]) == s[k],
                Err(_) => false,
            },
            Err(_) => false,
        },
        Section::Start(s) => id == 8 && spec_take_leb_u32(input, q) == Ok::<(u32, usize), ParseError>(
            (s.index, b as usize),
        ),
        Section::Element(e) => id == 9 && match spec_take_leb_u32(input, q) {
            Ok((n, r)) => e.entries@.len() == n && all_at(input, r as int, b, e.entries@, element_fn()),
            Err(_) => false,
        },
        Section::Code(c) => id == 10 && match spec_take_leb_u32(input, q) {
            Ok((n, r)) => c.entries@.len() == n && all_at(input, r as int, b, c.entries@, code_fn()),
            Err(_) => false,
        },
        Section::Data(d) => id == 11 && match spec_take_leb_u32(input, q) {
            Ok((n, r)) => d.entries@.len() == n && all_at(input, r as int, b, d.entries@, data_fn()),
            Err(_) => false,
        },
        Section::Name(_) => false,
    }
}

/// `input[a..b]` is the section `sec`: its id byte, its size, and its content.
pub open spec fn section_at(input: Seq<u8>, a: int, b: int, sec: Section) -> bool {
    &&& 0 <= a < b <= input.len()
    &&& match spec_take_leb_u32(input, a + 1) {
        Ok((size, q)) => content_at(input, input[a], size, q as int, b, sec),
        Err(_) => false,
    }
}

/// Reads `n` function types.
fn take_functypes(input: &[u8], pos: usize, n: u32) -> (r: Result<(Vec<FunctionSignature>, usize), ParseError>)
    requires
        pos <= input@.len(),
    ensures
        match spec_take_n(input@, pos as int, n as nat, functype_reader()) {
            Ok((s, p)) => r matches Ok((v, q)) && q == p && pos <= q <= input@.len() && v@.len() == s.len() && forall|k: int| 0 <= k < s.len() ==> sig_view(#[trigger] v@[k]) == s[k],
            Err(e) => r == Err::<(Vec<FunctionSignature>, usize), ParseError>(e),
        },
{
    let mut v: Vec<FunctionSignature> = Vec::new();
    let mut cur = pos;
    let mut i: u32 = 0;
    while i < n
        invariant
            i <= n,
            pos <= cur <= input@.len(),
            spec_take_n(input@, pos as int, i as nat, functype_reader()) matches Ok((s, c)) && c == cur && v@.len() == s.len() && forall|k: int| 0 <= k < s.len() ==> sig_view(#[trigger] v@[k]) == s[k],
        decreases n - i,
    {
        match take_functype(input, cur) {
            Err(e) => {
                proof {
                    lemma_take_n_err(input@, pos as int, (i + 1) as nat, n as nat, functype_reader(), e);
                }
                return Err(e);
            },
            Ok((x, q)) => {
                v.push(x);
                cur = q;
            },
        }
        i = i + 1;
    }
    Ok((v, cur))
}

/// Reads `n` imports.
fn take_imports(input: &[u8], pos: usize, n: u32) -> (r: Result<(Vec<ImportEntry>, usize), ParseError>)
    requires
        pos <= input@.len(),
    ensures
        match spec_take_n(input@, pos as int, n as nat, import_reader()) {
            Ok((s, p)) => r matches Ok((v, q)) && q == p && pos <= q <= input@.len() && v@.len() == s.len() && forall|k: int| 0 <= k < s.len() ==> import_view(#[trigger] v@[k]) == s[k],
            Err(e) => r == Err::<(Vec<ImportEntry>, usize), ParseError>(e),
        },
{
    let mut v: Vec<ImportEntry> = Vec::new();
    let mut cur = pos;
    let mut i: u32 = 0;
    while i < n
        invariant
            i <= n,
            pos <= cur <= input@.len(),
            spec_take_n(input@, pos as int, i as nat, import_reader()) matches Ok((s, c)) && c == cur && v@.len() == s.len() && forall|k: int| 0 <= k < s.len() ==> import_view(#[trigger] v@[k]) == s[k],
        decreases n - i,
    {
        match take_import(input, cur) {
            Err(e) => {
                proof {
                    lemma_take_n_err(input@, pos as int, (i + 1) as nat, n as nat, import_reader(), e);
                }
                return Err(e);
            },
            Ok((x, q)) => {
                v.push(x);
                cur = q;
            },
        }
        i = i + 1;
    }
    Ok((v, cur))
}

/// Reads `n` table types.
fn take_tables(input: &[u8], pos: usize, n: u32) -> (r: Result<(Vec<TableType>, usize), ParseError>)
    requires
        pos <= input@.len(),
    ensures
        match spec_take_n(input@, pos as int, n as nat, table_reader()) {
            Ok((s, p)) => r matches Ok((v, q)) && q == p && pos <= q <= input@.len() && v@ == s,
            Err(e) => r == Err::<(Vec<TableType>, usize), ParseError>(e),
        },
{
    let mut v: Vec<TableType> = Vec::new();
    let mut cur = pos;
    let mut i: u32 = 0;
    while i < n
        invariant
            i <= n,
            pos <= cur <= input@.len(),
            spec_take_n(input@, pos as int, i as nat, table_reader()) matches Ok((s, c)) && c == cur && v@ == s,
        decreases n - i,
    {
        match take_tabletype(input, cur) {
            Err(e) => {
                proof {
                    lemma_take_n_err(input@, pos as int, (i + 1) as nat, n as nat, table_reader(), e);
                }
                return Err(e);
            },
            Ok((x, q)) => {
                v.push(x);
                cur = q;
            },
        }
        i = i + 1;
    }
    Ok((v, cur))
}

/// Reads `n` memory types.
fn take_memories(input: &[u8], pos: usize, n: u32) -> (r: Result<(Vec<MemoryType>, usize), ParseError>)
    requires
        pos <= input@.len(),
    ensures
        match spec_take_n(input@, pos as int, n as nat, memory_reader()) {
            Ok((s, p)) => r matches Ok((v, q)) && q == p && pos <= q <= input@.len() && v@ == s,
            Err(e) => r == Err::<(Vec<MemoryType>, usize), ParseError>(e),
        },
{
    let mut v: Vec<MemoryType> = Vec::new();
    let mut cur = pos;
    let mut i: u32 = 0;
    while i < n
        invariant
            i <= n,
            pos <= cur <= input@.len(),
            spec_take_n(input@, pos as int, i as nat, memory_reader()) matches Ok((s, c)) && c == cur && v@ == s,
        decreases n - i,
    {
        match take_memtype(input, cur) {
            Err(e) => {
                proof {
                    lemma_take_n_err(input@, pos as int, (i + 1) as nat, n as nat, memory_reader(), e);
                }
                return Err(e);
            },
            Ok((x, q)) => {
                v.push(x);
                cur = q;
            },
        }
        i = i + 1;
    }
    Ok((v, cur))
}

/// Reads `n` exports.
fn take_exports(input: &[u8], pos: usize, n: u32) -> (r: Result<(Vec<ExportEntry>, usize), ParseError>)
    requires
        pos <= input@.len(),
    ensures
        match spec_take_n(input@, pos as int, n as nat, export_reader()) {
            Ok((s, p)) => r matches Ok((v, q)) && q == p && pos <= q <= input@.len() && v@.len() == s.len() && forall|k: int| 0 <= k < s.len() ==> export_view(#[trigger] v@[k]) == s[k],
            Err(e) => r == Err::<(Vec<ExportEntry>, usize), ParseError>(e),
        },
{
    let mut v: Vec<ExportEntry> = Vec::new();
    let mut cur = pos;
    let mut i: u32 = 0;
    while i < n
        invariant
            i <= n,
            pos <= cur <= input@.len(),
            spec_take_n(input@, pos as int, i as nat, export_reader()) matches Ok((s, c)) && c == cur && v@.len() == s.len() && forall|k: int| 0 <= k < s.len() ==> export_view(#[trigger] v@[k]) == s[k],
        decreases n - i,
    {
        match take_export(input, cur) {
            Err(e) => {
                proof {
                    lemma_take_n_err(input@, pos as int, (i + 1) as nat, n as nat, export_reader(), e);
                }
                return Err(e);
            },
            Ok((x, q)) => {
                v.push(x);
                cur = q;
            },
        }
        i = i + 1;
    }
    Ok((v, cur))
}

/// Reads `n` groups of locals.
fn take_locals(input: &[u8], pos: usize, n: u32) -> (r: Result<(Vec<LocalEntry>, usize), ParseError>)
    requires
        pos <= input@.len(),
    ensures
        match spec_take_n(input@, pos as int, n as nat, local_reader()) {
            Ok((s, p)) => r matches Ok((v, q)) && q == p && pos <= q <= input@.len() && v@ == s,
            Err(e) => r == Err::<(Vec<LocalEntry>, usize), ParseError>(e),
        },
{
    let mut v: Vec<LocalEntry> = Vec::new();
    let mut cur = pos;
    let mut i: u32 = 0;
    while i < n
        invariant
            i <= n,
            pos <= cur <= input@.len(),
            spec_take_n(input@, pos as int, i as nat, local_reader()) matches Ok((s, c)) && c == cur && v@ == s,
        decreases n - i,
    {
        match take_local(input, cur) {
            Err(e) => {
                proof {
                    lemma_take_n_err(input@, pos as int, (i + 1) as nat, n as nat, local_reader(), e);
                }
                return Err(e);
            },
            Ok((x, q)) => {
                v.push(x);
                cur = q;
            },
        }
        i = i + 1;
    }
    Ok((v, cur))
}

/// Reads a global: its type and its initialiser.
fn take_global(input: &[u8], pos: usize, counter: &mut Counter) -> (r: Result<(GlobalVariable, usize), ParseError>)
    requires
        pos <= input@.len(),
        room_for(old(counter)@, input@.len() as int, pos as int),
    ensures
        r matches Ok((g, p)) ==> pos < p <= input@.len() && global_at(input@, pos as int, p as int, g)
            && grew_within(old(counter)@, final(counter)@, p - pos),
        end_of(r) == spec_global_end(input@, pos as int),
{
    let (ty, q) = match crate::parser::items::take_globaltype(input, pos) {
        Err(e) => {
            return Err(e);
        },
        Ok(x) => x,
    };
    match take_expr(input, q, counter) {
        Err(e) => Err(e),
        Ok((init, p)) => Ok((GlobalVariable { ty, init }, p)),
    }
}

/// Reads an element segment.
fn take_element(input: &[u8], pos: usize, counter: &mut Counter) -> (r: Result<(ElementSegment, usize), ParseError>)
    requires
        pos <= input@.len(),
        room_for(old(counter)@, input@.len() as int, pos as int),
    ensures
        r matches Ok((e, p)) ==> pos < p <= input@.len() && element_at(input@, pos as int, p as int, e)
            && grew_within(old(counter)@, final(counter)@, p - pos),
        end_of(r) == spec_element_end(input@, pos as int),
{
    let (table, q) = match take_leb_u32(input, pos) {
        Err(e) => {
            return Err(e);
        },
        Ok(x) => x,
    };
    let (offset, m) = match take_expr(input, q, counter) {
        Err(e) => {
            return Err(e);
        },
        Ok(x) => x,
    };
    let (n, p) = match take_leb_u32(input, m) {
        Err(e) => {
            return Err(e);
        },
        Ok(x) => x,
    };
    match take_u32_vec(input, p, n) {
        Err(e) => Err(e),
        Ok((init, b)) => {
            let e = ElementSegment { table, offset, init };
            proof {
                assert(expr_at(input@, q as int, m as int, e.offset@));
            }
            Ok((e, b))
        },
    }
}

/// Reads a data segment.
fn take_data(input: &[u8], pos: usize, counter: &mut Counter) -> (r: Result<(DataSegment, usize), ParseError>)
    requires
        pos <= input@.len(),
        room_for(old(counter)@, input@.len() as int, pos as int),
    ensures
        r matches Ok((d, p)) ==> pos < p <= input@.len() && data_at(input@, pos as int, p as int, d)
            && grew_within(old(counter)@, final(counter)@, p - pos),
        end_of(r) == spec_data_end(input@, pos as int),
{
    let (data, q) = match take_leb_u32(input, pos) {
        Err(e) => {
            return Err(e);
        },
        Ok(x) => x,
    };
    let (offset, m) = match take_expr(input, q, counter) {
        Err(e) => {
            return Err(e);
        },
        Ok(x) => x,
    };
    let (n, p) = match take_leb_u32(input, m) {
        Err(e) => {
            return Err(e);
        },
        Ok(x) => x,
    };
    match take_bytes(input, p, n as usize) {
        Err(e) => Err(e),
        Ok((init, b)) => {
            let d = DataSegment { data, offset, init };
            proof {
                assert(expr_at(input@, q as int, m as int, d.offset@));
            }
            Ok((d, b))
        },
    }
}

/// Reads the code of a function.
fn take_code(input: &[u8], pos: usize, counter: &mut Counter) -> (r: Result<(FunctionBody, usize), ParseError>)
    requires
        pos <= input@.len(),
        room_for(old(counter)@, input@.len() as int, pos as int),
    ensures
        r matches Ok((f, p)) ==> pos < p <= input@.len() && code_at(input@, pos as int, p as int, f)
            && grew_within(old(counter)@, final(counter)@, p - pos),
        end_of(r) == spec_code_end(input@, pos as int),
{
    let (_size, q) = match take_leb_u32(input, pos) {
        Err(e) => {
            return Err(e);
        },
        Ok(x) => x,
    };
    let (n, q2) = match take_leb_u32(input, q) {
        Err(e) => {
            return Err(e);
        },
        Ok(x) => x,
    };
    let (locals, q3) = match take_locals(input, q2, n) {
        Err(e) => {
            return Err(e);
        },
        Ok(x) => x,
    };
    match take_expr(input, q3, counter) {
        Err(e) => Err(e),
        Ok((code, b)) => Ok((FunctionBody { locals, code }, b)),
    }
}

/// Reads `n` globals.
fn take_globals(input: &[u8], pos: usize, n: u32, counter: &mut Counter) -> (r: Result<(Vec<GlobalVariable>, usize), ParseError>)
    requires
        pos <= input@.len(),
        room_for(old(counter)@, input@.len() as int, pos as int),
    ensures
        r matches Ok((v, q)) ==> pos <= q <= input@.len() && v@.len() == n && all_at(
            input@,
            pos as int,
            q as int,
            v@,
            global_fn(),
        ) && grew_within(old(counter)@, final(counter)@, q - pos),
        end_of(r) == spec_skip_n(input@, pos as int, n as nat, global_end_fn()),
{
    let mut v: Vec<GlobalVariable> = Vec::new();
    let mut cur = pos;
    let mut i: u32 = 0;
    let ghost mut pts: Seq<int> = seq![pos as int];
    while i < n
        invariant
            i <= n,
            pos <= cur <= input@.len(),
            room_for(old(counter)@, input@.len() as int, pos as int),
            v@.len() == i,
            cuts(pos as int, cur as int, v@.len(), pts),
            forall|k: int| #![trigger pts[k], v@[k]] 0 <= k < v@.len() ==> global_at(input@, pts[k], pts[k + 1], v@[k]),
            grew_within(old(counter)@, counter@, cur - pos),
            spec_skip_n(input@, pos as int, i as nat, global_end_fn()) == Ok::<usize, ParseError>(cur),
        decreases n - i,
    {
        match take_global(input, cur, counter) {
            Err(e) => {
                proof {
                    lemma_skip_n_err(input@, pos as int, (i + 1) as nat, n as nat, global_end_fn(), e);
                }
                return Err(e);
            },
            Ok((x, q)) => {
                proof {
                    let v2 = v@.push(x);
                    let p2 = pts.push(q as int);
                    assert forall|k: int| #![trigger p2[k], v2[k]] 0 <= k < v2.len() implies global_at(
                        input@,
                        p2[k],
                        p2[k + 1],
                        v2[k],
                    ) by {
                        if k < v@.len() {
                            assert(pts[k] == p2[k] && pts[k + 1] == p2[k + 1] && v@[k] == v2[k]);
                        }
                    }
                    pts = p2;
                }
                v.push(x);
                cur = q;
            },
        }
        i = i + 1;
    }
    proof {
        assert(cuts(pos as int, cur as int, v@.len(), pts));
    }
    Ok((v, cur))
}

/// Reads `n` element segments.
fn take_elements(input: &[u8], pos: usize, n: u32, counter: &mut Counter) -> (r: Result<(Vec<ElementSegment>, usize), ParseError>)
    requires
        pos <= input@.len(),
        room_for(old(counter)@, input@.len() as int, pos as int),
    ensures
        r matches Ok((v, q)) ==> pos <= q <= input@.len() && v@.len() == n && all_at(
            input@,
            pos as int,
            q as int,
            v@,
            element_fn(),
        ) && grew_within(old(counter)@, final(counter)@, q - pos),
        end_of(r) == spec_skip_n(input@, pos as int, n as nat, element_end_fn()),
{
    let mut v: Vec<ElementSegment> = Vec::new();
    let mut cur = pos;
    let mut i: u32 = 0;
    let ghost mut pts: Seq<int> = seq![pos as int];
    while i < n
        invariant
            i <= n,
            pos <= cur <= input@.len(),
            room_for(old(counter)@, input@.len() as int, pos as int),
            v@.len() == i,
            cuts(pos as int, cur as int, v@.len(), pts),
            forall|k: int| #![trigger pts[k], v@[k]] 0 <= k < v@.len() ==> element_at(input@, pts[k], pts[k + 1], v@[k]),
            grew_within(old(counter)@, counter@, cur - pos),
            spec_skip_n(input@, pos as int, i as nat, element_end_fn()) == Ok::<usize, ParseError>(cur),
        decreases n - i,
    {
        match take_element(input, cur, counter) {
            Err(e) => {
                proof {
                    lemma_skip_n_err(input@, pos as int, (i + 1) as nat, n as nat, element_end_fn(), e);
                }
                return Err(e);
            },
            Ok((x, q)) => {
                proof {
                    let v2 = v@.push(x);
                    let p2 = pts.push(q as int);
                    assert forall|k: int| #![trigger p2[k], v2[k]] 0 <= k < v2.len() implies element_at(
                        input@,
                        p2[k],
                        p2[k + 1],
                        v2[k],
                    ) by {
                        if k < v@.len() {
                            assert(pts[k] == p2[k] && pts[k + 1] == p2[k + 1] && v@[k] == v2[k]);
                        }
                    }
                    pts = p2;
                }
                v.push(x);
                cur = q;
            },
        }
        i = i + 1;
    }
    proof {
        assert(cuts(pos as int, cur as int, v@.len(), pts));
    }
    Ok((v, cur))
}

/// Reads `n` data segments.
fn take_data_segments(input: &[u8], pos: usize, n: u32, counter: &mut Counter) -> (r: Result<(Vec<DataSegment>, usize), ParseError>)
    requires
        pos <= input@.len(),
        room_for(old(counter)@, input@.len() as int, pos as int),
    ensures
        r matches Ok((v, q)) ==> pos <= q <= input@.len() && v@.len() == n && all_at(
            input@,
            pos as int,
            q as int,
            v@,
            data_fn(),
        ) && grew_within(old(counter)@, final(counter)@, q - pos),
        end_of(r) == spec_skip_n(input@, pos as int, n as nat, data_end_fn()),
{
    let mut v: Vec<DataSegment> = Vec::new();
    let mut cur = pos;
    let mut i: u32 = 0;
    let ghost mut pts: Seq<int> = seq![pos as int];
    while i < n
        invariant
            i <= n,
            pos <= cur <= input@.len(),
            room_for(old(counter)@, input@.len() as int, pos as int),
            v@.len() == i,
            cuts(pos as int, cur as int, v@.len(), pts),
            forall|k: int| #![trigger pts[k], v@[k]] 0 <= k < v@.len() ==> data_at(input@, pts[k], pts[k + 1], v@[k]),
            grew_within(old(counter)@, counter@, cur - pos),
            spec_skip_n(input@, pos as int, i as nat, data_end_fn()) == Ok::<usize, ParseError>(cur),
        decreases n - i,
    {
        match take_data(input, cur, counter) {
            Err(e) => {
                proof {
                    lemma_skip_n_err(input@, pos as int, (i + 1) as nat, n as nat, data_end_fn(), e);
                }
                return Err(e);
            },
            Ok((x, q)) => {
                proof {
                    let v2 = v@.push(x);
                    let p2 = pts.push(q as int);
                    assert forall|k: int| #![trigger p2[k], v2[k]] 0 <= k < v2.len() implies data_at(
                        input@,
                        p2[k],
                        p2[k + 1],
                        v2[k],
                    ) by {
                        if k < v@.len() {
                            assert(pts[k] == p2[k] && pts[k + 1] == p2[k + 1] && v@[k] == v2[k]);
                        }
                    }
                    pts = p2;
                }
                v.push(x);
                cur = q;
            },
        }
        i = i + 1;
    }
    proof {
        assert(cuts(pos as int, cur as int, v@.len(), pts));
    }
    Ok((v, cur))
}

/// Reads the code of `n` functions.
fn take_codes(input: &[u8], pos: usize, n: u32, counter: &mut Counter) -> (r: Result<(Vec<FunctionBody>, usize), ParseError>)
    requires
        pos <= input@.len(),
        room_for(old(counter)@, input@.len() as int, pos as int),
    ensures
        r matches Ok((v, q)) ==> pos <= q <= input@.len() && v@.len() == n && all_at(
            input@,
            pos as int,
            q as int,
            v@,
            code_fn(),
        ) && grew_within(old(counter)@, final(counter)@, q - pos),
        end_of(r) == spec_skip_n(input@, pos as int, n as nat, code_end_fn()),
{
    let mut v: Vec<FunctionBody> = Vec::new();
    let mut cur = pos;
    let mut i: u32 = 0;
    let ghost mut pts: Seq<int> = seq![pos as int];
    while i < n
        invariant
            i <= n,
            pos <= cur <= input@.len(),
            room_for(old(counter)@, input@.len() as int, pos as int),
            v@.len() == i,
            cuts(pos as int, cur as int, v@.len(), pts),
            forall|k: int| #![trigger pts[k], v@[k]] 0 <= k < v@.len() ==> code_at(input@, pts[k], pts[k + 1], v@[k]),
            grew_within(old(counter)@, counter@, cur - pos),
            spec_skip_n(input@, pos as int, i as nat, code_end_fn()) == Ok::<usize, ParseError>(cur),
        decreases n - i,
    {
        match take_code(input, cur, counter) {
            Err(e) => {
                proof {
                    lemma_skip_n_err(input@, pos as int, (i + 1) as nat, n as nat, code_end_fn(), e);
                }
                return Err(e);
            },
            Ok((x, q)) => {
                proof {
                    let v2 = v@.push(x);
                    let p2 = pts.push(q as int);
                    assert forall|k: int| #![trigger p2[k], v2[k]] 0 <= k < v2.len() implies code_at(
                        input@,
                        p2[k],
                        p2[k + 1],
                        v2[k],
                    ) by {
                        if k < v@.len() {
                            assert(pts[k] == p2[k] && pts[k + 1] == p2[k + 1] && v@[k] == v2[k]);
                        }
                    }
                    pts = p2;
                }
                v.push(x);
                cur = q;
            },
        }
        i = i + 1;
    }
    proof {
        assert(cuts(pos as int, cur as int, v@.len(), pts));
    }
    Ok((v, cur))
}

/// Where reading `n` entries from `pos` ends, each read as `item` says, or the
/// first error met.
pub open spec fn spec_skip_n(
    input: Seq<u8>,
    pos: int,
    n: nat,
    item: spec_fn(Seq<u8>, int) -> Result<usize, ParseError>,
) -> Result<usize, ParseError>
    decreases n,
{
    if n == 0 {
        Ok(pos as usize)
    } else {
        match spec_skip_n(input, pos, (n - 1) as nat, item) {
            Err(x) => Err(x),
            Ok(p) => item(input, p as int),
        }
    }
}

/// An error in reading the first `i` entries is the error of reading `n >= i`.
pub proof fn lemma_skip_n_err(
    input: Seq<u8>,
    pos: int,
    i: nat,
    n: nat,
    item: spec_fn(Seq<u8>, int) -> Result<usize, ParseError>,
    e: ParseError,
)
    requires
        i <= n,
        spec_skip_n(input, pos, i, item) == Err::<usize, ParseError>(e),
    ensures
        spec_skip_n(input, pos, n, item) == Err::<usize, ParseError>(e),
    decreases n - i,
{
    if i < n {
        lemma_skip_n_err(input, pos, i + 1, n, item, e);
    }
}

/// Where reading a global at `pos` ends, or the error it meets.
pub open spec fn spec_global_end(input: Seq<u8>, pos: int) -> Result<usize, ParseError> {
    match crate::parser::items::spec_take_globaltype(input, pos) {
        Err(x) => Err(x),
        Ok((_, q)) => spec_expr_end(input, q as int),
    }
}

/// Where reading an element segment at `pos` ends, or the error it meets.
pub open spec fn spec_element_end(input: Seq<u8>, pos: int) -> Result<usize, ParseError> {
    match spec_take_leb_u32(input, pos) {
        Err(x) => Err(x),
        Ok((_, q)) => match spec_expr_end(input, q as int) {
            Err(x) => Err(x),
            Ok(m) => match spec_take_leb_u32(input, m as int) {
                Err(x) => Err(x),
                Ok((n, p)) => end_of(spec_take_u32_seq(input, p as int, n as nat)),
            },
        },
    }
}

/// Where reading a data segment at `pos` ends, or the error it meets.
pub open spec fn spec_data_end(input: Seq<u8>, pos: int) -> Result<usize, ParseError> {
    match spec_take_leb_u32(input, pos) {
        Err(x) => Err(x),
        Ok((_, q)) => match spec_expr_end(input, q as int) {
            Err(x) => Err(x),
            Ok(m) => match spec_take_leb_u32(input, m as int) {
                Err(x) => Err(x),
                Ok((n, p)) => if p + n > input.len() {
                    Err(ParseError::Eof)
                } else {
                    Ok((p + n) as usize)
                },
            },
        },
    }
}

/// Where reading the code of a function at `pos` ends, or the error it meets.
pub open spec fn spec_code_end(input: Seq<u8>, pos: int) -> Result<usize, ParseError> {
    match spec_take_leb_u32(input, pos) {
        Err(x) => Err(x),
        Ok((_, q)) => match spec_take_leb_u32(input, q as int) {
            Err(x) => Err(x),
            Ok((n, q2)) => match spec_take_n(input, q2 as int, n as nat, local_reader()) {
                Err(x) => Err(x),
                Ok((_, q3)) => spec_expr_end(input, q3 as int),
            },
        },
    }
}

/// `spec_global_end` as a spec function value.
pub open spec fn global_end_fn() -> spec_fn(Seq<u8>, int) -> Result<usize, ParseError> {
    |input: Seq<u8>, p: int| spec_global_end(input, p)
}

/// `spec_element_end` as a spec function value.
pub open spec fn element_end_fn() -> spec_fn(Seq<u8>, int) -> Result<usize, ParseError> {
    |input: Seq<u8>, p: int| spec_element_end(input, p)
}

/// `spec_data_end` as a spec function value.
pub open spec fn data_end_fn() -> spec_fn(Seq<u8>, int) -> Result<usize, ParseError> {
    |input: Seq<u8>, p: int| spec_data_end(input, p)
}

/// `spec_code_end` as a spec function value.
pub open spec fn code_end_fn() -> spec_fn(Seq<u8>, int) -> Result<usize, ParseError> {
    |input: Seq<u8>, p: int| spec_code_end(input, p)
}

/// Where reading the entries of a section with the id `id` from `q` on ends, or
/// the error it meets: their count, then the entries one after the other.
pub open spec fn spec_entries_end(input: Seq<u8>, id: u8, q: int) -> Result<usize, ParseError> {
    match spec_take_leb_u32(input, q) {
        Err(x) => Err(x),
        Ok((n, r)) => {
            let r = r as int;
            let n = n as nat;
            if id == 1 {
                end_of(spec_take_n(input, r, n, functype_reader()))
            } else if id == 2 {
                end_of(spec_take_n(input, r, n, import_reader()))
            } else if id == 3 {
                end_of(spec_take_u32_seq(input, r, n))
            } else if id == 4 {
                end_of(spec_take_n(input, r, n, table_reader()))
            } else if id == 5 {
                end_of(spec_take_n(input, r, n, memory_reader()))
            } else if id == 6 {
                spec_skip_n(input, r, n, global_end_fn())
            } else if id == 7 {
                end_of(spec_take_n(input, r, n, export_reader()))
            } else if id == 9 {
                spec_skip_n(input, r, n, element_end_fn())
            } else if id == 10 {
                spec_skip_n(input, r, n, code_end_fn())
            } else {
                spec_skip_n(input, r, n, data_end_fn())
            }
        },
    }
}

/// Where reading the section at `pos` ends, or the error it meets: the id byte,
/// the size, and the content as the id says. A custom section is its name and
/// as many bytes more as its size says; an id above 11 is malformed.
#[verifier::opaque]
pub open spec fn spec_section_end(input: Seq<u8>, pos: int) -> Result<usize, ParseError> {
    if pos < 0 || pos >= input.len() {
        Err(ParseError::Eof)
    } else {
        let id = input[pos];
        match spec_take_leb_u32(input, pos + 1) {
            Err(x) => Err(x),
            Ok((size, q)) => if id == 0 {
                match spec_take_name(input, q as int) {
                    Err(x) => Err(x),
                    Ok((_, r)) => if size < r - q {
                        Err(ParseError::Malformed)
                    } else if input.len() - r < size - (r - q) {
                        Err(ParseError::Eof)
                    } else {
                        Ok((q + size) as usize)
                    },
                }
            } else if id == 8 {
                end_of(spec_take_leb_u32(input, q as int))
            } else if id > 11 {
                Err(ParseError::Malformed)
            } else {
                spec_entries_end(input, id, q as int)
            },
        }
    }
}

/// How many sections are read from `pos` on before the input ends in one, or
/// `None` where a malformed section comes first.
pub open spec fn spec_section_count(input: Seq<u8>, pos: int) -> Option<nat>
    decreases input.len() - pos,
{
    match spec_section_end(input, pos) {
        Ok(p) => if forward(pos, p as int, input.len() as int) {
            match spec_section_count(input, p as int) {
                Some(k) => Some(k + 1),
                None => None,
            }
        } else {
            None
        },
        Err(ParseError::Eof) => Some(0),
        Err(ParseError::Malformed) => None,
    }
}

/// From `a` on, the input holds the sections of `s` one after the other.
pub open spec fn sections_from(input: Seq<u8>, a: int, s: Seq<Section>) -> bool {
    exists|b: int, pts: Seq<int>|
        #[trigger] cuts(a, b, s.len(), pts) && forall|k: int|
            #![trigger pts[k], s[k]]
            0 <= k < s.len() ==> section_at(input, pts[k], pts[k + 1], s[k])
}

/// The bytes begin with the magic number.
pub open spec fn has_magic(s: Seq<u8>) -> bool {
    &&& s.len() >= 4
    &&& s[0] == MAGIC_NUMBER[0]
    &&& s[1] == MAGIC_NUMBER[1]
    &&& s[2] == MAGIC_NUMBER[2]
    &&& s[3] == MAGIC_NUMBER[3]
}

/// Reads the entries of a section with the id `id`, from `q` on, after its size
/// `size`: their count, then the entries.
fn parse_entries(input: &[u8], id: u8, size: u32, q: usize, counter: &mut Counter) -> (r: Result<(Section, usize), ParseError>)
    requires
        q <= input@.len(),
        room_for(old(counter)@, input@.len() as int, q as int),
        1 <= id <= 11,
        id != 8,
    ensures
        r matches Ok((sec, p)) ==> q < p <= input@.len() && content_at(input@, id, size, q as int, p as int, sec)
            && grew_within(old(counter)@, final(counter)@, p - q),
        end_of(r) == spec_entries_end(input@, id, q as int),
{
    let (n, r) = match take_leb_u32(input, q) {
        Err(e) => {
            return Err(e);
        },
        Ok(x) => x,
    };
    if id == 1 {
        match take_functypes(input, r, n) {
            Err(e) => Err(e),
            Ok((entries, p)) => Ok((Section::Type(TypeSection { entries }), p)),
        }
    } else if id == 2 {
        match take_imports(input, r, n) {
            Err(e) => Err(e),
            Ok((entries, p)) => Ok((Section::Import(ImportSection { entries }), p)),
        }
    } else if id == 3 {
        match take_u32_vec(input, r, n) {
            Err(e) => Err(e),
            Ok((types, p)) => Ok((Section::Function(FunctionSection { types }), p)),
        }
    } else if id == 4 {
        match take_tables(input, r, n) {
            Err(e) => Err(e),
            Ok((entries, p)) => Ok((Section::Table(TableSection { entries }), p)),
        }
    } else if id == 5 {
        match take_memories(input, r, n) {
            Err(e) => Err(e),
            Ok((entries, p)) => Ok((Section::Memory(MemorySection { entries }), p)),
        }
    } else if id == 6 {
        match take_globals(input, r, n, counter) {
            Err(e) => Err(e),
            Ok((globals, p)) => Ok((Section::Global(GlobalSection { globals }), p)),
        }
    } else if id == 7 {
        match take_exports(input, r, n) {
            Err(e) => Err(e),
            Ok((entries, p)) => Ok((Section::Export(ExportSection { entries }), p)),
        }
    } else if id == 9 {
        match take_elements(input, r, n, counter) {
            Err(e) => Err(e),
            Ok((entries, p)) => Ok((Section::Element(ElementSection { entries }), p)),
        }
    } else if id == 10 {
        match take_codes(input, r, n, counter) {
            Err(e) => Err(e),
            Ok((entries, p)) => Ok((Section::Code(CodeSection { entries }), p)),
        }
    } else {
        match take_data_segments(input, r, n, counter) {
            Err(e) => Err(e),
            Ok((entries, p)) => Ok((Section::Data(DataSection { entries }), p)),
        }
    }
}

/// Reads a section: its id byte, its size, and its content. Only a custom
/// section is held to its size.
pub fn parse_section(input: &[u8], pos: usize, counter: &mut Counter) -> (r: Result<(Section, usize), ParseError>)
    requires
        pos <= input@.len(),
        room_for(old(counter)@, input@.len() as int, pos as int),
    ensures
        pos == input@.len() ==> r == Err::<(Section, usize), ParseError>(ParseError::Eof),
        pos < input@.len() && input@[pos as int] > 11 ==> r == match spec_take_leb_u32(input@, pos + 1) {
            Err(e) => Err::<(Section, usize), ParseError>(e),
            Ok(_) => Err(ParseError::Malformed),
        },
        r matches Ok((sec, p)) ==> pos < p <= input@.len() && section_at(input@, pos as int, p as int, sec)
            && grew_within(old(counter)@, final(counter)@, p - pos),
        end_of(r) == spec_section_end(input@, pos as int),
{
    proof {
        reveal(spec_section_end);
    }
    let (id, q0) = match crate::parser::reader::take_byte(input, pos) {
        Err(e) => {
            return Err(e);
        },
        Ok(x) => x,
    };
    let (size, q) = match take_leb_u32(input, q0) {
        Err(e) => {
            return Err(e);
        },
        Ok(x) => x,
    };
    if id == 0 {
        let (name, r) = match take_name(input, q) {
            Err(e) => {
                return Err(e);
            },
            Ok(x) => x,
        };
        let used = r - q;
        if (size as usize) < used {
            return Err(ParseError::Malformed);
        }
        let skip = size as usize - used;
        if input.len() - r < skip {
            return Err(ParseError::Eof);
        }
        return Ok((Section::Custom(CustomSection { name }), r + skip));
    }
    if id == 8 {
        return match take_leb_u32(input, q) {
            Err(e) => Err(e),
            Ok((index, p)) => Ok((Section::Start(StartSection { index }), p)),
        };
    }
    if id > 11 {
        return Err(ParseError::Malformed);
    }
    parse_entries(input, id, size, q, counter)
}

/// Parses a module: the magic number, the version, and sections up to the first
/// that the input ends in. A module that is too short for its header, holds
/// another magic number, or holds a malformed section is refused.
pub fn parse(content: Vec<u8>) -> (r: Result<Module, ()>)
    ensures
        content@.len() < 8 ==> r is Err,
        !has_magic(content@) ==> r is Err,
        r matches Ok(m) ==> content@.len() >= 8 && has_magic(content@) && sections_from(content@, 8, m.sections@),
        r is Ok <==> content@.len() >= 8 && has_magic(content@) && spec_section_count(content@, 8) is Some,
        r matches Ok(m) ==> spec_section_count(content@, 8) == Some(m.sections@.len()),
{
    let input = content.as_slice();
    if input.len() < 8 {
        return Err(());
    }
    if !(input[0] == MAGIC_NUMBER[0] && input[1] == MAGIC_NUMBER[1] && input[2] == MAGIC_NUMBER[2]
        && input[3] == MAGIC_NUMBER[3]) {
        return Err(());
    }
    let mut counter = Counter::new();
    let mut sections: Vec<Section> = Vec::new();
    let mut cur: usize = 8;
    let ghost mut pts: Seq<int> = seq![8int];
    loop
        invariant_except_break
            room_for(counter@, input@.len() as int, cur as int),
        invariant
            8 <= cur <= input@.len(),
            input@ == content@,
            match spec_section_count(input@, cur as int) {
                Some(k) => spec_section_count(input@, 8) == Some(k + sections@.len()),
                None => spec_section_count(input@, 8) is None,
            },
            has_magic(content@),
            cuts(8, cur as int, sections@.len(), pts),
            forall|k: int|
                #![trigger pts[k], sections@[k]]
                0 <= k < sections@.len() ==> section_at(input@, pts[k], pts[k + 1], sections@[k]),
        ensures
            8 <= cur <= input@.len(),
            input@ == content@,
            spec_section_count(input@, 8) == Some(sections@.len()),
            has_magic(content@),
            cuts(8, cur as int, sections@.len(), pts),
            forall|k: int|
                #![trigger pts[k], sections@[k]]
                0 <= k < sections@.len() ==> section_at(input@, pts[k], pts[k + 1], sections@[k]),
        decreases input@.len() - cur,
    {
        match parse_section(input, cur, &mut counter) {
            Ok((sec, p)) => {
                proof {
                    let v2 = sections@.push(sec);
                    let p2 = pts.push(p as int);
                    assert forall|k: int| #![trigger p2[k], v2[k]] 0 <= k < v2.len() implies section_at(
                        input@,
                        p2[k],
                        p2[k + 1],
                        v2[k],
                    ) by {
                        if k < sections@.len() {
                            assert(pts[k] == p2[k] && pts[k + 1] == p2[k + 1] && sections@[k] == v2[k]);
                        }
                    }
                    pts = p2;
                }
                sections.push(sec);
                cur = p;
            },
            Err(ParseError::Eof) => {
                break ;
            },
            Err(ParseError::Malformed) => {
                return Err(());
            },
        }
    }
    proof {
        assert(cuts(8, cur as int, sections@.len(), pts));
    }
    Ok(Module { sections })
}

} // verus!
