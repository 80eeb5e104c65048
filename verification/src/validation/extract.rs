//! The parts of a module that validation looks at, gathered over all sections in
//! their order: for each kind, the entries of every section of that kind, one
//! section after the other.

use crate::parser::ast::{
    DataSegment, ElementSegment, ExportEntry, FuncIdx, FunctionSignature, GlobalType,
    GlobalVariable, ImportDesc, ImportEntry, MemoryType, Section, StartSection, TableType,
};
use crate::parser::Module;
use vstd::prelude::*;

verus! {

/// `f` of each element of `s`, concatenated.
pub open spec fn flat_map<T, U>(s: Seq<T>, f: spec_fn(T) -> Seq<U>) -> Seq<U>
    decreases s.len(),
{
    if s.len() == 0 {
        Seq::empty()
    } else {
        flat_map(s.drop_last(), f) + f(s.last())
    }
}

/// The values that the references point to.
pub open spec fn deref_all<T>(s: Seq<&T>) -> Seq<T> {
    s.map_values(|r: &T| *r)
}

/// One more element adds its part at the end.
pub proof fn lemma_flat_map_step<T, U>(s: Seq<T>, i: int, f: spec_fn(T) -> Seq<U>)
    requires
        0 <= i < s.len(),
    ensures
        flat_map(s.subrange(0, i + 1), f) == flat_map(s.subrange(0, i), f) + f(s[i]),
{
    assert(s.subrange(0, i + 1).drop_last() =~= s.subrange(0, i));
    assert(s.subrange(0, i + 1).last() == s[i]);
}

/// Pushing a reference pushes the value it points to.
pub proof fn lemma_deref_push<T>(s: Seq<&T>, x: &T)
    ensures
        deref_all(s.push(x)) == deref_all(s).push(*x),
{
    assert(deref_all(s.push(x)) =~= deref_all(s).push(*x));
}

/// The type entries of a section.
pub open spec fn types_of() -> spec_fn(Section) -> Seq<FunctionSignature> {
    |s: Section|
        match s {
            Section::Type(t) => t.entries@,
            _ => Seq::empty(),
        }
}

/// The export entries of a section.
pub open spec fn exports_of() -> spec_fn(Section) -> Seq<ExportEntry> {
    |s: Section|
        match s {
            Section::Export(t) => t.entries@,
            _ => Seq::empty(),
        }
}

/// The import entries of a section.
pub open spec fn imports_of() -> spec_fn(Section) -> Seq<ImportEntry> {
    |s: Section|
        match s {
            Section::Import(t) => t.entries@,
            _ => Seq::empty(),
        }
}

/// A start section, as a list of one.
pub open spec fn starts_of() -> spec_fn(Section) -> Seq<StartSection> {
    |s: Section|
        match s {
            Section::Start(t) => seq![t],
            _ => Seq::empty(),
        }
}

/// The element segments of a section.
pub open spec fn elements_of() -> spec_fn(Section) -> Seq<ElementSegment> {
    |s: Section|
        match s {
            Section::Element(t) => t.entries@,
            _ => Seq::empty(),
        }
}

/// The data segments of a section.
pub open spec fn data_of() -> spec_fn(Section) -> Seq<DataSegment> {
    |s: Section|
        match s {
            Section::Data(t) => t.entries@,
            _ => Seq::empty(),
        }
}

/// The tables that a section defines.
pub open spec fn defined_tables_of() -> spec_fn(Section) -> Seq<TableType> {
    |s: Section|
        match s {
            Section::Table(t) => t.entries@,
            _ => Seq::empty(),
        }
}

/// The memories that a section defines.
pub open spec fn defined_mems_of() -> spec_fn(Section) -> Seq<MemoryType> {
    |s: Section|
        match s {
            Section::Memory(t) => t.entries@,
            _ => Seq::empty(),
        }
}

/// The globals that a section defines.
pub open spec fn defined_globals_of() -> spec_fn(Section) -> Seq<GlobalVariable> {
    |s: Section|
        match s {
            Section::Global(t) => t.globals@,
            _ => Seq::empty(),
        }
}

/// The type index of an imported function.
pub open spec fn import_func() -> spec_fn(ImportEntry) -> Seq<FuncIdx> {
    |e: ImportEntry|
        match e.desc {
            ImportDesc::Function { ty } => seq![ty],
            _ => Seq::empty(),
        }
}

/// The type of an imported table.
pub open spec fn import_table() -> spec_fn(ImportEntry) -> Seq<TableType> {
    |e: ImportEntry|
        match e.desc {
            ImportDesc::Table { ty } => seq![ty],
            _ => Seq::empty(),
        }
}

/// The type of an imported memory.
pub open spec fn import_mem() -> spec_fn(ImportEntry) -> Seq<MemoryType> {
    |e: ImportEntry|
        match e.desc {
            ImportDesc::Memory { ty } => seq![ty],
            _ => Seq::empty(),
        }
}

/// An import of a global.
pub open spec fn import_global_entry() -> spec_fn(ImportEntry) -> Seq<ImportEntry> {
    |e: ImportEntry|
        match e.desc {
            ImportDesc::Global { .. } => seq![e],
            _ => Seq::empty(),
        }
}

/// The type of an imported global.
pub open spec fn import_global_type() -> spec_fn(ImportEntry) -> Seq<GlobalType> {
    |e: ImportEntry|
        match e.desc {
            ImportDesc::Global { ty } => seq![ty],
            _ => Seq::empty(),
        }
}

/// The type indices of the functions of a section: those it declares, or those it
/// imports.
pub open spec fn funcs_of() -> spec_fn(Section) -> Seq<FuncIdx> {
    |s: Section|
        match s {
            Section::Function(t) => t.types@,
            Section::Import(t) => flat_map(t.entries@, import_func()),
            _ => Seq::empty(),
        }
}

/// The tables that a section imports.
pub open spec fn imported_tables_of() -> spec_fn(Section) -> Seq<TableType> {
    |s: Section|
        match s {
            Section::Import(t) => flat_map(t.entries@, import_table()),
            _ => Seq::empty(),
        }
}

/// The memories that a section imports.
pub open spec fn imported_mems_of() -> spec_fn(Section) -> Seq<MemoryType> {
    |s: Section|
        match s {
            Section::Import(t) => flat_map(t.entries@, import_mem()),
            _ => Seq::empty(),
        }
}

/// The imports of globals of a section.
pub open spec fn imported_globals_of() -> spec_fn(Section) -> Seq<ImportEntry> {
    |s: Section|
        match s {
            Section::Import(t) => flat_map(t.entries@, import_global_entry()),
            _ => Seq::empty(),
        }
}

/// The types of the imported globals of a section.
pub open spec fn imported_global_types_of() -> spec_fn(Section) -> Seq<GlobalType> {
    |s: Section|
        match s {
            Section::Import(t) => flat_map(t.entries@, import_global_type()),
            _ => Seq::empty(),
        }
}

/// The type of a global.
pub open spec fn global_type_of(g: GlobalVariable) -> GlobalType {
    g.ty
}

/// Appends a reference to each element of `v`.
fn push_refs<'a, T>(out: &mut Vec<&'a T>, v: &'a Vec<T>)
    ensures
        deref_all(final(out)@) == deref_all(old(out)@) + v@,
{
    let ghost before = deref_all(out@);
    let mut j: usize = 0;
    while j < v.len()
        invariant
            j <= v@.len(),
            deref_all(out@) == before + v@.subrange(0, j as int),
        decreases v@.len() - j,
    {
        let ghost old_out = out@;
        let x = &v[j];
        out.push(x);
        proof {
            lemma_deref_push(old_out, x);
            assert(v@.subrange(0, j + 1) =~= v@.subrange(0, j as int).push(v@[j as int]));
        }
        j = j + 1;
    }
    proof {
        assert(v@.subrange(0, j as int) =~= v@);
    }
}

/// All type entries of the module.
pub fn get_types<'a>(module: &'a Module) -> (r: Vec<&'a FunctionSignature>)
    ensures
        deref_all(r@) == flat_map(module.sections@, types_of()),
{
    let mut out: Vec<&'a FunctionSignature> = Vec::new();
    let mut i: usize = 0;
    while i < module.sections.len()
        invariant
            i <= module.sections@.len(),
            deref_all(out@) == flat_map(module.sections@.subrange(0, i as int), types_of()),
        decreases module.sections@.len() - i,
    {
        if let Section::Type(t) = &module.sections[i] {
            push_refs(&mut out, &t.entries);
        }
        proof {
            lemma_flat_map_step(module.sections@, i as int, types_of());
        }
        i = i + 1;
    }
    proof {
        assert(module.sections@.subrange(0, i as int) =~= module.sections@);
    }
    out
}

/// All export entries of the module.
pub fn get_exports<'a>(module: &'a Module) -> (r: Vec<&'a ExportEntry>)
    ensures
        deref_all(r@) == flat_map(module.sections@, exports_of()),
{
    let mut out: Vec<&'a ExportEntry> = Vec::new();
    let mut i: usize = 0;
    while i < module.sections.len()
        invariant
            i <= module.sections@.len(),
            deref_all(out@) == flat_map(module.sections@.subrange(0, i as int), exports_of()),
        decreases module.sections@.len() - i,
    {
        if let Section::Export(t) = &module.sections[i] {
            push_refs(&mut out, &t.entries);
        }
        proof {
            lemma_flat_map_step(module.sections@, i as int, exports_of());
        }
        i = i + 1;
    }
    proof {
        assert(module.sections@.subrange(0, i as int) =~= module.sections@);
    }
    out
}

/// All import entries of the module.
pub fn get_imports<'a>(module: &'a Module) -> (r: Vec<&'a ImportEntry>)
    ensures
        deref_all(r@) == flat_map(module.sections@, imports_of()),
{
    let mut out: Vec<&'a ImportEntry> = Vec::new();
    let mut i: usize = 0;
    while i < module.sections.len()
        invariant
            i <= module.sections@.len(),
            deref_all(out@) == flat_map(module.sections@.subrange(0, i as int), imports_of()),
        decreases module.sections@.len() - i,
    {
        if let Section::Import(t) = &module.sections[i] {
            push_refs(&mut out, &t.entries);
        }
        proof {
            lemma_flat_map_step(module.sections@, i as int, imports_of());
        }
        i = i + 1;
    }
    proof {
        assert(module.sections@.subrange(0, i as int) =~= module.sections@);
    }
    out
}

/// All element segments of the module.
pub fn get_elements<'a>(module: &'a Module) -> (r: Vec<&'a ElementSegment>)
    ensures
        deref_all(r@) == flat_map(module.sections@, elements_of()),
{
    let mut out: Vec<&'a ElementSegment> = Vec::new();
    let mut i: usize = 0;
    while i < module.sections.len()
        invariant
            i <= module.sections@.len(),
            deref_all(out@) == flat_map(module.sections@.subrange(0, i as int), elements_of()),
        decreases module.sections@.len() - i,
    {
        if let Section::Element(t) = &module.sections[i] {
            push_refs(&mut out, &t.entries);
        }
        proof {
            lemma_flat_map_step(module.sections@, i as int, elements_of());
        }
        i = i + 1;
    }
    proof {
        assert(module.sections@.subrange(0, i as int) =~= module.sections@);
    }
    out
}

/// All data segments of the module.
pub fn get_data<'a>(module: &'a Module) -> (r: Vec<&'a DataSegment>)
    ensures
        deref_all(r@) == flat_map(module.sections@, data_of()),
{
    let mut out: Vec<&'a DataSegment> = Vec::new();
    let mut i: usize = 0;
    while i < module.sections.len()
        invariant
            i <= module.sections@.len(),
            deref_all(out@) == flat_map(module.sections@.subrange(0, i as int), data_of()),
        decreases module.sections@.len() - i,
    {
        if let Section::Data(t) = &module.sections[i] {
            push_refs(&mut out, &t.entries);
        }
        proof {
            lemma_flat_map_step(module.sections@, i as int, data_of());
        }
        i = i + 1;
    }
    proof {
        assert(module.sections@.subrange(0, i as int) =~= module.sections@);
    }
    out
}

/// The tables that the module defines.
pub fn get_defined_tables<'a>(module: &'a Module) -> (r: Vec<&'a TableType>)
    ensures
        deref_all(r@) == flat_map(module.sections@, defined_tables_of()),
{
    let mut out: Vec<&'a TableType> = Vec::new();
    let mut i: usize = 0;
    while i < module.sections.len()
        invariant
            i <= module.sections@.len(),
            deref_all(out@) == flat_map(module.sections@.subrange(0, i as int), defined_tables_of()),
        decreases module.sections@.len() - i,
    {
        if let Section::Table(t) = &module.sections[i] {
            push_refs(&mut out, &t.entries);
        }
        proof {
            lemma_flat_map_step(module.sections@, i as int, defined_tables_of());
        }
        i = i + 1;
    }
    proof {
        assert(module.sections@.subrange(0, i as int) =~= module.sections@);
    }
    out
}

/// The globals that the module defines.
pub fn get_defined_globals<'a>(module: &'a Module) -> (r: Vec<&'a GlobalVariable>)
    ensures
        deref_all(r@) == flat_map(module.sections@, defined_globals_of()),
{
    let mut out: Vec<&'a GlobalVariable> = Vec::new();
    let mut i: usize = 0;
    while i < module.sections.len()
        invariant
            i <= module.sections@.len(),
            deref_all(out@) == flat_map(module.sections@.subrange(0, i as int), defined_globals_of()),
        decreases module.sections@.len() - i,
    {
        if let Section::Global(t) = &module.sections[i] {
            push_refs(&mut out, &t.globals);
        }
        proof {
            lemma_flat_map_step(module.sections@, i as int, defined_globals_of());
        }
        i = i + 1;
    }
    proof {
        assert(module.sections@.subrange(0, i as int) =~= module.sections@);
    }
    out
}

/// The memories that the module defines.
pub fn get_defined_mems<'a>(module: &'a Module) -> (r: Vec<&'a MemoryType>)
    ensures
        deref_all(r@) == flat_map(module.sections@, defined_mems_of()),
{
    let mut out: Vec<&'a MemoryType> = Vec::new();
    let mut i: usize = 0;
    while i < module.sections.len()
        invariant
            i <= module.sections@.len(),
            deref_all(out@) == flat_map(module.sections@.subrange(0, i as int), defined_mems_of()),
        decreases module.sections@.len() - i,
    {
        if let Section::Memory(t) = &module.sections[i] {
            push_refs(&mut out, &t.entries);
        }
        proof {
            lemma_flat_map_step(module.sections@, i as int, defined_mems_of());
        }
        i = i + 1;
    }
    proof {
        assert(module.sections@.subrange(0, i as int) =~= module.sections@);
    }
    out
}

/// Appends the tables that `entries` import.
fn push_imported_tables<'a>(out: &mut Vec<&'a TableType>, entries: &'a Vec<ImportEntry>)
    ensures
        deref_all(final(out)@) == deref_all(old(out)@) + flat_map(entries@, import_table()),
{
    let ghost before = deref_all(out@);
    let mut j: usize = 0;
    while j < entries.len()
        invariant
            j <= entries@.len(),
            deref_all(out@) == before + flat_map(entries@.subrange(0, j as int), import_table()),
        decreases entries@.len() - j,
    {
        let ghost old_out = out@;
        let e = &entries[j];
        match &e.desc {
            ImportDesc::Table { ty } => {
                out.push(ty);
                proof {
                    lemma_deref_push(old_out, out@.last());
                }
            },
            _ => {},
        }
        proof {
            lemma_flat_map_step(entries@, j as int, import_table());
        }
        j = j + 1;
    }
    proof {
        assert(entries@.subrange(0, j as int) =~= entries@);
    }
}

/// Appends the memories that `entries` import.
fn push_imported_mems<'a>(out: &mut Vec<&'a MemoryType>, entries: &'a Vec<ImportEntry>)
    ensures
        deref_all(final(out)@) == deref_all(old(out)@) + flat_map(entries@, import_mem()),
{
    let ghost before = deref_all(out@);
    let mut j: usize = 0;
    while j < entries.len()
        invariant
            j <= entries@.len(),
            deref_all(out@) == before + flat_map(entries@.subrange(0, j as int), import_mem()),
        decreases entries@.len() - j,
    {
        let ghost old_out = out@;
        let e = &entries[j];
        match &e.desc {
            ImportDesc::Memory { ty } => {
                out.push(ty);
                proof {
                    lemma_deref_push(old_out, out@.last());
                }
            },
            _ => {},
        }
        proof {
            lemma_flat_map_step(entries@, j as int, import_mem());
        }
        j = j + 1;
    }
    proof {
        assert(entries@.subrange(0, j as int) =~= entries@);
    }
}

/// Appends the types of the globals that `entries` import.
fn push_imported_global_types<'a>(out: &mut Vec<&'a GlobalType>, entries: &'a Vec<ImportEntry>)
    ensures
        deref_all(final(out)@) == deref_all(old(out)@) + flat_map(entries@, import_global_type()),
{
    let ghost before = deref_all(out@);
    let mut j: usize = 0;
    while j < entries.len()
        invariant
            j <= entries@.len(),
            deref_all(out@) == before + flat_map(entries@.subrange(0, j as int), import_global_type()),
        decreases entries@.len() - j,
    {
        let ghost old_out = out@;
        let e = &entries[j];
        match &e.desc {
            ImportDesc::Global { ty } => {
                out.push(ty);
                proof {
                    lemma_deref_push(old_out, out@.last());
                }
            },
            _ => {},
        }
        proof {
            lemma_flat_map_step(entries@, j as int, import_global_type());
        }
        j = j + 1;
    }
    proof {
        assert(entries@.subrange(0, j as int) =~= entries@);
    }
}

/// Appends the imports of globals of `entries`.
fn push_imported_global_entries<'a>(out: &mut Vec<&'a ImportEntry>, entries: &'a Vec<ImportEntry>)
    ensures
        deref_all(final(out)@) == deref_all(old(out)@) + flat_map(entries@, import_global_entry()),
{
    let ghost before = deref_all(out@);
    let mut j: usize = 0;
    while j < entries.len()
        invariant
            j <= entries@.len(),
            deref_all(out@) == before + flat_map(entries@.subrange(0, j as int), import_global_entry()),
        decreases entries@.len() - j,
    {
        let ghost old_out = out@;
        let e = &entries[j];
        match &e.desc {
            ImportDesc::Global { .. } => {
                out.push(e);
                proof {
                    lemma_deref_push(old_out, out@.last());
                }
            },
            _ => {},
        }
        proof {
            lemma_flat_map_step(entries@, j as int, import_global_entry());
        }
        j = j + 1;
    }
    proof {
        assert(entries@.subrange(0, j as int) =~= entries@);
    }
}

/// Appends the tables that the module imports.
fn push_all_imported_tables<'a>(module: &'a Module, out: &mut Vec<&'a TableType>)
    ensures
        deref_all(final(out)@) == deref_all(old(out)@) + flat_map(module.sections@, imported_tables_of()),
{
    let ghost before = deref_all(out@);
    let mut i: usize = 0;
    while i < module.sections.len()
        invariant
            i <= module.sections@.len(),
            deref_all(out@) == before + flat_map(module.sections@.subrange(0, i as int), imported_tables_of()),
        decreases module.sections@.len() - i,
    {
        if let Section::Import(t) = &module.sections[i] {
            push_imported_tables(out, &t.entries);
        }
        proof {
            lemma_flat_map_step(module.sections@, i as int, imported_tables_of());
        }
        i = i + 1;
    }
    proof {
        assert(module.sections@.subrange(0, i as int) =~= module.sections@);
    }
}

/// Appends the memories that the module imports.
fn push_all_imported_mems<'a>(module: &'a Module, out: &mut Vec<&'a MemoryType>)
    ensures
        deref_all(final(out)@) == deref_all(old(out)@) + flat_map(module.sections@, imported_mems_of()),
{
    let ghost before = deref_all(out@);
    let mut i: usize = 0;
    while i < module.sections.len()
        invariant
            i <= module.sections@.len(),
            deref_all(out@) == before + flat_map(module.sections@.subrange(0, i as int), imported_mems_of()),
        decreases module.sections@.len() - i,
    {
        if let Section::Import(t) = &module.sections[i] {
            push_imported_mems(out, &t.entries);
        }
        proof {
            lemma_flat_map_step(module.sections@, i as int, imported_mems_of());
        }
        i = i + 1;
    }
    proof {
        assert(module.sections@.subrange(0, i as int) =~= module.sections@);
    }
}

/// Appends the types of the globals that the module imports.
fn push_all_imported_global_types<'a>(module: &'a Module, out: &mut Vec<&'a GlobalType>)
    ensures
        deref_all(final(out)@) == deref_all(old(out)@) + flat_map(module.sections@, imported_global_types_of()),
{
    let ghost before = deref_all(out@);
    let mut i: usize = 0;
    while i < module.sections.len()
        invariant
            i <= module.sections@.len(),
            deref_all(out@) == before + flat_map(module.sections@.subrange(0, i as int), imported_global_types_of()),
        decreases module.sections@.len() - i,
    {
        if let Section::Import(t) = &module.sections[i] {
            push_imported_global_types(out, &t.entries);
        }
        proof {
            lemma_flat_map_step(module.sections@, i as int, imported_global_types_of());
        }
        i = i + 1;
    }
    proof {
        assert(module.sections@.subrange(0, i as int) =~= module.sections@);
    }
}

/// Appends the imports of globals of the module.
fn push_all_imported_globals<'a>(module: &'a Module, out: &mut Vec<&'a ImportEntry>)
    ensures
        deref_all(final(out)@) == deref_all(old(out)@) + flat_map(module.sections@, imported_globals_of()),
{
    let ghost before = deref_all(out@);
    let mut i: usize = 0;
    while i < module.sections.len()
        invariant
            i <= module.sections@.len(),
            deref_all(out@) == before + flat_map(module.sections@.subrange(0, i as int), imported_globals_of()),
        decreases module.sections@.len() - i,
    {
        if let Section::Import(t) = &module.sections[i] {
            push_imported_global_entries(out, &t.entries);
        }
        proof {
            lemma_flat_map_step(module.sections@, i as int, imported_globals_of());
        }
        i = i + 1;
    }
    proof {
        assert(module.sections@.subrange(0, i as int) =~= module.sections@);
    }
}

/// The start sections of the module.
pub fn get_start<'a>(module: &'a Module) -> (r: Vec<&'a StartSection>)
    ensures
        deref_all(r@) == flat_map(module.sections@, starts_of()),
{
    let mut out: Vec<&'a StartSection> = Vec::new();
    let mut i: usize = 0;
    while i < module.sections.len()
        invariant
            i <= module.sections@.len(),
            deref_all(out@) == flat_map(module.sections@.subrange(0, i as int), starts_of()),
        decreases module.sections@.len() - i,
    {
        let ghost old_out = out@;
        if let Section::Start(t) = &module.sections[i] {
            out.push(t);
            proof {
                lemma_deref_push(old_out, t);
            }
        }
        proof {
            lemma_flat_map_step(module.sections@, i as int, starts_of());
        }
        i = i + 1;
    }
    proof {
        assert(module.sections@.subrange(0, i as int) =~= module.sections@);
    }
    out
}

/// The type indices of the functions of the module: those of each function
/// section and each import section, in the order of the sections.
pub fn get_funcs(module: &Module) -> (r: Vec<FuncIdx>)
    ensures
        r@ == flat_map(module.sections@, funcs_of()),
{
    let mut out: Vec<FuncIdx> = Vec::new();
    let mut i: usize = 0;
    while i < module.sections.len()
        invariant
            i <= module.sections@.len(),
            out@ == flat_map(module.sections@.subrange(0, i as int), funcs_of()),
        decreases module.sections@.len() - i,
    {
        let ghost before = out@;
        match &module.sections[i] {
            Section::Function(t) => {
                let mut j: usize = 0;
                while j < t.types.len()
                    invariant
                        j <= t.types@.len(),
                        out@ == before + t.types@.subrange(0, j as int),
                    decreases t.types@.len() - j,
                {
                    out.push(t.types[j]);
                    proof {
                        assert(t.types@.subrange(0, j + 1) =~= t.types@.subrange(0, j as int).push(t.types@[j as int]));
                    }
                    j = j + 1;
                }
                proof {
                    assert(t.types@.subrange(0, j as int) =~= t.types@);
                }
            },
            Section::Import(t) => {
                let mut j: usize = 0;
                while j < t.entries.len()
                    invariant
                        j <= t.entries@.len(),
                        out@ == before + flat_map(t.entries@.subrange(0, j as int), import_func()),
                    decreases t.entries@.len() - j,
                {
                    if let ImportDesc::Function { ty } = &t.entries[j].desc {
                        out.push(*ty);
                    }
                    proof {
                        lemma_flat_map_step(t.entries@, j as int, import_func());
                    }
                    j = j + 1;
                }
                proof {
                    assert(t.entries@.subrange(0, j as int) =~= t.entries@);
                }
            },
            _ => {},
        }
        proof {
            lemma_flat_map_step(module.sections@, i as int, funcs_of());
        }
        i = i + 1;
    }
    proof {
        assert(module.sections@.subrange(0, i as int) =~= module.sections@);
    }
    out
}

/// The tables of the module: those it defines, then those it imports.
pub fn get_tables<'a>(module: &'a Module) -> (r: Vec<&'a TableType>)
    ensures
        deref_all(r@) == flat_map(module.sections@, defined_tables_of()) + flat_map(
            module.sections@,
            imported_tables_of(),
        ),
{
    let mut all = get_defined_tables(module);
    push_all_imported_tables(module, &mut all);
    all
}

/// The memories of the module: those it defines, then those it imports.
pub fn get_mems<'a>(module: &'a Module) -> (r: Vec<&'a MemoryType>)
    ensures
        deref_all(r@) == flat_map(module.sections@, defined_mems_of()) + flat_map(
            module.sections@,
            imported_mems_of(),
        ),
{
    let mut all = get_defined_mems(module);
    push_all_imported_mems(module, &mut all);
    all
}

/// The imports of globals of the module.
pub fn get_imported_globals<'a>(module: &'a Module) -> (r: Vec<&'a ImportEntry>)
    ensures
        deref_all(r@) == flat_map(module.sections@, imported_globals_of()),
{
    let mut out: Vec<&'a ImportEntry> = Vec::new();
    push_all_imported_globals(module, &mut out);
    proof {
        assert(deref_all(Seq::<&ImportEntry>::empty()) =~= Seq::<ImportEntry>::empty());
    }
    out
}

/// The globals that the module defines, with the types of all its globals:
/// those of the defined ones, then those of the imported ones.
pub fn get_globals<'a>(module: &'a Module) -> (r: (Vec<&'a GlobalVariable>, Vec<&'a GlobalType>))
    ensures
        deref_all(r.0@) == flat_map(module.sections@, defined_globals_of()),
        deref_all(r.1@) == flat_map(module.sections@, defined_globals_of()).map_values(
            |g: GlobalVariable| global_type_of(g),
        ) + flat_map(module.sections@, imported_global_types_of()),
{
    let defined = get_defined_globals(module);
    let mut all: Vec<&'a GlobalType> = Vec::new();
    let mut j: usize = 0;
    while j < defined.len()
        invariant
            j <= defined@.len(),
            deref_all(all@) == deref_all(defined@).subrange(0, j as int).map_values(
                |g: GlobalVariable| global_type_of(g),
            ),
        decreases defined@.len() - j,
    {
        let ghost old_all = all@;
        let g: &'a GlobalVariable = defined[j];
        all.push(&g.ty);
        proof {
            lemma_deref_push(old_all, &g.ty);
            assert(deref_all(defined@).subrange(0, j + 1).map_values(|g: GlobalVariable| global_type_of(g))
                =~= deref_all(defined@).subrange(0, j as int).map_values(|g: GlobalVariable| global_type_of(g)).push(
                g.ty,
            ));
        }
        j = j + 1;
    }
    proof {
        assert(deref_all(defined@).subrange(0, j as int) =~= deref_all(defined@));
    }
    push_all_imported_global_types(module, &mut all);
    (defined, all)
}

} // verus!
