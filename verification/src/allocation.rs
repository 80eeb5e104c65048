//! Allocation of a module: its functions, tables, memories, globals and exports
//! become instances in the store, and their addresses go into the module
//! instance.

use crate::engine::import_resolver::{import_key, last_match, Import, ImportResolver};
use crate::engine::memory::{zero_bytes, zeros, MemoryInstance};
use crate::engine::module::{copy_body, copy_signature, same_body, same_signature, ModuleInstance};
use crate::engine::store::{ExportInstance, FuncInstance, GlobalInstance, Store, TableInstance, Variable};
use crate::engine::EResult;
use crate::parser::ast::{
    Counter, ExportEntry, FuncAddr, FunctionBody, FunctionSignature, GlobalAddr, GlobalVariable, ImportDesc,
    ImportEntry, Instruction, InstructionWrapper, Limits, LocalEntry, MemoryAddr, MemoryType, Mu, TableAddr,
    TableType, ValueType,
};
use crate::parser::Module;
use crate::validation::extract::{
    defined_globals_of, defined_mems_of, defined_tables_of, deref_all, exports_of, flat_map, funcs_of,
    get_defined_globals, get_defined_tables, get_exports, get_funcs, get_imported_globals, get_imports, get_mems,
    imported_globals_of, imported_mems_of, imports_of,
};
use crate::value::Value;
use vstd::prelude::*;

verus! {

/// Two imports have the same names and hold the same global, or tables with the
/// same elements and maximum.
pub open spec fn same_import(a: Import, b: Import) -> bool {
    match (a, b) {
        (Import::Global(m1, n1, g1), Import::Global(m2, n2, g2)) => m1@ == m2@ && n1@ == n2@ && g1 == g2,
        (Import::Table(m1, n1, t1), Import::Table(m2, n2, t2)) => m1@ == m2@ && n1@ == n2@ && t1.elem@
            == t2.elem@ && t1.max == t2.max,
        _ => false,
    }
}

/// A resolver's imports are the given ones, in order.
pub open spec fn holds_imports(r: Seq<Import>, given: Seq<Import>) -> bool {
    &&& r.len() == given.len()
    &&& forall|k: int| 0 <= k < r.len() ==> same_import(#[trigger] r[k], given[k])
}

/// Imports that agree one by one are found at the same place.
pub proof fn lemma_last_match_same(r: Seq<Import>, given: Seq<Import>, m: Seq<char>, n: Seq<char>)
    requires
        holds_imports(r, given),
    ensures
        last_match(r, m, n) == last_match(given, m, n),
    decreases r.len(),
{
    if r.len() > 0 {
        assert(same_import(r[r.len() - 1], given[given.len() - 1]));
        assert(import_key(r.last()) == import_key(given.last()));
        assert(holds_imports(r.drop_last(), given.drop_last())) by {
            assert forall|k: int| 0 <= k < r.drop_last().len() implies same_import(
                #[trigger] r.drop_last()[k],
                given.drop_last()[k],
            ) by {
                assert(same_import(r[k], given[k]));
            }
        }
        lemma_last_match_same(r.drop_last(), given.drop_last(), m, n);
    }
}

/// The last match is an index of the imports.
pub proof fn lemma_last_match_range(s: Seq<Import>, m: Seq<char>, n: Seq<char>)
    ensures
        last_match(s, m, n) matches Some(i) ==> 0 <= i < s.len(),
    decreases s.len(),
{
    if s.len() > 0 {
        lemma_last_match_range(s.drop_last(), m, n);
    }
}

/// A resolver that holds the given imports.
fn create_import_resolver(imports: &[Import]) -> (r: EResult<ImportResolver>)
    ensures
        r matches Ok(res) && holds_imports(res.spec_imports(), imports@),
{
    let mut resolver = ImportResolver::new();
    let mut i: usize = 0;
    while i < imports.len()
        invariant
            i <= imports@.len(),
            holds_imports(resolver.spec_imports(), imports@.subrange(0, i as int)),
        decreases imports@.len() - i,
    {
        let ghost before = resolver.spec_imports();
        match &imports[i] {
            Import::Global(module, name, instance) => {
                match resolver.inject_global(module.clone(), name.clone(), instance) {
                    Ok(()) => {},
                    Err(e) => {
                        return Err(e);
                    },
                }
            },
            Import::Table(module, name, instance) => {
                match resolver.inject_table(module.clone(), name.clone(), instance) {
                    Ok(()) => {},
                    Err(e) => {
                        return Err(e);
                    },
                }
            },
        }
        proof {
            let after = resolver.spec_imports();
            let g = imports@.subrange(0, i + 1);
            assert forall|k: int| 0 <= k < after.len() implies same_import(#[trigger] after[k], g[k]) by {
                if k < i {
                    assert(after[k] == before[k]);
                    assert(same_import(before[k], imports@.subrange(0, i as int)[k]));
                }
            }
        }
        i = i + 1;
    }
    proof {
        assert(imports@.subrange(0, i as int) =~= imports@);
    }
    Ok(resolver)
}

/// The locals of the body that stands in for a function without code: one for
/// each parameter.
pub open spec fn stub_locals(sig: FunctionSignature) -> Seq<LocalEntry> {
    Seq::new(sig.param_types@.len(), |k: int| LocalEntry { count: 1, ty: sig.param_types@[k] })
}

/// The constant instruction that gives the zero value of a type.
pub open spec fn zero_const(t: ValueType) -> Instruction {
    match t {
        ValueType::I32 => Instruction::OP_I32_CONST(0),
        ValueType::I64 => Instruction::OP_I64_CONST(0),
        ValueType::F32 => Instruction::OP_F32_CONST(0),
        ValueType::F64 => Instruction::OP_F64_CONST(0),
    }
}

/// The body that stands in for a function without code: one local for each
/// parameter, and code that gives the zero value of each result, with the ids
/// 1, 2, ...
pub open spec fn is_stub_body(sig: FunctionSignature, b: FunctionBody) -> bool {
    &&& b.locals@ == stub_locals(sig)
    &&& b.code@.len() == sig.return_types@.len()
    &&& forall|k: int|
        0 <= k < b.code@.len() ==> (#[trigger] b.code@[k]).spec_instruction() == zero_const(sig.return_types@[k])
            && b.code@[k].spec_id() == k + 1
}

/// The body of a function without code.
fn stub_body(sig: &FunctionSignature) -> (b: FunctionBody)
    ensures
        is_stub_body(*sig, b),
{
    let mut params: Vec<LocalEntry> = Vec::new();
    let mut i: usize = 0;
    while i < sig.param_types.len()
        invariant
            i <= sig.param_types@.len(),
            params@ =~= stub_locals(*sig).subrange(0, i as int),
        decreases sig.param_types@.len() - i,
    {
        params.push(LocalEntry { count: 1, ty: sig.param_types[i] });
        i = i + 1;
    }
    let mut returns_const: Vec<Instruction> = Vec::new();
    let mut j: usize = 0;
    while j < sig.return_types.len()
        invariant
            j <= sig.return_types@.len(),
            returns_const@.len() == j,
            forall|k: int| 0 <= k < j ==> returns_const@[k] == zero_const(#[trigger] sig.return_types@[k]),
        decreases sig.return_types@.len() - j,
    {
        let c = match sig.return_types[j] {
            ValueType::I32 => Instruction::OP_I32_CONST(0),
            ValueType::I64 => Instruction::OP_I64_CONST(0),
            ValueType::F32 => Instruction::OP_F32_CONST(0),
            ValueType::F64 => Instruction::OP_F64_CONST(0),
        };
        returns_const.push(c);
        j = j + 1;
    }
    let mut counter = Counter::new();
    let code = InstructionWrapper::wrap_instructions(&mut counter, returns_const);
    proof {
        assert(params@ =~= stub_locals(*sig));
    }
    FunctionBody { locals: params, code }
}

/// The body that function `k` of the module gets: the code of the module for
/// it, where there is one, else the stand-in body. The first `nimp` functions
/// are taken to be the imported ones.
pub open spec fn allocated_body(
    sig: FunctionSignature,
    code: Seq<FunctionBody>,
    nimp: int,
    k: int,
    b: FunctionBody,
) -> bool {
    if nimp <= k && k - nimp < code.len() {
        same_body(code[k - nimp], b)
    } else {
        is_stub_body(sig, b)
    }
}

/// Every function of the module has a type of the module.
pub open spec fn funcs_typed(types: Seq<u32>, fn_types: Seq<FunctionSignature>) -> bool {
    forall|k: int| 0 <= k < types.len() ==> (#[trigger] types[k]) < fn_types.len()
}

/// The functions that allocation added after the `base` ones of the store: one
/// for each function of the module, in order, each with its type and its body.
pub open spec fn funcs_allocated(
    types: Seq<u32>,
    fn_types: Seq<FunctionSignature>,
    code: Seq<FunctionBody>,
    nimp: int,
    base: int,
    funcs: Seq<FuncInstance>,
) -> bool {
    &&& funcs.len() == base + types.len()
    &&& forall|k: int|
        0 <= k < types.len() ==> same_signature(fn_types[types[k] as int], (#[trigger] funcs[base + k]).ty)
            && allocated_body(fn_types[types[k] as int], code, nimp, k, funcs[base + k].code)
}

/// The addresses `base`, `base + 1`, ... of `n` functions.
pub open spec fn func_addrs_from(base: int, n: int) -> Seq<FuncAddr> {
    Seq::new(n as nat, |k: int| FuncAddr((base + k) as usize))
}

/// Allocates the functions of the module, in order: each gets the signature of
/// its type and its code, or the stand-in body where the module has no code for
/// it, and its address goes into the module instance. Fails where a function's
/// type is not a type of the module.
fn allocate_functions(m: &Module, mod_instance: &mut ModuleInstance, store: &mut Store) -> (r: EResult<()>)
    ensures
        ({
            let types = flat_map(m.sections@, funcs_of());
            let nimp = flat_map(m.sections@, imports_of()).len() as int;
            let base = old(store).funcs@.len() as int;
            &&& r is Ok <==> funcs_typed(types, old(mod_instance).spec_fn_types())
            &&& r is Ok ==> {
                &&& funcs_allocated(
                    types,
                    old(mod_instance).spec_fn_types(),
                    old(mod_instance).spec_code(),
                    nimp,
                    base,
                    final(store).funcs@,
                )
                &&& final(store).funcs@.subrange(0, base) == old(store).funcs@
                &&& final(mod_instance).spec_func_addrs() == old(mod_instance).spec_func_addrs()
                    + func_addrs_from(base, types.len() as int)
            }
        }),
        final(store).tables@ == old(store).tables@,
        final(store).memory@ == old(store).memory@,
        final(store).globals@ == old(store).globals@,
        final(store).stack@ == old(store).stack@,
        final(mod_instance).spec_code() == old(mod_instance).spec_code(),
        final(mod_instance).spec_fn_types() == old(mod_instance).spec_fn_types(),
        final(mod_instance).spec_table_addrs() == old(mod_instance).spec_table_addrs(),
        final(mod_instance).spec_mem_addrs() == old(mod_instance).spec_mem_addrs(),
        final(mod_instance).spec_global_addrs() == old(mod_instance).spec_global_addrs(),
        final(mod_instance).spec_exports() == old(mod_instance).spec_exports(),
{
    let ty = get_funcs(m);
    let num_imports = get_imports(m).len();
    let ghost types = flat_map(m.sections@, funcs_of());
    let ghost fn_types = mod_instance.spec_fn_types();
    let ghost code = mod_instance.spec_code();
    let ghost base = store.funcs@.len() as int;
    proof {
        assert(num_imports == flat_map(m.sections@, imports_of()).len());
    }
    let mut k: usize = 0;
    while k < ty.len()
        invariant
            ty@ == types,
            types == flat_map(m.sections@, funcs_of()),
            k <= types.len(),
            num_imports == flat_map(m.sections@, imports_of()).len(),
            fn_types == old(mod_instance).spec_fn_types(),
            code == old(mod_instance).spec_code(),
            base == old(store).funcs@.len(),
            funcs_typed(types.subrange(0, k as int), fn_types),
            funcs_allocated(types.subrange(0, k as int), fn_types, code, num_imports as int, base, store.funcs@),
            store.funcs@.subrange(0, base) == old(store).funcs@,
            mod_instance.spec_func_addrs() == old(mod_instance).spec_func_addrs() + func_addrs_from(base, k as int),
            store.tables@ == old(store).tables@,
            store.memory@ == old(store).memory@,
            store.globals@ == old(store).globals@,
            store.stack@ == old(store).stack@,
            mod_instance.spec_code() == old(mod_instance).spec_code(),
            mod_instance.spec_fn_types() == old(mod_instance).spec_fn_types(),
            mod_instance.spec_table_addrs() == old(mod_instance).spec_table_addrs(),
            mod_instance.spec_mem_addrs() == old(mod_instance).spec_mem_addrs(),
            mod_instance.spec_global_addrs() == old(mod_instance).spec_global_addrs(),
            mod_instance.spec_exports() == old(mod_instance).spec_exports(),
        decreases types.len() - k,
    {
        let t = ty[k];
        let fn_sig = match mod_instance.lookup_func_types(&t) {
            Some(sig) => copy_signature(sig),
            None => {
                proof {
                    assert(!funcs_typed(types, fn_types)) by {
                        assert(!(types[k as int] < fn_types.len()));
                    }
                }
                return Err("function type is not defined");
            },
        };
        let fcode = {
            let code_ref = if k < num_imports {
                None
            } else {
                mod_instance.lookup_code(k - num_imports)
            };
            match code_ref {
                Some(c) => copy_body(c),
                None => stub_body(&fn_sig),
            }
        };
        let ghost sig = fn_sig;
        let ghost body = fcode;
        let ghost before = store.funcs@;
        let _ = store.allocate_func_instance(fn_sig, fcode);
        let addr = FuncAddr::new(store.count_functions() - 1);
        let _ = mod_instance.store_func_addr(addr);
        proof {
            let tk = types.subrange(0, k + 1);
            assert(tk.subrange(0, k as int) =~= types.subrange(0, k as int));
            assert(store.funcs@[base + k] == FuncInstance { ty: sig, code: body });
            assert forall|j: int| 0 <= j < tk.len() implies same_signature(
                fn_types[tk[j] as int],
                (#[trigger] store.funcs@[base + j]).ty,
            ) && allocated_body(fn_types[tk[j] as int], code, num_imports as int, j, store.funcs@[base + j].code) by {
                if j < k {
                    assert(store.funcs@[base + j] == before[base + j]);
                }
            }
            assert(store.funcs@.subrange(0, base) =~= before.subrange(0, base));
            assert(func_addrs_from(base, k + 1) =~= func_addrs_from(base, k as int).push(addr));
        }
        k = k + 1;
    }
    proof {
        assert(types.subrange(0, k as int) =~= types);
    }
    Ok(())
}

/// What a table instance holds: its elements and its maximum.
pub open spec fn table_view(t: TableInstance) -> (Seq<Option<FuncAddr>>, Option<u32>) {
    (t.elem@, t.max)
}

/// What each table of a sequence holds.
pub open spec fn table_views(s: Seq<TableInstance>) -> Seq<(Seq<Option<FuncAddr>>, Option<u32>)> {
    Seq::new(s.len(), |k: int| table_view(s[k]))
}

/// The empty table that a table type asks for: as many empty elements as its
/// minimum, and its maximum.
pub open spec fn table_of_type(t: TableType) -> (Seq<Option<FuncAddr>>, Option<u32>) {
    match t.limits {
        Limits::Zero(n) => (Seq::new(n as nat, |i: int| None::<FuncAddr>), None),
        Limits::One(n, m) => (Seq::new(n as nat, |i: int| None::<FuncAddr>), Some(m)),
    }
}

/// The tables that a sequence of table types asks for.
pub open spec fn tables_of_types(ts: Seq<TableType>) -> Seq<(Seq<Option<FuncAddr>>, Option<u32>)> {
    Seq::new(ts.len(), |k: int| table_of_type(ts[k]))
}

/// The table that the imports hand in under the given names: that of the last
/// import with these names, where it is a table.
pub open spec fn resolved_table(given: Seq<Import>, m: Seq<char>, n: Seq<char>) -> Option<
    (Seq<Option<FuncAddr>>, Option<u32>),
> {
    match last_match(given, m, n) {
        Some(i) => match given[i] {
            Import::Table(_, _, t) => Some((t.elem@, t.max)),
            _ => None,
        },
        None => None,
    }
}

/// The global that the imports hand in under the given names: that of the last
/// import with these names, where it is a global.
pub open spec fn resolved_global(given: Seq<Import>, m: Seq<char>, n: Seq<char>) -> Option<GlobalInstance> {
    match last_match(given, m, n) {
        Some(i) => match given[i] {
            Import::Global(_, _, g) => Some(g),
            _ => None,
        },
        None => None,
    }
}

/// A global handed in under some names is what those names resolve to until
/// another import with the same names is handed in.
pub proof fn lemma_resolve_after_inject_global(given: Seq<Import>, m: String, n: String, g: GlobalInstance)
    ensures
        resolved_global(given.push(Import::Global(m, n, g)), m@, n@) == Some(g),
{
    assert(given.push(Import::Global(m, n, g)).last() == Import::Global(m, n, g));
}

/// A table handed in under some names is what those names resolve to until
/// another import with the same names is handed in.
pub proof fn lemma_resolve_after_inject_table(given: Seq<Import>, m: String, n: String, t: TableInstance)
    ensures
        resolved_table(given.push(Import::Table(m, n, t)), m@, n@) == Some((t.elem@, t.max)),
{
    assert(given.push(Import::Table(m, n, t)).last() == Import::Table(m, n, t));
}

/// A resolver that holds the given imports resolves names as they do.
pub proof fn lemma_resolved_same(r: Seq<Import>, given: Seq<Import>, m: Seq<char>, n: Seq<char>)
    requires
        holds_imports(r, given),
    ensures
        resolved_table(r, m, n) == resolved_table(given, m, n),
        resolved_global(r, m, n) == resolved_global(given, m, n),
{
    lemma_last_match_same(r, given, m, n);
    lemma_last_match_range(r, m, n);
    if let Some(i) = last_match(r, m, n) {
        assert(same_import(r[i], given[i]));
    }
}

/// The tables that the table imports among `entries` bring in, in order;
/// `None` where one of them is not handed in.
pub open spec fn imported_tables(entries: Seq<ImportEntry>, given: Seq<Import>) -> Option<
    Seq<(Seq<Option<FuncAddr>>, Option<u32>)>,
>
    decreases entries.len(),
{
    if entries.len() == 0 {
        Some(Seq::empty())
    } else {
        match imported_tables(entries.drop_last(), given) {
            None => None,
            Some(ts) => match entries.last().desc {
                ImportDesc::Table { .. } => match resolved_table(
                    given,
                    entries.last().module_name@,
                    entries.last().name@,
                ) {
                    Some(t) => Some(ts.push(t)),
                    None => None,
                },
                _ => Some(ts),
            },
        }
    }
}

/// Resolvers that hold the same imports bring in the same tables.
proof fn lemma_imported_tables_same(entries: Seq<ImportEntry>, r: Seq<Import>, given: Seq<Import>)
    requires
        holds_imports(r, given),
    ensures
        imported_tables(entries, r) == imported_tables(entries, given),
    decreases entries.len(),
{
    if entries.len() > 0 {
        lemma_imported_tables_same(entries.drop_last(), r, given);
        lemma_resolved_same(r, given, entries.last().module_name@, entries.last().name@);
    }
}

/// The addresses `base`, `base + 1`, ... of `n` tables.
pub open spec fn table_addrs_from(base: int, n: int) -> Seq<TableAddr> {
    Seq::new(n as nat, |k: int| TableAddr((base + k) as usize))
}

/// Allocates the tables that the module defines, empty, then those that it
/// imports, as the resolver hands them in; each address goes into the module
/// instance. Fails where an imported table is not handed in.
fn allocate_tables(
    m: &Module,
    mod_instance: &mut ModuleInstance,
    store: &mut Store,
    imports: &[&ImportEntry],
    import_resolver: &ImportResolver,
) -> (r: EResult<()>)
    ensures
        ({
            let defined = tables_of_types(flat_map(m.sections@, defined_tables_of()));
            let imported = imported_tables(deref_all(imports@), import_resolver.spec_imports());
            let base = old(store).tables@.len() as int;
            &&& r is Ok <==> imported is Some
            &&& r is Ok ==> {
                &&& table_views(final(store).tables@) == table_views(old(store).tables@) + defined
                    + imported.unwrap()
                &&& final(mod_instance).spec_table_addrs() == old(mod_instance).spec_table_addrs()
                    + table_addrs_from(base, (defined.len() + imported.unwrap().len()) as int)
            }
        }),
        final(store).funcs@ == old(store).funcs@,
        final(store).memory@ == old(store).memory@,
        final(store).globals@ == old(store).globals@,
        final(store).stack@ == old(store).stack@,
        final(mod_instance).spec_code() == old(mod_instance).spec_code(),
        final(mod_instance).spec_fn_types() == old(mod_instance).spec_fn_types(),
        final(mod_instance).spec_func_addrs() == old(mod_instance).spec_func_addrs(),
        final(mod_instance).spec_mem_addrs() == old(mod_instance).spec_mem_addrs(),
        final(mod_instance).spec_global_addrs() == old(mod_instance).spec_global_addrs(),
        final(mod_instance).spec_exports() == old(mod_instance).spec_exports(),
{
    let ty = get_defined_tables(m);
    let ghost types = flat_map(m.sections@, defined_tables_of());
    let ghost base = store.tables@.len() as int;
    let mut k: usize = 0;
    while k < ty.len()
        invariant
            deref_all(ty@) == types,
            types == flat_map(m.sections@, defined_tables_of()),
            k <= types.len(),
            base == old(store).tables@.len(),
            table_views(store.tables@) == table_views(old(store).tables@) + tables_of_types(
                types.subrange(0, k as int),
            ),
            mod_instance.spec_table_addrs() == old(mod_instance).spec_table_addrs() + table_addrs_from(
                base,
                k as int,
            ),
            store.funcs@ == old(store).funcs@,
            store.memory@ == old(store).memory@,
            store.globals@ == old(store).globals@,
            store.stack@ == old(store).stack@,
            mod_instance.spec_code() == old(mod_instance).spec_code(),
            mod_instance.spec_fn_types() == old(mod_instance).spec_fn_types(),
            mod_instance.spec_func_addrs() == old(mod_instance).spec_func_addrs(),
            mod_instance.spec_mem_addrs() == old(mod_instance).spec_mem_addrs(),
            mod_instance.spec_global_addrs() == old(mod_instance).spec_global_addrs(),
            mod_instance.spec_exports() == old(mod_instance).spec_exports(),
        decreases types.len() - k,
    {
        let t = ty[k];
        let instance = match t.limits {
            Limits::Zero(n) => TableInstance::new(n, None),
            Limits::One(n, mx) => TableInstance::new(n, Some(mx)),
        };
        let ghost before = store.tables@;
        let addr = TableAddr::new(store.tables.len());
        let _ = mod_instance.store_table_addr(addr);
        store.tables.push(instance);
        proof {
            assert(types[k as int] == *t);
            assert(table_views(store.tables@) =~= table_views(before).push(table_of_type(*t)));
            assert(tables_of_types(types.subrange(0, k + 1)) =~= tables_of_types(types.subrange(0, k as int)).push(
                table_of_type(*t),
            ));
            assert(table_addrs_from(base, k + 1) =~= table_addrs_from(base, k as int).push(addr));
        }
        k = k + 1;
    }
    proof {
        assert(types.subrange(0, k as int) =~= types);
    }
    let ghost defined = tables_of_types(types);
    let ghost entries = deref_all(imports@);
    let mut j: usize = 0;
    while j < imports.len()
        invariant
            entries == deref_all(imports@),
            j <= entries.len(),
            base == old(store).tables@.len(),
            defined == tables_of_types(flat_map(m.sections@, defined_tables_of())),
            imported_tables(entries.subrange(0, j as int), import_resolver.spec_imports()) matches Some(ts) && {
                &&& table_views(store.tables@) == table_views(old(store).tables@) + defined + ts
                &&& mod_instance.spec_table_addrs() == old(mod_instance).spec_table_addrs() + table_addrs_from(
                    base,
                    (defined.len() + ts.len()) as int,
                )
            },
            store.funcs@ == old(store).funcs@,
            store.memory@ == old(store).memory@,
            store.globals@ == old(store).globals@,
            store.stack@ == old(store).stack@,
            mod_instance.spec_code() == old(mod_instance).spec_code(),
            mod_instance.spec_fn_types() == old(mod_instance).spec_fn_types(),
            mod_instance.spec_func_addrs() == old(mod_instance).spec_func_addrs(),
            mod_instance.spec_mem_addrs() == old(mod_instance).spec_mem_addrs(),
            mod_instance.spec_global_addrs() == old(mod_instance).spec_global_addrs(),
            mod_instance.spec_exports() == old(mod_instance).spec_exports(),
        decreases entries.len() - j,
    {
        let entry = imports[j];
        let ghost pre = entries.subrange(0, j as int);
        let ghost cur = entries.subrange(0, j + 1);
        proof {
            assert(cur.drop_last() =~= pre);
            assert(cur.last() == *entry);
        }
        if let ImportDesc::Table { .. } = entry.desc {
            let instance = match import_resolver.resolve_table(&entry.module_name, &entry.name) {
                Ok(t) => t,
                Err(e) => {
                    proof {
                        lemma_imported_none(entries, j as int, import_resolver.spec_imports());
                    }
                    return Err(e);
                },
            };
            let ghost before = store.tables@;
            let addr = TableAddr::new(store.tables.len());
            let _ = mod_instance.store_table_addr(addr);
            store.tables.push(instance);
            proof {
                assert(table_views(store.tables@) =~= table_views(before).push(table_view(instance)));
                let ts = imported_tables(pre, import_resolver.spec_imports()).unwrap();
                assert(table_addrs_from(base, (defined.len() + ts.len() + 1) as int) =~= table_addrs_from(
                    base,
                    (defined.len() + ts.len()) as int,
                ).push(addr));
            }
        }
        j = j + 1;
    }
    proof {
        assert(entries.subrange(0, j as int) =~= entries);
    }
    Ok(())
}

/// Where a prefix of the imports fails to bring in a table, so do all of them.
proof fn lemma_imported_none(entries: Seq<ImportEntry>, j: int, given: Seq<Import>)
    requires
        0 <= j < entries.len(),
        imported_tables(entries.subrange(0, j + 1), given) is None,
    ensures
        imported_tables(entries, given) is None,
    decreases entries.len() - j,
{
    if j + 1 < entries.len() {
        assert(entries.subrange(0, j + 2).drop_last() =~= entries.subrange(0, j + 1));
        lemma_imported_none(entries, j + 1, given);
    } else {
        assert(entries.subrange(0, j + 1) =~= entries);
    }
}

/// The minimum of a memory type, in pages.
pub open spec fn mem_initial(t: MemoryType) -> u32 {
    match t.limits {
        Limits::Zero(n) => n,
        Limits::One(n, _) => n,
    }
}

/// The maximum of a memory type, in pages, where it has one.
pub open spec fn mem_max(t: MemoryType) -> Option<u32> {
    match t.limits {
        Limits::Zero(_) => None,
        Limits::One(_, m) => Some(m),
    }
}

/// The size in bytes of each memory fits in 32 bits.
pub open spec fn mems_fit(ts: Seq<MemoryType>) -> bool {
    forall|k: int| 0 <= k < ts.len() ==> (#[trigger] mem_initial(ts[k])) < 65536
}

/// What a memory instance holds: its bytes and its maximum.
pub open spec fn memory_view(t: MemoryInstance) -> (Seq<u8>, Option<u32>) {
    (t.data@, t.max)
}

/// What each memory of a sequence holds.
pub open spec fn memory_views(s: Seq<MemoryInstance>) -> Seq<(Seq<u8>, Option<u32>)> {
    Seq::new(s.len(), |k: int| memory_view(s[k]))
}

/// The memory that a memory type asks for: zeroed pages as many as its minimum,
/// and its maximum.
pub open spec fn memory_of_type(t: MemoryType) -> (Seq<u8>, Option<u32>) {
    (zeros((mem_initial(t) * 65536) as nat), mem_max(t))
}

/// The memories that a sequence of memory types asks for.
pub open spec fn memories_of_types(ts: Seq<MemoryType>) -> Seq<(Seq<u8>, Option<u32>)> {
    Seq::new(ts.len(), |k: int| memory_of_type(ts[k]))
}

/// The memories of a module: those it defines, then those it imports.
pub open spec fn module_memories(m: Module) -> Seq<MemoryType> {
    flat_map(m.sections@, defined_mems_of()) + flat_map(m.sections@, imported_mems_of())
}

/// The addresses `base`, `base + 1`, ... of `n` memories.
pub open spec fn mem_addrs_from(base: int, n: int) -> Seq<MemoryAddr> {
    Seq::new(n as nat, |k: int| MemoryAddr((base + k) as usize))
}

/// Allocates the memories of the module, those it defines and then those it
/// imports, each zeroed with its minimum of pages; each address goes into the
/// module instance.
fn allocate_memories(m: &Module, mod_instance: &mut ModuleInstance, store: &mut Store) -> (r: EResult<()>)
    requires
        mems_fit(module_memories(*m)),
    ensures
        r is Ok,
        memory_views(final(store).memory@) == memory_views(old(store).memory@) + memories_of_types(
            module_memories(*m),
        ),
        final(mod_instance).spec_mem_addrs() == old(mod_instance).spec_mem_addrs() + mem_addrs_from(
            old(store).memory@.len() as int,
            module_memories(*m).len() as int,
        ),
        final(store).funcs@ == old(store).funcs@,
        final(store).tables@ == old(store).tables@,
        final(store).globals@ == old(store).globals@,
        final(store).stack@ == old(store).stack@,
        final(mod_instance).spec_code() == old(mod_instance).spec_code(),
        final(mod_instance).spec_fn_types() == old(mod_instance).spec_fn_types(),
        final(mod_instance).spec_func_addrs() == old(mod_instance).spec_func_addrs(),
        final(mod_instance).spec_table_addrs() == old(mod_instance).spec_table_addrs(),
        final(mod_instance).spec_global_addrs() == old(mod_instance).spec_global_addrs(),
        final(mod_instance).spec_exports() == old(mod_instance).spec_exports(),
{
    let ty = get_mems(m);
    let ghost types = module_memories(*m);
    let ghost base = store.memory@.len() as int;
    let mut k: usize = 0;
    while k < ty.len()
        invariant
            deref_all(ty@) == types,
            types == module_memories(*m),
            mems_fit(types),
            k <= types.len(),
            base == old(store).memory@.len(),
            memory_views(store.memory@) == memory_views(old(store).memory@) + memories_of_types(
                types.subrange(0, k as int),
            ),
            mod_instance.spec_mem_addrs() == old(mod_instance).spec_mem_addrs() + mem_addrs_from(base, k as int),
            store.funcs@ == old(store).funcs@,
            store.tables@ == old(store).tables@,
            store.globals@ == old(store).globals@,
            store.stack@ == old(store).stack@,
            mod_instance.spec_code() == old(mod_instance).spec_code(),
            mod_instance.spec_fn_types() == old(mod_instance).spec_fn_types(),
            mod_instance.spec_func_addrs() == old(mod_instance).spec_func_addrs(),
            mod_instance.spec_table_addrs() == old(mod_instance).spec_table_addrs(),
            mod_instance.spec_global_addrs() == old(mod_instance).spec_global_addrs(),
            mod_instance.spec_exports() == old(mod_instance).spec_exports(),
        decreases types.len() - k,
    {
        let mem_type = ty[k];
        proof {
            assert(types[k as int] == *mem_type);
            assert(mem_initial(types[k as int]) < 65536);
        }
        let instance = match mem_type.limits {
            Limits::Zero(n) => MemoryInstance { data: zero_bytes((n * 1024 * 64) as usize), max: None },
            Limits::One(n, mx) => MemoryInstance { data: zero_bytes((n * 1024 * 64) as usize), max: Some(mx) },
        };
        let ghost before = store.memory@;
        let addr = MemoryAddr::new(store.memory.len());
        let _ = mod_instance.store_memory_addr(addr);
        store.memory.push(instance);
        proof {
            assert(memory_view(instance) == memory_of_type(*mem_type));
            assert(memory_views(store.memory@) =~= memory_views(before).push(memory_of_type(*mem_type)));
            assert(memories_of_types(types.subrange(0, k + 1)) =~= memories_of_types(
                types.subrange(0, k as int),
            ).push(memory_of_type(*mem_type)));
            assert(mem_addrs_from(base, k + 1) =~= mem_addrs_from(base, k as int).push(addr));
        }
        k = k + 1;
    }
    proof {
        assert(types.subrange(0, k as int) =~= types);
    }
    Ok(())
}

/// The value of a constant expression: its first instruction, a constant or the
/// value of the global with the given index; `None` where it is empty, starts
/// otherwise, or names a global that the addresses or the store do not hold.
pub open spec fn const_value(
    init: Seq<InstructionWrapper>,
    addrs: Seq<GlobalAddr>,
    globals: Seq<GlobalInstance>,
) -> Option<Value> {
    if init.len() == 0 {
        None
    } else {
        match init[0].spec_instruction() {
            Instruction::OP_I32_CONST(v) => Some(Value::I32(v)),
            Instruction::OP_I64_CONST(v) => Some(Value::I64(v)),
            Instruction::OP_F32_CONST(v) => Some(Value::F32(v)),
            Instruction::OP_F64_CONST(v) => Some(Value::F64(v)),
            Instruction::OP_GLOBAL_GET(idx) => if (idx as int) < addrs.len() && (addrs[idx as int].0 as int)
                < globals.len() {
                Some(globals[addrs[idx as int].0 as int].val)
            } else {
                None
            },
            _ => None,
        }
    }
}

/// Evaluates a constant expression against the globals of the module instance.
pub fn get_expr_const_ty_global(init: &[InstructionWrapper], mod_instance: &ModuleInstance, store: &Store) -> (r:
    EResult<Value>)
    ensures
        match const_value(init@, mod_instance.spec_global_addrs(), store.globals@) {
            Some(v) => r == Ok::<Value, &'static str>(v),
            None => r is Err,
        },
{
    if init.len() == 0 {
        return Err("No expr to evaluate");
    }
    match init[0].get_instruction() {
        Instruction::OP_I32_CONST(v) => Ok(Value::I32(*v)),
        Instruction::OP_I64_CONST(v) => Ok(Value::I64(*v)),
        Instruction::OP_F32_CONST(v) => Ok(Value::F32(*v)),
        Instruction::OP_F64_CONST(v) => Ok(Value::F64(*v)),
        Instruction::OP_GLOBAL_GET(idx) => {
            let addr = match mod_instance.lookup_global_addr(idx) {
                Some(a) => a,
                None => {
                    return Err("Cannot find global addr by index");
                },
            };
            match store.get_global_instance(addr) {
                Ok(g) => Ok(g.val),
                Err(e) => Err(e),
            }
        },
        _ => Err("Wrong expression"),
    }
}

/// The global that a defined global becomes, with its initial value.
pub open spec fn global_of(g: GlobalVariable, v: Value) -> GlobalInstance {
    Variable { mutable: g.ty.mu == Mu::Var, val: v }
}

/// The addresses and globals after the defined globals `gs` were allocated in
/// order, each initialised against those allocated before it; `None` where an
/// initialiser has no value.
pub open spec fn defined_globals_after(
    gs: Seq<GlobalVariable>,
    addrs: Seq<GlobalAddr>,
    globals: Seq<GlobalInstance>,
) -> Option<(Seq<GlobalAddr>, Seq<GlobalInstance>)>
    decreases gs.len(),
{
    if gs.len() == 0 {
        Some((addrs, globals))
    } else {
        match defined_globals_after(gs.drop_last(), addrs, globals) {
            None => None,
            Some((a, g)) => match const_value(gs.last().init@, a, g) {
                Some(v) => Some((a.push(GlobalAddr(g.len() as usize)), g.push(global_of(gs.last(), v)))),
                None => None,
            },
        }
    }
}

/// The addresses and globals after the imported globals `es` were allocated in
/// order, each as the imports hand it in; `None` where one is not handed in.
pub open spec fn imported_globals_after(
    es: Seq<ImportEntry>,
    given: Seq<Import>,
    addrs: Seq<GlobalAddr>,
    globals: Seq<GlobalInstance>,
) -> Option<(Seq<GlobalAddr>, Seq<GlobalInstance>)>
    decreases es.len(),
{
    if es.len() == 0 {
        Some((addrs, globals))
    } else {
        match imported_globals_after(es.drop_last(), given, addrs, globals) {
            None => None,
            Some((a, g)) => match resolved_global(given, es.last().module_name@, es.last().name@) {
                Some(x) => Some((a.push(GlobalAddr(g.len() as usize)), g.push(x))),
                None => None,
            },
        }
    }
}

/// The addresses and globals after all globals of the module were allocated:
/// those it defines, then those it imports.
pub open spec fn globals_after(
    m: Module,
    given: Seq<Import>,
    addrs: Seq<GlobalAddr>,
    globals: Seq<GlobalInstance>,
) -> Option<(Seq<GlobalAddr>, Seq<GlobalInstance>)> {
    match defined_globals_after(flat_map(m.sections@, defined_globals_of()), addrs, globals) {
        Some((a, g)) => imported_globals_after(flat_map(m.sections@, imported_globals_of()), given, a, g),
        None => None,
    }
}

/// Where a prefix fails, the whole fails.
proof fn lemma_defined_globals_none(gs: Seq<GlobalVariable>, j: int, a: Seq<GlobalAddr>, g: Seq<GlobalInstance>)
    requires
        0 <= j < gs.len(),
        defined_globals_after(gs.subrange(0, j + 1), a, g) is None,
    ensures
        defined_globals_after(gs, a, g) is None,
    decreases gs.len() - j,
{
    if j + 1 < gs.len() {
        assert(gs.subrange(0, j + 2).drop_last() =~= gs.subrange(0, j + 1));
        lemma_defined_globals_none(gs, j + 1, a, g);
    } else {
        assert(gs.subrange(0, j + 1) =~= gs);
    }
}

/// Where a prefix fails, the whole fails.
proof fn lemma_imported_globals_none(
    es: Seq<ImportEntry>,
    j: int,
    given: Seq<Import>,
    a: Seq<GlobalAddr>,
    g: Seq<GlobalInstance>,
)
    requires
        0 <= j < es.len(),
        imported_globals_after(es.subrange(0, j + 1), given, a, g) is None,
    ensures
        imported_globals_after(es, given, a, g) is None,
    decreases es.len() - j,
{
    if j + 1 < es.len() {
        assert(es.subrange(0, j + 2).drop_last() =~= es.subrange(0, j + 1));
        lemma_imported_globals_none(es, j + 1, given, a, g);
    } else {
        assert(es.subrange(0, j + 1) =~= es);
    }
}

/// Resolvers that hold the same imports bring in the same globals.
proof fn lemma_imported_globals_same(
    es: Seq<ImportEntry>,
    r: Seq<Import>,
    given: Seq<Import>,
    a: Seq<GlobalAddr>,
    g: Seq<GlobalInstance>,
)
    requires
        holds_imports(r, given),
    ensures
        imported_globals_after(es, r, a, g) == imported_globals_after(es, given, a, g),
    decreases es.len(),
{
    if es.len() > 0 {
        lemma_imported_globals_same(es.drop_last(), r, given, a, g);
        lemma_resolved_same(r, given, es.last().module_name@, es.last().name@);
    }
}

/// Allocates the globals of the module: those it defines, each with the value
/// of its initialiser, then those it imports, as the resolver hands them in;
/// each address goes into the module instance. Fails where an initialiser has no
/// value or an imported global is not handed in.
fn allocate_globals(
    m: &Module,
    mod_instance: &mut ModuleInstance,
    store: &mut Store,
    imports: &ImportResolver,
) -> (r: EResult<()>)
    ensures
        ({
            let after = globals_after(
                *m,
                imports.spec_imports(),
                old(mod_instance).spec_global_addrs(),
                old(store).globals@,
            );
            &&& r is Ok <==> after is Some
            &&& r is Ok ==> final(mod_instance).spec_global_addrs() == after.unwrap().0 && final(store).globals@
                == after.unwrap().1
        }),
        final(store).funcs@ == old(store).funcs@,
        final(store).tables@ == old(store).tables@,
        final(store).memory@ == old(store).memory@,
        final(store).stack@ == old(store).stack@,
        final(mod_instance).spec_code() == old(mod_instance).spec_code(),
        final(mod_instance).spec_fn_types() == old(mod_instance).spec_fn_types(),
        final(mod_instance).spec_func_addrs() == old(mod_instance).spec_func_addrs(),
        final(mod_instance).spec_table_addrs() == old(mod_instance).spec_table_addrs(),
        final(mod_instance).spec_mem_addrs() == old(mod_instance).spec_mem_addrs(),
        final(mod_instance).spec_exports() == old(mod_instance).spec_exports(),
{
    let defined_globals = get_defined_globals(m);
    let imported_globals = get_imported_globals(m);
    let ghost gs = deref_all(defined_globals@);
    let ghost es = deref_all(imported_globals@);
    let ghost a0 = mod_instance.spec_global_addrs();
    let ghost g0 = store.globals@;
    let mut k: usize = 0;
    while k < defined_globals.len()
        invariant
            gs == deref_all(defined_globals@),
            gs == flat_map(m.sections@, defined_globals_of()),
            k <= gs.len(),
            a0 == old(mod_instance).spec_global_addrs(),
            g0 == old(store).globals@,
            defined_globals_after(gs.subrange(0, k as int), a0, g0) == Some(
                (mod_instance.spec_global_addrs(), store.globals@),
            ),
            store.funcs@ == old(store).funcs@,
            store.tables@ == old(store).tables@,
            store.memory@ == old(store).memory@,
            store.stack@ == old(store).stack@,
            mod_instance.spec_code() == old(mod_instance).spec_code(),
            mod_instance.spec_fn_types() == old(mod_instance).spec_fn_types(),
            mod_instance.spec_func_addrs() == old(mod_instance).spec_func_addrs(),
            mod_instance.spec_table_addrs() == old(mod_instance).spec_table_addrs(),
            mod_instance.spec_mem_addrs() == old(mod_instance).spec_mem_addrs(),
            mod_instance.spec_exports() == old(mod_instance).spec_exports(),
        decreases gs.len() - k,
    {
        let gl = defined_globals[k];
        proof {
            assert(gs.subrange(0, k + 1).drop_last() =~= gs.subrange(0, k as int));
            assert(gs.subrange(0, k + 1).last() == *gl);
        }
        let val = match get_expr_const_ty_global(gl.init.as_slice(), mod_instance, store) {
            Ok(v) => v,
            Err(e) => {
                proof {
                    lemma_defined_globals_none(gs, k as int, a0, g0);
                }
                return Err(e);
            },
        };
        let instance = Variable { mutable: gl.ty.mu == Mu::Var, val };
        let addr = GlobalAddr::new(store.globals.len());
        let _ = mod_instance.store_global_addr(addr);
        store.globals.push(instance);
        k = k + 1;
    }
    proof {
        assert(gs.subrange(0, k as int) =~= gs);
    }
    let ghost a1 = mod_instance.spec_global_addrs();
    let ghost g1 = store.globals@;
    let mut j: usize = 0;
    while j < imported_globals.len()
        invariant
            es == deref_all(imported_globals@),
            es == flat_map(m.sections@, imported_globals_of()),
            j <= es.len(),
            a0 == old(mod_instance).spec_global_addrs(),
            g0 == old(store).globals@,
            gs == flat_map(m.sections@, defined_globals_of()),
            defined_globals_after(gs, a0, g0) == Some((a1, g1)),
            imported_globals_after(es.subrange(0, j as int), imports.spec_imports(), a1, g1) == Some(
                (mod_instance.spec_global_addrs(), store.globals@),
            ),
            store.funcs@ == old(store).funcs@,
            store.tables@ == old(store).tables@,
            store.memory@ == old(store).memory@,
            store.stack@ == old(store).stack@,
            mod_instance.spec_code() == old(mod_instance).spec_code(),
            mod_instance.spec_fn_types() == old(mod_instance).spec_fn_types(),
            mod_instance.spec_func_addrs() == old(mod_instance).spec_func_addrs(),
            mod_instance.spec_table_addrs() == old(mod_instance).spec_table_addrs(),
            mod_instance.spec_mem_addrs() == old(mod_instance).spec_mem_addrs(),
            mod_instance.spec_exports() == old(mod_instance).spec_exports(),
        decreases es.len() - j,
    {
        let gl = imported_globals[j];
        proof {
            assert(es.subrange(0, j + 1).drop_last() =~= es.subrange(0, j as int));
            assert(es.subrange(0, j + 1).last() == *gl);
            lemma_last_match_range(imports.spec_imports(), gl.module_name@, gl.name@);
        }
        let instance = match imports.resolve_global(&gl.module_name, &gl.name) {
            Ok(g) => g,
            Err(e) => {
                proof {
                    assert(resolved_global(imports.spec_imports(), gl.module_name@, gl.name@) is None);
                    assert(imported_globals_after(es.subrange(0, j + 1), imports.spec_imports(), a1, g1) is None);
                    lemma_imported_globals_none(es, j as int, imports.spec_imports(), a1, g1);
                    assert(imported_globals_after(es, imports.spec_imports(), a1, g1) is None);
                    assert(globals_after(*m, imports.spec_imports(), a0, g0) is None);
                }
                return Err(e);
            },
        };
        let addr = GlobalAddr::new(store.globals.len());
        let _ = mod_instance.store_global_addr(addr);
        store.globals.push(instance);
        j = j + 1;
    }
    proof {
        assert(es.subrange(0, j as int) =~= es);
    }
    Ok(())
}

/// The exports that allocation added after the old ones: one for each export
/// entry, with its name and what it hands out.
pub open spec fn exports_added(entries: Seq<ExportEntry>, old: Seq<ExportInstance>, new: Seq<ExportInstance>) -> bool {
    &&& new.len() == old.len() + entries.len()
    &&& new.subrange(0, old.len() as int) == old
    &&& forall|k: int|
        0 <= k < entries.len() ==> (#[trigger] new[old.len() + k]).name@ == entries[k].name@ && new[old.len()
            + k].value == entries[k].kind
}

/// Adds an export instance for each export entry of the module.
fn allocate_exports(m: &Module, mod_instance: &mut ModuleInstance) -> (r: EResult<()>)
    ensures
        r is Ok,
        exports_added(
            flat_map(m.sections@, exports_of()),
            old(mod_instance).spec_exports(),
            final(mod_instance).spec_exports(),
        ),
        final(mod_instance).spec_code() == old(mod_instance).spec_code(),
        final(mod_instance).spec_fn_types() == old(mod_instance).spec_fn_types(),
        final(mod_instance).spec_func_addrs() == old(mod_instance).spec_func_addrs(),
        final(mod_instance).spec_table_addrs() == old(mod_instance).spec_table_addrs(),
        final(mod_instance).spec_mem_addrs() == old(mod_instance).spec_mem_addrs(),
        final(mod_instance).spec_global_addrs() == old(mod_instance).spec_global_addrs(),
{
    let ty = get_exports(m);
    let ghost entries = deref_all(ty@);
    let ghost base = mod_instance.spec_exports();
    proof {
        assert(base.subrange(0, base.len() as int) =~= base);
    }
    let mut k: usize = 0;
    while k < ty.len()
        invariant
            entries == deref_all(ty@),
            entries == flat_map(m.sections@, exports_of()),
            base == old(mod_instance).spec_exports(),
            k <= entries.len(),
            exports_added(entries.subrange(0, k as int), base, mod_instance.spec_exports()),
            mod_instance.spec_code() == old(mod_instance).spec_code(),
            mod_instance.spec_fn_types() == old(mod_instance).spec_fn_types(),
            mod_instance.spec_func_addrs() == old(mod_instance).spec_func_addrs(),
            mod_instance.spec_table_addrs() == old(mod_instance).spec_table_addrs(),
            mod_instance.spec_mem_addrs() == old(mod_instance).spec_mem_addrs(),
            mod_instance.spec_global_addrs() == old(mod_instance).spec_global_addrs(),
        decreases entries.len() - k,
    {
        let ghost before = mod_instance.spec_exports();
        let export = ExportInstance::from_entry(ty[k]);
        let _ = mod_instance.store_export(export);
        proof {
            let after = mod_instance.spec_exports();
            assert(after.subrange(0, base.len() as int) =~= before.subrange(0, base.len() as int));
            assert forall|j: int| 0 <= j < k + 1 implies (#[trigger] after[base.len() + j]).name@ == entries.subrange(
                0,
                k + 1,
            )[j].name@ && after[base.len() + j].value == entries.subrange(0, k + 1)[j].kind by {
                if j < k {
                    assert(after[base.len() + j] == before[base.len() + j]);
                }
            }
        }
        k = k + 1;
    }
    proof {
        assert(entries.subrange(0, k as int) =~= entries);
    }
    Ok(())
}

/// Allocates a module with the given imports: its functions, tables, memories,
/// globals and exports, in this order. Fails where a function's type is not a
/// type of the module, an imported table or global is not handed in, or a
/// global's initialiser has no value.
pub fn allocate(m: &Module, mod_instance: &mut ModuleInstance, store: &mut Store, imports: &[Import]) -> (r: EResult<
    (),
>)
    requires
        mems_fit(module_memories(*m)),
    ensures
        ({
            let types = flat_map(m.sections@, funcs_of());
            let entries = flat_map(m.sections@, imports_of());
            let tables = imported_tables(entries, imports@);
            let globals = globals_after(*m, imports@, old(mod_instance).spec_global_addrs(), old(store).globals@);
            let defined = tables_of_types(flat_map(m.sections@, defined_tables_of()));
            &&& r is Ok <==> (funcs_typed(types, old(mod_instance).spec_fn_types()) && tables is Some
                && globals is Some)
            &&& r is Ok ==> {
                &&& funcs_allocated(
                    types,
                    old(mod_instance).spec_fn_types(),
                    old(mod_instance).spec_code(),
                    entries.len() as int,
                    old(store).funcs@.len() as int,
                    final(store).funcs@,
                )
                &&& final(store).funcs@.subrange(0, old(store).funcs@.len() as int) == old(store).funcs@
                &&& final(mod_instance).spec_func_addrs() == old(mod_instance).spec_func_addrs()
                    + func_addrs_from(old(store).funcs@.len() as int, types.len() as int)
                &&& table_views(final(store).tables@) == table_views(old(store).tables@) + defined
                    + tables.unwrap()
                &&& final(mod_instance).spec_table_addrs() == old(mod_instance).spec_table_addrs()
                    + table_addrs_from(
                    old(store).tables@.len() as int,
                    (defined.len() + tables.unwrap().len()) as int,
                )
                &&& memory_views(final(store).memory@) == memory_views(old(store).memory@) + memories_of_types(
                    module_memories(*m),
                )
                &&& final(mod_instance).spec_mem_addrs() == old(mod_instance).spec_mem_addrs() + mem_addrs_from(
                    old(store).memory@.len() as int,
                    module_memories(*m).len() as int,
                )
                &&& final(mod_instance).spec_global_addrs() == globals.unwrap().0
                &&& final(store).globals@ == globals.unwrap().1
                &&& exports_added(
                    flat_map(m.sections@, exports_of()),
                    old(mod_instance).spec_exports(),
                    final(mod_instance).spec_exports(),
                )
            }
        }),
        final(store).stack@ == old(store).stack@,
        final(mod_instance).spec_code() == old(mod_instance).spec_code(),
        final(mod_instance).spec_fn_types() == old(mod_instance).spec_fn_types(),
{
    let imports_entries = get_imports(m);
    let resolver = match create_import_resolver(imports) {
        Ok(r) => r,
        Err(e) => {
            return Err(e);
        },
    };
    proof {
        lemma_imported_tables_same(deref_all(imports_entries@), resolver.spec_imports(), imports@);
        if let Some((a, g)) = defined_globals_after(
            flat_map(m.sections@, defined_globals_of()),
            mod_instance.spec_global_addrs(),
            store.globals@,
        ) {
            lemma_imported_globals_same(
                flat_map(m.sections@, imported_globals_of()),
                resolver.spec_imports(),
                imports@,
                a,
                g,
            );
        }
    }
    match allocate_functions(m, mod_instance, store) {
        Ok(()) => {},
        Err(e) => {
            return Err(e);
        },
    }
    match allocate_tables(m, mod_instance, store, imports_entries.as_slice(), &resolver) {
        Ok(()) => {},
        Err(e) => {
            return Err(e);
        },
    }
    let _ = allocate_memories(m, mod_instance, store);
    match allocate_globals(m, mod_instance, store, &resolver) {
        Ok(()) => {},
        Err(e) => {
            return Err(e);
        },
    }
    allocate_exports(m, mod_instance)
}

} // verus!
