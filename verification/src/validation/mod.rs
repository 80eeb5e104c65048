//! Validation of a module: the checks of the WebAssembly specification that this
//! interpreter makes before it runs a module.

pub mod agreement;
pub mod checks;
pub mod extract;
pub mod instructions;

use crate::parser::ast::{
    DataSegment, ElementSegment, ExportEntry, FunctionSignature, GlobalType, GlobalVariable,
    MemoryType, TableType,
};
use crate::parser::Module;
use crate::validation::checks::{
    check_data_ty, check_elem_ty, check_export_names, check_export_ty, check_import_ty,
    check_memory_ty, check_start, functype_views, get_expr_const_ty_global, get_ty_of_function,
    has_duplicate_name, signature_view, spec_const_global_ty, spec_const_i32_ty, spec_elem_check,
    spec_export_check, spec_memory_ok, spec_start_check, FuncType, IResult,
};
use crate::validation::extract::{
    data_of, defined_globals_of, defined_mems_of, defined_tables_of, deref_all, elements_of,
    exports_of, flat_map, funcs_of, get_data, get_elements, get_exports, get_funcs, get_globals,
    get_imports, get_mems, get_start, get_tables, get_types, global_type_of, imported_global_types_of,
    imported_mems_of, imported_tables_of, starts_of, types_of,
};
use vstd::prelude::*;

verus! {

/// The first failure of `f` over the elements of `s`, in order.
pub open spec fn first_err<T>(s: Seq<T>, f: spec_fn(T) -> IResult<()>) -> IResult<()>
    decreases s.len(),
{
    if s.len() == 0 {
        Ok(())
    } else {
        match first_err(s.drop_last(), f) {
            Err(e) => Err(e),
            Ok(_) => f(s.last()),
        }
    }
}

/// One more element is checked once those before it passed.
pub proof fn lemma_first_err_step<T>(s: Seq<T>, i: int, f: spec_fn(T) -> IResult<()>)
    requires
        0 <= i < s.len(),
    ensures
        first_err(s.subrange(0, i + 1), f) == match first_err(s.subrange(0, i), f) {
            Err(e) => Err(e),
            Ok(_) => f(s[i]),
        },
{
    assert(s.subrange(0, i + 1).drop_last() =~= s.subrange(0, i));
}

/// A failure among the first elements is the failure of a longer prefix.
pub proof fn lemma_first_err_extend<T>(s: Seq<T>, i: int, n: int, f: spec_fn(T) -> IResult<()>, e: &'static str)
    requires
        0 <= i <= n <= s.len(),
        first_err(s.subrange(0, i), f) == Err::<(), &'static str>(e),
    ensures
        first_err(s.subrange(0, n), f) == Err::<(), &'static str>(e),
    decreases n - i,
{
    if i < n {
        lemma_first_err_step(s, i, f);
        lemma_first_err_extend(s, i + 1, n, f, e);
    }
}

/// A check that passes for each element passes for the whole list.
pub proof fn lemma_first_err_all<T>(s: Seq<T>, f: spec_fn(T) -> IResult<()>)
    requires
        first_err(s.subrange(0, s.len() as int), f) is Ok,
    ensures
        first_err(s, f) is Ok,
{
    assert(s.subrange(0, s.len() as int) =~= s);
}

/// The check of a memory type.
pub open spec fn mem_check() -> spec_fn(MemoryType) -> IResult<()> {
    |m: MemoryType|
        if spec_memory_ok(m) {
            Ok(())
        } else {
            Err("Memory exhausted")
        }
}

/// The check of a global: its initialiser must be constant and of its type.
pub open spec fn global_check(globals_ty: Seq<GlobalType>) -> spec_fn(GlobalVariable) -> IResult<()> {
    |g: GlobalVariable|
        match spec_const_global_ty(g.init@, globals_ty) {
            Err(e) => Err(e),
            Ok(t) => if g.ty.value_type != t {
                Err("Expr has not the same type as the global")
            } else {
                Ok(())
            },
        }
}

/// The check of an element segment.
pub open spec fn elem_check(ntables: nat, nfuncs: nat) -> spec_fn(ElementSegment) -> IResult<()> {
    |e: ElementSegment|
        match spec_elem_check(e, ntables, nfuncs) {
            Ok(_) => Ok(()),
            Err(m) => Err(m),
        }
}

/// The check of a data segment.
pub open spec fn data_check() -> spec_fn(DataSegment) -> IResult<()> {
    |d: DataSegment|
        match spec_const_i32_ty(d.offset@) {
            Ok(_) => Ok(()),
            Err(m) => Err(m),
        }
}

/// The check of an export.
pub open spec fn export_check(nfuncs: nat, ntables: nat, nmems: nat, nglobals: nat) -> spec_fn(ExportEntry) -> IResult<()> {
    |e: ExportEntry|
        match spec_export_check(e.kind, nfuncs, ntables, nmems, nglobals) {
            Ok(_) => Ok(()),
            Err(m) => Err(m),
        }
}

/// The tables of the module, defined then imported.
pub open spec fn module_tables(s: Seq<crate::parser::ast::Section>) -> Seq<TableType> {
    flat_map(s, defined_tables_of()) + flat_map(s, imported_tables_of())
}

/// The memories of the module, defined then imported.
pub open spec fn module_mems(s: Seq<crate::parser::ast::Section>) -> Seq<MemoryType> {
    flat_map(s, defined_mems_of()) + flat_map(s, imported_mems_of())
}

/// The types of the globals of the module, defined then imported.
pub open spec fn module_global_types(s: Seq<crate::parser::ast::Section>) -> Seq<GlobalType> {
    flat_map(s, defined_globals_of()).map_values(|g: GlobalVariable| global_type_of(g)) + flat_map(
        s,
        imported_global_types_of(),
    )
}

/// The types of the functions of the module, where each type index exists.
pub open spec fn module_functions(s: Seq<crate::parser::ast::Section>) -> Seq<(Seq<crate::parser::ast::ValueType>, Seq<crate::parser::ast::ValueType>)> {
    flat_map(s, funcs_of()).map_values(|w: u32| signature_view(flat_map(s, types_of())[w as int]))
}

/// Each function's type index names a type of the module.
pub open spec fn functions_defined(s: Seq<crate::parser::ast::Section>) -> bool {
    forall|k: int|
        0 <= k < flat_map(s, funcs_of()).len() ==> #[trigger] flat_map(s, funcs_of())[k] < flat_map(
            s,
            types_of(),
        ).len()
}

/// Validation reaches the data segments: every function's type exists, and the
/// memories, the globals and the element segments pass their checks.
pub open spec fn reaches_data(s: Seq<crate::parser::ast::Section>) -> bool {
    &&& functions_defined(s)
    &&& first_err(module_mems(s), mem_check()) is Ok
    &&& first_err(flat_map(s, defined_globals_of()), global_check(module_global_types(s))) is Ok
    &&& first_err(flat_map(s, elements_of()), elem_check(module_tables(s).len(), module_functions(s).len())) is Ok
}

/// The memory of each data segment that validation reaches exists: validation
/// cannot go on without it.
pub open spec fn data_memories_exist(s: Seq<crate::parser::ast::Section>) -> bool {
    reaches_data(s) ==> forall|k: int|
        0 <= k < flat_map(s, data_of()).len() && first_err(flat_map(s, data_of()).subrange(0, k), data_check())
            is Ok ==> #[trigger] flat_map(s, data_of())[k].data < module_mems(s).len()
}

/// What the checks of the exports and after them give.
pub open spec fn spec_validate_tail(s: Seq<crate::parser::ast::Section>) -> IResult<()> {
    let tables = module_tables(s);
    let mems = module_mems(s);
    match first_err(
        flat_map(s, exports_of()),
        export_check(module_functions(s).len(), tables.len(), mems.len(), module_global_types(s).len()),
    ) {
        Err(e) => Err(e),
        Ok(_) => if tables.len() > 1 {
            Err("More than one table")
        } else if mems.len() > 1 {
            Err("More than one memory")
        } else if exists|i: int, j: int|
            0 <= i < j < flat_map(s, exports_of()).len() && flat_map(s, exports_of())[i].name@ == flat_map(
                s,
                exports_of(),
            )[j].name@ {
            Err("Export function names are not unique")
        } else {
            Ok(())
        },
    }
}

/// What validation gives: the first check, in this order, that fails. Every
/// function type must exist; then the memories, the globals, the element
/// segments, the data segments, the start function and the exports are
/// checked, then that there is at most one table and one memory, then that the
/// export names differ.
pub open spec fn spec_validate(s: Seq<crate::parser::ast::Section>) -> IResult<()> {
    if !functions_defined(s) {
        Err("Function is not defined")
    } else {
        let functions = module_functions(s);
        let starts = flat_map(s, starts_of());
        match first_err(module_mems(s), mem_check()) {
            Err(e) => Err(e),
            Ok(_) => match first_err(flat_map(s, defined_globals_of()), global_check(module_global_types(s))) {
                Err(e) => Err(e),
                Ok(_) => match first_err(
                    flat_map(s, elements_of()),
                    elem_check(module_tables(s).len(), functions.len()),
                ) {
                    Err(e) => Err(e),
                    Ok(_) => match first_err(flat_map(s, data_of()), data_check()) {
                        Err(e) => Err(e),
                        Ok(_) => match (if starts.len() > 0 {
                            spec_start_check(starts[0].index, functions)
                        } else {
                            Ok(true)
                        }) {
                            Err(e) => Err(e),
                            Ok(_) => spec_validate_tail(s),
                        },
                    },
                },
            },
        }
    }
}

/// The parts of the module that the checks look at.
struct Context<'a> {
    types: Vec<&'a FunctionSignature>,
    functions: Vec<FuncType>,
    tables: Vec<&'a TableType>,
    mems: Vec<&'a MemoryType>,
    global_entries: Vec<&'a GlobalVariable>,
    globals_ty: Vec<&'a GlobalType>,
}

/// Validates a module.
pub fn validate(module: &Module) -> (r: IResult<()>)
    requires
        data_memories_exist(module.sections@),
    ensures
        r == spec_validate(module.sections@),
{
    match validate_checked(module) {
        Some(r) => r,
        None => Err("Memory does not exist"),
    }
}

/// Validates a module; `None` where a data segment that validation reaches
/// names a memory that does not exist, where validation cannot go on.
#[verifier::loop_isolation(false)]
pub fn validate_checked(module: &Module) -> (r: Option<IResult<()>>)
    ensures
        match r {
            Some(x) => data_memories_exist(module.sections@) && x == spec_validate(module.sections@),
            None => !data_memories_exist(module.sections@),
        },
{
    let types = get_types(module);
    let funcs = get_funcs(module);
    let ghost s = module.sections@;
    let mut functions: Vec<FuncType> = Vec::new();
    let mut k: usize = 0;
    while k < funcs.len()
        invariant
            k <= funcs@.len(),
            funcs@ == flat_map(s, funcs_of()),
            deref_all(types@) == flat_map(s, types_of()),
            functions@.len() == k,
            forall|j: int| 0 <= j < k ==> funcs@[j] < types@.len(),
            forall|j: int|
                0 <= j < k ==> (#[trigger] functions@[j])@ == signature_view(*types@[funcs@[j] as int]),
        decreases funcs@.len() - k,
    {
        match get_ty_of_function(types.as_slice(), funcs[k] as usize) {
            Ok(f) => {
                functions.push(f);
            },
            Err(_) => {
                proof {
                    assert(!functions_defined(s)) by {
                        assert(flat_map(s, funcs_of())[k as int] >= flat_map(s, types_of()).len());
                    }
                }
                return Some(Err("Function is not defined"));
            },
        }
        k = k + 1;
    }
    proof {
        assert(functions_defined(s));
        assert(functype_views(functions@) =~= module_functions(s)) by {
            assert forall|j: int| 0 <= j < functions@.len() implies functype_views(functions@)[j]
                == module_functions(s)[j] by {
                assert(deref_all(types@)[funcs@[j] as int] == *types@[funcs@[j] as int]);
            }
        }
    }
    let tables = get_tables(module);
    let mems = get_mems(module);
    let (global_entries, globals_ty) = get_globals(module);
    let c = Context { types, functions, tables, mems, global_entries, globals_ty };
    c.check(module)
}

impl<'a> Context<'a> {
    /// Runs the checks after the function types, in the order of `spec_validate`.
    #[verifier::loop_isolation(false)]
    fn check(&self, module: &Module) -> (r: Option<IResult<()>>)
        requires
            functions_defined(module.sections@),
            deref_all(self.types@) == flat_map(module.sections@, types_of()),
            functype_views(self.functions@) == module_functions(module.sections@),
            deref_all(self.tables@) == module_tables(module.sections@),
            deref_all(self.mems@) == module_mems(module.sections@),
            deref_all(self.global_entries@) == flat_map(module.sections@, defined_globals_of()),
            deref_all(self.globals_ty@) == module_global_types(module.sections@),
        ensures
            match r {
                Some(x) => data_memories_exist(module.sections@) && x == spec_validate(module.sections@),
                None => !data_memories_exist(module.sections@),
            },
    {
        let ghost s = module.sections@;
        // memories
        let mut i: usize = 0;
        while i < self.mems.len()
            invariant
                i <= self.mems@.len(),
                deref_all(self.mems@) == module_mems(s),
                first_err(module_mems(s).subrange(0, i as int), mem_check()) is Ok,
            decreases self.mems@.len() - i,
        {
            let m: &MemoryType = self.mems[i];
            proof {
                lemma_first_err_step(module_mems(s), i as int, mem_check());
                assert(*m == module_mems(s)[i as int]);
            }
            match check_memory_ty(m) {
                Err(e) => {
                    proof {
                        lemma_first_err_extend(module_mems(s), i + 1, module_mems(s).len() as int, mem_check(), e);
                        assert(module_mems(s).subrange(0, module_mems(s).len() as int) =~= module_mems(s));
                    }
                    return Some(Err(e));
                },
                Ok(_) => {},
            }
            i = i + 1;
        }
        proof {
            lemma_first_err_all(module_mems(s), mem_check());
        }
        // globals
        let ghost gs = flat_map(s, defined_globals_of());
        let ghost gts = module_global_types(s);
        let mut i: usize = 0;
        while i < self.global_entries.len()
            invariant
                i <= self.global_entries@.len(),
                deref_all(self.global_entries@) == gs,
                deref_all(self.globals_ty@) == gts,
                first_err(gs.subrange(0, i as int), global_check(gts)) is Ok,
            decreases self.global_entries@.len() - i,
        {
            let entry: &GlobalVariable = self.global_entries[i];
            proof {
                lemma_first_err_step(gs, i as int, global_check(gts));
                assert(*entry == gs[i as int]);
            }
            match get_expr_const_ty_global(entry.init.as_slice(), self.globals_ty.as_slice()) {
                Err(e) => {
                    proof {
                        lemma_first_err_extend(gs, i + 1, gs.len() as int, global_check(gts), e);
                        assert(gs.subrange(0, gs.len() as int) =~= gs);
                    }
                    return Some(Err(e));
                },
                Ok(t) => {
                    if entry.ty.value_type != t {
                        proof {
                            lemma_first_err_extend(
                                gs,
                                i + 1,
                                gs.len() as int,
                                global_check(gts),
                                "Expr has not the same type as the global",
                            );
                            assert(gs.subrange(0, gs.len() as int) =~= gs);
                        }
                        return Some(Err("Expr has not the same type as the global"));
                    }
                },
            }
            i = i + 1;
        }
        proof {
            lemma_first_err_all(gs, global_check(gts));
        }
        // elements
        let elements = get_elements(module);
        let ghost es = flat_map(s, elements_of());
        let ghost nt = module_tables(s).len();
        let ghost nf = module_functions(s).len();
        let mut i: usize = 0;
        while i < elements.len()
            invariant
                i <= elements@.len(),
                deref_all(elements@) == es,
                self.tables@.len() == nt,
                self.functions@.len() == nf,
                first_err(es.subrange(0, i as int), elem_check(nt, nf)) is Ok,
            decreases elements@.len() - i,
        {
            let e: &ElementSegment = elements[i];
            proof {
                lemma_first_err_step(es, i as int, elem_check(nt, nf));
                assert(*e == es[i as int]);
            }
            match check_elem_ty(e, self.tables.as_slice(), self.functions.as_slice()) {
                Err(m) => {
                    proof {
                        lemma_first_err_extend(es, i + 1, es.len() as int, elem_check(nt, nf), m);
                        assert(es.subrange(0, es.len() as int) =~= es);
                    }
                    return Some(Err(m));
                },
                Ok(_) => {},
            }
            i = i + 1;
        }
        proof {
            lemma_first_err_all(es, elem_check(nt, nf));
        }
        // data
        proof {
            assert(reaches_data(s));
        }
        let data = get_data(module);
        let ghost ds = flat_map(s, data_of());
        let mut i: usize = 0;
        while i < data.len()
            invariant
                i <= data@.len(),
                deref_all(data@) == ds,
                reaches_data(s),
                deref_all(self.mems@) == module_mems(s),
                first_err(ds.subrange(0, i as int), data_check()) is Ok,
                forall|j: int| 0 <= j < i ==> (#[trigger] ds[j]).data < module_mems(s).len(),
            decreases data@.len() - i,
        {
            let d: &DataSegment = data[i];
            proof {
                lemma_first_err_step(ds, i as int, data_check());
                assert(*d == ds[i as int]);
            }
            if d.data as usize >= self.mems.len() {
                return None;
            }
            match check_data_ty(d, self.mems.as_slice()) {
                Err(m) => {
                    proof {
                        lemma_first_err_extend(ds, i + 1, ds.len() as int, data_check(), m);
                        assert(ds.subrange(0, ds.len() as int) =~= ds);
                        assert forall|j: int|
                            0 <= j < ds.len() && first_err(ds.subrange(0, j), data_check()) is Ok implies (
                            #[trigger] ds[j]).data < module_mems(s).len() by {
                            if j > i {
                                lemma_first_err_extend(ds, i + 1, j, data_check(), m);
                            }
                        }
                    }
                    return Some(Err(m));
                },
                Ok(_) => {},
            }
            i = i + 1;
        }
        proof {
            lemma_first_err_all(ds, data_check());
        }
        // start
        let start = get_start(module);
        if start.len() > 0 {
            proof {
                assert(deref_all(start@)[0] == *start@[0]);
            }
            match check_start(start[0], self.functions.as_slice()) {
                Err(e) => {
                    return Some(Err(e));
                },
                Ok(_) => {},
            }
        }
        // imports
        let imports = get_imports(module);
        let mut i: usize = 0;
        while i < imports.len()
            invariant
                i <= imports@.len(),
            decreases imports@.len() - i,
        {
            let _ = check_import_ty(imports[i], self.types.as_slice());
            i = i + 1;
        }
        Some(self.check_exports(module))
    }

    /// Checks the exports, the number of tables and memories, and the export names.
    #[verifier::loop_isolation(false)]
    fn check_exports(&self, module: &Module) -> (r: IResult<()>)
        requires
            functype_views(self.functions@) == module_functions(module.sections@),
            deref_all(self.tables@) == module_tables(module.sections@),
            deref_all(self.mems@) == module_mems(module.sections@),
            deref_all(self.globals_ty@) == module_global_types(module.sections@),
        ensures
            r == spec_validate_tail(module.sections@),
    {
        let ghost s = module.sections@;
        let exports = get_exports(module);
        let ghost xs = flat_map(s, exports_of());
        let ghost f = export_check(
            module_functions(s).len(),
            module_tables(s).len(),
            module_mems(s).len(),
            module_global_types(s).len(),
        );
        let mut i: usize = 0;
        while i < exports.len()
            invariant
                i <= exports@.len(),
                deref_all(exports@) == xs,
                f == export_check(
                    self.functions@.len(),
                    self.tables@.len(),
                    self.mems@.len(),
                    self.globals_ty@.len(),
                ),
                first_err(xs.subrange(0, i as int), f) is Ok,
            decreases exports@.len() - i,
        {
            let e: &ExportEntry = exports[i];
            proof {
                lemma_first_err_step(xs, i as int, f);
                assert(*e == xs[i as int]);
            }
            match check_export_ty(
                e,
                self.functions.as_slice(),
                self.tables.as_slice(),
                self.mems.as_slice(),
                self.globals_ty.as_slice(),
            ) {
                Err(m) => {
                    proof {
                        lemma_first_err_extend(xs, i + 1, xs.len() as int, f, m);
                        assert(xs.subrange(0, xs.len() as int) =~= xs);
                    }
                    return Err(m);
                },
                Ok(_) => {},
            }
            i = i + 1;
        }
        proof {
            lemma_first_err_all(xs, f);
        }
        if self.tables.len() > 1 {
            return Err("More than one table");
        }
        if self.mems.len() > 1 {
            return Err("More than one memory");
        }
        let r = check_export_names(exports.as_slice());
        proof {
            assert(has_duplicate_name(exports@) == exists|i: int, j: int|
                0 <= i < j < xs.len() && xs[i].name@ == xs[j].name@) by {
                if has_duplicate_name(exports@) {
                    let (a, b) = choose|a: int, b: int|
                        0 <= a < b < exports@.len() && exports@[a].name@ == exports@[b].name@;
                    assert(xs[a] == *exports@[a] && xs[b] == *exports@[b]);
                }
                if exists|i: int, j: int| 0 <= i < j < xs.len() && xs[i].name@ == xs[j].name@ {
                    let (a, b) = choose|a: int, b: int| 0 <= a < b < xs.len() && xs[a].name@ == xs[b].name@;
                    assert(xs[a] == *exports@[a] && xs[b] == *exports@[b]);
                }
            }
        }
        r
    }
}

} // verus!
