//! The engine as the embedder sees it: building one for a module, reading its
//! exported globals, and invoking its exported functions.

use crate::allocation::{
    allocate, exports_added, func_addrs_from, funcs_allocated, funcs_typed, globals_after, imported_tables,
    mem_addrs_from, memories_of_types, memory_views, mems_fit, module_memories, table_addrs_from, table_views,
    tables_of_types,
};
use crate::debugger::ProgramCounter;
use crate::engine::import_resolver::Import;
use crate::engine::module::ModuleInstance;
use crate::engine::numeric::FloatUnit;
use crate::engine::runner::{args_fit, call_runs, straight_call};
use crate::engine::store::{ExportInstance, FuncInstance, GlobalInstance, Store};
use crate::engine::{keeps, only_stack, EResult, Engine};
use crate::instantiation::{
    data_outcome, datas_outcome, elements_outcome, instantiation, start_outcome, Outcome,
};
use crate::parser::ast::{
    ExternalKindType, FuncAddr, FunctionBody, FunctionSignature, GlobalAddr, MemoryAddr,
};
use crate::parser::Module;
use crate::validation::extract::{data_of, defined_tables_of, elements_of, exports_of, flat_map, funcs_of, imports_of};
use crate::value::Value;
use crate::PAGE_SIZE;
use vstd::prelude::*;

verus! {

/// The fuel that the engine's own calls give a run: the largest there is.
pub const DEFAULT_FUEL: u64 = 18446744073709551615;

/// Allocating the module on an empty store succeeds: every function has a type,
/// and every imported table and global is handed in.
pub open spec fn allocation_succeeds(mi: ModuleInstance, m: Module, imports: Seq<Import>) -> bool {
    &&& funcs_typed(flat_map(m.sections@, funcs_of()), mi.spec_fn_types())
    &&& imported_tables(flat_map(m.sections@, imports_of()), imports) is Some
    &&& globals_after(m, imports, mi.spec_global_addrs(), Seq::empty()) is Some
}

/// The tables right after allocating the module on an empty store.
pub open spec fn allocated_tables(m: Module, imports: Seq<Import>) -> Seq<(Seq<Option<FuncAddr>>, Option<u32>)> {
    tables_of_types(flat_map(m.sections@, defined_tables_of())) + imported_tables(
        flat_map(m.sections@, imports_of()),
        imports,
    ).unwrap()
}

/// The table addresses of the module instance right after allocation.
pub open spec fn allocated_table_addrs(mi: ModuleInstance, m: Module, imports: Seq<Import>) -> Seq<
    crate::parser::ast::TableAddr,
> {
    mi.spec_table_addrs() + table_addrs_from(0, allocated_tables(m, imports).len() as int)
}

/// The function addresses of the module instance right after allocation.
pub open spec fn allocated_func_addrs(mi: ModuleInstance, m: Module) -> Seq<FuncAddr> {
    mi.spec_func_addrs() + func_addrs_from(0, flat_map(m.sections@, funcs_of()).len() as int)
}

/// The memory addresses of the module instance right after allocation.
pub open spec fn allocated_mem_addrs(mi: ModuleInstance, m: Module) -> Seq<MemoryAddr> {
    mi.spec_mem_addrs() + mem_addrs_from(0, module_memories(m).len() as int)
}

/// The global addresses and the globals right after allocation.
pub open spec fn allocated_globals(mi: ModuleInstance, m: Module, imports: Seq<Import>) -> (
    Seq<GlobalAddr>,
    Seq<GlobalInstance>,
) {
    globals_after(m, imports, mi.spec_global_addrs(), Seq::empty()).unwrap()
}

/// The outcome of writing the element segments after allocation.
pub open spec fn new_tables(mi: ModuleInstance, m: Module, imports: Seq<Import>) -> Outcome<
    Seq<(Seq<Option<FuncAddr>>, Option<u32>)>,
> {
    elements_outcome(
        flat_map(m.sections@, elements_of()),
        allocated_table_addrs(mi, m, imports),
        allocated_func_addrs(mi, m),
        allocated_globals(mi, m, imports).0,
        allocated_globals(mi, m, imports).1,
        allocated_tables(m, imports),
    )
}

/// The outcome of writing the data segments after allocation.
pub open spec fn new_memories(mi: ModuleInstance, m: Module, imports: Seq<Import>) -> Outcome<
    Seq<(Seq<u8>, Option<u32>)>,
> {
    datas_outcome(
        flat_map(m.sections@, data_of()),
        allocated_mem_addrs(mi, m),
        allocated_globals(mi, m, imports).0,
        allocated_globals(mi, m, imports).1,
        memories_of_types(module_memories(m)),
    )
}

/// The start function after allocation, where it can be found.
pub open spec fn new_start(mi: ModuleInstance, m: Module) -> Option<Option<FuncAddr>> {
    start_outcome(m, allocated_func_addrs(mi, m), flat_map(m.sections@, funcs_of()).len())
}

/// The store address of the global exported under `name`: the first export
/// with that name must hand out a global whose address the module instance
/// holds.
pub open spec fn exported_global_addr(exports: Seq<ExportInstance>, name: Seq<char>, global_addrs: Seq<GlobalAddr>) -> Option<
    int,
> {
    if exists|i: int| 0 <= i < exports.len() && #[trigger] exports[i].name@ == name {
        let i = choose|i: int|
            0 <= i < exports.len() && #[trigger] exports[i].name@ == name && forall|j: int|
                0 <= j < i ==> exports[j].name@ != name;
        match exports[i].value {
            ExternalKindType::Global { ty } => if (ty as int) < global_addrs.len() {
                Some(global_addrs[ty as int].0 as int)
            } else {
                None
            },
            _ => None,
        }
    } else {
        None
    }
}

/// The value of the global exported under `name`, where its instance exists.
pub open spec fn exported_global(
    exports: Seq<ExportInstance>,
    name: Seq<char>,
    global_addrs: Seq<GlobalAddr>,
    globals: Seq<GlobalInstance>,
) -> Option<Value> {
    match exported_global_addr(exports, name, global_addrs) {
        Some(k) => if k < globals.len() {
            Some(globals[k].val)
        } else {
            None
        },
        None => None,
    }
}

/// Running code never changes what `get` reads of an exported global that is
/// immutable: for stores that running keeps, the value read is the same.
pub proof fn lemma_get_immutable_kept(
    exports: Seq<ExportInstance>,
    name: Seq<char>,
    global_addrs: Seq<GlobalAddr>,
    before: Store,
    after: Store,
)
    requires
        keeps(before, after),
        forall|k: int|
            exported_global_addr(exports, name, global_addrs) == Some(k) && 0 <= k < before.globals@.len()
                ==> !(#[trigger] before.globals@[k]).mutable,
    ensures
        exported_global(exports, name, global_addrs, after.globals@) == exported_global(
            exports,
            name,
            global_addrs,
            before.globals@,
        ),
{
    if let Some(k) = exported_global_addr(exports, name, global_addrs) {
        if 0 <= k < before.globals@.len() {
            assert(after.globals@[k] == before.globals@[k]);
        }
    }
}

/// The first export with the given name is unique: no earlier one has it.
proof fn lemma_first_export_unique(exports: Seq<ExportInstance>, name: Seq<char>, i: int, k: int)
    requires
        0 <= i < exports.len(),
        0 <= k < exports.len(),
        exports[i].name@ == name,
        exports[k].name@ == name,
        forall|j: int| 0 <= j < i ==> exports[j].name@ != name,
        forall|j: int| 0 <= j < k ==> exports[j].name@ != name,
    ensures
        i == k,
{
}

/// The address of the function that the export with index `idx` hands out, where
/// it hands out a function whose address the module instance holds.
pub open spec fn exported_function(exports: Seq<ExportInstance>, idx: int, func_addrs: Seq<FuncAddr>) -> Option<
    FuncAddr,
> {
    if 0 <= idx < exports.len() {
        match exports[idx].value {
            ExternalKindType::Function { ty } => if (ty as int) < func_addrs.len() {
                Some(func_addrs[ty as int])
            } else {
                None
            },
            _ => None,
        }
    } else {
        None
    }
}

impl<P: ProgramCounter, F: FloatUnit> Engine<P, F> {
    /// Builds the engine for a module: allocates it with the given imports,
    /// instantiates it, and runs its start function, if it has one.
    pub fn new(mi: ModuleInstance, module: &Module, debugger: P, floats: F, imports: &[Import]) -> (r: EResult<Self>)
        requires
            mems_fit(module_memories(*module)),
        ensures
            !allocation_succeeds(mi, *module, imports@) ==> r is Err,
            allocation_succeeds(mi, *module, imports@) && !(new_tables(mi, *module, imports@) is Done
                && new_memories(mi, *module, imports@) is Done && new_start(mi, *module) is Some) ==> r is Err,
            allocation_succeeds(mi, *module, imports@) && new_tables(mi, *module, imports@) is Done
                && new_memories(mi, *module, imports@) is Done && new_start(mi, *module) == Some(
                None::<FuncAddr>,
            ) ==> r is Ok,
            r matches Ok(e) ==> {
                let types = flat_map(module.sections@, funcs_of());
                &&& allocation_succeeds(mi, *module, imports@)
                &&& new_tables(mi, *module, imports@) is Done
                &&& new_memories(mi, *module, imports@) is Done
                &&& new_start(mi, *module) is Some
                &&& e.module.spec_func_addrs() == allocated_func_addrs(mi, *module)
                &&& e.module.spec_table_addrs() == allocated_table_addrs(mi, *module, imports@)
                &&& e.module.spec_mem_addrs() == allocated_mem_addrs(mi, *module)
                &&& e.module.spec_global_addrs() == allocated_globals(mi, *module, imports@).0
                &&& e.module.spec_code() == mi.spec_code()
                &&& e.module.spec_fn_types() == mi.spec_fn_types()
                &&& exports_added(flat_map(module.sections@, exports_of()), mi.spec_exports(), e.module.spec_exports())
                &&& funcs_allocated(
                    types,
                    mi.spec_fn_types(),
                    mi.spec_code(),
                    flat_map(module.sections@, imports_of()).len() as int,
                    0,
                    e.store.funcs@,
                )
                &&& new_start(mi, *module) == Some(None::<FuncAddr>) ==> {
                    &&& new_tables(mi, *module, imports@) matches Outcome::Done(t) && table_views(e.store.tables@) == t
                    &&& new_memories(mi, *module, imports@) matches Outcome::Done(d) && memory_views(e.store.memory@)
                        == d
                    &&& e.store.globals@ == allocated_globals(mi, *module, imports@).1
                    &&& e.store.stack@.len() == 0
                }
                &&& new_start(mi, *module) matches Some(Some(a)) ==> exists|s0: Store| #[trigger] keeps(s0, e.store) && {
                    &&& new_tables(mi, *module, imports@) matches Outcome::Done(t) && table_views(s0.tables@) == t
                    &&& new_memories(mi, *module, imports@) matches Outcome::Done(d) && memory_views(s0.memory@) == d
                    &&& s0.globals@ == allocated_globals(mi, *module, imports@).1
                    &&& s0.stack@.len() == 0
                    &&& s0.funcs@ == e.store.funcs@
                    &&& args_fit(s0, a, Seq::empty())
                    &&& exists|f1: nat| #[trigger] call_runs(e.module, s0, a, Seq::empty(), DEFAULT_FUEL as nat, e.store, f1)
                }
            },
    {
        let mut e = Engine { module: mi, started: false, store: Store::default(), debugger, floats };
        let ghost mi0 = e.module;
        proof {
            assert(e.store.globals@ =~= Seq::<GlobalInstance>::empty());
        }
        match allocate(module, &mut e.module, &mut e.store, imports) {
            Ok(()) => {},
            Err(err) => {
                return Err(err);
            },
        }
        proof {
            assert(Seq::<FuncInstance>::empty().len() == 0);
            assert(table_views(Seq::empty()) =~= Seq::empty());
            assert(memory_views(Seq::empty()) =~= Seq::empty());
            assert(table_views(e.store.tables@) =~= allocated_tables(*module, imports@));
            assert(memory_views(e.store.memory@) =~= memories_of_types(module_memories(*module)));
        }
        match e.instantiation(module) {
            Ok(()) => {},
            Err(err) => {
                return Err(err);
            },
        }
        Ok(e)
    }

    /// Instantiates the allocated module and runs its start function, if it has
    /// one.
    pub fn instantiation(&mut self, m: &Module) -> (r: EResult<()>)
        ensures
            ({
                let tables = elements_outcome(
                    flat_map(m.sections@, elements_of()),
                    old(self).module.spec_table_addrs(),
                    old(self).module.spec_func_addrs(),
                    old(self).module.spec_global_addrs(),
                    old(self).store.globals@,
                    table_views(old(self).store.tables@),
                );
                let mems = datas_outcome(
                    flat_map(m.sections@, data_of()),
                    old(self).module.spec_mem_addrs(),
                    old(self).module.spec_global_addrs(),
                    old(self).store.globals@,
                    memory_views(old(self).store.memory@),
                );
                let start = start_outcome(*m, old(self).module.spec_func_addrs(), old(self).store.funcs@.len());
                &&& !(tables is Done && mems is Done && start is Some) ==> r is Err
                &&& tables is Done && mems is Done && start == Some(None::<FuncAddr>) ==> {
                    &&& r is Ok
                    &&& tables matches Outcome::Done(t) && table_views(final(self).store.tables@) == t
                    &&& mems matches Outcome::Done(d) && memory_views(final(self).store.memory@) == d
                    &&& final(self).store.globals@ == old(self).store.globals@
                    &&& final(self).store.stack@ == old(self).store.stack@
                }
                &&& tables is Done && mems is Done && start is Some && start.unwrap() is Some ==> {
                    let a = start.unwrap().unwrap();
                    exists|s0: Store| #[trigger] keeps(s0, final(self).store) && {
                        &&& tables matches Outcome::Done(t) && table_views(s0.tables@) == t
                        &&& mems matches Outcome::Done(d) && memory_views(s0.memory@) == d
                        &&& s0.globals@ == old(self).store.globals@
                        &&& s0.stack@ == old(self).store.stack@
                        &&& s0.funcs@ == old(self).store.funcs@
                        &&& !args_fit(s0, a, Seq::empty()) ==> r is Err && final(self).store == s0
                        &&& args_fit(s0, a, Seq::empty()) && r is Ok
                            ==> exists|f1: nat| #[trigger] call_runs(old(self).module, s0, a, Seq::empty(), DEFAULT_FUEL as nat, final(self).store, f1)
                    }
                }
            }),
            final(self).module == old(self).module,
            final(self).store.funcs@ == old(self).store.funcs@,
    {
        let start_function = match instantiation(m, &self.module, &mut self.store) {
            Ok(s) => s,
            Err(e) => {
                return Err(e);
            },
        };
        let ghost s0 = self.store;
        proof {
            crate::engine::lemma_keeps_refl(s0);
        }
        if let Some(func_addr) = start_function {
            let args: Vec<Value> = Vec::new();
            proof {
                assert(args@ =~= Seq::<Value>::empty());
            }
            let (res, _) = self.invoke_function(func_addr, args, DEFAULT_FUEL);
            match res {
                Ok(()) => {},
                Err(e) => {
                    return Err(e);
                },
            }
        }
        Ok(())
    }

    /// Adds a memory of `n` pages and its address, where the store has no memory
    /// yet; the address is added also where the store has one, and then the
    /// error is returned.
    pub fn init_memory(&mut self, n: usize) -> (r: EResult<()>)
        requires
            n * PAGE_SIZE <= usize::MAX,
            old(self).module.spec_mem_addrs().len() == 0,
        ensures
            old(self).store.memory@.len() == 0 ==> r is Ok && final(self).store.memory@.len() == 1
                && memory_views(final(self).store.memory@)[0] == (
                crate::engine::memory::zeros((n * PAGE_SIZE) as nat),
                None::<u32>,
            ),
            old(self).store.memory@.len() > 0 ==> r is Err && final(self).store.memory@ == old(self).store.memory@,
            final(self).module.spec_mem_addrs() == seq![MemoryAddr(0)],
            final(self).store.funcs@ == old(self).store.funcs@,
            final(self).store.tables@ == old(self).store.tables@,
            final(self).store.globals@ == old(self).store.globals@,
            final(self).store.stack@ == old(self).store.stack@,
    {
        let res = self.store.init_memory(n);
        let addr = MemoryAddr::new(self.module.get_mem_addrs().len());
        let _ = self.module.store_memory_addr(addr);
        proof {
            assert(self.module.spec_mem_addrs() =~= seq![MemoryAddr(0)]);
        }
        res
    }

    /// The value of the global exported under `name`.
    pub fn get(&self, name: &str) -> (r: EResult<Value>)
        ensures
            match exported_global(self.module.spec_exports(), name@, self.module.spec_global_addrs(), self.store.globals@) {
                Some(v) => r == Ok::<Value, &'static str>(v),
                None => r is Err,
            },
    {
        let export_instance = match self.module.get_export_instance_by_name(name) {
            Some(x) => x,
            None => {
                return Err("Export instance was not found by name");
            },
        };
        proof {
            let exports = self.module.spec_exports();
            let k = choose|i: int|
                0 <= i < exports.len() && *export_instance == exports[i] && export_instance.name@ == name@ && forall|
                    j: int,
                | 0 <= j < i ==> exports[j].name@ != name@;
            assert(exports[k].name@ == name@);
            let i = choose|i: int|
                0 <= i < exports.len() && #[trigger] exports[i].name@ == name@ && forall|j: int|
                    0 <= j < i ==> exports[j].name@ != name@;
            lemma_first_export_unique(exports, name@, i, k);
        }
        match export_instance.value {
            ExternalKindType::Global { ty } => {
                let global_addr = match self.module.lookup_global_addr(&ty) {
                    Some(a) => a,
                    None => {
                        return Err("Global not found");
                    },
                };
                match self.store.get_global_instance(global_addr) {
                    Ok(g) => Ok(g.val),
                    Err(e) => Err(e),
                }
            },
            _ => Err("Exported global not found"),
        }
    }

    /// Adds a function: its code goes into the module instance and an instance
    /// with the signature and the code into the store.
    pub fn add_function(&mut self, signature: FunctionSignature, body: FunctionBody) -> (r: EResult<()>)
        ensures
            r is Ok,
            final(self).module.spec_code().len() == old(self).module.spec_code().len() + 1,
            final(self).module.spec_code().subrange(0, old(self).module.spec_code().len() as int) == old(
                self,
            ).module.spec_code(),
            crate::engine::module::same_body(body, final(self).module.spec_code().last()),
            final(self).store.funcs@ == old(self).store.funcs@.push(FuncInstance { ty: signature, code: body }),
            final(self).store.tables@ == old(self).store.tables@,
            final(self).store.memory@ == old(self).store.memory@,
            final(self).store.globals@ == old(self).store.globals@,
            final(self).module.spec_func_addrs() == old(self).module.spec_func_addrs(),
            final(self).module.spec_exports() == old(self).module.spec_exports(),
    {
        let _ = self.module.add_code(crate::engine::module::copy_body(&body));
        let ghost before = old(self).module.spec_code();
        proof {
            assert(self.module.spec_code().subrange(0, before.len() as int) =~= before);
        }
        let _ = self.store.allocate_func_instance(signature, body);
        Ok(())
    }

    /// The function at the address.
    pub fn get_function_instance(&self, addr: &FuncAddr) -> (r: EResult<&FuncInstance>)
        ensures
            addr.0 < self.store.funcs@.len() ==> (r matches Ok(f) && *f == self.store.funcs@[addr.0 as int]),
            addr.0 >= self.store.funcs@.len() ==> r is Err,
    {
        self.store.get_func_instance(addr)
    }

    /// Invokes the function that the export with index `idx` hands out, with the
    /// arguments `args`. Running keeps the functions, the tables and the
    /// immutable globals.
    pub fn invoke_exported_function(&mut self, idx: u32, args: Vec<Value>) -> (r: EResult<()>)
        ensures
            final(self).module == old(self).module,
            old(self).debugger.never_fails() ==> final(self).debugger.never_fails(),
            keeps(old(self).store, final(self).store),
            exported_function(old(self).module.spec_exports(), idx as int, old(self).module.spec_func_addrs()) is None
                ==> r is Err && final(self).store == old(self).store,
            exported_function(old(self).module.spec_exports(), idx as int, old(self).module.spec_func_addrs())
                matches Some(a) && !args_fit(old(self).store, a, args@) ==> r is Err && final(self).store == old(
                self,
            ).store,
            forall|a: FuncAddr|
                exported_function(old(self).module.spec_exports(), idx as int, old(self).module.spec_func_addrs())
                    == Some(a) && #[trigger] args_fit(old(self).store, a, args@) && old(self).store.funcs@[a.0 as int].code.code@.len()
                    == 0 && old(self).store.funcs@[a.0 as int].ty.return_types@.len() == 0 ==> r is Ok && only_stack(
                    old(self).store,
                    final(self).store,
                ) && final(self).store.stack@ == old(self).store.stack@,
            forall|a: FuncAddr|
                exported_function(old(self).module.spec_exports(), idx as int, old(self).module.spec_func_addrs())
                    == Some(a) && #[trigger] args_fit(old(self).store, a, args@) && r is Ok ==> exists|f1: nat| #[trigger] call_runs(old(self).module, old(self).store, a, args@, DEFAULT_FUEL as nat, final(self).store, f1),
            forall|a: FuncAddr|
                exported_function(old(self).module.spec_exports(), idx as int, old(self).module.spec_func_addrs())
                    == Some(a) && #[trigger] args_fit(old(self).store, a, args@) && old(self).debugger.never_fails()
                    && straight_call(old(self).module, old(self).store, a, args@, DEFAULT_FUEL as nat) ==> r is Ok,
    {
        let k = match self.module.get_export_instance(idx as usize) {
            Some(w) => w.value,
            None => {
                proof {
                    crate::engine::lemma_keeps_refl(self.store);
                }
                return Err("Exported function not found or found something else");
            },
        };
        match k {
            ExternalKindType::Function { ty } => {
                let func_addr = match self.module.lookup_function_addr(&ty) {
                    Some(a) => FuncAddr(a.0),
                    None => {
                        proof {
                            crate::engine::lemma_keeps_refl(self.store);
                        }
                        return Err("Cannot find function's addr");
                    },
                };
                let (res, _) = self.invoke_function(func_addr, args, DEFAULT_FUEL);
                res
            },
            _ => {
                proof {
                    crate::engine::lemma_keeps_refl(self.store);
                }
                Err("Exported function not found")
            },
        }
    }

    /// Invokes the function exported under `name`: that of the first export with
    /// that name.
    pub fn invoke_exported_function_by_name(&mut self, name: &str, args: Vec<Value>) -> (r: EResult<()>)
        ensures
            final(self).module == old(self).module,
            old(self).debugger.never_fails() ==> final(self).debugger.never_fails(),
            keeps(old(self).store, final(self).store),
            (forall|j: int|
                0 <= j < old(self).module.spec_exports().len() ==> old(self).module.spec_exports()[j].name@ != name@)
                ==> r is Err && final(self).store == old(self).store,
            forall|i: int, a: FuncAddr|
                #![trigger old(self).module.spec_exports()[i], args_fit(old(self).store, a, args@)]
                0 <= i < old(self).module.spec_exports().len() && i <= u32::MAX && old(self).module.spec_exports()[i].name@
                    == name@ && (forall|j: int| 0 <= j < i ==> old(self).module.spec_exports()[j].name@ != name@)
                    && exported_function(old(self).module.spec_exports(), i, old(self).module.spec_func_addrs()) == Some(a)
                    && args_fit(old(self).store, a, args@) && old(self).store.funcs@[a.0 as int].code.code@.len() == 0
                    && old(self).store.funcs@[a.0 as int].ty.return_types@.len() == 0 ==> r is Ok && only_stack(
                    old(self).store,
                    final(self).store,
                ) && final(self).store.stack@ == old(self).store.stack@,
            forall|i: int, a: FuncAddr|
                #![trigger old(self).module.spec_exports()[i], args_fit(old(self).store, a, args@)]
                0 <= i < old(self).module.spec_exports().len() && i <= u32::MAX && old(self).module.spec_exports()[i].name@
                    == name@ && (forall|j: int| 0 <= j < i ==> old(self).module.spec_exports()[j].name@ != name@)
                    && exported_function(old(self).module.spec_exports(), i, old(self).module.spec_func_addrs()) == Some(a)
                    && args_fit(old(self).store, a, args@)
                    && r is Ok ==> exists|f1: nat| #[trigger] call_runs(old(self).module, old(self).store, a, args@, DEFAULT_FUEL as nat, final(self).store, f1),
            forall|i: int, a: FuncAddr|
                #![trigger old(self).module.spec_exports()[i], args_fit(old(self).store, a, args@)]
                0 <= i < old(self).module.spec_exports().len() && i <= u32::MAX && old(self).module.spec_exports()[i].name@
                    == name@ && (forall|j: int| 0 <= j < i ==> old(self).module.spec_exports()[j].name@ != name@)
                    && exported_function(old(self).module.spec_exports(), i, old(self).module.spec_func_addrs()) == Some(a)
                    && args_fit(old(self).store, a, args@) && old(self).debugger.never_fails()
                    && straight_call(old(self).module, old(self).store, a, args@, DEFAULT_FUEL as nat) ==> r is Ok,
    {
        let idx = match self.module.position_export_instance_by_name(name) {
            Some(i) => i,
            None => {
                proof {
                    crate::engine::lemma_keeps_refl(self.store);
                }
                return Err("Cannot find export instance by name");
            },
        };
        self.invoke_exported_function(idx as u32, args)
    }
}

} // verus!
