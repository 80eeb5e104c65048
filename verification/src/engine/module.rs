//! The module instance: the code and types of a module, and the addresses in
//! the store of its functions, tables, memories and globals.

use crate::engine::store::ExportInstance;
use crate::parser::ast::{
    clone_wrapped, same_wrapped, ExportEntry, FuncAddr, FuncIdx, FunctionBody, FunctionSignature,
    GlobalAddr, GlobalIdx, LocalEntry, MemoryAddr, MemoryIdx, Section, TableAddr, TableIdx, ValueType,
};
use crate::parser::Module;
use vstd::prelude::*;

verus! {

/// The entries of the last code section, where there is one.
pub open spec fn last_code_section(s: Seq<Section>) -> Seq<FunctionBody>
    decreases s.len(),
{
    if s.len() == 0 {
        Seq::empty()
    } else {
        match s.last() {
            Section::Code(c) => c.entries@,
            _ => last_code_section(s.drop_last()),
        }
    }
}

/// The entries of the last type section, where there is one.
pub open spec fn last_type_section(s: Seq<Section>) -> Seq<FunctionSignature>
    decreases s.len(),
{
    if s.len() == 0 {
        Seq::empty()
    } else {
        match s.last() {
            Section::Type(t) => t.entries@,
            _ => last_type_section(s.drop_last()),
        }
    }
}

/// Two function bodies have the same locals and the same code.
pub open spec fn same_body(a: FunctionBody, b: FunctionBody) -> bool {
    a.locals@ == b.locals@ && same_wrapped(a.code@, b.code@)
}

/// Two signatures have the same parameter and result types.
pub open spec fn same_signature(a: FunctionSignature, b: FunctionSignature) -> bool {
    a.param_types@ == b.param_types@ && a.return_types@ == b.return_types@
}

/// A copy of a list of groups of locals.
pub fn copy_locals(v: &Vec<LocalEntry>) -> (r: Vec<LocalEntry>)
    ensures
        r@ == v@,
{
    let mut r: Vec<LocalEntry> = Vec::new();
    let mut k: usize = 0;
    while k < v.len()
        invariant
            k <= v@.len(),
            r@ == v@.subrange(0, k as int),
        decreases v@.len() - k,
    {
        r.push(v[k]);
        k = k + 1;
        proof {
            assert(r@ =~= v@.subrange(0, k as int));
        }
    }
    proof {
        assert(r@ =~= v@);
    }
    r
}

/// A copy of a list of value types.
pub fn copy_types(v: &Vec<ValueType>) -> (r: Vec<ValueType>)
    ensures
        r@ == v@,
{
    let mut r: Vec<ValueType> = Vec::new();
    let mut k: usize = 0;
    while k < v.len()
        invariant
            k <= v@.len(),
            r@ == v@.subrange(0, k as int),
        decreases v@.len() - k,
    {
        r.push(v[k]);
        k = k + 1;
        proof {
            assert(r@ =~= v@.subrange(0, k as int));
        }
    }
    proof {
        assert(r@ =~= v@);
    }
    r
}

/// A copy of a function body.
pub fn copy_body(b: &FunctionBody) -> (r: FunctionBody)
    ensures
        same_body(*b, r),
{
    FunctionBody { locals: copy_locals(&b.locals), code: clone_wrapped(&b.code) }
}

/// A copy of a signature.
pub fn copy_signature(f: &FunctionSignature) -> (r: FunctionSignature)
    ensures
        same_signature(*f, r),
{
    FunctionSignature { param_types: copy_types(&f.param_types), return_types: copy_types(&f.return_types) }
}

/// Copies of a list of function bodies.
fn copy_bodies(v: &Vec<FunctionBody>) -> (r: Vec<FunctionBody>)
    ensures
        r@.len() == v@.len(),
        forall|k: int| 0 <= k < v@.len() ==> same_body(v@[k], #[trigger] r@[k]),
{
    let mut r: Vec<FunctionBody> = Vec::new();
    let mut k: usize = 0;
    while k < v.len()
        invariant
            k <= v@.len(),
            r@.len() == k,
            forall|j: int| 0 <= j < k ==> same_body(v@[j], #[trigger] r@[j]),
        decreases v@.len() - k,
    {
        r.push(copy_body(&v[k]));
        k = k + 1;
    }
    r
}

/// Copies of a list of signatures.
fn copy_signatures(v: &Vec<FunctionSignature>) -> (r: Vec<FunctionSignature>)
    ensures
        r@.len() == v@.len(),
        forall|k: int| 0 <= k < v@.len() ==> same_signature(v@[k], #[trigger] r@[k]),
{
    let mut r: Vec<FunctionSignature> = Vec::new();
    let mut k: usize = 0;
    while k < v.len()
        invariant
            k <= v@.len(),
            r@.len() == k,
            forall|j: int| 0 <= j < k ==> same_signature(v@[j], #[trigger] r@[j]),
        decreases v@.len() - k,
    {
        r.push(copy_signature(&v[k]));
        k = k + 1;
    }
    r
}

impl ExportInstance {
    /// The export instance of an export entry.
    pub fn from_entry(e: &ExportEntry) -> (x: ExportInstance)
        ensures
            x.name@ == e.name@,
            x.value == e.kind,
    {
        ExportInstance { name: e.name.clone(), value: e.kind }
    }
}

/// The instance of a module.
#[derive(Debug)]
pub struct ModuleInstance {
    code: Vec<FunctionBody>,
    fn_types: Vec<FunctionSignature>,
    func_addrs: Vec<FuncAddr>,
    table_addrs: Vec<TableAddr>,
    mem_addrs: Vec<MemoryAddr>,
    global_addrs: Vec<GlobalAddr>,
    exports: Vec<ExportInstance>,
}

impl Default for ModuleInstance {
    /// An empty module instance.
    fn default() -> (mi: Self)
        ensures
            mi.spec_code().len() == 0,
            mi.spec_fn_types().len() == 0,
            mi.spec_func_addrs().len() == 0,
            mi.spec_table_addrs().len() == 0,
            mi.spec_mem_addrs().len() == 0,
            mi.spec_global_addrs().len() == 0,
            mi.spec_exports().len() == 0,
    {
        ModuleInstance {
            code: Vec::new(),
            fn_types: Vec::new(),
            func_addrs: Vec::new(),
            table_addrs: Vec::new(),
            mem_addrs: Vec::new(),
            global_addrs: Vec::new(),
            exports: Vec::new(),
        }
    }
}

impl ModuleInstance {
    /// The code of the functions of the module.
    pub closed spec fn spec_code(&self) -> Seq<FunctionBody> {
        self.code@
    }

    /// The function types of the module.
    pub closed spec fn spec_fn_types(&self) -> Seq<FunctionSignature> {
        self.fn_types@
    }

    /// The store addresses of the functions.
    pub closed spec fn spec_func_addrs(&self) -> Seq<FuncAddr> {
        self.func_addrs@
    }

    /// The store addresses of the tables.
    pub closed spec fn spec_table_addrs(&self) -> Seq<TableAddr> {
        self.table_addrs@
    }

    /// The store addresses of the memories.
    pub closed spec fn spec_mem_addrs(&self) -> Seq<MemoryAddr> {
        self.mem_addrs@
    }

    /// The store addresses of the globals.
    pub closed spec fn spec_global_addrs(&self) -> Seq<GlobalAddr> {
        self.global_addrs@
    }

    /// The exports.
    pub closed spec fn spec_exports(&self) -> Seq<ExportInstance> {
        self.exports@
    }

    /// The instance of a module before allocation: it holds the code of the last
    /// code section and the types of the last type section.
    pub fn new(m: &Module) -> (mi: Self)
        ensures
            mi.spec_code().len() == last_code_section(m.sections@).len(),
            forall|k: int|
                0 <= k < mi.spec_code().len() ==> same_body(
                    last_code_section(m.sections@)[k],
                    #[trigger] mi.spec_code()[k],
                ),
            mi.spec_fn_types().len() == last_type_section(m.sections@).len(),
            forall|k: int|
                0 <= k < mi.spec_fn_types().len() ==> same_signature(
                    last_type_section(m.sections@)[k],
                    #[trigger] mi.spec_fn_types()[k],
                ),
            mi.spec_func_addrs().len() == 0,
            mi.spec_table_addrs().len() == 0,
            mi.spec_mem_addrs().len() == 0,
            mi.spec_global_addrs().len() == 0,
            mi.spec_exports().len() == 0,
    {
        let mut mi = ModuleInstance::default();
        let mut i: usize = 0;
        let ghost s = m.sections@;
        while i < m.sections.len()
            invariant
                i <= s.len(),
                s == m.sections@,
                mi.code@.len() == last_code_section(s.subrange(0, i as int)).len(),
                forall|k: int|
                    0 <= k < mi.code@.len() ==> same_body(
                        last_code_section(s.subrange(0, i as int))[k],
                        #[trigger] mi.code@[k],
                    ),
                mi.fn_types@.len() == last_type_section(s.subrange(0, i as int)).len(),
                forall|k: int|
                    0 <= k < mi.fn_types@.len() ==> same_signature(
                        last_type_section(s.subrange(0, i as int))[k],
                        #[trigger] mi.fn_types@[k],
                    ),
                mi.func_addrs@.len() == 0,
                mi.table_addrs@.len() == 0,
                mi.mem_addrs@.len() == 0,
                mi.global_addrs@.len() == 0,
                mi.exports@.len() == 0,
            decreases s.len() - i,
        {
            proof {
                assert(s.subrange(0, i + 1).drop_last() =~= s.subrange(0, i as int));
                assert(s.subrange(0, i + 1).last() == s[i as int]);
            }
            match &m.sections[i] {
                Section::Code(c) => {
                    mi.code = copy_bodies(&c.entries);
                },
                Section::Type(t) => {
                    mi.fn_types = copy_signatures(&t.entries);
                },
                _ => {},
            }
            i = i + 1;
        }
        proof {
            assert(s.subrange(0, i as int) =~= s);
        }
        mi
    }

    /// Adds a function type without parameters and with the given results, and
    /// returns its index.
    pub fn add_func_type(&mut self, r: Vec<ValueType>) -> (idx: usize)
        requires
            old(self).spec_fn_types().len() < usize::MAX,
        ensures
            idx == old(self).spec_fn_types().len(),
            final(self).spec_fn_types().len() == old(self).spec_fn_types().len() + 1,
            forall|k: int| 0 <= k < idx ==> final(self).spec_fn_types()[k] == old(self).spec_fn_types()[k],
            final(self).spec_fn_types()[idx as int].param_types@.len() == 0,
            final(self).spec_fn_types()[idx as int].return_types@ == r@,
            final(self).spec_code() == old(self).spec_code(),
            final(self).spec_func_addrs() == old(self).spec_func_addrs(),
            final(self).spec_table_addrs() == old(self).spec_table_addrs(),
            final(self).spec_mem_addrs() == old(self).spec_mem_addrs(),
            final(self).spec_global_addrs() == old(self).spec_global_addrs(),
            final(self).spec_exports() == old(self).spec_exports(),
    {
        self.fn_types.push(FunctionSignature { param_types: Vec::new(), return_types: r });
        self.fn_types.len() - 1
    }

    /// The store address of the function with index `idx`.
    pub fn lookup_function_addr(&self, idx: &FuncIdx) -> (r: Option<&FuncAddr>)
        ensures
            (*idx as int) < self.spec_func_addrs().len() ==> r == Some(&self.spec_func_addrs()[*idx as int]),
            (*idx as int) >= self.spec_func_addrs().len() ==> r is None,
    {
        let k = *idx as usize;
        if k < self.func_addrs.len() {
            Some(&self.func_addrs[k])
        } else {
            None
        }
    }

    /// The store address of the table with index `idx`.
    pub fn lookup_table_addr(&self, idx: &TableIdx) -> (r: Option<&TableAddr>)
        ensures
            (*idx as int) < self.spec_table_addrs().len() ==> r == Some(&self.spec_table_addrs()[*idx as int]),
            (*idx as int) >= self.spec_table_addrs().len() ==> r is None,
    {
        let k = *idx as usize;
        if k < self.table_addrs.len() {
            Some(&self.table_addrs[k])
        } else {
            None
        }
    }

    /// The store address of the memory with index `idx`.
    pub fn lookup_memory_addr(&self, idx: &MemoryIdx) -> (r: Option<&MemoryAddr>)
        ensures
            (*idx as int) < self.spec_mem_addrs().len() ==> r == Some(&self.spec_mem_addrs()[*idx as int]),
            (*idx as int) >= self.spec_mem_addrs().len() ==> r is None,
    {
        let k = *idx as usize;
        if k < self.mem_addrs.len() {
            Some(&self.mem_addrs[k])
        } else {
            None
        }
    }

    /// The store address of the global with index `idx`.
    pub fn lookup_global_addr(&self, idx: &GlobalIdx) -> (r: Option<&GlobalAddr>)
        ensures
            (*idx as int) < self.spec_global_addrs().len() ==> r == Some(&self.spec_global_addrs()[*idx as int]),
            (*idx as int) >= self.spec_global_addrs().len() ==> r is None,
    {
        let k = *idx as usize;
        if k < self.global_addrs.len() {
            Some(&self.global_addrs[k])
        } else {
            None
        }
    }

    /// The function type with the given index.
    pub fn lookup_func_types(&self, index: &u32) -> (r: Option<&FunctionSignature>)
        ensures
            (*index as int) < self.spec_fn_types().len() ==> r == Some(&self.spec_fn_types()[*index as int]),
            (*index as int) >= self.spec_fn_types().len() ==> r is None,
    {
        let k = *index as usize;
        if k < self.fn_types.len() {
            Some(&self.fn_types[k])
        } else {
            None
        }
    }

    /// The code with the given index.
    pub fn lookup_code(&self, index: usize) -> (r: Option<&FunctionBody>)
        ensures
            index < self.spec_code().len() ==> r == Some(&self.spec_code()[index as int]),
            index >= self.spec_code().len() ==> r is None,
    {
        if index < self.code.len() {
            Some(&self.code[index])
        } else {
            None
        }
    }

    /// Adds a function address.
    pub fn store_func_addr(&mut self, new_addr: FuncAddr) -> (r: Result<(), &'static str>)
        ensures
            r is Ok,
            final(self).spec_func_addrs() == old(self).spec_func_addrs().push(new_addr),
            final(self).spec_code() == old(self).spec_code(),
            final(self).spec_fn_types() == old(self).spec_fn_types(),
            final(self).spec_table_addrs() == old(self).spec_table_addrs(),
            final(self).spec_mem_addrs() == old(self).spec_mem_addrs(),
            final(self).spec_global_addrs() == old(self).spec_global_addrs(),
            final(self).spec_exports() == old(self).spec_exports(),
    {
        self.func_addrs.push(new_addr);
        Ok(())
    }

    /// Adds a table address.
    pub fn store_table_addr(&mut self, new_addr: TableAddr) -> (r: Result<(), &'static str>)
        ensures
            r is Ok,
            final(self).spec_table_addrs() == old(self).spec_table_addrs().push(new_addr),
            final(self).spec_code() == old(self).spec_code(),
            final(self).spec_fn_types() == old(self).spec_fn_types(),
            final(self).spec_func_addrs() == old(self).spec_func_addrs(),
            final(self).spec_mem_addrs() == old(self).spec_mem_addrs(),
            final(self).spec_global_addrs() == old(self).spec_global_addrs(),
            final(self).spec_exports() == old(self).spec_exports(),
    {
        self.table_addrs.push(new_addr);
        Ok(())
    }

    /// Adds a memory address.
    pub fn store_memory_addr(&mut self, new_addr: MemoryAddr) -> (r: Result<(), &'static str>)
        ensures
            r is Ok,
            final(self).spec_mem_addrs() == old(self).spec_mem_addrs().push(new_addr),
            final(self).spec_code() == old(self).spec_code(),
            final(self).spec_fn_types() == old(self).spec_fn_types(),
            final(self).spec_func_addrs() == old(self).spec_func_addrs(),
            final(self).spec_table_addrs() == old(self).spec_table_addrs(),
            final(self).spec_global_addrs() == old(self).spec_global_addrs(),
            final(self).spec_exports() == old(self).spec_exports(),
    {
        self.mem_addrs.push(new_addr);
        Ok(())
    }

    /// Adds a global address.
    pub fn store_global_addr(&mut self, new_addr: GlobalAddr) -> (r: Result<(), &'static str>)
        ensures
            r is Ok,
            final(self).spec_global_addrs() == old(self).spec_global_addrs().push(new_addr),
            final(self).spec_code() == old(self).spec_code(),
            final(self).spec_fn_types() == old(self).spec_fn_types(),
            final(self).spec_func_addrs() == old(self).spec_func_addrs(),
            final(self).spec_table_addrs() == old(self).spec_table_addrs(),
            final(self).spec_mem_addrs() == old(self).spec_mem_addrs(),
            final(self).spec_exports() == old(self).spec_exports(),
    {
        self.global_addrs.push(new_addr);
        Ok(())
    }

    /// Adds an export.
    pub fn store_export(&mut self, export: ExportInstance) -> (r: Result<(), &'static str>)
        ensures
            r is Ok,
            final(self).spec_exports() == old(self).spec_exports().push(export),
            final(self).spec_code() == old(self).spec_code(),
            final(self).spec_fn_types() == old(self).spec_fn_types(),
            final(self).spec_func_addrs() == old(self).spec_func_addrs(),
            final(self).spec_table_addrs() == old(self).spec_table_addrs(),
            final(self).spec_mem_addrs() == old(self).spec_mem_addrs(),
            final(self).spec_global_addrs() == old(self).spec_global_addrs(),
    {
        self.exports.push(export);
        Ok(())
    }

    /// The memory addresses.
    pub fn get_mem_addrs(&self) -> (r: &Vec<MemoryAddr>)
        ensures
            r@ == self.spec_mem_addrs(),
    {
        &self.mem_addrs
    }

    /// The index of the first export with the given name.
    pub fn position_export_instance_by_name(&self, name: &str) -> (r: Option<usize>)
        ensures
            r matches Some(i) ==> i < self.spec_exports().len() && self.spec_exports()[i as int].name@ == name@
                && forall|j: int| 0 <= j < i ==> self.spec_exports()[j].name@ != name@,
            r is None ==> forall|j: int| 0 <= j < self.spec_exports().len() ==> self.spec_exports()[j].name@ != name@,
    {
        let k = name.to_owned();
        let mut i: usize = 0;
        while i < self.exports.len()
            invariant
                i <= self.exports@.len(),
                k@ == name@,
                forall|j: int| 0 <= j < i ==> self.exports@[j].name@ != name@,
            decreases self.exports@.len() - i,
        {
            if self.exports[i].name == k {
                return Some(i);
            }
            i = i + 1;
        }
        None
    }

    /// The first export with the given name.
    pub fn get_export_instance_by_name(&self, name: &str) -> (r: Option<&ExportInstance>)
        ensures
            r matches Some(x) ==> exists|i: int|
                0 <= i < self.spec_exports().len() && *x == self.spec_exports()[i] && x.name@ == name@ && forall|j: int|
                    0 <= j < i ==> self.spec_exports()[j].name@ != name@,
            r is None ==> forall|j: int| 0 <= j < self.spec_exports().len() ==> self.spec_exports()[j].name@ != name@,
    {
        match self.position_export_instance_by_name(name) {
            Some(i) => Some(&self.exports[i]),
            None => None,
        }
    }

    /// The export with the given index.
    pub fn get_export_instance(&self, idx: usize) -> (r: Option<&ExportInstance>)
        ensures
            idx < self.spec_exports().len() ==> r == Some(&self.spec_exports()[idx as int]),
            idx >= self.spec_exports().len() ==> r is None,
    {
        if idx < self.exports.len() {
            Some(&self.exports[idx])
        } else {
            None
        }
    }

    /// Adds the code of a function.
    pub fn add_code(&mut self, body: FunctionBody) -> (r: Result<(), &'static str>)
        ensures
            r is Ok,
            final(self).spec_code() == old(self).spec_code().push(body),
            final(self).spec_fn_types() == old(self).spec_fn_types(),
            final(self).spec_func_addrs() == old(self).spec_func_addrs(),
            final(self).spec_table_addrs() == old(self).spec_table_addrs(),
            final(self).spec_mem_addrs() == old(self).spec_mem_addrs(),
            final(self).spec_global_addrs() == old(self).spec_global_addrs(),
            final(self).spec_exports() == old(self).spec_exports(),
    {
        self.code.push(body);
        Ok(())
    }

    /// The code of the functions.
    pub fn get_code(&self) -> (r: &[FunctionBody])
        ensures
            r@ == self.spec_code(),
    {
        self.code.as_slice()
    }

    /// The function types.
    pub fn get_fn_types(&self) -> (r: &[FunctionSignature])
        ensures
            r@ == self.spec_fn_types(),
    {
        self.fn_types.as_slice()
    }

    /// The function addresses.
    pub fn get_func_addrs(&self) -> (r: &[FuncAddr])
        ensures
            r@ == self.spec_func_addrs(),
    {
        self.func_addrs.as_slice()
    }

    /// The table addresses.
    pub fn get_table_addrs(&self) -> (r: &[TableAddr])
        ensures
            r@ == self.spec_table_addrs(),
    {
        self.table_addrs.as_slice()
    }

    /// The global addresses.
    pub fn get_global_addrs(&self) -> (r: &[GlobalAddr])
        ensures
            r@ == self.spec_global_addrs(),
    {
        self.global_addrs.as_slice()
    }

    /// The exports.
    pub fn get_exports(&self) -> (r: &[ExportInstance])
        ensures
            r@ == self.spec_exports(),
    {
        self.exports.as_slice()
    }
}

} // verus!
