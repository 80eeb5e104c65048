//! The checks that validation makes of the parts of a module. Each error is a
//! message; the first check that fails gives it.

use crate::parser::ast::{
    DataSegment, ElementSegment, ExportEntry, ExternalKindType, FunctionSignature, GlobalType,
    ImportDesc, ImportEntry, Instruction, InstructionWrapper, Limits, MemoryType, Mu, StartSection,
    TableType, ValueType,
};
use crate::validation::extract::deref_all;
use vstd::prelude::*;

verus! {

/// The result of a check: nothing, or the message of the first failure.
pub type IResult<T> = Result<T, &'static str>;

/// The largest number of pages plus one: limits must stay below it.
pub const PAGE_LIMIT: u32 = 65536;

/// The type of a function: its parameter and result types.
#[derive(Debug, Clone)]
pub struct FuncType {
    param_types: Vec<ValueType>,
    return_types: Vec<ValueType>,
}

impl View for FuncType {
    type V = (Seq<ValueType>, Seq<ValueType>);

    closed spec fn view(&self) -> (Seq<ValueType>, Seq<ValueType>) {
        (self.param_types@, self.return_types@)
    }
}

/// A copy of a list of value types.
fn copy_types(v: &Vec<ValueType>) -> (r: Vec<ValueType>)
    ensures
        r@ == v@,
{
    let mut r: Vec<ValueType> = Vec::new();
    let mut k: usize = 0;
    while k < v.len()
        invariant
            k <= v@.len(),
            r@ == v@.subrange(0, k as int),
        decreases v@.len() - k,
    {
        r.push(v[k]);
        k = k + 1;
        proof {
            assert(r@ =~= v@.subrange(0, k as int));
        }
    }
    proof {
        assert(r@ =~= v@);
    }
    r
}

impl FuncType {
    /// A function type with the given parameter and result types.
    pub fn new(param_types: Vec<ValueType>, return_types: Vec<ValueType>) -> (f: Self)
        ensures
            f@ == (param_types@, return_types@),
    {
        FuncType { param_types, return_types }
    }

    /// Whether the function takes parameters.
    pub fn has_params(&self) -> (b: bool)
        ensures
            b == (self@.0.len() > 0),
    {
        self.param_types.len() > 0
    }

    /// Whether the function returns results.
    pub fn has_results(&self) -> (b: bool)
        ensures
            b == (self@.1.len() > 0),
    {
        self.return_types.len() > 0
    }

    /// The parameter types.
    pub fn params(&self) -> (r: &[ValueType])
        ensures
            r@ == self@.0,
    {
        self.param_types.as_slice()
    }

    /// The result types.
    pub fn results(&self) -> (r: &[ValueType])
        ensures
            r@ == self@.1,
    {
        self.return_types.as_slice()
    }
}

/// The parameter and result types of a signature.
pub open spec fn signature_view(f: FunctionSignature) -> (Seq<ValueType>, Seq<ValueType>) {
    (f.param_types@, f.return_types@)
}

/// The type of the function whose type index is `typeidx`, where there is one.
pub fn get_ty_of_function(types: &[&FunctionSignature], typeidx: usize) -> (r: IResult<FuncType>)
    ensures
        typeidx < types@.len() ==> (r matches Ok(f) && f@ == signature_view(*types@[typeidx as int])),
        typeidx >= types@.len() ==> r == Err::<FuncType, &'static str>("No function with this index"),
{
    if typeidx < types.len() {
        let t: &FunctionSignature = types[typeidx];
        return Ok(FuncType { param_types: copy_types(&t.param_types), return_types: copy_types(&t.return_types) });
    }
    Err("No function with this index")
}

/// Limits of a memory are below the page limit.
pub open spec fn spec_memory_ok(memory: MemoryType) -> bool {
    match memory.limits {
        Limits::Zero(n) => n < PAGE_LIMIT,
        Limits::One(n, m) => n < PAGE_LIMIT && m < PAGE_LIMIT,
    }
}

/// A memory type is valid where its limits are below the page limit.
pub fn check_memory_ty(memory: &MemoryType) -> (r: IResult<()>)
    ensures
        spec_memory_ok(*memory) ==> r == Ok::<(), &'static str>(()),
        !spec_memory_ok(*memory) ==> r == Err::<(), &'static str>("Memory exhausted"),
{
    let b = match memory.limits {
        Limits::Zero(n) => n < PAGE_LIMIT,
        Limits::One(n, m) => n < PAGE_LIMIT && m < PAGE_LIMIT,
    };
    if b {
        Ok(())
    } else {
        Err("Memory exhausted")
    }
}

/// Whether an import description is valid: a function's type must exist and a
/// memory's limits must be below the page limit.
pub open spec fn spec_import_desc_ok(e: ImportDesc, ntypes: nat) -> bool {
    match e {
        ImportDesc::Function { ty } => ty < ntypes,
        ImportDesc::Table { .. } => true,
        ImportDesc::Memory { ty } => spec_memory_ok(ty),
        ImportDesc::Global { .. } => true,
    }
}

/// Tells whether an import description is valid. It never fails.
pub fn check_import_desc(e: &ImportDesc, types: &[&FunctionSignature]) -> (r: IResult<bool>)
    ensures
        r == Ok::<bool, &'static str>(spec_import_desc_ok(*e, types@.len())),
{
    let b = match e {
        ImportDesc::Function { ty } => get_ty_of_function(types, *ty as usize).is_ok(),
        ImportDesc::Table { .. } => true,
        ImportDesc::Memory { ty } => check_memory_ty(ty).is_ok(),
        ImportDesc::Global { .. } => true,
    };
    Ok(b)
}

/// Tells whether an import is valid. It never fails.
pub fn check_import_ty(import_ty: &ImportEntry, types: &[&FunctionSignature]) -> (r: IResult<bool>)
    ensures
        r == Ok::<bool, &'static str>(spec_import_desc_ok(import_ty.desc, types@.len())),
{
    check_import_desc(&import_ty.desc, types)
}

/// What checking an export gives: the item it names must exist.
pub open spec fn spec_export_check(
    kind: ExternalKindType,
    nfuncs: nat,
    ntables: nat,
    nmems: nat,
    nglobals: nat,
) -> IResult<bool> {
    match kind {
        ExternalKindType::Function { ty } => if ty < nfuncs {
            Ok(true)
        } else {
            Err("Function does not exist")
        },
        ExternalKindType::Table { ty } => if ty < ntables {
            Ok(true)
        } else {
            Err("Table does not exist")
        },
        ExternalKindType::Memory { ty } => if ty < nmems {
            Ok(true)
        } else {
            Err("Memory does not exist")
        },
        ExternalKindType::Global { ty } => if ty < nglobals {
            Ok(true)
        } else {
            Err("Global does not exist")
        },
    }
}

/// Checks that the item an export names exists.
pub fn check_export_ty(
    export_ty: &ExportEntry,
    functypes: &[FuncType],
    tabletypes: &[&TableType],
    memtypes: &[&MemoryType],
    globaltypes: &[&GlobalType],
) -> (r: IResult<bool>)
    ensures
        r == spec_export_check(
            export_ty.kind,
            functypes@.len(),
            tabletypes@.len(),
            memtypes@.len(),
            globaltypes@.len(),
        ),
{
    match export_ty.kind {
        ExternalKindType::Function { ty } => if (ty as usize) < functypes.len() {
            Ok(true)
        } else {
            Err("Function does not exist")
        },
        ExternalKindType::Table { ty } => if (ty as usize) < tabletypes.len() {
            Ok(true)
        } else {
            Err("Table does not exist")
        },
        ExternalKindType::Memory { ty } => if (ty as usize) < memtypes.len() {
            Ok(true)
        } else {
            Err("Memory does not exist")
        },
        ExternalKindType::Global { ty } => if (ty as usize) < globaltypes.len() {
            Ok(true)
        } else {
            Err("Global does not exist")
        },
    }
}

/// What checking the start function gives: a function that exists must have
/// the type `[] -> []`, neither parameters nor results.
pub open spec fn spec_start_check(index: u32, functypes: Seq<(Seq<ValueType>, Seq<ValueType>)>) -> IResult<bool> {
    if index < functypes.len() && (functypes[index as int].0.len() > 0 || functypes[index as int].1.len() > 0) {
        Err("Function is not a valid start function")
    } else {
        Ok(true)
    }
}

/// The views of a list of function types.
pub open spec fn functype_views(s: Seq<FuncType>) -> Seq<(Seq<ValueType>, Seq<ValueType>)> {
    s.map_values(|f: FuncType| f@)
}

/// Checks the start function.
pub fn check_start(start: &StartSection, functypes: &[FuncType]) -> (r: IResult<bool>)
    ensures
        r == spec_start_check(start.index, functype_views(functypes@)),
{
    let fidx = start.index as usize;
    if fidx < functypes.len() {
        let f = &functypes[fidx];
        if f.has_params() || f.has_results() {
            return Err("Function is not a valid start function");
        }
    }
    Ok(true)
}

/// The kinds of instructions.
#[derive(Debug, Clone, Copy, PartialEq, Eq, Structural)]
pub enum InstructionKind {
    Control,
    Parametric,
    Variable,
    Memory,
    Numeric,
}

/// The kind of an instruction.
pub open spec fn spec_kind(i: Instruction) -> InstructionKind {
    match i {
        Instruction::OP_UNREACHABLE | Instruction::OP_NOP | Instruction::OP_BLOCK(..)
        | Instruction::OP_LOOP(..) | Instruction::OP_IF(..) | Instruction::OP_IF_AND_ELSE(..)
        | Instruction::OP_BR(..) | Instruction::OP_BR_IF(..) | Instruction::OP_BR_TABLE(..)
        | Instruction::OP_RETURN | Instruction::OP_CALL(..) | Instruction::OP_CALL_INDIRECT(
            ..,
        ) => InstructionKind::Control,
        Instruction::OP_DROP | Instruction::OP_SELECT => InstructionKind::Parametric,
        Instruction::OP_LOCAL_GET(..) | Instruction::OP_LOCAL_SET(..) | Instruction::OP_LOCAL_TEE(..)
        | Instruction::OP_GLOBAL_GET(..) | Instruction::OP_GLOBAL_SET(..) => InstructionKind::Variable,
        Instruction::OP_I32_LOAD(..) | Instruction::OP_I64_LOAD(..) | Instruction::OP_F32_LOAD(..)
        | Instruction::OP_F64_LOAD(..) | Instruction::OP_I32_LOAD_8_s(..)
        | Instruction::OP_I32_LOAD_8_u(..) | Instruction::OP_I32_LOAD_16_s(..)
        | Instruction::OP_I32_LOAD_16_u(..) | Instruction::OP_I64_LOAD_8_s(..)
        | Instruction::OP_I64_LOAD_8_u(..) | Instruction::OP_I64_LOAD_16_s(..)
        | Instruction::OP_I64_LOAD_16_u(..) | Instruction::OP_I64_LOAD_32_u(..)
        | Instruction::OP_I64_LOAD_32_s(..) | Instruction::OP_I32_STORE(..)
        | Instruction::OP_I64_STORE(..) | Instruction::OP_F32_STORE(..) | Instruction::OP_F64_STORE(..)
        | Instruction::OP_I32_STORE_8(..) | Instruction::OP_I32_STORE_16(..)
        | Instruction::OP_I64_STORE_8(..) | Instruction::OP_I64_STORE_16(..)
        | Instruction::OP_I64_STORE_32(..) | Instruction::OP_MEMORY_SIZE
        | Instruction::OP_MEMORY_GROW => InstructionKind::Memory,
        _ => InstructionKind::Numeric,
    }
}

/// Tells the kind of an instruction.
pub fn kind_of(i: &Instruction) -> (k: InstructionKind)
    ensures
        k == spec_kind(*i),
{
    match i {
        Instruction::OP_UNREACHABLE | Instruction::OP_NOP | Instruction::OP_BLOCK(..)
        | Instruction::OP_LOOP(..) | Instruction::OP_IF(..) | Instruction::OP_IF_AND_ELSE(..)
        | Instruction::OP_BR(..) | Instruction::OP_BR_IF(..) | Instruction::OP_BR_TABLE(..)
        | Instruction::OP_RETURN | Instruction::OP_CALL(..) | Instruction::OP_CALL_INDIRECT(
            ..,
        ) => InstructionKind::Control,
        Instruction::OP_DROP | Instruction::OP_SELECT => InstructionKind::Parametric,
        Instruction::OP_LOCAL_GET(..) | Instruction::OP_LOCAL_SET(..) | Instruction::OP_LOCAL_TEE(..)
        | Instruction::OP_GLOBAL_GET(..) | Instruction::OP_GLOBAL_SET(..) => InstructionKind::Variable,
        Instruction::OP_I32_LOAD(..) | Instruction::OP_I64_LOAD(..) | Instruction::OP_F32_LOAD(..)
        | Instruction::OP_F64_LOAD(..) | Instruction::OP_I32_LOAD_8_s(..)
        | Instruction::OP_I32_LOAD_8_u(..) | Instruction::OP_I32_LOAD_16_s(..)
        | Instruction::OP_I32_LOAD_16_u(..) | Instruction::OP_I64_LOAD_8_s(..)
        | Instruction::OP_I64_LOAD_8_u(..) | Instruction::OP_I64_LOAD_16_s(..)
        | Instruction::OP_I64_LOAD_16_u(..) | Instruction::OP_I64_LOAD_32_u(..)
        | Instruction::OP_I64_LOAD_32_s(..) | Instruction::OP_I32_STORE(..)
        | Instruction::OP_I64_STORE(..) | Instruction::OP_F32_STORE(..) | Instruction::OP_F64_STORE(..)
        | Instruction::OP_I32_STORE_8(..) | Instruction::OP_I32_STORE_16(..)
        | Instruction::OP_I64_STORE_8(..) | Instruction::OP_I64_STORE_16(..)
        | Instruction::OP_I64_STORE_32(..) | Instruction::OP_MEMORY_SIZE
        | Instruction::OP_MEMORY_GROW => InstructionKind::Memory,
        _ => InstructionKind::Numeric,
    }
}

/// The type of a constant expression that must give an `i32`: its first
/// instruction must be an `i32.const`.
pub open spec fn spec_const_i32_ty(init: Seq<InstructionWrapper>) -> IResult<ValueType> {
    if init.len() == 0 {
        Err("No expr to evaluate")
    } else {
        match init[0].spec_instruction() {
            Instruction::OP_I32_CONST(_) => Ok(ValueType::I32),
            i => if spec_kind(i) == InstructionKind::Numeric {
                Err("Expression is not a I32 const")
            } else {
                Err("Wrong expression")
            },
        }
    }
}

/// Gives the type of a constant `i32` expression.
pub fn get_expr_const_i32_ty(init: &[InstructionWrapper]) -> (r: IResult<ValueType>)
    ensures
        r == spec_const_i32_ty(init@),
{
    if init.len() == 0 {
        return Err("No expr to evaluate");
    }
    let i = init[0].get_instruction();
    match i {
        Instruction::OP_I32_CONST(_) => Ok(ValueType::I32),
        _ => if kind_of(i) == InstructionKind::Numeric {
            Err("Expression is not a I32 const")
        } else {
            Err("Wrong expression")
        },
    }
}

/// The type of the initialiser of a global: a constant, or the value of an
/// immutable global that exists.
pub open spec fn spec_const_global_ty(init: Seq<InstructionWrapper>, globals_ty: Seq<GlobalType>) -> IResult<ValueType> {
    if init.len() == 0 {
        Err("No expr to evaluate")
    } else {
        match init[0].spec_instruction() {
            Instruction::OP_I32_CONST(_) => Ok(ValueType::I32),
            Instruction::OP_I64_CONST(_) => Ok(ValueType::I64),
            Instruction::OP_F32_CONST(_) => Ok(ValueType::F32),
            Instruction::OP_F64_CONST(_) => Ok(ValueType::F64),
            Instruction::OP_GLOBAL_GET(idx) => if idx < globals_ty.len() {
                if globals_ty[idx as int].mu == Mu::Var {
                    Err("Global var is mutable")
                } else {
                    Ok(globals_ty[idx as int].value_type)
                }
            } else {
                Err("Global does not exist")
            },
            i => if spec_kind(i) == InstructionKind::Numeric {
                Err("Expression is not a const")
            } else if spec_kind(i) == InstructionKind::Variable {
                Err("Only Global get allowed")
            } else {
                Err("Wrong expression")
            },
        }
    }
}

/// Gives the type of the initialiser of a global.
pub fn get_expr_const_ty_global(init: &[InstructionWrapper], globals_ty: &[&GlobalType]) -> (r: IResult<ValueType>)
    ensures
        r == spec_const_global_ty(init@, deref_all(globals_ty@)),
{
    if init.len() == 0 {
        return Err("No expr to evaluate");
    }
    let i = init[0].get_instruction();
    match i {
        Instruction::OP_I32_CONST(_) => Ok(ValueType::I32),
        Instruction::OP_I64_CONST(_) => Ok(ValueType::I64),
        Instruction::OP_F32_CONST(_) => Ok(ValueType::F32),
        Instruction::OP_F64_CONST(_) => Ok(ValueType::F64),
        Instruction::OP_GLOBAL_GET(idx) => {
            let k = *idx as usize;
            if k < globals_ty.len() {
                let g: &GlobalType = globals_ty[k];
                if g.mu == Mu::Var {
                    Err("Global var is mutable")
                } else {
                    Ok(g.value_type)
                }
            } else {
                Err("Global does not exist")
            }
        },
        _ => {
            let k = kind_of(i);
            if k == InstructionKind::Numeric {
                Err("Expression is not a const")
            } else if k == InstructionKind::Variable {
                Err("Only Global get allowed")
            } else {
                Err("Wrong expression")
            }
        },
    }
}

/// What checking an element segment gives: its table must exist, its offset
/// must be a constant `i32`, and each function it lists must exist.
pub open spec fn spec_elem_check(e: ElementSegment, ntables: nat, nfuncs: nat) -> IResult<bool> {
    if e.table >= ntables {
        Err("No table defined for element's index")
    } else {
        match spec_const_i32_ty(e.offset@) {
            Err(m) => Err(m),
            Ok(_) => if exists|k: int| 0 <= k < e.init@.len() && e.init@[k] >= nfuncs {
                Err("Element section is not correct")
            } else {
                Ok(true)
            },
        }
    }
}

/// Checks an element segment.
pub fn check_elem_ty(elem_ty: &ElementSegment, tables: &[&TableType], func_ty: &[FuncType]) -> (r: IResult<bool>)
    ensures
        r == spec_elem_check(*elem_ty, tables@.len(), func_ty@.len()),
{
    if (elem_ty.table as usize) >= tables.len() {
        return Err("No table defined for element's index");
    }
    match get_expr_const_i32_ty(elem_ty.offset.as_slice()) {
        Err(m) => {
            return Err(m);
        },
        Ok(_) => {},
    }
    let mut k: usize = 0;
    while k < elem_ty.init.len()
        invariant
            k <= elem_ty.init@.len(),
            elem_ty.table < tables@.len(),
            spec_const_i32_ty(elem_ty.offset@) is Ok,
            forall|j: int| 0 <= j < k ==> elem_ty.init@[j] < func_ty@.len(),
        decreases elem_ty.init@.len() - k,
    {
        if (elem_ty.init[k] as usize) >= func_ty.len() {
            return Err("Element section is not correct");
        }
        k = k + 1;
    }
    Ok(true)
}

/// Checks a data segment, whose memory must exist.
pub fn check_data_ty(data_ty: &DataSegment, memtypes: &[&MemoryType]) -> (r: IResult<bool>)
    requires
        data_ty.data < memtypes@.len(),
    ensures
        match spec_const_i32_ty(data_ty.offset@) {
            Ok(_) => r == Ok::<bool, &'static str>(true),
            Err(m) => r == Err::<bool, &'static str>(m),
        },
{
    match get_expr_const_i32_ty(data_ty.offset.as_slice()) {
        Err(m) => Err(m),
        Ok(_) => Ok(true),
    }
}

/// Two exports in the list share a name.
pub open spec fn has_duplicate_name(exports: Seq<&ExportEntry>) -> bool {
    exists|i: int, j: int| 0 <= i < j < exports.len() && exports[i].name@ == exports[j].name@
}

/// All export names must differ.
pub fn check_export_names(exports: &[&ExportEntry]) -> (r: IResult<()>)
    ensures
        has_duplicate_name(exports@) ==> r == Err::<(), &'static str>("Export function names are not unique"),
        !has_duplicate_name(exports@) ==> r == Ok::<(), &'static str>(()),
{
    let mut j: usize = 0;
    while j < exports.len()
        invariant
            j <= exports@.len(),
            forall|a: int, b: int| 0 <= a < b < j ==> exports@[a].name@ != exports@[b].name@,
        decreases exports@.len() - j,
    {
        let mut i: usize = 0;
        while i < j
            invariant
                i <= j < exports@.len(),
                forall|a: int, b: int| 0 <= a < b < j ==> exports@[a].name@ != exports@[b].name@,
                forall|a: int| 0 <= a < i ==> exports@[a].name@ != exports@[j as int].name@,
            decreases j - i,
        {
            let e1: &ExportEntry = exports[i];
            let e2: &ExportEntry = exports[j];
            if e1.name == e2.name {
                return Err("Export function names are not unique");
            }
            i = i + 1;
        }
        j = j + 1;
    }
    Ok(())
}

} // verus!
