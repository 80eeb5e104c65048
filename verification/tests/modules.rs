//! Modules built from their sections: validation and allocation.

use funky::debugger::RelativeProgramCounter;
use funky::engine::import_resolver::{Import, ImportResolver};
use funky::engine::module::ModuleInstance;
use funky::engine::numeric::{Conversion, FloatBinaryOp, FloatCompareOp, FloatUnaryOp, FloatUnit};
use funky::engine::store::Variable;
use funky::engine::Engine;
use funky::parser::ast::{
    Counter, ExportEntry, ExportSection, ExternalKindType, FunctionBody, FunctionSection, FunctionSignature,
    GlobalSection, GlobalType, GlobalVariable, ImportDesc, ImportEntry, ImportSection, Instruction,
    InstructionWrapper, Limits, MemorySection, MemoryType, Mu, Section, TableSection, TableType, TypeSection,
    ValueType, CodeSection,
};
use funky::parser::Module;
use funky::validation::validate;
use funky::value::Value;

/// A float unit for modules that compute no floats.
struct NoFloats;

impl FloatUnit for NoFloats {
    fn unary(&self, _op: FloatUnaryOp, _v: Value) -> Option<Value> {
        None
    }
    fn binary(&self, _op: FloatBinaryOp, _a: Value, _b: Value) -> Option<Value> {
        None
    }
    fn compare(&self, _op: FloatCompareOp, _a: Value, _b: Value) -> Option<bool> {
        None
    }
    fn convert(&self, _op: Conversion, _v: Value) -> Option<Value> {
        None
    }
}

fn wrap(code: Vec<Instruction>) -> Vec<InstructionWrapper> {
    let mut counter = Counter::new();
    InstructionWrapper::wrap_instructions(&mut counter, code)
}

fn allocation(sections: Vec<Section>) -> Engine<RelativeProgramCounter, NoFloats> {
    let module = Module { sections };
    let instance = ModuleInstance::new(&module);
    match Engine::new(instance, &module, RelativeProgramCounter::default(), NoFloats, &[]) {
        Ok(e) => e,
        Err(e) => panic!("Allocation failed: {}", e),
    }
}

fn export(name: &str, kind: ExternalKindType) -> ExportEntry {
    ExportEntry { name: name.to_string(), kind }
}

fn import(desc: ImportDesc) -> ImportEntry {
    ImportEntry { module_name: "test".to_string(), name: "test1".to_string(), desc }
}

// Validation.

#[test]
fn test_empty_module() {
    let module = Module { sections: vec![] };
    assert!(validate(&module).is_ok());
}

#[test]
fn test_check_if_function_defined() {
    let w = FunctionSection { types: vec![0, 1] };
    let t = TypeSection { entries: vec![FunctionSignature::empty()] };
    let module = Module { sections: vec![Section::Type(t), Section::Function(w)] };
    assert_eq!(Err("Function is not defined"), validate(&module));
}

#[test]
fn test_check_function_defined() {
    let w = FunctionSection { types: vec![0, 0] };
    let t = TypeSection { entries: vec![FunctionSignature::empty()] };
    let module = Module { sections: vec![Section::Type(t), Section::Function(w)] };
    assert!(validate(&module).is_ok());
}

#[test]
fn test_duplicated_export_entries() {
    let k = ExportSection {
        entries: vec![
            export("test1", ExternalKindType::Function { ty: 0 }),
            export("test1", ExternalKindType::Function { ty: 1 }),
        ],
    };
    let w = FunctionSection { types: vec![0, 1] };
    let t = TypeSection { entries: vec![FunctionSignature::empty(), FunctionSignature::empty()] };
    let module = Module { sections: vec![Section::Type(t), Section::Function(w), Section::Export(k)] };
    assert_eq!(Err("Export function names are not unique"), validate(&module));
}

#[test]
fn test_table_in_export() {
    let k = ExportSection { entries: vec![export("test1", ExternalKindType::Table { ty: 0 })] };
    let w = TableSection { entries: vec![TableType { element_type: 0x70, limits: Limits::Zero(10) }] };
    let module = Module { sections: vec![Section::Table(w), Section::Export(k)] };
    assert!(validate(&module).is_ok());
}

#[test]
fn test_no_table_in_export() {
    let k = ExportSection { entries: vec![export("test1", ExternalKindType::Table { ty: 0 })] };
    let w = TableSection { entries: vec![] };
    let module = Module { sections: vec![Section::Export(k), Section::Table(w)] };
    assert_eq!(Err("Table does not exist"), validate(&module));
}

#[test]
fn test_memory_in_export() {
    let k = ExportSection { entries: vec![export("test1", ExternalKindType::Memory { ty: 0 })] };
    let w = MemorySection { entries: vec![MemoryType { limits: Limits::Zero(10) }] };
    let module = Module { sections: vec![Section::Memory(w), Section::Export(k)] };
    assert!(validate(&module).is_ok());
}

#[test]
fn test_no_memory_in_export() {
    let k = ExportSection { entries: vec![export("test1", ExternalKindType::Memory { ty: 0 })] };
    let w = MemorySection { entries: vec![] };
    let module = Module { sections: vec![Section::Export(k), Section::Memory(w)] };
    assert_eq!(Err("Memory does not exist"), validate(&module));
}

fn const_global(v: i32) -> GlobalVariable {
    GlobalVariable {
        ty: GlobalType { value_type: ValueType::I32, mu: Mu::Const },
        init: wrap(vec![Instruction::OP_I32_CONST(v)]),
    }
}

#[test]
fn test_global_in_export() {
    let k = ExportSection { entries: vec![export("test1", ExternalKindType::Global { ty: 0 })] };
    let w = GlobalSection { globals: vec![const_global(1)] };
    let module = Module { sections: vec![Section::Export(k), Section::Global(w)] };
    assert!(validate(&module).is_ok());
}

#[test]
fn test_no_global_in_export() {
    let k = ExportSection { entries: vec![export("test1", ExternalKindType::Global { ty: 0 })] };
    let w = GlobalSection { globals: vec![] };
    let module = Module { sections: vec![Section::Export(k), Section::Global(w)] };
    assert_eq!(Err("Global does not exist"), validate(&module));
}

#[test]
fn test_function_import() {
    let k = ImportSection { entries: vec![import(ImportDesc::Function { ty: 0 })] };
    let x = TypeSection { entries: vec![FunctionSignature::empty()] };
    let w = FunctionSection { types: vec![0] };
    let module = Module { sections: vec![Section::Import(k), Section::Type(x), Section::Function(w)] };
    assert!(validate(&module).is_ok());
}

#[test]
fn test_no_function_import() {
    let k = ImportSection { entries: vec![import(ImportDesc::Function { ty: 0 })] };
    let x = TypeSection { entries: vec![] };
    let w = FunctionSection { types: vec![] };
    let module = Module { sections: vec![Section::Import(k), Section::Type(x), Section::Function(w)] };
    assert_eq!(Err("Function is not defined"), validate(&module));
}

#[test]
fn test_table_import() {
    let k = ImportSection {
        entries: vec![import(ImportDesc::Table { ty: TableType { element_type: 0x70, limits: Limits::Zero(0) } })],
    };
    let module = Module { sections: vec![Section::Import(k)] };
    assert!(validate(&module).is_ok());
}

#[test]
fn test_memory_import() {
    let k = ImportSection { entries: vec![import(ImportDesc::Memory { ty: MemoryType { limits: Limits::Zero(0) } })] };
    let module = Module { sections: vec![Section::Import(k)] };
    assert!(validate(&module).is_ok());
}

#[test]
fn test_memory_exhaust_import() {
    let k = ImportSection {
        entries: vec![import(ImportDesc::Memory { ty: MemoryType { limits: Limits::Zero(u32::max_value()) } })],
    };
    let module = Module { sections: vec![Section::Import(k)] };
    assert_eq!(Err("Memory exhausted"), validate(&module));
}

#[test]
fn test_global_import() {
    let k = ImportSection {
        entries: vec![import(ImportDesc::Global { ty: GlobalType { value_type: ValueType::I32, mu: Mu::Var } })],
    };
    let module = Module { sections: vec![Section::Import(k)] };
    assert!(validate(&module).is_ok());
}

#[test]
fn test_double_tables() {
    let k = TableSection { entries: vec![TableType { element_type: 0x70, limits: Limits::Zero(0) }] };
    let w = TableSection { entries: vec![TableType { element_type: 0x70, limits: Limits::Zero(0) }] };
    let module = Module { sections: vec![Section::Table(k), Section::Table(w)] };
    assert_eq!(Err("More than one table"), validate(&module));
}

#[test]
fn test_double_memory() {
    let k = MemorySection { entries: vec![MemoryType { limits: Limits::Zero(0) }] };
    let w = MemorySection { entries: vec![MemoryType { limits: Limits::Zero(0) }] };
    let module = Module { sections: vec![Section::Memory(k), Section::Memory(w)] };
    assert_eq!(Err("More than one memory"), validate(&module));
}

#[test]
fn test_memory_exhaust() {
    let k = MemorySection { entries: vec![MemoryType { limits: Limits::Zero(u32::max_value()) }] };
    let module = Module { sections: vec![Section::Memory(k)] };
    assert_eq!(Err("Memory exhausted"), validate(&module));
}

// Allocation.

#[test]
fn test_allocation_funcs() {
    let sig = FunctionSignature { param_types: vec![ValueType::I32], return_types: vec![ValueType::I32] };
    let body = FunctionBody { locals: vec![], code: wrap(vec![Instruction::OP_NOP]) };
    let engine = allocation(vec![
        Section::Type(TypeSection { entries: vec![sig.clone()] }),
        Section::Function(FunctionSection { types: vec![0] }),
        Section::Code(CodeSection { entries: vec![body.clone()] }),
    ]);
    let mi = &engine.module;
    assert_eq!(1, mi.get_fn_types().len());
    assert_eq!(sig, mi.get_fn_types()[0]);
    assert_eq!(1, mi.get_code().len());
    assert_eq!(body, mi.get_code()[0]);
    assert_eq!(1, mi.get_func_addrs().len());
    assert_eq!(Some(0), mi.get_func_addrs().get(0).map(|a| a.0));
    assert_eq!(1, engine.store.funcs.len());
    assert_eq!(sig, engine.store.funcs[0].ty);
    assert_eq!(body, engine.store.funcs[0].code);
}

#[test]
fn test_allocation_tables_zero() {
    let engine = allocation(vec![Section::Table(TableSection {
        entries: vec![TableType { element_type: 0x70, limits: Limits::Zero(10) }],
    })]);
    assert_eq!(1, engine.module.get_table_addrs().len());
    assert_eq!(Some(0), engine.module.get_table_addrs().get(0).map(|a| a.0));
    assert_eq!(1, engine.store.tables.len());
    assert_eq!(10, engine.store.tables[0].elem.len());
    assert!(engine.store.tables[0].elem.iter().all(|w| w.is_none()));
    assert_eq!(None, engine.store.tables[0].max);
}

#[test]
fn test_allocation_tables_one() {
    let engine = allocation(vec![Section::Table(TableSection {
        entries: vec![TableType { element_type: 0x70, limits: Limits::One(10, 20) }],
    })]);
    assert_eq!(1, engine.module.get_table_addrs().len());
    assert_eq!(Some(0), engine.module.get_table_addrs().get(0).map(|a| a.0));
    assert_eq!(1, engine.store.tables.len());
    assert_eq!(10, engine.store.tables[0].elem.len());
    assert!(engine.store.tables[0].elem.iter().all(|w| w.is_none()));
    assert_eq!(Some(20), engine.store.tables[0].max);
}

#[test]
fn test_allocation_memories_zero() {
    let engine = allocation(vec![Section::Memory(MemorySection { entries: vec![MemoryType { limits: Limits::Zero(10) }] })]);
    assert_eq!(1, engine.module.get_mem_addrs().len());
    assert_eq!(Some(0), engine.module.get_mem_addrs().get(0).map(|a| a.0));
    assert_eq!(1, engine.store.memory.len());
    assert_eq!(10 * 1024 * 64, engine.store.memory[0].data.len());
    assert!(engine.store.memory[0].data.iter().all(|w| w == &0u8));
    assert_eq!(None, engine.store.memory[0].max);
}

#[test]
fn test_allocation_memories_one() {
    let engine = allocation(vec![Section::Memory(MemorySection { entries: vec![MemoryType { limits: Limits::One(10, 20) }] })]);
    assert_eq!(1, engine.module.get_mem_addrs().len());
    assert_eq!(Some(0), engine.module.get_mem_addrs().get(0).map(|a| a.0));
    assert_eq!(1, engine.store.memory.len());
    assert_eq!(10 * 1024 * 64, engine.store.memory[0].data.len());
    assert!(engine.store.memory[0].data.iter().all(|w| w == &0u8));
    assert_eq!(Some(20), engine.store.memory[0].max);
}

#[test]
fn test_allocation_globals() {
    let engine = allocation(vec![Section::Global(GlobalSection { globals: vec![const_global(10)] })]);
    assert_eq!(1, engine.module.get_global_addrs().len());
    assert_eq!(Some(0), engine.module.get_global_addrs().get(0).map(|a| a.0));
    assert_eq!(1, engine.store.globals.len());
    assert_eq!(Variable { mutable: false, val: Value::I32(10) }, engine.store.globals[0]);
}

#[test]
fn test_allocation_exports() {
    let engine = allocation(vec![
        Section::Memory(MemorySection { entries: vec![MemoryType { limits: Limits::Zero(10) }] }),
        Section::Export(ExportSection { entries: vec![export("memory", ExternalKindType::Memory { ty: 0 })] }),
    ]);
    assert_eq!(1, engine.module.get_exports().len());
    assert_eq!("memory", engine.module.get_exports()[0].name);
    assert_eq!(ExternalKindType::Memory { ty: 0 }, engine.module.get_exports()[0].value);
}

// More allocation.

#[test]
fn allocation_gives_functions_without_code_a_stand_in_body() {
    let sig = FunctionSignature { param_types: vec![ValueType::I64], return_types: vec![ValueType::I32, ValueType::F64] };
    let engine = allocation(vec![
        Section::Type(TypeSection { entries: vec![sig.clone()] }),
        Section::Function(FunctionSection { types: vec![0] }),
    ]);
    let f = &engine.store.funcs[0];
    assert_eq!(sig, f.ty);
    assert_eq!(1, f.code.locals.len());
    assert_eq!(1, f.code.locals[0].count);
    assert_eq!(ValueType::I64, f.code.locals[0].ty);
    assert_eq!(2, f.code.code.len());
    assert_eq!(&Instruction::OP_I32_CONST(0), f.code.code[0].get_instruction());
    assert_eq!(&Instruction::OP_F64_CONST(0), f.code.code[1].get_instruction());
    assert_eq!(1, f.code.code[0].get_id());
    assert_eq!(2, f.code.code[1].get_id());
}

#[test]
fn allocation_fails_for_a_missing_type_or_import() {
    let module = Module { sections: vec![Section::Function(FunctionSection { types: vec![3] })] };
    let e = Engine::new(ModuleInstance::new(&module), &module, RelativeProgramCounter::default(), NoFloats, &[]);
    assert!(e.is_err());
    let module = Module {
        sections: vec![Section::Import(ImportSection {
            entries: vec![import(ImportDesc::Global { ty: GlobalType { value_type: ValueType::I32, mu: Mu::Const } })],
        })],
    };
    let e = Engine::new(ModuleInstance::new(&module), &module, RelativeProgramCounter::default(), NoFloats, &[]);
    assert!(e.is_err());
}

#[test]
fn allocation_takes_imported_globals_from_the_last_import_with_the_names() {
    let module = Module {
        sections: vec![Section::Import(ImportSection {
            entries: vec![import(ImportDesc::Global { ty: GlobalType { value_type: ValueType::I32, mu: Mu::Const } })],
        })],
    };
    let imports = vec![
        Import::Global("test".to_string(), "test1".to_string(), Variable { mutable: false, val: Value::I32(1) }),
        Import::Global("test".to_string(), "test1".to_string(), Variable { mutable: false, val: Value::I32(2) }),
    ];
    let engine = Engine::new(ModuleInstance::new(&module), &module, RelativeProgramCounter::default(), NoFloats, &imports)
        .unwrap();
    assert_eq!(Value::I32(2), engine.store.globals[0].val);
}

#[test]
fn get_reads_an_exported_global() {
    let engine = allocation(vec![
        Section::Global(GlobalSection { globals: vec![const_global(7)] }),
        Section::Export(ExportSection { entries: vec![export("g", ExternalKindType::Global { ty: 0 })] }),
    ]);
    assert_eq!(Ok(Value::I32(7)), engine.get("g"));
    assert!(engine.get("h").is_err());
}

#[test]
fn get_reads_the_same_immutable_global_after_an_invocation() {
    let sig = FunctionSignature { param_types: vec![], return_types: vec![] };
    let body = FunctionBody {
        locals: vec![],
        code: wrap(vec![Instruction::OP_GLOBAL_GET(0), Instruction::OP_GLOBAL_SET(1)]),
    };
    let mutable = GlobalVariable {
        ty: GlobalType { value_type: ValueType::I32, mu: Mu::Var },
        init: wrap(vec![Instruction::OP_I32_CONST(0)]),
    };
    let mut engine = allocation(vec![
        Section::Type(TypeSection { entries: vec![sig] }),
        Section::Function(FunctionSection { types: vec![0] }),
        Section::Global(GlobalSection { globals: vec![const_global(7), mutable] }),
        Section::Export(ExportSection {
            entries: vec![
                export("f", ExternalKindType::Function { ty: 0 }),
                export("c", ExternalKindType::Global { ty: 0 }),
                export("v", ExternalKindType::Global { ty: 1 }),
            ],
        }),
        Section::Code(CodeSection { entries: vec![body] }),
    ]);
    assert_eq!(Ok(Value::I32(7)), engine.get("c"));
    assert_eq!(Ok(Value::I32(0)), engine.get("v"));
    assert!(engine.invoke_exported_function_by_name("f", vec![]).is_ok());
    assert_eq!(Ok(Value::I32(7)), engine.get("c"));
    assert_eq!(Ok(Value::I32(7)), engine.get("v"));
}

#[test]
fn comparisons_and_conversions_have_their_typing_rules() {
    use_typing_rules();
}

fn use_typing_rules() {
    let eq = funky::validation::instructions::get_ty_of_relop(&Instruction::OP_F32_EQ);
    assert_eq!(eq.params(), &[ValueType::F32, ValueType::F32]);
    assert_eq!(eq.results(), &[ValueType::I32]);
    let lt = funky::validation::instructions::get_ty_of_relop(&Instruction::OP_F64_LT);
    assert_eq!(lt.params(), &[ValueType::F64, ValueType::F64]);
    let wrap = funky::validation::instructions::get_ty_cvtop(&Instruction::OP_I32_WRAP_I64);
    assert_eq!(wrap.params(), &[ValueType::I64]);
    assert_eq!(wrap.results(), &[ValueType::I32]);
    let conv = funky::validation::instructions::get_ty_cvtop(&Instruction::OP_F64_CONVERT_I64_U);
    assert_eq!(conv.params(), &[ValueType::I64]);
    assert_eq!(conv.results(), &[ValueType::F64]);
}

#[test]
fn a_start_function_takes_and_gives_nothing() {
    let types = vec![
        funky::validation::checks::FuncType::new(vec![], vec![]),
        funky::validation::checks::FuncType::new(vec![ValueType::I32], vec![]),
        funky::validation::checks::FuncType::new(vec![], vec![ValueType::I32]),
        funky::validation::checks::FuncType::new(vec![ValueType::I32], vec![ValueType::I32]),
    ];
    let start = |index: u32| funky::parser::ast::StartSection { index };
    assert_eq!(funky::validation::checks::check_start(&start(0), &types), Ok(true));
    for k in 1..4 {
        assert_eq!(
            funky::validation::checks::check_start(&start(k), &types),
            Err("Function is not a valid start function")
        );
    }
    assert_eq!(funky::validation::checks::check_start(&start(9), &types), Ok(true));
}

#[test]
fn the_last_value_handed_in_under_a_name_is_found() {
    let mut r = ImportResolver::new();
    let first = Variable { mutable: false, val: Value::I32(1) };
    let other = Variable { mutable: true, val: Value::I64(2) };
    let second = Variable { mutable: false, val: Value::I32(3) };
    let m = String::from("env");
    assert!(r.inject_global(m.clone(), String::from("g"), &first).is_ok());
    assert_eq!(Ok(first), r.resolve_global(&m, &String::from("g")));
    assert!(r.inject_global(m.clone(), String::from("h"), &other).is_ok());
    assert_eq!(Ok(first), r.resolve_global(&m, &String::from("g")));
    assert_eq!(Ok(other), r.resolve_global(&m, &String::from("h")));
    assert!(r.inject_global(m.clone(), String::from("g"), &second).is_ok());
    assert_eq!(Ok(second), r.resolve_global(&m, &String::from("g")));
    assert!(r.resolve_global(&String::from("other"), &String::from("g")).is_err());
}
