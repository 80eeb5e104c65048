//! The abstract syntax of a WebAssembly module.

use vstd::prelude::*;

verus! {

/// Index of a function in the module's function index space.
pub type FuncIdx = u32;

/// Index of a table in the module's table index space.
pub type TableIdx = u32;

/// Index of a memory in the module's memory index space.
pub type MemoryIdx = u32;

/// Index of a global in the module's global index space.
pub type GlobalIdx = u32;

/// Index of a label, counted outwards from the innermost block.
pub type LabelIdx = u32;

/// Index of a local of the current frame.
pub type LocalIdx = u32;

/// Address of a function instance in the store.
#[derive(Debug, Clone, Copy, PartialEq, Eq, Structural)]
pub struct FuncAddr(pub usize);

/// Address of a global instance in the store.
#[derive(Debug, Clone, Copy, PartialEq, Eq, Structural)]
pub struct GlobalAddr(pub usize);

/// Address of a table instance in the store.
#[derive(Debug, Clone, Copy, PartialEq, Eq, Structural)]
pub struct TableAddr(pub usize);

/// Address of a memory instance in the store.
#[derive(Debug, Clone, Copy, PartialEq, Eq, Structural)]
pub struct MemoryAddr(pub usize);

impl FuncAddr {
    /// An address with the given value.
    pub fn new(value: usize) -> (a: Self)
        ensures
            a.0 == value,
    {
        FuncAddr(value)
    }

    /// The value of the address.
    pub fn get(&self) -> (v: usize)
        ensures
            v == self.0,
    {
        self.0
    }
}

impl GlobalAddr {
    /// An address with the given value.
    pub fn new(value: usize) -> (a: Self)
        ensures
            a.0 == value,
    {
        GlobalAddr(value)
    }

    /// The value of the address.
    pub fn get(&self) -> (v: usize)
        ensures
            v == self.0,
    {
        self.0
    }
}

impl TableAddr {
    /// An address with the given value.
    pub fn new(value: usize) -> (a: Self)
        ensures
            a.0 == value,
    {
        TableAddr(value)
    }

    /// The value of the address.
    pub fn get(&self) -> (v: usize)
        ensures
            v == self.0,
    {
        self.0
    }
}

impl MemoryAddr {
    /// An address with the given value.
    pub fn new(value: usize) -> (a: Self)
        ensures
            a.0 == value,
    {
        MemoryAddr(value)
    }

    /// The value of the address.
    pub fn get(&self) -> (v: usize)
        ensures
            v == self.0,
    {
        self.0
    }
}

/// An expression: a sequence of instructions.
pub type Expr = Vec<InstructionWrapper>;

/// The signature of a function: the types of its parameters and results.
#[derive(Debug, Clone, PartialEq, Eq)]
pub struct FunctionSignature {
    pub param_types: Vec<ValueType>,
    pub return_types: Vec<ValueType>,
}

impl FunctionSignature {
    /// The signature of a function without parameters and results.
    pub fn empty() -> (s: Self)
        ensures
            s.param_types@.len() == 0,
            s.return_types@.len() == 0,
    {
        FunctionSignature { param_types: Vec::new(), return_types: Vec::new() }
    }
}

/// The four value types of WebAssembly.
#[derive(Debug, Clone, Copy, PartialEq, Eq, Structural)]
pub enum ValueType {
    I32,
    I64,
    F32,
    F64,
}

/// The value type that a byte of the binary format encodes.
pub open spec fn spec_value_type_of_byte(b: u8) -> Option<ValueType> {
    if b == 0x7F {
        Some(ValueType::I32)
    } else if b == 0x7E {
        Some(ValueType::I64)
    } else if b == 0x7D {
        Some(ValueType::F32)
    } else if b == 0x7C {
        Some(ValueType::F64)
    } else {
        None
    }
}

impl ValueType {
    /// Decodes a value type; `None` where the byte encodes none.
    pub fn from_byte(item: u8) -> (t: Option<ValueType>)
        ensures
            t == spec_value_type_of_byte(item),
    {
        if item == 0x7F {
            Some(ValueType::I32)
        } else if item == 0x7E {
            Some(ValueType::I64)
        } else if item == 0x7D {
            Some(ValueType::F32)
        } else if item == 0x7C {
            Some(ValueType::F64)
        } else {
            None
        }
    }
}

/// The type of a block: no result, one value, or a function type by index.
#[derive(Debug, Clone, Copy, PartialEq, Eq, Structural)]
pub enum BlockType {
    Empty,
    ValueType(ValueType),
    /// The signature of the block is a function type of the module.
    FuncTy(i64),
}

/// An import of the module.
#[derive(Debug, Clone, PartialEq)]
pub struct ImportEntry {
    pub module_name: String,
    pub name: String,
    pub desc: ImportDesc,
}

/// What an import brings in.
#[derive(Debug, Clone, PartialEq)]
pub enum ImportDesc {
    Function { ty: FuncIdx },
    Table { ty: TableType },
    Memory { ty: MemoryType },
    Global { ty: GlobalType },
}

/// What an export hands out, with its index.
#[derive(Debug, Clone, Copy, PartialEq, Eq, Structural)]
pub enum ExternalKindType {
    Function { ty: u32 },
    Table { ty: u32 },
    Memory { ty: u32 },
    Global { ty: u32 },
}

/// A section of a module.
#[derive(Debug, Clone, PartialEq)]
pub enum Section {
    Custom(CustomSection),
    Type(TypeSection),
    Import(ImportSection),
    Function(FunctionSection),
    Table(TableSection),
    Memory(MemorySection),
    Global(GlobalSection),
    Export(ExportSection),
    Start(StartSection),
    Element(ElementSection),
    Code(CodeSection),
    Data(DataSection),
    Name(NameSection),
}

#[derive(Debug, Clone, PartialEq)]
pub struct CustomSection {
    pub name: String,
}

#[derive(Debug, Clone, PartialEq)]
pub struct TypeSection {
    pub entries: Vec<FunctionSignature>,
}

#[derive(Debug, Clone, PartialEq)]
pub struct ImportSection {
    pub entries: Vec<ImportEntry>,
}

#[derive(Debug, Clone, PartialEq)]
pub struct FunctionSection {
    pub types: Vec<FuncIdx>,
}

#[derive(Debug, Clone, PartialEq)]
pub struct TableSection {
    pub entries: Vec<TableType>,
}

#[derive(Debug, Clone, PartialEq)]
pub struct MemorySection {
    pub entries: Vec<MemoryType>,
}

#[derive(Debug, Clone, PartialEq)]
pub struct GlobalSection {
    pub globals: Vec<GlobalVariable>,
}

#[derive(Debug, Clone, PartialEq)]
pub struct ExportSection {
    pub entries: Vec<ExportEntry>,
}

#[derive(Debug, Clone, PartialEq)]
pub struct StartSection {
    pub index: u32,
}

#[derive(Debug, Clone, PartialEq)]
pub struct ElementSection {
    pub entries: Vec<ElementSegment>,
}

#[derive(Debug, Clone, PartialEq)]
pub struct CodeSection {
    pub entries: Vec<FunctionBody>,
}

#[derive(Debug, Clone, PartialEq)]
pub struct DataSection {
    pub entries: Vec<DataSegment>,
}

#[derive(Debug, Clone, PartialEq)]
pub struct NameSection {
    pub name_type: u8,
    pub name_payload_len: u32,
    pub name_payload_data: Vec<u8>,
}

/// The type of a table: its element type (always `0x70`) and its limits.
#[derive(Debug, Clone, Copy, PartialEq, Eq, Structural)]
pub struct TableType {
    pub element_type: u8,
    pub limits: Limits,
}

/// The type of a memory: its limits in pages.
#[derive(Debug, Clone, Copy, PartialEq, Eq, Structural)]
pub struct MemoryType {
    pub limits: Limits,
}

/// The type of a global: its value type and whether it is mutable.
#[derive(Debug, Clone, Copy, PartialEq, Eq, Structural)]
pub struct GlobalType {
    pub value_type: ValueType,
    pub mu: Mu,
}

/// Mutability of a global.
#[derive(Debug, Clone, Copy, PartialEq, Eq, Structural)]
pub enum Mu {
    Const,
    Var,
}

/// The mutability that a byte of the binary format encodes.
pub open spec fn spec_mu_of_byte(b: u8) -> Option<Mu> {
    if b == 0x00 {
        Some(Mu::Const)
    } else if b == 0x01 {
        Some(Mu::Var)
    } else {
        None
    }
}

impl Mu {
    /// Decodes a mutability flag; `None` where the byte encodes none.
    pub fn from_byte(item: u8) -> (m: Option<Mu>)
        ensures
            m == spec_mu_of_byte(item),
    {
        if item == 0x00 {
            Some(Mu::Const)
        } else if item == 0x01 {
            Some(Mu::Var)
        } else {
            None
        }
    }
}

/// A global of the module with its initialiser.
#[derive(Debug, Clone, PartialEq)]
pub struct GlobalVariable {
    pub ty: GlobalType,
    pub init: Expr,
}

/// An export of the module.
#[derive(Debug, Clone, PartialEq)]
pub struct ExportEntry {
    pub name: String,
    pub kind: ExternalKindType,
}

/// An element segment: function indices to be written into a table.
#[derive(Debug, Clone, PartialEq)]
pub struct ElementSegment {
    pub table: TableIdx,
    pub offset: Expr,
    pub init: Vec<FuncIdx>,
}

/// A data segment: bytes to be written into a memory.
#[derive(Debug, Clone, PartialEq)]
pub struct DataSegment {
    pub data: MemoryIdx,
    pub offset: Expr,
    pub init: Vec<u8>,
}

/// The body of a function: its declared locals and its code.
#[derive(Debug, Clone, PartialEq)]
pub struct FunctionBody {
    pub locals: Vec<LocalEntry>,
    pub code: Expr,
}

/// `count` locals of the same type. All parameters are locals as well.
#[derive(Debug, Clone, Copy, PartialEq, Eq, Structural)]
pub struct LocalEntry {
    pub count: u32,
    pub ty: ValueType,
}

/// Limits of a table or memory: a minimum and an optional maximum.
#[derive(Debug, Clone, Copy, PartialEq, Eq, Structural)]
pub enum Limits {
    Zero(u32),
    One(u32, u32),
}

/// A counter that hands out fresh ids to code blocks and instructions.
#[derive(Debug, Clone, PartialEq, Eq, Structural)]
pub struct Counter {
    value: usize,
    instruction_id: usize,
}

impl View for Counter {
    /// The last code block id and the last instruction id handed out.
    type V = (nat, nat);

    closed spec fn view(&self) -> (nat, nat) {
        (self.value as nat, self.instruction_id as nat)
    }
}

impl Counter {
    /// A counter that has handed out nothing yet.
    pub fn new() -> (c: Self)
        ensures
            c@ == (0nat, 0nat),
    {
        Counter { value: 0, instruction_id: 0 }
    }

    /// Whether either of the two ids has reached its largest value.
    pub fn is_exhausted(&self) -> (b: bool)
        ensures
            b == (self@.0 >= usize::MAX || self@.1 >= usize::MAX),
    {
        self.value == usize::MAX || self.instruction_id == usize::MAX
    }

    fn inc(&mut self)
        requires
            old(self)@.0 < usize::MAX,
        ensures
            final(self)@ == (old(self)@.0 + 1, old(self)@.1),
    {
        self.value = self.value + 1;
    }

    /// Increases the code block id and returns it.
    pub fn get_value(&mut self) -> (v: usize)
        requires
            old(self)@.0 < usize::MAX,
        ensures
            v == old(self)@.0 + 1,
            final(self)@ == (old(self)@.0 + 1, old(self)@.1),
    {
        self.inc();
        self.value
    }

    fn inc_next_instruction(&mut self)
        requires
            old(self)@.1 < usize::MAX,
        ensures
            final(self)@ == (old(self)@.0, old(self)@.1 + 1),
    {
        self.instruction_id = self.instruction_id + 1;
    }

    /// Increases the instruction id and returns it.
    pub fn get_next_instruction(&mut self) -> (v: usize)
        requires
            old(self)@.1 < usize::MAX,
        ensures
            v == old(self)@.1 + 1,
            final(self)@ == (old(self)@.0, old(self)@.1 + 1),
    {
        self.inc_next_instruction();
        self.instruction_id
    }
}

/// A block of code with its own id.
#[derive(Debug, PartialEq)]
pub struct CodeBlock {
    pub id: usize,
    instructions: Vec<InstructionWrapper>,
}

impl CodeBlock {
    /// The id of the block.
    pub closed spec fn spec_block_id(&self) -> usize {
        self.id
    }

    /// The id of the block.
    pub fn get_block_id(&self) -> (id: usize)
        ensures
            id == self.spec_block_id(),
    {
        self.id
    }

    /// The instructions of the block.
    pub closed spec fn spec_instructions(&self) -> Seq<InstructionWrapper> {
        self.instructions@
    }

    /// A block of `instructions`; the block and each instruction get fresh ids.
    pub fn new(counter: &mut Counter, instructions: Vec<Instruction>) -> (b: Self)
        requires
            old(counter)@.0 < usize::MAX,
            old(counter)@.1 + instructions@.len() <= usize::MAX,
        ensures
            b.spec_block_id() == old(counter)@.0 + 1,
            final(counter)@ == (old(counter)@.0 + 1, old(counter)@.1 + instructions@.len()),
            b.spec_instructions().len() == instructions@.len(),
            forall|k: int|
                0 <= k < instructions@.len() ==> {
                    &&& #[trigger] b.spec_instructions()[k].spec_instruction() == instructions@[k]
                    &&& b.spec_instructions()[k].spec_id() == old(counter)@.1 + k + 1
                },
    {
        let id = counter.get_value();
        let instructions = InstructionWrapper::wrap_instructions(counter, instructions);
        CodeBlock { id, instructions }
    }

    /// Whether the instruction id `target` lies between the smallest and the largest
    /// instruction id of this block.
    pub fn has_instruction(&self, target: usize) -> (b: bool)
        requires
            self.spec_instructions().len() > 0,
        ensures
            b == ((exists|i: int|
                0 <= i < self.spec_instructions().len()
                    && #[trigger] self.spec_instructions()[i].spec_id() <= target) && (exists|j: int|
                0 <= j < self.spec_instructions().len()
                    && target <= #[trigger] self.spec_instructions()[j].spec_id())),
    {
        let mut min: usize = self.instructions[0].instruction_id;
        let mut max: usize = self.instructions[0].instruction_id;
        let mut imin: usize = 0;
        let mut imax: usize = 0;
        let mut k: usize = 1;
        while k < self.instructions.len()
            invariant
                1 <= k <= self.instructions@.len(),
                imin < k,
                imax < k,
                min == self.instructions@[imin as int].instruction_id,
                max == self.instructions@[imax as int].instruction_id,
                forall|l: int|
                    0 <= l < k ==> min <= #[trigger] self.instructions@[l].instruction_id <= max,
            decreases self.instructions@.len() - k,
        {
            let id = self.instructions[k].instruction_id;
            if id < min {
                min = id;
                imin = k;
            }
            if id > max {
                max = id;
                imax = k;
            }
            k = k + 1;
        }
        let r = min <= target && target <= max;
        proof {
            let s = self.spec_instructions();
            assert(s[imin as int].spec_id() == min);
            assert(s[imax as int].spec_id() == max);
            assert forall|i: int| 0 <= i < s.len() implies min <= #[trigger] s[i].spec_id() <= max by {
                assert(self.instructions@[i].instruction_id == s[i].spec_id());
            }
        }
        r
    }

    /// The instructions of the block.
    pub fn get_instructions(&self) -> (s: &[InstructionWrapper])
        ensures
            s@ == self.spec_instructions(),
    {
        self.instructions.as_slice()
    }
}

/// An instruction together with its id.
#[derive(Debug, PartialEq)]
pub struct InstructionWrapper {
    instruction_id: usize,
    instruction: Instruction,
}

impl InstructionWrapper {
    /// The id of the instruction.
    pub closed spec fn spec_id(&self) -> nat {
        self.instruction_id as nat
    }

    /// The wrapped instruction.
    pub closed spec fn spec_instruction(&self) -> Instruction {
        self.instruction
    }

    /// Wraps `instruction` with a fresh id.
    pub fn wrap(counter: &mut Counter, instruction: Instruction) -> (w: Self)
        requires
            old(counter)@.1 < usize::MAX,
        ensures
            w.spec_id() == old(counter)@.1 + 1,
            w.spec_instruction() == instruction,
            final(counter)@ == (old(counter)@.0, old(counter)@.1 + 1),
    {
        InstructionWrapper { instruction_id: counter.get_next_instruction(), instruction }
    }

    /// Wraps each of `instructions` with a fresh id, in order.
    pub fn wrap_instructions(counter: &mut Counter, instructions: Vec<Instruction>) -> (v: Vec<Self>)
        requires
            old(counter)@.1 + instructions@.len() <= usize::MAX,
        ensures
            v@.len() == instructions@.len(),
            final(counter)@ == (old(counter)@.0, old(counter)@.1 + instructions@.len()),
            forall|k: int|
                0 <= k < instructions@.len() ==> {
                    &&& #[trigger] v@[k].spec_instruction() == instructions@[k]
                    &&& v@[k].spec_id() == old(counter)@.1 + k + 1
                },
    {
        let mut out: Vec<Self> = Vec::new();
        let mut rest = instructions;
        let ghost all = rest@;
        while rest.len() > 0
            invariant
                out@.len() + rest@.len() == all.len(),
                rest@ =~= all.subrange(out@.len() as int, all.len() as int),
                counter@ == (old(counter)@.0, old(counter)@.1 + out@.len()),
                old(counter)@.1 + all.len() <= usize::MAX,
                forall|k: int|
                    0 <= k < out@.len() ==> {
                        &&& #[trigger] out@[k].spec_instruction() == all[k]
                        &&& out@[k].spec_id() == old(counter)@.1 + k + 1
                    },
            decreases rest@.len(),
        {
            let i = rest.remove(0);
            proof {
                assert(i == all[out@.len() as int]);
                assert(rest@ =~= all.subrange((out@.len() + 1) as int, all.len() as int));
            }
            let w = InstructionWrapper::wrap(counter, i);
            out.push(w);
        }
        out
    }

    /// The wrapped instruction.
    pub fn get_instruction(&self) -> (i: &Instruction)
        ensures
            *i == self.spec_instruction(),
    {
        &self.instruction
    }

    /// The id of the instruction.
    pub fn get_id(&self) -> (id: usize)
        ensures
            id == self.spec_id(),
    {
        self.instruction_id
    }
}

/// The instructions of WebAssembly. Float constants hold their IEEE 754 bits.
#[derive(Debug, PartialEq)]
#[allow(non_camel_case_types)]
pub enum Instruction {
    OP_UNREACHABLE,
    OP_NOP,
    OP_BLOCK(BlockType, CodeBlock),
    OP_LOOP(BlockType, CodeBlock),
    OP_IF(BlockType, CodeBlock),
    OP_IF_AND_ELSE(BlockType, CodeBlock, CodeBlock),
    OP_BR(LabelIdx),
    OP_BR_IF(LabelIdx),
    OP_BR_TABLE(Vec<LabelIdx>, LabelIdx),
    OP_RETURN,
    OP_CALL(FuncIdx),
    OP_CALL_INDIRECT(FuncIdx),
    OP_DROP,
    OP_SELECT,
    OP_LOCAL_GET(LocalIdx),
    OP_LOCAL_SET(LocalIdx),
    OP_LOCAL_TEE(LocalIdx),
    OP_GLOBAL_GET(LocalIdx),
    OP_GLOBAL_SET(LocalIdx),
    OP_I32_LOAD(MemArg),
    OP_I64_LOAD(MemArg),
    OP_F32_LOAD(MemArg),
    OP_F64_LOAD(MemArg),
    OP_I32_LOAD_8_s(MemArg),
    OP_I32_LOAD_8_u(MemArg),
    OP_I32_LOAD_16_s(MemArg),
    OP_I32_LOAD_16_u(MemArg),
    OP_I64_LOAD_8_s(MemArg),
    OP_I64_LOAD_8_u(MemArg),
    OP_I64_LOAD_16_s(MemArg),
    OP_I64_LOAD_16_u(MemArg),
    OP_I64_LOAD_32_u(MemArg),
    OP_I64_LOAD_32_s(MemArg),
    OP_I32_STORE(MemArg),
    OP_I64_STORE(MemArg),
    OP_F32_STORE(MemArg),
    OP_F64_STORE(MemArg),
    OP_I32_STORE_8(MemArg),
    OP_I32_STORE_16(MemArg),
    OP_I64_STORE_8(MemArg),
    OP_I64_STORE_16(MemArg),
    OP_I64_STORE_32(MemArg),
    OP_MEMORY_SIZE,
    OP_MEMORY_GROW,
    OP_I32_CONST(i32),
    OP_I64_CONST(i64),
    OP_F32_CONST(u32),
    OP_F64_CONST(u64),
    OP_I32_EQZ,
    OP_I32_EQ,
    OP_I32_NE,
    OP_I32_LT_S,
    OP_I32_LT_U,
    OP_I32_GT_S,
    OP_I32_GT_U,
    OP_I32_LE_S,
    OP_I32_LE_U,
    OP_I32_GE_S,
    OP_I32_GE_U,
    OP_I64_EQZ,
    OP_I64_EQ,
    OP_I64_NE,
    OP_I64_LT_S,
    OP_I64_LT_U,
    OP_I64_GT_S,
    OP_I64_GT_U,
    OP_I64_LE_S,
    OP_I64_LE_U,
    OP_I64_GE_S,
    OP_I64_GE_U,
    OP_F32_EQ,
    OP_F32_NE,
    OP_F32_LT,
    OP_F32_GT,
    OP_F32_LE,
    OP_F32_GE,
    OP_F64_EQ,
    OP_F64_NE,
    OP_F64_LT,
    OP_F64_GT,
    OP_F64_LE,
    OP_F64_GE,
    OP_I32_CLZ,
    OP_I32_CTZ,
    OP_I32_POPCNT,
    OP_I32_ADD,
    OP_I32_SUB,
    OP_I32_MUL,
    OP_I32_DIV_S,
    OP_I32_DIV_U,
    OP_I32_REM_S,
    OP_I32_REM_U,
    OP_I32_AND,
    OP_I32_OR,
    OP_I32_XOR,
    OP_I32_SHL,
    OP_I32_SHR_S,
    OP_I32_SHR_U,
    OP_I32_ROTL,
    OP_I32_ROTR,
    OP_I64_CLZ,
    OP_I64_CTZ,
    OP_I64_POPCNT,
    OP_I64_ADD,
    OP_I64_SUB,
    OP_I64_MUL,
    OP_I64_DIV_S,
    OP_I64_DIV_U,
    OP_I64_REM_S,
    OP_I64_REM_U,
    OP_I64_AND,
    OP_I64_OR,
    OP_I64_XOR,
    OP_I64_SHL,
    OP_I64_SHR_S,
    OP_I64_SHR_U,
    OP_I64_ROTL,
    OP_I64_ROTR,
    OP_F32_ABS,
    OP_F32_NEG,
    OP_F32_CEIL,
    OP_F32_FLOOR,
    OP_F32_TRUNC,
    OP_F32_NEAREST,
    OP_F32_SQRT,
    OP_F32_ADD,
    OP_F32_SUB,
    OP_F32_MUL,
    OP_F32_DIV,
    OP_F32_MIN,
    OP_F32_MAX,
    OP_F32_COPYSIGN,
    OP_F64_ABS,
    OP_F64_NEG,
    OP_F64_CEIL,
    OP_F64_FLOOR,
    OP_F64_TRUNC,
    OP_F64_NEAREST,
    OP_F64_SQRT,
    OP_F64_ADD,
    OP_F64_SUB,
    OP_F64_MUL,
    OP_F64_DIV,
    OP_F64_MIN,
    OP_F64_MAX,
    OP_F64_COPYSIGN,
    OP_I32_WRAP_I64,
    OP_I32_TRUNC_F32_S,
    OP_I32_TRUNC_F32_U,
    OP_I32_TRUNC_F64_S,
    OP_I32_TRUNC_F64_U,
    OP_I64_EXTEND_I32_U,
    OP_I64_EXTEND_I32_S,
    OP_I64_TRUNC_F32_S,
    OP_I64_TRUNC_F32_U,
    OP_I64_TRUNC_F64_S,
    OP_I64_TRUNC_F64_U,
    OP_F32_CONVERT_I32_S,
    OP_F32_CONVERT_I32_U,
    OP_F32_CONVERT_I64_S,
    OP_F32_CONVERT_I64_U,
    OP_F32_DEMOTE_F64,
    OP_F64_CONVERT_I32_S,
    OP_F64_CONVERT_I32_U,
    OP_F64_CONVERT_I64_S,
    OP_F64_CONVERT_I64_U,
    OP_F64_PROMOTE_F32,
    OP_I32_REINTERPRET_F32,
    OP_I64_REINTERPRET_F64,
    OP_F32_REINTERPRET_I32,
    OP_F64_REINTERPRET_I64,
    OP_I32_EXTEND8_S,
    OP_I32_EXTEND16_S,
    OP_I64_EXTEND8_S,
    OP_I64_EXTEND16_S,
    OP_I64_EXTEND32_S,
    OP_I32_TRUNC_SAT_F32_S,
    OP_I32_TRUNC_SAT_F32_U,
    OP_I32_TRUNC_SAT_F64_S,
    OP_I32_TRUNC_SAT_F64_U,
    OP_I64_TRUNC_SAT_F32_S,
    OP_I64_TRUNC_SAT_F32_U,
    OP_I64_TRUNC_SAT_F64_S,
    OP_I64_TRUNC_SAT_F64_U,
}

/// The memory argument of loads and stores.
#[derive(Debug, Clone, Copy, PartialEq, Eq, Structural)]
pub struct MemArg {
    pub align: u32,
    pub offset: u32,
}

/// The instruction that an opcode without immediates encodes.
pub open spec fn spec_plain_instruction(op: u8) -> Option<Instruction> {
    match op {
        0x00 => Some(Instruction::OP_UNREACHABLE),
        0x01 => Some(Instruction::OP_NOP),
        0x0F => Some(Instruction::OP_RETURN),
        0x1A => Some(Instruction::OP_DROP),
        0x1B => Some(Instruction::OP_SELECT),
        0x45 => Some(Instruction::OP_I32_EQZ),
        0x46 => Some(Instruction::OP_I32_EQ),
        0x47 => Some(Instruction::OP_I32_NE),
        0x48 => Some(Instruction::OP_I32_LT_S),
        0x49 => Some(Instruction::OP_I32_LT_U),
        0x4a => Some(Instruction::OP_I32_GT_S),
        0x4b => Some(Instruction::OP_I32_GT_U),
        0x4c => Some(Instruction::OP_I32_LE_S),
        0x4d => Some(Instruction::OP_I32_LE_U),
        0x4e => Some(Instruction::OP_I32_GE_S),
        0x4f => Some(Instruction::OP_I32_GE_U),
        0x50 => Some(Instruction::OP_I64_EQZ),
        0x51 => Some(Instruction::OP_I64_EQ),
        0x52 => Some(Instruction::OP_I64_NE),
        0x53 => Some(Instruction::OP_I64_LT_S),
        0x54 => Some(Instruction::OP_I64_LT_U),
        0x55 => Some(Instruction::OP_I64_GT_S),
        0x56 => Some(Instruction::OP_I64_GT_U),
        0x57 => Some(Instruction::OP_I64_LE_S),
        0x58 => Some(Instruction::OP_I64_LE_U),
        0x59 => Some(Instruction::OP_I64_GE_S),
        0x5a => Some(Instruction::OP_I64_GE_U),
        0x5b => Some(Instruction::OP_F32_EQ),
        0x5c => Some(Instruction::OP_F32_NE),
        0x5d => Some(Instruction::OP_F32_LT),
        0x5e => Some(Instruction::OP_F32_GT),
        0x5f => Some(Instruction::OP_F32_LE),
        0x60 => Some(Instruction::OP_F32_GE),
        0x61 => Some(Instruction::OP_F64_EQ),
        0x62 => Some(Instruction::OP_F64_NE),
        0x63 => Some(Instruction::OP_F64_LT),
        0x64 => Some(Instruction::OP_F64_GT),
        0x65 => Some(Instruction::OP_F64_LE),
        0x66 => Some(Instruction::OP_F64_GE),
        0x67 => Some(Instruction::OP_I32_CLZ),
        0x68 => Some(Instruction::OP_I32_CTZ),
        0x69 => Some(Instruction::OP_I32_POPCNT),
        0x6a => Some(Instruction::OP_I32_ADD),
        0x6b => Some(Instruction::OP_I32_SUB),
        0x6c => Some(Instruction::OP_I32_MUL),
        0x6d => Some(Instruction::OP_I32_DIV_S),
        0x6e => Some(Instruction::OP_I32_DIV_U),
        0x6f => Some(Instruction::OP_I32_REM_S),
        0x70 => Some(Instruction::OP_I32_REM_U),
        0x71 => Some(Instruction::OP_I32_AND),
        0x72 => Some(Instruction::OP_I32_OR),
        0x73 => Some(Instruction::OP_I32_XOR),
        0x74 => Some(Instruction::OP_I32_SHL),
        0x75 => Some(Instruction::OP_I32_SHR_S),
        0x76 => Some(Instruction::OP_I32_SHR_U),
        0x77 => Some(Instruction::OP_I32_ROTL),
        0x78 => Some(Instruction::OP_I32_ROTR),
        0x79 => Some(Instruction::OP_I64_CLZ),
        0x7a => Some(Instruction::OP_I64_CTZ),
        0x7b => Some(Instruction::OP_I64_POPCNT),
        0x7c => Some(Instruction::OP_I64_ADD),
        0x7d => Some(Instruction::OP_I64_SUB),
        0x7e => Some(Instruction::OP_I64_MUL),
        0x7f => Some(Instruction::OP_I64_DIV_S),
        0x80 => Some(Instruction::OP_I64_DIV_U),
        0x81 => Some(Instruction::OP_I64_REM_S),
        0x82 => Some(Instruction::OP_I64_REM_U),
        0x83 => Some(Instruction::OP_I64_AND),
        0x84 => Some(Instruction::OP_I64_OR),
        0x85 => Some(Instruction::OP_I64_XOR),
        0x86 => Some(Instruction::OP_I64_SHL),
        0x87 => Some(Instruction::OP_I64_SHR_S),
        0x88 => Some(Instruction::OP_I64_SHR_U),
        0x89 => Some(Instruction::OP_I64_ROTL),
        0x8a => Some(Instruction::OP_I64_ROTR),
        0x8b => Some(Instruction::OP_F32_ABS),
        0x8c => Some(Instruction::OP_F32_NEG),
        0x8d => Some(Instruction::OP_F32_CEIL),
        0x8e => Some(Instruction::OP_F32_FLOOR),
        0x8f => Some(Instruction::OP_F32_TRUNC),
        0x90 => Some(Instruction::OP_F32_NEAREST),
        0x91 => Some(Instruction::OP_F32_SQRT),
        0x92 => Some(Instruction::OP_F32_ADD),
        0x93 => Some(Instruction::OP_F32_SUB),
        0x94 => Some(Instruction::OP_F32_MUL),
        0x95 => Some(Instruction::OP_F32_DIV),
        0x96 => Some(Instruction::OP_F32_MIN),
        0x97 => Some(Instruction::OP_F32_MAX),
        0x98 => Some(Instruction::OP_F32_COPYSIGN),
        0x99 => Some(Instruction::OP_F64_ABS),
        0x9a => Some(Instruction::OP_F64_NEG),
        0x9b => Some(Instruction::OP_F64_CEIL),
        0x9c => Some(Instruction::OP_F64_FLOOR),
        0x9d => Some(Instruction::OP_F64_TRUNC),
        0x9e => Some(Instruction::OP_F64_NEAREST),
        0x9f => Some(Instruction::OP_F64_SQRT),
        0xa0 => Some(Instruction::OP_F64_ADD),
        0xa1 => Some(Instruction::OP_F64_SUB),
        0xa2 => Some(Instruction::OP_F64_MUL),
        0xa3 => Some(Instruction::OP_F64_DIV),
        0xa4 => Some(Instruction::OP_F64_MIN),
        0xa5 => Some(Instruction::OP_F64_MAX),
        0xa6 => Some(Instruction::OP_F64_COPYSIGN),
        0xa7 => Some(Instruction::OP_I32_WRAP_I64),
        0xa8 => Some(Instruction::OP_I32_TRUNC_F32_S),
        0xa9 => Some(Instruction::OP_I32_TRUNC_F32_U),
        0xaa => Some(Instruction::OP_I32_TRUNC_F64_S),
        0xab => Some(Instruction::OP_I32_TRUNC_F64_U),
        0xac => Some(Instruction::OP_I64_EXTEND_I32_S),
        0xad => Some(Instruction::OP_I64_EXTEND_I32_U),
        0xae => Some(Instruction::OP_I64_TRUNC_F32_S),
        0xaf => Some(Instruction::OP_I64_TRUNC_F32_U),
        0xb0 => Some(Instruction::OP_I64_TRUNC_F64_S),
        0xb1 => Some(Instruction::OP_I64_TRUNC_F64_U),
        0xb2 => Some(Instruction::OP_F32_CONVERT_I32_S),
        0xb3 => Some(Instruction::OP_F32_CONVERT_I32_U),
        0xb4 => Some(Instruction::OP_F32_CONVERT_I64_S),
        0xb5 => Some(Instruction::OP_F32_CONVERT_I64_U),
        0xb6 => Some(Instruction::OP_F32_DEMOTE_F64),
        0xb7 => Some(Instruction::OP_F64_CONVERT_I32_S),
        0xb8 => Some(Instruction::OP_F64_CONVERT_I32_U),
        0xb9 => Some(Instruction::OP_F64_CONVERT_I64_S),
        0xba => Some(Instruction::OP_F64_CONVERT_I64_U),
        0xbb => Some(Instruction::OP_F64_PROMOTE_F32),
        0xbc => Some(Instruction::OP_I32_REINTERPRET_F32),
        0xbd => Some(Instruction::OP_I64_REINTERPRET_F64),
        0xbe => Some(Instruction::OP_F32_REINTERPRET_I32),
        0xbf => Some(Instruction::OP_F64_REINTERPRET_I64),
        0xc0 => Some(Instruction::OP_I32_EXTEND8_S),
        0xc1 => Some(Instruction::OP_I32_EXTEND16_S),
        0xc2 => Some(Instruction::OP_I64_EXTEND8_S),
        0xc3 => Some(Instruction::OP_I64_EXTEND16_S),
        0xc4 => Some(Instruction::OP_I64_EXTEND32_S),
        _ => None,
    }
}

/// The opcode byte of an instruction without immediates, as the table of the
/// binary format gives it; `None` for an instruction with immediates.
pub open spec fn plain_opcode(ins: Instruction) -> Option<u8> {
    match ins {
        Instruction::OP_UNREACHABLE => Some(0x00u8),
        Instruction::OP_NOP => Some(0x01u8),
        Instruction::OP_RETURN => Some(0x0Fu8),
        Instruction::OP_DROP => Some(0x1Au8),
        Instruction::OP_SELECT => Some(0x1Bu8),
        Instruction::OP_I32_EQZ => Some(0x45u8),
        Instruction::OP_I32_EQ => Some(0x46u8),
        Instruction::OP_I32_NE => Some(0x47u8),
        Instruction::OP_I32_LT_S => Some(0x48u8),
        Instruction::OP_I32_LT_U => Some(0x49u8),
        Instruction::OP_I32_GT_S => Some(0x4au8),
        Instruction::OP_I32_GT_U => Some(0x4bu8),
        Instruction::OP_I32_LE_S => Some(0x4cu8),
        Instruction::OP_I32_LE_U => Some(0x4du8),
        Instruction::OP_I32_GE_S => Some(0x4eu8),
        Instruction::OP_I32_GE_U => Some(0x4fu8),
        Instruction::OP_I64_EQZ => Some(0x50u8),
        Instruction::OP_I64_EQ => Some(0x51u8),
        Instruction::OP_I64_NE => Some(0x52u8),
        Instruction::OP_I64_LT_S => Some(0x53u8),
        Instruction::OP_I64_LT_U => Some(0x54u8),
        Instruction::OP_I64_GT_S => Some(0x55u8),
        Instruction::OP_I64_GT_U => Some(0x56u8),
        Instruction::OP_I64_LE_S => Some(0x57u8),
        Instruction::OP_I64_LE_U => Some(0x58u8),
        Instruction::OP_I64_GE_S => Some(0x59u8),
        Instruction::OP_I64_GE_U => Some(0x5au8),
        Instruction::OP_F32_EQ => Some(0x5bu8),
        Instruction::OP_F32_NE => Some(0x5cu8),
        Instruction::OP_F32_LT => Some(0x5du8),
        Instruction::OP_F32_GT => Some(0x5eu8),
        Instruction::OP_F32_LE => Some(0x5fu8),
        Instruction::OP_F32_GE => Some(0x60u8),
        Instruction::OP_F64_EQ => Some(0x61u8),
        Instruction::OP_F64_NE => Some(0x62u8),
        Instruction::OP_F64_LT => Some(0x63u8),
        Instruction::OP_F64_GT => Some(0x64u8),
        Instruction::OP_F64_LE => Some(0x65u8),
        Instruction::OP_F64_GE => Some(0x66u8),
        Instruction::OP_I32_CLZ => Some(0x67u8),
        Instruction::OP_I32_CTZ => Some(0x68u8),
        Instruction::OP_I32_POPCNT => Some(0x69u8),
        Instruction::OP_I32_ADD => Some(0x6au8),
        Instruction::OP_I32_SUB => Some(0x6bu8),
        Instruction::OP_I32_MUL => Some(0x6cu8),
        Instruction::OP_I32_DIV_S => Some(0x6du8),
        Instruction::OP_I32_DIV_U => Some(0x6eu8),
        Instruction::OP_I32_REM_S => Some(0x6fu8),
        Instruction::OP_I32_REM_U => Some(0x70u8),
        Instruction::OP_I32_AND => Some(0x71u8),
        Instruction::OP_I32_OR => Some(0x72u8),
        Instruction::OP_I32_XOR => Some(0x73u8),
        Instruction::OP_I32_SHL => Some(0x74u8),
        Instruction::OP_I32_SHR_S => Some(0x75u8),
        Instruction::OP_I32_SHR_U => Some(0x76u8),
        Instruction::OP_I32_ROTL => Some(0x77u8),
        Instruction::OP_I32_ROTR => Some(0x78u8),
        Instruction::OP_I64_CLZ => Some(0x79u8),
        Instruction::OP_I64_CTZ => Some(0x7au8),
        Instruction::OP_I64_POPCNT => Some(0x7bu8),
        Instruction::OP_I64_ADD => Some(0x7cu8),
        Instruction::OP_I64_SUB => Some(0x7du8),
        Instruction::OP_I64_MUL => Some(0x7eu8),
        Instruction::OP_I64_DIV_S => Some(0x7fu8),
        Instruction::OP_I64_DIV_U => Some(0x80u8),
        Instruction::OP_I64_REM_S => Some(0x81u8),
        Instruction::OP_I64_REM_U => Some(0x82u8),
        Instruction::OP_I64_AND => Some(0x83u8),
        Instruction::OP_I64_OR => Some(0x84u8),
        Instruction::OP_I64_XOR => Some(0x85u8),
        Instruction::OP_I64_SHL => Some(0x86u8),
        Instruction::OP_I64_SHR_S => Some(0x87u8),
        Instruction::OP_I64_SHR_U => Some(0x88u8),
        Instruction::OP_I64_ROTL => Some(0x89u8),
        Instruction::OP_I64_ROTR => Some(0x8au8),
        Instruction::OP_F32_ABS => Some(0x8bu8),
        Instruction::OP_F32_NEG => Some(0x8cu8),
        Instruction::OP_F32_CEIL => Some(0x8du8),
        Instruction::OP_F32_FLOOR => Some(0x8eu8),
        Instruction::OP_F32_TRUNC => Some(0x8fu8),
        Instruction::OP_F32_NEAREST => Some(0x90u8),
        Instruction::OP_F32_SQRT => Some(0x91u8),
        Instruction::OP_F32_ADD => Some(0x92u8),
        Instruction::OP_F32_SUB => Some(0x93u8),
        Instruction::OP_F32_MUL => Some(0x94u8),
        Instruction::OP_F32_DIV => Some(0x95u8),
        Instruction::OP_F32_MIN => Some(0x96u8),
        Instruction::OP_F32_MAX => Some(0x97u8),
        Instruction::OP_F32_COPYSIGN => Some(0x98u8),
        Instruction::OP_F64_ABS => Some(0x99u8),
        Instruction::OP_F64_NEG => Some(0x9au8),
        Instruction::OP_F64_CEIL => Some(0x9bu8),
        Instruction::OP_F64_FLOOR => Some(0x9cu8),
        Instruction::OP_F64_TRUNC => Some(0x9du8),
        Instruction::OP_F64_NEAREST => Some(0x9eu8),
        Instruction::OP_F64_SQRT => Some(0x9fu8),
        Instruction::OP_F64_ADD => Some(0xa0u8),
        Instruction::OP_F64_SUB => Some(0xa1u8),
        Instruction::OP_F64_MUL => Some(0xa2u8),
        Instruction::OP_F64_DIV => Some(0xa3u8),
        Instruction::OP_F64_MIN => Some(0xa4u8),
        Instruction::OP_F64_MAX => Some(0xa5u8),
        Instruction::OP_F64_COPYSIGN => Some(0xa6u8),
        Instruction::OP_I32_WRAP_I64 => Some(0xa7u8),
        Instruction::OP_I32_TRUNC_F32_S => Some(0xa8u8),
        Instruction::OP_I32_TRUNC_F32_U => Some(0xa9u8),
        Instruction::OP_I32_TRUNC_F64_S => Some(0xaau8),
        Instruction::OP_I32_TRUNC_F64_U => Some(0xabu8),
        Instruction::OP_I64_EXTEND_I32_S => Some(0xacu8),
        Instruction::OP_I64_EXTEND_I32_U => Some(0xadu8),
        Instruction::OP_I64_TRUNC_F32_S => Some(0xaeu8),
        Instruction::OP_I64_TRUNC_F32_U => Some(0xafu8),
        Instruction::OP_I64_TRUNC_F64_S => Some(0xb0u8),
        Instruction::OP_I64_TRUNC_F64_U => Some(0xb1u8),
        Instruction::OP_F32_CONVERT_I32_S => Some(0xb2u8),
        Instruction::OP_F32_CONVERT_I32_U => Some(0xb3u8),
        Instruction::OP_F32_CONVERT_I64_S => Some(0xb4u8),
        Instruction::OP_F32_CONVERT_I64_U => Some(0xb5u8),
        Instruction::OP_F32_DEMOTE_F64 => Some(0xb6u8),
        Instruction::OP_F64_CONVERT_I32_S => Some(0xb7u8),
        Instruction::OP_F64_CONVERT_I32_U => Some(0xb8u8),
        Instruction::OP_F64_CONVERT_I64_S => Some(0xb9u8),
        Instruction::OP_F64_CONVERT_I64_U => Some(0xbau8),
        Instruction::OP_F64_PROMOTE_F32 => Some(0xbbu8),
        Instruction::OP_I32_REINTERPRET_F32 => Some(0xbcu8),
        Instruction::OP_I64_REINTERPRET_F64 => Some(0xbdu8),
        Instruction::OP_F32_REINTERPRET_I32 => Some(0xbeu8),
        Instruction::OP_F64_REINTERPRET_I64 => Some(0xbfu8),
        Instruction::OP_I32_EXTEND8_S => Some(0xc0u8),
        Instruction::OP_I32_EXTEND16_S => Some(0xc1u8),
        Instruction::OP_I64_EXTEND8_S => Some(0xc2u8),
        Instruction::OP_I64_EXTEND16_S => Some(0xc3u8),
        Instruction::OP_I64_EXTEND32_S => Some(0xc4u8),
        _ => None,
    }
}

/// Decoding an opcode without immediates and encoding the instruction gives
/// the byte back, and encoding an instruction without immediates and decoding
/// the byte gives the instruction back.
pub proof fn lemma_plain_opcode_round_trip(op: u8, ins: Instruction)
    ensures
        spec_plain_instruction(op) == Some(ins) ==> plain_opcode(ins) == Some(op),
        plain_opcode(ins) == Some(op) ==> spec_plain_instruction(op) == Some(ins),
{
}

/// No two bytes decode to the same instruction.
pub proof fn lemma_plain_decoding_injective(a: u8, b: u8)
    requires
        spec_plain_instruction(a) is Some,
        spec_plain_instruction(a) == spec_plain_instruction(b),
    ensures
        a == b,
{
    lemma_plain_opcode_round_trip(a, spec_plain_instruction(a).unwrap());
    lemma_plain_opcode_round_trip(b, spec_plain_instruction(b).unwrap());
}

/// Decodes an opcode without immediates; `None` for any other byte.
pub fn plain_instruction(op: u8) -> (i: Option<Instruction>)
    ensures
        i == spec_plain_instruction(op),
{
    match op {
        0x00 => Some(Instruction::OP_UNREACHABLE),
        0x01 => Some(Instruction::OP_NOP),
        0x0F => Some(Instruction::OP_RETURN),
        0x1A => Some(Instruction::OP_DROP),
        0x1B => Some(Instruction::OP_SELECT),
        0x45 => Some(Instruction::OP_I32_EQZ),
        0x46 => Some(Instruction::OP_I32_EQ),
        0x47 => Some(Instruction::OP_I32_NE),
        0x48 => Some(Instruction::OP_I32_LT_S),
        0x49 => Some(Instruction::OP_I32_LT_U),
        0x4a => Some(Instruction::OP_I32_GT_S),
        0x4b => Some(Instruction::OP_I32_GT_U),
        0x4c => Some(Instruction::OP_I32_LE_S),
        0x4d => Some(Instruction::OP_I32_LE_U),
        0x4e => Some(Instruction::OP_I32_GE_S),
        0x4f => Some(Instruction::OP_I32_GE_U),
        0x50 => Some(Instruction::OP_I64_EQZ),
        0x51 => Some(Instruction::OP_I64_EQ),
        0x52 => Some(Instruction::OP_I64_NE),
        0x53 => Some(Instruction::OP_I64_LT_S),
        0x54 => Some(Instruction::OP_I64_LT_U),
        0x55 => Some(Instruction::OP_I64_GT_S),
        0x56 => Some(Instruction::OP_I64_GT_U),
        0x57 => Some(Instruction::OP_I64_LE_S),
        0x58 => Some(Instruction::OP_I64_LE_U),
        0x59 => Some(Instruction::OP_I64_GE_S),
        0x5a => Some(Instruction::OP_I64_GE_U),
        0x5b => Some(Instruction::OP_F32_EQ),
        0x5c => Some(Instruction::OP_F32_NE),
        0x5d => Some(Instruction::OP_F32_LT),
        0x5e => Some(Instruction::OP_F32_GT),
        0x5f => Some(Instruction::OP_F32_LE),
        0x60 => Some(Instruction::OP_F32_GE),
        0x61 => Some(Instruction::OP_F64_EQ),
        0x62 => Some(Instruction::OP_F64_NE),
        0x63 => Some(Instruction::OP_F64_LT),
        0x64 => Some(Instruction::OP_F64_GT),
        0x65 => Some(Instruction::OP_F64_LE),
        0x66 => Some(Instruction::OP_F64_GE),
        0x67 => Some(Instruction::OP_I32_CLZ),
        0x68 => Some(Instruction::OP_I32_CTZ),
        0x69 => Some(Instruction::OP_I32_POPCNT),
        0x6a => Some(Instruction::OP_I32_ADD),
        0x6b => Some(Instruction::OP_I32_SUB),
        0x6c => Some(Instruction::OP_I32_MUL),
        0x6d => Some(Instruction::OP_I32_DIV_S),
        0x6e => Some(Instruction::OP_I32_DIV_U),
        0x6f => Some(Instruction::OP_I32_REM_S),
        0x70 => Some(Instruction::OP_I32_REM_U),
        0x71 => Some(Instruction::OP_I32_AND),
        0x72 => Some(Instruction::OP_I32_OR),
        0x73 => Some(Instruction::OP_I32_XOR),
        0x74 => Some(Instruction::OP_I32_SHL),
        0x75 => Some(Instruction::OP_I32_SHR_S),
        0x76 => Some(Instruction::OP_I32_SHR_U),
        0x77 => Some(Instruction::OP_I32_ROTL),
        0x78 => Some(Instruction::OP_I32_ROTR),
        0x79 => Some(Instruction::OP_I64_CLZ),
        0x7a => Some(Instruction::OP_I64_CTZ),
        0x7b => Some(Instruction::OP_I64_POPCNT),
        0x7c => Some(Instruction::OP_I64_ADD),
        0x7d => Some(Instruction::OP_I64_SUB),
        0x7e => Some(Instruction::OP_I64_MUL),
        0x7f => Some(Instruction::OP_I64_DIV_S),
        0x80 => Some(Instruction::OP_I64_DIV_U),
        0x81 => Some(Instruction::OP_I64_REM_S),
        0x82 => Some(Instruction::OP_I64_REM_U),
        0x83 => Some(Instruction::OP_I64_AND),
        0x84 => Some(Instruction::OP_I64_OR),
        0x85 => Some(Instruction::OP_I64_XOR),
        0x86 => Some(Instruction::OP_I64_SHL),
        0x87 => Some(Instruction::OP_I64_SHR_S),
        0x88 => Some(Instruction::OP_I64_SHR_U),
        0x89 => Some(Instruction::OP_I64_ROTL),
        0x8a => Some(Instruction::OP_I64_ROTR),
        0x8b => Some(Instruction::OP_F32_ABS),
        0x8c => Some(Instruction::OP_F32_NEG),
        0x8d => Some(Instruction::OP_F32_CEIL),
        0x8e => Some(Instruction::OP_F32_FLOOR),
        0x8f => Some(Instruction::OP_F32_TRUNC),
        0x90 => Some(Instruction::OP_F32_NEAREST),
        0x91 => Some(Instruction::OP_F32_SQRT),
        0x92 => Some(Instruction::OP_F32_ADD),
        0x93 => Some(Instruction::OP_F32_SUB),
        0x94 => Some(Instruction::OP_F32_MUL),
        0x95 => Some(Instruction::OP_F32_DIV),
        0x96 => Some(Instruction::OP_F32_MIN),
        0x97 => Some(Instruction::OP_F32_MAX),
        0x98 => Some(Instruction::OP_F32_COPYSIGN),
        0x99 => Some(Instruction::OP_F64_ABS),
        0x9a => Some(Instruction::OP_F64_NEG),
        0x9b => Some(Instruction::OP_F64_CEIL),
        0x9c => Some(Instruction::OP_F64_FLOOR),
        0x9d => Some(Instruction::OP_F64_TRUNC),
        0x9e => Some(Instruction::OP_F64_NEAREST),
        0x9f => Some(Instruction::OP_F64_SQRT),
        0xa0 => Some(Instruction::OP_F64_ADD),
        0xa1 => Some(Instruction::OP_F64_SUB),
        0xa2 => Some(Instruction::OP_F64_MUL),
        0xa3 => Some(Instruction::OP_F64_DIV),
        0xa4 => Some(Instruction::OP_F64_MIN),
        0xa5 => Some(Instruction::OP_F64_MAX),
        0xa6 => Some(Instruction::OP_F64_COPYSIGN),
        0xa7 => Some(Instruction::OP_I32_WRAP_I64),
        0xa8 => Some(Instruction::OP_I32_TRUNC_F32_S),
        0xa9 => Some(Instruction::OP_I32_TRUNC_F32_U),
        0xaa => Some(Instruction::OP_I32_TRUNC_F64_S),
        0xab => Some(Instruction::OP_I32_TRUNC_F64_U),
        0xac => Some(Instruction::OP_I64_EXTEND_I32_S),
        0xad => Some(Instruction::OP_I64_EXTEND_I32_U),
        0xae => Some(Instruction::OP_I64_TRUNC_F32_S),
        0xaf => Some(Instruction::OP_I64_TRUNC_F32_U),
        0xb0 => Some(Instruction::OP_I64_TRUNC_F64_S),
        0xb1 => Some(Instruction::OP_I64_TRUNC_F64_U),
        0xb2 => Some(Instruction::OP_F32_CONVERT_I32_S),
        0xb3 => Some(Instruction::OP_F32_CONVERT_I32_U),
        0xb4 => Some(Instruction::OP_F32_CONVERT_I64_S),
        0xb5 => Some(Instruction::OP_F32_CONVERT_I64_U),
        0xb6 => Some(Instruction::OP_F32_DEMOTE_F64),
        0xb7 => Some(Instruction::OP_F64_CONVERT_I32_S),
        0xb8 => Some(Instruction::OP_F64_CONVERT_I32_U),
        0xb9 => Some(Instruction::OP_F64_CONVERT_I64_S),
        0xba => Some(Instruction::OP_F64_CONVERT_I64_U),
        0xbb => Some(Instruction::OP_F64_PROMOTE_F32),
        0xbc => Some(Instruction::OP_I32_REINTERPRET_F32),
        0xbd => Some(Instruction::OP_I64_REINTERPRET_F64),
        0xbe => Some(Instruction::OP_F32_REINTERPRET_I32),
        0xbf => Some(Instruction::OP_F64_REINTERPRET_I64),
        0xc0 => Some(Instruction::OP_I32_EXTEND8_S),
        0xc1 => Some(Instruction::OP_I32_EXTEND16_S),
        0xc2 => Some(Instruction::OP_I64_EXTEND8_S),
        0xc3 => Some(Instruction::OP_I64_EXTEND16_S),
        0xc4 => Some(Instruction::OP_I64_EXTEND32_S),
        _ => None,
    }
}

/// Two instructions agree in every part: variant, immediates and, recursively,
/// the ids and instructions of nested blocks.
pub open spec fn same_instruction(a: Instruction, b: Instruction) -> bool
    decreases a,
{
    match a {
        Instruction::OP_BLOCK(t1, b1) => match b {
            Instruction::OP_BLOCK(t2, b2) => t1 == t2 && same_block(b1, b2),
            _ => false,
        },
        Instruction::OP_LOOP(t1, b1) => match b {
            Instruction::OP_LOOP(t2, b2) => t1 == t2 && same_block(b1, b2),
            _ => false,
        },
        Instruction::OP_IF(t1, b1) => match b {
            Instruction::OP_IF(t2, b2) => t1 == t2 && same_block(b1, b2),
            _ => false,
        },
        Instruction::OP_IF_AND_ELSE(t1, b1, c1) => match b {
            Instruction::OP_IF_AND_ELSE(t2, b2, c2) => t1 == t2 && same_block(b1, b2) && same_block(
                c1,
                c2,
            ),
            _ => false,
        },
        Instruction::OP_BR_TABLE(l1, d1) => match b {
            Instruction::OP_BR_TABLE(l2, d2) => l1@ == l2@ && d1 == d2,
            _ => false,
        },
        _ => a == b,
    }
}

/// Two blocks agree in their id and, one by one, in their wrapped instructions.
pub closed spec fn same_block(a: CodeBlock, b: CodeBlock) -> bool
    decreases a,
{
    &&& a.id == b.id
    &&& same_wrapped(a.instructions@, b.instructions@)
}

/// The list of a block's instructions is smaller than the block.
pub proof fn block_smaller(cb: CodeBlock)
    ensures
        decreases_to!(cb => cb.spec_instructions()),
{
    assert(decreases_to!(cb => cb.instructions));
    assert(decreases_to!(cb.instructions => cb.instructions@));
}

/// Each wrapped instruction of a list is smaller than the list.
pub proof fn wrapper_smaller(s: Seq<InstructionWrapper>, k: int)
    requires
        0 <= k < s.len(),
    ensures
        decreases_to!(s => s[k].spec_instruction()),
{
    assert(decreases_to!(s => s[k]));
    assert(decreases_to!(s[k] => s[k].instruction));
}

/// Two sequences of wrapped instructions agree element by element.
pub closed spec fn same_wrapped(a: Seq<InstructionWrapper>, b: Seq<InstructionWrapper>) -> bool
    decreases a,
{
    &&& a.len() == b.len()
    &&& forall|k: int|
        0 <= k < a.len() ==> #[trigger] a[k].instruction_id == b[k].instruction_id && same_instruction(
            a[k].instruction,
            b[k].instruction,
        )
}

/// Agreeing lists have the same length.
pub proof fn lemma_same_wrapped_len(a: Seq<InstructionWrapper>, b: Seq<InstructionWrapper>)
    requires
        same_wrapped(a, b),
    ensures
        a.len() == b.len(),
{
}

/// Agreeing lists hold agreeing instructions at each index.
pub proof fn lemma_same_wrapped_at(a: Seq<InstructionWrapper>, b: Seq<InstructionWrapper>, k: int)
    requires
        same_wrapped(a, b),
        0 <= k < a.len(),
    ensures
        same_instruction(a[k].spec_instruction(), b[k].spec_instruction()),
{
    assert(a[k].instruction_id == b[k].instruction_id);
}

/// A copy of a list of label indices.
fn clone_labels(v: &Vec<LabelIdx>) -> (r: Vec<LabelIdx>)
    ensures
        r@ == v@,
{
    let mut r: Vec<LabelIdx> = Vec::new();
    let mut k: usize = 0;
    while k < v.len()
        invariant
            k <= v@.len(),
            r@ == v@.subrange(0, k as int),
        decreases v@.len() - k,
    {
        r.push(v[k]);
        k = k + 1;
        proof {
            assert(r@ =~= v@.subrange(0, k as int));
        }
    }
    proof {
        assert(r@ =~= v@);
    }
    r
}

impl Instruction {
    /// A copy of the instruction, nested blocks included.
    pub fn deep_clone(&self) -> (r: Instruction)
        ensures
            same_instruction(*self, r),
        decreases self,
    {
        match self {
            Instruction::OP_UNREACHABLE => Instruction::OP_UNREACHABLE,
            Instruction::OP_NOP => Instruction::OP_NOP,
            Instruction::OP_BLOCK(a0, a1) => Instruction::OP_BLOCK(*a0, a1.deep_clone()),
            Instruction::OP_LOOP(a0, a1) => Instruction::OP_LOOP(*a0, a1.deep_clone()),
            Instruction::OP_IF(a0, a1) => Instruction::OP_IF(*a0, a1.deep_clone()),
            Instruction::OP_IF_AND_ELSE(a0, a1, a2) => Instruction::OP_IF_AND_ELSE(*a0, a1.deep_clone(), a2.deep_clone()),
            Instruction::OP_BR(a0) => Instruction::OP_BR(*a0),
            Instruction::OP_BR_IF(a0) => Instruction::OP_BR_IF(*a0),
            Instruction::OP_BR_TABLE(a0, a1) => Instruction::OP_BR_TABLE(clone_labels(a0), *a1),
            Instruction::OP_RETURN => Instruction::OP_RETURN,
            Instruction::OP_CALL(a0) => Instruction::OP_CALL(*a0),
            Instruction::OP_CALL_INDIRECT(a0) => Instruction::OP_CALL_INDIRECT(*a0),
            Instruction::OP_DROP => Instruction::OP_DROP,
            Instruction::OP_SELECT => Instruction::OP_SELECT,
            Instruction::OP_LOCAL_GET(a0) => Instruction::OP_LOCAL_GET(*a0),
            Instruction::OP_LOCAL_SET(a0) => Instruction::OP_LOCAL_SET(*a0),
            Instruction::OP_LOCAL_TEE(a0) => Instruction::OP_LOCAL_TEE(*a0),
            Instruction::OP_GLOBAL_GET(a0) => Instruction::OP_GLOBAL_GET(*a0),
            Instruction::OP_GLOBAL_SET(a0) => Instruction::OP_GLOBAL_SET(*a0),
            Instruction::OP_I32_LOAD(a0) => Instruction::OP_I32_LOAD(*a0),
            Instruction::OP_I64_LOAD(a0) => Instruction::OP_I64_LOAD(*a0),
            Instruction::OP_F32_LOAD(a0) => Instruction::OP_F32_LOAD(*a0),
            Instruction::OP_F64_LOAD(a0) => Instruction::OP_F64_LOAD(*a0),
            Instruction::OP_I32_LOAD_8_s(a0) => Instruction::OP_I32_LOAD_8_s(*a0),
            Instruction::OP_I32_LOAD_8_u(a0) => Instruction::OP_I32_LOAD_8_u(*a0),
            Instruction::OP_I32_LOAD_16_s(a0) => Instruction::OP_I32_LOAD_16_s(*a0),
            Instruction::OP_I32_LOAD_16_u(a0) => Instruction::OP_I32_LOAD_16_u(*a0),
            Instruction::OP_I64_LOAD_8_s(a0) => Instruction::OP_I64_LOAD_8_s(*a0),
            Instruction::OP_I64_LOAD_8_u(a0) => Instruction::OP_I64_LOAD_8_u(*a0),
            Instruction::OP_I64_LOAD_16_s(a0) => Instruction::OP_I64_LOAD_16_s(*a0),
            Instruction::OP_I64_LOAD_16_u(a0) => Instruction::OP_I64_LOAD_16_u(*a0),
            Instruction::OP_I64_LOAD_32_u(a0) => Instruction::OP_I64_LOAD_32_u(*a0),
            Instruction::OP_I64_LOAD_32_s(a0) => Instruction::OP_I64_LOAD_32_s(*a0),
            Instruction::OP_I32_STORE(a0) => Instruction::OP_I32_STORE(*a0),
            Instruction::OP_I64_STORE(a0) => Instruction::OP_I64_STORE(*a0),
            Instruction::OP_F32_STORE(a0) => Instruction::OP_F32_STORE(*a0),
            Instruction::OP_F64_STORE(a0) => Instruction::OP_F64_STORE(*a0),
            Instruction::OP_I32_STORE_8(a0) => Instruction::OP_I32_STORE_8(*a0),
            Instruction::OP_I32_STORE_16(a0) => Instruction::OP_I32_STORE_16(*a0),
            Instruction::OP_I64_STORE_8(a0) => Instruction::OP_I64_STORE_8(*a0),
            Instruction::OP_I64_STORE_16(a0) => Instruction::OP_I64_STORE_16(*a0),
            Instruction::OP_I64_STORE_32(a0) => Instruction::OP_I64_STORE_32(*a0),
            Instruction::OP_MEMORY_SIZE => Instruction::OP_MEMORY_SIZE,
            Instruction::OP_MEMORY_GROW => Instruction::OP_MEMORY_GROW,
            Instruction::OP_I32_CONST(a0) => Instruction::OP_I32_CONST(*a0),
            Instruction::OP_I64_CONST(a0) => Instruction::OP_I64_CONST(*a0),
            Instruction::OP_F32_CONST(a0) => Instruction::OP_F32_CONST(*a0),
            Instruction::OP_F64_CONST(a0) => Instruction::OP_F64_CONST(*a0),
            Instruction::OP_I32_EQZ => Instruction::OP_I32_EQZ,
            Instruction::OP_I32_EQ => Instruction::OP_I32_EQ,
            Instruction::OP_I32_NE => Instruction::OP_I32_NE,
            Instruction::OP_I32_LT_S => Instruction::OP_I32_LT_S,
            Instruction::OP_I32_LT_U => Instruction::OP_I32_LT_U,
            Instruction::OP_I32_GT_S => Instruction::OP_I32_GT_S,
            Instruction::OP_I32_GT_U => Instruction::OP_I32_GT_U,
            Instruction::OP_I32_LE_S => Instruction::OP_I32_LE_S,
            Instruction::OP_I32_LE_U => Instruction::OP_I32_LE_U,
            Instruction::OP_I32_GE_S => Instruction::OP_I32_GE_S,
            Instruction::OP_I32_GE_U => Instruction::OP_I32_GE_U,
            Instruction::OP_I64_EQZ => Instruction::OP_I64_EQZ,
            Instruction::OP_I64_EQ => Instruction::OP_I64_EQ,
            Instruction::OP_I64_NE => Instruction::OP_I64_NE,
            Instruction::OP_I64_LT_S => Instruction::OP_I64_LT_S,
            Instruction::OP_I64_LT_U => Instruction::OP_I64_LT_U,
            Instruction::OP_I64_GT_S => Instruction::OP_I64_GT_S,
            Instruction::OP_I64_GT_U => Instruction::OP_I64_GT_U,
            Instruction::OP_I64_LE_S => Instruction::OP_I64_LE_S,
            Instruction::OP_I64_LE_U => Instruction::OP_I64_LE_U,
            Instruction::OP_I64_GE_S => Instruction::OP_I64_GE_S,
            Instruction::OP_I64_GE_U => Instruction::OP_I64_GE_U,
            Instruction::OP_F32_EQ => Instruction::OP_F32_EQ,
            Instruction::OP_F32_NE => Instruction::OP_F32_NE,
            Instruction::OP_F32_LT => Instruction::OP_F32_LT,
            Instruction::OP_F32_GT => Instruction::OP_F32_GT,
            Instruction::OP_F32_LE => Instruction::OP_F32_LE,
            Instruction::OP_F32_GE => Instruction::OP_F32_GE,
            Instruction::OP_F64_EQ => Instruction::OP_F64_EQ,
            Instruction::OP_F64_NE => Instruction::OP_F64_NE,
            Instruction::OP_F64_LT => Instruction::OP_F64_LT,
            Instruction::OP_F64_GT => Instruction::OP_F64_GT,
            Instruction::OP_F64_LE => Instruction::OP_F64_LE,
            Instruction::OP_F64_GE => Instruction::OP_F64_GE,
            Instruction::OP_I32_CLZ => Instruction::OP_I32_CLZ,
            Instruction::OP_I32_CTZ => Instruction::OP_I32_CTZ,
            Instruction::OP_I32_POPCNT => Instruction::OP_I32_POPCNT,
            Instruction::OP_I32_ADD => Instruction::OP_I32_ADD,
            Instruction::OP_I32_SUB => Instruction::OP_I32_SUB,
            Instruction::OP_I32_MUL => Instruction::OP_I32_MUL,
            Instruction::OP_I32_DIV_S => Instruction::OP_I32_DIV_S,
            Instruction::OP_I32_DIV_U => Instruction::OP_I32_DIV_U,
            Instruction::OP_I32_REM_S => Instruction::OP_I32_REM_S,
            Instruction::OP_I32_REM_U => Instruction::OP_I32_REM_U,
            Instruction::OP_I32_AND => Instruction::OP_I32_AND,
            Instruction::OP_I32_OR => Instruction::OP_I32_OR,
            Instruction::OP_I32_XOR => Instruction::OP_I32_XOR,
            Instruction::OP_I32_SHL => Instruction::OP_I32_SHL,
            Instruction::OP_I32_SHR_S => Instruction::OP_I32_SHR_S,
            Instruction::OP_I32_SHR_U => Instruction::OP_I32_SHR_U,
            Instruction::OP_I32_ROTL => Instruction::OP_I32_ROTL,
            Instruction::OP_I32_ROTR => Instruction::OP_I32_ROTR,
            Instruction::OP_I64_CLZ => Instruction::OP_I64_CLZ,
            Instruction::OP_I64_CTZ => Instruction::OP_I64_CTZ,
            Instruction::OP_I64_POPCNT => Instruction::OP_I64_POPCNT,
            Instruction::OP_I64_ADD => Instruction::OP_I64_ADD,
            Instruction::OP_I64_SUB => Instruction::OP_I64_SUB,
            Instruction::OP_I64_MUL => Instruction::OP_I64_MUL,
            Instruction::OP_I64_DIV_S => Instruction::OP_I64_DIV_S,
            Instruction::OP_I64_DIV_U => Instruction::OP_I64_DIV_U,
            Instruction::OP_I64_REM_S => Instruction::OP_I64_REM_S,
            Instruction::OP_I64_REM_U => Instruction::OP_I64_REM_U,
            Instruction::OP_I64_AND => Instruction::OP_I64_AND,
            Instruction::OP_I64_OR => Instruction::OP_I64_OR,
            Instruction::OP_I64_XOR => Instruction::OP_I64_XOR,
            Instruction::OP_I64_SHL => Instruction::OP_I64_SHL,
            Instruction::OP_I64_SHR_S => Instruction::OP_I64_SHR_S,
            Instruction::OP_I64_SHR_U => Instruction::OP_I64_SHR_U,
            Instruction::OP_I64_ROTL => Instruction::OP_I64_ROTL,
            Instruction::OP_I64_ROTR => Instruction::OP_I64_ROTR,
            Instruction::OP_F32_ABS => Instruction::OP_F32_ABS,
            Instruction::OP_F32_NEG => Instruction::OP_F32_NEG,
            Instruction::OP_F32_CEIL => Instruction::OP_F32_CEIL,
            Instruction::OP_F32_FLOOR => Instruction::OP_F32_FLOOR,
            Instruction::OP_F32_TRUNC => Instruction::OP_F32_TRUNC,
            Instruction::OP_F32_NEAREST => Instruction::OP_F32_NEAREST,
            Instruction::OP_F32_SQRT => Instruction::OP_F32_SQRT,
            Instruction::OP_F32_ADD => Instruction::OP_F32_ADD,
            Instruction::OP_F32_SUB => Instruction::OP_F32_SUB,
            Instruction::OP_F32_MUL => Instruction::OP_F32_MUL,
            Instruction::OP_F32_DIV => Instruction::OP_F32_DIV,
            Instruction::OP_F32_MIN => Instruction::OP_F32_MIN,
            Instruction::OP_F32_MAX => Instruction::OP_F32_MAX,
            Instruction::OP_F32_COPYSIGN => Instruction::OP_F32_COPYSIGN,
            Instruction::OP_F64_ABS => Instruction::OP_F64_ABS,
            Instruction::OP_F64_NEG => Instruction::OP_F64_NEG,
            Instruction::OP_F64_CEIL => Instruction::OP_F64_CEIL,
            Instruction::OP_F64_FLOOR => Instruction::OP_F64_FLOOR,
            Instruction::OP_F64_TRUNC => Instruction::OP_F64_TRUNC,
            Instruction::OP_F64_NEAREST => Instruction::OP_F64_NEAREST,
            Instruction::OP_F64_SQRT => Instruction::OP_F64_SQRT,
            Instruction::OP_F64_ADD => Instruction::OP_F64_ADD,
            Instruction::OP_F64_SUB => Instruction::OP_F64_SUB,
            Instruction::OP_F64_MUL => Instruction::OP_F64_MUL,
            Instruction::OP_F64_DIV => Instruction::OP_F64_DIV,
            Instruction::OP_F64_MIN => Instruction::OP_F64_MIN,
            Instruction::OP_F64_MAX => Instruction::OP_F64_MAX,
            Instruction::OP_F64_COPYSIGN => Instruction::OP_F64_COPYSIGN,
            Instruction::OP_I32_WRAP_I64 => Instruction::OP_I32_WRAP_I64,
            Instruction::OP_I32_TRUNC_F32_S => Instruction::OP_I32_TRUNC_F32_S,
            Instruction::OP_I32_TRUNC_F32_U => Instruction::OP_I32_TRUNC_F32_U,
            Instruction::OP_I32_TRUNC_F64_S => Instruction::OP_I32_TRUNC_F64_S,
            Instruction::OP_I32_TRUNC_F64_U => Instruction::OP_I32_TRUNC_F64_U,
            Instruction::OP_I64_EXTEND_I32_U => Instruction::OP_I64_EXTEND_I32_U,
            Instruction::OP_I64_EXTEND_I32_S => Instruction::OP_I64_EXTEND_I32_S,
            Instruction::OP_I64_TRUNC_F32_S => Instruction::OP_I64_TRUNC_F32_S,
            Instruction::OP_I64_TRUNC_F32_U => Instruction::OP_I64_TRUNC_F32_U,
            Instruction::OP_I64_TRUNC_F64_S => Instruction::OP_I64_TRUNC_F64_S,
            Instruction::OP_I64_TRUNC_F64_U => Instruction::OP_I64_TRUNC_F64_U,
            Instruction::OP_F32_CONVERT_I32_S => Instruction::OP_F32_CONVERT_I32_S,
            Instruction::OP_F32_CONVERT_I32_U => Instruction::OP_F32_CONVERT_I32_U,
            Instruction::OP_F32_CONVERT_I64_S => Instruction::OP_F32_CONVERT_I64_S,
            Instruction::OP_F32_CONVERT_I64_U => Instruction::OP_F32_CONVERT_I64_U,
            Instruction::OP_F32_DEMOTE_F64 => Instruction::OP_F32_DEMOTE_F64,
            Instruction::OP_F64_CONVERT_I32_S => Instruction::OP_F64_CONVERT_I32_S,
            Instruction::OP_F64_CONVERT_I32_U => Instruction::OP_F64_CONVERT_I32_U,
            Instruction::OP_F64_CONVERT_I64_S => Instruction::OP_F64_CONVERT_I64_S,
            Instruction::OP_F64_CONVERT_I64_U => Instruction::OP_F64_CONVERT_I64_U,
            Instruction::OP_F64_PROMOTE_F32 => Instruction::OP_F64_PROMOTE_F32,
            Instruction::OP_I32_REINTERPRET_F32 => Instruction::OP_I32_REINTERPRET_F32,
            Instruction::OP_I64_REINTERPRET_F64 => Instruction::OP_I64_REINTERPRET_F64,
            Instruction::OP_F32_REINTERPRET_I32 => Instruction::OP_F32_REINTERPRET_I32,
            Instruction::OP_F64_REINTERPRET_I64 => Instruction::OP_F64_REINTERPRET_I64,
            Instruction::OP_I32_EXTEND8_S => Instruction::OP_I32_EXTEND8_S,
            Instruction::OP_I32_EXTEND16_S => Instruction::OP_I32_EXTEND16_S,
            Instruction::OP_I64_EXTEND8_S => Instruction::OP_I64_EXTEND8_S,
            Instruction::OP_I64_EXTEND16_S => Instruction::OP_I64_EXTEND16_S,
            Instruction::OP_I64_EXTEND32_S => Instruction::OP_I64_EXTEND32_S,
            Instruction::OP_I32_TRUNC_SAT_F32_S => Instruction::OP_I32_TRUNC_SAT_F32_S,
            Instruction::OP_I32_TRUNC_SAT_F32_U => Instruction::OP_I32_TRUNC_SAT_F32_U,
            Instruction::OP_I32_TRUNC_SAT_F64_S => Instruction::OP_I32_TRUNC_SAT_F64_S,
            Instruction::OP_I32_TRUNC_SAT_F64_U => Instruction::OP_I32_TRUNC_SAT_F64_U,
            Instruction::OP_I64_TRUNC_SAT_F32_S => Instruction::OP_I64_TRUNC_SAT_F32_S,
            Instruction::OP_I64_TRUNC_SAT_F32_U => Instruction::OP_I64_TRUNC_SAT_F32_U,
            Instruction::OP_I64_TRUNC_SAT_F64_S => Instruction::OP_I64_TRUNC_SAT_F64_S,
            Instruction::OP_I64_TRUNC_SAT_F64_U => Instruction::OP_I64_TRUNC_SAT_F64_U,
        }
    }
}

impl Clone for Instruction {
    fn clone(&self) -> (r: Self)
        ensures
            same_instruction(*self, r),
    {
        self.deep_clone()
    }
}

impl CodeBlock {
    /// A copy of the block, nested blocks included.
    pub fn deep_clone(&self) -> (r: CodeBlock)
        ensures
            same_block(*self, r),
        decreases self,
    {
        CodeBlock { id: self.id, instructions: clone_wrapped(&self.instructions) }
    }
}

impl Clone for CodeBlock {
    fn clone(&self) -> (r: Self)
        ensures
            same_block(*self, r),
    {
        self.deep_clone()
    }
}

impl InstructionWrapper {
    /// A copy of the wrapped instruction with its id.
    pub fn deep_clone(&self) -> (r: InstructionWrapper)
        ensures
            r.spec_id() == self.spec_id(),
            same_instruction(self.spec_instruction(), r.spec_instruction()),
        decreases self,
    {
        InstructionWrapper { instruction_id: self.instruction_id, instruction: self.instruction.deep_clone() }
    }
}

impl Clone for InstructionWrapper {
    fn clone(&self) -> (r: Self)
        ensures
            r.spec_id() == self.spec_id(),
            same_instruction(self.spec_instruction(), r.spec_instruction()),
    {
        self.deep_clone()
    }
}

/// A copy of a sequence of wrapped instructions.
pub fn clone_wrapped(v: &Vec<InstructionWrapper>) -> (r: Vec<InstructionWrapper>)
    ensures
        same_wrapped(v@, r@),
    decreases v,
{
    let mut r: Vec<InstructionWrapper> = Vec::new();
    let mut k: usize = 0;
    while k < v.len()
        invariant
            k <= v@.len(),
            same_wrapped(v@.subrange(0, k as int), r@),
        decreases v@.len() - k,
    {
        proof {
            assert(decreases_to!(*v => v@[k as int]));
        }
        let w = v[k].deep_clone();
        let ghost old_r = r@;
        let ghost prev = v@.subrange(0, k as int);
        r.push(w);
        k = k + 1;
        proof {
            let a = v@.subrange(0, k as int);
            assert forall|l: int| 0 <= l < a.len() implies #[trigger] a[l].instruction_id
                == r@[l].instruction_id && same_instruction(a[l].instruction, r@[l].instruction) by {
                if l < k - 1 {
                    assert(a[l] == prev[l]);
                    assert(r@[l] == old_r[l]);
                    assert(prev[l].instruction_id == old_r[l].instruction_id);
                } else {
                    assert(a[l] == v@[l]);
                    assert(r@[l] == w);
                }
            }
        }
    }
    proof {
        assert(v@.subrange(0, v@.len() as int) =~= v@);
    }
    r
}

} // verus!
