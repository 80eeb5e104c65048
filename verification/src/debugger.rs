//! Following the program counter: each instruction that runs is announced to a
//! program counter with the state of the machine.

use crate::engine::stack::{copy_values, StackContent};
use crate::value::Value;
use vstd::prelude::*;

verus! {

/// A copied entry of the stack agrees with the original: a value or a label is
/// the same, a frame has the same arity and locals.
pub open spec fn same_content(a: StackContent, b: StackContent) -> bool {
    match (a, b) {
        (StackContent::Value(x), StackContent::Value(y)) => x == y,
        (StackContent::Label(x), StackContent::Label(y)) => x == y,
        (StackContent::Frame(x), StackContent::Frame(y)) => x.arity == y.arity && x.locals@ == y.locals@,
        _ => false,
    }
}

/// The state of the machine at an instruction, borrowed from the engine.
pub struct BorrowedProgramState<'a> {
    current_pc: usize,
    stack: &'a [StackContent],
    locals: &'a [Value],
}

impl<'a> BorrowedProgramState<'a> {
    /// The id of the instruction.
    pub closed spec fn spec_pc(&self) -> usize {
        self.current_pc
    }

    /// The stack at the instruction.
    pub closed spec fn spec_stack(&self) -> Seq<StackContent> {
        self.stack@
    }

    /// The locals at the instruction.
    pub closed spec fn spec_locals(&self) -> Seq<Value> {
        self.locals@
    }

    /// The state at the instruction with id `current_pc`.
    pub fn new(current_pc: usize, stack: &'a [StackContent], locals: &'a [Value]) -> (s: Self)
        ensures
            s.spec_pc() == current_pc,
            s.spec_stack() == stack@,
            s.spec_locals() == locals@,
    {
        BorrowedProgramState { current_pc, stack, locals }
    }

    /// The id of the instruction.
    pub fn get_pc(&self) -> (pc: usize)
        ensures
            pc == self.spec_pc(),
    {
        self.current_pc
    }

    /// An owned copy of the state.
    pub fn to_owned_state(&self) -> (s: ProgramState)
        ensures
            s.spec_pc() == self.spec_pc(),
            s.spec_locals() == self.spec_locals(),
            s.spec_stack().len() == self.spec_stack().len(),
            forall|i: int| 0 <= i < s.spec_stack().len() ==> same_content(#[trigger] s.spec_stack()[i], self.spec_stack()[i]),
    {
        let mut stack: Vec<StackContent> = Vec::new();
        let mut i: usize = 0;
        while i < self.stack.len()
            invariant
                i <= self.stack@.len(),
                stack@.len() == i,
                forall|k: int| 0 <= k < i ==> same_content(#[trigger] stack@[k], self.stack@[k]),
            decreases self.stack@.len() - i,
        {
            stack.push(self.stack[i].copy());
            i = i + 1;
        }
        ProgramState { current_pc: self.current_pc, stack, locals: copy_values(self.locals) }
    }
}

/// The state of the machine at an instruction.
#[derive(Debug)]
pub struct ProgramState {
    current_pc: usize,
    stack: Vec<StackContent>,
    locals: Vec<Value>,
}

impl ProgramState {
    /// The id of the instruction.
    pub closed spec fn spec_pc(&self) -> usize {
        self.current_pc
    }

    /// The stack at the instruction.
    pub closed spec fn spec_stack(&self) -> Seq<StackContent> {
        self.stack@
    }

    /// The locals at the instruction.
    pub closed spec fn spec_locals(&self) -> Seq<Value> {
        self.locals@
    }

    /// The state at the instruction with id `current_pc`.
    pub fn new(current_pc: usize, stack: Vec<StackContent>, locals: Vec<Value>) -> (s: Self)
        ensures
            s.spec_pc() == current_pc,
            s.spec_stack() == stack@,
            s.spec_locals() == locals@,
    {
        ProgramState { current_pc, stack, locals }
    }

    /// The id of the instruction.
    pub fn get_pc(&self) -> (pc: usize)
        ensures
            pc == self.spec_pc(),
    {
        self.current_pc
    }
}

/// What is told of each instruction before it runs. An error stops the run.
pub trait ProgramCounter {
    /// Whether every call of `set_pc` on this counter succeeds. A counter that
    /// does not say so may fail at any instruction.
    open spec fn never_fails(&self) -> bool {
        false
    }

    /// Whether the counter remembers the id of the last instruction it was told
    /// of. A counter that does not say so may forget it.
    open spec fn remembers(&self) -> bool {
        false
    }

    /// The id of the last instruction the counter was told of, where it
    /// remembers it.
    open spec fn last_told(&self) -> usize {
        0
    }

    /// Sets the program counter to the instruction of the state.
    fn set_pc(&mut self, n: BorrowedProgramState) -> (r: Result<(), &'static str>)
        ensures
            old(self).never_fails() ==> r is Ok && final(self).never_fails(),
            old(self).remembers() ==> final(self).remembers() && final(self).last_told() == n.spec_pc(),
    ;
}

/// A program counter that only keeps the id of the last instruction; it never
/// holds the program.
#[derive(Debug)]
pub struct RelativeProgramCounter(usize);

impl Default for RelativeProgramCounter {
    /// A program counter at zero.
    fn default() -> (p: Self)
        ensures
            p.spec_pc() == 0,
    {
        RelativeProgramCounter(0)
    }
}

impl RelativeProgramCounter {
    /// The id of the last instruction.
    pub closed spec fn spec_pc(&self) -> usize {
        self.0
    }

    /// A program counter at zero.
    pub fn new() -> (p: Self)
        ensures
            p.spec_pc() == 0,
    {
        RelativeProgramCounter(0)
    }

    /// The id of the last instruction.
    pub fn get(&self) -> (pc: usize)
        ensures
            pc == self.spec_pc(),
    {
        self.0
    }
}

impl ProgramCounter for RelativeProgramCounter {
    open spec fn never_fails(&self) -> bool {
        true
    }

    open spec fn remembers(&self) -> bool {
        true
    }

    open spec fn last_told(&self) -> usize {
        self.spec_pc()
    }

    fn set_pc(&mut self, n: BorrowedProgramState) -> (r: Result<(), &'static str>)
        ensures
            r is Ok,
            final(self).spec_pc() == n.spec_pc(),
    {
        self.0 = n.get_pc();
        Ok(())
    }
}

} // verus!
