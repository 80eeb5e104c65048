//! The execution engine: a module instance, the store, and the machine that
//! runs the code of the functions.

pub mod stack;
pub mod memory;
pub mod store;
pub mod module;
pub mod import_resolver;
pub mod numeric;
pub mod exec;
pub mod control;
pub mod runner;
pub mod instance;

use crate::debugger::ProgramCounter;
use crate::engine::module::ModuleInstance;
use crate::engine::numeric::FloatUnit;
use crate::engine::stack::StackContent;
use crate::engine::store::Store;
use crate::value::Value;
use vstd::prelude::*;

verus! {

/// The result of a step of the machine: a value, or the message of the error that
/// stopped it.
pub type EResult<T> = Result<T, &'static str>;

/// How a sequence of instructions ended: at its end, by a branch out of the given
/// number of enclosing blocks, or by a return.
#[derive(Debug, Clone, Copy, PartialEq, Eq, Structural)]
#[allow(non_camel_case_types)]
pub enum InstructionOutcome {
    EXIT,
    BRANCH(u32),
    RETURN,
}

/// The engine: the instance of a module, the store, the program counter that
/// is told of each instruction, and the float unit.
pub struct Engine<P: ProgramCounter, F: FloatUnit> {
    pub module: ModuleInstance,
    pub started: bool,
    pub store: Store,
    pub debugger: P,
    pub floats: F,
}

/// What running code never changes of the store: the functions and tables, the
/// number of globals, which of them may change and the values of those that may
/// not, the number of memories and their maxima; and memories never shrink.
pub open spec fn keeps(old: Store, new: Store) -> bool {
    &&& new.funcs@ == old.funcs@
    &&& new.tables@ == old.tables@
    &&& new.globals@.len() == old.globals@.len()
    &&& forall|i: int|
        0 <= i < old.globals@.len() ==> (#[trigger] new.globals@[i]).mutable == old.globals@[i].mutable
            && (!old.globals@[i].mutable ==> new.globals@[i] == old.globals@[i])
    &&& new.memory@.len() == old.memory@.len()
    &&& forall|i: int|
        0 <= i < old.memory@.len() ==> (#[trigger] new.memory@[i]).max == old.memory@[i].max
            && new.memory@[i].data@.len() >= old.memory@[i].data@.len()
}

/// Keeping is reflexive.
pub proof fn lemma_keeps_refl(s: Store)
    ensures
        keeps(s, s),
{
}

/// Keeping is transitive: what two runs in a row keep, the whole keeps.
pub proof fn lemma_keeps_trans(a: Store, b: Store, c: Store)
    requires
        keeps(a, b),
        keeps(b, c),
    ensures
        keeps(a, c),
{
    assert forall|i: int| 0 <= i < a.globals@.len() implies (#[trigger] c.globals@[i]).mutable
        == a.globals@[i].mutable && (!a.globals@[i].mutable ==> c.globals@[i] == a.globals@[i]) by {
        assert(b.globals@[i].mutable == a.globals@[i].mutable);
    }
    assert forall|i: int| 0 <= i < a.memory@.len() implies (#[trigger] c.memory@[i]).max == a.memory@[i].max
        && c.memory@[i].data@.len() >= a.memory@[i].data@.len() by {
        assert(b.memory@[i].max == a.memory@[i].max);
    }
}

/// Only the stack of the store differs.
pub open spec fn only_stack(old: Store, new: Store) -> bool {
    &&& new.funcs@ == old.funcs@
    &&& new.tables@ == old.tables@
    &&& new.globals@ == old.globals@
    &&& new.memory@ == old.memory@
}

/// The value on top of the stack, where the top is a value.
pub open spec fn top_value(s: Seq<StackContent>) -> Option<Value> {
    if s.len() > 0 {
        match s.last() {
            StackContent::Value(v) => Some(v),
            _ => None,
        }
    } else {
        None
    }
}

/// What popping a value gives back of pushing it: the value, and the stack as
/// it was before.
pub proof fn lemma_pop_after_push(s: Seq<StackContent>, v: Value)
    ensures
        top_value(s.push(StackContent::Value(v))) == Some(v),
        s.push(StackContent::Value(v)).drop_last() == s,
{
    assert(s.push(StackContent::Value(v)).drop_last() =~= s);
}

} // verus!
