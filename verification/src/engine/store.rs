//! The store: all instances of functions, tables, memories and globals, and the
//! stack.

use crate::engine::memory::{zero_bytes, zeros, MemoryInstance};
use crate::engine::stack::{Frame, StackContent};
use crate::parser::ast::{ExternalKindType, FuncAddr, FunctionBody, FunctionSignature, GlobalAddr};
use crate::value::Value;
use crate::PAGE_SIZE;
use vstd::prelude::*;

verus! {

/// A global variable: whether it may be changed, and its value.
#[derive(Debug, Clone, Copy, PartialEq, Eq, Structural)]
pub struct Variable {
    pub mutable: bool,
    pub val: Value,
}

impl Variable {
    /// A global that cannot be changed.
    pub fn immutable(val: Value) -> (v: Self)
        ensures
            !v.mutable,
            v.val == val,
    {
        Variable { mutable: false, val }
    }
}

/// A global instance of the store.
pub type GlobalInstance = Variable;

/// A function of the store: its signature and its code.
#[derive(Debug)]
pub struct FuncInstance {
    pub ty: FunctionSignature,
    pub code: FunctionBody,
}

/// A table of the store: its elements, each a function address or empty, and
/// its maximum size.
#[derive(Debug)]
pub struct TableInstance {
    pub elem: Vec<Option<FuncAddr>>,
    pub max: Option<u32>,
}

impl TableInstance {
    /// A table of `n` empty elements.
    pub fn new(n: u32, max: Option<u32>) -> (t: Self)
        ensures
            t.elem@ == Seq::new(n as nat, |i: int| None::<FuncAddr>),
            t.max == max,
    {
        let mut elem: Vec<Option<FuncAddr>> = Vec::new();
        let mut i: u32 = 0;
        while i < n
            invariant
                i <= n,
                elem@ == Seq::new(i as nat, |k: int| None::<FuncAddr>),
            decreases n - i,
        {
            elem.push(None);
            i = i + 1;
            proof {
                assert(elem@ =~= Seq::new(i as nat, |k: int| None::<FuncAddr>));
            }
        }
        TableInstance { elem, max }
    }

    /// A copy of the table.
    pub fn copy(&self) -> (t: Self)
        ensures
            t.elem@ == self.elem@,
            t.max == self.max,
    {
        let mut elem: Vec<Option<FuncAddr>> = Vec::new();
        let mut i: usize = 0;
        while i < self.elem.len()
            invariant
                i <= self.elem@.len(),
                elem@ == self.elem@.subrange(0, i as int),
            decreases self.elem@.len() - i,
        {
            let e = match &self.elem[i] {
                Some(a) => Some(FuncAddr(a.0)),
                None => None,
            };
            elem.push(e);
            i = i + 1;
            proof {
                assert(elem@ =~= self.elem@.subrange(0, i as int));
            }
        }
        proof {
            assert(elem@ =~= self.elem@);
        }
        TableInstance { elem, max: self.max }
    }
}

/// An export of a module instance: its name and what it hands out.
#[derive(Debug)]
pub struct ExportInstance {
    pub name: String,
    pub value: ExternalKindType,
}

/// All instances, and the stack.
#[derive(Debug)]
pub struct Store {
    pub funcs: Vec<FuncInstance>,
    pub tables: Vec<TableInstance>,
    pub memory: Vec<MemoryInstance>,
    pub stack: Vec<StackContent>,
    pub globals: Vec<GlobalInstance>,
}

impl Default for Store {
    /// An empty store.
    fn default() -> (s: Self)
        ensures
            s.funcs@.len() == 0,
            s.tables@.len() == 0,
            s.memory@.len() == 0,
            s.stack@.len() == 0,
            s.globals@.len() == 0,
    {
        Store {
            funcs: Vec::new(),
            tables: Vec::new(),
            memory: Vec::new(),
            stack: Vec::new(),
            globals: Vec::new(),
        }
    }
}

impl Store {
    /// An empty store whose stack holds one frame without locals.
    pub fn default_with_frame() -> (s: Self)
        ensures
            s.funcs@.len() == 0,
            s.tables@.len() == 0,
            s.memory@.len() == 0,
            s.globals@.len() == 0,
            s.stack@.len() == 1,
            s.stack@[0] matches StackContent::Frame(f) && f.arity == 0 && f.locals@.len() == 0,
    {
        let mut store = Store::default();
        store.stack.push(StackContent::Frame(Frame { arity: 0, locals: Vec::new() }));
        store
    }

    /// Adds a memory of `n` pages of zeros, where the store has no memory yet.
    pub fn init_memory(&mut self, n: usize) -> (r: Result<(), &'static str>)
        requires
            n * PAGE_SIZE <= usize::MAX,
        ensures
            old(self).memory@.len() == 0 ==> r is Ok && final(self).memory@.len() == 1
                && final(self).memory@[0].data@ == zeros((n * PAGE_SIZE) as nat) && final(self).memory@[0].max
                is None,
            old(self).memory@.len() > 0 ==> r == Err::<(), &'static str>("A memory instance is already defined")
                && final(self).memory@ == old(self).memory@,
            final(self).funcs@ == old(self).funcs@,
            final(self).tables@ == old(self).tables@,
            final(self).globals@ == old(self).globals@,
            final(self).stack@ == old(self).stack@,
    {
        if self.memory.len() == 0 {
            let instance = MemoryInstance { max: None, data: zero_bytes(n * PAGE_SIZE) };
            self.memory.push(instance);
            Ok(())
        } else {
            Err("A memory instance is already defined")
        }
    }

    /// The function at the address.
    pub fn get_func_instance(&self, func_addr: &FuncAddr) -> (r: Result<&FuncInstance, &'static str>)
        ensures
            func_addr.0 < self.funcs@.len() ==> (r matches Ok(f) && *f == self.funcs@[func_addr.0 as int]),
            func_addr.0 >= self.funcs@.len() ==> r is Err,
    {
        if func_addr.0 < self.funcs.len() {
            Ok(&self.funcs[func_addr.0])
        } else {
            Err("Cannot find function by addr")
        }
    }

    /// The global at the address.
    pub fn get_global_instance(&self, global_addr: &GlobalAddr) -> (r: Result<&GlobalInstance, &'static str>)
        ensures
            global_addr.0 < self.globals@.len() ==> (r matches Ok(g) && *g == self.globals@[global_addr.0 as int]),
            global_addr.0 >= self.globals@.len() ==> r is Err,
    {
        if global_addr.0 < self.globals.len() {
            Ok(&self.globals[global_addr.0])
        } else {
            Err("Cannot find global by addr")
        }
    }

    /// All functions.
    pub fn get_func_instances(&self) -> (r: &[FuncInstance])
        ensures
            r@ == self.funcs@,
    {
        self.funcs.as_slice()
    }

    /// Adds a function.
    pub fn allocate_func_instance(&mut self, signature: FunctionSignature, code: FunctionBody) -> (r: Result<(), &'static str>)
        ensures
            r is Ok,
            final(self).funcs@ == old(self).funcs@.push(FuncInstance { ty: signature, code }),
            final(self).tables@ == old(self).tables@,
            final(self).memory@ == old(self).memory@,
            final(self).globals@ == old(self).globals@,
            final(self).stack@ == old(self).stack@,
    {
        self.funcs.push(FuncInstance { ty: signature, code });
        Ok(())
    }

    /// The number of functions.
    pub fn count_functions(&self) -> (n: usize)
        ensures
            n == self.funcs@.len(),
    {
        self.funcs.len()
    }

    /// Pops `n` entries off the stack and returns them in their order on the stack.
    /// Where the stack holds fewer, it is emptied and an error is returned.
    pub fn pop_off_stack(&mut self, n: usize) -> (r: Result<Vec<StackContent>, &'static str>)
        ensures
            n <= old(self).stack@.len() ==> (r matches Ok(v) && v@ == old(self).stack@.subrange(
                old(self).stack@.len() - n,
                old(self).stack@.len() as int,
            ) && final(self).stack@ == old(self).stack@.subrange(0, old(self).stack@.len() - n)),
            n > old(self).stack@.len() ==> r is Err && final(self).stack@.len() == 0,
            final(self).funcs@ == old(self).funcs@,
            final(self).tables@ == old(self).tables@,
            final(self).memory@ == old(self).memory@,
            final(self).globals@ == old(self).globals@,
    {
        if n > self.stack.len() {
            self.stack.clear();
            return Err("The stack was unexpectedly empty while popping");
        }
        let at = self.stack.len() - n;
        let result = self.stack.split_off(at);
        Ok(result)
    }
}

} // verus!
