//! The stack of the machine: values, the frames of function calls, and the
//! labels of blocks.

use crate::value::{Arity, Value};
use vstd::prelude::*;

verus! {

/// An entry of the stack.
#[derive(Debug)]
pub enum StackContent {
    Value(Value),
    Frame(Frame),
    Label(Label),
}

/// A control entry of the stack: a frame or a label.
#[derive(Debug)]
pub enum CtrlStackContent {
    Frame(Frame),
    Label(Label),
}

impl CtrlStackContent {
    /// Whether the entry is a label.
    pub fn is_label(&self) -> (b: bool)
        ensures
            b == (*self is Label),
    {
        matches!(self, CtrlStackContent::Label(_))
    }

    /// Whether the entry is a frame.
    pub fn is_frame(&self) -> (b: bool)
        ensures
            b == (*self is Frame),
    {
        matches!(self, CtrlStackContent::Frame(_))
    }
}

/// A label: a place that a branch can go to. It holds the number of values that a
/// branch to it carries, and the id of the block it belongs to.
#[derive(Debug, Clone, Copy, PartialEq, Eq, Structural)]
pub struct Label {
    arity: Arity,
    start_block_id: usize,
}

/// The label with the given arity and block id.
pub closed spec fn label_of(arity: Arity, block_id: usize) -> Label {
    Label { arity, start_block_id: block_id }
}

impl Label {
    /// The arity of the label.
    pub closed spec fn spec_arity(&self) -> Arity {
        self.arity
    }

    /// The id of the block of the label.
    pub closed spec fn spec_start_block(&self) -> usize {
        self.start_block_id
    }

    /// A label with the given arity for the block with the given id.
    pub fn new(arity: Arity, block_id: usize) -> (l: Self)
        ensures
            l == label_of(arity, block_id),
            l.spec_arity() == arity,
            l.spec_start_block() == block_id,
    {
        Label { arity, start_block_id: block_id }
    }

    /// The arity of the label.
    pub fn get_arity(&self) -> (a: Arity)
        ensures
            a == self.spec_arity(),
    {
        self.arity
    }

    /// The id of the block of the label.
    pub fn get_start_block(&self) -> (id: usize)
        ensures
            id == self.spec_start_block(),
    {
        self.start_block_id
    }
}

/// The frame of a function call: the number of results and the locals.
#[derive(Debug)]
pub struct Frame {
    pub arity: u32,
    pub locals: Vec<Value>,
}

/// A copy of a list of values.
pub fn copy_values(v: &[Value]) -> (r: Vec<Value>)
    ensures
        r@ == v@,
{
    let mut r: Vec<Value> = Vec::new();
    let mut k: usize = 0;
    while k < v.len()
        invariant
            k <= v@.len(),
            r@ == v@.subrange(0, k as int),
        decreases v@.len() - k,
    {
        r.push(v[k]);
        k = k + 1;
        proof {
            assert(r@ =~= v@.subrange(0, k as int));
        }
    }
    proof {
        assert(r@ =~= v@);
    }
    r
}

impl StackContent {
    /// Whether the entry is a value.
    pub fn is_value(&self) -> (b: bool)
        ensures
            b == (*self is Value),
    {
        matches!(self, StackContent::Value(_))
    }

    /// Whether the entry is a label.
    pub fn is_label(&self) -> (b: bool)
        ensures
            b == (*self is Label),
    {
        matches!(self, StackContent::Label(_))
    }

    /// A copy of the entry.
    pub fn copy(&self) -> (c: StackContent)
        ensures
            match (*self, c) {
                (StackContent::Value(a), StackContent::Value(b)) => a == b,
                (StackContent::Label(a), StackContent::Label(b)) => a == b,
                (StackContent::Frame(a), StackContent::Frame(b)) => a.arity == b.arity && a.locals@ == b.locals@,
                _ => false,
            },
    {
        match self {
            StackContent::Value(v) => StackContent::Value(*v),
            StackContent::Label(l) => StackContent::Label(*l),
            StackContent::Frame(f) => StackContent::Frame(f.copy()),
        }
    }
}

impl Frame {
    /// A copy of the frame.
    pub fn copy(&self) -> (f: Frame)
        ensures
            f.arity == self.arity,
            f.locals@ == self.locals@,
    {
        Frame { arity: self.arity, locals: copy_values(self.locals.as_slice()) }
    }
}

} // verus!
