//! The configuration of a run: whether a debugger drives the program.

use vstd::prelude::*;

verus! {

/// The configuration of a run.
#[derive(Debug)]
pub struct Configuration {
    /// The program does not run on its own, but waits for the debugger to
    /// advance it.
    debugger: bool,
}

impl Configuration {
    /// Whether a debugger drives the program.
    pub closed spec fn spec_debugger(&self) -> bool {
        self.debugger
    }

    /// A configuration without a debugger.
    pub fn new() -> (c: Self)
        ensures
            !c.spec_debugger(),
    {
        Self { debugger: false }
    }

    /// Lets a debugger drive the program.
    pub fn enable_debugger(&mut self)
        ensures
            final(self).spec_debugger(),
    {
        self.debugger = true;
    }

    /// Whether a debugger drives the program: then the program counter is one
    /// that waits for it, else one that runs on its own.
    pub fn uses_debugger(&self) -> (b: bool)
        ensures
            b == self.spec_debugger(),
    {
        self.debugger
    }
}

} // verus!
