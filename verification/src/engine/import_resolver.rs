//! Resolving the imports of a module against the values the embedder hands in.

use crate::engine::store::{GlobalInstance, TableInstance};
use vstd::prelude::*;

verus! {

/// A value that the embedder hands in for an import: the module's name, the
/// item's name, and the instance.
#[derive(Debug)]
pub enum Import {
    Global(String, String, GlobalInstance),
    Table(String, String, TableInstance),
}

/// The module's name and the item's name of an import.
pub open spec fn import_key(i: Import) -> (Seq<char>, Seq<char>) {
    match i {
        Import::Global(m, n, _) => (m@, n@),
        Import::Table(m, n, _) => (m@, n@),
    }
}

/// The index of the last import with the given names; a later import with the
/// same names hides an earlier one.
pub open spec fn last_match(s: Seq<Import>, m: Seq<char>, n: Seq<char>) -> Option<int>
    decreases s.len(),
{
    if s.len() == 0 {
        None
    } else if import_key(s.last()) == (m, n) {
        Some(s.len() - 1)
    } else {
        last_match(s.drop_last(), m, n)
    }
}

/// A value handed in under other names leaves what a lookup finds as it was.
pub proof fn lemma_other_injection_keeps_lookup(s: Seq<Import>, i: Import, m: Seq<char>, n: Seq<char>)
    requires
        import_key(i) != (m, n),
    ensures
        last_match(s.push(i), m, n) == last_match(s, m, n),
{
    assert(s.push(i).last() == i);
    assert(s.push(i).drop_last() =~= s);
}

/// Matches the imports of a module with the values handed in.
#[derive(Debug)]
pub struct ImportResolver {
    imports: Vec<Import>,
}

impl ImportResolver {
    /// The imports injected so far, in order.
    pub closed spec fn spec_imports(&self) -> Seq<Import> {
        self.imports@
    }

    /// A resolver without imports.
    pub fn new() -> (r: Self)
        ensures
            r.spec_imports().len() == 0,
    {
        ImportResolver { imports: Vec::new() }
    }

    /// The index of the last import with the given names.
    fn find(&self, module: &String, name: &String) -> (r: Option<usize>)
        ensures
            r matches Some(i) ==> i < self.spec_imports().len() && last_match(self.spec_imports(), module@, name@)
                == Some(i as int),
            r is None ==> last_match(self.spec_imports(), module@, name@) is None,
    {
        let mut i: usize = self.imports.len();
        proof {
            assert(self.imports@.subrange(0, i as int) =~= self.imports@);
        }
        while i > 0
            invariant
                i <= self.imports@.len(),
                last_match(self.imports@, module@, name@) == last_match(self.imports@.subrange(0, i as int), module@, name@),
            decreases i,
        {
            let (m, n) = match &self.imports[i - 1] {
                Import::Global(m, n, _) => (m, n),
                Import::Table(m, n, _) => (m, n),
            };
            proof {
                assert(self.imports@.subrange(0, i as int).drop_last() =~= self.imports@.subrange(0, i - 1));
            }
            if *m == *module && *n == *name {
                return Some(i - 1);
            }
            i = i - 1;
        }
        None
    }

    /// The global imported under the given names.
    pub fn resolve_global(&self, module: &String, name: &String) -> (r: Result<GlobalInstance, &'static str>)
        ensures
            match last_match(self.spec_imports(), module@, name@) {
                Some(i) => match self.spec_imports()[i] {
                    Import::Global(_, _, g) => r == Ok::<GlobalInstance, &'static str>(g),
                    _ => r is Err,
                },
                None => r is Err,
            },
    {
        match self.find(module, name) {
            Some(i) => match &self.imports[i] {
                Import::Global(_, _, g) => Ok(*g),
                _ => Err("The import is not a global"),
            },
            None => Err("Cannot find global"),
        }
    }

    /// The table imported under the given names.
    pub fn resolve_table(&self, module: &String, name: &String) -> (r: Result<TableInstance, &'static str>)
        ensures
            match last_match(self.spec_imports(), module@, name@) {
                Some(i) => match self.spec_imports()[i] {
                    Import::Table(_, _, t) => r matches Ok(c) && c.elem@ == t.elem@ && c.max == t.max,
                    _ => r is Err,
                },
                None => r is Err,
            },
    {
        match self.find(module, name) {
            Some(i) => match &self.imports[i] {
                Import::Table(_, _, t) => Ok(t.copy()),
                _ => Err("The import is not a table"),
            },
            None => Err("Cannot find table"),
        }
    }

    /// Hands in a global under the given names.
    pub fn inject_global(&mut self, module: String, name: String, instance: &GlobalInstance) -> (r: Result<(), &'static str>)
        ensures
            r is Ok,
            final(self).spec_imports() == old(self).spec_imports().push(Import::Global(module, name, *instance)),
    {
        self.imports.push(Import::Global(module, name, *instance));
        Ok(())
    }

    /// Hands in a table under the given names.
    pub fn inject_table(&mut self, module: String, name: String, instance: &TableInstance) -> (r: Result<(), &'static str>)
        ensures
            r is Ok,
            final(self).spec_imports().len() == old(self).spec_imports().len() + 1,
            forall|k: int| 0 <= k < old(self).spec_imports().len() ==> final(self).spec_imports()[k] == old(self).spec_imports()[k],
            final(self).spec_imports().last() matches Import::Table(m, n, t) && m == module && n == name
                && t.elem@ == instance.elem@ && t.max == instance.max,
    {
        self.imports.push(Import::Table(module, name, instance.copy()));
        Ok(())
    }
}

} // verus!
