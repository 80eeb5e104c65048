//! Counting the cases of a test file: how many there are, how many passed, and
//! the first that failed.

use crate::value::Value;
use vstd::prelude::*;

verus! {

/// The counts of one test file.
#[derive(Debug)]
pub struct Statistic {
    file: String,
    failed: usize,
    succeeded: usize,
    skipped: usize,
    total: usize,
    failed_case: Option<(Vec<Value>, String)>,
}

impl Statistic {
    /// The name of the file.
    pub closed spec fn spec_file(&self) -> Seq<char> {
        self.file@
    }

    /// The number of failed cases.
    pub closed spec fn spec_failed(&self) -> nat {
        self.failed as nat
    }

    /// The number of passed cases.
    pub closed spec fn spec_succeeded(&self) -> nat {
        self.succeeded as nat
    }

    /// The number of cases left out after a failure.
    pub closed spec fn spec_skipped(&self) -> nat {
        self.skipped as nat
    }

    /// The number of cases.
    pub closed spec fn spec_total(&self) -> nat {
        self.total as nat
    }

    /// The recorded failed case: the values it gave and its description.
    pub closed spec fn spec_failed_case(&self) -> Option<(Seq<Value>, Seq<char>)> {
        match &self.failed_case {
            Some(c) => Some((c.0@, c.1@)),
            None => None,
        }
    }

    /// The counts of a file before any case ran.
    pub fn new(name: String) -> (s: Self)
        ensures
            s.spec_file() == name@,
            s.spec_failed() == 0,
            s.spec_succeeded() == 0,
            s.spec_skipped() == 0,
            s.spec_total() == 0,
            s.spec_failed_case() is None,
    {
        Self { file: name, failed: 0, succeeded: 0, skipped: 0, total: 0, failed_case: None }
    }

    /// Sets the number of cases.
    pub fn register(&mut self, count: usize)
        ensures
            final(self).spec_total() == count,
            final(self).spec_file() == old(self).spec_file(),
            final(self).spec_failed() == old(self).spec_failed(),
            final(self).spec_succeeded() == old(self).spec_succeeded(),
            final(self).spec_skipped() == old(self).spec_skipped(),
            final(self).spec_failed_case() == old(self).spec_failed_case(),
    {
        self.total = count;
    }

    /// Counts a passed case.
    pub fn success(&mut self)
        requires
            old(self).spec_succeeded() < usize::MAX,
        ensures
            final(self).spec_succeeded() == old(self).spec_succeeded() + 1,
            final(self).spec_file() == old(self).spec_file(),
            final(self).spec_failed() == old(self).spec_failed(),
            final(self).spec_skipped() == old(self).spec_skipped(),
            final(self).spec_total() == old(self).spec_total(),
            final(self).spec_failed_case() == old(self).spec_failed_case(),
    {
        self.succeeded = self.succeeded + 1;
    }

    /// Counts a failed case with the values it gave and a description of it; the
    /// cases not passed so far count as skipped.
    pub fn failed(&mut self, actuals: Vec<Value>, case: String)
        requires
            old(self).spec_failed() < usize::MAX,
            old(self).spec_succeeded() <= old(self).spec_total(),
        ensures
            final(self).spec_failed() == old(self).spec_failed() + 1,
            final(self).spec_skipped() == old(self).spec_total() - old(self).spec_succeeded(),
            final(self).spec_failed_case() == Some((actuals@, case@)),
            final(self).spec_file() == old(self).spec_file(),
            final(self).spec_succeeded() == old(self).spec_succeeded(),
            final(self).spec_total() == old(self).spec_total(),
    {
        self.failed = self.failed + 1;
        self.skipped = self.total - self.succeeded;
        self.failed_case = Some((actuals, case));
    }

    /// The number of passed cases.
    pub fn get_successes(&self) -> (n: usize)
        ensures
            n == self.spec_succeeded(),
    {
        self.succeeded
    }

    /// The number of cases.
    pub fn get_total(&self) -> (n: usize)
        ensures
            n == self.spec_total(),
    {
        self.total
    }
}

} // verus!
