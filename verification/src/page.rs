//! Pages of linear memory.

use crate::PAGE_SIZE;
use vstd::prelude::*;

verus! {

/// A number of memory pages.
#[derive(Debug, Clone, Copy)]
pub struct Page(usize);

impl View for Page {
    type V = nat;

    closed spec fn view(&self) -> nat {
        self.0 as nat
    }
}

impl Page {
    /// A page count of `n` pages.
    pub fn new(n: usize) -> (p: Self)
        ensures
            p@ == n,
    {
        Page(n)
    }

    /// The number of whole pages in `c` bytes.
    pub fn from_count(c: usize) -> (p: Self)
        ensures
            p@ == c as nat / PAGE_SIZE as nat,
    {
        Page(c / PAGE_SIZE)
    }

    /// The number of pages.
    pub fn pages(&self) -> (n: usize)
        ensures
            n == self@,
    {
        self.0
    }

    /// The number of bytes these pages span.
    pub fn elements(&self) -> (n: usize)
        requires
            self@ * PAGE_SIZE <= usize::MAX,
        ensures
            n == self@ * PAGE_SIZE,
    {
        self.0 * PAGE_SIZE
    }

    /// Whether there are no pages at all.
    pub fn is_zero(&self) -> (b: bool)
        ensures
            b == (self@ == 0),
    {
        self.0 == 0
    }

    /// The sum of two page counts.
    pub fn add(self, other: Page) -> (p: Page)
        requires
            self@ + other@ <= usize::MAX,
        ensures
            p@ == self@ + other@,
    {
        Page(self.0 + other.0)
    }
}

/// The pages of the bytes that `n` pages span are `n` pages again.
pub proof fn lemma_pages_of_elements(n: nat)
    ensures
        (n * PAGE_SIZE as nat) / (PAGE_SIZE as nat) == n,
{
    vstd::arithmetic::div_mod::lemma_div_by_multiple(n as int, PAGE_SIZE as int);
}

} // verus!
