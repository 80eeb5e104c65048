//! Funky: a WebAssembly interpreter with a verified core.
//!
//! The library holds the binary parser, the validator, the allocation and
//! instantiation of modules and the execution engine.

pub mod page;
pub mod parser;
pub mod value;
pub mod operations;
pub mod validation;
pub mod engine;
pub mod debugger;
pub mod allocation;
pub mod instantiation;
pub mod config;
pub mod statistic;
pub mod cli;
pub mod spectest;

use vstd::prelude::*;

verus! {

/// The size of one page of linear memory, in bytes.
pub const PAGE_SIZE: usize = 65536;

} // verus!
