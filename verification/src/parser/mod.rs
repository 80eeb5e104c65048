//! The binary format of WebAssembly.

pub mod ast;
pub mod leb128;
pub mod bytes;
pub mod reader;
pub mod grammar;
pub mod instructions;
pub mod items;
pub mod sections;

pub use sections::{parse, Module};
