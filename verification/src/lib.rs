//! Iridium: a two-pass assembler for a small register machine, and the
//! virtual machine that runs the code it produces.

pub mod assembler;
pub mod instruction;
pub mod laws;
pub mod repl;
pub mod vm;
