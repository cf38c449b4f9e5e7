//! JazzLight: its instruction set and basic blocks, its symbol table, and the
//! bytecode writer and reader.

pub mod ast;
pub mod opcodes;
pub mod blocks;
pub mod compiler;
pub mod codegen;
pub mod program;
pub mod laws;
pub mod symbols;
pub mod value;
pub mod writer;
pub mod decoder;
pub mod roundtrip;
