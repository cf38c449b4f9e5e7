//! The Jazz machine's module format: instructions, the module loader and the
//! bytecode emitter.

pub mod builtins;
pub mod opcode;
pub mod value;
pub mod module;
pub mod emit;
pub mod roundtrip;
pub mod compile;
