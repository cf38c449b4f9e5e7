//! JazzLight: bytecode formats, hashing, basic blocks and the collector of
//! the JazzLight virtual machines, with their contracts.

pub mod bytes;
pub mod cli;
pub mod fnv_map;
pub mod intern;
pub mod labels;
pub mod lhm;
pub mod operators;
pub mod vm;
pub mod jazz;
pub mod light;
pub mod ngc;
