//! The stack machine of the `vm` crate: its opcodes, its bytecode writer and
//! reader, field-name hashing and its tracing collector.

pub mod api;
pub mod ast;
pub mod codegen;
pub mod compiler;
pub mod gc;
pub mod hash;
pub mod laws;
pub mod opcode;
pub mod reader;
pub mod roundtrip;
pub mod value;
pub mod writer;

use vstd::prelude::*;
use std::collections::HashMap;

use crate::vm::opcode::Op;
use crate::vm::value::Value;

verus! {

broadcast use vstd::std_specs::hash::group_hash_axioms;

/// A loaded module: its code, its global table, and the source line and file
/// recorded for instruction positions.
pub struct Module {
    pub code: Vec<Op>,
    pub globals: Vec<Value>,
    pub trace_info: HashMap<u32, (usize, String)>,
}

/// The name registered for the field hash `h` in `fields`, if any.
pub fn get_field(fields: &HashMap<u64, String>, h: u64) -> (r: Option<String>)
    ensures
        match r {
            Some(s) => fields@.contains_key(h) && s@ == fields@[h]@,
            None => !fields@.contains_key(h),
        },
{
    match fields.get(&h) {
        Some(s) => Some(s.clone()),
        None => None,
    }
}

} // verus!
