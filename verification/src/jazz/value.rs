//! The values of the Jazz machine that a module's global table holds.

use vstd::prelude::*;

verus! {

/// Where a function's code is: an offset into its module's code, or the
/// address of a native entry point.
#[derive(Clone, Copy, Debug)]
pub enum FuncVar {
    Offset(usize),
    Native(usize),
}

/// A function value and the number of arguments it takes (-1 for any).
#[derive(Clone, Copy, Debug)]
pub struct Function {
    pub var: FuncVar,
    pub nargs: i32,
}

/// A value of the global table. A float is held by its IEEE-754 bits.
#[derive(Clone, Debug)]
pub enum Value {
    Null,
    Bool(bool),
    Int(i64),
    Int32(i32),
    Float(u64),
    Str(String),
    Func(Function),
}

/// A value as the contracts see it: a string by its characters, every other
/// value as it is.
pub enum ValueV {
    Str(Seq<char>),
    Plain(Value),
}

impl View for Value {
    type V = ValueV;

    open spec fn view(&self) -> ValueV {
        match self {
            Value::Str(s) => ValueV::Str(s@),
            _ => ValueV::Plain(*self),
        }
    }
}

} // verus!
