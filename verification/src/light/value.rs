//! The constants a JazzLight module carries.

use vstd::prelude::*;

verus! {

/// A function constant: its entry address, its parameters' names, and its
/// setter and getter flags.
#[derive(Clone, Debug)]
pub struct Function {
    pub addr: usize,
    pub args: Vec<String>,
    pub set: bool,
    pub get: bool,
}

/// A constant of the module's constant pool. A number is held by its
/// IEEE-754 bit pattern.
#[derive(Clone, Debug)]
pub enum Constant {
    Number(u64),
    Bool(bool),
    String(String),
    Nil,
    Function(Function),
}

/// A constant as the contracts see it.
pub enum ConstantV {
    Number(u64),
    Bool(bool),
    Str(Seq<char>),
    Nil,
    Func { addr: usize, args: Seq<Seq<char>>, set: bool, get: bool },
}

impl View for Constant {
    type V = ConstantV;

    open spec fn view(&self) -> ConstantV {
        match self {
            Constant::Number(b) => ConstantV::Number(*b),
            Constant::Bool(b) => ConstantV::Bool(*b),
            Constant::String(s) => ConstantV::Str(s@),
            Constant::Nil => ConstantV::Nil,
            Constant::Function(f) => ConstantV::Func {
                addr: f.addr,
                args: f.args@.map_values(|a: String| a@),
                set: f.set,
                get: f.get,
            },
        }
    }
}

} // verus!
