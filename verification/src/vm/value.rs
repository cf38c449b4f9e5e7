//! The values of the machine that a module's global table holds.

use vstd::prelude::*;
use crate::vm::api::{f64_to_i64, float_bits_to_int};

verus! {

/// The kind of a value.
#[derive(Copy, Clone, PartialEq, Eq, Debug, Hash)]
pub enum ValTag {
    Null,
    Bool,
    Int,
    Float,
    Str,
    Array,
    Object,
    Func,
    Char,
    User(&'static str),
}

/// A function value: an entry address in its module's code (or a native
/// entry point) and the number of arguments it takes, -1 for any.
#[derive(Clone, Copy, Debug)]
pub struct Function {
    pub native: bool,
    pub address: usize,
    pub argc: i32,
}

/// A value that can stand in a module's global table. A float is held by
/// its IEEE-754 bit pattern.
#[derive(Clone, Debug)]
pub enum Value {
    Null,
    Bool(bool),
    Int(i64),
    Float(u64),
    String(String),
    Function(Function),
    Char(char),
}

/// A global as the contracts see it: a string by its characters, every other
/// value as it is.
pub enum ValueV {
    Str(Seq<char>),
    Plain(Value),
}

impl View for Value {
    type V = ValueV;

    open spec fn view(&self) -> ValueV {
        match self {
            Value::String(s) => ValueV::Str(s@),
            _ => ValueV::Plain(*self),
        }
    }
}

/// The kind of a value.
pub open spec fn spec_tag(v: Value) -> ValTag {
    match v {
        Value::Int(_) => ValTag::Int,
        Value::Float(_) => ValTag::Float,
        Value::Null => ValTag::Null,
        Value::String(_) => ValTag::Str,
        Value::Function(_) => ValTag::Func,
        Value::Bool(_) => ValTag::Bool,
        Value::Char(_) => ValTag::Char,
    }
}

/// Whether the double with bit pattern `bits` compares unequal to zero:
/// everything but the two zeros, NaN included.
pub open spec fn float_truthy(bits: u64) -> bool {
    bits & 0x7fff_ffff_ffff_ffff != 0
}

impl Value {
    /// The truth of a value: null and false are false, a number is false
    /// exactly when it is zero, every other value is true.
    pub fn to_bool(&self) -> (b: bool)
        ensures
            b == match *self {
                Value::Null => false,
                Value::Bool(x) => x,
                Value::Int(x) => x != 0,
                Value::Float(bits) => float_truthy(bits),
                _ => true,
            },
    {
        match self {
            Value::Null => false,
            Value::Bool(x) => *x,
            Value::Int(x) => {
                if *x == 0 {
                    false
                } else {
                    true
                }
            },
            Value::Float(bits) => *bits & 0x7fff_ffff_ffff_ffff != 0,
            _ => true,
        }
    }

    /// The integer a number stands for: an integer itself, a float
    /// truncated toward zero and saturated as `as` does; `None` for other
    /// values.
    pub fn to_int(&self) -> (r: Option<i64>)
        ensures
            r == match *self {
                Value::Int(x) => Some(x),
                Value::Float(bits) => Some(f64_to_i64(bits)),
                _ => None::<i64>,
            },
    {
        match self {
            Value::Int(x) => Some(*x),
            Value::Float(bits) => Some(float_bits_to_int(*bits)),
            _ => None,
        }
    }

    /// The kind of this value.
    pub fn tag(&self) -> (t: ValTag)
        ensures
            t == spec_tag(*self),
    {
        match self {
            Value::Int(_) => ValTag::Int,
            Value::Float(_) => ValTag::Float,
            Value::Null => ValTag::Null,
            Value::String(_) => ValTag::Str,
            Value::Function(_) => ValTag::Func,
            Value::Bool(_) => ValTag::Bool,
            Value::Char(_) => ValTag::Char,
        }
    }
}

} // verus!
