//! The syntax tree the code generator compiles.

use vstd::prelude::*;

verus! {

/// A constant: a literal, `this`, a variable's name or a builtin's name.
pub enum Constant {
    True,
    False,
    Null,
    This,
    Int(i64),
    /// A float, by its IEEE-754 bit pattern.
    Float(u64),
    Str(String),
    Ident(String),
    Builtin(String),
}

/// An expression.
pub enum Expr {
    Break(Option<Box<Expr>>),
    Continue,
    Const(Constant),
    Block(Vec<Expr>),
    Paren(Box<Expr>),
    Field(Box<Expr>, String),
    Array(Box<Expr>, Box<Expr>),
    /// A variable declaration: its name and initial value.
    Var(String, Option<Box<Expr>>),
    Assign(Box<Expr>, Box<Expr>),
    Binop(String, Box<Expr>, Box<Expr>),
    /// A function: its parameters and body.
    Function(Vec<String>, Box<Expr>),
    Return(Option<Box<Expr>>),
    While(Box<Expr>, Box<Expr>),
    /// A switch: the value, the (case, body) pairs, and the default body.
    Switch(Box<Expr>, Vec<(Expr, Expr)>, Option<Box<Expr>>),
    If(Box<Expr>, Box<Expr>, Option<Box<Expr>>),
    Call(Box<Expr>, Vec<Expr>),
    Label(String),
    Goto(String),
    Unop(String, Box<Expr>),
    Throw(Box<Expr>),
    /// A try block: the body, the name the caught value is bound to, and the
    /// handler.
    Try(Box<Expr>, String, Box<Expr>),
}

} // verus!
