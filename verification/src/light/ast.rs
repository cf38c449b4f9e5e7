//! The syntax tree the JazzLight compiler compiles.

use vstd::prelude::*;

verus! {

/// A literal, `this`, or a variable's name.
pub enum Literal {
    Ident(String),
    Int(i64),
    /// A float, by its IEEE-754 bit pattern.
    Float(u64),
    This,
    Null,
    Undefined,
    Array(Vec<Expr>),
    True,
    False,
    Str(String),
}

/// An expression.
pub enum Expr {
    /// `import "file"`: binds the module the file holds to the file's name.
    Import(String),
    /// `from "file" import a, b`: the expression's id (which names the
    /// imported module), the file, and the names taken from it.
    FromImport(usize, String, Vec<String>),
    /// `include "file"`: the file's expressions, compiled in place. Reading
    /// the file is left to the caller.
    Include(String),
    Const(Literal),
    Yield(Box<Expr>),
    Array(Box<Expr>, Box<Expr>),
    Block(Vec<Expr>),
    Break(Option<Box<Expr>>),
    Continue,
    Return(Option<Box<Expr>>),
    Throw(Box<Expr>),
    Unop(String, Box<Expr>),
    Binop(String, Box<Expr>, Box<Expr>),
    Assign(Box<Expr>, Box<Expr>),
    /// An anonymous function: its parameters and body.
    Function(Vec<String>, Box<Expr>),
    /// A named function: its name, parameters and body.
    FunctionDecl(String, Vec<String>, Box<Expr>),
    New(Box<Expr>, Vec<Expr>),
    Call(Box<Expr>, Vec<Expr>),
    /// A variable declaration: its name and initial value.
    Var(String, Option<Box<Expr>>),
    /// A try block: the body, the name the caught value is bound to, and
    /// the handler.
    Try(Box<Expr>, String, Box<Expr>),
    If(Box<Expr>, Box<Expr>, Option<Box<Expr>>),
    DoWhile(Box<Expr>, Box<Expr>),
    /// `for name in e body`.
    ForIn(String, Box<Expr>, Box<Expr>),
    While(Box<Expr>, Box<Expr>),
    Field(Box<Expr>, String),
    Paren(Box<Expr>),
}

} // verus!
