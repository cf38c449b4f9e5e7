//! The JazzLight instruction set.

use vstd::prelude::*;

verus! {

/// An interned identifier: its index in the symbol table.
#[derive(Copy, Clone, PartialEq, Eq, Debug, Hash, Structural)]
pub struct Name(pub u32);

/// One instruction of the JazzLight machine.
#[derive(Copy, Clone, PartialEq, Eq, Debug, Hash, Structural)]
pub enum Opcode {
    LoadInt(i64),
    LoadNil,
    LoadUndef,
    LoadTrue,
    LoadFalse,
    LoadConst(u32),
    LoadVar(Name),
    /// Load value from object or array
    Load,
    /// Store value into object or array
    Store,
    NewObj,
    ConstructArray(u32),
    DeclVar(Name),
    StoreVar(Name),
    /// Push catch block address to exception stack
    PushCatch(usize),
    /// Pop exception from exception stack
    PopCatch,
    /// Throw exception, if there are exception block jump to it otherwise print error and exit program
    Throw,
    /// Jump to instruction
    Jump(u32),
    /// Jump to instruction if value from stack != 0
    JumpIf(u32),
    /// Jump to instruction if value from stack == 0
    JumpIfFalse(u32),
    /// Invoke some function
    Call(u32),
    /// Pop n items from stack
    Pop(u32),
    /// Duplicate value from stack
    Dup,
    /// Pop environment
    PopEnv,
    /// Push empty environment
    PushEnv,
    /// Initialize function environment
    InitEnv,
    /// No opcode
    Label,
    /// Yield value from stack
    Yield,
    /// Return from function
    Return,
    NewIter,
    IterHasNext,
    IterNext,
    Add,
    Sub,
    Div,
    Mul,
    Rem,
    Shr,
    Shl,
    Gt,
    Lt,
    Ge,
    Le,
    Eq,
    Ne,
    And,
    Or,
    BitXor,
    BitOr,
    BitAnd,
    Not,
    Neg,
    BlockEnd,
    BlockStart,
}

/// The byte that stands for an instruction in the bytecode.
pub open spec fn op_byte(op: Opcode) -> u8 {
    match op {
        Opcode::LoadInt(_) => 54,
        Opcode::LoadNil => 1,
        Opcode::LoadUndef => 2,
        Opcode::LoadTrue => 3,
        Opcode::LoadFalse => 4,
        Opcode::LoadConst(_) => 5,
        Opcode::LoadVar(_) => 6,
        Opcode::Load => 7,
        Opcode::Store => 8,
        Opcode::NewObj => 9,
        Opcode::ConstructArray(_) => 10,
        Opcode::DeclVar(_) => 11,
        Opcode::StoreVar(_) => 12,
        Opcode::PushCatch(_) => 13,
        Opcode::PopCatch => 14,
        Opcode::Throw => 15,
        Opcode::Jump(_) => 16,
        Opcode::JumpIf(_) => 17,
        Opcode::JumpIfFalse(_) => 18,
        Opcode::Call(_) => 19,
        Opcode::Pop(_) => 20,
        Opcode::Dup => 21,
        Opcode::PopEnv => 22,
        Opcode::PushEnv => 23,
        Opcode::InitEnv => 24,
        Opcode::Label => 25,
        Opcode::Yield => 26,
        Opcode::Return => 27,
        Opcode::NewIter => 28,
        Opcode::IterHasNext => 29,
        Opcode::IterNext => 30,
        Opcode::Add => 31,
        Opcode::Sub => 32,
        Opcode::Div => 33,
        Opcode::Mul => 34,
        Opcode::Rem => 35,
        Opcode::Shr => 36,
        Opcode::Shl => 37,
        Opcode::Gt => 38,
        Opcode::Lt => 39,
        Opcode::Ge => 40,
        Opcode::Le => 41,
        Opcode::Eq => 42,
        Opcode::Ne => 43,
        Opcode::And => 44,
        Opcode::Or => 45,
        Opcode::BitXor => 46,
        Opcode::BitOr => 47,
        Opcode::BitAnd => 48,
        Opcode::Not => 49,
        Opcode::Neg => 50,
        Opcode::BlockEnd => 51,
        Opcode::BlockStart => 52,
    }
}

/// The instruction without operand that a byte stands for, if any.
pub open spec fn nullary_op(b: u8) -> Option<Opcode> {
    if b == 1 {
        Some(Opcode::LoadNil)
    } else if b == 2 {
        Some(Opcode::LoadUndef)
    } else if b == 3 {
        Some(Opcode::LoadTrue)
    } else if b == 4 {
        Some(Opcode::LoadFalse)
    } else if b == 7 {
        Some(Opcode::Load)
    } else if b == 8 {
        Some(Opcode::Store)
    } else if b == 9 {
        Some(Opcode::NewObj)
    } else if b == 14 {
        Some(Opcode::PopCatch)
    } else if b == 15 {
        Some(Opcode::Throw)
    } else if b == 21 {
        Some(Opcode::Dup)
    } else if b == 22 {
        Some(Opcode::PopEnv)
    } else if b == 23 {
        Some(Opcode::PushEnv)
    } else if b == 24 {
        Some(Opcode::InitEnv)
    } else if b == 25 {
        Some(Opcode::Label)
    } else if b == 26 {
        Some(Opcode::Yield)
    } else if b == 27 {
        Some(Opcode::Return)
    } else if b == 28 {
        Some(Opcode::NewIter)
    } else if b == 29 {
        Some(Opcode::IterHasNext)
    } else if b == 30 {
        Some(Opcode::IterNext)
    } else if b == 31 {
        Some(Opcode::Add)
    } else if b == 32 {
        Some(Opcode::Sub)
    } else if b == 33 {
        Some(Opcode::Div)
    } else if b == 34 {
        Some(Opcode::Mul)
    } else if b == 35 {
        Some(Opcode::Rem)
    } else if b == 36 {
        Some(Opcode::Shr)
    } else if b == 37 {
        Some(Opcode::Shl)
    } else if b == 38 {
        Some(Opcode::Gt)
    } else if b == 39 {
        Some(Opcode::Lt)
    } else if b == 40 {
        Some(Opcode::Ge)
    } else if b == 41 {
        Some(Opcode::Le)
    } else if b == 42 {
        Some(Opcode::Eq)
    } else if b == 43 {
        Some(Opcode::Ne)
    } else if b == 44 {
        Some(Opcode::And)
    } else if b == 45 {
        Some(Opcode::Or)
    } else if b == 46 {
        Some(Opcode::BitXor)
    } else if b == 47 {
        Some(Opcode::BitOr)
    } else if b == 48 {
        Some(Opcode::BitAnd)
    } else if b == 49 {
        Some(Opcode::Not)
    } else if b == 50 {
        Some(Opcode::Neg)
    } else if b == 51 {
        Some(Opcode::BlockEnd)
    } else if b == 52 {
        Some(Opcode::BlockStart)
    } else {
        None
    }
}

/// The instruction without operand that a byte stands for, if any.
pub fn decode_nullary(b: u8) -> (r: Option<Opcode>)
    ensures
        r == nullary_op(b),
{
    match b {
        1 => Some(Opcode::LoadNil),
        2 => Some(Opcode::LoadUndef),
        3 => Some(Opcode::LoadTrue),
        4 => Some(Opcode::LoadFalse),
        7 => Some(Opcode::Load),
        8 => Some(Opcode::Store),
        9 => Some(Opcode::NewObj),
        14 => Some(Opcode::PopCatch),
        15 => Some(Opcode::Throw),
        21 => Some(Opcode::Dup),
        22 => Some(Opcode::PopEnv),
        23 => Some(Opcode::PushEnv),
        24 => Some(Opcode::InitEnv),
        25 => Some(Opcode::Label),
        26 => Some(Opcode::Yield),
        27 => Some(Opcode::Return),
        28 => Some(Opcode::NewIter),
        29 => Some(Opcode::IterHasNext),
        30 => Some(Opcode::IterNext),
        31 => Some(Opcode::Add),
        32 => Some(Opcode::Sub),
        33 => Some(Opcode::Div),
        34 => Some(Opcode::Mul),
        35 => Some(Opcode::Rem),
        36 => Some(Opcode::Shr),
        37 => Some(Opcode::Shl),
        38 => Some(Opcode::Gt),
        39 => Some(Opcode::Lt),
        40 => Some(Opcode::Ge),
        41 => Some(Opcode::Le),
        42 => Some(Opcode::Eq),
        43 => Some(Opcode::Ne),
        44 => Some(Opcode::And),
        45 => Some(Opcode::Or),
        46 => Some(Opcode::BitXor),
        47 => Some(Opcode::BitOr),
        48 => Some(Opcode::BitAnd),
        49 => Some(Opcode::Not),
        50 => Some(Opcode::Neg),
        51 => Some(Opcode::BlockEnd),
        52 => Some(Opcode::BlockStart),
        _ => None,
    }
}

/// A nullary instruction reads back from its byte.
pub proof fn lemma_nullary_inverse(op: Opcode)
    ensures
        op_operand_free(op) ==> nullary_op(op_byte(op)) == Some(op),
{
}

/// Whether an instruction has no operand.
pub open spec fn op_operand_free(op: Opcode) -> bool {
    !(op is LoadInt || op is LoadConst || op is LoadVar || op is ConstructArray || op is DeclVar
        || op is StoreVar || op is PushCatch || op is Jump || op is JumpIf || op is JumpIfFalse
        || op is Call || op is Pop)
}

/// The symbol an instruction names, if any.
pub open spec fn op_name(op: Opcode) -> Option<Name> {
    match op {
        Opcode::LoadVar(n) => Some(n),
        Opcode::DeclVar(n) => Some(n),
        Opcode::StoreVar(n) => Some(n),
        _ => None,
    }
}

/// The instruction a jump goes to, for the three jumps.
pub open spec fn jump_target(op: Opcode) -> Option<u32> {
    match op {
        Opcode::Jump(t) => Some(t),
        Opcode::JumpIf(t) => Some(t),
        Opcode::JumpIfFalse(t) => Some(t),
        _ => None,
    }
}

} // verus!
