//! The instruction set of the stack machine.

use vstd::prelude::*;

verus! {

/// One instruction. Each has a one-byte tag in the bytecode, its position in
/// this list; some carry an operand.
#[derive(Clone, Debug)]
pub enum Op {
    LoadNull,
    LoadTrue,
    LoadFalse,
    LoadInt(i64),
    LoadGlobal(u32),
    LoadEnv(u16),
    LoadLocal(u16),
    LoadBuiltin(String),
    LoadThis,
    Load,
    Store,
    StoreEnv(u16),
    StoreLocal(u16),
    StoreThis,
    Pop(u16),
    Call(u16),
    ObjCall(u16),
    TailCall(u16),
    Jump(u32),
    JumpIf(u32),
    JumpIfNot(u32),
    /// Push catch block address
    CatchPush(u32),
    Throw,
    Ret,
    MakeEnv(u16),
    MakeArray(u16),
    IsNull,
    IsNotNull,
    Add,
    Sub,
    Div,
    Mul,
    Mod,
    Shl,
    Shr,
    UShr,
    Or,
    And,
    Xor,
    Eq,
    Neq,
    Gt,
    Gte,
    Lt,
    Lte,
    Not,
    Neg,
    Hash,
    New,
    Nop,
    Last,
}

/// An instruction as the contracts see it: the builtin name of
/// `LoadBuiltin` by its characters, every other instruction as it is.
pub enum OpV {
    Builtin(Seq<char>),
    Plain(Op),
}

impl View for Op {
    type V = OpV;

    open spec fn view(&self) -> OpV {
        match self {
            Op::LoadBuiltin(name) => OpV::Builtin(name@),
            _ => OpV::Plain(*self),
        }
    }
}

/// A copy of an instruction.
pub fn copy_op(op: &Op) -> (r: Op)
    ensures
        r@ == op@,
{
    match op {
        Op::LoadNull => Op::LoadNull,
        Op::LoadTrue => Op::LoadTrue,
        Op::LoadFalse => Op::LoadFalse,
        Op::LoadInt(x) => Op::LoadInt(*x),
        Op::LoadGlobal(x) => Op::LoadGlobal(*x),
        Op::LoadEnv(x) => Op::LoadEnv(*x),
        Op::LoadLocal(x) => Op::LoadLocal(*x),
        Op::LoadBuiltin(x) => Op::LoadBuiltin(x.clone()),
        Op::LoadThis => Op::LoadThis,
        Op::Load => Op::Load,
        Op::Store => Op::Store,
        Op::StoreEnv(x) => Op::StoreEnv(*x),
        Op::StoreLocal(x) => Op::StoreLocal(*x),
        Op::StoreThis => Op::StoreThis,
        Op::Pop(x) => Op::Pop(*x),
        Op::Call(x) => Op::Call(*x),
        Op::ObjCall(x) => Op::ObjCall(*x),
        Op::TailCall(x) => Op::TailCall(*x),
        Op::Jump(x) => Op::Jump(*x),
        Op::JumpIf(x) => Op::JumpIf(*x),
        Op::JumpIfNot(x) => Op::JumpIfNot(*x),
        Op::CatchPush(x) => Op::CatchPush(*x),
        Op::Throw => Op::Throw,
        Op::Ret => Op::Ret,
        Op::MakeEnv(x) => Op::MakeEnv(*x),
        Op::MakeArray(x) => Op::MakeArray(*x),
        Op::IsNull => Op::IsNull,
        Op::IsNotNull => Op::IsNotNull,
        Op::Add => Op::Add,
        Op::Sub => Op::Sub,
        Op::Div => Op::Div,
        Op::Mul => Op::Mul,
        Op::Mod => Op::Mod,
        Op::Shl => Op::Shl,
        Op::Shr => Op::Shr,
        Op::UShr => Op::UShr,
        Op::Or => Op::Or,
        Op::And => Op::And,
        Op::Xor => Op::Xor,
        Op::Eq => Op::Eq,
        Op::Neq => Op::Neq,
        Op::Gt => Op::Gt,
        Op::Gte => Op::Gte,
        Op::Lt => Op::Lt,
        Op::Lte => Op::Lte,
        Op::Not => Op::Not,
        Op::Neg => Op::Neg,
        Op::Hash => Op::Hash,
        Op::New => Op::New,
        Op::Nop => Op::Nop,
        Op::Last => Op::Last,
    }
}

/// The tag byte of an instruction.
pub open spec fn op_tag(op: Op) -> u8 {
    match op {
        Op::LoadNull => 0u8,
        Op::LoadTrue => 1u8,
        Op::LoadFalse => 2u8,
        Op::LoadInt(_) => 3u8,
        Op::LoadGlobal(_) => 4u8,
        Op::LoadEnv(_) => 5u8,
        Op::LoadLocal(_) => 6u8,
        Op::LoadBuiltin(_) => 7u8,
        Op::LoadThis => 8u8,
        Op::Load => 9u8,
        Op::Store => 10u8,
        Op::StoreEnv(_) => 11u8,
        Op::StoreLocal(_) => 12u8,
        Op::StoreThis => 13u8,
        Op::Pop(_) => 14u8,
        Op::Call(_) => 15u8,
        Op::ObjCall(_) => 16u8,
        Op::TailCall(_) => 17u8,
        Op::Jump(_) => 18u8,
        Op::JumpIf(_) => 19u8,
        Op::JumpIfNot(_) => 20u8,
        Op::CatchPush(_) => 21u8,
        Op::Throw => 22u8,
        Op::Ret => 23u8,
        Op::MakeEnv(_) => 24u8,
        Op::MakeArray(_) => 25u8,
        Op::IsNull => 26u8,
        Op::IsNotNull => 27u8,
        Op::Add => 28u8,
        Op::Sub => 29u8,
        Op::Div => 30u8,
        Op::Mul => 31u8,
        Op::Mod => 32u8,
        Op::Shl => 33u8,
        Op::Shr => 34u8,
        Op::UShr => 35u8,
        Op::Or => 36u8,
        Op::And => 37u8,
        Op::Xor => 38u8,
        Op::Eq => 39u8,
        Op::Neq => 40u8,
        Op::Gt => 41u8,
        Op::Gte => 42u8,
        Op::Lt => 43u8,
        Op::Lte => 44u8,
        Op::Not => 45u8,
        Op::Neg => 46u8,
        Op::Hash => 47u8,
        Op::New => 48u8,
        Op::Nop => 49u8,
        Op::Last => 50u8,
    }
}

/// The instruction without operand that a tag stands for, if any.
pub open spec fn nullary_op(tag: u8) -> Option<Op> {
    match tag {
        0 => Some(Op::LoadNull),
        1 => Some(Op::LoadTrue),
        2 => Some(Op::LoadFalse),
        8 => Some(Op::LoadThis),
        9 => Some(Op::Load),
        10 => Some(Op::Store),
        13 => Some(Op::StoreThis),
        22 => Some(Op::Throw),
        23 => Some(Op::Ret),
        26 => Some(Op::IsNull),
        27 => Some(Op::IsNotNull),
        28 => Some(Op::Add),
        29 => Some(Op::Sub),
        30 => Some(Op::Div),
        31 => Some(Op::Mul),
        32 => Some(Op::Mod),
        33 => Some(Op::Shl),
        34 => Some(Op::Shr),
        35 => Some(Op::UShr),
        36 => Some(Op::Or),
        37 => Some(Op::And),
        38 => Some(Op::Xor),
        39 => Some(Op::Eq),
        40 => Some(Op::Neq),
        41 => Some(Op::Gt),
        42 => Some(Op::Gte),
        43 => Some(Op::Lt),
        44 => Some(Op::Lte),
        45 => Some(Op::Not),
        46 => Some(Op::Neg),
        47 => Some(Op::Hash),
        48 => Some(Op::New),
        49 => Some(Op::Nop),
        50 => Some(Op::Last),
        _ => None,
    }
}

/// The instruction with a 16-bit operand that a tag stands for, if any.
pub open spec fn u16_op(tag: u8, x: u16) -> Option<Op> {
    match tag {
        5 => Some(Op::LoadEnv(x)),
        6 => Some(Op::LoadLocal(x)),
        11 => Some(Op::StoreEnv(x)),
        12 => Some(Op::StoreLocal(x)),
        14 => Some(Op::Pop(x)),
        15 => Some(Op::Call(x)),
        16 => Some(Op::ObjCall(x)),
        17 => Some(Op::TailCall(x)),
        24 => Some(Op::MakeEnv(x)),
        25 => Some(Op::MakeArray(x)),
        _ => None,
    }
}

/// The instruction with a 32-bit operand that a tag stands for, if any.
pub open spec fn u32_op(tag: u8, x: u32) -> Option<Op> {
    match tag {
        4 => Some(Op::LoadGlobal(x)),
        18 => Some(Op::Jump(x)),
        19 => Some(Op::JumpIf(x)),
        20 => Some(Op::JumpIfNot(x)),
        21 => Some(Op::CatchPush(x)),
        _ => None,
    }
}

/// The instruction without operand that a tag stands for, if any.
pub fn decode_nullary(tag: u8) -> (r: Option<Op>)
    ensures
        r == nullary_op(tag),
{
    match tag {
        0 => Some(Op::LoadNull),
        1 => Some(Op::LoadTrue),
        2 => Some(Op::LoadFalse),
        8 => Some(Op::LoadThis),
        9 => Some(Op::Load),
        10 => Some(Op::Store),
        13 => Some(Op::StoreThis),
        22 => Some(Op::Throw),
        23 => Some(Op::Ret),
        26 => Some(Op::IsNull),
        27 => Some(Op::IsNotNull),
        28 => Some(Op::Add),
        29 => Some(Op::Sub),
        30 => Some(Op::Div),
        31 => Some(Op::Mul),
        32 => Some(Op::Mod),
        33 => Some(Op::Shl),
        34 => Some(Op::Shr),
        35 => Some(Op::UShr),
        36 => Some(Op::Or),
        37 => Some(Op::And),
        38 => Some(Op::Xor),
        39 => Some(Op::Eq),
        40 => Some(Op::Neq),
        41 => Some(Op::Gt),
        42 => Some(Op::Gte),
        43 => Some(Op::Lt),
        44 => Some(Op::Lte),
        45 => Some(Op::Not),
        46 => Some(Op::Neg),
        47 => Some(Op::Hash),
        48 => Some(Op::New),
        49 => Some(Op::Nop),
        50 => Some(Op::Last),
        _ => None,
    }
}

/// The instruction with a 16-bit operand that a tag stands for, if any.
pub fn decode_u16_op(tag: u8, x: u16) -> (r: Option<Op>)
    ensures
        r == u16_op(tag, x),
{
    match tag {
        5 => Some(Op::LoadEnv(x)),
        6 => Some(Op::LoadLocal(x)),
        11 => Some(Op::StoreEnv(x)),
        12 => Some(Op::StoreLocal(x)),
        14 => Some(Op::Pop(x)),
        15 => Some(Op::Call(x)),
        16 => Some(Op::ObjCall(x)),
        17 => Some(Op::TailCall(x)),
        24 => Some(Op::MakeEnv(x)),
        25 => Some(Op::MakeArray(x)),
        _ => None,
    }
}

/// The instruction with a 32-bit operand that a tag stands for, if any.
pub fn decode_u32_op(tag: u8, x: u32) -> (r: Option<Op>)
    ensures
        r == u32_op(tag, x),
{
    match tag {
        4 => Some(Op::LoadGlobal(x)),
        18 => Some(Op::Jump(x)),
        19 => Some(Op::JumpIf(x)),
        20 => Some(Op::JumpIfNot(x)),
        21 => Some(Op::CatchPush(x)),
        _ => None,
    }
}

/// The tag byte of an instruction.
pub fn tag_of(op: &Op) -> (t: u8)
    ensures
        t == op_tag(*op),
{
    match op {
        Op::LoadNull => 0,
        Op::LoadTrue => 1,
        Op::LoadFalse => 2,
        Op::LoadInt(_) => 3,
        Op::LoadGlobal(_) => 4,
        Op::LoadEnv(_) => 5,
        Op::LoadLocal(_) => 6,
        Op::LoadBuiltin(_) => 7,
        Op::LoadThis => 8,
        Op::Load => 9,
        Op::Store => 10,
        Op::StoreEnv(_) => 11,
        Op::StoreLocal(_) => 12,
        Op::StoreThis => 13,
        Op::Pop(_) => 14,
        Op::Call(_) => 15,
        Op::ObjCall(_) => 16,
        Op::TailCall(_) => 17,
        Op::Jump(_) => 18,
        Op::JumpIf(_) => 19,
        Op::JumpIfNot(_) => 20,
        Op::CatchPush(_) => 21,
        Op::Throw => 22,
        Op::Ret => 23,
        Op::MakeEnv(_) => 24,
        Op::MakeArray(_) => 25,
        Op::IsNull => 26,
        Op::IsNotNull => 27,
        Op::Add => 28,
        Op::Sub => 29,
        Op::Div => 30,
        Op::Mul => 31,
        Op::Mod => 32,
        Op::Shl => 33,
        Op::Shr => 34,
        Op::UShr => 35,
        Op::Or => 36,
        Op::And => 37,
        Op::Xor => 38,
        Op::Eq => 39,
        Op::Neq => 40,
        Op::Gt => 41,
        Op::Gte => 42,
        Op::Lt => 43,
        Op::Lte => 44,
        Op::Not => 45,
        Op::Neg => 46,
        Op::Hash => 47,
        Op::New => 48,
        Op::Nop => 49,
        Op::Last => 50,
    }
}

/// Every instruction is found again from its tag and its operand.
pub proof fn lemma_op_tag_inverse(op: Op)
    ensures
        match op {
            Op::LoadInt(_) => op_tag(op) == 3,
            Op::LoadBuiltin(_) => op_tag(op) == 7,
            Op::LoadGlobal(x) => u32_op(op_tag(op), x) == Some(op) && nullary_op(op_tag(op)) is None && u16_op(op_tag(op), 0) is None,
            Op::LoadEnv(x) => u16_op(op_tag(op), x) == Some(op) && nullary_op(op_tag(op)) is None,
            Op::LoadLocal(x) => u16_op(op_tag(op), x) == Some(op) && nullary_op(op_tag(op)) is None,
            Op::StoreEnv(x) => u16_op(op_tag(op), x) == Some(op) && nullary_op(op_tag(op)) is None,
            Op::StoreLocal(x) => u16_op(op_tag(op), x) == Some(op) && nullary_op(op_tag(op)) is None,
            Op::Pop(x) => u16_op(op_tag(op), x) == Some(op) && nullary_op(op_tag(op)) is None,
            Op::Call(x) => u16_op(op_tag(op), x) == Some(op) && nullary_op(op_tag(op)) is None,
            Op::ObjCall(x) => u16_op(op_tag(op), x) == Some(op) && nullary_op(op_tag(op)) is None,
            Op::TailCall(x) => u16_op(op_tag(op), x) == Some(op) && nullary_op(op_tag(op)) is None,
            Op::Jump(x) => u32_op(op_tag(op), x) == Some(op) && nullary_op(op_tag(op)) is None && u16_op(op_tag(op), 0) is None,
            Op::JumpIf(x) => u32_op(op_tag(op), x) == Some(op) && nullary_op(op_tag(op)) is None && u16_op(op_tag(op), 0) is None,
            Op::JumpIfNot(x) => u32_op(op_tag(op), x) == Some(op) && nullary_op(op_tag(op)) is None && u16_op(op_tag(op), 0) is None,
            Op::CatchPush(x) => u32_op(op_tag(op), x) == Some(op) && nullary_op(op_tag(op)) is None && u16_op(op_tag(op), 0) is None,
            Op::MakeEnv(x) => u16_op(op_tag(op), x) == Some(op) && nullary_op(op_tag(op)) is None,
            Op::MakeArray(x) => u16_op(op_tag(op), x) == Some(op) && nullary_op(op_tag(op)) is None,
            _ => nullary_op(op_tag(op)) == Some(op),
        },
{
}

} // verus!
