//! The instruction set of the register-less Jazz machine and its byte layout:
//! each instruction is a one- or two-byte prefix followed by its operand.

use vstd::prelude::*;

verus! {

/// One instruction of the Jazz machine. Counts and indices are 32-bit; a
/// float constant is held by its IEEE-754 bit pattern.
#[derive(Clone, Debug)]
pub enum Opcode {
    LdInt(i64),
    LdFloat(u64),
    LdStr(String),
    LdFalse,
    LdTrue,
    LdNull,
    LdThis,
    LdField(u64),
    LdLocal(u32),
    LdGlobal(u32),
    LdEnv(u32),
    LdBuiltin(u32),
    LdIndex(u32),
    LdArray,
    SetLocal(u32),
    SetGlobal(u32),
    SetEnv(u32),
    SetField(u64),
    SetArray,
    SetIndex(u32),
    SetThis,
    Pop(u32),
    Apply(u32),
    Call(u32),
    TailCall(u32),
    ObjCall(u32),
    Jump(u32),
    JumpIf(u32),
    JumpIfNot(u32),
    Ret,
    MakeEnv(u32),
    MakeArray(u32),
    Neg,
    Bool,
    Not,
    IsNull,
    IsNotNull,
    Add,
    Sub,
    Mul,
    Div,
    Rem,
    Shl,
    Shr,
    UShr,
    Or,
    And,
    Xor,
    Eq,
    Neq,
    Lt,
    Lte,
    Gt,
    Gte,
    Nop,
    TypeOf,
    Hash,
    New,
    Yield,
    Last,
    Band,
    Bor,
    JumpTable,
}

/// An instruction as the contracts see it: a string constant by its
/// characters, every other instruction as it is.
pub enum OpcodeV {
    Str(Seq<char>),
    Plain(Opcode),
}

impl View for Opcode {
    type V = OpcodeV;

    open spec fn view(&self) -> OpcodeV {
        match self {
            Opcode::LdStr(s) => OpcodeV::Str(s@),
            _ => OpcodeV::Plain(*self),
        }
    }
}

/// A copy of an instruction.
pub fn copy_opcode(op: &Opcode) -> (r: Opcode)
    ensures
        r@ == op@,
{
    match op {
        Opcode::LdInt(x) => Opcode::LdInt(*x),
        Opcode::LdFloat(x) => Opcode::LdFloat(*x),
        Opcode::LdStr(x) => Opcode::LdStr(x.clone()),
        Opcode::LdFalse => Opcode::LdFalse,
        Opcode::LdTrue => Opcode::LdTrue,
        Opcode::LdNull => Opcode::LdNull,
        Opcode::LdThis => Opcode::LdThis,
        Opcode::LdField(x) => Opcode::LdField(*x),
        Opcode::LdLocal(x) => Opcode::LdLocal(*x),
        Opcode::LdGlobal(x) => Opcode::LdGlobal(*x),
        Opcode::LdEnv(x) => Opcode::LdEnv(*x),
        Opcode::LdBuiltin(x) => Opcode::LdBuiltin(*x),
        Opcode::LdIndex(x) => Opcode::LdIndex(*x),
        Opcode::LdArray => Opcode::LdArray,
        Opcode::SetLocal(x) => Opcode::SetLocal(*x),
        Opcode::SetGlobal(x) => Opcode::SetGlobal(*x),
        Opcode::SetEnv(x) => Opcode::SetEnv(*x),
        Opcode::SetField(x) => Opcode::SetField(*x),
        Opcode::SetArray => Opcode::SetArray,
        Opcode::SetIndex(x) => Opcode::SetIndex(*x),
        Opcode::SetThis => Opcode::SetThis,
        Opcode::Pop(x) => Opcode::Pop(*x),
        Opcode::Apply(x) => Opcode::Apply(*x),
        Opcode::Call(x) => Opcode::Call(*x),
        Opcode::TailCall(x) => Opcode::TailCall(*x),
        Opcode::ObjCall(x) => Opcode::ObjCall(*x),
        Opcode::Jump(x) => Opcode::Jump(*x),
        Opcode::JumpIf(x) => Opcode::JumpIf(*x),
        Opcode::JumpIfNot(x) => Opcode::JumpIfNot(*x),
        Opcode::Ret => Opcode::Ret,
        Opcode::MakeEnv(x) => Opcode::MakeEnv(*x),
        Opcode::MakeArray(x) => Opcode::MakeArray(*x),
        Opcode::Neg => Opcode::Neg,
        Opcode::Bool => Opcode::Bool,
        Opcode::Not => Opcode::Not,
        Opcode::IsNull => Opcode::IsNull,
        Opcode::IsNotNull => Opcode::IsNotNull,
        Opcode::Add => Opcode::Add,
        Opcode::Sub => Opcode::Sub,
        Opcode::Mul => Opcode::Mul,
        Opcode::Div => Opcode::Div,
        Opcode::Rem => Opcode::Rem,
        Opcode::Shl => Opcode::Shl,
        Opcode::Shr => Opcode::Shr,
        Opcode::UShr => Opcode::UShr,
        Opcode::Or => Opcode::Or,
        Opcode::And => Opcode::And,
        Opcode::Xor => Opcode::Xor,
        Opcode::Eq => Opcode::Eq,
        Opcode::Neq => Opcode::Neq,
        Opcode::Lt => Opcode::Lt,
        Opcode::Lte => Opcode::Lte,
        Opcode::Gt => Opcode::Gt,
        Opcode::Gte => Opcode::Gte,
        Opcode::Nop => Opcode::Nop,
        Opcode::TypeOf => Opcode::TypeOf,
        Opcode::Hash => Opcode::Hash,
        Opcode::New => Opcode::New,
        Opcode::Yield => Opcode::Yield,
        Opcode::Last => Opcode::Last,
        Opcode::Band => Opcode::Band,
        Opcode::Bor => Opcode::Bor,
        Opcode::JumpTable => Opcode::JumpTable,
    }
}

/// Whether the emitter has a layout for the instruction.
pub open spec fn encodable(op: Opcode) -> bool {
    !(op is Band || op is Bor || op is JumpTable)
}

/// The counts the emitter writes in 16 bits fit there.
pub open spec fn count_fits(op: Opcode) -> bool {
    match op {
        Opcode::Pop(x) => x <= u16::MAX,
        Opcode::Apply(x) => x <= u16::MAX,
        Opcode::Call(x) => x <= u16::MAX,
        Opcode::TailCall(x) => x <= u16::MAX,
        Opcode::ObjCall(x) => x <= u16::MAX,
        _ => true,
    }
}

/// The prefix bytes of an instruction.
pub open spec fn op_prefix(op: Opcode) -> Seq<u8> {
    match op {
        Opcode::LdInt(_) => seq![0u8],
        Opcode::LdFloat(_) => seq![1u8],
        Opcode::LdStr(_) => seq![2u8],
        Opcode::LdFalse => seq![3u8, 0u8],
        Opcode::LdTrue => seq![3u8, 1u8],
        Opcode::LdNull => seq![3u8, 2u8],
        Opcode::LdThis => seq![3u8, 3u8],
        Opcode::LdField(_) => seq![3u8, 4u8],
        Opcode::LdLocal(_) => seq![3u8, 5u8],
        Opcode::LdGlobal(_) => seq![3u8, 6u8],
        Opcode::LdEnv(_) => seq![3u8, 7u8],
        Opcode::LdBuiltin(_) => seq![3u8, 8u8],
        Opcode::LdIndex(_) => seq![3u8, 9u8],
        Opcode::LdArray => seq![3u8, 10u8],
        Opcode::SetLocal(_) => seq![4u8, 0u8],
        Opcode::SetGlobal(_) => seq![4u8, 1u8],
        Opcode::SetEnv(_) => seq![4u8, 2u8],
        Opcode::SetField(_) => seq![4u8, 3u8],
        Opcode::SetArray => seq![4u8, 4u8],
        Opcode::SetIndex(_) => seq![4u8, 5u8],
        Opcode::SetThis => seq![4u8, 6u8],
        Opcode::Pop(_) => seq![5u8],
        Opcode::Apply(_) => seq![6u8],
        Opcode::Call(_) => seq![7u8],
        Opcode::TailCall(_) => seq![8u8],
        Opcode::ObjCall(_) => seq![9u8],
        Opcode::Jump(_) => seq![10u8, 0u8],
        Opcode::JumpIf(_) => seq![10u8, 1u8],
        Opcode::JumpIfNot(_) => seq![10u8, 2u8],
        Opcode::Ret => seq![11u8],
        Opcode::MakeEnv(_) => seq![12u8],
        Opcode::MakeArray(_) => seq![13u8],
        Opcode::Neg => seq![14u8],
        Opcode::Bool => seq![15u8],
        Opcode::Not => seq![16u8],
        Opcode::IsNull => seq![17u8],
        Opcode::IsNotNull => seq![18u8],
        Opcode::Add => seq![19u8, 0u8],
        Opcode::Sub => seq![19u8, 1u8],
        Opcode::Mul => seq![19u8, 2u8],
        Opcode::Div => seq![19u8, 3u8],
        Opcode::Rem => seq![19u8, 4u8],
        Opcode::Shl => seq![19u8, 5u8],
        Opcode::Shr => seq![19u8, 6u8],
        Opcode::UShr => seq![19u8, 7u8],
        Opcode::Or => seq![19u8, 8u8],
        Opcode::And => seq![19u8, 9u8],
        Opcode::Xor => seq![19u8, 10u8],
        Opcode::Eq => seq![19u8, 11u8],
        Opcode::Neq => seq![19u8, 12u8],
        Opcode::Lt => seq![19u8, 13u8],
        Opcode::Lte => seq![19u8, 14u8],
        Opcode::Gt => seq![19u8, 15u8],
        Opcode::Gte => seq![19u8, 16u8],
        Opcode::Nop => seq![20u8],
        Opcode::TypeOf => seq![21u8],
        Opcode::Hash => seq![22u8],
        Opcode::New => seq![23u8],
        Opcode::Yield => seq![24u8],
        Opcode::Last => seq![25u8],
        Opcode::Band => seq![26u8],
        Opcode::Bor => seq![27u8],
        Opcode::JumpTable => Seq::empty(),
    }
}

/// The operand of an instruction other than `LdInt` and `LdStr`, widened to
/// 64 bits.
pub open spec fn op_value(op: Opcode) -> u64 {
    match op {
        Opcode::LdFloat(x) => x,
        Opcode::LdField(x) => x,
        Opcode::LdLocal(x) => x as u64,
        Opcode::LdGlobal(x) => x as u64,
        Opcode::LdEnv(x) => x as u64,
        Opcode::LdBuiltin(x) => x as u64,
        Opcode::LdIndex(x) => x as u64,
        Opcode::SetLocal(x) => x as u64,
        Opcode::SetGlobal(x) => x as u64,
        Opcode::SetEnv(x) => x as u64,
        Opcode::SetField(x) => x,
        Opcode::SetIndex(x) => x as u64,
        Opcode::Pop(x) => (x as u16) as u64,
        Opcode::Apply(x) => (x as u16) as u64,
        Opcode::Call(x) => (x as u16) as u64,
        Opcode::TailCall(x) => (x as u16) as u64,
        Opcode::ObjCall(x) => (x as u16) as u64,
        Opcode::Jump(x) => x as u64,
        Opcode::JumpIf(x) => x as u64,
        Opcode::JumpIfNot(x) => x as u64,
        Opcode::MakeEnv(x) => x as u64,
        Opcode::MakeArray(x) => x as u64,
        _ => 0,
    }
}

/// The operand width in bytes of an instruction with a prefix layout.
pub open spec fn op_width(op: Opcode) -> int {
    match op {
        Opcode::LdFloat(_) => 8,
        Opcode::LdField(_) => 8,
        Opcode::LdLocal(_) => 4,
        Opcode::LdGlobal(_) => 4,
        Opcode::LdEnv(_) => 4,
        Opcode::LdBuiltin(_) => 4,
        Opcode::LdIndex(_) => 4,
        Opcode::SetLocal(_) => 4,
        Opcode::SetGlobal(_) => 4,
        Opcode::SetEnv(_) => 4,
        Opcode::SetField(_) => 8,
        Opcode::SetIndex(_) => 4,
        Opcode::Pop(_) => 2,
        Opcode::Apply(_) => 2,
        Opcode::Call(_) => 2,
        Opcode::TailCall(_) => 2,
        Opcode::ObjCall(_) => 2,
        Opcode::Jump(_) => 4,
        Opcode::JumpIf(_) => 4,
        Opcode::JumpIfNot(_) => 4,
        Opcode::MakeEnv(_) => 4,
        Opcode::MakeArray(_) => 4,
        _ => 0,
    }
}

/// The operand width in bytes after a one-byte prefix, -1 when the byte is
/// no such prefix.
pub open spec fn width1(t: u8) -> int {
    match t {
        1u8 => 8,
        5u8 => 2,
        6u8 => 2,
        7u8 => 2,
        8u8 => 2,
        9u8 => 2,
        11u8 => 0,
        12u8 => 4,
        13u8 => 4,
        14u8 => 0,
        15u8 => 0,
        16u8 => 0,
        17u8 => 0,
        18u8 => 0,
        20u8 => 0,
        21u8 => 0,
        22u8 => 0,
        23u8 => 0,
        24u8 => 0,
        25u8 => 0,
        26u8 => 0,
        27u8 => 0,
        _ => -1,
    }
}

/// The operand width in bytes after a two-byte prefix, -1 when the bytes are
/// no such prefix.
pub open spec fn width2(t: u8, b: u8) -> int {
    match (t, b) {
        (3u8, 0u8) => 0,
        (3u8, 1u8) => 0,
        (3u8, 2u8) => 0,
        (3u8, 3u8) => 0,
        (3u8, 4u8) => 8,
        (3u8, 5u8) => 4,
        (3u8, 6u8) => 4,
        (3u8, 7u8) => 4,
        (3u8, 8u8) => 4,
        (3u8, 9u8) => 4,
        (3u8, 10u8) => 0,
        (4u8, 0u8) => 4,
        (4u8, 1u8) => 4,
        (4u8, 2u8) => 4,
        (4u8, 3u8) => 8,
        (4u8, 4u8) => 0,
        (4u8, 5u8) => 4,
        (4u8, 6u8) => 0,
        (10u8, 0u8) => 4,
        (10u8, 1u8) => 4,
        (10u8, 2u8) => 4,
        (19u8, 0u8) => 0,
        (19u8, 1u8) => 0,
        (19u8, 2u8) => 0,
        (19u8, 3u8) => 0,
        (19u8, 4u8) => 0,
        (19u8, 5u8) => 0,
        (19u8, 6u8) => 0,
        (19u8, 7u8) => 0,
        (19u8, 8u8) => 0,
        (19u8, 9u8) => 0,
        (19u8, 10u8) => 0,
        (19u8, 11u8) => 0,
        (19u8, 12u8) => 0,
        (19u8, 13u8) => 0,
        (19u8, 14u8) => 0,
        (19u8, 15u8) => 0,
        (19u8, 16u8) => 0,
        _ => -1,
    }
}

/// Whether a first byte opens a two-byte prefix.
pub open spec fn two_byte(t: u8) -> bool {
    t == 3 || t == 4 || t == 10 || t == 19
}

/// The instruction a one-byte prefix and its operand stand for.
pub open spec fn make_op1(t: u8, x: u64) -> Option<Opcode> {
    match t {
        1u8 => Some(Opcode::LdFloat(x)),
        5u8 => Some(Opcode::Pop(x as u32)),
        6u8 => Some(Opcode::Apply(x as u32)),
        7u8 => Some(Opcode::Call(x as u32)),
        8u8 => Some(Opcode::TailCall(x as u32)),
        9u8 => Some(Opcode::ObjCall(x as u32)),
        11u8 => Some(Opcode::Ret),
        12u8 => Some(Opcode::MakeEnv(x as u32)),
        13u8 => Some(Opcode::MakeArray(x as u32)),
        14u8 => Some(Opcode::Neg),
        15u8 => Some(Opcode::Bool),
        16u8 => Some(Opcode::Not),
        17u8 => Some(Opcode::IsNull),
        18u8 => Some(Opcode::IsNotNull),
        20u8 => Some(Opcode::Nop),
        21u8 => Some(Opcode::TypeOf),
        22u8 => Some(Opcode::Hash),
        23u8 => Some(Opcode::New),
        24u8 => Some(Opcode::Yield),
        25u8 => Some(Opcode::Last),
        26u8 => Some(Opcode::Band),
        27u8 => Some(Opcode::Bor),
        _ => None,
    }
}

/// The instruction a two-byte prefix and its operand stand for.
pub open spec fn make_op2(t: u8, b: u8, x: u64) -> Option<Opcode> {
    match (t, b) {
        (3u8, 0u8) => Some(Opcode::LdFalse),
        (3u8, 1u8) => Some(Opcode::LdTrue),
        (3u8, 2u8) => Some(Opcode::LdNull),
        (3u8, 3u8) => Some(Opcode::LdThis),
        (3u8, 4u8) => Some(Opcode::LdField(x)),
        (3u8, 5u8) => Some(Opcode::LdLocal(x as u32)),
        (3u8, 6u8) => Some(Opcode::LdGlobal(x as u32)),
        (3u8, 7u8) => Some(Opcode::LdEnv(x as u32)),
        (3u8, 8u8) => Some(Opcode::LdBuiltin(x as u32)),
        (3u8, 9u8) => Some(Opcode::LdIndex(x as u32)),
        (3u8, 10u8) => Some(Opcode::LdArray),
        (4u8, 0u8) => Some(Opcode::SetLocal(x as u32)),
        (4u8, 1u8) => Some(Opcode::SetGlobal(x as u32)),
        (4u8, 2u8) => Some(Opcode::SetEnv(x as u32)),
        (4u8, 3u8) => Some(Opcode::SetField(x)),
        (4u8, 4u8) => Some(Opcode::SetArray),
        (4u8, 5u8) => Some(Opcode::SetIndex(x as u32)),
        (4u8, 6u8) => Some(Opcode::SetThis),
        (10u8, 0u8) => Some(Opcode::Jump(x as u32)),
        (10u8, 1u8) => Some(Opcode::JumpIf(x as u32)),
        (10u8, 2u8) => Some(Opcode::JumpIfNot(x as u32)),
        (19u8, 0u8) => Some(Opcode::Add),
        (19u8, 1u8) => Some(Opcode::Sub),
        (19u8, 2u8) => Some(Opcode::Mul),
        (19u8, 3u8) => Some(Opcode::Div),
        (19u8, 4u8) => Some(Opcode::Rem),
        (19u8, 5u8) => Some(Opcode::Shl),
        (19u8, 6u8) => Some(Opcode::Shr),
        (19u8, 7u8) => Some(Opcode::UShr),
        (19u8, 8u8) => Some(Opcode::Or),
        (19u8, 9u8) => Some(Opcode::And),
        (19u8, 10u8) => Some(Opcode::Xor),
        (19u8, 11u8) => Some(Opcode::Eq),
        (19u8, 12u8) => Some(Opcode::Neq),
        (19u8, 13u8) => Some(Opcode::Lt),
        (19u8, 14u8) => Some(Opcode::Lte),
        (19u8, 15u8) => Some(Opcode::Gt),
        (19u8, 16u8) => Some(Opcode::Gte),
        _ => None,
    }
}

/// The operand width after a one-byte prefix, -1 for no such prefix.
pub fn operand_width1(t: u8) -> (w: i8)
    ensures
        w == width1(t),
{
    match t {
        1 => 8,
        5 => 2,
        6 => 2,
        7 => 2,
        8 => 2,
        9 => 2,
        11 => 0,
        12 => 4,
        13 => 4,
        14 => 0,
        15 => 0,
        16 => 0,
        17 => 0,
        18 => 0,
        20 => 0,
        21 => 0,
        22 => 0,
        23 => 0,
        24 => 0,
        25 => 0,
        26 => 0,
        27 => 0,
        _ => -1,
    }
}

/// The operand width after a two-byte prefix, -1 for no such prefix.
pub fn operand_width2(t: u8, b: u8) -> (w: i8)
    ensures
        w == width2(t, b),
{
    match (t, b) {
        (3, 0) => 0,
        (3, 1) => 0,
        (3, 2) => 0,
        (3, 3) => 0,
        (3, 4) => 8,
        (3, 5) => 4,
        (3, 6) => 4,
        (3, 7) => 4,
        (3, 8) => 4,
        (3, 9) => 4,
        (3, 10) => 0,
        (4, 0) => 4,
        (4, 1) => 4,
        (4, 2) => 4,
        (4, 3) => 8,
        (4, 4) => 0,
        (4, 5) => 4,
        (4, 6) => 0,
        (10, 0) => 4,
        (10, 1) => 4,
        (10, 2) => 4,
        (19, 0) => 0,
        (19, 1) => 0,
        (19, 2) => 0,
        (19, 3) => 0,
        (19, 4) => 0,
        (19, 5) => 0,
        (19, 6) => 0,
        (19, 7) => 0,
        (19, 8) => 0,
        (19, 9) => 0,
        (19, 10) => 0,
        (19, 11) => 0,
        (19, 12) => 0,
        (19, 13) => 0,
        (19, 14) => 0,
        (19, 15) => 0,
        (19, 16) => 0,
        _ => -1,
    }
}

/// The instruction a one-byte prefix and its operand stand for.
pub fn decode_op1(t: u8, x: u64) -> (r: Option<Opcode>)
    ensures
        r == make_op1(t, x),
{
    match t {
        1 => Some(Opcode::LdFloat(x)),
        5 => Some(Opcode::Pop(x as u32)),
        6 => Some(Opcode::Apply(x as u32)),
        7 => Some(Opcode::Call(x as u32)),
        8 => Some(Opcode::TailCall(x as u32)),
        9 => Some(Opcode::ObjCall(x as u32)),
        11 => Some(Opcode::Ret),
        12 => Some(Opcode::MakeEnv(x as u32)),
        13 => Some(Opcode::MakeArray(x as u32)),
        14 => Some(Opcode::Neg),
        15 => Some(Opcode::Bool),
        16 => Some(Opcode::Not),
        17 => Some(Opcode::IsNull),
        18 => Some(Opcode::IsNotNull),
        20 => Some(Opcode::Nop),
        21 => Some(Opcode::TypeOf),
        22 => Some(Opcode::Hash),
        23 => Some(Opcode::New),
        24 => Some(Opcode::Yield),
        25 => Some(Opcode::Last),
        26 => Some(Opcode::Band),
        27 => Some(Opcode::Bor),
        _ => None,
    }
}

/// The instruction a two-byte prefix and its operand stand for.
pub fn decode_op2(t: u8, b: u8, x: u64) -> (r: Option<Opcode>)
    ensures
        r == make_op2(t, b, x),
{
    match (t, b) {
        (3, 0) => Some(Opcode::LdFalse),
        (3, 1) => Some(Opcode::LdTrue),
        (3, 2) => Some(Opcode::LdNull),
        (3, 3) => Some(Opcode::LdThis),
        (3, 4) => Some(Opcode::LdField(x)),
        (3, 5) => Some(Opcode::LdLocal(x as u32)),
        (3, 6) => Some(Opcode::LdGlobal(x as u32)),
        (3, 7) => Some(Opcode::LdEnv(x as u32)),
        (3, 8) => Some(Opcode::LdBuiltin(x as u32)),
        (3, 9) => Some(Opcode::LdIndex(x as u32)),
        (3, 10) => Some(Opcode::LdArray),
        (4, 0) => Some(Opcode::SetLocal(x as u32)),
        (4, 1) => Some(Opcode::SetGlobal(x as u32)),
        (4, 2) => Some(Opcode::SetEnv(x as u32)),
        (4, 3) => Some(Opcode::SetField(x)),
        (4, 4) => Some(Opcode::SetArray),
        (4, 5) => Some(Opcode::SetIndex(x as u32)),
        (4, 6) => Some(Opcode::SetThis),
        (10, 0) => Some(Opcode::Jump(x as u32)),
        (10, 1) => Some(Opcode::JumpIf(x as u32)),
        (10, 2) => Some(Opcode::JumpIfNot(x as u32)),
        (19, 0) => Some(Opcode::Add),
        (19, 1) => Some(Opcode::Sub),
        (19, 2) => Some(Opcode::Mul),
        (19, 3) => Some(Opcode::Div),
        (19, 4) => Some(Opcode::Rem),
        (19, 5) => Some(Opcode::Shl),
        (19, 6) => Some(Opcode::Shr),
        (19, 7) => Some(Opcode::UShr),
        (19, 8) => Some(Opcode::Or),
        (19, 9) => Some(Opcode::And),
        (19, 10) => Some(Opcode::Xor),
        (19, 11) => Some(Opcode::Eq),
        (19, 12) => Some(Opcode::Neq),
        (19, 13) => Some(Opcode::Lt),
        (19, 14) => Some(Opcode::Lte),
        (19, 15) => Some(Opcode::Gt),
        (19, 16) => Some(Opcode::Gte),
        _ => None,
    }
}

/// Every encodable instruction other than `LdInt` and `LdStr` is found again
/// from its prefix and its operand.
pub proof fn lemma_prefix_inverse(op: Opcode)
    requires
        encodable(op),
        count_fits(op),
        !(op is LdInt),
        !(op is LdStr),
    ensures
        op_prefix(op).len() == 1 ==> !two_byte(op_prefix(op)[0]) && op_prefix(op)[0] != 0
            && op_prefix(op)[0] != 2 && make_op1(op_prefix(op)[0], op_value(op)) == Some(op)
            && width1(op_prefix(op)[0]) == op_width(op),
        op_prefix(op).len() == 2 ==> two_byte(op_prefix(op)[0]) && make_op2(
            op_prefix(op)[0],
            op_prefix(op)[1],
            op_value(op),
        ) == Some(op) && width2(op_prefix(op)[0], op_prefix(op)[1]) == op_width(op),
        op_prefix(op).len() == 1 || op_prefix(op).len() == 2,
{
    match op {
        _ => {},
    }
}

} // verus!
