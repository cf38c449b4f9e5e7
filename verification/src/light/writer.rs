//! Writing a JazzLight module out as bytecode.

use vstd::prelude::*;
use vstd::utf8::encode_utf8;
use hashlink::LinkedHashMap;
use crate::bytes::{le16, le32, le64, push_u16_le, push_u32_le, push_u64_le};
use crate::lhm::{
    lemma_insert_finds, lhm_get, lhm_insert, name_ids, name_ids_entries, name_ids_get, name_ids_insert, name_ids_len,
};
use crate::light::opcodes::{Opcode, op_byte, op_name};
use crate::light::symbols::Symbols;
use crate::light::value::{Constant, ConstantV};
use crate::light::roundtrip::{dense, lemma_str_id_dense};

verus! {

/// The end-of-code marker.
pub const END_OF_CODE: u8 = 57;

/// The id `x` has in the name table `t`: its entry's id, or the table's size
/// when it is not there yet.
pub open spec fn str_id(t: Seq<(Seq<char>, u32)>, x: Seq<char>) -> u32 {
    match lhm_get(t, x) {
        Some(id) => id,
        None => t.len() as u32,
    }
}

/// The name table once `x` has an id: unchanged when it has one, else with
/// `x` appended under the table's size.
pub open spec fn with_name(t: Seq<(Seq<char>, u32)>, x: Seq<char>) -> Seq<(Seq<char>, u32)> {
    if lhm_get(t, x) is Some {
        t
    } else {
        lhm_insert(t, x, t.len() as u32)
    }
}

/// Asking for the id of a name a second time gives the same id and leaves
/// the table as it is.
pub proof fn lemma_str_id_twice(t: Seq<(Seq<char>, u32)>, x: Seq<char>)
    ensures
        with_name(with_name(t, x), x) == with_name(t, x),
        str_id(with_name(t, x), x) == str_id(t, x),
{
    if lhm_get(t, x) is None {
        lemma_insert_finds(t, x, t.len() as u32);
    }
}

/// The name table after registering the names the instructions use, in order.
pub open spec fn code_names(
    t: Seq<(Seq<char>, u32)>,
    code: Seq<Opcode>,
    syms: Seq<Seq<char>>,
) -> Seq<(Seq<char>, u32)>
    decreases code.len(),
{
    if code.len() == 0 {
        t
    } else {
        let t1 = code_names(t, code.drop_last(), syms);
        match op_name(code.last()) {
            Some(n) => with_name(t1, syms[n.0 as int]),
            None => t1,
        }
    }
}

/// The name table after registering the names the constants use, in order:
/// a string constant, and a function's parameter names.
pub open spec fn const_names(t: Seq<(Seq<char>, u32)>, cs: Seq<ConstantV>) -> Seq<(Seq<char>, u32)>
    decreases cs.len(),
{
    if cs.len() == 0 {
        t
    } else {
        let t1 = const_names(t, cs.drop_last());
        match cs.last() {
            ConstantV::Str(s) => with_name(t1, s),
            ConstantV::Func { args, .. } => arg_names(t1, args),
            _ => t1,
        }
    }
}

/// The name table after registering parameter names, in order.
pub open spec fn arg_names(t: Seq<(Seq<char>, u32)>, args: Seq<Seq<char>>) -> Seq<(Seq<char>, u32)>
    decreases args.len(),
{
    if args.len() == 0 {
        t
    } else {
        with_name(arg_names(t, args.drop_last()), args.last())
    }
}

/// One entry of the name table: its id, its byte length, its UTF-8 bytes.
pub open spec fn encode_name(e: (Seq<char>, u32)) -> Seq<u8> {
    le32(e.1) + le32(encode_utf8(e.0).len() as u32) + encode_utf8(e.0)
}

/// The entries of the name table, in table order.
pub open spec fn encode_names(t: Seq<(Seq<char>, u32)>) -> Seq<u8>
    decreases t.len(),
{
    if t.len() == 0 {
        Seq::empty()
    } else {
        encode_names(t.drop_last()) + encode_name(t.last())
    }
}

/// The ids of a function's parameter names, and the table after them.
pub open spec fn encode_args(t: Seq<(Seq<char>, u32)>, args: Seq<Seq<char>>) -> (Seq<u8>, Seq<
    (Seq<char>, u32),
>)
    decreases args.len(),
{
    if args.len() == 0 {
        (Seq::empty(), t)
    } else {
        let (b, t1) = encode_args(t, args.drop_last());
        (b + le32(str_id(t1, args.last())), with_name(t1, args.last()))
    }
}

/// One constant's bytes, and the table after it.
pub open spec fn encode_const(t: Seq<(Seq<char>, u32)>, c: ConstantV) -> (Seq<u8>, Seq<
    (Seq<char>, u32),
>) {
    match c {
        ConstantV::Number(bits) => (seq![1u8] + le64(bits), t),
        ConstantV::Bool(b) => (seq![2u8, if b { 1u8 } else { 0u8 }], t),
        ConstantV::Str(s) => (seq![3u8] + le32(str_id(t, s)), with_name(t, s)),
        ConstantV::Nil => (seq![4u8], t),
        ConstantV::Func { addr, args, set: _, get: _ } => {
            let (ab, t1) = encode_args(t, args);
            (seq![5u8] + le32(addr as u32) + le16(args.len() as u16) + seq![0u8] + ab, t1)
        },
    }
}

/// The constants' bytes, and the table after them.
pub open spec fn encode_consts(t: Seq<(Seq<char>, u32)>, cs: Seq<ConstantV>) -> (Seq<u8>, Seq<
    (Seq<char>, u32),
>)
    decreases cs.len(),
{
    if cs.len() == 0 {
        (Seq::empty(), t)
    } else {
        let (b, t1) = encode_consts(t, cs.drop_last());
        let (b2, t2) = encode_const(t1, cs.last());
        (b + b2, t2)
    }
}

/// One instruction's bytes, and the table after it: its byte, then its
/// operand, a name by its id.
pub open spec fn encode_op(t: Seq<(Seq<char>, u32)>, op: Opcode, syms: Seq<Seq<char>>) -> (Seq<
    u8,
>, Seq<(Seq<char>, u32)>) {
    match op {
        Opcode::LoadInt(x) => (seq![54u8] + le64(x as u64), t),
        Opcode::LoadConst(x) => (seq![5u8] + le32(x), t),
        Opcode::LoadVar(x) => (
            seq![6u8] + le32(str_id(t, syms[x.0 as int])),
            with_name(t, syms[x.0 as int]),
        ),
        Opcode::ConstructArray(x) => (seq![10u8] + le16(x as u16), t),
        Opcode::DeclVar(x) => (
            seq![11u8] + le32(str_id(t, syms[x.0 as int])),
            with_name(t, syms[x.0 as int]),
        ),
        Opcode::StoreVar(x) => (
            seq![12u8] + le32(str_id(t, syms[x.0 as int])),
            with_name(t, syms[x.0 as int]),
        ),
        Opcode::PushCatch(x) => (seq![13u8] + le32(x as u32), t),
        Opcode::Jump(x) => (seq![16u8] + le32(x), t),
        Opcode::JumpIf(x) => (seq![17u8] + le32(x), t),
        Opcode::JumpIfFalse(x) => (seq![18u8] + le32(x), t),
        Opcode::Call(x) => (seq![19u8] + le16(x as u16), t),
        Opcode::Pop(x) => (seq![20u8] + le16(x as u16), t),        _ => (seq![op_byte(op)], t),
    }
}

/// The instructions' bytes, and the table after them.
pub open spec fn encode_code(t: Seq<(Seq<char>, u32)>, code: Seq<Opcode>, syms: Seq<Seq<char>>) -> (Seq<
    u8,
>, Seq<(Seq<char>, u32)>)
    decreases code.len(),
{
    if code.len() == 0 {
        (Seq::empty(), t)
    } else {
        let (b, t1) = encode_code(t, code.drop_last(), syms);
        let (b2, t2) = encode_op(t1, code.last(), syms);
        (b + b2, t2)
    }
}

/// The bytecode of a module, and the name table after writing it: the names
/// the instructions and string constants use are registered first, the table
/// is written (its size, then its entries), then the constants (their count,
/// then each), then the instructions, then the end marker.
pub open spec fn emitted(
    t0: Seq<(Seq<char>, u32)>,
    code: Seq<Opcode>,
    cs: Seq<ConstantV>,
    syms: Seq<Seq<char>>,
) -> (Seq<u8>, Seq<(Seq<char>, u32)>) {
    let t1 = const_names(code_names(t0, code, syms), cs);
    let (cb, t2) = encode_consts(t1, cs);
    let (ob, t3) = encode_code(t2, code, syms);
    (
        le32(t1.len() as u32) + encode_names(t1) + le32(cs.len() as u32) + cb + ob + seq![
            END_OF_CODE,
        ],
        t3,
    )
}

/// Every name an instruction uses is in the symbol table.
pub open spec fn names_known(code: Seq<Opcode>, syms: Seq<Seq<char>>) -> bool {
    forall|i: int|
        0 <= i < code.len() ==> (#[trigger] op_name(code[i]) matches Some(n) ==> (n.0 as int)
            < syms.len())
}

/// The id of `x` in the name table, registering it under the table's size
/// when it has none.
fn name_id(names: &mut LinkedHashMap<String, u32>, x: &str) -> (id: u32)
    ensures
        id == str_id(name_ids(*old(names)), x@),
        name_ids(*final(names)) == with_name(name_ids(*old(names)), x@),
{
    match name_ids_get(names, x) {
        Some(id) => id,
        None => {
            let id = name_ids_len(names);
            name_ids_insert(names, x.to_owned(), id as u32);
            id as u32
        },
    }
}

/// Appends one instruction.
fn write_op(
    bytecode: &mut Vec<u8>,
    names: &mut LinkedHashMap<String, u32>,
    symbols: &Symbols,
    op: Opcode,
)
    requires
        op_name(op) matches Some(n) ==> (n.0 as int) < symbols@.len(),
    ensures
        final(bytecode)@ == old(bytecode)@ + encode_op(name_ids(*old(names)), op, symbols@).0,
        name_ids(*final(names)) == encode_op(name_ids(*old(names)), op, symbols@).1,
{
    let ghost start = bytecode@;
    let ghost t = name_ids(*names);
    match op {
        Opcode::LoadInt(x) => {
            bytecode.push(54);
            push_u64_le(bytecode, x as u64);
        },
        Opcode::LoadNil => bytecode.push(1),
        Opcode::LoadUndef => bytecode.push(2),
        Opcode::LoadTrue => bytecode.push(3),
        Opcode::LoadFalse => bytecode.push(4),
        Opcode::LoadConst(x) => {
            bytecode.push(5);
            push_u32_le(bytecode, x);
        },
        Opcode::LoadVar(x) => {
            let s = symbols.str(x);
            let id = name_id(names, s.as_str());
            bytecode.push(6);
            push_u32_le(bytecode, id);
        },
        Opcode::Load => bytecode.push(7),
        Opcode::Store => bytecode.push(8),
        Opcode::NewObj => bytecode.push(9),
        Opcode::ConstructArray(x) => {
            bytecode.push(10);
            push_u16_le(bytecode, x as u16);
        },
        Opcode::DeclVar(x) => {
            let s = symbols.str(x);
            let id = name_id(names, s.as_str());
            bytecode.push(11);
            push_u32_le(bytecode, id);
        },
        Opcode::StoreVar(x) => {
            let s = symbols.str(x);
            let id = name_id(names, s.as_str());
            bytecode.push(12);
            push_u32_le(bytecode, id);
        },
        Opcode::PushCatch(x) => {
            bytecode.push(13);
            push_u32_le(bytecode, x as u32);
        },
        Opcode::PopCatch => bytecode.push(14),
        Opcode::Throw => bytecode.push(15),
        Opcode::Jump(x) => {
            bytecode.push(16);
            push_u32_le(bytecode, x);
        },
        Opcode::JumpIf(x) => {
            bytecode.push(17);
            push_u32_le(bytecode, x);
        },
        Opcode::JumpIfFalse(x) => {
            bytecode.push(18);
            push_u32_le(bytecode, x);
        },
        Opcode::Call(x) => {
            bytecode.push(19);
            push_u16_le(bytecode, x as u16);
        },
        Opcode::Pop(x) => {
            bytecode.push(20);
            push_u16_le(bytecode, x as u16);
        },
        Opcode::Dup => bytecode.push(21),
        Opcode::PopEnv => bytecode.push(22),
        Opcode::PushEnv => bytecode.push(23),
        Opcode::InitEnv => bytecode.push(24),
        Opcode::Label => bytecode.push(25),
        Opcode::Yield => bytecode.push(26),
        Opcode::Return => bytecode.push(27),
        Opcode::NewIter => bytecode.push(28),
        Opcode::IterHasNext => bytecode.push(29),
        Opcode::IterNext => bytecode.push(30),
        Opcode::Add => bytecode.push(31),
        Opcode::Sub => bytecode.push(32),
        Opcode::Div => bytecode.push(33),
        Opcode::Mul => bytecode.push(34),
        Opcode::Rem => bytecode.push(35),
        Opcode::Shr => bytecode.push(36),
        Opcode::Shl => bytecode.push(37),
        Opcode::Gt => bytecode.push(38),
        Opcode::Lt => bytecode.push(39),
        Opcode::Ge => bytecode.push(40),
        Opcode::Le => bytecode.push(41),
        Opcode::Eq => bytecode.push(42),
        Opcode::Ne => bytecode.push(43),
        Opcode::And => bytecode.push(44),
        Opcode::Or => bytecode.push(45),
        Opcode::BitXor => bytecode.push(46),
        Opcode::BitOr => bytecode.push(47),
        Opcode::BitAnd => bytecode.push(48),
        Opcode::Not => bytecode.push(49),
        Opcode::Neg => bytecode.push(50),
        Opcode::BlockEnd => bytecode.push(51),
        Opcode::BlockStart => bytecode.push(52),    }
    assert(bytecode@ =~= start + encode_op(t, op, symbols@).0);
}

/// Appends one constant.
fn write_const(bytecode: &mut Vec<u8>, names: &mut LinkedHashMap<String, u32>, c: &Constant)
    ensures
        final(bytecode)@ == old(bytecode)@ + encode_const(name_ids(*old(names)), c@).0,
        name_ids(*final(names)) == encode_const(name_ids(*old(names)), c@).1,
{
    let ghost start = bytecode@;
    let ghost t = name_ids(*names);
    match c {
        Constant::Number(bits) => {
            bytecode.push(1);
            push_u64_le(bytecode, *bits);
        },
        Constant::Bool(b) => {
            bytecode.push(2);
            bytecode.push(if *b { 1 } else { 0 });
        },
        Constant::String(s) => {
            let id = name_id(names, s.as_str());
            bytecode.push(3);
            push_u32_le(bytecode, id);
        },
        Constant::Nil => {
            bytecode.push(4);
        },
        Constant::Function(f) => {
            let ghost args = f.args@.map_values(|a: String| a@);
            bytecode.push(5);
            push_u32_le(bytecode, f.addr as u32);
            push_u16_le(bytecode, f.args.len() as u16);
            bytecode.push(0);
            let ghost mid = bytecode@;
            let mut k: usize = 0;
            while k < f.args.len()
                invariant
                    args == f.args@.map_values(|a: String| a@),
                    k <= f.args@.len(),
                    bytecode@ == mid + encode_args(t, args.take(k as int)).0,
                    name_ids(*names) == encode_args(t, args.take(k as int)).1,
                decreases f.args@.len() - k,
            {
                let id = name_id(names, f.args[k].as_str());
                push_u32_le(bytecode, id);
                proof {
                    assert(args.take(k + 1).drop_last() =~= args.take(k as int));
                    assert(args.take(k + 1).last() == f.args@[k as int]@);
                    assert(bytecode@ =~= mid + encode_args(t, args.take(k + 1)).0);
                }
                k = k + 1;
            }
            assert(args.take(args.len() as int) =~= args);
        },
    }
    assert(bytecode@ =~= start + encode_const(t, c@).0);
}

/// Writes a module's names, constants and code into a byte buffer.
pub struct Writer {
    /// The symbols the instructions' names index.
    pub symbols: Symbols,
    /// The constant pool.
    pub constants: Vec<Constant>,
    pub code: Vec<Opcode>,
    pub bytecode: Vec<u8>,
    pub names: LinkedHashMap<String, u32>,
}

impl Writer {
    /// The constants as the contracts see them.
    pub open spec fn consts_view(&self) -> Seq<ConstantV> {
        self.constants@.map_values(|c: Constant| c@)
    }

    /// The id of `x` in the name table, registering it under the table's
    /// size when it has none. A table whose ids are 0, 1, 2, ... in order,
    /// with distinct names, stays so.
    pub fn get_str_id(&mut self, x: &str) -> (id: u32)
        ensures
            id == str_id(name_ids(old(self).names), x@),
            name_ids(final(self).names) == with_name(name_ids(old(self).names), x@),
            dense(name_ids(old(self).names)) && name_ids(old(self).names).len() < u32::MAX ==> dense(
                name_ids(final(self).names),
            ) && name_ids(final(self).names)[id as int].0 == x@,
            final(self).bytecode == old(self).bytecode,
            final(self).code == old(self).code,
            final(self).constants == old(self).constants,
            final(self).symbols == old(self).symbols,
    {
        proof {
            if dense(name_ids(self.names)) && name_ids(self.names).len() < u32::MAX {
                lemma_str_id_dense(name_ids(self.names), x@);
            }
        }
        name_id(&mut self.names, x)
    }

    /// Appends the module's bytecode: its name table, constants and
    /// instructions, and the end marker. The table is written once every
    /// name that follows it refers to has an id: the names the instructions
    /// use, the string constants and the functions' parameter names. Each
    /// table entry is the name's id, its byte length and its bytes.
    pub fn emit(&mut self)
        requires
            names_known(old(self).code@, old(self).symbols@),
        ensures
            final(self).bytecode@ == old(self).bytecode@ + emitted(
                name_ids(old(self).names),
                old(self).code@,
                old(self).consts_view(),
                old(self).symbols@,
            ).0,
            name_ids(final(self).names) == emitted(
                name_ids(old(self).names),
                old(self).code@,
                old(self).consts_view(),
                old(self).symbols@,
            ).1,
            final(self).code == old(self).code,
            final(self).constants == old(self).constants,
            final(self).symbols == old(self).symbols,
    {
        let ghost start = self.bytecode@;
        let ghost t0 = name_ids(self.names);
        let ghost cs = self.consts_view();
        collect_code_names(&mut self.names, &self.symbols, &self.code);
        collect_const_names(&mut self.names, &self.constants);
        let ghost t1 = name_ids(self.names);
        write_name_table(&mut self.bytecode, &self.names);
        push_u32_le(&mut self.bytecode, self.constants.len() as u32);
        write_consts(&mut self.bytecode, &mut self.names, &self.constants);
        let ghost t2 = name_ids(self.names);
        write_code(&mut self.bytecode, &mut self.names, &self.symbols, &self.code);
        self.bytecode.push(END_OF_CODE);
        proof {
            let (cb, _t) = encode_consts(t1, cs);
            let (ob, _u) = encode_code(t2, self.code@, self.symbols@);
            assert(self.bytecode@ =~= start + (le32(t1.len() as u32) + encode_names(t1) + le32(
                cs.len() as u32,
            ) + cb + ob + seq![END_OF_CODE]));
        }
    }
}

/// Registers the names the instructions use, in order.
fn collect_code_names(names: &mut LinkedHashMap<String, u32>, symbols: &Symbols, code: &Vec<Opcode>)
    requires
        names_known(code@, symbols@),
    ensures
        name_ids(*final(names)) == code_names(name_ids(*old(names)), code@, symbols@),
{
    let ghost t0 = name_ids(*names);
    let mut i: usize = 0;
    while i < code.len()
        invariant
            names_known(code@, symbols@),
            i <= code@.len(),
            name_ids(*names) == code_names(t0, code@.take(i as int), symbols@),
        decreases code@.len() - i,
    {
        let c = code[i];
        proof {
            assert(code@.take(i + 1).drop_last() =~= code@.take(i as int));
            assert(code@.take(i + 1).last() == c);
            assert(op_name(code@[i as int]) == op_name(c));
        }
        match c {
            Opcode::LoadVar(name) | Opcode::DeclVar(name) | Opcode::StoreVar(name) => {
                let string = symbols.str(name);
                name_id(names, string.as_str());
            },
            _ => {},
        }
        i = i + 1;
    }
    proof {
        assert(code@.take(code@.len() as int) =~= code@);
    }
}

/// Registers the names the constants use, in order.
fn collect_const_names(names: &mut LinkedHashMap<String, u32>, constants: &Vec<Constant>)
    ensures
        name_ids(*final(names)) == const_names(
            name_ids(*old(names)),
            constants@.map_values(|c: Constant| c@),
        ),
{
    let ghost t0 = name_ids(*names);
    let ghost cs = constants@.map_values(|c: Constant| c@);
    let mut i: usize = 0;
    while i < constants.len()
        invariant
            cs == constants@.map_values(|c: Constant| c@),
            i <= cs.len(),
            name_ids(*names) == const_names(t0, cs.take(i as int)),
        decreases cs.len() - i,
    {
        proof {
            assert(cs.take(i + 1).drop_last() =~= cs.take(i as int));
            assert(cs.take(i + 1).last() == constants@[i as int]@);
        }
        match &constants[i] {
            Constant::String(s) => {
                name_id(names, s.as_str());
            },
            Constant::Function(f) => {
                let ghost t = name_ids(*names);
                let ghost args = f.args@.map_values(|a: String| a@);
                let mut k: usize = 0;
                while k < f.args.len()
                    invariant
                        args == f.args@.map_values(|a: String| a@),
                        k <= f.args@.len(),
                        name_ids(*names) == arg_names(t, args.take(k as int)),
                    decreases f.args@.len() - k,
                {
                    name_id(names, f.args[k].as_str());
                    proof {
                        assert(args.take(k + 1).drop_last() =~= args.take(k as int));
                        assert(args.take(k + 1).last() == f.args@[k as int]@);
                    }
                    k = k + 1;
                }
                proof {
                    assert(args.take(args.len() as int) =~= args);
                }
            },
            _ => {},
        }
        i = i + 1;
    }
    proof {
        assert(cs.take(cs.len() as int) =~= cs);
    }
}

/// Appends the bytes of `b`.
fn write_bytes(bytecode: &mut Vec<u8>, b: &[u8])
    ensures
        final(bytecode)@ == old(bytecode)@ + b@,
{
    let ghost start = bytecode@;
    let mut q: usize = 0;
    while q < b.len()
        invariant
            bytecode@ == start + b@.take(q as int),
            q <= b@.len(),
        decreases b@.len() - q,
    {
        bytecode.push(b[q]);
        proof {
            assert(b@.take(q + 1) =~= b@.take(q as int).push(b@[q as int]));
        }
        q = q + 1;
    }
    proof {
        assert(b@.take(b@.len() as int) =~= b@);
    }
}

/// Appends the name table: its size, then each entry.
fn write_name_table(bytecode: &mut Vec<u8>, names: &LinkedHashMap<String, u32>)
    ensures
        final(bytecode)@ == old(bytecode)@ + le32(name_ids(*names).len() as u32) + encode_names(
            name_ids(*names),
        ),
{
    let ghost t1 = name_ids(*names);
    let count = name_ids_len(names);
    push_u32_le(bytecode, count as u32);
    let entries = name_ids_entries(names);
    let ghost head = bytecode@;
    let mut e: usize = 0;
    while e < entries.len()
        invariant
            entries@.len() == t1.len(),
            forall|x: int|
                0 <= x < entries@.len() ==> (#[trigger] entries@[x]).0@ == t1[x].0
                    && entries@[x].1 == t1[x].1,
            e <= entries@.len(),
            bytecode@ == head + encode_names(t1.take(e as int)),
        decreases entries@.len() - e,
    {
        let (ref string, idx) = entries[e];
        push_u32_le(bytecode, idx);
        let b = string.as_str().as_bytes();
        push_u32_le(bytecode, b.len() as u32);
        write_bytes(bytecode, b);
        proof {
            assert(t1.take(e + 1).drop_last() =~= t1.take(e as int));
            assert(t1.take(e + 1).last() == t1[e as int]);
            assert(bytecode@ =~= head + encode_names(t1.take(e + 1)));
        }
        e = e + 1;
    }
    proof {
        assert(t1.take(t1.len() as int) =~= t1);
    }
}

/// Appends the constants, in order.
fn write_consts(bytecode: &mut Vec<u8>, names: &mut LinkedHashMap<String, u32>, constants: &Vec<Constant>)
    ensures
        final(bytecode)@ == old(bytecode)@ + encode_consts(
            name_ids(*old(names)),
            constants@.map_values(|c: Constant| c@),
        ).0,
        name_ids(*final(names)) == encode_consts(
            name_ids(*old(names)),
            constants@.map_values(|c: Constant| c@),
        ).1,
{
    let ghost t1 = name_ids(*names);
    let ghost cs = constants@.map_values(|c: Constant| c@);
    let ghost cstart = bytecode@;
    let mut i: usize = 0;
    while i < constants.len()
        invariant
            cs == constants@.map_values(|c: Constant| c@),
            i <= cs.len(),
            bytecode@ == cstart + encode_consts(t1, cs.take(i as int)).0,
            name_ids(*names) == encode_consts(t1, cs.take(i as int)).1,
        decreases cs.len() - i,
    {
        write_const(bytecode, names, &constants[i]);
        proof {
            assert(cs.take(i + 1).drop_last() =~= cs.take(i as int));
            assert(cs.take(i + 1).last() == constants@[i as int]@);
            assert(bytecode@ =~= cstart + encode_consts(t1, cs.take(i + 1)).0);
        }
        i = i + 1;
    }
    proof {
        assert(cs.take(cs.len() as int) =~= cs);
    }
}

/// Appends the instructions, in order.
fn write_code(
    bytecode: &mut Vec<u8>,
    names: &mut LinkedHashMap<String, u32>,
    symbols: &Symbols,
    code: &Vec<Opcode>,
)
    requires
        names_known(code@, symbols@),
    ensures
        final(bytecode)@ == old(bytecode)@ + encode_code(name_ids(*old(names)), code@, symbols@).0,
        name_ids(*final(names)) == encode_code(name_ids(*old(names)), code@, symbols@).1,
{
    let ghost t2 = name_ids(*names);
    let ghost ostart = bytecode@;
    let mut i: usize = 0;
    while i < code.len()
        invariant
            names_known(code@, symbols@),
            i <= code@.len(),
            bytecode@ == ostart + encode_code(t2, code@.take(i as int), symbols@).0,
            name_ids(*names) == encode_code(t2, code@.take(i as int), symbols@).1,
        decreases code@.len() - i,
    {
        let op = code[i];
        proof {
            assert(op_name(code@[i as int]) == op_name(op));
        }
        write_op(bytecode, names, symbols, op);
        proof {
            assert(code@.take(i + 1).drop_last() =~= code@.take(i as int));
            assert(code@.take(i + 1).last() == op);
            assert(bytecode@ =~= ostart + encode_code(t2, code@.take(i + 1), symbols@).0);
        }
        i = i + 1;
    }
    proof {
        assert(code@.take(code@.len() as int) =~= code@);
    }
}

} // verus!
