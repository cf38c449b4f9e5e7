//! Emitting a Jazz module as bytecode.

use vstd::prelude::*;
use vstd::utf8::encode_utf8;
use crate::bytes::{le16, le32, le64};
use crate::fnv_map::{entries_view, field_names, field_names_entries, lists};
use crate::jazz::module::Module;
use crate::jazz::opcode::{Opcode, encodable, op_prefix};
use crate::jazz::value::{FuncVar, Value};

verus! {

/// Appending fixed-width integers to a byte buffer.
pub trait Encoder {
    fn write_u8(&mut self, b: u8);

    fn write_u16(&mut self, b: u16);

    fn write_u32(&mut self, b: u32);

    fn write_u64(&mut self, b: u64);
}

impl Encoder for Vec<u8> {
    fn write_u8(&mut self, b: u8)
        ensures
            final(self)@ == old(self)@.push(b),
    {
        self.push(b);
    }

    fn write_u16(&mut self, b: u16)
        ensures
            final(self)@ == old(self)@ + le16(b),
    {
        let ghost start = self@;
        self.write_u8((b & 0xff) as u8);
        self.write_u8(((b >> 8u16) & 0xff) as u8);
        assert(self@ =~= start + le16(b));
    }

    fn write_u32(&mut self, b: u32)
        ensures
            final(self)@ == old(self)@ + le32(b),
    {
        let ghost start = self@;
        self.write_u8((b & 0xff) as u8);
        self.write_u8(((b >> 8u32) & 0xff) as u8);
        self.write_u8(((b >> 16u32) & 0xff) as u8);
        self.write_u8(((b >> 24u32) & 0xff) as u8);
        assert(self@ =~= start + le32(b));
    }

    fn write_u64(&mut self, b: u64)
        ensures
            final(self)@ == old(self)@ + le64(b),
    {
        let ghost start = self@;
        self.write_u8((b & 0xff) as u8);
        self.write_u8(((b >> 8u64) & 0xff) as u8);
        self.write_u8(((b >> 16u64) & 0xff) as u8);
        self.write_u8(((b >> 24u64) & 0xff) as u8);
        self.write_u8(((b >> 32u64) & 0xff) as u8);
        self.write_u8(((b >> 40u64) & 0xff) as u8);
        self.write_u8(((b >> 48u64) & 0xff) as u8);
        self.write_u8(((b >> 56u64) & 0xff) as u8);
        assert(self@ =~= start + le64(b));
    }
}

/// The operand bytes of an instruction with a prefix layout.
pub open spec fn op_operand(op: Opcode) -> Seq<u8> {
    match op {
        Opcode::LdFloat(x) => le64(x),
        Opcode::LdField(x) => le64(x),
        Opcode::LdLocal(x) => le32(x),
        Opcode::LdGlobal(x) => le32(x),
        Opcode::LdEnv(x) => le32(x),
        Opcode::LdBuiltin(x) => le32(x),
        Opcode::LdIndex(x) => le32(x),
        Opcode::SetLocal(x) => le32(x),
        Opcode::SetGlobal(x) => le32(x),
        Opcode::SetEnv(x) => le32(x),
        Opcode::SetField(x) => le64(x),
        Opcode::SetIndex(x) => le32(x),
        Opcode::Pop(x) => le16(x as u16),
        Opcode::Apply(x) => le16(x as u16),
        Opcode::Call(x) => le16(x as u16),
        Opcode::TailCall(x) => le16(x as u16),
        Opcode::ObjCall(x) => le16(x as u16),
        Opcode::Jump(x) => le32(x),
        Opcode::JumpIf(x) => le32(x),
        Opcode::JumpIfNot(x) => le32(x),
        Opcode::MakeEnv(x) => le32(x),
        Opcode::MakeArray(x) => le32(x),
        _ => Seq::empty(),
    }
}

/// One instruction: an integer constant as a zero byte, a sign byte (1 for
/// a negative value) and its 64 bits; a string constant as the byte 2, its
/// byte length and its UTF-8 bytes; any other instruction as its prefix and
/// its operand.
pub open spec fn encode_op(op: Opcode) -> Seq<u8> {
    match op {
        Opcode::LdInt(i) => seq![0u8, if i < 0 { 1u8 } else { 0u8 }] + le64(i as u64),
        Opcode::LdStr(s) => seq![2u8] + le32(encode_utf8(s@).len() as u32) + encode_utf8(s@),
        _ => op_prefix(op) + op_operand(op),
    }
}

/// The instructions, in order.
pub open spec fn encode_ops(code: Seq<Opcode>) -> Seq<u8>
    decreases code.len(),
{
    if code.len() == 0 {
        Seq::empty()
    } else {
        encode_ops(code.drop_last()) + encode_op(code.last())
    }
}

/// One global: a function at an offset as the byte 1, its offset and its
/// argument count; other values are not written.
pub open spec fn encode_global(v: Value) -> Seq<u8> {
    match v {
        Value::Func(f) => match f.var {
            FuncVar::Offset(off) => seq![1u8] + le32(off as u32) + le16(f.nargs as u16),
            FuncVar::Native(_) => Seq::empty(),
        },
        _ => Seq::empty(),
    }
}

/// The globals, in order.
pub open spec fn encode_globals(gs: Seq<Value>) -> Seq<u8>
    decreases gs.len(),
{
    if gs.len() == 0 {
        Seq::empty()
    } else {
        encode_globals(gs.drop_last()) + encode_global(gs.last())
    }
}

/// The number of function globals.
pub open spec fn count_funcs(gs: Seq<Value>) -> nat
    decreases gs.len(),
{
    if gs.len() == 0 {
        0
    } else {
        count_funcs(gs.drop_last()) + if gs.last() is Func {
            1nat
        } else {
            0nat
        }
    }
}

/// One field: its hash, its UTF-8 name and a zero byte.
pub open spec fn encode_field(e: (u64, Seq<char>)) -> Seq<u8> {
    le64(e.0) + encode_utf8(e.1) + seq![0u8]
}

/// The fields, in table order.
pub open spec fn encode_fields(fs: Seq<(u64, Seq<char>)>) -> Seq<u8>
    decreases fs.len(),
{
    if fs.len() == 0 {
        Seq::empty()
    } else {
        encode_fields(fs.drop_last()) + encode_field(fs.last())
    }
}

/// The bytecode of a module: the number of function globals, of fields and
/// of instructions, then the globals, the fields and the code.
pub open spec fn encode_module(gs: Seq<Value>, fs: Seq<(u64, Seq<char>)>, code: Seq<Opcode>) -> Seq<
    u8,
> {
    le32(count_funcs(gs) as u32) + le32(fs.len() as u32) + le32(code.len() as u32)
        + encode_globals(gs) + encode_fields(fs) + encode_ops(code)
}

/// What the emitter accepts: no native function among the globals, no
/// instruction without a layout, fewer than 2^32 functions and fields.
pub open spec fn emittable(m: Module) -> bool {
    &&& forall|i: int|
        0 <= i < m.globals@.len() ==> !(#[trigger] m.globals@[i] matches Value::Func(f)
            && f.var is Native)
    &&& forall|i: int| 0 <= i < m.code@.len() ==> encodable(#[trigger] m.code@[i])
    &&& count_funcs(m.globals@) <= u32::MAX
    &&& field_names(m.fields).len() <= u32::MAX
}

fn emit_op(c: &mut Vec<u8>, op: &Opcode)
    requires
        encodable(*op),
    ensures
        final(c)@ == old(c)@ + encode_op(*op),
{
    let ghost start = c@;
    match op {
        Opcode::LdInt(x) => {
            c.push(0);
            if *x < 0 {
                c.push(1);
            } else {
                c.push(0);
            }
            c.write_u64(*x as u64);
        },
        Opcode::LdFloat(x) => {
            c.push(1);
            c.write_u64(*x);
        },
        Opcode::LdStr(x) => {
            c.push(2);
            let b = x.as_str().as_bytes();
            c.write_u32(b.len() as u32);
            let mut j: usize = 0;
            while j < b.len()
                invariant
                    j <= b@.len(),
                    c@ == start + seq![2u8] + le32(b@.len() as u32) + b@.take(j as int),
                decreases b@.len() - j,
            {
                c.push(b[j]);
                assert(b@.take(j + 1) =~= b@.take(j as int).push(b@[j as int]));
                j += 1;
            }
            assert(b@.take(b@.len() as int) =~= b@);
        },
        Opcode::LdFalse => {
            c.push(3);
            c.push(0);
        },
        Opcode::LdTrue => {
            c.push(3);
            c.push(1);
        },
        Opcode::LdNull => {
            c.push(3);
            c.push(2);
        },
        Opcode::LdThis => {
            c.push(3);
            c.push(3);
        },
        Opcode::LdField(x) => {
            c.push(3);
            c.push(4);
            c.write_u64(*x);
        },
        Opcode::LdLocal(x) => {
            c.push(3);
            c.push(5);
            c.write_u32(*x);
        },
        Opcode::LdGlobal(x) => {
            c.push(3);
            c.push(6);
            c.write_u32(*x);
        },
        Opcode::LdEnv(x) => {
            c.push(3);
            c.push(7);
            c.write_u32(*x);
        },
        Opcode::LdBuiltin(x) => {
            c.push(3);
            c.push(8);
            c.write_u32(*x);
        },
        Opcode::LdIndex(x) => {
            c.push(3);
            c.push(9);
            c.write_u32(*x);
        },
        Opcode::LdArray => {
            c.push(3);
            c.push(10);
        },
        Opcode::SetLocal(x) => {
            c.push(4);
            c.push(0);
            c.write_u32(*x);
        },
        Opcode::SetGlobal(x) => {
            c.push(4);
            c.push(1);
            c.write_u32(*x);
        },
        Opcode::SetEnv(x) => {
            c.push(4);
            c.push(2);
            c.write_u32(*x);
        },
        Opcode::SetField(x) => {
            c.push(4);
            c.push(3);
            c.write_u64(*x);
        },
        Opcode::SetArray => {
            c.push(4);
            c.push(4);
        },
        Opcode::SetIndex(x) => {
            c.push(4);
            c.push(5);
            c.write_u32(*x);
        },
        Opcode::SetThis => {
            c.push(4);
            c.push(6);
        },
        Opcode::Pop(x) => {
            c.push(5);
            c.write_u16(*x as u16);
        },
        Opcode::Apply(x) => {
            c.push(6);
            c.write_u16(*x as u16);
        },
        Opcode::Call(x) => {
            c.push(7);
            c.write_u16(*x as u16);
        },
        Opcode::TailCall(x) => {
            c.push(8);
            c.write_u16(*x as u16);
        },
        Opcode::ObjCall(x) => {
            c.push(9);
            c.write_u16(*x as u16);
        },
        Opcode::Jump(x) => {
            c.push(10);
            c.push(0);
            c.write_u32(*x);
        },
        Opcode::JumpIf(x) => {
            c.push(10);
            c.push(1);
            c.write_u32(*x);
        },
        Opcode::JumpIfNot(x) => {
            c.push(10);
            c.push(2);
            c.write_u32(*x);
        },
        Opcode::Ret => {
            c.push(11);
        },
        Opcode::MakeEnv(x) => {
            c.push(12);
            c.write_u32(*x);
        },
        Opcode::MakeArray(x) => {
            c.push(13);
            c.write_u32(*x);
        },
        Opcode::Neg => {
            c.push(14);
        },
        Opcode::Bool => {
            c.push(15);
        },
        Opcode::Not => {
            c.push(16);
        },
        Opcode::IsNull => {
            c.push(17);
        },
        Opcode::IsNotNull => {
            c.push(18);
        },
        Opcode::Add => {
            c.push(19);
            c.push(0);
        },
        Opcode::Sub => {
            c.push(19);
            c.push(1);
        },
        Opcode::Mul => {
            c.push(19);
            c.push(2);
        },
        Opcode::Div => {
            c.push(19);
            c.push(3);
        },
        Opcode::Rem => {
            c.push(19);
            c.push(4);
        },
        Opcode::Shl => {
            c.push(19);
            c.push(5);
        },
        Opcode::Shr => {
            c.push(19);
            c.push(6);
        },
        Opcode::UShr => {
            c.push(19);
            c.push(7);
        },
        Opcode::Or => {
            c.push(19);
            c.push(8);
        },
        Opcode::And => {
            c.push(19);
            c.push(9);
        },
        Opcode::Xor => {
            c.push(19);
            c.push(10);
        },
        Opcode::Eq => {
            c.push(19);
            c.push(11);
        },
        Opcode::Neq => {
            c.push(19);
            c.push(12);
        },
        Opcode::Lt => {
            c.push(19);
            c.push(13);
        },
        Opcode::Lte => {
            c.push(19);
            c.push(14);
        },
        Opcode::Gt => {
            c.push(19);
            c.push(15);
        },
        Opcode::Gte => {
            c.push(19);
            c.push(16);
        },
        Opcode::Nop => {
            c.push(20);
        },
        Opcode::TypeOf => {
            c.push(21);
        },
        Opcode::Hash => {
            c.push(22);
        },
        Opcode::New => {
            c.push(23);
        },
        Opcode::Yield => {
            c.push(24);
        },
        Opcode::Last => {
            c.push(25);
        },
        _ => {},
    }
    assert(c@ =~= start + encode_op(*op));
}
fn patch_u32(code: &mut Vec<u8>, at: usize, x: u32)
    requires
        at + 4 <= old(code)@.len(),
    ensures
        final(code)@ == old(code)@.subrange(0, at as int) + le32(x) + old(code)@.subrange(
            at + 4,
            old(code)@.len() as int,
        ),
{
    let ghost start = code@;
    // The length is a usize, so the positions written fit one.
    let _n = code.len();
    code.set(at, (x & 0xff) as u8);
    code.set(at + 1, ((x >> 8u32) & 0xff) as u8);
    code.set(at + 2, ((x >> 16u32) & 0xff) as u8);
    code.set(at + 3, ((x >> 24u32) & 0xff) as u8);
    assert(code@ =~= start.subrange(0, at as int) + le32(x) + start.subrange(
        at + 4,
        start.len() as int,
    ));
}

pub proof fn lemma_count_funcs_take(gs: Seq<Value>, k: int)
    requires
        0 <= k <= gs.len(),
    ensures
        count_funcs(gs.take(k)) <= count_funcs(gs),
    decreases gs.len() - k,
{
    if k < gs.len() {
        lemma_count_funcs_take(gs, k + 1);
        assert(gs.take(k + 1).drop_last() =~= gs.take(k));
    } else {
        assert(gs.take(k) =~= gs);
    }
}

/// Emits the bytecode of `m`: the counts, the function globals, the fields
/// in the order the table lists them, and the code.
pub fn compile(m: &Module) -> (code: Vec<u8>)
    requires
        emittable(*m),
    ensures
        exists|fs: Seq<(u64, Seq<char>)>|
            lists(fs, field_names(m.fields)) && code@ == encode_module(m.globals@, fs, m.code@),
{
    let entries = field_names_entries(&m.fields);
    let ghost gs = m.globals@;
    let ghost fs = entries_view(entries@);
    let ghost ops = m.code@;
    let mut code: Vec<u8> = Vec::new();
    let mut globals_size: u32 = 0;
    code.write_u32(0);
    code.write_u32(0);
    code.write_u32(0);
    let ghost head = le32(0) + le32(0) + le32(0);
    assert(code@ =~= head + encode_globals(gs.take(0)));
    let mut k: usize = 0;
    while k < m.globals.len()
        invariant
            gs == m.globals@,
            k <= gs.len(),
            head.len() == 12,
            code@ == head + encode_globals(gs.take(k as int)),
            globals_size == count_funcs(gs.take(k as int)),
            count_funcs(gs) <= u32::MAX,
            forall|i: int|
                0 <= i < gs.len() ==> !(#[trigger] gs[i] matches Value::Func(f) && f.var is Native),
        decreases gs.len() - k,
    {
        proof {
            assert(gs.take(k + 1).drop_last() =~= gs.take(k as int));
            assert(gs.take(k + 1).last() == gs[k as int]);
            lemma_count_funcs_take(gs, k + 1);
        }
        let ghost before = code@;
        match &m.globals[k] {
            Value::Func(f) => {
                code.push(1);
                match f.var {
                    FuncVar::Offset(off) => {
                        code.write_u32(off as u32);
                    },
                    FuncVar::Native(_) => {},
                }
                code.write_u16(f.nargs as u16);
                globals_size += 1;
            },
            _ => {},
        }
        assert(code@ =~= before + encode_global(gs[k as int]));
        k += 1;
    }
    assert(gs.take(gs.len() as int) =~= gs);
    let ghost g_end = code@;
    patch_u32(&mut code, 0, globals_size);
    let ghost after_g = code@;
    assert(after_g =~= le32(globals_size) + le32(0) + le32(0) + encode_globals(gs));

    let mut fields_size: u32 = 0;
    k = 0;
    while k < entries.len()
        invariant
            fs == entries_view(entries@),
            k <= fs.len(),
            fs.len() <= u32::MAX,
            code@ == after_g + encode_fields(fs.take(k as int)),
            fields_size == k,
        decreases fs.len() - k,
    {
        proof {
            assert(fs.take(k + 1).drop_last() =~= fs.take(k as int));
            assert(fs.take(k + 1).last() == fs[k as int]);
        }
        let ghost before = code@;
        let (key, field) = &entries[k];
        code.write_u64(*key);
        let b = field.as_str().as_bytes();
        let mut j: usize = 0;
        while j < b.len()
            invariant
                j <= b@.len(),
                code@ == before + le64(*key) + b@.take(j as int),
            decreases b@.len() - j,
        {
            code.write_u8(b[j]);
            assert(b@.take(j + 1) =~= b@.take(j as int).push(b@[j as int]));
            j += 1;
        }
        assert(b@.take(b@.len() as int) =~= b@);
        code.write_u8(0);
        fields_size += 1;
        assert(code@ =~= before + encode_field(fs[k as int]));
        k += 1;
    }
    assert(fs.take(fs.len() as int) =~= fs);
    patch_u32(&mut code, 4, fields_size);
    let ghost after_f = code@;
    assert(after_f =~= le32(count_funcs(gs) as u32) + le32(fs.len() as u32) + le32(0)
        + encode_globals(gs) + encode_fields(fs));

    let mut c: Vec<u8> = Vec::new();
    k = 0;
    while k < m.code.len()
        invariant
            ops == m.code@,
            k <= ops.len(),
            c@ == encode_ops(ops.take(k as int)),
            forall|i: int| 0 <= i < ops.len() ==> encodable(#[trigger] ops[i]),
        decreases ops.len() - k,
    {
        proof {
            assert(ops.take(k + 1).drop_last() =~= ops.take(k as int));
            assert(ops.take(k + 1).last() == ops[k as int]);
        }
        emit_op(&mut c, &m.code[k]);
        k += 1;
    }
    assert(ops.take(ops.len() as int) =~= ops);
    patch_u32(&mut code, 8, m.code.len() as u32);
    let ghost with_len = code@;
    let mut j: usize = 0;
    while j < c.len()
        invariant
            j <= c@.len(),
            code@ == with_len + c@.take(j as int),
        decreases c@.len() - j,
    {
        code.push(c[j]);
        assert(c@.take(j + 1) =~= c@.take(j as int).push(c@[j as int]));
        j += 1;
    }
    assert(c@.take(c@.len() as int) =~= c@);
    assert(code@ =~= encode_module(gs, fs, ops));
    code
}

} // verus!
