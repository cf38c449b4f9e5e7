//! Reading back what the emitter wrote.

use vstd::prelude::*;
use vstd::utf8::{valid_utf8, decode_utf8, encode_utf8};
use crate::bytes::{
    get16, get32, get64, le16, le32, le64, lemma_get16, lemma_get32, lemma_get64,
    lemma_utf8_roundtrip,
};
use crate::fnv_map::{insert_all, lemma_insert_all_lists, lemma_lists_len, lists};
use crate::jazz::emit::{
    count_funcs, encode_field, encode_fields, encode_global, encode_globals, encode_module,
    encode_op, encode_ops, op_operand,
};
use crate::jazz::module::{
    ModuleV, get_width, nul_pos, parse_field, parse_fields, parse_global,
    parse_globals, parse_module, parse_op, parse_ops,
};
use crate::jazz::opcode::{
    Opcode, OpcodeV, count_fits, encodable, lemma_prefix_inverse, make_op1, make_op2, op_prefix,
    op_value, op_width, two_byte, width1, width2,
};
use crate::jazz::value::{FuncVar, Function, Value, ValueV};

verus! {

/// The instructions whose layout reads back as they are: those the emitter
/// has a layout for, whose counts fit 16 bits, whose string fits a 32-bit
/// length, and whose integer constant is not negative (the loader negates
/// the magnitude the emitter writes) unless it is the least 64-bit value.
pub open spec fn op_round_trips(op: Opcode) -> bool {
    &&& encodable(op)
    &&& count_fits(op)
    &&& (op matches Opcode::LdInt(i) ==> i >= 0 || i == i64::MIN)
    &&& (op matches Opcode::LdStr(x) ==> encode_utf8(x@).len() <= u32::MAX)
}

/// The modules whose bytecode reads back as they are: every global a
/// function at an offset that fits 32 bits with an argument count that fits
/// 16 bits; field names free of zero bytes; every instruction reading back;
/// fewer than 2^32 globals, fields and instructions.
pub open spec fn module_round_trips(gs: Seq<Value>, fields: Map<u64, Seq<char>>, code: Seq<Opcode>) -> bool {
    &&& forall|i: int|
        0 <= i < gs.len() ==> (#[trigger] gs[i] matches Value::Func(f) && f.var matches FuncVar::Offset(
            off,
        ) && off <= u32::MAX && 0 <= f.nargs <= u16::MAX)
    &&& forall|k: u64| #[trigger] fields.contains_key(k) ==> !encode_utf8(fields[k]).contains(0u8)
    &&& forall|i: int| 0 <= i < code.len() ==> op_round_trips(#[trigger] code[i])
    &&& gs.len() <= u32::MAX
    &&& fields.len() <= u32::MAX
    &&& code.len() <= u32::MAX
}

/// One instruction reads back.
pub proof fn lemma_parse_op(a: Seq<u8>, op: Opcode, b: Seq<u8>)
    requires
        op_round_trips(op),
    ensures
        parse_op(a + encode_op(op) + b, a.len() as int) == Some(
            (op@, (a.len() + encode_op(op).len()) as int),
        ),
{
    let s = a + encode_op(op) + b;
    let p = a.len() as int;
    match op {
        Opcode::LdInt(i) => {
            let sign: u8 = if i < 0 {
                1
            } else {
                0
            };
            assert(s =~= (a + seq![0u8, sign]) + le64(i as u64) + b);
            lemma_get64(a + seq![0u8, sign], i as u64, b);
            assert(s[p] == 0u8);
            assert(s[p + 1] == sign);
            assert((i as u64) as i64 == i) by (bit_vector);
        },
        Opcode::LdStr(x) => {
            let e = encode_utf8(x@);
            assert(s =~= (a + seq![2u8]) + le32(e.len() as u32) + (e + b));
            lemma_get32(a + seq![2u8], e.len() as u32, e + b);
            assert(s[p] == 2u8);
            assert(s.subrange(p + 5, p + 5 + e.len()) =~= e);
            lemma_utf8_roundtrip(x@);
        },
        _ => {
            lemma_prefix_inverse(op);
            let pre = op_prefix(op);
            assert(s =~= (a + pre) + op_operand(op) + b);
            assert(s[p] == pre[0]);
            if pre.len() == 2 {
                assert(s[p + 1] == pre[1]);
            }
            lemma_operand(a + pre, op, b);
        },
    }
}

/// The operand of an instruction reads back at its width.
pub proof fn lemma_operand(a: Seq<u8>, op: Opcode, b: Seq<u8>)
    requires
        !(op is LdInt),
        !(op is LdStr),
    ensures
        op_operand(op).len() == op_width(op),
        get_width(a + op_operand(op) + b, a.len() as int, op_width(op)) == op_value(op),
{
    match op {
        Opcode::LdFloat(x) | Opcode::LdField(x) | Opcode::SetField(x) => {
            lemma_get64(a, x, b);
        },
        Opcode::LdLocal(x) | Opcode::LdGlobal(x) | Opcode::LdEnv(x) | Opcode::LdBuiltin(x) | Opcode::LdIndex(x) | Opcode::SetLocal(x) | Opcode::SetGlobal(x) | Opcode::SetEnv(x) | Opcode::SetIndex(x) | Opcode::Jump(x) | Opcode::JumpIf(x) | Opcode::JumpIfNot(x) | Opcode::MakeEnv(x) | Opcode::MakeArray(x) => {
            lemma_get32(a, x, b);
        },
        Opcode::Pop(x) | Opcode::Apply(x) | Opcode::Call(x) | Opcode::TailCall(x) | Opcode::ObjCall(x) => {
            lemma_get16(a, x as u16, b);
        },
        _ => {},
    }
}

/// The instructions read back.
pub proof fn lemma_parse_ops(a: Seq<u8>, code: Seq<Opcode>, b: Seq<u8>)
    requires
        forall|i: int| 0 <= i < code.len() ==> op_round_trips(#[trigger] code[i]),
    ensures
        parse_ops(a + encode_ops(code) + b, a.len() as int, code.len()) == Some(
            (code.map_values(|o: Opcode| o@), (a.len() + encode_ops(code).len()) as int),
        ),
    decreases code.len(),
{
    if code.len() > 0 {
        let dl = code.drop_last();
        let last = encode_op(code.last());
        assert(forall|i: int| 0 <= i < dl.len() ==> dl[i] == code[i]);
        lemma_parse_ops(a, dl, last + b);
        assert(a + encode_ops(code) + b =~= a + encode_ops(dl) + (last + b));
        assert(a + encode_ops(code) + b =~= (a + encode_ops(dl)) + last + b);
        assert(code[code.len() - 1] == code.last());
        lemma_parse_op(a + encode_ops(dl), code.last(), b);
        assert(code.map_values(|o: Opcode| o@) =~= dl.map_values(|o: Opcode| o@).push(
            code.last()@,
        ));
    }
}

/// The globals read back.
pub proof fn lemma_parse_globals(a: Seq<u8>, gs: Seq<Value>, b: Seq<u8>)
    requires
        forall|i: int|
            0 <= i < gs.len() ==> (#[trigger] gs[i] matches Value::Func(f) && f.var matches FuncVar::Offset(
                off,
            ) && off <= u32::MAX && 0 <= f.nargs <= u16::MAX),
    ensures
        parse_globals(a + encode_globals(gs) + b, a.len() as int, gs.len()) == Some(
            (gs.map_values(|v: Value| v@), (a.len() + encode_globals(gs).len()) as int),
        ),
    decreases gs.len(),
{
    if gs.len() > 0 {
        let dl = gs.drop_last();
        let v = gs.last();
        let last = encode_global(v);
        assert(forall|i: int| 0 <= i < dl.len() ==> dl[i] == gs[i]);
        lemma_parse_globals(a, dl, last + b);
        let a2 = a + encode_globals(dl);
        assert(a + encode_globals(gs) + b =~= a + encode_globals(dl) + (last + b));
        assert(gs[gs.len() - 1] == v);
        let f = v->Func_0;
        let off = f.var->Offset_0;
        let s = a + encode_globals(gs) + b;
        assert(s =~= (a2 + seq![1u8]) + le32(off as u32) + (le16(f.nargs as u16) + b));
        lemma_get32(a2 + seq![1u8], off as u32, le16(f.nargs as u16) + b);
        assert(s =~= (a2 + seq![1u8] + le32(off as u32)) + le16(f.nargs as u16) + b);
        lemma_get16(a2 + seq![1u8] + le32(off as u32), f.nargs as u16, b);
        assert(s[a2.len() as int] == 1u8);
        assert(Function { var: FuncVar::Offset((off as u32) as usize), nargs: (f.nargs as u16) as i32 } == f);
        assert(gs.map_values(|v: Value| v@) =~= dl.map_values(|v: Value| v@).push(v@));
    }
}

/// Scanning for a zero byte stops at the first one.
pub proof fn lemma_nul_scan(s: Seq<u8>, q: int, z: int)
    requires
        0 <= q <= z < s.len(),
        s[z] == 0,
        forall|i: int| q <= i < z ==> s[i] != 0,
    ensures
        nul_pos(s, q) == z,
    decreases z - q,
{
    if q < z {
        lemma_nul_scan(s, q + 1, z);
    }
}

/// One field reads back.
pub proof fn lemma_parse_field(a: Seq<u8>, e: (u64, Seq<char>), b: Seq<u8>)
    requires
        !encode_utf8(e.1).contains(0u8),
    ensures
        parse_field(a + encode_field(e) + b, a.len() as int) == Some(
            (e, (a.len() + encode_field(e).len()) as int),
        ),
{
    let name = encode_utf8(e.1);
    let s = a + encode_field(e) + b;
    let p = a.len() as int;
    assert(s =~= a + le64(e.0) + (name + seq![0u8] + b));
    lemma_get64(a, e.0, name + seq![0u8] + b);
    let z = p + 8 + name.len();
    assert(s[z] == 0u8);
    assert forall|i: int| p + 8 <= i < z implies s[i] != 0 by {
        assert(s[i] == name[i - p - 8]);
    }
    lemma_nul_scan(s, p + 8, z);
    assert(s.subrange(p + 8, z) =~= name);
    lemma_utf8_roundtrip(e.1);
}

/// The fields read back, registered in order.
pub proof fn lemma_parse_fields(a: Seq<u8>, fs: Seq<(u64, Seq<char>)>, b: Seq<u8>)
    requires
        forall|i: int| 0 <= i < fs.len() ==> !encode_utf8(#[trigger] fs[i].1).contains(0u8),
    ensures
        parse_fields(a + encode_fields(fs) + b, a.len() as int, fs.len()) == Some(
            (insert_all(fs), (a.len() + encode_fields(fs).len()) as int),
        ),
    decreases fs.len(),
{
    if fs.len() > 0 {
        let dl = fs.drop_last();
        let e = fs.last();
        let last = encode_field(e);
        assert(forall|i: int| 0 <= i < dl.len() ==> dl[i] == fs[i]);
        lemma_parse_fields(a, dl, last + b);
        assert(a + encode_fields(fs) + b =~= a + encode_fields(dl) + (last + b));
        assert(a + encode_fields(fs) + b =~= (a + encode_fields(dl)) + last + b);
        assert(fs[fs.len() - 1] == e);
        lemma_parse_field(a + encode_fields(dl), e, b);
    }
}

/// Reading back the bytecode the emitter produces for a module, its fields
/// laid out in any order that lists them, gives its globals, fields and
/// code, whatever follows it.
#[verifier::rlimit(40)]
pub proof fn lemma_read_emitted_module(
    gs: Seq<Value>,
    fields: Map<u64, Seq<char>>,
    fs: Seq<(u64, Seq<char>)>,
    code: Seq<Opcode>,
    rest: Seq<u8>,
)
    requires
        module_round_trips(gs, fields, code),
        lists(fs, fields),
    ensures
        parse_module(encode_module(gs, fs, code) + rest, 0) == Some(
            ModuleV {
                globals: gs.map_values(|v: Value| v@),
                fields,
                code: code.map_values(|o: Opcode| o@),
            },
        ),
{
    lemma_count_funcs_all(gs);
    lemma_lists_len(fs, fields);
    lemma_insert_all_lists(fs, fields);
    assert forall|i: int| 0 <= i < fs.len() implies !encode_utf8(#[trigger] fs[i].1).contains(0u8) by {
        assert(fields.contains_key(fs[i].0));
    }
    let eg = encode_globals(gs);
    let ef = encode_fields(fs);
    let eo = encode_ops(code);
    let head = le32(gs.len() as u32) + le32(fs.len() as u32) + le32(code.len() as u32);
    let s = encode_module(gs, fs, code) + rest;
    lemma_module_header(gs.len() as u32, fs.len() as u32, code.len() as u32, eg + ef + eo + rest);
    assert(s =~= head + (eg + ef + eo + rest));
    assert(s =~= head + eg + (ef + eo + rest));
    lemma_parse_globals(head, gs, ef + eo + rest);
    assert(s =~= (head + eg) + ef + (eo + rest));
    lemma_parse_fields(head + eg, fs, eo + rest);
    assert(s =~= (head + eg + ef) + eo + rest);
    lemma_parse_ops(head + eg + ef, code, rest);
}

/// The three counts at the head of a module read back.
pub proof fn lemma_module_header(a: u32, b: u32, c: u32, tail: Seq<u8>)
    ensures
        ({
            let s = le32(a) + le32(b) + le32(c) + tail;
            &&& (le32(a) + le32(b) + le32(c)).len() == 12
            &&& get32(s, 0) == a
            &&& get32(s, 4) == b
            &&& get32(s, 8) == c
        }),
{
    let s = le32(a) + le32(b) + le32(c) + tail;
    assert(s =~= Seq::<u8>::empty() + le32(a) + (le32(b) + le32(c) + tail));
    lemma_get32(Seq::<u8>::empty(), a, le32(b) + le32(c) + tail);
    assert(s =~= le32(a) + le32(b) + (le32(c) + tail));
    lemma_get32(le32(a), b, le32(c) + tail);
    assert(s =~= (le32(a) + le32(b)) + le32(c) + tail);
    lemma_get32(le32(a) + le32(b), c, tail);
}

pub proof fn lemma_count_funcs_all(gs: Seq<Value>)
    requires
        forall|i: int| 0 <= i < gs.len() ==> #[trigger] gs[i] is Func,
    ensures
        count_funcs(gs) == gs.len(),
    decreases gs.len(),
{
    if gs.len() > 0 {
        let dl = gs.drop_last();
        assert(forall|i: int| 0 <= i < dl.len() ==> dl[i] == gs[i]);
        assert(gs[gs.len() - 1] is Func);
        lemma_count_funcs_all(dl);
    }
}

} // verus!
