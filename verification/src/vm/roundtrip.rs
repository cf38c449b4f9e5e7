//! Reading back what the writer wrote.

use vstd::prelude::*;
use vstd::utf8::{valid_utf8, decode_utf8, encode_utf8};
use crate::bytes::{
    get16, get32, get64, le16, le32, le64, lemma_get16, lemma_get32, lemma_get64,
    lemma_utf8_roundtrip,
};
use crate::lhm::{find_key, lemma_find_key_bounds, lemma_find_key_distinct, lhm_get, lhm_insert};
use crate::vm::opcode::{Op, OpV, lemma_op_tag_inverse, nullary_op, op_tag, u16_op, u32_op};
use crate::vm::reader::{
    GlobalStep, ModuleV, parse_global, parse_globals, parse_module, parse_op, parse_ops,
    parse_str, parse_strs,
};
use crate::vm::value::{Function, Value, ValueV};
use crate::vm::writer::{
    TAG_FLOAT, TAG_FUN, TAG_STRING, builtins_named, count_kept, count_strings, encode_global,
    encode_globals, encode_module, encode_op, encode_ops, encode_str, encode_strings, kept,
    op_operand, string_table,
};

verus! {

/// The characters of the string globals, in order.
pub open spec fn str_list(gs: Seq<Value>) -> Seq<Seq<char>>
    decreases gs.len(),
{
    if gs.len() == 0 {
        Seq::empty()
    } else {
        match gs.last() {
            Value::String(s) => str_list(gs.drop_last()).push(s@),
            _ => str_list(gs.drop_last()),
        }
    }
}

/// The modules whose bytecode reads back as they are: every global is a
/// string, a float or a non-native function whose address fits 32 bits and
/// whose argument count fits 16 bits; the strings are distinct, fewer than
/// 2^31, each under 2^32 bytes; every builtin name the code loads is a
/// string global; the code has under 2^32 instructions.
pub open spec fn round_trips(gs: Seq<Value>, code: Seq<Op>) -> bool {
    &&& forall|i: int| 0 <= i < gs.len() ==> kept(#[trigger] gs[i])
    &&& forall|i: int|
        0 <= i < gs.len() ==> (#[trigger] gs[i] matches Value::Function(f) ==> !f.native
            && f.address <= u32::MAX && 0 <= f.argc <= u16::MAX)
    &&& forall|i: int|
        0 <= i < gs.len() ==> (#[trigger] gs[i] matches Value::String(s) ==> encode_utf8(
            s@,
        ).len() <= u32::MAX)
    &&& str_list(gs).no_duplicates()
    &&& count_strings(gs) <= i32::MAX
    &&& gs.len() <= u32::MAX
    &&& code.len() <= u32::MAX
    &&& builtins_named(gs, code)
}

/// The table entries of distinct strings: each string with its position.
pub open spec fn positioned(l: Seq<Seq<char>>) -> Seq<(Seq<char>, i32)> {
    Seq::new(l.len(), |k: int| (l[k], k as i32))
}

pub proof fn lemma_str_list_len(gs: Seq<Value>)
    ensures
        str_list(gs).len() == count_strings(gs),
    decreases gs.len(),
{
    if gs.len() > 0 {
        lemma_str_list_len(gs.drop_last());
    }
}

/// With distinct strings, the writer's table holds each string at its
/// position among the string globals.
pub proof fn lemma_table_positioned(gs: Seq<Value>)
    requires
        str_list(gs).no_duplicates(),
        count_strings(gs) <= i32::MAX,
    ensures
        string_table(gs) == positioned(str_list(gs)),
    decreases gs.len(),
{
    if gs.len() > 0 {
        let dl = gs.drop_last();
        lemma_str_list_len(dl);
        lemma_str_list_len(gs);
        assert(count_strings(dl) <= count_strings(gs));
        assert(str_list(dl).no_duplicates()) by {
            match gs.last() {
                Value::String(s) => {
                    assert forall|i: int, j: int|
                        0 <= i < str_list(dl).len() && 0 <= j < str_list(dl).len() && i != j
                        implies str_list(dl)[i] != str_list(dl)[j] by {
                        assert(str_list(gs)[i] == str_list(dl)[i]);
                        assert(str_list(gs)[j] == str_list(dl)[j]);
                    }
                },
                _ => {},
            }
        }
        lemma_table_positioned(dl);
        let t = string_table(dl);
        match gs.last() {
            Value::String(s) => {
                lemma_find_key_bounds(t, s@);
                if find_key(t, s@) >= 0 {
                    let j = find_key(t, s@);
                    assert(str_list(gs)[j] == s@);
                    assert(str_list(gs)[str_list(dl).len() as int] == s@);
                    assert(false);
                }
                assert(string_table(gs) =~= positioned(str_list(gs)));
            },
            _ => {},
        }
    }
}

/// In a positioned table, a string is found at its position.
pub proof fn lemma_positioned_get(l: Seq<Seq<char>>, k: int)
    requires
        l.no_duplicates(),
        0 <= k < l.len(),
        l.len() <= i32::MAX,
    ensures
        lhm_get(positioned(l), l[k]) == Some(k as i32),
{
    let t = positioned(l);
    assert forall|a: int, b: int| 0 <= a < b < t.len() implies t[a].0 != t[b].0 by {}
    lemma_find_key_distinct(t, k);
}

/// A string is in the table only as one of the string globals.
pub proof fn lemma_positioned_found(l: Seq<Seq<char>>, x: Seq<char>)
    requires
        l.no_duplicates(),
        l.len() <= i32::MAX,
        lhm_get(positioned(l), x) is Some,
    ensures
        0 <= lhm_get(positioned(l), x).unwrap() < l.len(),
        l[lhm_get(positioned(l), x).unwrap() as int] == x,
{
    let t = positioned(l);
    lemma_find_key_bounds(t, x);
}

/// One string of the table reads back.
pub proof fn lemma_parse_str(a: Seq<u8>, k: Seq<char>, b: Seq<u8>)
    requires
        encode_utf8(k).len() <= u32::MAX,
    ensures
        parse_str(a + encode_str(k) + b, a.len() as int) == Some(
            (k, (a.len() + encode_str(k).len()) as int),
        ),
{
    let e = encode_utf8(k);
    let s = a + encode_str(k) + b;
    assert(s =~= a + le32(e.len() as u32) + (e + b));
    lemma_get32(a, e.len() as u32, e + b);
    assert(s.subrange(a.len() as int + 4, a.len() as int + 4 + e.len()) =~= e);
    lemma_utf8_roundtrip(k);
}

/// The strings of a table read back.
pub proof fn lemma_parse_strs(a: Seq<u8>, t: Seq<(Seq<char>, i32)>, b: Seq<u8>)
    requires
        forall|i: int| 0 <= i < t.len() ==> encode_utf8(#[trigger] t[i].0).len() <= u32::MAX,
    ensures
        parse_strs(a + encode_strings(t) + b, a.len() as int, t.len()) == Some(
            (t.map_values(|e: (Seq<char>, i32)| e.0), (a.len() + encode_strings(t).len()) as int),
        ),
    decreases t.len(),
{
    if t.len() > 0 {
        let dl = t.drop_last();
        let last = encode_str(t.last().0);
        assert(forall|i: int| 0 <= i < dl.len() ==> dl[i] == t[i]);
        lemma_parse_strs(a, dl, last + b);
        assert(a + encode_strings(t) + b =~= a + encode_strings(dl) + (last + b));
        assert(a + encode_strings(t) + b =~= (a + encode_strings(dl)) + last + b);
        assert(encode_utf8(t[t.len() - 1].0).len() <= u32::MAX);
        lemma_parse_str(a + encode_strings(dl), t.last().0, b);
        assert(t.map_values(|e: (Seq<char>, i32)| e.0) =~= dl.map_values(
            |e: (Seq<char>, i32)| e.0,
        ).push(t.last().0));
    }
}

/// One instruction reads back.
pub proof fn lemma_parse_op(a: Seq<u8>, op: Op, b: Seq<u8>, t: Seq<(Seq<char>, i32)>, strs: Seq<
    Seq<char>,
>)
    requires
        op matches Op::LoadBuiltin(n) ==> lhm_get(t, n@) matches Some(j) && 0 <= j < strs.len()
            && strs[j as int] == n@,
    ensures
        parse_op(a + encode_op(op, t) + b, a.len() as int, strs) == Some(
            (op@, (a.len() + encode_op(op, t).len()) as int),
        ),
{
    let s = a + encode_op(op, t) + b;
    let p = a.len() as int;
    lemma_op_tag_inverse(op);
    match op {
        Op::LoadBuiltin(n) => {
            let j = lhm_get(t, n@).unwrap();
            assert(s =~= (a + seq![7u8]) + le32(j as u32) + b);
            lemma_get32(a + seq![7u8], j as u32, b);
            assert(s[p] == 7u8);
        },
        Op::LoadInt(x) => {
            assert(s =~= (a + seq![op_tag(op)]) + le64(x as u64) + b);
            lemma_get64(a + seq![op_tag(op)], x as u64, b);
            assert(s[p] == 3u8);
            assert((x as u64) as i64 == x) by (bit_vector);
        },
        Op::LoadEnv(x) | Op::LoadLocal(x) | Op::StoreEnv(x) | Op::StoreLocal(x) | Op::Pop(x) | Op::Call(x) | Op::ObjCall(x) | Op::TailCall(x) | Op::MakeEnv(x) | Op::MakeArray(x) => {
            assert(s =~= (a + seq![op_tag(op)]) + le16(x) + b);
            lemma_get16(a + seq![op_tag(op)], x, b);
            assert(s[p] == op_tag(op));
        },
        Op::LoadGlobal(x) | Op::Jump(x) | Op::JumpIf(x) | Op::JumpIfNot(x) | Op::CatchPush(x) => {
            assert(s =~= (a + seq![op_tag(op)]) + le32(x) + b);
            lemma_get32(a + seq![op_tag(op)], x, b);
            assert(s[p] == op_tag(op));
        },
        _ => {
            assert(s[p] == op_tag(op));
        },
    }
}

/// The instructions read back.
pub proof fn lemma_parse_ops(a: Seq<u8>, code: Seq<Op>, b: Seq<u8>, t: Seq<(Seq<char>, i32)>, strs: Seq<
    Seq<char>,
>)
    requires
        forall|i: int|
            0 <= i < code.len() ==> (#[trigger] code[i] matches Op::LoadBuiltin(n) ==> lhm_get(
                t,
                n@,
            ) matches Some(j) && 0 <= j < strs.len() && strs[j as int] == n@),
    ensures
        parse_ops(a + encode_ops(code, t) + b, a.len() as int, code.len(), strs) == Some(
            (code.map_values(|o: Op| o@), (a.len() + encode_ops(code, t).len()) as int),
        ),
    decreases code.len(),
{
    if code.len() > 0 {
        let dl = code.drop_last();
        let last = encode_op(code.last(), t);
        assert(forall|i: int| 0 <= i < dl.len() ==> dl[i] == code[i]);
        lemma_parse_ops(a, dl, last + b, t, strs);
        assert(a + encode_ops(code, t) + b =~= a + encode_ops(dl, t) + (last + b));
        assert(a + encode_ops(code, t) + b =~= (a + encode_ops(dl, t)) + last + b);
        assert(code[code.len() - 1] == code.last());
        lemma_parse_op(a + encode_ops(dl, t), code.last(), b, t, strs);
        assert(code.map_values(|o: Op| o@) =~= dl.map_values(|o: Op| o@).push(code.last()@));
    }
}

/// One global reads back.
pub proof fn lemma_parse_global(
    a: Seq<u8>,
    v: Value,
    b: Seq<u8>,
    t: Seq<(Seq<char>, i32)>,
    strs: Seq<Seq<char>>,
    csize: nat,
)
    requires
        kept(v),
        v matches Value::Function(f) ==> !f.native && f.address <= u32::MAX && 0 <= f.argc
            <= u16::MAX,
        v matches Value::String(x) ==> lhm_get(t, x@) matches Some(j) && 0 <= j < strs.len()
            && strs[j as int] == x@,
    ensures
        parse_global(a + encode_global(v, t) + b, a.len() as int, strs, csize) == Some(
            (GlobalStep::Global(v@), (a.len() + encode_global(v, t).len()) as int),
        ),
{
    let s = a + encode_global(v, t) + b;
    let p = a.len() as int;
    match v {
        Value::String(x) => {
            let j = lhm_get(t, x@).unwrap();
            assert(s =~= (a + seq![TAG_STRING]) + le32(j as u32) + b);
            lemma_get32(a + seq![TAG_STRING], j as u32, b);
            assert(s[p] == TAG_STRING);
        },
        Value::Float(bits) => {
            assert(s =~= (a + seq![TAG_FLOAT]) + le64(bits) + b);
            lemma_get64(a + seq![TAG_FLOAT], bits, b);
            assert(s[p] == TAG_FLOAT);
        },
        Value::Function(f) => {
            assert(s =~= (a + seq![TAG_FUN]) + le32(f.address as u32) + (le16(f.argc as u16)
                + b));
            lemma_get32(a + seq![TAG_FUN], f.address as u32, le16(f.argc as u16) + b);
            assert(s =~= (a + seq![TAG_FUN] + le32(f.address as u32)) + le16(f.argc as u16) + b);
            lemma_get16(a + seq![TAG_FUN] + le32(f.address as u32), f.argc as u16, b);
            assert(s[p] == TAG_FUN);
            assert(Function {
                native: false,
                address: (f.address as u32) as usize,
                argc: (f.argc as u16) as i32,
            } == f);
        },
        _ => {},
    }
}

/// The globals read back, with no debug information among them.
pub proof fn lemma_parse_globals(
    a: Seq<u8>,
    gs: Seq<Value>,
    b: Seq<u8>,
    t: Seq<(Seq<char>, i32)>,
    strs: Seq<Seq<char>>,
    csize: nat,
    d: Map<u32, (usize, Seq<char>)>,
)
    requires
        forall|i: int| 0 <= i < gs.len() ==> kept(#[trigger] gs[i]),
        forall|i: int|
            0 <= i < gs.len() ==> (#[trigger] gs[i] matches Value::Function(f) ==> !f.native
                && f.address <= u32::MAX && 0 <= f.argc <= u16::MAX),
        forall|i: int|
            0 <= i < gs.len() ==> (#[trigger] gs[i] matches Value::String(x) ==> lhm_get(
                t,
                x@,
            ) matches Some(j) && 0 <= j < strs.len() && strs[j as int] == x@),
    ensures
        parse_globals(a + encode_globals(gs, t) + b, a.len() as int, gs.len(), strs, csize, d)
            == Some((gs.map_values(|v: Value| v@), d, (a.len() + encode_globals(gs, t).len()) as int)),
    decreases gs.len(),
{
    if gs.len() > 0 {
        let dl = gs.drop_last();
        let last = encode_global(gs.last(), t);
        assert(forall|i: int| 0 <= i < dl.len() ==> dl[i] == gs[i]);
        lemma_parse_globals(a, dl, last + b, t, strs, csize, d);
        assert(a + encode_globals(gs, t) + b =~= a + encode_globals(dl, t) + (last + b));
        assert(a + encode_globals(gs, t) + b =~= (a + encode_globals(dl, t)) + last + b);
        assert(gs[gs.len() - 1] == gs.last());
        lemma_parse_global(a + encode_globals(dl, t), gs.last(), b, t, strs, csize);
        assert(gs.map_values(|v: Value| v@) =~= dl.map_values(|v: Value| v@).push(gs.last()@));
    }
}

pub proof fn lemma_count_kept_all(gs: Seq<Value>)
    requires
        forall|i: int| 0 <= i < gs.len() ==> kept(#[trigger] gs[i]),
    ensures
        count_kept(gs) == gs.len(),
    decreases gs.len(),
{
    if gs.len() > 0 {
        let dl = gs.drop_last();
        assert(forall|i: int| 0 <= i < dl.len() ==> dl[i] == gs[i]);
        assert(kept(gs[gs.len() - 1]));
        lemma_count_kept_all(dl);
    }
}

/// The string of a string global is among the strings, at some position.
pub proof fn lemma_str_index(gs: Seq<Value>, i: int) -> (k: int)
    requires
        0 <= i < gs.len(),
        gs[i] is String,
    ensures
        0 <= k < str_list(gs).len(),
        str_list(gs)[k] == gs[i]->String_0@,
    decreases gs.len(),
{
    let dl = gs.drop_last();
    if i == gs.len() - 1 {
        str_list(dl).len() as int
    } else {
        assert(dl[i] == gs[i]);
        let k = lemma_str_index(dl, i);
        match gs.last() {
            Value::String(_) => {},
            _ => {},
        }
        k
    }
}

/// The header the writer puts before the strings.
pub open spec fn module_header(tl: nat, gl: nat, cl: nat) -> Seq<u8> {
    le32(tl as u32) + le32(gl as u32) + le32(cl as u32) + seq![0u8]
}

pub proof fn lemma_header(tl: nat, gl: nat, cl: nat, rest: Seq<u8>)
    ensures
        module_header(tl, gl, cl).len() == 13,
        get32(module_header(tl, gl, cl) + rest, 0) == tl as u32,
        get32(module_header(tl, gl, cl) + rest, 4) == gl as u32,
        get32(module_header(tl, gl, cl) + rest, 8) == cl as u32,
        (module_header(tl, gl, cl) + rest)[12] == 0u8,
{
    let h1 = le32(tl as u32);
    let h2 = le32(gl as u32);
    let h3 = le32(cl as u32);
    let s = module_header(tl, gl, cl) + rest;
    assert(s =~= Seq::<u8>::empty() + h1 + (h2 + h3 + seq![0u8] + rest));
    lemma_get32(Seq::<u8>::empty(), tl as u32, h2 + h3 + seq![0u8] + rest);
    assert(s =~= h1 + h2 + (h3 + seq![0u8] + rest));
    lemma_get32(h1, gl as u32, h3 + seq![0u8] + rest);
    assert(s =~= (h1 + h2) + h3 + (seq![0u8] + rest));
    lemma_get32(h1 + h2, cl as u32, seq![0u8] + rest);
}

/// Reading back the bytecode the writer produces for a module gives the
/// module's globals and code, and no debug information, whatever follows it.
#[verifier::rlimit(40)]
pub proof fn lemma_read_written_module(gs: Seq<Value>, code: Seq<Op>, rest: Seq<u8>)
    requires
        round_trips(gs, code),
    ensures
        parse_module(encode_module(gs, code) + rest, 0) == Some(
            ModuleV {
                globals: gs.map_values(|v: Value| v@),
                code: code.map_values(|o: Op| o@),
                trace: Map::empty(),
            },
        ),
{
    let l = str_list(gs);
    let t = string_table(gs);
    lemma_str_list_len(gs);
    lemma_table_positioned(gs);
    lemma_count_kept_all(gs);
    let head = module_header(t.len(), gs.len(), code.len());
    let es = encode_strings(t);
    let eg = encode_globals(gs, t);
    let eo = encode_ops(code, t);
    let s = encode_module(gs, code) + rest;
    assert(s =~= head + (es + eg + eo + rest));
    lemma_header(t.len(), gs.len(), code.len(), es + eg + eo + rest);
    let q1 = (head.len() + es.len()) as int;
    let q3 = (head.len() + es.len() + eg.len()) as int;

    assert(parse_strs(s, 13, t.len()) == Some((l, q1))) by {
        assert forall|i: int| 0 <= i < t.len() implies encode_utf8(#[trigger] t[i].0).len()
            <= u32::MAX by {
            assert(t[i].0 == l[i]);
            lemma_str_list_strings_fit(gs, i);
        }
        assert(s =~= head + es + (eg + eo + rest));
        lemma_parse_strs(head, t, eg + eo + rest);
        assert(t.map_values(|e: (Seq<char>, i32)| e.0) =~= l);
    }

    assert(parse_globals(s, q1, gs.len(), l, code.len(), Map::empty()) == Some(
        (gs.map_values(|v: Value| v@), Map::<u32, (usize, Seq<char>)>::empty(), q3),
    )) by {
        assert forall|i: int| 0 <= i < gs.len() implies (#[trigger] gs[i] matches Value::String(
            x,
        ) ==> lhm_get(t, x@) matches Some(j) && 0 <= j < l.len() && l[j as int] == x@) by {
            if gs[i] is String {
                let k = lemma_str_index(gs, i);
                lemma_positioned_get(l, k);
            }
        }
        assert(s =~= (head + es) + eg + (eo + rest));
        lemma_parse_globals(head + es, gs, eo + rest, t, l, code.len(), Map::empty());
    }

    assert(parse_ops(s, q3, code.len(), l) matches Some((ops, _)) && ops == code.map_values(
        |o: Op| o@,
    )) by {
        assert forall|i: int| 0 <= i < code.len() implies (#[trigger] code[i] matches Op::LoadBuiltin(
            n,
        ) ==> lhm_get(t, n@) matches Some(j) && 0 <= j < l.len() && l[j as int] == n@) by {
            if code[i] is LoadBuiltin {
                lemma_positioned_found(l, code[i]->LoadBuiltin_0@);
            }
        }
        assert(s =~= (head + es + eg) + eo + rest);
        lemma_parse_ops(head + es + eg, code, rest, t, l);
    }
}

/// Every string of the table fits the 32-bit length field.
pub proof fn lemma_str_list_strings_fit(gs: Seq<Value>, k: int)
    requires
        0 <= k < str_list(gs).len(),
        forall|i: int|
            0 <= i < gs.len() ==> (#[trigger] gs[i] matches Value::String(s) ==> encode_utf8(
                s@,
            ).len() <= u32::MAX),
    ensures
        encode_utf8(str_list(gs)[k]).len() <= u32::MAX,
    decreases gs.len(),
{
    let dl = gs.drop_last();
    assert(forall|i: int| 0 <= i < dl.len() ==> dl[i] == gs[i]);
    assert(gs[gs.len() - 1] == gs.last());
    match gs.last() {
        Value::String(s) => {
            if k < str_list(dl).len() {
                lemma_str_list_strings_fit(dl, k);
            }
        },
        _ => {
            lemma_str_list_strings_fit(dl, k);
        },
    }
}

} // verus!
