//! Reading back what the writer wrote.
//!
//! The writer registers every name the module uses (the instructions'
//! names, string constants, functions' parameter names) before it writes
//! the name table, each under the next id, so the table's entries carry the
//! ids 0, 1, 2, ... in order. The reader takes the table back entry by
//! entry, and a module reads back whole: its constants as they were, and
//! its instructions with each name interned into the reader's symbols.

use vstd::prelude::*;
use vstd::utf8::{decode_utf8, encode_utf8, valid_utf8};
use crate::bytes::{
    get16, get32, get64, le16, le32, le64, lemma_get16, lemma_get32, lemma_get64,
    lemma_utf8_roundtrip,
};
use crate::lhm::{find_key, lemma_find_key_bounds, lemma_find_key_distinct, lhm_get, lhm_insert};
use crate::light::decoder::{
    LightRead, parse_args, parse_code, parse_const, parse_consts, parse_module, parse_op,
    parse_strings,
};
use crate::light::opcodes::{
    Name, Opcode, lemma_nullary_inverse, nullary_op, op_byte, op_name, op_operand_free,
};
use crate::light::symbols::{intern_index, interned, lemma_position, position};
use crate::light::value::ConstantV;
use crate::light::writer::{
    END_OF_CODE, arg_names, code_names, const_names, emitted, encode_args, encode_code,
    encode_const, encode_consts, encode_name, encode_names, encode_op, names_known, str_id,
    with_name,
};

verus! {

/// A name table whose entries carry the ids 0, 1, 2, ... in order and whose
/// names are distinct.
pub open spec fn dense(t: Seq<(Seq<char>, u32)>) -> bool {
    &&& forall|k: int| 0 <= k < t.len() ==> #[trigger] t[k].1 as int == k
    &&& forall|i: int, j: int| 0 <= i < j < t.len() ==> t[i].0 != t[j].0
}

/// Whether `x` is a name of table `t`.
pub open spec fn has_name(t: Seq<(Seq<char>, u32)>, x: Seq<char>) -> bool {
    exists|k: int| 0 <= k < t.len() && #[trigger] t[k].0 == x
}

/// Whether `t` begins with `t0`.
pub open spec fn extends(t0: Seq<(Seq<char>, u32)>, t: Seq<(Seq<char>, u32)>) -> bool {
    t0.len() <= t.len() && forall|k: int| 0 <= k < t0.len() ==> #[trigger] t[k] == t0[k]
}

/// The names of a table, in order: the strings the reader takes back.
pub open spec fn table_names(t: Seq<(Seq<char>, u32)>) -> Seq<Seq<char>> {
    t.map_values(|e: (Seq<char>, u32)| e.0)
}

/// In a dense table a name's id is its place, and registering it again
/// changes nothing.
proof fn lemma_dense_lookup(t: Seq<(Seq<char>, u32)>, k: int)
    requires
        dense(t),
        0 <= k < t.len(),
    ensures
        lhm_get(t, t[k].0) == Some(t[k].1),
        str_id(t, t[k].0) as int == k,
        with_name(t, t[k].0) == t,
{
    lemma_find_key_distinct(t, k);
}

/// Registering a name never shortens the table, and adds one entry when
/// the name is new.
proof fn lemma_with_name_len(t: Seq<(Seq<char>, u32)>, x: Seq<char>)
    ensures
        with_name(t, x).len() >= t.len(),
        !has_name(t, x) ==> with_name(t, x) == t.push((x, t.len() as u32)),
        has_name(t, x) ==> with_name(t, x) == t,
{
    lemma_find_key_bounds(t, x);
    if has_name(t, x) {
        let k = choose|k: int| 0 <= k < t.len() && #[trigger] t[k].0 == x;
        assert(find_key(t, x) >= 0);
    }
}

/// Registering a name keeps a dense table dense, keeps what it held, and
/// leaves the name in it.
proof fn lemma_with_name_dense(t: Seq<(Seq<char>, u32)>, x: Seq<char>)
    requires
        dense(t),
        with_name(t, x).len() <= u32::MAX,
    ensures
        dense(with_name(t, x)),
        extends(t, with_name(t, x)),
        has_name(with_name(t, x), x),
{
    lemma_with_name_len(t, x);
    let w = with_name(t, x);
    if !has_name(t, x) {
        assert(w[t.len() as int].0 == x);
        assert forall|i: int, j: int| 0 <= i < j < w.len() implies w[i].0 != w[j].0 by {
            if j == t.len() {
                assert(w[i] == t[i]);
            }
        }
    } else {
        let k = choose|k: int| 0 <= k < t.len() && #[trigger] t[k].0 == x;
        assert(w[k].0 == x);
    }
}

/// A table that begins with another keeps its names.
proof fn lemma_extends_has(t0: Seq<(Seq<char>, u32)>, t: Seq<(Seq<char>, u32)>, x: Seq<char>)
    requires
        extends(t0, t),
        has_name(t0, x),
    ensures
        has_name(t, x),
{
    let k = choose|k: int| 0 <= k < t0.len() && #[trigger] t0[k].0 == x;
    assert(t[k] == t0[k]);
}

/// Registering parameter names keeps the table dense and leaves each name
/// in it.
proof fn lemma_arg_names(t: Seq<(Seq<char>, u32)>, args: Seq<Seq<char>>)
    requires
        dense(t),
        arg_names(t, args).len() <= u32::MAX,
    ensures
        dense(arg_names(t, args)),
        extends(t, arg_names(t, args)),
        forall|i: int| 0 <= i < args.len() ==> has_name(arg_names(t, args), #[trigger] args[i]),
    decreases args.len(),
{
    if args.len() > 0 {
        let dl = args.drop_last();
        let t1 = arg_names(t, dl);
        lemma_with_name_len(t1, args.last());
        lemma_arg_names(t, dl);
        lemma_with_name_dense(t1, args.last());
        let t2 = arg_names(t, args);
        assert forall|i: int| 0 <= i < args.len() implies has_name(t2, #[trigger] args[i]) by {
            if i < args.len() - 1 {
                assert(args[i] == dl[i]);
                lemma_extends_has(t1, t2, args[i]);
            }
        }
    }
}

/// Registering the instructions' names keeps the table dense and leaves
/// each in it.
proof fn lemma_code_names(t: Seq<(Seq<char>, u32)>, code: Seq<Opcode>, syms: Seq<Seq<char>>)
    requires
        dense(t),
        code_names(t, code, syms).len() <= u32::MAX,
    ensures
        dense(code_names(t, code, syms)),
        extends(t, code_names(t, code, syms)),
        forall|i: int|
            0 <= i < code.len() ==> (#[trigger] op_name(code[i]) matches Some(n) ==> has_name(
                code_names(t, code, syms),
                syms[n.0 as int],
            )),
    decreases code.len(),
{
    if code.len() > 0 {
        let dl = code.drop_last();
        let t1 = code_names(t, dl, syms);
        let t2 = code_names(t, code, syms);
        match op_name(code.last()) {
            Some(n) => {
                lemma_with_name_len(t1, syms[n.0 as int]);
                lemma_code_names(t, dl, syms);
                lemma_with_name_dense(t1, syms[n.0 as int]);
            },
            None => {
                lemma_code_names(t, dl, syms);
            },
        }
        assert forall|i: int| 0 <= i < code.len() implies (#[trigger] op_name(code[i]) matches Some(
            n,
        ) ==> has_name(t2, syms[n.0 as int])) by {
            if i < code.len() - 1 {
                assert(code[i] == dl[i]);
                if let Some(n) = op_name(code[i]) {
                    lemma_extends_has(t1, t2, syms[n.0 as int]);
                }
            }
        }
    }
}

/// The names a constant uses are in a table.
pub open spec fn const_named(t: Seq<(Seq<char>, u32)>, c: ConstantV) -> bool {
    match c {
        ConstantV::Str(s) => has_name(t, s),
        ConstantV::Func { args, .. } => forall|i: int| 0 <= i < args.len() ==> has_name(t, #[trigger] args[i]),
        _ => true,
    }
}

/// A table that begins with another keeps the names of a constant.
proof fn lemma_extends_const(t0: Seq<(Seq<char>, u32)>, t: Seq<(Seq<char>, u32)>, c: ConstantV)
    requires
        extends(t0, t),
        const_named(t0, c),
    ensures
        const_named(t, c),
{
    match c {
        ConstantV::Str(s) => lemma_extends_has(t0, t, s),
        ConstantV::Func { args, .. } => {
            assert forall|i: int| 0 <= i < args.len() implies has_name(t, #[trigger] args[i]) by {
                lemma_extends_has(t0, t, args[i]);
            }
        },
        _ => {},
    }
}

/// Registering the constants' names keeps the table dense and leaves each
/// in it.
proof fn lemma_const_names(t: Seq<(Seq<char>, u32)>, cs: Seq<ConstantV>)
    requires
        dense(t),
        const_names(t, cs).len() <= u32::MAX,
    ensures
        dense(const_names(t, cs)),
        extends(t, const_names(t, cs)),
        forall|i: int| 0 <= i < cs.len() ==> const_named(const_names(t, cs), #[trigger] cs[i]),
    decreases cs.len(),
{
    if cs.len() > 0 {
        let dl = cs.drop_last();
        let t1 = const_names(t, dl);
        let t2 = const_names(t, cs);
        match cs.last() {
            ConstantV::Str(s) => {
                lemma_with_name_len(t1, s);
                lemma_const_names(t, dl);
                lemma_with_name_dense(t1, s);
            },
            ConstantV::Func { args, .. } => {
                lemma_arg_names_len(t1, args);
                lemma_const_names(t, dl);
                lemma_arg_names(t1, args);
            },
            _ => {
                lemma_const_names(t, dl);
            },
        }
        assert forall|i: int| 0 <= i < cs.len() implies const_named(t2, #[trigger] cs[i]) by {
            if i < cs.len() - 1 {
                assert(cs[i] == dl[i]);
                lemma_extends_const(t1, t2, cs[i]);
            }
        }
    }
}

/// Registering parameter names never shortens the table.
proof fn lemma_arg_names_len(t: Seq<(Seq<char>, u32)>, args: Seq<Seq<char>>)
    ensures
        arg_names(t, args).len() >= t.len(),
    decreases args.len(),
{
    if args.len() > 0 {
        lemma_arg_names_len(t, args.drop_last());
        lemma_with_name_len(arg_names(t, args.drop_last()), args.last());
    }
}

/// Reading `n1 + n2` strings is reading `n1`, then `n2` more.
proof fn lemma_parse_strings_split(s: Seq<u8>, p: int, n1: nat, n2: nat, acc: Seq<Seq<char>>)
    ensures
        parse_strings(s, p, n1 + n2, acc) == match parse_strings(s, p, n1, acc) {
            Some((acc1, q)) => parse_strings(s, q, n2, acc1),
            None => None,
        },
    decreases n1,
{
    if n1 > 0 {
        if 0 <= p && p + 8 <= s.len() && get32(s, p) as int == acc.len() && p + 8 + get32(s, p + 4)
            <= s.len() && valid_utf8(s.subrange(p + 8, p + 8 + get32(s, p + 4))) {
            let q = p + 8 + get32(s, p + 4);
            assert((n1 + n2 - 1) as nat == (n1 - 1) as nat + n2);
            lemma_parse_strings_split(
                s,
                q,
                (n1 - 1) as nat,
                n2,
                acc.push(decode_utf8(s.subrange(p + 8, q))),
            );
        }
    }
}

/// The name table reads back as its names, in order.
proof fn lemma_parse_names(a: Seq<u8>, t: Seq<(Seq<char>, u32)>, b: Seq<u8>)
    requires
        dense(t),
        forall|k: int| 0 <= k < t.len() ==> encode_utf8(#[trigger] t[k].0).len() <= u32::MAX,
    ensures
        ({
            let e = encode_names(t);
            parse_strings(a + e + b, a.len() as int, t.len(), Seq::empty()) == Some(
                (table_names(t), (a.len() + e.len()) as int),
            )
        }),
    decreases t.len(),
{
    if t.len() == 0 {
        assert(table_names(t) =~= Seq::<Seq<char>>::empty());
    } else {
        let dl = t.drop_last();
        let x = t.last();
        assert forall|k: int| 0 <= k < dl.len() implies #[trigger] dl[k].1 as int == k by {
            assert(dl[k] == t[k]);
        }
        assert forall|i: int, j: int| 0 <= i < j < dl.len() implies dl[i].0 != dl[j].0 by {
            assert(dl[i] == t[i] && dl[j] == t[j]);
        }
        assert forall|k: int| 0 <= k < dl.len() implies encode_utf8(#[trigger] dl[k].0).len()
            <= u32::MAX by {
            assert(dl[k] == t[k]);
        }
        let ed = encode_names(dl);
        let ex = encode_name(x);
        assert(encode_names(t) == ed + ex);
        let s = a + (ed + ex) + b;
        assert(s =~= a + ed + (ex + b));
        lemma_parse_names(a, dl, ex + b);
        lemma_parse_strings_split(s, a.len() as int, dl.len(), 1, Seq::empty());
        assert(x == t[t.len() - 1]);
        assert(table_names(dl).len() == dl.len());
        assert(s =~= (a + ed) + ex + b);
        lemma_parse_one_name(a + ed, x, b, table_names(dl));
        assert(table_names(dl).push(x.0) =~= table_names(t));
        assert((dl.len() + 1) as nat == t.len());
    }
}

/// One entry of the name table reads back, when its id is the number of
/// names read so far.
proof fn lemma_parse_one_name(pre: Seq<u8>, x: (Seq<char>, u32), b: Seq<u8>, acc: Seq<Seq<char>>)
    requires
        x.1 as int == acc.len(),
        encode_utf8(x.0).len() <= u32::MAX,
    ensures
        ({
            let e = encode_name(x);
            parse_strings(pre + e + b, pre.len() as int, 1, acc) == Some(
                (acc.push(x.0), (pre.len() + e.len()) as int),
            )
        }),
{
    let e = encode_name(x);
    let s = pre + e + b;
    let q = pre.len() as int;
    let bytes = encode_utf8(x.0);
    let n = bytes.len() as u32;
    assert(s =~= pre + le32(x.1) + (le32(n) + bytes + b));
    lemma_get32(pre, x.1, le32(n) + bytes + b);
    assert(s =~= (pre + le32(x.1)) + le32(n) + (bytes + b));
    lemma_get32(pre + le32(x.1), n, bytes + b);
    assert(s.subrange(q + 8, q + 8 + n) =~= bytes);
    lemma_utf8_roundtrip(x.0);
    let q2 = q + 8 + n;
    assert(parse_strings(s, q2, 0, acc.push(x.0)) == Some((acc.push(x.0), q2)));
}

/// Reading `n1 + n2` parameter names is reading `n1`, then `n2` more.
proof fn lemma_parse_args_split(
    s: Seq<u8>,
    p: int,
    n1: nat,
    n2: nat,
    strs: Seq<Seq<char>>,
    acc: Seq<Seq<char>>,
)
    ensures
        parse_args(s, p, n1 + n2, strs, acc) == match parse_args(s, p, n1, strs, acc) {
            Some((acc1, q)) => parse_args(s, q, n2, strs, acc1),
            None => None,
        },
    decreases n1,
{
    if n1 > 0 {
        if 0 <= p && p + 4 <= s.len() && (get32(s, p) as int) < strs.len() {
            assert((n1 + n2 - 1) as nat == (n1 - 1) as nat + n2);
            lemma_parse_args_split(s, p + 4, (n1 - 1) as nat, n2, strs, acc.push(strs[get32(s, p) as int]));
        }
    }
}

/// Parameter names already in a dense table are written by their ids and
/// read back.
proof fn lemma_parse_args(a: Seq<u8>, args: Seq<Seq<char>>, b: Seq<u8>, t: Seq<(Seq<char>, u32)>)
    requires
        dense(t),
        forall|i: int| 0 <= i < args.len() ==> has_name(t, #[trigger] args[i]),
    ensures
        encode_args(t, args).1 == t,
        ({
            let e = encode_args(t, args).0;
            parse_args(a + e + b, a.len() as int, args.len(), table_names(t), Seq::empty()) == Some(
                (args, (a.len() + e.len()) as int),
            )
        }),
    decreases args.len(),
{
    if args.len() == 0 {
        assert(args =~= Seq::<Seq<char>>::empty());
    } else {
        let dl = args.drop_last();
        let x = args.last();
        assert forall|i: int| 0 <= i < dl.len() implies has_name(t, #[trigger] dl[i]) by {
            assert(dl[i] == args[i]);
        }
        assert(has_name(t, args[args.len() - 1]));
        let k = choose|k: int| 0 <= k < t.len() && #[trigger] t[k].0 == x;
        lemma_dense_lookup(t, k);
        let ed = encode_args(t, dl).0;
        let ex = le32(k as u32);
        lemma_parse_args(a, dl, ex + b, t);
        assert(encode_args(t, args).0 == ed + ex);
        let s = a + (ed + ex) + b;
        assert(s =~= a + ed + (ex + b));
        lemma_parse_args_split(s, a.len() as int, dl.len(), 1, table_names(t), Seq::empty());
        assert(s =~= (a + ed) + ex + b);
        lemma_get32(a + ed, k as u32, b);
        assert(table_names(t)[k] == x);
        let q2 = (a.len() + ed.len() + 4) as int;
        assert(parse_args(s, q2, 0, table_names(t), dl.push(x)) == Some((dl.push(x), q2)));
        assert(dl.push(x) =~= args);
        assert((dl.len() + 1) as nat == args.len());
    }
}

/// The constants the writer lays out in full: a function at an address
/// that fits 32 bits, with no more parameters than 16 bits count, and
/// without the setter and getter flags, which the writer does not write.
pub open spec fn const_fits(c: ConstantV) -> bool {
    c matches ConstantV::Func { addr, args, set, get } ==> addr <= u32::MAX && args.len()
        <= u16::MAX && !set && !get
}

/// A constant whose names are in a dense table reads back.
#[verifier::spinoff_prover]
#[verifier::rlimit(40)]
proof fn lemma_parse_const(a: Seq<u8>, c: ConstantV, b: Seq<u8>, t: Seq<(Seq<char>, u32)>)
    requires
        dense(t),
        const_named(t, c),
        const_fits(c),
    ensures
        encode_const(t, c).1 == t,
        ({
            let e = encode_const(t, c).0;
            parse_const(a + e + b, a.len() as int, table_names(t)) == Some(
                (c, (a.len() + e.len()) as int),
            )
        }),
{
    let e = encode_const(t, c).0;
    let s = a + e + b;
    let p = a.len() as int;
    assert(s[p] == e[0]);
    match c {
        ConstantV::Number(bits) => {
            assert(s =~= (a + seq![1u8]) + le64(bits) + b);
            lemma_get64(a + seq![1u8], bits, b);
        },
        ConstantV::Bool(x) => {
            assert(s[p + 1] == e[1]);
        },
        ConstantV::Str(x) => {
            let k = choose|k: int| 0 <= k < t.len() && #[trigger] t[k].0 == x;
            lemma_dense_lookup(t, k);
            assert(s =~= (a + seq![3u8]) + le32(k as u32) + b);
            lemma_get32(a + seq![3u8], k as u32, b);
            assert(table_names(t)[k] == x);
        },
        ConstantV::Func { addr, args, set, get } => {
            let pre = a + seq![5u8];
            let ab = encode_args(t, args).0;
            let n = args.len() as u16;
            assert(e =~= seq![5u8] + le32(addr as u32) + le16(n) + seq![0u8] + ab);
            assert(s =~= pre + le32(addr as u32) + (le16(n) + seq![0u8] + ab + b));
            lemma_get32(pre, addr as u32, le16(n) + seq![0u8] + ab + b);
            assert(s =~= (pre + le32(addr as u32)) + le16(n) + (seq![0u8] + ab + b));
            lemma_get16(pre + le32(addr as u32), n, seq![0u8] + ab + b);
            assert(s[p + 7] == 0u8);
            assert((0u8 & 1u8) == 0u8 && (0u8 & 2u8) == 0u8) by (bit_vector);
            let pa = pre + le32(addr as u32) + le16(n) + seq![0u8];
            assert(s =~= pa + ab + b);
            lemma_parse_args(pa, args, b, t);
            assert((addr as u32) as usize == addr);
        },
        _ => {},
    }
}

/// Reading `n1 + n2` constants is reading `n1`, then `n2` more.
proof fn lemma_parse_consts_split(
    s: Seq<u8>,
    p: int,
    n1: nat,
    n2: nat,
    strs: Seq<Seq<char>>,
    acc: Seq<ConstantV>,
)
    ensures
        parse_consts(s, p, n1 + n2, strs, acc) == match parse_consts(s, p, n1, strs, acc) {
            Some((acc1, q)) => parse_consts(s, q, n2, strs, acc1),
            None => None,
        },
    decreases n1,
{
    if n1 > 0 {
        match parse_const(s, p, strs) {
            Some((c, q)) => {
                assert((n1 + n2 - 1) as nat == (n1 - 1) as nat + n2);
                lemma_parse_consts_split(s, q, (n1 - 1) as nat, n2, strs, acc.push(c));
            },
            None => {},
        }
    }
}

/// Constants whose names are in a dense table read back.
proof fn lemma_parse_consts(a: Seq<u8>, cs: Seq<ConstantV>, b: Seq<u8>, t: Seq<(Seq<char>, u32)>)
    requires
        dense(t),
        forall|i: int| 0 <= i < cs.len() ==> const_named(t, #[trigger] cs[i]),
        forall|i: int| 0 <= i < cs.len() ==> const_fits(#[trigger] cs[i]),
    ensures
        encode_consts(t, cs).1 == t,
        ({
            let e = encode_consts(t, cs).0;
            parse_consts(a + e + b, a.len() as int, cs.len(), table_names(t), Seq::empty()) == Some(
                (cs, (a.len() + e.len()) as int),
            )
        }),
    decreases cs.len(),
{
    if cs.len() == 0 {
        assert(cs =~= Seq::<ConstantV>::empty());
    } else {
        let dl = cs.drop_last();
        let c = cs.last();
        assert forall|i: int| 0 <= i < dl.len() implies const_named(t, #[trigger] dl[i])
            && const_fits(dl[i]) by {
            assert(dl[i] == cs[i]);
        }
        assert(cs[cs.len() - 1] == c);
        let ed = encode_consts(t, dl).0;
        let ec = encode_const(t, c).0;
        lemma_parse_consts(a, dl, ec + b, t);
        lemma_parse_const(a + ed, c, b, t);
        assert(encode_consts(t, cs).0 == ed + ec);
        let s = a + (ed + ec) + b;
        assert(s =~= a + ed + (ec + b));
        assert(s =~= (a + ed) + ec + b);
        let strs = table_names(t);
        lemma_parse_consts_split(s, a.len() as int, dl.len(), 1, strs, Seq::empty());
        let q = (a.len() + ed.len()) as int;
        let q2 = (a.len() + ed.len() + ec.len()) as int;
        assert(parse_consts(s, q2, 0, strs, dl.push(c)) == Some((dl.push(c), q2)));
        assert(parse_consts(s, q, 1, strs, dl) == Some((dl.push(c), q2)));
        assert(dl.len() + 1 == cs.len());
        assert(dl.push(c) =~= cs);
    }
}

/// The instruction with its name replaced by `n`, for the three that name
/// a symbol.
pub open spec fn renamed(op: Opcode, n: Name) -> Opcode {
    match op {
        Opcode::LoadVar(_) => Opcode::LoadVar(n),
        Opcode::DeclVar(_) => Opcode::DeclVar(n),
        Opcode::StoreVar(_) => Opcode::StoreVar(n),
        _ => op,
    }
}

/// What the reader, with symbols `rs`, makes of an instruction the writer
/// wrote with symbols `syms`: a named symbol is interned into `rs` and the
/// instruction names it there; with the symbols after.
pub open spec fn read_op(op: Opcode, syms: Seq<Seq<char>>, rs: Seq<Seq<char>>) -> (Opcode, Seq<
    Seq<char>,
>) {
    match op_name(op) {
        Some(n) => (
            renamed(op, Name(intern_index(rs, syms[n.0 as int]) as u32)),
            interned(rs, syms[n.0 as int]),
        ),
        None => (op, rs),
    }
}

/// What the reader makes of the instructions, one after the other.
pub open spec fn read_code(code: Seq<Opcode>, syms: Seq<Seq<char>>, rs: Seq<Seq<char>>) -> (Seq<
    Opcode,
>, Seq<Seq<char>>)
    decreases code.len(),
{
    if code.len() == 0 {
        (Seq::empty(), rs)
    } else {
        let (c1, r1) = read_code(code.drop_last(), syms, rs);
        let (o, r2) = read_op(code.last(), syms, r1);
        (c1.push(o), r2)
    }
}

/// The instructions whose operands fit the width the writer gives them.
pub open spec fn op_fits(op: Opcode) -> bool {
    &&& (op matches Opcode::ConstructArray(x) ==> x <= u16::MAX)
    &&& (op matches Opcode::Call(x) ==> x <= u16::MAX)
    &&& (op matches Opcode::Pop(x) ==> x <= u16::MAX)
    &&& (op matches Opcode::PushCatch(x) ==> x <= u32::MAX)
}

/// One instruction whose name is in a dense table reads back from its byte
/// and operand.
proof fn lemma_parse_op(
    a: Seq<u8>,
    op: Opcode,
    b: Seq<u8>,
    t: Seq<(Seq<char>, u32)>,
    syms: Seq<Seq<char>>,
    rs: Seq<Seq<char>>,
)
    requires
        dense(t),
        op_fits(op),
        op_name(op) matches Some(n) ==> (n.0 as int) < syms.len() && has_name(t, syms[n.0 as int]),
    ensures
        encode_op(t, op, syms).1 == t,
        ({
            let e = encode_op(t, op, syms).0;
            &&& e.len() >= 1
            &&& e[0] == op_byte(op)
            &&& op_byte(op) != END_OF_CODE
            &&& parse_op(a + e + b, a.len() + 1int, op_byte(op), table_names(t), rs) == Some(
                (read_op(op, syms, rs).0, (a.len() + e.len()) as int, read_op(op, syms, rs).1),
            )
        }),
{
    reveal(parse_op);
    let e = encode_op(t, op, syms).0;
    let s = a + e + b;
    let pre = a + seq![op_byte(op)];
    lemma_nullary_inverse(op);
    match op {
        Opcode::LoadInt(x) => {
            assert(s =~= pre + le64(x as u64) + b);
            lemma_get64(pre, x as u64, b);
            assert((x as u64) as i64 == x) by (bit_vector);
        },
        Opcode::LoadConst(x) => {
            assert(s =~= pre + le32(x) + b);
            lemma_get32(pre, x, b);
        },
        Opcode::LoadVar(n) => {
            let k = choose|k: int| 0 <= k < t.len() && #[trigger] t[k].0 == syms[n.0 as int];
            lemma_dense_lookup(t, k);
            assert(s =~= pre + le32(k as u32) + b);
            lemma_get32(pre, k as u32, b);
            assert(table_names(t)[k] == syms[n.0 as int]);
        },
        Opcode::DeclVar(n) => {
            let k = choose|k: int| 0 <= k < t.len() && #[trigger] t[k].0 == syms[n.0 as int];
            lemma_dense_lookup(t, k);
            assert(s =~= pre + le32(k as u32) + b);
            lemma_get32(pre, k as u32, b);
            assert(table_names(t)[k] == syms[n.0 as int]);
        },
        Opcode::StoreVar(n) => {
            let k = choose|k: int| 0 <= k < t.len() && #[trigger] t[k].0 == syms[n.0 as int];
            lemma_dense_lookup(t, k);
            assert(s =~= pre + le32(k as u32) + b);
            lemma_get32(pre, k as u32, b);
            assert(table_names(t)[k] == syms[n.0 as int]);
        },
        Opcode::Jump(x) => {
            assert(s =~= pre + le32(x) + b);
            lemma_get32(pre, x, b);
        },
        Opcode::JumpIf(x) => {
            assert(s =~= pre + le32(x) + b);
            lemma_get32(pre, x, b);
        },
        Opcode::JumpIfFalse(x) => {
            assert(s =~= pre + le32(x) + b);
            lemma_get32(pre, x, b);
        },
        Opcode::PushCatch(x) => {
            assert(s =~= pre + le32(x as u32) + b);
            lemma_get32(pre, x as u32, b);
        },
        Opcode::ConstructArray(x) => {
            assert(s =~= pre + le16(x as u16) + b);
            lemma_get16(pre, x as u16, b);
        },
        Opcode::Call(x) => {
            assert(s =~= pre + le16(x as u16) + b);
            lemma_get16(pre, x as u16, b);
        },
        Opcode::Pop(x) => {
            assert(s =~= pre + le16(x as u16) + b);
            lemma_get16(pre, x as u16, b);
        },
        _ => {
            assert(op_operand_free(op));
        },
    }
}

/// One step of reading instructions.
proof fn lemma_code_step(
    s: Seq<u8>,
    p: int,
    byte: u8,
    count: int,
    strs: Seq<Seq<char>>,
    syms: Seq<Seq<char>>,
    acc: Seq<Opcode>,
    op: Opcode,
    q: int,
    syms1: Seq<Seq<char>>,
)
    requires
        byte != END_OF_CODE,
        0 <= p <= q < s.len(),
        p < count,
        parse_op(s, p, byte, strs, syms) == Some((op, q, syms1)),
    ensures
        parse_code(s, p, byte, count, strs, syms, acc) == parse_code(
            s,
            q + 1,
            s[q],
            count,
            strs,
            syms1,
            acc.push(op),
        ),
{
}

/// Instructions whose names are in a dense table read back one after the
/// other: reading from just after the first one's byte reaches just after
/// the byte that follows them.
proof fn lemma_parse_code(
    a: Seq<u8>,
    code: Seq<Opcode>,
    rest: Seq<u8>,
    t: Seq<(Seq<char>, u32)>,
    syms: Seq<Seq<char>>,
    rs: Seq<Seq<char>>,
    acc: Seq<Opcode>,
)
    requires
        dense(t),
        forall|i: int| 0 <= i < code.len() ==> op_fits(#[trigger] code[i]),
        names_known(code, syms),
        forall|i: int|
            0 <= i < code.len() ==> (#[trigger] op_name(code[i]) matches Some(n) ==> has_name(
                t,
                syms[n.0 as int],
            )),
        rest.len() > 0,
    ensures
        encode_code(t, code, syms).1 == t,
        ({
            let e = encode_code(t, code, syms).0;
            let s = a + e + rest;
            let m = (a.len() + e.len()) as int;
            let (rc, rs1) = read_code(code, syms, rs);
            parse_code(s, a.len() + 1int, s[a.len() as int], s.len() as int, table_names(t), rs, acc)
                == parse_code(s, m + 1, s[m], s.len() as int, table_names(t), rs1, acc + rc)
        }),
    decreases code.len(),
{
    let e = encode_code(t, code, syms).0;
    let s = a + e + rest;
    if code.len() == 0 {
        assert(acc + Seq::<Opcode>::empty() =~= acc);
    } else {
        let dl = code.drop_last();
        let op = code.last();
        assert forall|i: int| 0 <= i < dl.len() implies op_fits(#[trigger] dl[i]) && (op_name(dl[i]) matches Some(n)
            ==> (n.0 as int) < syms.len() && has_name(t, syms[n.0 as int])) by {
            assert(dl[i] == code[i]);
        }
        assert(code[code.len() - 1] == op);
        let ed = encode_code(t, dl, syms).0;
        let eo = encode_op(t, op, syms).0;
        let (c1, r1) = read_code(dl, syms, rs);
        lemma_parse_op(a + ed, op, rest, t, syms, r1);
        lemma_parse_code(a, dl, eo + rest, t, syms, rs, acc);
        assert(e == ed + eo);
        assert(s =~= a + ed + (eo + rest));
        assert(s =~= (a + ed) + eo + rest);
        let m0 = (a.len() + ed.len()) as int;
        assert(s[m0] == op_byte(op));
        lemma_code_step(
            s,
            m0 + 1,
            op_byte(op),
            s.len() as int,
            table_names(t),
            r1,
            acc + c1,
            read_op(op, syms, r1).0,
            (a.len() + e.len()) as int,
            read_op(op, syms, r1).1,
        );
        assert((acc + c1).push(read_op(op, syms, r1).0) =~= acc + read_code(code, syms, rs).0);
    }
}

/// Registering the constants' names never shortens the table.
proof fn lemma_const_names_len(t: Seq<(Seq<char>, u32)>, cs: Seq<ConstantV>)
    ensures
        const_names(t, cs).len() >= t.len(),
    decreases cs.len(),
{
    if cs.len() > 0 {
        let t1 = const_names(t, cs.drop_last());
        lemma_const_names_len(t, cs.drop_last());
        match cs.last() {
            ConstantV::Str(x) => lemma_with_name_len(t1, x),
            ConstantV::Func { args, .. } => lemma_arg_names_len(t1, args),
            _ => {},
        }
    }
}

/// The name table the writer writes for a module, starting from an empty
/// one: the instructions' names, then the constants' names, in order.
pub open spec fn emitted_names(code: Seq<Opcode>, cs: Seq<ConstantV>, syms: Seq<Seq<char>>) -> Seq<
    (Seq<char>, u32),
> {
    const_names(code_names(Seq::empty(), code, syms), cs)
}

/// The modules whose every count and length fits the width the format
/// gives it: instruction operands, functions' addresses and parameter
/// counts, the number of constants, the number of names and each name's
/// length; and whose functions carry no setter or getter flag, which the
/// writer does not write.
pub open spec fn module_fits(code: Seq<Opcode>, cs: Seq<ConstantV>, syms: Seq<Seq<char>>) -> bool {
    &&& forall|i: int| 0 <= i < code.len() ==> op_fits(#[trigger] code[i])
    &&& forall|i: int| 0 <= i < cs.len() ==> const_fits(#[trigger] cs[i])
    &&& cs.len() <= u32::MAX
    &&& emitted_names(code, cs, syms).len() <= u32::MAX
    &&& forall|k: int|
        0 <= k < emitted_names(code, cs, syms).len() ==> encode_utf8(
            #[trigger] emitted_names(code, cs, syms)[k].0,
        ).len() <= u32::MAX
}

/// The two counts around the name table read back.
proof fn lemma_counts(n: u32, names: Seq<u8>, m: u32, tail: Seq<u8>)
    ensures
        ({
            let s = le32(n) + names + le32(m) + tail;
            &&& get32(s, 0) == n
            &&& get32(s, 4 + names.len() as int) == m
        }),
{
    let s = le32(n) + names + le32(m) + tail;
    assert(s =~= Seq::<u8>::empty() + le32(n) + (names + le32(m) + tail));
    lemma_get32(Seq::<u8>::empty(), n, names + le32(m) + tail);
    assert(s =~= (le32(n) + names) + le32(m) + tail);
    lemma_get32(le32(n) + names, m, tail);
}

/// Reading back the bytecode the writer produces with a fresh name table
/// gives the module: its constants as they were, and its instructions with
/// each name interned into the reader's symbols (see
/// `lemma_read_code_names` for what that keeps), reaching the end of the
/// bytecode.
#[verifier::rlimit(60)]
pub proof fn lemma_read_emitted_module(
    code: Seq<Opcode>,
    cs: Seq<ConstantV>,
    syms: Seq<Seq<char>>,
    reader_syms: Seq<Seq<char>>,
)
    requires
        names_known(code, syms),
        module_fits(code, cs, syms),
    ensures
        ({
            let b = emitted(Seq::empty(), code, cs, syms).0;
            parse_module(b, 0, b.len() as int, reader_syms) == Some(
                LightRead {
                    constants: cs,
                    code: read_code(code, syms, reader_syms).0,
                    symbols: read_code(code, syms, reader_syms).1,
                    end: b.len() as int,
                },
            )
        }),
{
    let t0: Seq<(Seq<char>, u32)> = Seq::empty();
    let t = emitted_names(code, cs, syms);
    lemma_emitted_table(code, cs, syms);
    let nb = encode_names(t);
    let cb = encode_consts(t, cs).0;
    let ob = encode_code(t, code, syms).0;
    let h1 = le32(t.len() as u32);
    let h2 = le32(cs.len() as u32);
    let end = seq![END_OF_CODE];
    let b = emitted(t0, code, cs, syms).0;
    let strs = table_names(t);
    let p1: int = 4 + nb.len() as int;
    let p2: int = p1 + 4 + cb.len();
    let m: int = p2 + ob.len();
    let (rc, rs1) = read_code(code, syms, reader_syms);
    assert(b =~= h1 + nb + h2 + cb + ob + end) by {
        lemma_parse_consts(h1 + nb + h2, cs, ob + end, t);
        lemma_parse_code(h1 + nb + h2 + cb, code, end, t, syms, reader_syms, Seq::empty());
    }
    assert(get32(b, 0) == t.len() && get32(b, p1) == cs.len()) by {
        lemma_counts(t.len() as u32, nb, cs.len() as u32, cb + ob + end);
        assert(b =~= h1 + nb + h2 + (cb + ob + end));
    }
    assert(parse_strings(b, 4, t.len(), Seq::empty()) == Some((strs, p1))) by {
        assert(b =~= h1 + nb + (h2 + cb + ob + end));
        lemma_parse_names(h1, t, h2 + cb + ob + end);
    }
    assert(parse_consts(b, p1 + 4, cs.len(), strs, Seq::empty()) == Some((cs, p2))) by {
        assert(b =~= (h1 + nb + h2) + cb + (ob + end));
        lemma_parse_consts(h1 + nb + h2, cs, ob + end, t);
    }
    assert(parse_code(b, p2 + 1, b[p2], b.len() as int, strs, reader_syms, Seq::empty()) == Some(
        (rc, rs1, b.len() as int),
    )) by {
        assert(b =~= (h1 + nb + h2 + cb) + ob + end);
        lemma_parse_code(h1 + nb + h2 + cb, code, end, t, syms, reader_syms, Seq::empty());
        assert(b[m] == END_OF_CODE);
        assert(Seq::<Opcode>::empty() + rc =~= rc);
        if code.len() == 0 {
            assert(ob =~= Seq::<u8>::empty());
        }
    }
    lemma_module_parts(b, t.len(), strs, cs, rc, reader_syms, rs1, p1, p2);
}

/// The table the writer writes is dense and holds every name the module
/// uses.
proof fn lemma_emitted_table(code: Seq<Opcode>, cs: Seq<ConstantV>, syms: Seq<Seq<char>>)
    requires
        module_fits(code, cs, syms),
    ensures
        dense(emitted_names(code, cs, syms)),
        forall|i: int|
            0 <= i < code.len() ==> (#[trigger] op_name(code[i]) matches Some(n) ==> has_name(
                emitted_names(code, cs, syms),
                syms[n.0 as int],
            )),
        forall|i: int| 0 <= i < cs.len() ==> const_named(emitted_names(code, cs, syms), #[trigger] cs[i]),
{
    let t0: Seq<(Seq<char>, u32)> = Seq::empty();
    let tc = code_names(t0, code, syms);
    let t = emitted_names(code, cs, syms);
    lemma_const_names_len(tc, cs);
    lemma_code_names(t0, code, syms);
    lemma_const_names(tc, cs);
    assert forall|i: int|
        0 <= i < code.len() implies (#[trigger] op_name(code[i]) matches Some(n) ==> has_name(
        t,
        syms[n.0 as int],
    )) by {
        if let Some(n) = op_name(code[i]) {
            lemma_extends_has(tc, t, syms[n.0 as int]);
        }
    }
}

/// A module reads back once its three parts do.
proof fn lemma_module_parts(
    b: Seq<u8>,
    nt: nat,
    strs: Seq<Seq<char>>,
    cs: Seq<ConstantV>,
    rc: Seq<Opcode>,
    rs: Seq<Seq<char>>,
    rs1: Seq<Seq<char>>,
    p1: int,
    p2: int,
)
    requires
        b.len() >= 4,
        get32(b, 0) == nt,
        parse_strings(b, 4, nt, Seq::empty()) == Some((strs, p1)),
        0 <= p1 && p1 + 4 <= b.len(),
        get32(b, p1) == cs.len(),
        parse_consts(b, p1 + 4, cs.len(), strs, Seq::empty()) == Some((cs, p2)),
        0 <= p2 < b.len(),
        parse_code(b, p2 + 1, b[p2], b.len() as int, strs, rs, Seq::empty()) == Some(
            (rc, rs1, b.len() as int),
        ),
    ensures
        parse_module(b, 0, b.len() as int, rs) == Some(
            LightRead { constants: cs, code: rc, symbols: rs1, end: b.len() as int },
        ),
{
}

/// What reading instructions back keeps: each instruction is the one
/// written, but for a name, which names in the symbols after reading the
/// same string as in the writer's symbols; the reader's symbols only grow,
/// by at most one per instruction.
pub proof fn lemma_read_code_names(code: Seq<Opcode>, syms: Seq<Seq<char>>, rs: Seq<Seq<char>>)
    requires
        names_known(code, syms),
        rs.len() + code.len() <= u32::MAX,
    ensures
        ({
            let (rc, rs1) = read_code(code, syms, rs);
            &&& rc.len() == code.len()
            &&& rs.len() <= rs1.len() <= rs.len() + code.len()
            &&& forall|k: int| 0 <= k < rs.len() ==> #[trigger] rs1[k] == rs[k]
            &&& forall|i: int|
                0 <= i < code.len() ==> (#[trigger] op_name(code[i]) is None ==> rc[i] == code[i])
            &&& forall|i: int|
                0 <= i < code.len() ==> (#[trigger] op_name(code[i]) matches Some(n) ==> (op_name(
                    rc[i],
                ) matches Some(m) && rc[i] == renamed(code[i], m) && (m.0 as int) < rs1.len()
                    && rs1[m.0 as int] == syms[n.0 as int]))
        }),
    decreases code.len(),
{
    if code.len() > 0 {
        let dl = code.drop_last();
        let op = code.last();
        assert forall|i: int| 0 <= i < dl.len() implies (#[trigger] op_name(dl[i]) matches Some(n)
            ==> (n.0 as int) < syms.len()) by {
            assert(dl[i] == code[i]);
        }
        lemma_read_code_names(dl, syms, rs);
        let (c1, r1) = read_code(dl, syms, rs);
        let (rc, rs1) = read_code(code, syms, rs);
        assert(code[code.len() - 1] == op);
        match op_name(op) {
            Some(n) => {
                let x = syms[n.0 as int];
                lemma_position(r1, x);
                let idx = intern_index(r1, x);
                assert(interned(r1, x)[idx] == x);
                assert(forall|k: int| 0 <= k < r1.len() ==> #[trigger] interned(r1, x)[k] == r1[k]);
            },
            None => {},
        }
        assert forall|i: int| 0 <= i < code.len() implies (#[trigger] op_name(code[i]) matches Some(
            n,
        ) ==> (op_name(rc[i]) matches Some(m) && rc[i] == renamed(code[i], m) && (m.0 as int)
            < rs1.len() && rs1[m.0 as int] == syms[n.0 as int])) && (op_name(code[i]) is None
            ==> rc[i] == code[i]) by {
            if i < code.len() - 1 {
                assert(code[i] == dl[i]);
                assert(rc[i] == c1[i]);
            }
        }
    }
}

/// Asking the writer for a name's id keeps its table's ids exactly 0, 1,
/// 2, ... in order with distinct names: a new name gets the next id, an old
/// one keeps its id, and the id handed out is the name's place.
pub proof fn lemma_str_id_dense(t: Seq<(Seq<char>, u32)>, x: Seq<char>)
    requires
        dense(t),
        t.len() < u32::MAX,
    ensures
        dense(with_name(t, x)),
        extends(t, with_name(t, x)),
        (str_id(t, x) as int) < with_name(t, x).len(),
        with_name(t, x)[str_id(t, x) as int].0 == x,
        with_name(t, x).len() <= t.len() + 1,
{
    lemma_with_name_len(t, x);
    lemma_with_name_len(t, x);
    lemma_with_name_dense(t, x);
    if has_name(t, x) {
        let k = choose|k: int| 0 <= k < t.len() && #[trigger] t[k].0 == x;
        lemma_dense_lookup(t, k);
    } else {
        lemma_find_key_bounds(t, x);
    }
}

} // verus!
