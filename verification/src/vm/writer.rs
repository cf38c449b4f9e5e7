//! Serialising a module to bytecode.

use vstd::prelude::*;
use vstd::utf8::encode_utf8;
use hashlink::LinkedHashMap;
use crate::bytes::{le16, le32, le64, push_u16_le, push_u32_le, push_u64_le};
use crate::lhm::{
    lemma_find_key_bounds, lemma_insert_finds, lemma_insert_keeps, lhm_get, lhm_insert,
    string_ids, string_ids_get, string_ids_insert, string_ids_keys, string_ids_len, string_ids_new,
};
use crate::vm::Module;
use crate::vm::opcode::{Op, op_tag};
use crate::vm::value::Value;

verus! {

/// Tag of a string global.
pub const TAG_STRING: u8 = 0;

/// Tag of a float global.
pub const TAG_FLOAT: u8 = 1;

/// Tag of the debug-information record among the globals.
pub const TAG_DBGINFO: u8 = 2;

/// Tag of a function global.
pub const TAG_FUN: u8 = 3;

/// The number of string globals.
pub open spec fn count_strings(gs: Seq<Value>) -> nat
    decreases gs.len(),
{
    if gs.len() == 0 {
        0
    } else {
        count_strings(gs.drop_last()) + if gs.last() is String {
            1nat
        } else {
            0nat
        }
    }
}

/// The string table the writer builds: each string global inserted in order
/// with the number of string globals before it.
pub open spec fn string_table(gs: Seq<Value>) -> Seq<(Seq<char>, i32)>
    decreases gs.len(),
{
    if gs.len() == 0 {
        Seq::empty()
    } else {
        let t = string_table(gs.drop_last());
        match gs.last() {
            Value::String(s) => lhm_insert(t, s@, count_strings(gs.drop_last()) as i32),
            _ => t,
        }
    }
}

/// Whether the writer emits a global: strings, floats and functions.
pub open spec fn kept(v: Value) -> bool {
    v is String || v is Float || v is Function
}

/// The number of globals the writer emits.
pub open spec fn count_kept(gs: Seq<Value>) -> nat
    decreases gs.len(),
{
    if gs.len() == 0 {
        0
    } else {
        count_kept(gs.drop_last()) + if kept(gs.last()) {
            1nat
        } else {
            0nat
        }
    }
}

/// A string of the table: its byte length, then its UTF-8 bytes.
pub open spec fn encode_str(k: Seq<char>) -> Seq<u8> {
    le32(encode_utf8(k).len() as u32) + encode_utf8(k)
}

/// The strings of the table, in table order.
pub open spec fn encode_strings(t: Seq<(Seq<char>, i32)>) -> Seq<u8>
    decreases t.len(),
{
    if t.len() == 0 {
        Seq::empty()
    } else {
        encode_strings(t.drop_last()) + encode_str(t.last().0)
    }
}

/// One global: strings by their id in the table, floats by their bits,
/// functions by address and argument count; other values are not written.
pub open spec fn encode_global(v: Value, t: Seq<(Seq<char>, i32)>) -> Seq<u8> {
    match v {
        Value::String(s) => seq![TAG_STRING] + le32(lhm_get(t, s@).unwrap() as u32),
        Value::Float(bits) => seq![TAG_FLOAT] + le64(bits),
        Value::Function(f) => seq![TAG_FUN] + le32(f.address as u32) + le16(f.argc as u16),
        _ => Seq::empty(),
    }
}

/// The globals, in order.
pub open spec fn encode_globals(gs: Seq<Value>, t: Seq<(Seq<char>, i32)>) -> Seq<u8>
    decreases gs.len(),
{
    if gs.len() == 0 {
        Seq::empty()
    } else {
        encode_globals(gs.drop_last(), t) + encode_global(gs.last(), t)
    }
}

/// The operand bytes of an instruction other than `LoadBuiltin`.
pub open spec fn op_operand(op: Op) -> Seq<u8> {
    match op {
        Op::LoadInt(x) => le64(x as u64),
        Op::LoadGlobal(x) => le32(x),
        Op::LoadEnv(x) => le16(x),
        Op::LoadLocal(x) => le16(x),
        Op::StoreEnv(x) => le16(x),
        Op::StoreLocal(x) => le16(x),
        Op::Pop(x) => le16(x),
        Op::Call(x) => le16(x),
        Op::ObjCall(x) => le16(x),
        Op::TailCall(x) => le16(x),
        Op::Jump(x) => le32(x),
        Op::JumpIf(x) => le32(x),
        Op::JumpIfNot(x) => le32(x),
        Op::CatchPush(x) => le32(x),
        Op::MakeEnv(x) => le16(x),
        Op::MakeArray(x) => le16(x),
        _ => Seq::empty(),
    }
}

/// One instruction: its tag, then its operand; a builtin name by its id in
/// the string table.
pub open spec fn encode_op(op: Op, t: Seq<(Seq<char>, i32)>) -> Seq<u8> {
    match op {
        Op::LoadBuiltin(name) => seq![7u8] + le32(lhm_get(t, name@).unwrap() as u32),
        _ => seq![op_tag(op)] + op_operand(op),
    }
}

/// The instructions, in order.
pub open spec fn encode_ops(code: Seq<Op>, t: Seq<(Seq<char>, i32)>) -> Seq<u8>
    decreases code.len(),
{
    if code.len() == 0 {
        Seq::empty()
    } else {
        encode_ops(code.drop_last(), t) + encode_op(code.last(), t)
    }
}

/// The bytecode of a module: the sizes of the string table, of the written
/// globals and of the code, a zero byte (no debug information), the strings,
/// the globals and the code.
pub open spec fn encode_module(gs: Seq<Value>, code: Seq<Op>) -> Seq<u8> {
    let t = string_table(gs);
    le32(t.len() as u32) + le32(count_kept(gs) as u32) + le32(code.len() as u32) + seq![0u8]
        + encode_strings(t) + encode_globals(gs, t) + encode_ops(code, t)
}

/// Every builtin name the code loads is in the string table.
pub open spec fn builtins_named(gs: Seq<Value>, code: Seq<Op>) -> bool {
    forall|i: int|
        0 <= i < code.len() ==> (#[trigger] code[i] matches Op::LoadBuiltin(n) ==> lhm_get(
            string_table(gs),
            n@,
        ) is Some)
}

pub proof fn lemma_count_strings_take(gs: Seq<Value>, k: int)
    requires
        0 <= k <= gs.len(),
    ensures
        count_strings(gs.take(k)) <= count_strings(gs),
    decreases gs.len() - k,
{
    if k < gs.len() {
        lemma_count_strings_take(gs, k + 1);
        assert(gs.take(k + 1).drop_last() =~= gs.take(k));
    } else {
        assert(gs.take(k) =~= gs);
    }
}

pub struct BytecodeWriter {
    pub bytecode: Vec<u8>,
}

impl BytecodeWriter {
    pub fn write_u8(&mut self, x: u8)
        ensures
            final(self).bytecode@ == old(self).bytecode@.push(x),
    {
        self.bytecode.push(x);
    }

    pub fn write_u16(&mut self, x: u16)
        ensures
            final(self).bytecode@ == old(self).bytecode@ + le16(x),
    {
        push_u16_le(&mut self.bytecode, x);
    }

    pub fn write_u32(&mut self, x: u32)
        ensures
            final(self).bytecode@ == old(self).bytecode@ + le32(x),
    {
        push_u32_le(&mut self.bytecode, x);
    }

    pub fn write_u64(&mut self, x: u64)
        ensures
            final(self).bytecode@ == old(self).bytecode@ + le64(x),
    {
        push_u64_le(&mut self.bytecode, x);
    }

    fn write_bytes(&mut self, b: &[u8])
        ensures
            final(self).bytecode@ == old(self).bytecode@ + b@,
    {
        let mut j: usize = 0;
        while j < b.len()
            invariant
                j <= b@.len(),
                self.bytecode@ == old(self).bytecode@ + b@.take(j as int),
            decreases b@.len() - j,
        {
            self.write_u8(b[j]);
            assert(b@.take(j + 1) =~= b@.take(j as int).push(b@[j as int]));
            j = j + 1;
        }
        assert(b@.take(b@.len() as int) =~= b@);
    }

    fn write_op(&mut self, op: &Op, strings: &LinkedHashMap<String, i32>)
        requires
            op matches Op::LoadBuiltin(n) ==> lhm_get(string_ids(*strings), n@) is Some,
        ensures
            final(self).bytecode@ == old(self).bytecode@ + encode_op(*op, string_ids(*strings)),
    {
        let ghost start = self.bytecode@;
        match op {
            Op::LoadNull => self.write_u8(0),
            Op::LoadTrue => self.write_u8(1),
            Op::LoadFalse => self.write_u8(2),
            Op::LoadInt(x) => {
                self.write_u8(3);
                self.write_u64(*x as u64);
            },
            Op::LoadGlobal(x) => {
                self.write_u8(4);
                self.write_u32(*x);
            },
            Op::LoadEnv(x) => {
                self.write_u8(5);
                self.write_u16(*x);
            },
            Op::LoadLocal(x) => {
                self.write_u8(6);
                self.write_u16(*x);
            },
            Op::LoadBuiltin(name) => {
                let idx = string_ids_get(strings, name).unwrap();
                self.write_u8(7);
                self.write_u32(idx as u32);
            },
            Op::LoadThis => self.write_u8(8),
            Op::Load => self.write_u8(9),
            Op::Store => self.write_u8(10),
            Op::StoreEnv(x) => {
                self.write_u8(11);
                self.write_u16(*x);
            },
            Op::StoreLocal(x) => {
                self.write_u8(12);
                self.write_u16(*x);
            },
            Op::StoreThis => self.write_u8(13),
            Op::Pop(x) => {
                self.write_u8(14);
                self.write_u16(*x);
            },
            Op::Call(x) => {
                self.write_u8(15);
                self.write_u16(*x);
            },
            Op::ObjCall(x) => {
                self.write_u8(16);
                self.write_u16(*x);
            },
            Op::TailCall(x) => {
                self.write_u8(17);
                self.write_u16(*x);
            },
            Op::Jump(x) => {
                self.write_u8(18);
                self.write_u32(*x);
            },
            Op::JumpIf(x) => {
                self.write_u8(19);
                self.write_u32(*x);
            },
            Op::JumpIfNot(x) => {
                self.write_u8(20);
                self.write_u32(*x);
            },
            Op::CatchPush(x) => {
                self.write_u8(21);
                self.write_u32(*x);
            },
            Op::Throw => self.write_u8(22),
            Op::Ret => self.write_u8(23),
            Op::MakeEnv(x) => {
                self.write_u8(24);
                self.write_u16(*x);
            },
            Op::MakeArray(x) => {
                self.write_u8(25);
                self.write_u16(*x);
            },
            Op::IsNull => self.write_u8(26),
            Op::IsNotNull => self.write_u8(27),
            Op::Add => self.write_u8(28),
            Op::Sub => self.write_u8(29),
            Op::Div => self.write_u8(30),
            Op::Mul => self.write_u8(31),
            Op::Mod => self.write_u8(32),
            Op::Shl => self.write_u8(33),
            Op::Shr => self.write_u8(34),
            Op::UShr => self.write_u8(35),
            Op::Or => self.write_u8(36),
            Op::And => self.write_u8(37),
            Op::Xor => self.write_u8(38),
            Op::Eq => self.write_u8(39),
            Op::Neq => self.write_u8(40),
            Op::Gt => self.write_u8(41),
            Op::Gte => self.write_u8(42),
            Op::Lt => self.write_u8(43),
            Op::Lte => self.write_u8(44),
            Op::Not => self.write_u8(45),
            Op::Neg => self.write_u8(46),
            Op::Hash => self.write_u8(47),
            Op::New => self.write_u8(48),
            Op::Nop => self.write_u8(49),
            Op::Last => self.write_u8(50),
        }
        assert(self.bytecode@ =~= start + encode_op(*op, string_ids(*strings)));
    }
    fn write_global(&mut self, v: &Value, strings: &LinkedHashMap<String, i32>)
        requires
            v matches Value::String(s) ==> lhm_get(string_ids(*strings), s@) is Some,
        ensures
            final(self).bytecode@ == old(self).bytecode@ + encode_global(*v, string_ids(*strings)),
    {
        let ghost start = self.bytecode@;
        match v {
            Value::String(s) => {
                self.write_u8(TAG_STRING);
                let idx = string_ids_get(strings, s).unwrap();
                self.write_u32(idx as u32);
            },
            Value::Float(bits) => {
                self.write_u8(TAG_FLOAT);
                self.write_u64(*bits);
            },
            Value::Function(f) => {
                self.write_u8(TAG_FUN);
                self.write_u32(f.address as u32);
                self.write_u16(f.argc as u16);
            },
            _ => {},
        }
        assert(self.bytecode@ =~= start + encode_global(*v, string_ids(*strings)));
    }

    fn write_str(&mut self, key: &str)
        ensures
            final(self).bytecode@ == old(self).bytecode@ + encode_str(key@),
    {
        let ghost start = self.bytecode@;
        let b = key.as_bytes();
        let n = b.len();
        self.write_u32(n as u32);
        self.write_bytes(b);
        assert(self.bytecode@ =~= start + encode_str(key@));
    }

    fn write_strings(&mut self, keys: &Vec<String>, Ghost(t): Ghost<Seq<(Seq<char>, i32)>>)
        requires
            keys@.len() == t.len(),
            forall|x: int| 0 <= x < keys@.len() ==> #[trigger] keys@[x]@ == t[x].0,
        ensures
            final(self).bytecode@ == old(self).bytecode@ + encode_strings(t),
    {
        let mut j: usize = 0;
        while j < keys.len()
            invariant
                keys@.len() == t.len(),
                forall|x: int| 0 <= x < keys@.len() ==> #[trigger] keys@[x]@ == t[x].0,
                j <= t.len(),
                self.bytecode@ == old(self).bytecode@ + encode_strings(t.take(j as int)),
            decreases t.len() - j,
        {
            let ghost before = self.bytecode@;
            let key: &str = keys[j].as_str();
            assert(key@ == t[j as int].0);
            self.write_str(key);
            proof {
                assert(t.take(j + 1).drop_last() =~= t.take(j as int));
                assert(t.take(j + 1).last() == t[j as int]);
                assert(self.bytecode@ =~= old(self).bytecode@ + encode_strings(t.take(j + 1)));
            }
            j = j + 1;
        }
        assert(t.take(t.len() as int) =~= t);
    }

    fn write_globals(&mut self, globals: &Vec<Value>, strings: &LinkedHashMap<String, i32>)
        requires
            string_ids(*strings) == string_table(globals@),
        ensures
            final(self).bytecode@ == old(self).bytecode@ + encode_globals(
                globals@,
                string_ids(*strings),
            ),
    {
        let ghost gs = globals@;
        let ghost t = string_ids(*strings);
        let mut k: usize = 0;
        while k < globals.len()
            invariant
                gs == globals@,
                k <= gs.len(),
                string_ids(*strings) == t,
                t == string_table(gs),
                self.bytecode@ == old(self).bytecode@ + encode_globals(gs.take(k as int), t),
            decreases gs.len() - k,
        {
            proof {
                assert(gs.take(k + 1).drop_last() =~= gs.take(k as int));
                assert(gs.take(k + 1).last() == gs[k as int]);
                if let Value::String(s) = gs[k as int] {
                    lemma_string_in_table(gs, k as int);
                }
            }
            self.write_global(&globals[k], strings);
            proof {
                assert(self.bytecode@ =~= old(self).bytecode@ + encode_globals(gs.take(k + 1), t));
            }
            k = k + 1;
        }
        assert(gs.take(gs.len() as int) =~= gs);
    }

    fn write_ops(&mut self, code: &Vec<Op>, strings: &LinkedHashMap<String, i32>)
        requires
            forall|i: int|
                0 <= i < code@.len() ==> (#[trigger] code@[i] matches Op::LoadBuiltin(n)
                    ==> lhm_get(string_ids(*strings), n@) is Some),
        ensures
            final(self).bytecode@ == old(self).bytecode@ + encode_ops(code@, string_ids(*strings)),
    {
        let ghost c = code@;
        let ghost t = string_ids(*strings);
        let mut k: usize = 0;
        while k < code.len()
            invariant
                c == code@,
                k <= c.len(),
                string_ids(*strings) == t,
                forall|i: int|
                    0 <= i < c.len() ==> (#[trigger] c[i] matches Op::LoadBuiltin(n) ==> lhm_get(
                        t,
                        n@,
                    ) is Some),
                self.bytecode@ == old(self).bytecode@ + encode_ops(c.take(k as int), t),
            decreases c.len() - k,
        {
            proof {
                assert(c.take(k + 1).drop_last() =~= c.take(k as int));
                assert(c.take(k + 1).last() == c[k as int]);
            }
            self.write_op(&code[k], strings);
            proof {
                assert(self.bytecode@ =~= old(self).bytecode@ + encode_ops(c.take(k + 1), t));
            }
            k = k + 1;
        }
        assert(c.take(c.len() as int) =~= c);
    }

    /// Appends the bytecode of `m`: its string table, the string, float and
    /// function globals, and the code. Every builtin name the code loads must
    /// be a string global.
    pub fn write_module(&mut self, m: &Module)
        requires
            builtins_named(m.globals@, m.code@),
            count_strings(m.globals@) <= i32::MAX,
        ensures
            final(self).bytecode@ == old(self).bytecode@ + encode_module(m.globals@, m.code@),
    {
        let ghost gs = m.globals@;
        let ghost code = m.code@;
        let strings = build_string_table(&m.globals);
        let ghost t = string_ids(strings);
        let nglobals = count_written_globals(&m.globals);

        let ghost start = self.bytecode@;
        self.write_u32(string_ids_len(&strings) as u32);
        self.write_u32(nglobals as u32);
        self.write_u32(m.code.len() as u32);
        self.write_u8(0);
        let ghost header = self.bytecode@;
        let keys = string_ids_keys(&strings);
        self.write_strings(&keys, Ghost(t));
        let ghost s1 = self.bytecode@;
        self.write_globals(&m.globals, &strings);
        let ghost s2 = self.bytecode@;
        self.write_ops(&m.code, &strings);
        assert(self.bytecode@ =~= start + encode_module(gs, code));
    }
}

fn build_string_table(globals: &Vec<Value>) -> (strings: LinkedHashMap<String, i32>)
    requires
        count_strings(globals@) <= i32::MAX,
    ensures
        string_ids(strings) == string_table(globals@),
{
    let ghost gs = globals@;
    let mut strings = string_ids_new();
    let mut i: i32 = 0;
    let mut k: usize = 0;
    while k < globals.len()
        invariant
            gs == globals@,
            k <= gs.len(),
            string_ids(strings) == string_table(gs.take(k as int)),
            i == count_strings(gs.take(k as int)),
            count_strings(gs) <= i32::MAX,
        decreases gs.len() - k,
    {
        proof {
            assert(gs.take(k + 1).drop_last() =~= gs.take(k as int));
            assert(gs.take(k + 1).last() == gs[k as int]);
            lemma_count_strings_take(gs, k + 1);
        }
        if let Value::String(s) = &globals[k] {
            string_ids_insert(&mut strings, s.clone(), i);
            i = i + 1;
        }
        k = k + 1;
    }
    assert(gs.take(gs.len() as int) =~= gs);
    strings
}

fn count_written_globals(globals: &Vec<Value>) -> (n: usize)
    ensures
        n == count_kept(globals@),
{
    let ghost gs = globals@;
    let mut nglobals: usize = 0;
    let mut k: usize = 0;
    while k < globals.len()
        invariant
            gs == globals@,
            k <= gs.len(),
            nglobals == count_kept(gs.take(k as int)),
            nglobals <= k,
        decreases gs.len() - k,
    {
        proof {
            assert(gs.take(k + 1).drop_last() =~= gs.take(k as int));
            assert(gs.take(k + 1).last() == gs[k as int]);
        }
        match &globals[k] {
            Value::String(_) | Value::Float(_) | Value::Function(_) => {
                nglobals = nglobals + 1;
            },
            _ => {},
        }
        k = k + 1;
    }
    assert(gs.take(gs.len() as int) =~= gs);
    nglobals
}

/// Each string global is in the table the writer builds.
pub proof fn lemma_string_in_table(gs: Seq<Value>, k: int)
    requires
        0 <= k < gs.len(),
        gs[k] is String,
    ensures
        gs[k] matches Value::String(s) && lhm_get(string_table(gs), s@) is Some,
    decreases gs.len(),
{
    let s = gs[k]->String_0;
    let t = string_table(gs.drop_last());
    lemma_find_key_bounds(t, s@);
    if k == gs.len() - 1 {
        lemma_find_key_bounds(string_table(gs), s@);
        lemma_insert_finds(t, s@, count_strings(gs.drop_last()) as i32);
    } else {
        assert(gs.drop_last()[k] == gs[k]);
        lemma_string_in_table(gs.drop_last(), k);
        match gs.last() {
            Value::String(s2) => {
                lemma_insert_keeps(t, s2@, count_strings(gs.drop_last()) as i32, s@);
            },
            _ => {},
        }
    }
}

} // verus!
