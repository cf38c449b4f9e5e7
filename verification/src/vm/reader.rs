//! Loading a module from bytecode.

use vstd::prelude::*;
use vstd::utf8::{valid_utf8, decode_utf8, encode_utf8};
use std::collections::HashMap;
use crate::bytes::{
    get16, get32, get64, le16, le32, le64, lemma_get16, lemma_get32, lemma_get64,
    lemma_utf8_roundtrip, read_u16_le, read_u32_le, read_u64_le, string_from_utf8,
};
use crate::vm::Module;
use crate::vm::opcode::{
    Op, OpV, decode_nullary, decode_u16_op, decode_u32_op, lemma_op_tag_inverse, nullary_op,
    op_tag, u16_op, u32_op,
};
use crate::vm::value::{Function, Value, ValueV};
use crate::vm::writer::{TAG_DBGINFO, TAG_FLOAT, TAG_FUN, TAG_STRING};

verus! {

broadcast use vstd::std_specs::hash::group_hash_axioms;

/// The characters of each string.
pub open spec fn views(v: Seq<String>) -> Seq<Seq<char>> {
    v.map_values(|x: String| x@)
}

/// A length-prefixed UTF-8 string at `p`, and the position after it.
pub open spec fn parse_str(s: Seq<u8>, p: int) -> Option<(Seq<char>, int)> {
    if 0 <= p && p + 4 <= s.len() && p + 4 + get32(s, p) <= s.len() && valid_utf8(
        s.subrange(p + 4, p + 4 + get32(s, p)),
    ) {
        Some((decode_utf8(s.subrange(p + 4, p + 4 + get32(s, p))), p + 4 + get32(s, p)))
    } else {
        None
    }
}

/// `n` strings from `p` on.
pub open spec fn parse_strs(s: Seq<u8>, p: int, n: nat) -> Option<(Seq<Seq<char>>, int)>
    decreases n,
{
    if n == 0 {
        Some((Seq::empty(), p))
    } else {
        match parse_strs(s, p, (n - 1) as nat) {
            Some((v, q)) => match parse_str(s, q) {
                Some((x, r)) => Some((v.push(x), r)),
                None => None,
            },
            None => None,
        }
    }
}

/// `n` (line, string id) records of debug information from `p` on: the line
/// and the file of instruction `i` for each `i` below `n`.
pub open spec fn parse_dbg(s: Seq<u8>, p: int, strings: Seq<Seq<char>>, n: nat) -> Option<
    (Map<u32, (usize, Seq<char>)>, int),
>
    decreases n,
{
    if n == 0 {
        Some((Map::empty(), p))
    } else {
        match parse_dbg(s, p, strings, (n - 1) as nat) {
            Some((m, q)) => if 0 <= q && q + 8 <= s.len() && (get32(s, q + 4) as int)
                < strings.len() {
                Some(
                    (
                        m.insert(
                            (n - 1) as u32,
                            (get32(s, q) as usize, strings[get32(s, q + 4) as int]),
                        ),
                        q + 8,
                    ),
                )
            } else {
                None
            },
            None => None,
        }
    }
}

/// What one entry of the global section holds.
pub enum GlobalStep {
    Global(ValueV),
    Dbg(Map<u32, (usize, Seq<char>)>),
}

/// One entry of the global section at `p`.
pub open spec fn parse_global(s: Seq<u8>, p: int, strings: Seq<Seq<char>>, csize: nat) -> Option<
    (GlobalStep, int),
> {
    if !(0 <= p < s.len()) {
        None
    } else if s[p] == TAG_STRING {
        if p + 5 <= s.len() && (get32(s, p + 1) as int) < strings.len() {
            Some((GlobalStep::Global(ValueV::Str(strings[get32(s, p + 1) as int])), p + 5))
        } else {
            None
        }
    } else if s[p] == TAG_FLOAT {
        if p + 9 <= s.len() {
            Some((GlobalStep::Global(ValueV::Plain(Value::Float(get64(s, p + 1)))), p + 9))
        } else {
            None
        }
    } else if s[p] == TAG_FUN {
        if p + 7 <= s.len() {
            Some(
                (
                    GlobalStep::Global(
                        ValueV::Plain(
                            Value::Function(
                                Function {
                                    native: false,
                                    address: get32(s, p + 1) as usize,
                                    argc: get16(s, p + 5) as i32,
                                },
                            ),
                        ),
                    ),
                    p + 7,
                ),
            )
        } else {
            None
        }
    } else if s[p] == TAG_DBGINFO {
        match parse_dbg(s, p + 1, strings, csize) {
            Some((m, q)) => Some((GlobalStep::Dbg(m), q)),
            None => None,
        }
    } else {
        None
    }
}

/// `n` entries of the global section: the globals in order and the debug
/// information, the last record of it found or `dbg` when there is none.
pub open spec fn parse_globals(
    s: Seq<u8>,
    p: int,
    n: nat,
    strings: Seq<Seq<char>>,
    csize: nat,
    dbg: Map<u32, (usize, Seq<char>)>,
) -> Option<(Seq<ValueV>, Map<u32, (usize, Seq<char>)>, int)>
    decreases n,
{
    if n == 0 {
        Some((Seq::empty(), dbg, p))
    } else {
        match parse_globals(s, p, (n - 1) as nat, strings, csize, dbg) {
            Some((v, d, q)) => match parse_global(s, q, strings, csize) {
                Some((GlobalStep::Global(g), r)) => Some((v.push(g), d, r)),
                Some((GlobalStep::Dbg(m), r)) => Some((v, m, r)),
                None => None,
            },
            None => None,
        }
    }
}

/// One instruction at `p`, and the position after it.
pub open spec fn parse_op(s: Seq<u8>, p: int, strings: Seq<Seq<char>>) -> Option<(OpV, int)> {
    if !(0 <= p < s.len()) {
        None
    } else if nullary_op(s[p]) is Some {
        Some((OpV::Plain(nullary_op(s[p]).unwrap()), p + 1))
    } else if s[p] == 3 {
        if p + 9 <= s.len() {
            Some((OpV::Plain(Op::LoadInt(get64(s, p + 1) as i64)), p + 9))
        } else {
            None
        }
    } else if s[p] == 7 {
        if p + 5 <= s.len() && (get32(s, p + 1) as int) < strings.len() {
            Some((OpV::Builtin(strings[get32(s, p + 1) as int]), p + 5))
        } else {
            None
        }
    } else if u16_op(s[p], 0) is Some {
        if p + 3 <= s.len() {
            Some((OpV::Plain(u16_op(s[p], get16(s, p + 1)).unwrap()), p + 3))
        } else {
            None
        }
    } else if u32_op(s[p], 0) is Some {
        if p + 5 <= s.len() {
            Some((OpV::Plain(u32_op(s[p], get32(s, p + 1)).unwrap()), p + 5))
        } else {
            None
        }
    } else {
        None
    }
}

/// `n` instructions from `p` on.
pub open spec fn parse_ops(s: Seq<u8>, p: int, n: nat, strings: Seq<Seq<char>>) -> Option<
    (Seq<OpV>, int),
>
    decreases n,
{
    if n == 0 {
        Some((Seq::empty(), p))
    } else {
        match parse_ops(s, p, (n - 1) as nat, strings) {
            Some((v, q)) => match parse_op(s, q, strings) {
                Some((x, r)) => Some((v.push(x), r)),
                None => None,
            },
            None => None,
        }
    }
}

/// A module as the contracts see it.
pub struct ModuleV {
    pub globals: Seq<ValueV>,
    pub code: Seq<OpV>,
    pub trace: Map<u32, (usize, Seq<char>)>,
}

/// The module whose bytecode starts at `p`: the header (string count, global
/// count, code size, debug flag), the strings, debug information when the
/// flag is 1, the globals and the code.
pub open spec fn parse_module(s: Seq<u8>, p: int) -> Option<ModuleV> {
    if !(0 <= p && p + 13 <= s.len()) {
        None
    } else {
        let nstr = get32(s, p) as nat;
        let nglob = get32(s, p + 4) as nat;
        let ncode = get32(s, p + 8) as nat;
        match parse_strs(s, p + 13, nstr) {
            None => None,
            Some((strings, q1)) => {
                let d1 = if s[p + 12] == 1 {
                    parse_dbg(s, q1, strings, ncode)
                } else {
                    Some((Map::empty(), q1))
                };
                match d1 {
                    None => None,
                    Some((d, q2)) => match parse_globals(s, q2, nglob, strings, ncode, d) {
                        None => None,
                        Some((gs, d2, q3)) => match parse_ops(s, q3, ncode, strings) {
                            None => None,
                            Some((ops, _q4)) => Some(ModuleV { globals: gs, code: ops, trace: d2 }),
                        },
                    },
                }
            },
        }
    }
}

/// The rest of `parse_module` from the global section on.
pub open spec fn module_after_globals(
    s: Seq<u8>,
    q2: int,
    nglob: nat,
    strings: Seq<Seq<char>>,
    ncode: nat,
    d: Map<u32, (usize, Seq<char>)>,
) -> Option<ModuleV> {
    match parse_globals(s, q2, nglob, strings, ncode, d) {
        None => None,
        Some((gs, d2, q3)) => module_after_ops(s, q3, ncode, strings, gs, d2),
    }
}

/// The rest of `parse_module` from the code on.
pub open spec fn module_after_ops(
    s: Seq<u8>,
    q3: int,
    ncode: nat,
    strings: Seq<Seq<char>>,
    gs: Seq<ValueV>,
    d2: Map<u32, (usize, Seq<char>)>,
) -> Option<ModuleV> {
    match parse_ops(s, q3, ncode, strings) {
        None => None,
        Some((ops, _q4)) => Some(ModuleV { globals: gs, code: ops, trace: d2 }),
    }
}

/// The debug information of a loaded module as the contracts see it.
pub open spec fn trace_view(m: Map<u32, (usize, String)>) -> Map<u32, (usize, Seq<char>)> {
    Map::new(|k: u32| m.contains_key(k), |k: u32| (m[k].0, m[k].1@))
}

/// A loaded module as the contracts see it.
pub open spec fn module_view(m: Module) -> ModuleV {
    ModuleV {
        globals: m.globals@.map_values(|v: Value| v@),
        code: m.code@.map_values(|o: Op| o@),
        trace: trace_view(m.trace_info@),
    }
}

/// A reader over bytecode: the bytes and the position of the next read.
pub struct BytecodeReader<'a> {
    pub bytes: &'a [u8],
    pub pos: usize,
}

enum GlobalEntry {
    Global(Value),
    Dbg(HashMap<u32, (usize, String)>),
}

impl<'a> BytecodeReader<'a> {
    pub fn new(bytes: &'a [u8]) -> (r: Self)
        ensures
            r.bytes@ == bytes@,
            r.pos == 0,
    {
        BytecodeReader { bytes, pos: 0 }
    }

    pub fn read_u8(&mut self) -> (r: u8)
        requires
            old(self).pos + 1 <= old(self).bytes@.len(),
        ensures
            r == old(self).bytes@[old(self).pos as int],
            final(self).pos == old(self).pos + 1,
            final(self).bytes@ == old(self).bytes@,
    {
        let b = self.bytes[self.pos];
        self.pos = self.pos + 1;
        b
    }

    pub fn read_u16(&mut self) -> (r: u16)
        requires
            old(self).pos + 2 <= old(self).bytes@.len(),
        ensures
            r == get16(old(self).bytes@, old(self).pos as int),
            final(self).pos == old(self).pos + 2,
            final(self).bytes@ == old(self).bytes@,
    {
        let x = read_u16_le(self.bytes, self.pos);
        // The length is a usize, so the new position fits one.
        let _len = self.bytes.len();
        self.pos = self.pos + 2;
        x
    }

    pub fn read_u32(&mut self) -> (r: u32)
        requires
            old(self).pos + 4 <= old(self).bytes@.len(),
        ensures
            r == get32(old(self).bytes@, old(self).pos as int),
            final(self).pos == old(self).pos + 4,
            final(self).bytes@ == old(self).bytes@,
    {
        let x = read_u32_le(self.bytes, self.pos);
        // The length is a usize, so the new position fits one.
        let _len = self.bytes.len();
        self.pos = self.pos + 4;
        x
    }

    pub fn read_u64(&mut self) -> (r: u64)
        requires
            old(self).pos + 8 <= old(self).bytes@.len(),
        ensures
            r == get64(old(self).bytes@, old(self).pos as int),
            final(self).pos == old(self).pos + 8,
            final(self).bytes@ == old(self).bytes@,
    {
        let x = read_u64_le(self.bytes, self.pos);
        // The length is a usize, so the new position fits one.
        let _len = self.bytes.len();
        self.pos = self.pos + 8;
        x
    }

    fn read_str(&mut self) -> (r: Option<String>)
        requires
            old(self).pos <= old(self).bytes@.len(),
        ensures
            final(self).bytes@ == old(self).bytes@,
            final(self).pos <= final(self).bytes@.len(),
            match parse_str(old(self).bytes@, old(self).pos as int) {
                Some((x, q)) => r matches Some(s) && s@ == x && final(self).pos == q,
                None => r is None,
            },
    {
        let ghost s = self.bytes@;
        let ghost p = self.pos as int;
        if self.bytes.len() - self.pos < 4 {
            return None;
        }
        let len = self.read_u32() as usize;
        if self.bytes.len() - self.pos < len {
            return None;
        }
        let mut bytes: Vec<u8> = Vec::new();
        let mut j: usize = 0;
        while j < len
            invariant
                self.bytes@ == s,
                s == old(self).bytes@,
                0 <= p,
                j <= len,
                self.pos == p + 4 + j,
                p + 4 + len <= s.len(),
                bytes@ == s.subrange(p + 4, p + 4 + j),
            decreases len - j,
        {
            let b = self.read_u8();
            assert(p + 4 + j + 1 <= s.len());
            assert(b == s[p + 4 + j]);
            bytes.push(b);
            assert(s.subrange(p + 4, p + 4 + j + 1) =~= s.subrange(p + 4, p + 4 + j).push(b));
            j = j + 1;
        }
        string_from_utf8(bytes)
    }

    fn read_strings(&mut self, n: u32) -> (r: Option<Vec<String>>)
        requires
            old(self).pos <= old(self).bytes@.len(),
        ensures
            final(self).bytes@ == old(self).bytes@,
            final(self).pos <= final(self).bytes@.len(),
            match parse_strs(old(self).bytes@, old(self).pos as int, n as nat) {
                Some((v, q)) => r matches Some(strs) && views(strs@) == v && final(self).pos == q,
                None => r is None,
            },
    {
        let ghost s = self.bytes@;
        let ghost p = self.pos as int;
        let mut strings: Vec<String> = Vec::new();
        let mut k: u32 = 0;
        while k < n
            invariant
                self.bytes@ == s,
                s == old(self).bytes@,
                p == old(self).pos,
                self.pos <= s.len(),
                k <= n,
                parse_strs(s, p, k as nat) == Some((views(strings@), self.pos as int)),
            decreases n - k,
        {
            match self.read_str() {
                Some(x) => {
                    proof {
                        assert(views(strings@.push(x)) =~= views(strings@).push(x@));
                    }
                    strings.push(x);
                },
                None => {
                    proof {
                        lemma_parse_strs_stuck(s, p, k as nat, n as nat);
                    }
                    return None;
                },
            }
            k = k + 1;
        }
        Some(strings)
    }

    /// Reads `csize` records of debug information: the line and the file of
    /// each instruction position below `csize`.
    pub fn read_dbginfo(&mut self, strings: &Vec<String>, csize: usize) -> (r: Option<
        HashMap<u32, (usize, String)>,
    >)
        requires
            old(self).pos <= old(self).bytes@.len(),
            csize <= u32::MAX,
        ensures
            final(self).bytes@ == old(self).bytes@,
            final(self).pos <= final(self).bytes@.len(),
            match parse_dbg(old(self).bytes@, old(self).pos as int, views(strings@), csize as nat) {
                Some((m, q)) => r matches Some(map) && trace_view(map@) == m && final(self).pos
                    == q,
                None => r is None,
            },
    {
        let ghost s = self.bytes@;
        let ghost p = self.pos as int;
        let mut map: HashMap<u32, (usize, String)> = HashMap::new();
        assert(trace_view(map@) =~= Map::empty());
        let mut i: usize = 0;
        while i < csize
            invariant
                self.bytes@ == s,
                s == old(self).bytes@,
                p == old(self).pos,
                self.pos <= s.len(),
                i <= csize,
                csize <= u32::MAX,
                parse_dbg(s, p, views(strings@), i as nat) == Some(
                    (trace_view(map@), self.pos as int),
                ),
            decreases csize - i,
        {
            if self.bytes.len() - self.pos < 8 {
                proof {
                    lemma_parse_dbg_stuck(s, p, views(strings@), i as nat, csize as nat);
                }
                return None;
            }
            let line = self.read_u32() as usize;
            let string_id = self.read_u32() as usize;
            if string_id >= strings.len() {
                proof {
                    lemma_parse_dbg_stuck(s, p, views(strings@), i as nat, csize as nat);
                }
                return None;
            }
            let string = strings[string_id].clone();
            let ghost old_map = map@;
            map.insert(i as u32, (line, string));
            proof {
                assert(trace_view(map@) =~= trace_view(old_map).insert(
                    i as u32,
                    (line, views(strings@)[string_id as int]),
                ));
            }
            i = i + 1;
        }
        Some(map)
    }

    fn read_global_entry(&mut self, strings: &Vec<String>, csize: u32) -> (r: Option<GlobalEntry>)
        requires
            old(self).pos <= old(self).bytes@.len(),
        ensures
            final(self).bytes@ == old(self).bytes@,
            final(self).pos <= final(self).bytes@.len(),
            match parse_global(
                old(self).bytes@,
                old(self).pos as int,
                views(strings@),
                csize as nat,
            ) {
                Some((GlobalStep::Global(g), q)) => r matches Some(GlobalEntry::Global(v)) && v@
                    == g && final(self).pos == q,
                Some((GlobalStep::Dbg(m), q)) => r matches Some(GlobalEntry::Dbg(map))
                    && trace_view(map@) == m && final(self).pos == q,
                None => r is None,
            },
    {
        if self.pos >= self.bytes.len() {
            return None;
        }
        let tag = self.read_u8();
        if tag == TAG_STRING {
            if self.bytes.len() - self.pos < 4 {
                return None;
            }
            let idx = self.read_u32() as usize;
            if idx >= strings.len() {
                return None;
            }
            Some(GlobalEntry::Global(Value::String(strings[idx].clone())))
        } else if tag == TAG_FLOAT {
            if self.bytes.len() - self.pos < 8 {
                return None;
            }
            let bits = self.read_u64();
            Some(GlobalEntry::Global(Value::Float(bits)))
        } else if tag == TAG_FUN {
            if self.bytes.len() - self.pos < 6 {
                return None;
            }
            let at = self.read_u32();
            let argc = self.read_u16();
            Some(
                GlobalEntry::Global(
                    Value::Function(Function { address: at as usize, native: false, argc: argc as i32 }),
                ),
            )
        } else if tag == TAG_DBGINFO {
            match self.read_dbginfo(strings, csize as usize) {
                Some(map) => Some(GlobalEntry::Dbg(map)),
                None => None,
            }
        } else {
            None
        }
    }

    fn read_op(&mut self, strings: &Vec<String>) -> (r: Option<Op>)
        requires
            old(self).pos <= old(self).bytes@.len(),
        ensures
            final(self).bytes@ == old(self).bytes@,
            final(self).pos <= final(self).bytes@.len(),
            match parse_op(old(self).bytes@, old(self).pos as int, views(strings@)) {
                Some((x, q)) => r matches Some(op) && op@ == x && final(self).pos == q,
                None => r is None,
            },
    {
        if self.pos >= self.bytes.len() {
            return None;
        }
        let op = self.read_u8();
        match decode_nullary(op) {
            Some(o) => {
                return Some(o);
            },
            None => {},
        }
        if op == 3 {
            if self.bytes.len() - self.pos < 8 {
                return None;
            }
            let value = self.read_u64() as i64;
            return Some(Op::LoadInt(value));
        }
        if op == 7 {
            if self.bytes.len() - self.pos < 4 {
                return None;
            }
            let name = self.read_u32() as usize;
            if name >= strings.len() {
                return None;
            }
            return Some(Op::LoadBuiltin(strings[name].clone()));
        }
        if decode_u16_op(op, 0).is_some() {
            if self.bytes.len() - self.pos < 2 {
                return None;
            }
            let x = self.read_u16();
            return decode_u16_op(op, x);
        }
        if decode_u32_op(op, 0).is_some() {
            if self.bytes.len() - self.pos < 4 {
                return None;
            }
            let x = self.read_u32();
            return decode_u32_op(op, x);
        }
        None
    }

    /// Loads the module whose bytecode starts at the current position;
    /// `None` when the bytes do not hold one (truncated input, an unknown
    /// tag, a string id out of range, a string that is not UTF-8).
    pub fn read_module(&mut self) -> (r: Option<Module>)
        requires
            old(self).pos <= old(self).bytes@.len(),
        ensures
            match parse_module(old(self).bytes@, old(self).pos as int) {
                Some(mv) => r matches Some(m) && module_view(m) == mv,
                None => r is None,
            },
    {
        let ghost s = self.bytes@;
        let ghost p = self.pos as int;
        if self.bytes.len() - self.pos < 13 {
            return None;
        }
        let count_strings = self.read_u32();
        let count_globals = self.read_u32();
        let code_size = self.read_u32();
        let has_dbginfo = self.read_u8();
        let strings = match self.read_strings(count_strings) {
            Some(strings) => strings,
            None => {
                return None;
            },
        };
        let ghost strs = views(strings@);
        let mut trace_info: HashMap<u32, (usize, String)> = if has_dbginfo == 1 {
            match self.read_dbginfo(&strings, code_size as usize) {
                Some(map) => map,
                None => {
                    return None;
                },
            }
        } else {
            let map = HashMap::new();
            assert(trace_view(map@) =~= Map::empty());
            map
        };
        let ghost q2 = self.pos as int;
        let ghost d = trace_view(trace_info@);
        assert(parse_module(s, p) == module_after_globals(
            s,
            q2,
            count_globals as nat,
            strs,
            code_size as nat,
            d,
        ));
        let mut globals: Vec<Value> = Vec::new();
        let mut k: u32 = 0;
        while k < count_globals
            invariant
                self.bytes@ == s,
                s == old(self).bytes@,
                p == old(self).pos,
                self.pos <= s.len(),
                k <= count_globals,
                strs == views(strings@),
                parse_module(s, p) == module_after_globals(
                    s,
                    q2,
                    count_globals as nat,
                    strs,
                    code_size as nat,
                    d,
                ),
                parse_globals(s, q2, k as nat, strs, code_size as nat, d) == Some(
                    (globals@.map_values(|v: Value| v@), trace_view(trace_info@), self.pos as int),
                ),
            decreases count_globals - k,
        {
            match self.read_global_entry(&strings, code_size) {
                Some(GlobalEntry::Global(v)) => {
                    proof {
                        assert(globals@.push(v).map_values(|v: Value| v@) =~= globals@.map_values(
                            |v: Value| v@,
                        ).push(v@));
                    }
                    globals.push(v);
                },
                Some(GlobalEntry::Dbg(map)) => {
                    trace_info = map;
                },
                None => {
                    proof {
                        lemma_parse_globals_stuck(
                            s,
                            q2,
                            k as nat,
                            count_globals as nat,
                            strs,
                            code_size as nat,
                            d,
                        );
                    }
                    return None;
                },
            }
            k = k + 1;
        }
        let ghost q3 = self.pos as int;
        let ghost gv = globals@.map_values(|v: Value| v@);
        let ghost dv = trace_view(trace_info@);
        assert(parse_module(s, p) == module_after_ops(s, q3, code_size as nat, strs, gv, dv));
        let mut code: Vec<Op> = Vec::new();
        k = 0;
        while k < code_size
            invariant
                self.bytes@ == s,
                s == old(self).bytes@,
                p == old(self).pos,
                self.pos <= s.len(),
                k <= code_size,
                strs == views(strings@),
                gv == globals@.map_values(|v: Value| v@),
                dv == trace_view(trace_info@),
                parse_module(s, p) == module_after_ops(s, q3, code_size as nat, strs, gv, dv),
                parse_ops(s, q3, k as nat, strs) == Some(
                    (code@.map_values(|o: Op| o@), self.pos as int),
                ),
            decreases code_size - k,
        {
            match self.read_op(&strings) {
                Some(op) => {
                    proof {
                        assert(code@.push(op).map_values(|o: Op| o@) =~= code@.map_values(
                            |o: Op| o@,
                        ).push(op@));
                    }
                    code.push(op);
                },
                None => {
                    proof {
                        lemma_parse_ops_stuck(s, q3, k as nat, code_size as nat, strs);
                    }
                    return None;
                },
            }
            k = k + 1;
        }
        let m = Module { code, globals, trace_info };
        assert(module_view(m) == parse_module(s, p).unwrap());
        Some(m)
    }
}

pub proof fn lemma_parse_strs_stuck(s: Seq<u8>, p: int, k: nat, n: nat)
    requires
        k < n,
        parse_strs(s, p, k) is Some,
        parse_str(s, parse_strs(s, p, k).unwrap().1) is None,
    ensures
        parse_strs(s, p, n) is None,
    decreases n - k,
{
    if k + 1 < n {
        lemma_parse_strs_stuck_more(s, p, k + 1, n);
    }
}

pub proof fn lemma_parse_strs_stuck_more(s: Seq<u8>, p: int, k: nat, n: nat)
    requires
        k <= n,
        parse_strs(s, p, k) is None,
    ensures
        parse_strs(s, p, n) is None,
    decreases n - k,
{
    if k < n {
        lemma_parse_strs_stuck_more(s, p, k + 1, n);
    }
}

pub proof fn lemma_parse_dbg_stuck(s: Seq<u8>, p: int, strings: Seq<Seq<char>>, k: nat, n: nat)
    requires
        k < n,
        parse_dbg(s, p, strings, (k + 1) as nat) is None,
    ensures
        parse_dbg(s, p, strings, n) is None,
    decreases n - k,
{
    if k + 1 < n {
        lemma_parse_dbg_stuck(s, p, strings, k + 1, n);
    }
}

pub proof fn lemma_parse_globals_stuck(
    s: Seq<u8>,
    p: int,
    k: nat,
    n: nat,
    strings: Seq<Seq<char>>,
    csize: nat,
    dbg: Map<u32, (usize, Seq<char>)>,
)
    requires
        k < n,
        parse_globals(s, p, (k + 1) as nat, strings, csize, dbg) is None,
    ensures
        parse_globals(s, p, n, strings, csize, dbg) is None,
    decreases n - k,
{
    if k + 1 < n {
        lemma_parse_globals_stuck(s, p, k + 1, n, strings, csize, dbg);
    }
}

pub proof fn lemma_parse_ops_stuck(s: Seq<u8>, p: int, k: nat, n: nat, strings: Seq<Seq<char>>)
    requires
        k < n,
        parse_ops(s, p, (k + 1) as nat, strings) is None,
    ensures
        parse_ops(s, p, n, strings) is None,
    decreases n - k,
{
    if k + 1 < n {
        lemma_parse_ops_stuck(s, p, k + 1, n, strings);
    }
}

} // verus!
