//! Loading a Jazz module from bytecode.

use vstd::prelude::*;
use vstd::utf8::{valid_utf8, decode_utf8};
use crate::bytes::{from_le16, from_le32, from_le64, get16, get32, get64, string_from_utf8};
use crate::fnv_map::{field_names, field_names_insert, field_names_new};
use fnv::FnvHashMap;
use crate::jazz::opcode::{
    Opcode, OpcodeV, decode_op1, decode_op2, make_op1, make_op2, operand_width1, operand_width2,
    two_byte, width1, width2,
};
use crate::jazz::value::{FuncVar, Function, Value, ValueV};

verus! {

/// A loaded module: its name, global table, code and the field names it
/// declares by their hashes.
pub struct Module {
    pub name: String,
    pub globals: Vec<Value>,
    pub code: Vec<Opcode>,
    pub fields: FnvHashMap<u64, String>,
}

/// A module as the contracts see it.
pub struct ModuleV {
    pub globals: Seq<ValueV>,
    pub fields: Map<u64, Seq<char>>,
    pub code: Seq<OpcodeV>,
}

/// A loaded module as the contracts see it.
pub open spec fn module_view(m: Module) -> ModuleV {
    ModuleV {
        globals: m.globals@.map_values(|v: Value| v@),
        fields: field_names(m.fields),
        code: m.code@.map_values(|o: Opcode| o@),
    }
}

/// The position of the first zero byte at or after `q`, -1 when none.
pub open spec fn nul_pos(s: Seq<u8>, q: int) -> int
    decreases s.len() - q,
{
    if q < 0 || q >= s.len() {
        -1
    } else if s[q] == 0 {
        q
    } else {
        nul_pos(s, q + 1)
    }
}

/// The operand of `w` bytes at `q`, widened to 64 bits.
pub open spec fn get_width(s: Seq<u8>, q: int, w: int) -> u64 {
    if w == 0 {
        0
    } else if w == 2 {
        get16(s, q) as u64
    } else if w == 4 {
        get32(s, q) as u64
    } else {
        get64(s, q)
    }
}

/// One global at `p`: only functions at an offset are accepted.
pub open spec fn parse_global(s: Seq<u8>, p: int) -> Option<(ValueV, int)> {
    if 0 <= p && p + 7 <= s.len() && s[p] == 1 {
        Some(
            (
                ValueV::Plain(
                    Value::Func(
                        Function {
                            var: FuncVar::Offset(get32(s, p + 1) as usize),
                            nargs: get16(s, p + 5) as i32,
                        },
                    ),
                ),
                p + 7,
            ),
        )
    } else {
        None
    }
}

/// `n` globals from `p` on.
pub open spec fn parse_globals(s: Seq<u8>, p: int, n: nat) -> Option<(Seq<ValueV>, int)>
    decreases n,
{
    if n == 0 {
        Some((Seq::empty(), p))
    } else {
        match parse_globals(s, p, (n - 1) as nat) {
            Some((v, q)) => match parse_global(s, q) {
                Some((g, r)) => Some((v.push(g), r)),
                None => None,
            },
            None => None,
        }
    }
}

/// One field at `p`: its 64-bit hash, then its UTF-8 name up to a zero byte.
pub open spec fn parse_field(s: Seq<u8>, p: int) -> Option<((u64, Seq<char>), int)> {
    if 0 <= p && p + 8 <= s.len() && nul_pos(s, p + 8) >= 0 && valid_utf8(
        s.subrange(p + 8, nul_pos(s, p + 8)),
    ) {
        Some(
            (
                (get64(s, p), decode_utf8(s.subrange(p + 8, nul_pos(s, p + 8)))),
                nul_pos(s, p + 8) + 1,
            ),
        )
    } else {
        None
    }
}

/// `n` fields from `p` on, registered in order: a later field with the same
/// hash replaces an earlier one.
pub open spec fn parse_fields(s: Seq<u8>, p: int, n: nat) -> Option<(Map<u64, Seq<char>>, int)>
    decreases n,
{
    if n == 0 {
        Some((Map::empty(), p))
    } else {
        match parse_fields(s, p, (n - 1) as nat) {
            Some((f, q)) => match parse_field(s, q) {
                Some(((k, v), r)) => Some((f.insert(k, v), r)),
                None => None,
            },
            None => None,
        }
    }
}

/// One instruction at `p`. An integer constant is a sign byte and the
/// 64-bit value, negated (wrapping) when the sign byte is 1; a string
/// constant is its byte length and its UTF-8 bytes; every other instruction
/// is its prefix and its operand.
pub open spec fn parse_op(s: Seq<u8>, p: int) -> Option<(OpcodeV, int)> {
    if !(0 <= p < s.len()) {
        None
    } else if s[p] == 0 {
        if p + 10 <= s.len() {
            let v = get64(s, p + 2) as i64;
            let x = if s[p + 1] == 1 {
                vstd::wrapping::i64_specs::wrapping_sub(0, v)
            } else {
                v
            };
            Some((OpcodeV::Plain(Opcode::LdInt(x)), p + 10))
        } else {
            None
        }
    } else if s[p] == 2 {
        if p + 5 <= s.len() && p + 5 + get32(s, p + 1) <= s.len() && valid_utf8(
            s.subrange(p + 5, p + 5 + get32(s, p + 1)),
        ) {
            Some(
                (
                    OpcodeV::Str(decode_utf8(s.subrange(p + 5, p + 5 + get32(s, p + 1)))),
                    p + 5 + get32(s, p + 1),
                ),
            )
        } else {
            None
        }
    } else if two_byte(s[p]) {
        if p + 2 <= s.len() && width2(s[p], s[p + 1]) >= 0 && p + 2 + width2(s[p], s[p + 1])
            <= s.len() {
            Some(
                (
                    OpcodeV::Plain(
                        make_op2(
                            s[p],
                            s[p + 1],
                            get_width(s, p + 2, width2(s[p], s[p + 1])),
                        ).unwrap(),
                    ),
                    p + 2 + width2(s[p], s[p + 1]),
                ),
            )
        } else {
            None
        }
    } else if width1(s[p]) >= 0 && p + 1 + width1(s[p]) <= s.len() {
        Some(
            (
                OpcodeV::Plain(make_op1(s[p], get_width(s, p + 1, width1(s[p]))).unwrap()),
                p + 1 + width1(s[p]),
            ),
        )
    } else {
        None
    }
}

/// `n` instructions from `p` on.
pub open spec fn parse_ops(s: Seq<u8>, p: int, n: nat) -> Option<(Seq<OpcodeV>, int)>
    decreases n,
{
    if n == 0 {
        Some((Seq::empty(), p))
    } else {
        match parse_ops(s, p, (n - 1) as nat) {
            Some((v, q)) => match parse_op(s, q) {
                Some((x, r)) => Some((v.push(x), r)),
                None => None,
            },
            None => None,
        }
    }
}

/// The module whose bytecode starts at `p`: the global count, the field
/// count and the code size, then the globals, the fields and the code.
pub open spec fn parse_module(s: Seq<u8>, p: int) -> Option<ModuleV> {
    if !(0 <= p && p + 12 <= s.len()) {
        None
    } else {
        match parse_globals(s, p + 12, get32(s, p) as nat) {
            None => None,
            Some((gs, q1)) => match parse_fields(s, q1, get32(s, p + 4) as nat) {
                None => None,
                Some((fs, q2)) => match parse_ops(s, q2, get32(s, p + 8) as nat) {
                    None => None,
                    Some((ops, _q3)) => Some(ModuleV { globals: gs, fields: fs, code: ops }),
                },
            },
        }
    }
}

pub proof fn lemma_u32_halves(b0: u8, b1: u8, b2: u8, b3: u8)
    ensures
        from_le32(b0, b1, b2, b3) == (from_le16(b0, b1) as u32) | ((from_le16(b2, b3) as u32)
            << 16u32),
{
    assert(((b0 as u32) | ((b1 as u32) << 8u32) | ((b2 as u32) << 16u32) | ((b3 as u32)
        << 24u32)) == ((((b0 as u16) | ((b1 as u16) << 8u16)) as u16) as u32) | (((((b2 as u16)
        | ((b3 as u16) << 8u16)) as u16) as u32) << 16u32)) by (bit_vector);
}

pub proof fn lemma_u64_halves(b0: u8, b1: u8, b2: u8, b3: u8, b4: u8, b5: u8, b6: u8, b7: u8)
    ensures
        from_le64(b0, b1, b2, b3, b4, b5, b6, b7) == (from_le32(b0, b1, b2, b3) as u64) | ((
        from_le32(b4, b5, b6, b7) as u64) << 32u64),
{
    assert(((b0 as u64) | ((b1 as u64) << 8u64) | ((b2 as u64) << 16u64) | ((b3 as u64)
        << 24u64) | ((b4 as u64) << 32u64) | ((b5 as u64) << 40u64) | ((b6 as u64) << 48u64) | ((
    b7 as u64) << 56u64)) == ((((b0 as u32) | ((b1 as u32) << 8u32) | ((b2 as u32) << 16u32) | ((
    b3 as u32) << 24u32)) as u32) as u64) | (((((b4 as u32) | ((b5 as u32) << 8u32) | ((
    b6 as u32) << 16u32) | ((b7 as u32) << 24u32)) as u32) as u64) << 32u64)) by (bit_vector);
}

/// The rest of `parse_module` from the fields on.
pub open spec fn module_after_fields(s: Seq<u8>, q1: int, nf: nat, nc: nat, gs: Seq<ValueV>) -> Option<
    ModuleV,
> {
    match parse_fields(s, q1, nf) {
        None => None,
        Some((fs, q2)) => module_after_ops(s, q2, nc, gs, fs),
    }
}

/// The rest of `parse_module` from the code on.
pub open spec fn module_after_ops(
    s: Seq<u8>,
    q2: int,
    nc: nat,
    gs: Seq<ValueV>,
    fs: Map<u64, Seq<char>>,
) -> Option<ModuleV> {
    match parse_ops(s, q2, nc) {
        None => None,
        Some((ops, _q3)) => Some(ModuleV { globals: gs, fields: fs, code: ops }),
    }
}

/// A reader over a module's bytes.
pub struct Reader {
    pub code: Vec<u8>,
    pub pc: usize,
}

impl Reader {
    pub fn read_u8(&mut self) -> (b: u8)
        requires
            old(self).pc < old(self).code@.len(),
        ensures
            b == old(self).code@[old(self).pc as int],
            final(self).pc == old(self).pc + 1,
            final(self).code@ == old(self).code@,
    {
        let b = self.code[self.pc];
        // The length is a usize, so the new position fits one.
        let _n = self.code.len();
        self.pc += 1;
        b
    }

    pub fn read_u16(&mut self) -> (r: u16)
        requires
            old(self).pc + 2 <= old(self).code@.len(),
        ensures
            r == get16(old(self).code@, old(self).pc as int),
            final(self).pc == old(self).pc + 2,
            final(self).code@ == old(self).code@,
    {
        let b0 = self.read_u8();
        let b1 = self.read_u8();
        (b0 as u16) | ((b1 as u16) << 8u16)
    }

    pub fn read_u32(&mut self) -> (r: u32)
        requires
            old(self).pc + 4 <= old(self).code@.len(),
        ensures
            r == get32(old(self).code@, old(self).pc as int),
            final(self).pc == old(self).pc + 4,
            final(self).code@ == old(self).code@,
    {
        let ghost s = self.code@;
        let ghost p = self.pc as int;
        let lo = self.read_u16();
        let hi = self.read_u16();
        proof {
            lemma_u32_halves(s[p], s[p + 1], s[p + 2], s[p + 3]);
        }
        (lo as u32) | ((hi as u32) << 16u32)
    }

    pub fn read_u64(&mut self) -> (r: u64)
        requires
            old(self).pc + 8 <= old(self).code@.len(),
        ensures
            r == get64(old(self).code@, old(self).pc as int),
            final(self).pc == old(self).pc + 8,
            final(self).code@ == old(self).code@,
    {
        let ghost s = self.code@;
        let ghost p = self.pc as int;
        let lo = self.read_u32();
        let hi = self.read_u32();
        proof {
            lemma_u64_halves(s[p], s[p + 1], s[p + 2], s[p + 3], s[p + 4], s[p + 5], s[p + 6], s[p + 7]);
        }
        (lo as u64) | ((hi as u64) << 32u64)
    }

    fn left(&self) -> (n: usize)
        requires
            self.pc <= self.code@.len(),
        ensures
            n == self.code@.len() - self.pc,
    {
        self.code.len() - self.pc
    }

    fn read_global(&mut self) -> (r: Option<Value>)
        requires
            old(self).pc <= old(self).code@.len(),
        ensures
            final(self).code@ == old(self).code@,
            final(self).pc <= final(self).code@.len(),
            match parse_global(old(self).code@, old(self).pc as int) {
                Some((g, q)) => r matches Some(v) && v@ == g && final(self).pc == q,
                None => r is None,
            },
    {
        if self.left() < 7 {
            return None;
        }
        let b = self.read_u8();
        if b != 1 {
            return None;
        }
        let off = self.read_u32() as usize;
        let nargs = self.read_u16() as i32;
        Some(Value::Func(Function { var: FuncVar::Offset(off), nargs }))
    }

    fn read_field(&mut self) -> (r: Option<(u64, String)>)
        requires
            old(self).pc <= old(self).code@.len(),
        ensures
            final(self).code@ == old(self).code@,
            final(self).pc <= final(self).code@.len(),
            match parse_field(old(self).code@, old(self).pc as int) {
                Some(((k, v), q)) => r matches Some(e) && e.0 == k && e.1@ == v && final(self).pc
                    == q,
                None => r is None,
            },
    {
        let ghost s = self.code@;
        let ghost p = self.pc as int;
        if self.left() < 8 {
            return None;
        }
        let key = self.read_u64();
        let mut buf: Vec<u8> = Vec::new();
        loop
            invariant_except_break
                buf@ == s.subrange(p + 8, self.pc as int),
                nul_pos(s, p + 8) == nul_pos(s, self.pc as int),
            invariant
                self.code@ == s,
                s == old(self).code@,
                p == old(self).pc,
                0 <= p,
                p + 8 <= self.pc <= s.len(),
            ensures
                p + 8 < self.pc,
                buf@ == s.subrange(p + 8, self.pc - 1),
                nul_pos(s, p + 8) == self.pc - 1,
            decreases s.len() - self.pc,
        {
            if self.left() == 0 {
                return None;
            }
            let b = self.read_u8();
            if b == 0 {
                break;
            }
            buf.push(b);
            assert(buf@ =~= s.subrange(p + 8, self.pc as int));
        }
        match string_from_utf8(buf) {
            Some(name) => Some((key, name)),
            None => None,
        }
    }

    fn read_op(&mut self) -> (r: Option<Opcode>)
        requires
            old(self).pc <= old(self).code@.len(),
        ensures
            final(self).code@ == old(self).code@,
            final(self).pc <= final(self).code@.len(),
            match parse_op(old(self).code@, old(self).pc as int) {
                Some((x, q)) => r matches Some(op) && op@ == x && final(self).pc == q,
                None => r is None,
            },
    {
        let ghost s = self.code@;
        let ghost p = self.pc as int;
        if self.left() == 0 {
            return None;
        }
        let op = self.read_u8();
        if op == 0 {
            if self.left() < 9 {
                return None;
            }
            let sign = self.read_u8();
            let sign = if sign == 1 {
                true
            } else {
                false
            };
            let value = self.read_u64() as i64;
            let value = if sign {
                0i64.wrapping_sub(value)
            } else {
                value
            };
            return Some(Opcode::LdInt(value));
        }
        if op == 2 {
            if self.left() < 4 {
                return None;
            }
            let len = self.read_u32() as usize;
            if self.left() < len {
                return None;
            }
            let mut buf: Vec<u8> = Vec::new();
            let mut j: usize = 0;
            while j < len
                invariant
                    self.code@ == s,
                    0 <= p,
                    j <= len,
                    self.pc == p + 5 + j,
                    p + 5 + len <= s.len(),
                    buf@ == s.subrange(p + 5, p + 5 + j),
                decreases len - j,
            {
                let b = self.read_u8();
                buf.push(b);
                assert(buf@ =~= s.subrange(p + 5, p + 5 + j + 1));
                j += 1;
            }
            return match string_from_utf8(buf) {
                Some(st) => Some(Opcode::LdStr(st)),
                None => None,
            };
        }
        if op == 3 || op == 4 || op == 10 || op == 19 {
            if self.left() == 0 {
                return None;
            }
            let b2 = self.read_u8();
            let w = operand_width2(op, b2);
            if w < 0 || self.left() < w as usize {
                return None;
            }
            let x = self.read_width(w);
            return decode_op2(op, b2, x);
        }
        let w = operand_width1(op);
        if w < 0 || self.left() < w as usize {
            return None;
        }
        let x = self.read_width(w);
        decode_op1(op, x)
    }

    fn read_width(&mut self, w: i8) -> (x: u64)
        requires
            w == 0 || w == 2 || w == 4 || w == 8,
            old(self).pc + w <= old(self).code@.len(),
        ensures
            x == get_width(old(self).code@, old(self).pc as int, w as int),
            final(self).pc == old(self).pc + w,
            final(self).code@ == old(self).code@,
    {
        if w == 0 {
            0
        } else if w == 2 {
            self.read_u16() as u64
        } else if w == 4 {
            self.read_u32() as u64
        } else {
            self.read_u64()
        }
    }
}

impl Reader {
    fn read_globals(&mut self, n: u32) -> (r: Option<Vec<Value>>)
        requires
            old(self).pc <= old(self).code@.len(),
        ensures
            final(self).code@ == old(self).code@,
            final(self).pc <= final(self).code@.len(),
            match parse_globals(old(self).code@, old(self).pc as int, n as nat) {
                Some((v, q)) => r matches Some(gs) && gs@.map_values(|v: Value| v@) == v
                    && final(self).pc == q,
                None => r is None,
            },
    {
        let ghost s = self.code@;
        let ghost p = self.pc as int;
        let mut globals: Vec<Value> = Vec::new();
        let mut k: u32 = 0;
        while k < n
            invariant
                self.code@ == s,
                s == old(self).code@,
                p == old(self).pc,
                self.pc <= s.len(),
                k <= n,
                parse_globals(s, p, k as nat) == Some(
                    (globals@.map_values(|v: Value| v@), self.pc as int),
                ),
            decreases n - k,
        {
            match self.read_global() {
                Some(g) => {
                    assert(globals@.push(g).map_values(|v: Value| v@) =~= globals@.map_values(
                        |v: Value| v@,
                    ).push(g@));
                    globals.push(g);
                },
                None => {
                    proof {
                        lemma_globals_stuck(s, p, k as nat, n as nat);
                    }
                    return None;
                },
            }
            k += 1;
        }
        Some(globals)
    }

    fn read_fields(&mut self, n: u32) -> (r: Option<FnvHashMap<u64, String>>)
        requires
            old(self).pc <= old(self).code@.len(),
        ensures
            final(self).code@ == old(self).code@,
            final(self).pc <= final(self).code@.len(),
            match parse_fields(old(self).code@, old(self).pc as int, n as nat) {
                Some((f, q)) => r matches Some(fs) && field_names(fs) == f && final(self).pc == q,
                None => r is None,
            },
    {
        let ghost s = self.code@;
        let ghost p = self.pc as int;
        let mut fields = field_names_new();
        assert(field_names(fields) =~= Map::empty());
        let mut k: u32 = 0;
        while k < n
            invariant
                self.code@ == s,
                s == old(self).code@,
                p == old(self).pc,
                self.pc <= s.len(),
                k <= n,
                parse_fields(s, p, k as nat) == Some((field_names(fields), self.pc as int)),
            decreases n - k,
        {
            match self.read_field() {
                Some((key, field)) => {
                    field_names_insert(&mut fields, key, field);
                },
                None => {
                    proof {
                        lemma_fields_stuck(s, p, k as nat, n as nat);
                    }
                    return None;
                },
            }
            k += 1;
        }
        Some(fields)
    }

    fn read_ops(&mut self, n: u32) -> (r: Option<Vec<Opcode>>)
        requires
            old(self).pc <= old(self).code@.len(),
        ensures
            final(self).code@ == old(self).code@,
            final(self).pc <= final(self).code@.len(),
            match parse_ops(old(self).code@, old(self).pc as int, n as nat) {
                Some((v, q)) => r matches Some(c) && c@.map_values(|o: Opcode| o@) == v
                    && final(self).pc == q,
                None => r is None,
            },
    {
        let ghost s = self.code@;
        let ghost p = self.pc as int;
        let mut code: Vec<Opcode> = Vec::new();
        let mut k: u32 = 0;
        while k < n
            invariant
                self.code@ == s,
                s == old(self).code@,
                p == old(self).pc,
                self.pc <= s.len(),
                k <= n,
                parse_ops(s, p, k as nat) == Some(
                    (code@.map_values(|o: Opcode| o@), self.pc as int),
                ),
            decreases n - k,
        {
            match self.read_op() {
                Some(op) => {
                    assert(code@.push(op).map_values(|o: Opcode| o@) =~= code@.map_values(
                        |o: Opcode| o@,
                    ).push(op@));
                    code.push(op);
                },
                None => {
                    proof {
                        lemma_ops_stuck(s, p, k as nat, n as nat);
                    }
                    return None;
                },
            }
            k += 1;
        }
        Some(code)
    }
}

/// Loads the module named `name` from the reader's bytes, from the
/// reader's position on; `None` when the bytes do not hold one (truncated
/// input, a global other than a function, an unknown instruction, a name
/// that is not UTF-8).
pub fn read_module(reader: Reader, name: &str) -> (r: Option<Module>)
    requires
        reader.pc <= reader.code@.len(),
    ensures
        match parse_module(reader.code@, reader.pc as int) {
            Some(mv) => r matches Some(m) && module_view(m) == mv && m.name@ == name@,
            None => r is None,
        },
{
    let mut reader = reader;
    if reader.left() < 12 {
        return None;
    }
    let nglobals = reader.read_u32();
    let nfields = reader.read_u32();
    let ncodesize = reader.read_u32();
    let globals = match reader.read_globals(nglobals) {
        Some(g) => g,
        None => {
            return None;
        },
    };
    let fields = match reader.read_fields(nfields) {
        Some(f) => f,
        None => {
            return None;
        },
    };
    let code = match reader.read_ops(ncodesize) {
        Some(c) => c,
        None => {
            return None;
        },
    };
    Some(Module { name: name.to_owned(), globals, code, fields })
}

pub proof fn lemma_globals_stuck(s: Seq<u8>, p: int, k: nat, n: nat)
    requires
        k < n,
        parse_globals(s, p, (k + 1) as nat) is None,
    ensures
        parse_globals(s, p, n) is None,
    decreases n - k,
{
    if k + 1 < n {
        lemma_globals_stuck(s, p, k + 1, n);
    }
}

pub proof fn lemma_fields_stuck(s: Seq<u8>, p: int, k: nat, n: nat)
    requires
        k < n,
        parse_fields(s, p, (k + 1) as nat) is None,
    ensures
        parse_fields(s, p, n) is None,
    decreases n - k,
{
    if k + 1 < n {
        lemma_fields_stuck(s, p, k + 1, n);
    }
}

pub proof fn lemma_ops_stuck(s: Seq<u8>, p: int, k: nat, n: nat)
    requires
        k < n,
        parse_ops(s, p, (k + 1) as nat) is None,
    ensures
        parse_ops(s, p, n) is None,
    decreases n - k,
{
    if k + 1 < n {
        lemma_ops_stuck(s, p, k + 1, n);
    }
}

} // verus!
