//! Reading a JazzLight module back from its bytecode.

use vstd::prelude::*;
use vstd::utf8::{decode_utf8, valid_utf8};
use crate::bytes::{get16, get32, get64, read_u16_le, read_u32_le, read_u64_le, string_from_utf8};
use crate::light::opcodes::{Name, Opcode, decode_nullary, nullary_op};
use crate::light::symbols::{Symbols, intern_index, interned};
use crate::light::value::{Constant, ConstantV, Function};
use crate::light::writer::END_OF_CODE;

verus! {

/// The name table's strings, appended to `acc`, with the position after
/// them. Each entry is a 32-bit id, which must be the entry's place in the
/// table (the id instructions and constants name it by), a 32-bit byte
/// length, and that many bytes of UTF-8.
pub open spec fn parse_strings(s: Seq<u8>, p: int, n: nat, acc: Seq<Seq<char>>) -> Option<
    (Seq<Seq<char>>, int),
>
    decreases n,
{
    if n == 0 {
        Some((acc, p))
    } else if 0 <= p && p + 8 <= s.len() && get32(s, p) as int == acc.len() && p + 8 + get32(
        s,
        p + 4,
    ) <= s.len() && valid_utf8(s.subrange(p + 8, p + 8 + get32(s, p + 4))) {
        let q = p + 8 + get32(s, p + 4);
        parse_strings(s, q, (n - 1) as nat, acc.push(decode_utf8(s.subrange(p + 8, q))))
    } else {
        None
    }
}

/// A function's parameter names: each a 32-bit index into the strings.
pub open spec fn parse_args(
    s: Seq<u8>,
    p: int,
    n: nat,
    strs: Seq<Seq<char>>,
    acc: Seq<Seq<char>>,
) -> Option<(Seq<Seq<char>>, int)>
    decreases n,
{
    if n == 0 {
        Some((acc, p))
    } else if 0 <= p && p + 4 <= s.len() && (get32(s, p) as int) < strs.len() {
        parse_args(s, p + 4, (n - 1) as nat, strs, acc.push(strs[get32(s, p) as int]))
    } else {
        None
    }
}

/// One constant: its tag byte, then its payload.
pub open spec fn parse_const(s: Seq<u8>, p: int, strs: Seq<Seq<char>>) -> Option<(ConstantV, int)> {
    if !(0 <= p && p < s.len()) {
        None
    } else {
        let q = p + 1;
        let tag = s[p];
        if tag == 1u8 {
            if q + 8 <= s.len() {
                Some((ConstantV::Number(get64(s, q)), q + 8))
            } else {
                None
            }
        } else if tag == 2u8 {
            if q < s.len() {
                Some((ConstantV::Bool(s[q] != 0u8), q + 1))
            } else {
                None
            }
        } else if tag == 3u8 {
            if q + 4 <= s.len() && (get32(s, q) as int) < strs.len() {
                Some((ConstantV::Str(strs[get32(s, q) as int]), q + 4))
            } else {
                None
            }
        } else if tag == 4u8 {
            Some((ConstantV::Nil, q))
        } else if tag == 5u8 {
            if q + 7 <= s.len() {
                let sg = s[q + 6];
                match parse_args(s, q + 7, get16(s, q + 4) as nat, strs, Seq::empty()) {
                    Some((args, r)) => Some(
                        (
                            ConstantV::Func {
                                addr: get32(s, q) as usize,
                                args,
                                set: sg & 1u8 != 0u8,
                                get: sg & 2u8 != 0u8,
                            },
                            r,
                        ),
                    ),
                    None => None,
                }
            } else {
                None
            }
        } else {
            None
        }
    }
}

/// `n` constants, appended to `acc`.
pub open spec fn parse_consts(
    s: Seq<u8>,
    p: int,
    n: nat,
    strs: Seq<Seq<char>>,
    acc: Seq<ConstantV>,
) -> Option<(Seq<ConstantV>, int)>
    decreases n,
{
    if n == 0 {
        Some((acc, p))
    } else {
        match parse_const(s, p, strs) {
            Some((c, q)) => parse_consts(s, q, (n - 1) as nat, strs, acc.push(c)),
            None => None,
        }
    }
}

/// The instruction that `byte` begins, its operand read from `p`: with the
/// position after it and the symbol table once its name, if any, is
/// interned.
#[verifier::opaque]
pub open spec fn parse_op(
    s: Seq<u8>,
    p: int,
    byte: u8,
    strs: Seq<Seq<char>>,
    syms: Seq<Seq<char>>,
) -> Option<(Opcode, int, Seq<Seq<char>>)> {
    if nullary_op(byte) is Some {
        Some((nullary_op(byte).unwrap(), p, syms))
    } else if byte == 54u8 {
        if p + 8 <= s.len() {
            Some((Opcode::LoadInt(get64(s, p) as i64), p + 8, syms))
        } else {
            None
        }
    } else if byte == 5u8 {
        if p + 4 <= s.len() {
            Some((Opcode::LoadConst(get32(s, p)), p + 4, syms))
        } else {
            None
        }
    } else if byte == 6u8 {
        if p + 4 <= s.len() && (get32(s, p) as int) < strs.len() {
            let x = strs[get32(s, p) as int];
            Some((Opcode::LoadVar(Name(intern_index(syms, x) as u32)), p + 4, interned(syms, x)))
        } else {
            None
        }
    } else if byte == 10u8 {
        if p + 2 <= s.len() {
            Some((Opcode::ConstructArray(get16(s, p) as u32), p + 2, syms))
        } else {
            None
        }
    } else if byte == 11u8 {
        if p + 4 <= s.len() && (get32(s, p) as int) < strs.len() {
            let x = strs[get32(s, p) as int];
            Some((Opcode::DeclVar(Name(intern_index(syms, x) as u32)), p + 4, interned(syms, x)))
        } else {
            None
        }
    } else if byte == 12u8 {
        if p + 4 <= s.len() && (get32(s, p) as int) < strs.len() {
            let x = strs[get32(s, p) as int];
            Some((Opcode::StoreVar(Name(intern_index(syms, x) as u32)), p + 4, interned(syms, x)))
        } else {
            None
        }
    } else if byte == 13u8 {
        if p + 4 <= s.len() {
            Some((Opcode::PushCatch(get32(s, p) as usize), p + 4, syms))
        } else {
            None
        }
    } else if byte == 16u8 {
        if p + 4 <= s.len() {
            Some((Opcode::Jump(get32(s, p)), p + 4, syms))
        } else {
            None
        }
    } else if byte == 17u8 {
        if p + 4 <= s.len() {
            Some((Opcode::JumpIf(get32(s, p)), p + 4, syms))
        } else {
            None
        }
    } else if byte == 18u8 {
        if p + 4 <= s.len() {
            Some((Opcode::JumpIfFalse(get32(s, p)), p + 4, syms))
        } else {
            None
        }
    } else if byte == 19u8 {
        if p + 2 <= s.len() {
            Some((Opcode::Call(get16(s, p) as u32), p + 2, syms))
        } else {
            None
        }
    } else if byte == 20u8 {
        if p + 2 <= s.len() {
            Some((Opcode::Pop(get16(s, p) as u32), p + 2, syms))
        } else {
            None
        }    } else {
        None
    }
}

/// The instructions, `byte` being the one already read and `p` the position
/// after it, appended to `acc`: reading stops at the end marker, or when `p`
/// reaches `count`, before `byte` is decoded. Gives the instructions, the
/// symbol table and the position reached.
pub open spec fn parse_code(
    s: Seq<u8>,
    p: int,
    byte: u8,
    count: int,
    strs: Seq<Seq<char>>,
    syms: Seq<Seq<char>>,
    acc: Seq<Opcode>,
) -> Option<(Seq<Opcode>, Seq<Seq<char>>, int)>
    decreases s.len() - p,
{
    if byte == END_OF_CODE || p >= count {
        Some((acc, syms, p))
    } else {
        match parse_op(s, p, byte, strs, syms) {
            Some((op, q, syms1)) => if 0 <= p <= q < s.len() {
                parse_code(s, q + 1, s[q], count, strs, syms1, acc.push(op))
            } else {
                None
            },
            None => None,
        }
    }
}

/// What reading a module from `p` on gives: its constants, its
/// instructions, the symbol table after them, and the position reached.
pub struct LightRead {
    pub constants: Seq<ConstantV>,
    pub code: Seq<Opcode>,
    pub symbols: Seq<Seq<char>>,
    pub end: int,
}

/// A module read from `p` on: the name table (its size, then its strings),
/// the constants (their count, then each), then the instructions.
pub open spec fn parse_module(s: Seq<u8>, p: int, count: int, syms: Seq<Seq<char>>) -> Option<
    LightRead,
> {
    if !(0 <= p && p + 4 <= s.len()) {
        None
    } else {
        match parse_strings(s, p + 4, get32(s, p) as nat, Seq::empty()) {
            None => None,
            Some((strs, p1)) => if !(0 <= p1 && p1 + 4 <= s.len()) {
                None
            } else {
                match parse_consts(s, p1 + 4, get32(s, p1) as nat, strs, Seq::empty()) {
                    None => None,
                    Some((cs, p2)) => if !(0 <= p2 && p2 < s.len()) {
                        None
                    } else {
                        match parse_code(s, p2 + 1, s[p2], count, strs, syms, Seq::empty()) {
                            None => None,
                            Some((ops, syms1, end)) => Some(
                                LightRead { constants: cs, code: ops, symbols: syms1, end },
                            ),
                        }
                    },
                }
            },
        }
    }
}

pub open spec fn strings_view(v: Seq<String>) -> Seq<Seq<char>> {
    v.map_values(|x: String| x@)
}

/// Reads the name table's strings.
fn read_strings(s: &Vec<u8>, p: usize, n: u32) -> (r: Option<(Vec<String>, usize)>)
    ensures
        match parse_strings(s@, p as int, n as nat, Seq::empty()) {
            Some((strs, q)) => r matches Some((v, q2)) && strings_view(v@) == strs && q2 == q,
            None => r is None,
        },
{
    let mut out: Vec<String> = Vec::new();
    let mut q = p;
    let mut k: u32 = 0;
    assert(strings_view(out@) =~= Seq::<Seq<char>>::empty());
    while k < n
        invariant
            k <= n,
            parse_strings(s@, p as int, n as nat, Seq::empty()) == parse_strings(
                s@,
                q as int,
                (n - k) as nat,
                strings_view(out@),
            ),
        decreases n - k,
    {
        if !(q <= s.len() && s.len() - q >= 8) {
            return None;
        }
        let id = read_u32_le(s.as_slice(), q);
        if id as usize != out.len() {
            return None;
        }
        let len = read_u32_le(s.as_slice(), q + 4) as usize;
        if s.len() - q - 8 < len {
            return None;
        }
        let mut bytes: Vec<u8> = Vec::new();
        let mut j: usize = 0;
        while j < len
            invariant
                q + 8 + len <= s@.len(),
                q + 8 + len <= s.len(),
                j <= len,
                bytes@ == s@.subrange(q + 8, q + 8 + j),
            decreases len - j,
        {
            bytes.push(s[q + 8 + j]);
            proof {
                assert(s@.subrange(q + 8, q + 8 + j + 1) =~= s@.subrange(q + 8, q + 8 + j).push(
                    s@[q + 8 + j],
                ));
            }
            j = j + 1;
        }
        match string_from_utf8(bytes) {
            Some(st) => {
                let ghost before = strings_view(out@);
                out.push(st);
                proof {
                    assert(strings_view(out@) =~= before.push(st@));
                }
            },
            None => {
                return None;
            },
        }
        q = q + 8 + len;
        k = k + 1;
    }
    Some((out, q))
}

/// Reads a function's parameter names.
fn read_args(s: &Vec<u8>, p: usize, n: u16, strs: &Vec<String>) -> (r: Option<(Vec<String>, usize)>)
    ensures
        match parse_args(s@, p as int, n as nat, strings_view(strs@), Seq::empty()) {
            Some((args, q)) => r matches Some((v, q2)) && strings_view(v@) == args && q2 == q,
            None => r is None,
        },
{
    let mut out: Vec<String> = Vec::new();
    let mut q = p;
    let mut k: u16 = 0;
    assert(strings_view(out@) =~= Seq::<Seq<char>>::empty());
    while k < n
        invariant
            k <= n,
            parse_args(s@, p as int, n as nat, strings_view(strs@), Seq::empty()) == parse_args(
                s@,
                q as int,
                (n - k) as nat,
                strings_view(strs@),
                strings_view(out@),
            ),
        decreases n - k,
    {
        if !(q <= s.len() && s.len() - q >= 4) {
            return None;
        }
        let idx = read_u32_le(s.as_slice(), q) as usize;
        if idx >= strs.len() {
            return None;
        }
        let ghost before = strings_view(out@);
        out.push(strs[idx].clone());
        proof {
            assert(strings_view(out@) =~= before.push(strings_view(strs@)[idx as int]));
        }
        q = q + 4;
        k = k + 1;
    }
    Some((out, q))
}

/// Reads one constant.
fn read_const(s: &Vec<u8>, p: usize, strs: &Vec<String>) -> (r: Option<(Constant, usize)>)
    ensures
        match parse_const(s@, p as int, strings_view(strs@)) {
            Some((c, q)) => r matches Some((v, q2)) && v@ == c && q2 == q,
            None => r is None,
        },
{
    if p >= s.len() {
        return None;
    }
    let q = p + 1;
    let tag = s[p];
    if tag == 1 {
        if s.len() - q >= 8 {
            Some((Constant::Number(read_u64_le(s.as_slice(), q)), q + 8))
        } else {
            None
        }
    } else if tag == 2 {
        if q < s.len() {
            Some((Constant::Bool(s[q] != 0), q + 1))
        } else {
            None
        }
    } else if tag == 3 {
        if s.len() - q >= 4 {
            let idx = read_u32_le(s.as_slice(), q) as usize;
            if idx < strs.len() {
                Some((Constant::String(strs[idx].clone()), q + 4))
            } else {
                None
            }
        } else {
            None
        }
    } else if tag == 4 {
        Some((Constant::Nil, q))
    } else if tag == 5 {
        if s.len() - q >= 7 {
            let addr = read_u32_le(s.as_slice(), q);
            let argc = read_u16_le(s.as_slice(), q + 4);
            let sg = s[q + 6];
            match read_args(s, q + 7, argc, strs) {
                Some((args, r)) => {
                    let f = Function {
                        addr: addr as usize,
                        args,
                        set: sg & 1 != 0,
                        get: sg & 2 != 0,
                    };
                    Some((Constant::Function(f), r))
                },
                None => None,
            }
        } else {
            None
        }
    } else {
        None
    }
}

/// Reads `n` constants onto the end of `out`.
fn read_consts(s: &Vec<u8>, p: usize, n: u32, strs: &Vec<String>, out: &mut Vec<Constant>) -> (r:
    Option<usize>)
    ensures
        match parse_consts(s@, p as int, n as nat, strings_view(strs@), Seq::empty()) {
            Some((cs, q)) => r matches Some(q2) && q2 == q && final(out)@.map_values(|c: Constant| c@)
                == old(out)@.map_values(|c: Constant| c@) + cs,
            None => r is None,
        },
{
    let ghost start = out@.map_values(|c: Constant| c@);
    let ghost base = out@.len();
    let mut q = p;
    let mut k: u32 = 0;
    assert(out@.map_values(|c: Constant| c@).skip(base as int) =~= Seq::<ConstantV>::empty());
    assert(out@.map_values(|c: Constant| c@) =~= start + out@.map_values(|c: Constant| c@).skip(
        base as int,
    ));
    while k < n
        invariant
            k <= n,
            out@.len() >= base,
            out@.map_values(|c: Constant| c@) == start + out@.map_values(|c: Constant| c@).skip(
                base as int,
            ),
            parse_consts(s@, p as int, n as nat, strings_view(strs@), Seq::empty()) == parse_consts(
                s@,
                q as int,
                (n - k) as nat,
                strings_view(strs@),
                out@.map_values(|c: Constant| c@).skip(base as int),
            ),
        decreases n - k,
    {
        match read_const(s, q, strs) {
            Some((c, q2)) => {
                let ghost before = out@.map_values(|c: Constant| c@);
                out.push(c);
                proof {
                    assert(out@.map_values(|c: Constant| c@) =~= before.push(c@));
                    assert(out@.map_values(|c: Constant| c@).skip(base as int) =~= before.skip(
                        base as int,
                    ).push(c@));
                    assert(out@.map_values(|c: Constant| c@) =~= start + out@.map_values(
                        |c: Constant| c@,
                    ).skip(base as int));
                }
                q = q2;
            },
            None => {
                return None;
            },
        }
        k = k + 1;
    }
    Some(q)
}

/// Reads the instruction that `byte` begins, its operand from `p`.
fn read_op(s: &Vec<u8>, p: usize, byte: u8, strs: &Vec<String>, symbols: &mut Symbols) -> (r:
    Option<(Opcode, usize)>)
    requires
        old(symbols)@.len() < u32::MAX,
    ensures
        match parse_op(s@, p as int, byte, strings_view(strs@), old(symbols)@) {
            Some((op, q, syms)) => r matches Some((op2, q2)) && op2 == op && q2 == q
                && final(symbols)@ == syms,
            None => r is None,
        },
{
    reveal(parse_op);
    if p > s.len() {
        return match decode_nullary(byte) {
            Some(op) => Some((op, p)),
            None => None,
        };
    }
    match byte {
        54 => {
            if s.len() - p >= 8 {
                Some((Opcode::LoadInt(read_u64_le(s.as_slice(), p) as i64), p + 8))
            } else {
                None
            }
        },
        5 => {
            if s.len() - p >= 4 {
                Some((Opcode::LoadConst(read_u32_le(s.as_slice(), p)), p + 4))
            } else {
                None
            }
        },
        6 => {
            if s.len() - p >= 4 {
                let idx = read_u32_le(s.as_slice(), p) as usize;
                if idx < strs.len() {
                    let name = symbols.intern(strs[idx].as_str());
                    Some((Opcode::LoadVar(name), p + 4))
                } else {
                    None
                }
            } else {
                None
            }
        },
        10 => {
            if s.len() - p >= 2 {
                Some((Opcode::ConstructArray(read_u16_le(s.as_slice(), p) as u32), p + 2))
            } else {
                None
            }
        },
        11 => {
            if s.len() - p >= 4 {
                let idx = read_u32_le(s.as_slice(), p) as usize;
                if idx < strs.len() {
                    let name = symbols.intern(strs[idx].as_str());
                    Some((Opcode::DeclVar(name), p + 4))
                } else {
                    None
                }
            } else {
                None
            }
        },
        12 => {
            if s.len() - p >= 4 {
                let idx = read_u32_le(s.as_slice(), p) as usize;
                if idx < strs.len() {
                    let name = symbols.intern(strs[idx].as_str());
                    Some((Opcode::StoreVar(name), p + 4))
                } else {
                    None
                }
            } else {
                None
            }
        },
        13 => {
            if s.len() - p >= 4 {
                Some((Opcode::PushCatch(read_u32_le(s.as_slice(), p) as usize), p + 4))
            } else {
                None
            }
        },
        16 => {
            if s.len() - p >= 4 {
                Some((Opcode::Jump(read_u32_le(s.as_slice(), p)), p + 4))
            } else {
                None
            }
        },
        17 => {
            if s.len() - p >= 4 {
                Some((Opcode::JumpIf(read_u32_le(s.as_slice(), p)), p + 4))
            } else {
                None
            }
        },
        18 => {
            if s.len() - p >= 4 {
                Some((Opcode::JumpIfFalse(read_u32_le(s.as_slice(), p)), p + 4))
            } else {
                None
            }
        },
        19 => {
            if s.len() - p >= 2 {
                Some((Opcode::Call(read_u16_le(s.as_slice(), p) as u32), p + 2))
            } else {
                None
            }
        },
        20 => {
            if s.len() - p >= 2 {
                Some((Opcode::Pop(read_u16_le(s.as_slice(), p) as u32), p + 2))
            } else {
                None
            }
        },        _ => match decode_nullary(byte) {
            Some(op) => Some((op, p)),
            None => None,
        },
    }
}

/// Reads the module's bytecode from `pc` on.
pub struct BytecodeReader {
    /// The symbols that names are interned into.
    pub symbols: Symbols,
    /// The constant pool that constants are added to.
    pub constants: Vec<Constant>,
    pub bytecode: Vec<u8>,
    pub pc: usize,
    /// Where the code stops, whether or not the end marker came.
    pub count: usize,
}

impl BytecodeReader {
    /// Reads the name table, the constants and the instructions: `None`
    /// exactly when the bytes are not a module. The constants read are added
    /// to the pool, the names the instructions use interned. A table entry
    /// is read as the writer puts it: the name's id, which must be the
    /// entry's place in the table, its byte length and its bytes.
    pub fn read(&mut self) -> (r: Option<Vec<Opcode>>)
        requires
            old(self).symbols@.len() + old(self).bytecode@.len() < u32::MAX,
        ensures
            match parse_module(
                old(self).bytecode@,
                old(self).pc as int,
                old(self).count as int,
                old(self).symbols@,
            ) {
                Some(m) => r matches Some(ops) && ops@ == m.code && final(self).constants@.map_values(
                    |c: Constant| c@,
                ) == old(self).constants@.map_values(|c: Constant| c@) + m.constants
                    && final(self).symbols@ == m.symbols && final(self).pc == m.end,
                None => r is None,
            },
            final(self).bytecode == old(self).bytecode,
            final(self).count == old(self).count,
    {
        let p = self.pc;
        if !(p <= self.bytecode.len() && self.bytecode.len() - p >= 4) {
            return None;
        }
        let n = read_u32_le(self.bytecode.as_slice(), p);
        let (strs, p1) = match read_strings(&self.bytecode, p + 4, n) {
            Some(x) => x,
            None => {
                return None;
            },
        };
        if !(p1 <= self.bytecode.len() && self.bytecode.len() - p1 >= 4) {
            return None;
        }
        let m = read_u32_le(self.bytecode.as_slice(), p1);
        let p2 = match read_consts(&self.bytecode, p1 + 4, m, &strs, &mut self.constants) {
            Some(x) => x,
            None => {
                return None;
            },
        };
        if p2 >= self.bytecode.len() {
            return None;
        }
        let byte = self.bytecode[p2];
        let r = read_code(&self.bytecode, p2 + 1, byte, self.count, &strs, &mut self.symbols);
        match r {
            Some((ops, end)) => {
                self.pc = end;
                Some(ops)
            },
            None => None,
        }
    }
}

/// Reads the instructions, `byte` being the one already read and `p` the
/// position after it.
fn read_code(
    s: &Vec<u8>,
    p: usize,
    byte: u8,
    count: usize,
    strs: &Vec<String>,
    symbols: &mut Symbols,
) -> (r: Option<(Vec<Opcode>, usize)>)
    requires
        p <= s@.len(),
        old(symbols)@.len() + (s@.len() - p) < u32::MAX,
    ensures
        match parse_code(
            s@,
            p as int,
            byte,
            count as int,
            strings_view(strs@),
            old(symbols)@,
            Seq::empty(),
        ) {
            Some((ops, syms, end)) => r matches Some((v, e)) && v@ == ops && final(symbols)@ == syms
                && e == end,
            None => r is None,
        },
{
    let ghost target = parse_code(
        s@,
        p as int,
        byte,
        count as int,
        strings_view(strs@),
        symbols@,
        Seq::empty(),
    );
    let mut ops: Vec<Opcode> = Vec::new();
    let mut q = p;
    let mut b = byte;
    while b != END_OF_CODE && q < count
        invariant
            target == parse_code(
                s@,
                p as int,
                byte,
                count as int,
                strings_view(strs@),
                old(symbols)@,
                Seq::empty(),
            ),
            q <= s@.len(),
            symbols@.len() + (s@.len() - q) < u32::MAX,
            target == parse_code(
                s@,
                q as int,
                b,
                count as int,
                strings_view(strs@),
                symbols@,
                ops@,
            ),
        decreases s@.len() - q,
    {
        let ghost syms0 = symbols@;
        proof {
            reveal(parse_op);
        }
        let ghost step = parse_op(s@, q as int, b, strings_view(strs@), syms0);
        assert(target == match step {
            Some((op, q2, syms1)) => if 0 <= q <= q2 < s@.len() {
                parse_code(s@, q2 + 1, s@[q2], count as int, strings_view(strs@), syms1, ops@.push(op))
            } else {
                None
            },
            None => None,
        });
        match read_op(s, q, b, strs, symbols) {
            Some((op, q2)) => {
                if q2 >= s.len() {
                    return None;
                }
                ops.push(op);
                b = s[q2];
                q = q2 + 1;
            },
            None => {
                return None;
            },
        }
    }
    Some((ops, q))
}

} // verus!
