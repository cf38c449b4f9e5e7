//! The Jazz compiler's code buffer: instructions and jumps to named labels,
//! the table of globals, and the instructions that read and write a place.

use vstd::prelude::*;
use std::collections::HashMap;
use vstd::utf8::encode_utf8;
use crate::jazz::opcode::{Opcode, OpcodeV, copy_opcode};
use crate::labels::{
    decimal, label_pos, place_labels, placed, slot_get, slot_insert, slots_view, usize_to_string,
};
use crate::intern::{distinct_entries, interned, lemma_intern_found, lemma_intern_twice};
use crate::lhm::lhm_insert;
use crate::operators::{Operator, operator_of, parse_operator};
use crate::vm::hash::{fnv_hash, hash_str};

verus! {

broadcast use vstd::std_specs::hash::group_hash_axioms;

/// An instruction, or a jump to a label to be resolved when the code is
/// finished.
pub enum UOP {
    Goto(String),
    GotoF(String),
    GotoT(String),
    Label(String),
    Op(Opcode),
}

/// An entry of the code buffer as the contracts see it.
pub enum UOPV {
    Goto(Seq<char>),
    GotoF(Seq<char>),
    GotoT(Seq<char>),
    Label(Seq<char>),
    Op(OpcodeV),
}

impl View for UOP {
    type V = UOPV;

    open spec fn view(&self) -> UOPV {
        match self {
            UOP::Goto(l) => UOPV::Goto(l@),
            UOP::GotoF(l) => UOPV::GotoF(l@),
            UOP::GotoT(l) => UOPV::GotoT(l@),
            UOP::Label(l) => UOPV::Label(l@),
            UOP::Op(op) => UOPV::Op(op@),
        }
    }
}

/// The label a jump names.
pub open spec fn uop_label(u: UOPV) -> Option<Seq<char>> {
    match u {
        UOPV::Goto(l) => Some(l),
        UOPV::GotoF(l) => Some(l),
        UOPV::GotoT(l) => Some(l),
        _ => None,
    }
}

/// The labels the entries mark.
pub open spec fn marks(code: Seq<UOPV>) -> Seq<Option<Seq<char>>> {
    code.map_values(
        |u: UOPV|
            match u {
                UOPV::Label(l) => Some(l),
                _ => None,
            },
    )
}

/// One entry as an instruction: a jump goes to its label's position, a
/// label mark becomes `Nop`.
pub open spec fn lower(t: Seq<(Seq<char>, Option<usize>)>, u: UOPV) -> OpcodeV {
    match u {
        UOPV::Op(op) => op,
        UOPV::Goto(l) => OpcodeV::Plain(Opcode::Jump(label_pos(t, l) as u32)),
        UOPV::GotoF(l) => OpcodeV::Plain(Opcode::JumpIfNot(label_pos(t, l) as u32)),
        UOPV::GotoT(l) => OpcodeV::Plain(Opcode::JumpIf(label_pos(t, l) as u32)),
        UOPV::Label(_) => OpcodeV::Plain(Opcode::Nop),
    }
}

/// A global of the compiled program: a variable, a function (its address
/// and argument count), a string or a float literal.
pub enum Global {
    Var(String),
    Func(i32, i32),
    Str(String),
    Float(String),
}

/// A global as the contracts see it.
pub enum GlobalV {
    Var(Seq<char>),
    Func(i32, i32),
    Str(Seq<char>),
    Float(Seq<char>),
}

impl View for Global {
    type V = GlobalV;

    open spec fn view(&self) -> GlobalV {
        match self {
            Global::Var(s) => GlobalV::Var(s@),
            Global::Func(a, n) => GlobalV::Func(*a, *n),
            Global::Str(s) => GlobalV::Str(s@),
            Global::Float(s) => GlobalV::Float(s@),
        }
    }
}

/// Whether two globals are the same.
pub fn same_global(a: &Global, b: &Global) -> (r: bool)
    ensures
        r == (a@ == b@),
{
    match (a, b) {
        (Global::Var(x), Global::Var(y)) => *x == *y,
        (Global::Func(x1, x2), Global::Func(y1, y2)) => *x1 == *y1 && *x2 == *y2,
        (Global::Str(x), Global::Str(y)) => *x == *y,
        (Global::Float(x), Global::Float(y)) => *x == *y,
        _ => false,
    }
}

/// A copy of a global.
pub fn copy_global(g: &Global) -> (r: Global)
    ensures
        r@ == g@,
{
    match g {
        Global::Var(s) => Global::Var(s.clone()),
        Global::Func(a, n) => Global::Func(*a, *n),
        Global::Str(s) => Global::Str(s.clone()),
        Global::Float(s) => Global::Float(s.clone()),
    }
}

/// The globals of the compiled program, each with the id of its place in
/// the table.
pub struct Globals {
    pub table: Vec<Global>,
}

impl Globals {
    /// The table as the contracts see it.
    pub open spec fn table_view(&self) -> Seq<GlobalV> {
        self.table@.map_values(|g: Global| g@)
    }
}

/// How an expression is read or written: a slot of the closure's
/// environment or of the stack frame, a global, a field, an element of an
/// array at a fixed or a computed index, or `this`.
pub enum Access {
    Env(i32),
    Stack(i32),
    Global(i32),
    Field(String),
    Index(i32),
    Array,
    This,
}

/// The key a field name has: the FNV hash of its UTF-8 bytes.
pub open spec fn field_key(name: Seq<char>) -> u64 {
    fnv_hash(encode_utf8(name))
}

/// The instruction that reads a place.
pub open spec fn load_op(acc: Access) -> Opcode {
    match acc {
        Access::Env(i) => Opcode::LdEnv(i as u32),
        Access::Stack(i) => Opcode::LdLocal(i as u32),
        Access::Global(g) => Opcode::LdGlobal(g as u32),
        Access::Field(f) => Opcode::LdField(field_key(f@)),
        Access::Index(i) => Opcode::LdIndex(i as u32),
        Access::This => Opcode::LdThis,
        Access::Array => Opcode::LdArray,
    }
}

/// The instruction that writes a place.
pub open spec fn store_op(acc: Access) -> Opcode {
    match acc {
        Access::Env(i) => Opcode::SetEnv(i as u32),
        Access::Stack(i) => Opcode::SetLocal(i as u32),
        Access::Global(g) => Opcode::SetGlobal(g as u32),
        Access::Field(f) => Opcode::SetField(field_key(f@)),
        Access::Index(i) => Opcode::SetIndex(i as u32),
        Access::This => Opcode::SetThis,
        Access::Array => Opcode::SetArray,
    }
}

/// The field names known after reaching a place: a field adds its name
/// under its key.
pub open spec fn fields_after(fields: Map<u64, String>, acc: Access) -> Map<u64, String> {
    match acc {
        Access::Field(f) => fields.insert(field_key(f@), f),
        _ => fields,
    }
}

/// The instruction of an operator; `&&`, `||` and `!` have none.
pub open spec fn operator_instruction(o: Operator) -> Option<Opcode> {
    match o {
        Operator::Plus => Some(Opcode::Add),
        Operator::Minus => Some(Opcode::Sub),
        Operator::Slash => Some(Opcode::Div),
        Operator::Star => Some(Opcode::Mul),
        Operator::Percent => Some(Opcode::Rem),
        Operator::Shl => Some(Opcode::Shl),
        Operator::Shr => Some(Opcode::Shr),
        Operator::Pipe => Some(Opcode::Or),
        Operator::Amp => Some(Opcode::And),
        Operator::Caret => Some(Opcode::Xor),
        Operator::EqEq => Some(Opcode::Eq),
        Operator::NotEq => Some(Opcode::Neq),
        Operator::Gt => Some(Opcode::Gt),
        Operator::Gte => Some(Opcode::Gte),
        Operator::Lt => Some(Opcode::Lt),
        Operator::Lte => Some(Opcode::Lte),
        _ => None,
    }
}

/// The instruction of binary operator symbol `op`, if it has one.
pub open spec fn binop(op: Seq<char>) -> Option<Opcode> {
    match operator_of(op) {
        Some(o) => operator_instruction(o),
        None => None,
    }
}

/// The Jazz compiler's code buffer, with the source position of each
/// instruction, the label table, the globals and the field names met.
pub struct Context {
    pub g: Globals,
    pub ops: Vec<UOP>,
    pub stack: i32,
    pub limit: i32,
    pub nenv: i32,
    pub pos: Vec<(i32, i32)>,
    pub cur_pos: (i32, i32),
    pub labels: Vec<(String, Option<usize>)>,
    pub fields: HashMap<u64, String>,
}

impl Context {
    /// The code buffer as the contracts see it.
    pub open spec fn code_view(&self) -> Seq<UOPV> {
        self.ops@.map_values(|u: UOP| u@)
    }

    /// The label table as the contracts see it.
    pub open spec fn label_view(&self) -> Seq<(Seq<char>, Option<usize>)> {
        slots_view(self.labels@)
    }

    /// A buffer with no code, label, global or field, at source position
    /// (0, 0), with an empty stack and no enclosing function.
    pub fn new() -> (c: Context)
        ensures
            c.code_view() == Seq::<UOPV>::empty(),
            c.label_view() == Seq::<(Seq<char>, Option<usize>)>::empty(),
            c.g.table_view() == Seq::<GlobalV>::empty(),
            c.fields@ == Map::<u64, String>::empty(),
            c.pos@ == Seq::<(i32, i32)>::empty(),
            c.cur_pos == (0i32, 0i32),
            c.stack == 0,
            c.limit == -1,
            c.nenv == 0,
    {
        let c = Context {
            g: Globals { table: Vec::new() },
            ops: Vec::new(),
            stack: 0,
            limit: -1,
            nenv: 0,
            pos: Vec::new(),
            cur_pos: (0, 0),
            labels: Vec::new(),
            fields: HashMap::new(),
        };
        assert(c.code_view() =~= Seq::<UOPV>::empty());
        assert(c.label_view() =~= Seq::<(Seq<char>, Option<usize>)>::empty());
        assert(c.g.table_view() =~= Seq::<GlobalV>::empty());
        c
    }

    /// The position the next entry takes.
    pub fn pos(&self) -> (p: usize)
        ensures
            p == self.ops@.len(),
    {
        self.ops.len()
    }

    fn push(&mut self, u: UOP)
        ensures
            final(self).code_view() == old(self).code_view().push(u@),
            final(self).ops@.len() == old(self).ops@.len() + 1,
            final(self).labels == old(self).labels,
            final(self).g == old(self).g,
            final(self).fields == old(self).fields,
            final(self).pos == old(self).pos,
            final(self).cur_pos == old(self).cur_pos,
    {
        let ghost before = self.code_view();
        self.ops.push(u);
        assert(self.code_view() =~= before.push(u@));
    }

    /// Appends an instruction, recording the current source position for it.
    pub fn write(&mut self, op: Opcode)
        ensures
            final(self).code_view() == old(self).code_view().push(UOPV::Op(op@)),
            final(self).pos@ == old(self).pos@.push(old(self).cur_pos),
            final(self).labels == old(self).labels,
            final(self).g == old(self).g,
            final(self).fields == old(self).fields,
            final(self).cur_pos == old(self).cur_pos,
    {
        self.pos.push(self.cur_pos);
        self.push(UOP::Op(op));
    }

    /// Appends a jump to label `to`.
    pub fn emit_goto(&mut self, to: &str)
        ensures
            final(self).code_view() == old(self).code_view().push(UOPV::Goto(to@)),
            final(self).pos == old(self).pos,
            final(self).labels == old(self).labels,
            final(self).g == old(self).g,
            final(self).fields == old(self).fields,
    {
        self.push(UOP::Goto(to.to_owned()));
    }

    /// Appends a jump to label `to` taken when the value is false.
    pub fn emit_gotof(&mut self, to: &str)
        ensures
            final(self).code_view() == old(self).code_view().push(UOPV::GotoF(to@)),
            final(self).pos == old(self).pos,
            final(self).labels == old(self).labels,
            final(self).g == old(self).g,
            final(self).fields == old(self).fields,
    {
        self.push(UOP::GotoF(to.to_owned()));
    }

    /// A fresh label, named by the number of labels so far, not yet placed.
    pub fn new_empty_label(&mut self) -> (name: String)
        ensures
            name@ == decimal(old(self).label_view().len()),
            final(self).label_view() == lhm_insert(old(self).label_view(), name@, None),
            final(self).ops == old(self).ops,
            final(self).pos == old(self).pos,
            final(self).g == old(self).g,
            final(self).fields == old(self).fields,
    {
        let lab_name = usize_to_string(self.labels.len());
        slot_insert(&mut self.labels, lab_name.clone(), None);
        lab_name
    }

    /// Marks the current position as the place of `label`.
    pub fn label_here(&mut self, label: &str)
        ensures
            final(self).code_view() == old(self).code_view().push(UOPV::Label(label@)),
            final(self).pos == old(self).pos,
            final(self).labels == old(self).labels,
            final(self).g == old(self).g,
            final(self).fields == old(self).fields,
    {
        self.push(UOP::Label(label.to_owned()));
    }

    /// Appends a jump to position `p`.
    pub fn goto(&mut self, p: u32)
        ensures
            final(self).code_view() == old(self).code_view().push(
                UOPV::Op(OpcodeV::Plain(Opcode::Jump(p))),
            ),
            final(self).pos@ == old(self).pos@.push(old(self).cur_pos),
            final(self).labels == old(self).labels,
            final(self).g == old(self).g,
            final(self).fields == old(self).fields,
    {
        self.write(Opcode::Jump(p));
    }

    /// The id of global `g`, adding it to the table when it is new.
    pub fn global(&mut self, g: &Global) -> (id: i32)
        requires
            distinct_entries(old(self).g.table_view()),
            old(self).g.table@.len() < i32::MAX,
        ensures
            (final(self).g.table_view(), id as int) == interned(old(self).g.table_view(), g@),
            distinct_entries(final(self).g.table_view()),
            final(self).ops == old(self).ops,
            final(self).pos == old(self).pos,
            final(self).labels == old(self).labels,
            final(self).fields == old(self).fields,
    {
        let ghost t = self.g.table_view();
        proof {
            lemma_intern_twice(t, g@);
        }
        let n = self.g.table.len();
        let mut i: usize = 0;
        while i < n
            invariant
                n == self.g.table@.len(),
                t == self.g.table_view(),
                distinct_entries(t),
                n < i32::MAX,
                i <= n,
                forall|j: int| 0 <= j < i ==> t[j] != g@,
            decreases n - i,
        {
            assert(t[i as int] == self.g.table@[i as int]@);
            if same_global(&self.g.table[i], g) {
                proof {
                    lemma_intern_found(t, g@, i as int);
                }
                return i as i32;
            }
            i = i + 1;
        }
        let gid = n as i32;
        self.g.table.push(copy_global(g));
        assert(self.g.table_view() =~= t.push(g@));
        gid
    }

    /// Appends the instruction of binary operator `op`.
    pub fn write_op(&mut self, op: &str)
        requires
            binop(op@) is Some,
        ensures
            final(self).code_view() == old(self).code_view().push(
                UOPV::Op(OpcodeV::Plain(binop(op@).unwrap())),
            ),
            final(self).pos@ == old(self).pos@.push(old(self).cur_pos),
            final(self).labels == old(self).labels,
            final(self).g == old(self).g,
            final(self).fields == old(self).fields,
    {
        let r = match parse_operator(op) {
            Some(Operator::Plus) => Some(Opcode::Add),
            Some(Operator::Minus) => Some(Opcode::Sub),
            Some(Operator::Slash) => Some(Opcode::Div),
            Some(Operator::Star) => Some(Opcode::Mul),
            Some(Operator::Percent) => Some(Opcode::Rem),
            Some(Operator::Shl) => Some(Opcode::Shl),
            Some(Operator::Shr) => Some(Opcode::Shr),
            Some(Operator::Pipe) => Some(Opcode::Or),
            Some(Operator::Amp) => Some(Opcode::And),
            Some(Operator::Caret) => Some(Opcode::Xor),
            Some(Operator::EqEq) => Some(Opcode::Eq),
            Some(Operator::NotEq) => Some(Opcode::Neq),
            Some(Operator::Gt) => Some(Opcode::Gt),
            Some(Operator::Gte) => Some(Opcode::Gte),
            Some(Operator::Lt) => Some(Opcode::Lt),
            Some(Operator::Lte) => Some(Opcode::Lte),
            _ => None,
        };
        match r {
            Some(code) => self.write(code),
            None => {},
        }
    }

    /// Appends the instruction that reads `acc`; a field's name is recorded
    /// under its key.
    pub fn access_get(&mut self, acc: Access)
        ensures
            final(self).code_view() == old(self).code_view().push(
                UOPV::Op(OpcodeV::Plain(load_op(acc))),
            ),
            final(self).fields@ == fields_after(old(self).fields@, acc),
            final(self).pos@ == old(self).pos@.push(old(self).cur_pos),
            final(self).labels == old(self).labels,
            final(self).g == old(self).g,
    {
        match acc {
            Access::Env(i) => self.write(Opcode::LdEnv(i as u32)),
            Access::Stack(i) => self.write(Opcode::LdLocal(i as u32)),
            Access::Global(g) => self.write(Opcode::LdGlobal(g as u32)),
            Access::Field(f) => {
                let h = hash_str(f.as_str());
                self.fields.insert(h, f.clone());
                self.write(Opcode::LdField(h));
            },
            Access::Index(i) => self.write(Opcode::LdIndex(i as u32)),
            Access::This => self.write(Opcode::LdThis),
            Access::Array => self.write(Opcode::LdArray),
        }
    }

    /// Appends the instruction that writes `acc`; a field's name is recorded
    /// under its key.
    pub fn access_set(&mut self, acc: Access)
        ensures
            final(self).code_view() == old(self).code_view().push(
                UOPV::Op(OpcodeV::Plain(store_op(acc))),
            ),
            final(self).fields@ == fields_after(old(self).fields@, acc),
            final(self).pos@ == old(self).pos@.push(old(self).cur_pos),
            final(self).labels == old(self).labels,
            final(self).g == old(self).g,
    {
        match acc {
            Access::Env(n) => self.write(Opcode::SetEnv(n as u32)),
            Access::Stack(l) => self.write(Opcode::SetLocal(l as u32)),
            Access::Global(g) => self.write(Opcode::SetGlobal(g as u32)),
            Access::Field(f) => {
                let h = hash_str(f.as_str());
                self.fields.insert(h, f.clone());
                self.write(Opcode::SetField(h));
            },
            Access::Index(i) => self.write(Opcode::SetIndex(i as u32)),
            Access::This => self.write(Opcode::SetThis),
            Access::Array => self.write(Opcode::SetArray),
        }
    }

    /// Places every marked label at its mark, then lowers the buffer to
    /// instructions, each jump going to its label's position.
    pub fn finish(&mut self) -> (ops: Vec<Opcode>)
        requires
            forall|i: int|
                0 <= i < old(self).code_view().len() ==> (#[trigger] uop_label(
                    old(self).code_view()[i],
                ) matches Some(l) ==> placed(
                    place_labels(
                        old(self).label_view(),
                        marks(old(self).code_view()),
                        old(self).code_view().len() as int,
                    ),
                    l,
                )),
        ensures
            final(self).label_view() == place_labels(
                old(self).label_view(),
                marks(old(self).code_view()),
                old(self).code_view().len() as int,
            ),
            ops@.len() == old(self).code_view().len(),
            forall|i: int|
                0 <= i < ops@.len() ==> #[trigger] ops@[i]@ == lower(
                    final(self).label_view(),
                    old(self).code_view()[i],
                ),
            final(self).ops == old(self).ops,
            final(self).pos == old(self).pos,
            final(self).g == old(self).g,
            final(self).fields == old(self).fields,
    {
        let ghost t0 = self.label_view();
        let ghost code = self.code_view();
        let n = self.ops.len();
        let mut idx: usize = 0;
        while idx < n
            invariant
                self.ops == old(self).ops,
                self.pos == old(self).pos,
                self.g == old(self).g,
                self.fields == old(self).fields,
                n == self.ops@.len(),
                code == self.code_view(),
                idx <= n,
                self.label_view() == place_labels(t0, marks(code), idx as int),
            decreases n - idx,
        {
            proof {
                assert(code[idx as int] == self.ops@[idx as int]@);
            }
            match &self.ops[idx] {
                UOP::Label(l) => {
                    let pos = idx;
                    slot_insert(&mut self.labels, l.clone(), Some(pos));
                },
                _ => {},
            }
            idx = idx + 1;
        }
        let ghost t1 = self.label_view();
        let mut out: Vec<Opcode> = Vec::new();
        let mut i: usize = 0;
        while i < n
            invariant
                self.ops == old(self).ops,
                n == self.ops@.len(),
                code == self.code_view(),
                t1 == self.label_view(),
                t1 == place_labels(t0, marks(code), n as int),
                forall|j: int|
                    0 <= j < code.len() ==> (#[trigger] uop_label(code[j]) matches Some(l)
                        ==> placed(t1, l)),
                i <= n,
                out@.len() == i,
                forall|j: int| 0 <= j < i ==> #[trigger] out@[j]@ == lower(t1, code[j]),
            decreases n - i,
        {
            proof {
                assert(code[i as int] == self.ops@[i as int]@);
                assert(uop_label(code[i as int]) == uop_label(self.ops@[i as int]@));
            }
            let op = match &self.ops[i] {
                UOP::Op(op) => copy_opcode(op),
                UOP::Goto(lbl) => Opcode::Jump(slot_get(&self.labels, lbl).unwrap().unwrap() as u32),
                UOP::GotoF(lbl) => Opcode::JumpIfNot(
                    slot_get(&self.labels, lbl).unwrap().unwrap() as u32,
                ),
                UOP::GotoT(lbl) => Opcode::JumpIf(slot_get(&self.labels, lbl).unwrap().unwrap() as u32),
                UOP::Label(_) => Opcode::Nop,
            };
            out.push(op);
            i = i + 1;
        }
        out
    }
}

} // verus!
