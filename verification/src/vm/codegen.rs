//! The code generator's code buffer for the stack machine: instructions and
//! jumps to named labels, lowered to instructions once every label has a
//! place.

use vstd::prelude::*;
use hashlink::LinkedHashMap;
use crate::labels::{decimal, label_pos, place_labels, placed, usize_to_string};
use crate::lhm::{
    find_key, lemma_find_key_bounds, label_slots, label_slots_get, label_slots_insert, label_slots_len, label_slots_new,
    lhm_get, lhm_insert, string_ids, string_ids_new,
};
use crate::operators::{Operator, operator_of, parse_operator};
use crate::vm::Module;
use crate::vm::opcode::{Op, OpV, copy_op};
use crate::vm::value::{Function, Value, ValueV};
use std::collections::HashMap;

verus! {

/// An instruction, or a jump to a label to be resolved when the code is
/// finished.
#[derive(Clone)]
pub enum UOP {
    Goto(String),
    GotoF(String),
    GotoT(String),
    Label(String),
    PAddr(String),
    Op(Op),
}

/// An entry of the code buffer as the contracts see it.
pub enum UOPV {
    Goto(Seq<char>),
    GotoF(Seq<char>),
    GotoT(Seq<char>),
    Label(Seq<char>),
    PAddr(Seq<char>),
    Op(OpV),
}

impl View for UOP {
    type V = UOPV;

    open spec fn view(&self) -> UOPV {
        match self {
            UOP::Goto(l) => UOPV::Goto(l@),
            UOP::GotoF(l) => UOPV::GotoF(l@),
            UOP::GotoT(l) => UOPV::GotoT(l@),
            UOP::Label(l) => UOPV::Label(l@),
            UOP::PAddr(l) => UOPV::PAddr(l@),
            UOP::Op(op) => UOPV::Op(op@),
        }
    }
}

/// The label that the entry names, if it is a jump or a catch address.
pub open spec fn uop_label(u: UOPV) -> Option<Seq<char>> {
    match u {
        UOPV::Goto(l) => Some(l),
        UOPV::GotoF(l) => Some(l),
        UOPV::GotoT(l) => Some(l),
        UOPV::PAddr(l) => Some(l),
        _ => None,
    }
}

/// The labels the entries mark.
pub open spec fn marks(code: Seq<UOPV>) -> Seq<Option<Seq<char>>> {
    code.map_values(
        |u: UOPV|
            match u {
                UOPV::Label(l) => Some(l),
                _ => None,
            },
    )
}

/// One entry as an instruction: a jump goes to its label's position, a
/// label mark becomes `Nop`.
pub open spec fn lower(t: Seq<(Seq<char>, Option<usize>)>, u: UOPV) -> OpV {
    match u {
        UOPV::Op(op) => op,
        UOPV::PAddr(l) => OpV::Plain(Op::CatchPush(label_pos(t, l) as u32)),
        UOPV::Goto(l) => OpV::Plain(Op::Jump(label_pos(t, l) as u32)),
        UOPV::GotoF(l) => OpV::Plain(Op::JumpIfNot(label_pos(t, l) as u32)),
        UOPV::GotoT(l) => OpV::Plain(Op::JumpIf(label_pos(t, l) as u32)),
        UOPV::Label(_) => OpV::Plain(Op::Nop),
    }
}

/// A global of the compiled program: a variable, a function (its address
/// and argument count), a string, or a float by its bit pattern.
pub enum Global {
    Var(String),
    Func(i32, i32),
    Str(String),
    Float(u64),
}

/// A global as the contracts see it.
pub enum GlobalV {
    Var(Seq<char>),
    Func(i32, i32),
    Str(Seq<char>),
    Float(u64),
}

impl View for Global {
    type V = GlobalV;

    open spec fn view(&self) -> GlobalV {
        match self {
            Global::Var(s) => GlobalV::Var(s@),
            Global::Func(a, n) => GlobalV::Func(*a, *n),
            Global::Str(s) => GlobalV::Str(s@),
            Global::Float(x) => GlobalV::Float(*x),
        }
    }
}

/// Whether two globals are the same.
pub fn same_global(a: &Global, b: &Global) -> (r: bool)
    ensures
        r == (a@ == b@),
{
    match (a, b) {
        (Global::Var(x), Global::Var(y)) => *x == *y,
        (Global::Func(x1, x2), Global::Func(y1, y2)) => *x1 == *y1 && *x2 == *y2,
        (Global::Str(x), Global::Str(y)) => *x == *y,
        (Global::Float(x), Global::Float(y)) => *x == *y,
        _ => false,
    }
}

/// A copy of a global.
pub fn copy_global(g: &Global) -> (r: Global)
    ensures
        r@ == g@,
{
    match g {
        Global::Var(s) => Global::Var(s.clone()),
        Global::Func(a, n) => Global::Func(*a, *n),
        Global::Str(s) => Global::Str(s.clone()),
        Global::Float(x) => Global::Float(*x),
    }
}

/// The globals of the compiled program, each with the id of its place in
/// the table; `map` gives the id a global is known by (a named function's
/// variable is known by its function's id), and `functions` holds each
/// compiled function's code with its global id and parameter count.
pub struct Globals {
    pub map: Vec<(Global, i32)>,
    pub table: Vec<Global>,
    pub functions: Vec<(Vec<UOP>, i32, i32)>,
}

impl Globals {
    /// The table as the contracts see it.
    pub open spec fn table_view(&self) -> Seq<GlobalV> {
        self.table@.map_values(|g: Global| g@)
    }

    /// The map from globals to ids as the contracts see it.
    pub open spec fn map_view(&self) -> Seq<(GlobalV, i32)> {
        self.map@.map_values(|e: (Global, i32)| (e.0@, e.1))
    }

    /// The compiled functions as the contracts see them.
    pub open spec fn functions_view(&self) -> Seq<(Seq<UOPV>, i32, i32)> {
        self.functions@.map_values(
            |f: (Vec<UOP>, i32, i32)| (f.0@.map_values(|u: UOP| u@), f.1, f.2),
        )
    }
}

/// The place of global `g` in a list-held map, as `find_key` gives it.
pub(crate) fn gmap_find(m: &Vec<(Global, i32)>, g: &Global) -> (r: Option<usize>)
    ensures
        match r {
            Some(i) => i as int == find_key(m@.map_values(|e: (Global, i32)| (e.0@, e.1)), g@),
            None => find_key(m@.map_values(|e: (Global, i32)| (e.0@, e.1)), g@) == -1,
        },
{
    let ghost v = m@.map_values(|e: (Global, i32)| (e.0@, e.1));
    let mut found: Option<usize> = None;
    let mut i: usize = 0;
    while i < m.len()
        invariant
            v == m@.map_values(|e: (Global, i32)| (e.0@, e.1)),
            i <= m@.len(),
            match found {
                Some(j) => j as int == find_key(v.take(i as int), g@),
                None => find_key(v.take(i as int), g@) == -1,
            },
        decreases m@.len() - i,
    {
        assert(v.take(i + 1).drop_last() =~= v.take(i as int));
        assert(v.take(i + 1).last() == v[i as int]);
        if same_global(&m[i].0, g) {
            found = Some(i);
        }
        i = i + 1;
    }
    assert(v.take(m@.len() as int) =~= v);
    found
}

/// Stores id `id` for global `g` in a list-held map, as hashlink's
/// `insert` does: an earlier entry for `g` leaves, the new one goes last.
pub(crate) fn gmap_insert(m: &mut Vec<(Global, i32)>, g: Global, id: i32)
    ensures
        final(m)@.map_values(|e: (Global, i32)| (e.0@, e.1)) == lhm_insert(
            old(m)@.map_values(|e: (Global, i32)| (e.0@, e.1)),
            g@,
            id,
        ),
{
    let ghost before = m@.map_values(|e: (Global, i32)| (e.0@, e.1));
    proof {
        lemma_find_key_bounds(before, g@);
    }
    match gmap_find(m, &g) {
        Some(i) => {
            m.remove(i);
            assert(m@.map_values(|e: (Global, i32)| (e.0@, e.1)) =~= before.remove(i as int));
        },
        None => {},
    }
    let ghost mid = m@.map_values(|e: (Global, i32)| (e.0@, e.1));
    m.push((g, id));
    assert(m@.map_values(|e: (Global, i32)| (e.0@, e.1)) =~= mid.push((g@, id)));
}

/// The value a global stands for in a module's global table: a function
/// at its address, a string, a float; a variable starts as null.
pub open spec fn global_value(g: GlobalV) -> ValueV {
    match g {
        GlobalV::Func(off, nargs) => ValueV::Plain(
            Value::Function(Function { native: false, address: off as usize, argc: nargs }),
        ),
        GlobalV::Str(s) => ValueV::Str(s),
        GlobalV::Float(x) => ValueV::Plain(Value::Float(x)),
        GlobalV::Var(_) => ValueV::Plain(Value::Null),
    }
}

/// The instruction of an operator.
pub open spec fn operator_instruction(o: Operator) -> Op {
    match o {
        Operator::AndAnd => Op::And,
        Operator::OrOr => Op::Or,
        Operator::Plus => Op::Add,
        Operator::Minus => Op::Sub,
        Operator::Slash => Op::Div,
        Operator::Star => Op::Mul,
        Operator::Percent => Op::Mod,
        Operator::Shl => Op::Shl,
        Operator::Shr => Op::Shr,
        Operator::Pipe => Op::Or,
        Operator::Amp => Op::And,
        Operator::Caret => Op::Xor,
        Operator::EqEq => Op::Eq,
        Operator::NotEq => Op::Neq,
        Operator::Gt => Op::Gt,
        Operator::Gte => Op::Gte,
        Operator::Lt => Op::Lt,
        Operator::Lte => Op::Lte,
        Operator::Bang => Op::Not,
    }
}

/// The state of a new code generator.
pub open spec fn empty_ctx() -> CtxV {
    CtxV {
        code: Seq::empty(),
        labels: Seq::empty(),
        gmap: Seq::empty(),
        table: Seq::empty(),
        funcs: Seq::empty(),
        locals: Seq::empty(),
        env: Seq::empty(),
        upvars: Seq::empty(),
        nenv: 0,
        breaks: Seq::empty(),
        continues: Seq::empty(),
    }
}

/// The code generator's state as the contracts see it.
pub struct CtxV {
    pub code: Seq<UOPV>,
    pub labels: Seq<(Seq<char>, Option<usize>)>,
    pub gmap: Seq<(GlobalV, i32)>,
    pub table: Seq<GlobalV>,
    pub funcs: Seq<(Seq<UOPV>, i32, i32)>,
    pub locals: Seq<(Seq<char>, i32)>,
    pub env: Seq<(Seq<char>, i32)>,
    pub upvars: Seq<(Seq<char>, i32)>,
    pub nenv: i32,
    pub breaks: Seq<Seq<char>>,
    pub continues: Seq<Seq<char>>,
}

impl CtxV {
    /// The state with `u` appended to the code.
    pub open spec fn pushed(self, u: UOPV) -> CtxV {
        CtxV { code: self.code.push(u), ..self }
    }

    /// The state with an instruction appended.
    pub open spec fn wrote(self, op: Op) -> CtxV {
        self.pushed(UOPV::Op(OpV::Plain(op)))
    }

    /// A fresh label, named by the number of labels, registered unplaced;
    /// with its name.
    pub open spec fn new_label(self) -> (CtxV, Seq<char>) {
        let name = decimal(self.labels.len());
        (CtxV { labels: lhm_insert(self.labels, name, None), ..self }, name)
    }

    /// The id of global `g`, registered under the table's size (and
    /// appended to the table) when it has none; with the state after.
    pub open spec fn global(self, g: GlobalV) -> (CtxV, i32) {
        match lhm_get(self.gmap, g) {
            Some(id) => (self, id),
            None => (
                CtxV {
                    gmap: lhm_insert(self.gmap, g, self.table.len() as i32),
                    table: self.table.push(g),
                    ..self
                },
                self.table.len() as i32,
            ),
        }
    }
}

/// The code generator's code buffer, its label table, the globals, the
/// local variables and those of the enclosing function it reaches, the
/// free variables it uses, and the labels `break` and `continue` go to.
pub struct Context {
    pub g: Globals,
    pub ops: Vec<UOP>,
    pub labels: LinkedHashMap<String, Option<usize>>,
    pub locals: LinkedHashMap<String, i32>,
    pub env: LinkedHashMap<String, i32>,
    pub used_upvars: LinkedHashMap<String, i32>,
    pub nenv: i32,
    pub breaks: Vec<String>,
    pub continues: Vec<String>,
}

impl Context {
    /// The code buffer as the contracts see it.
    pub open spec fn code_view(&self) -> Seq<UOPV> {
        self.ops@.map_values(|u: UOP| u@)
    }

    /// The whole state as the contracts see it.
    pub open spec fn cview(&self) -> CtxV {
        CtxV {
            code: self.code_view(),
            labels: label_slots(self.labels),
            gmap: self.g.map_view(),
            table: self.g.table_view(),
            funcs: self.g.functions_view(),
            locals: string_ids(self.locals),
            env: string_ids(self.env),
            upvars: string_ids(self.used_upvars),
            nenv: self.nenv,
            breaks: self.breaks@.map_values(|l: String| l@),
            continues: self.continues@.map_values(|l: String| l@),
        }
    }

    /// An empty state: no code, label, global, function or variable.
    pub fn new() -> (c: Context)
        ensures
            c.code_view() == Seq::<UOPV>::empty(),
            label_slots(c.labels) == Seq::<(Seq<char>, Option<usize>)>::empty(),
            c.g.table_view() == Seq::<GlobalV>::empty(),
            c.cview() == empty_ctx(),
    {
        let c = Context {
            g: Globals { map: Vec::new(), table: Vec::new(), functions: Vec::new() },
            ops: Vec::new(),
            labels: label_slots_new(),
            locals: string_ids_new(),
            env: string_ids_new(),
            used_upvars: string_ids_new(),
            nenv: 0,
            breaks: Vec::new(),
            continues: Vec::new(),
        };
        assert(c.code_view() =~= Seq::<UOPV>::empty());
        assert(c.g.map_view() =~= Seq::<(GlobalV, i32)>::empty());
        assert(c.g.table_view() =~= Seq::<GlobalV>::empty());
        assert(c.g.functions_view() =~= Seq::<(Seq<UOPV>, i32, i32)>::empty());
        assert(c.breaks@.map_values(|l: String| l@) =~= Seq::<Seq<char>>::empty());
        assert(c.continues@.map_values(|l: String| l@) =~= Seq::<Seq<char>>::empty());
        c
    }

    /// The position the next entry takes.
    pub fn pos(&self) -> (p: usize)
        ensures
            p == self.ops@.len(),
    {
        self.ops.len()
    }

    fn push(&mut self, u: UOP)
        ensures
            final(self).code_view() == old(self).code_view().push(u@),
            final(self).cview() == old(self).cview().pushed(u@),
            final(self).labels == old(self).labels,
            final(self).g == old(self).g,
    {
        let ghost before = self.code_view();
        self.ops.push(u);
        assert(self.code_view() =~= before.push(u@));
    }

    /// Appends an instruction.
    pub fn write(&mut self, op: Op)
        ensures
            final(self).code_view() == old(self).code_view().push(UOPV::Op(op@)),
            final(self).cview() == old(self).cview().pushed(UOPV::Op(op@)),
            final(self).labels == old(self).labels,
            final(self).g == old(self).g,
    {
        self.push(UOP::Op(op));
    }

    /// Appends the pushing of label `t` as a catch address.
    pub fn emit_paddr(&mut self, t: &str)
        ensures
            final(self).code_view() == old(self).code_view().push(UOPV::PAddr(t@)),
            final(self).cview() == old(self).cview().pushed(UOPV::PAddr(t@)),
            final(self).labels == old(self).labels,
            final(self).g == old(self).g,
    {
        self.push(UOP::PAddr(t.to_owned()));
    }

    /// Appends a jump to label `to`.
    pub fn emit_goto(&mut self, to: &str)
        ensures
            final(self).code_view() == old(self).code_view().push(UOPV::Goto(to@)),
            final(self).cview() == old(self).cview().pushed(UOPV::Goto(to@)),
            final(self).labels == old(self).labels,
            final(self).g == old(self).g,
    {
        self.push(UOP::Goto(to.to_owned()));
    }

    /// Appends a jump to label `to` taken when the value is false.
    pub fn emit_gotof(&mut self, to: &str)
        ensures
            final(self).code_view() == old(self).code_view().push(UOPV::GotoF(to@)),
            final(self).cview() == old(self).cview().pushed(UOPV::GotoF(to@)),
            final(self).labels == old(self).labels,
            final(self).g == old(self).g,
    {
        self.push(UOP::GotoF(to.to_owned()));
    }

    /// Appends a jump to label `to` taken when the value is true.
    pub fn emit_gotot(&mut self, to: &str)
        ensures
            final(self).code_view() == old(self).code_view().push(UOPV::GotoT(to@)),
            final(self).cview() == old(self).cview().pushed(UOPV::GotoT(to@)),
            final(self).labels == old(self).labels,
            final(self).g == old(self).g,
    {
        self.push(UOP::GotoT(to.to_owned()));
    }

    /// A fresh label, named by the number of labels so far, not yet placed.
    pub fn new_empty_label(&mut self) -> (name: String)
        ensures
            name@ == decimal(label_slots(old(self).labels).len()),
            label_slots(final(self).labels) == lhm_insert(
                label_slots(old(self).labels),
                name@,
                None,
            ),
            final(self).ops == old(self).ops,
            final(self).g == old(self).g,
            (final(self).cview(), name@) == old(self).cview().new_label(),
    {
        let lab_name = usize_to_string(label_slots_len(&self.labels));
        label_slots_insert(&mut self.labels, lab_name.clone(), None);
        lab_name
    }

    /// Marks the current position as the place of `label`.
    pub fn label_here(&mut self, label: &str)
        ensures
            final(self).code_view() == old(self).code_view().push(UOPV::Label(label@)),
            final(self).cview() == old(self).cview().pushed(UOPV::Label(label@)),
            final(self).labels == old(self).labels,
            final(self).g == old(self).g,
    {
        self.push(UOP::Label(label.to_owned()));
    }

    /// Appends a jump to position `p`.
    pub fn goto(&mut self, p: u32)
        ensures
            final(self).code_view() == old(self).code_view().push(UOPV::Op(OpV::Plain(Op::Jump(p)))),
            final(self).cview() == old(self).cview().pushed(UOPV::Op(OpV::Plain(Op::Jump(p)))),
            final(self).labels == old(self).labels,
            final(self).g == old(self).g,
    {
        self.write(Op::Jump(p));
    }

    /// The id global `g` is known by; a new global is registered under the
    /// table's size and appended to the table.
    pub fn global(&mut self, g: &Global) -> (id: i32)
        ensures
            (final(self).cview(), id) == old(self).cview().global(g@),
            final(self).ops == old(self).ops,
            final(self).labels == old(self).labels,
    {
        proof {
            lemma_find_key_bounds(self.g.map_view(), g@);
        }
        match gmap_find(&self.g.map, g) {
            Some(i) => self.g.map[i].1,
            None => {
                let gid = self.g.table.len() as i32;
                let ghost t = self.g.table_view();
                gmap_insert(&mut self.g.map, copy_global(g), gid);
                self.g.table.push(copy_global(g));
                assert(self.g.table_view() =~= t.push(g@));
                gid
            },
        }
    }

    /// Appends the instruction of operator symbol `op`.
    pub fn write_op(&mut self, op: &str)
        requires
            operator_of(op@) is Some,
        ensures
            final(self).cview() == old(self).cview().wrote(operator_instruction(operator_of(op@).unwrap())),
            final(self).code_view() == old(self).code_view().push(
                UOPV::Op(OpV::Plain(operator_instruction(operator_of(op@).unwrap()))),
            ),
            final(self).labels == old(self).labels,
            final(self).g == old(self).g,
    {
        match parse_operator(op) {
            Some(Operator::AndAnd) => self.write(Op::And),
            Some(Operator::OrOr) => self.write(Op::Or),
            Some(Operator::Plus) => self.write(Op::Add),
            Some(Operator::Minus) => self.write(Op::Sub),
            Some(Operator::Slash) => self.write(Op::Div),
            Some(Operator::Star) => self.write(Op::Mul),
            Some(Operator::Percent) => self.write(Op::Mod),
            Some(Operator::Shl) => self.write(Op::Shl),
            Some(Operator::Shr) => self.write(Op::Shr),
            Some(Operator::Pipe) => self.write(Op::Or),
            Some(Operator::Amp) => self.write(Op::And),
            Some(Operator::Caret) => self.write(Op::Xor),
            Some(Operator::EqEq) => self.write(Op::Eq),
            Some(Operator::NotEq) => self.write(Op::Neq),
            Some(Operator::Gt) => self.write(Op::Gt),
            Some(Operator::Gte) => self.write(Op::Gte),
            Some(Operator::Lt) => self.write(Op::Lt),
            Some(Operator::Lte) => self.write(Op::Lte),
            Some(Operator::Bang) => self.write(Op::Not),
            None => {},
        }
    }

    /// Places every marked label at its mark, then lowers the buffer to
    /// instructions, each jump going to its label's position.
    pub fn finish(&mut self) -> (ops: Vec<Op>)
        requires
            forall|i: int|
                0 <= i < old(self).code_view().len() ==> (#[trigger] uop_label(
                    old(self).code_view()[i],
                ) matches Some(l) ==> placed(
                    place_labels(
                        label_slots(old(self).labels),
                        marks(old(self).code_view()),
                        old(self).code_view().len() as int,
                    ),
                    l,
                )),
        ensures
            label_slots(final(self).labels) == place_labels(
                label_slots(old(self).labels),
                marks(old(self).code_view()),
                old(self).code_view().len() as int,
            ),
            ops@.len() == old(self).code_view().len(),
            forall|i: int|
                0 <= i < ops@.len() ==> #[trigger] ops@[i]@ == lower(
                    label_slots(final(self).labels),
                    old(self).code_view()[i],
                ),
            final(self).ops == old(self).ops,
            final(self).g == old(self).g,
    {
        let ghost t0 = label_slots(self.labels);
        let ghost code = self.code_view();
        let n = self.ops.len();
        let mut idx: usize = 0;
        while idx < n
            invariant
                self.ops == old(self).ops,
                self.g == old(self).g,
                n == self.ops@.len(),
                code == self.code_view(),
                idx <= n,
                label_slots(self.labels) == place_labels(t0, marks(code), idx as int),
            decreases n - idx,
        {
            proof {
                assert(code[idx as int] == self.ops@[idx as int]@);
            }
            match &self.ops[idx] {
                UOP::Label(l) => {
                    let pos = idx;
                    label_slots_insert(&mut self.labels, l.clone(), Some(pos));
                },
                _ => {},
            }
            idx = idx + 1;
        }
        let ghost t1 = label_slots(self.labels);
        let mut out: Vec<Op> = Vec::new();
        let mut i: usize = 0;
        while i < n
            invariant
                self.ops == old(self).ops,
                n == self.ops@.len(),
                code == self.code_view(),
                t1 == label_slots(self.labels),
                t1 == place_labels(t0, marks(code), n as int),
                forall|j: int|
                    0 <= j < code.len() ==> (#[trigger] uop_label(code[j]) matches Some(l)
                        ==> placed(t1, l)),
                i <= n,
                out@.len() == i,
                forall|j: int| 0 <= j < i ==> #[trigger] out@[j]@ == lower(t1, code[j]),
            decreases n - i,
        {
            proof {
                assert(code[i as int] == self.ops@[i as int]@);
                assert(uop_label(code[i as int]) == uop_label(self.ops@[i as int]@));
            }
            let op = match &self.ops[i] {
                UOP::Op(op) => copy_op(op),
                UOP::PAddr(lbl) => Op::CatchPush(label_slots_get(&self.labels, lbl.as_str()).unwrap().unwrap() as u32),
                UOP::Goto(lbl) => Op::Jump(label_slots_get(&self.labels, lbl.as_str()).unwrap().unwrap() as u32),
                UOP::GotoF(lbl) => Op::JumpIfNot(label_slots_get(&self.labels, lbl.as_str()).unwrap().unwrap() as u32),
                UOP::GotoT(lbl) => Op::JumpIf(label_slots_get(&self.labels, lbl.as_str()).unwrap().unwrap() as u32),
                UOP::Label(_) => Op::Nop,
            };
            out.push(op);
            i = i + 1;
        }
        out
    }
}

/// The module a finished context makes: each global becomes the value it
/// stands for in the global table, the code is the finished buffer, and no
/// source positions are recorded.
pub fn module_from_context(ctx: &mut Context) -> (m: Module)
    requires
        forall|i: int|
            0 <= i < old(ctx).code_view().len() ==> (#[trigger] uop_label(
                old(ctx).code_view()[i],
            ) matches Some(l) ==> placed(
                place_labels(
                    label_slots(old(ctx).labels),
                    marks(old(ctx).code_view()),
                    old(ctx).code_view().len() as int,
                ),
                l,
            )),
    ensures
        m.globals@.len() == old(ctx).g.table@.len(),
        forall|i: int|
            0 <= i < m.globals@.len() ==> #[trigger] m.globals@[i]@ == global_value(
                old(ctx).g.table_view()[i],
            ),
        label_slots(final(ctx).labels) == place_labels(
            label_slots(old(ctx).labels),
            marks(old(ctx).code_view()),
            old(ctx).code_view().len() as int,
        ),
        m.code@.len() == old(ctx).code_view().len(),
        forall|i: int|
            0 <= i < m.code@.len() ==> #[trigger] m.code@[i]@ == lower(
                label_slots(final(ctx).labels),
                old(ctx).code_view()[i],
            ),
        m.trace_info@ == Map::<u32, (usize, String)>::empty(),
        final(ctx).ops == old(ctx).ops,
        final(ctx).g == old(ctx).g,
{
    let n = ctx.g.table.len();
    let mut globals: Vec<Value> = Vec::new();
    let mut i: usize = 0;
    while i < n
        invariant
            n == ctx.g.table@.len(),
            i <= n,
            globals@.len() == i,
            forall|j: int|
                0 <= j < i ==> #[trigger] globals@[j]@ == global_value(ctx.g.table_view()[j]),
        decreases n - i,
    {
        assert(ctx.g.table_view()[i as int] == ctx.g.table@[i as int]@);
        let v = match &ctx.g.table[i] {
            Global::Func(off, nargs) => Value::Function(
                Function { native: false, address: *off as usize, argc: *nargs },
            ),
            Global::Str(s) => Value::String(s.clone()),
            Global::Float(x) => Value::Float(*x),
            Global::Var(_) => Value::Null,
        };
        globals.push(v);
        i = i + 1;
    }
    let code = ctx.finish();
    Module { code, globals, trace_info: HashMap::new() }
}

} // verus!
