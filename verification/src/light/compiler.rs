//! The compiler's code buffer: instructions and jumps to named labels, and
//! their lowering to plain instructions once every label has a place.

use vstd::prelude::*;
use hashlink::LinkedHashMap;
use crate::labels::{decimal, label_pos, place_labels, placed, usize_to_string};
use crate::lhm::{
    label_slots, label_slots_get, label_slots_insert, label_slots_len, label_slots_new, lhm_insert,
};
use crate::light::opcodes::Opcode;
use crate::light::value::{Constant, ConstantV};

verus! {

/// An instruction, or a jump to a label to be resolved when the code is
/// finished.
#[derive(Clone, Debug)]
pub enum UOP {
    Goto(String),
    GotoF(String),
    GotoT(String),
    Label(String),
    PAddr(String),
    BEnd,
    BStart,
    Op(Opcode),
}

/// An entry of the code buffer as the contracts see it.
pub enum UOPV {
    Goto(Seq<char>),
    GotoF(Seq<char>),
    GotoT(Seq<char>),
    Label(Seq<char>),
    PAddr(Seq<char>),
    BEnd,
    BStart,
    Op(Opcode),
}

impl View for UOP {
    type V = UOPV;

    open spec fn view(&self) -> UOPV {
        match self {
            UOP::Goto(l) => UOPV::Goto(l@),
            UOP::GotoF(l) => UOPV::GotoF(l@),
            UOP::GotoT(l) => UOPV::GotoT(l@),
            UOP::Label(l) => UOPV::Label(l@),
            UOP::PAddr(l) => UOPV::PAddr(l@),
            UOP::BEnd => UOPV::BEnd,
            UOP::BStart => UOPV::BStart,
            UOP::Op(op) => UOPV::Op(*op),
        }
    }
}

/// The label that the entry names, if it is a jump or a catch address.
pub open spec fn uop_label(u: UOPV) -> Option<Seq<char>> {
    match u {
        UOPV::Goto(l) => Some(l),
        UOPV::GotoF(l) => Some(l),
        UOPV::GotoT(l) => Some(l),
        UOPV::PAddr(l) => Some(l),
        _ => None,
    }
}

/// The label that an entry marks, if it is a label mark.
pub open spec fn uop_mark(u: UOPV) -> Option<Seq<char>> {
    match u {
        UOPV::Label(l) => Some(l),
        _ => None,
    }
}

/// The labels the entries mark.
pub open spec fn marks(code: Seq<UOPV>) -> Seq<Option<Seq<char>>> {
    code.map_values(|u: UOPV| uop_mark(u))
}

/// One entry as an instruction: a jump goes to its label's position, a
/// label mark becomes `Label`.
pub open spec fn lower(t: Seq<(Seq<char>, Option<usize>)>, u: UOPV) -> Opcode {
    match u {
        UOPV::Op(op) => op,
        UOPV::Goto(l) => Opcode::Jump(label_pos(t, l) as u32),
        UOPV::GotoF(l) => Opcode::JumpIfFalse(label_pos(t, l) as u32),
        UOPV::PAddr(l) => Opcode::PushCatch(label_pos(t, l)),
        UOPV::GotoT(l) => Opcode::JumpIf(label_pos(t, l) as u32),
        UOPV::BEnd => Opcode::BlockEnd,
        UOPV::BStart => Opcode::BlockStart,
        UOPV::Label(_) => Opcode::Label,
    }
}

/// A forward jump written as a placeholder, to be patched once its target
/// is known: `cond` tells a conditional jump (taken when the value is `cond`)
/// from a plain one.
pub struct PendingJump {
    pub at: usize,
    pub cond: Option<bool>,
}

/// The jump a pending jump becomes when patched with the distance `d`.
pub open spec fn patched(cond: Option<bool>, d: u32) -> Opcode {
    match cond {
        Some(true) => Opcode::JumpIf(d),
        Some(false) => Opcode::JumpIfFalse(d),
        None => Opcode::Jump(d),
    }
}

/// The compiler's state as the contracts see it, with the module's
/// constants and symbols: the code buffer, the labels, the functions
/// compiled so far (their code, their constant's slot and their
/// parameters), the labels `break` and `continue` go to, and the label
/// `return` goes to.
pub struct LState {
    pub code: Seq<UOPV>,
    pub labels: Seq<(Seq<char>, Option<usize>)>,
    pub functions: Seq<(Seq<UOPV>, u32, Seq<Seq<char>>)>,
    pub breaks: Seq<Seq<char>>,
    pub continues: Seq<Seq<char>>,
    pub ret: Seq<char>,
    pub constants: Seq<ConstantV>,
    pub symbols: Seq<Seq<char>>,
}

impl LState {
    /// The state with `u` appended to the code.
    pub open spec fn pushed(self, u: UOPV) -> LState {
        LState { code: self.code.push(u), ..self }
    }

    /// The state with an instruction appended.
    pub open spec fn wrote(self, op: Opcode) -> LState {
        self.pushed(UOPV::Op(op))
    }

    /// A fresh label, named by the number of labels, registered unplaced;
    /// with its name.
    pub open spec fn new_label(self) -> (LState, Seq<char>) {
        let name = decimal(self.labels.len());
        (LState { labels: lhm_insert(self.labels, name, None), ..self }, name)
    }
}

/// The compiler's code buffer, its label table, the functions compiled so
/// far, the labels `break` and `continue` go to, and the label `return`
/// goes to.
pub struct Compiler {
    pub code: Vec<UOP>,
    pub labels: LinkedHashMap<String, Option<usize>>,
    pub functions: Vec<(Vec<UOP>, u32, Vec<String>)>,
    pub breaks: Vec<String>,
    pub continues: Vec<String>,
    pub ret: String,
}

impl Compiler {
    /// The code buffer as the contracts see it.
    pub open spec fn code_view(&self) -> Seq<UOPV> {
        self.code@.map_values(|u: UOP| u@)
    }

    /// The whole state as the contracts see it, with the module's constants
    /// and symbols.
    pub open spec fn lview(&self, constants: Seq<Constant>, symbols: Seq<Seq<char>>) -> LState {
        LState {
            code: self.code_view(),
            labels: label_slots(self.labels),
            functions: self.functions@.map_values(
                |f: (Vec<UOP>, u32, Vec<String>)|
                    (f.0@.map_values(|u: UOP| u@), f.1, f.2@.map_values(|a: String| a@)),
            ),
            breaks: self.breaks@.map_values(|l: String| l@),
            continues: self.continues@.map_values(|l: String| l@),
            ret: self.ret@,
            constants: constants.map_values(|c: Constant| c@),
            symbols,
        }
    }

    /// An empty buffer with no label, no function, and no loop around it.
    pub fn new() -> (c: Compiler)
        ensures
            c.code_view() == Seq::<UOPV>::empty(),
            label_slots(c.labels) == Seq::<(Seq<char>, Option<usize>)>::empty(),
            c.functions@.len() == 0,
            c.breaks@.len() == 0,
            c.continues@.len() == 0,
            c.ret@ == Seq::<char>::empty(),
    {
        let c = Compiler {
            code: Vec::new(),
            labels: label_slots_new(),
            functions: Vec::new(),
            breaks: Vec::new(),
            continues: Vec::new(),
            ret: String::new(),
        };
        assert(c.code_view() =~= Seq::<UOPV>::empty());
        c
    }

    /// The position the next entry takes.
    pub fn pos(&self) -> (p: usize)
        ensures
            p == self.code@.len(),
    {
        self.code.len()
    }

    pub(crate) fn push(&mut self, u: UOP)
        ensures
            final(self).code_view() == old(self).code_view().push(u@),
            final(self).labels == old(self).labels,
            final(self).functions == old(self).functions,
            final(self).breaks == old(self).breaks,
            final(self).continues == old(self).continues,
            final(self).ret == old(self).ret,
    {
        let ghost before = self.code_view();
        self.code.push(u);
        assert(self.code_view() =~= before.push(u@));
    }

    /// Appends a jump to label `to`.
    pub fn emit_goto(&mut self, to: &str)
        ensures
            final(self).code_view() == old(self).code_view().push(UOPV::Goto(to@)),
            final(self).labels == old(self).labels,
            final(self).functions == old(self).functions,
            final(self).breaks == old(self).breaks,
            final(self).continues == old(self).continues,
            final(self).ret == old(self).ret,
    {
        self.push(UOP::Goto(to.to_owned()));
    }

    /// Appends a jump to label `to` taken when the value is false.
    pub fn emit_gotof(&mut self, to: &str)
        ensures
            final(self).code_view() == old(self).code_view().push(UOPV::GotoF(to@)),
            final(self).labels == old(self).labels,
            final(self).functions == old(self).functions,
            final(self).breaks == old(self).breaks,
            final(self).continues == old(self).continues,
            final(self).ret == old(self).ret,
    {
        self.push(UOP::GotoF(to.to_owned()));
    }

    /// Appends the pushing of label `t` as a catch address.
    pub fn emit_paddr(&mut self, t: &str)
        ensures
            final(self).code_view() == old(self).code_view().push(UOPV::PAddr(t@)),
            final(self).labels == old(self).labels,
            final(self).functions == old(self).functions,
            final(self).breaks == old(self).breaks,
            final(self).continues == old(self).continues,
            final(self).ret == old(self).ret,
    {
        self.push(UOP::PAddr(t.to_owned()));
    }

    /// Appends a jump to label `to` taken when the value is true.
    pub fn emit_gotot(&mut self, to: &str)
        ensures
            final(self).code_view() == old(self).code_view().push(UOPV::GotoT(to@)),
            final(self).labels == old(self).labels,
            final(self).functions == old(self).functions,
            final(self).breaks == old(self).breaks,
            final(self).continues == old(self).continues,
            final(self).ret == old(self).ret,
    {
        self.push(UOP::GotoT(to.to_owned()));
    }

    /// Appends an instruction.
    pub fn write(&mut self, op: Opcode)
        ensures
            final(self).code_view() == old(self).code_view().push(UOPV::Op(op)),
            final(self).labels == old(self).labels,
            final(self).functions == old(self).functions,
            final(self).breaks == old(self).breaks,
            final(self).continues == old(self).continues,
            final(self).ret == old(self).ret,
    {
        self.push(UOP::Op(op));
    }

    /// Writes a placeholder jump, to be patched into a jump taken when the
    /// value is `cond`.
    pub fn cjmp(&mut self, cond: bool) -> (j: PendingJump)
        ensures
            j.at == old(self).code@.len(),
            j.cond == Some(cond),
            final(self).code_view() == old(self).code_view().push(UOPV::Op(Opcode::Jump(0))),
            final(self).labels == old(self).labels,
            final(self).functions == old(self).functions,
            final(self).breaks == old(self).breaks,
            final(self).continues == old(self).continues,
            final(self).ret == old(self).ret,
    {
        let p: usize = self.pos();
        self.write(Opcode::Jump(0));
        PendingJump { at: p, cond: Some(cond) }
    }

    /// Writes a placeholder jump, to be patched into a plain jump.
    pub fn jmp(&mut self) -> (j: PendingJump)
        ensures
            j.at == old(self).code@.len(),
            j.cond == None::<bool>,
            final(self).code_view() == old(self).code_view().push(UOPV::Op(Opcode::Jump(0))),
            final(self).labels == old(self).labels,
            final(self).functions == old(self).functions,
            final(self).breaks == old(self).breaks,
            final(self).continues == old(self).continues,
            final(self).ret == old(self).ret,
    {
        let p: usize = self.pos();
        self.write(Opcode::Jump(0));
        PendingJump { at: p, cond: None }
    }

    /// A fresh label, named by the number of labels so far, not yet placed.
    pub fn new_empty_label(&mut self) -> (name: String)
        ensures
            name@ == decimal(label_slots(old(self).labels).len()),
            label_slots(final(self).labels) == lhm_insert(
                label_slots(old(self).labels),
                name@,
                None,
            ),
            final(self).code == old(self).code,
            final(self).functions == old(self).functions,
            final(self).breaks == old(self).breaks,
            final(self).continues == old(self).continues,
            final(self).ret == old(self).ret,
    {
        let lab_name = usize_to_string(label_slots_len(&self.labels));
        label_slots_insert(&mut self.labels, lab_name.clone(), None);
        lab_name
    }

    /// Marks the current position as the place of `label`.
    pub fn label_here(&mut self, label: &str)
        ensures
            final(self).code_view() == old(self).code_view().push(UOPV::Label(label@)),
            final(self).labels == old(self).labels,
            final(self).functions == old(self).functions,
            final(self).breaks == old(self).breaks,
            final(self).continues == old(self).continues,
            final(self).ret == old(self).ret,
    {
        self.push(UOP::Label(label.to_owned()));
    }

    /// Appends a jump by `p` minus the current position.
    pub fn goto(&mut self, p: u32)
        requires
            p >= old(self).code@.len() as u32,
        ensures
            final(self).code_view() == old(self).code_view().push(
                UOPV::Op(Opcode::Jump((p - old(self).code@.len() as u32) as u32)),
            ),
            final(self).labels == old(self).labels,
    {
        let here = self.pos() as u32;
        self.write(Opcode::Jump(p - here));
    }

    /// Places every marked label at its mark, then lowers the buffer to
    /// instructions, each jump going to its label's position.
    pub fn finish(&mut self) -> (ops: Vec<Opcode>)
        requires
            forall|i: int|
                0 <= i < old(self).code_view().len() ==> (#[trigger] uop_label(
                    old(self).code_view()[i],
                ) matches Some(l) ==> placed(
                    place_labels(
                        label_slots(old(self).labels),
                        marks(old(self).code_view()),
                        old(self).code_view().len() as int,
                    ),
                    l,
                )),
        ensures
            label_slots(final(self).labels) == place_labels(
                label_slots(old(self).labels),
                marks(old(self).code_view()),
                old(self).code_view().len() as int,
            ),
            ops@.len() == old(self).code_view().len(),
            forall|i: int|
                0 <= i < ops@.len() ==> #[trigger] ops@[i] == lower(
                    label_slots(final(self).labels),
                    old(self).code_view()[i],
                ),
            final(self).code == old(self).code,
    {
        let ghost t0 = label_slots(self.labels);
        let ghost code = self.code_view();
        let n = self.code.len();
        let mut idx: usize = 0;
        while idx < n
            invariant
                self.code == old(self).code,
                n == self.code@.len(),
                code == self.code_view(),
                idx <= n,
                label_slots(self.labels) == place_labels(t0, marks(code), idx as int),
            decreases n - idx,
        {
            proof {
                assert(code[idx as int] == self.code@[idx as int]@);
                assert(marks(code)[idx as int] == uop_mark(code[idx as int]));
            }
            match &self.code[idx] {
                UOP::Label(l) => {
                    let pos = idx;
                    label_slots_insert(&mut self.labels, l.clone(), Some(pos));
                },
                _ => {},
            }
            idx = idx + 1;
        }
        let ghost t1 = label_slots(self.labels);
        let mut out: Vec<Opcode> = Vec::new();
        let mut i: usize = 0;
        while i < n
            invariant
                self.code == old(self).code,
                n == self.code@.len(),
                code == self.code_view(),
                t1 == label_slots(self.labels),
                t1 == place_labels(t0, marks(code), n as int),
                forall|j: int|
                    0 <= j < code.len() ==> (#[trigger] uop_label(code[j]) matches Some(l)
                        ==> placed(t1, l)),
                i <= n,
                out@.len() == i,
                forall|j: int| 0 <= j < i ==> #[trigger] out@[j] == lower(t1, code[j]),
            decreases n - i,
        {
            proof {
                assert(code[i as int] == self.code@[i as int]@);
                assert(uop_label(code[i as int]) == uop_label(self.code@[i as int]@));
            }
            let op = match &self.code[i] {
                UOP::Op(op) => *op,
                UOP::Goto(lbl) => Opcode::Jump(label_slots_get(&self.labels, lbl.as_str()).unwrap().unwrap() as u32),
                UOP::GotoF(lbl) => Opcode::JumpIfFalse(label_slots_get(&self.labels, lbl.as_str()).unwrap().unwrap() as u32),
                UOP::PAddr(lbl) => Opcode::PushCatch(label_slots_get(&self.labels, lbl.as_str()).unwrap().unwrap()),
                UOP::GotoT(lbl) => Opcode::JumpIf(label_slots_get(&self.labels, lbl.as_str()).unwrap().unwrap() as u32),
                UOP::BEnd => Opcode::BlockEnd,
                UOP::BStart => Opcode::BlockStart,
                UOP::Label(_) => Opcode::Label,
            };
            out.push(op);
            i = i + 1;
        }
        out
    }
}

impl PendingJump {
    /// Patches the placeholder into its jump, by the distance from the
    /// placeholder to the current end of the code.
    pub fn resolve(&self, c: &mut Compiler)
        requires
            self.at < old(c).code@.len(),
        ensures
            final(c).code_view() == old(c).code_view().update(
                self.at as int,
                UOPV::Op(patched(self.cond, (old(c).code@.len() - self.at) as u32)),
            ),
            final(c).labels == old(c).labels,
    {
        let p2 = c.pos() - self.at;
        let op = match self.cond {
            Some(true) => Opcode::JumpIf(p2 as u32),
            Some(false) => Opcode::JumpIfFalse(p2 as u32),
            None => Opcode::Jump(p2 as u32),
        };
        let ghost before = c.code_view();
        c.code.set(self.at, UOP::Op(op));
        assert(c.code_view() =~= before.update(self.at as int, UOPV::Op(op)));
    }
}

} // verus!
