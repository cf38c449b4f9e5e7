//! Compiling a syntax tree into the code generator's buffer: each
//! expression leaves its value on the stack; jumps go to named labels,
//! globals and free variables are registered as they are met, and each
//! function is compiled into a code block of its own.
//!
//! `compiled` states what compiling an expression does to the generator's
//! state, or `None` where compiling it fails: a `break` or `continue`
//! outside a loop, an unknown binary operator, an assignment to a global or
//! to what is not a place, `new` or `hash` without an argument, or a count
//! of free variables that overflows.

use vstd::prelude::*;
use crate::lhm::{
    lhm_get, lhm_insert, label_slots, label_slots_clone, label_slots_entries, label_slots_insert,
    string_ids, string_ids_clone, string_ids_get, string_ids_insert, string_ids_keys,
    string_ids_len, string_ids_new,
};
use crate::operators::{Operator, operator_of, parse_operator};
use crate::vm::ast::{Constant, Expr};
use crate::vm::codegen::{
    Context, CtxV, Global, GlobalV, Globals, UOP, UOPV, gmap_insert,
    operator_instruction,
};
use crate::vm::opcode::{Op, OpV, copy_op};

verus! {

/// A list with its last element taken off, if it has one.
pub open spec fn popped<A>(s: Seq<A>) -> Seq<A> {
    if s.len() == 0 {
        s
    } else {
        s.drop_last()
    }
}

/// The state with a new local-variable table.
pub open spec fn with_locals(st: CtxV, locals: Seq<(Seq<char>, i32)>) -> CtxV {
    CtxV { locals, ..st }
}

/// Loading a variable: a local by its slot, a variable of the enclosing
/// function through the environment (registering it as a free variable
/// the first time), any other name as a global.
pub open spec fn ident_spec(st: CtxV, s: Seq<char>) -> Option<CtxV> {
    match lhm_get(st.locals, s) {
        Some(i) => Some(st.wrote(Op::LoadLocal(i as u16))),
        None => match lhm_get(st.env, s) {
            Some(_) => if st.nenv == i32::MAX {
                None
            } else {
                let st1 = CtxV { nenv: (st.nenv + 1) as i32, ..st };
                match lhm_get(st1.upvars, s) {
                    Some(p) => Some(st1.wrote(Op::LoadEnv(p as u16))),
                    None => {
                        let pos = st1.upvars.len();
                        let st2 = CtxV { upvars: lhm_insert(st1.upvars, s, pos as i32), ..st1 };
                        Some(st2.wrote(Op::LoadEnv(pos as u16)))
                    },
                }
            },
            None => {
                let (st1, g) = st.global(GlobalV::Var(s));
                Some(st1.wrote(Op::LoadGlobal(g as u32)))
            },
        },
    }
}

/// Loading a constant.
pub open spec fn const_spec(st: CtxV, c: Constant) -> Option<CtxV> {
    match c {
        Constant::True => Some(st.wrote(Op::LoadTrue)),
        Constant::False => Some(st.wrote(Op::LoadFalse)),
        Constant::Null => Some(st.wrote(Op::LoadNull)),
        Constant::This => Some(st.wrote(Op::LoadThis)),
        Constant::Int(n) => Some(st.wrote(Op::LoadInt(n))),
        Constant::Float(f) => {
            let (st1, pos) = st.global(GlobalV::Float(f));
            Some(st1.wrote(Op::LoadGlobal(pos as u32)))
        },
        Constant::Str(s) => {
            let (st1, pos) = st.global(GlobalV::Str(s@));
            Some(st1.wrote(Op::LoadGlobal(pos as u32)))
        },
        Constant::Ident(s) => ident_spec(st, s@),
        Constant::Builtin(name) => {
            let (st1, _g) = st.global(GlobalV::Str(name@));
            Some(st1.pushed(UOPV::Op(OpV::Builtin(name@))))
        },
    }
}

/// The number of elements of a block.
pub open spec fn block_len(e: Expr) -> int {
    match e {
        Expr::Block(v) => v@.len() as int,
        _ => 0,
    }
}

/// The number of arguments of a call.
pub open spec fn args_len(e: Expr) -> int {
    match e {
        Expr::Call(_, v) => v@.len() as int,
        _ => 0,
    }
}

/// The number of cases of a switch.
pub open spec fn cases_len(e: Expr) -> int {
    match e {
        Expr::Switch(_, v, _) => v@.len() as int,
        _ => 0,
    }
}

/// The table of a function's parameters: each by its position.
pub open spec fn param_locals(params: Seq<Seq<char>>, k: int) -> Seq<(Seq<char>, i32)>
    decreases k,
{
    if k <= 0 {
        Seq::empty()
    } else {
        lhm_insert(param_locals(params, k - 1), params[k - 1], (k - 1) as i32)
    }
}

/// The label table with the entries from `k` on added, in order.
pub open spec fn merge_labels(
    t: Seq<(Seq<char>, Option<usize>)>,
    entries: Seq<(Seq<char>, Option<usize>)>,
    k: int,
) -> Seq<(Seq<char>, Option<usize>)>
    decreases entries.len() - k,
{
    if k >= entries.len() || k < 0 {
        t
    } else {
        merge_labels(lhm_insert(t, entries[k].0, entries[k].1), entries, k + 1)
    }
}

/// Loading the free variables `names[k - 1]`, ..., `names[0]`, in that order.
pub open spec fn idents_down(st: CtxV, names: Seq<Seq<char>>, k: int) -> Option<CtxV>
    decreases k,
{
    if k <= 0 {
        Some(st)
    } else {
        match ident_spec(st, names[k - 1]) {
            Some(st1) => idents_down(st1, names, k - 1),
            None => None,
        }
    }
}

/// Compiling the elements of block `e` from the `i`-th on.
pub open spec fn block_rest(st: CtxV, e: Expr, i: int, tail: bool) -> Option<CtxV>
    decreases e, 1int, block_len(e) - i,
{
    match e {
        Expr::Block(v) => if i < 0 || i >= v@.len() {
            Some(st)
        } else {
            match compiled(st, v@[i], tail) {
                Some(st1) => block_rest(st1, e, i + 1, tail),
                None => None,
            }
        },
        _ => Some(st),
    }
}

/// Compiling the arguments `k - 1`, ..., `0` of call `e`, in that order.
pub open spec fn args_down(st: CtxV, e: Expr, k: int) -> Option<CtxV>
    decreases e, 1int, k,
{
    match e {
        Expr::Call(_, v) => if k <= 0 || k > v@.len() {
            Some(st)
        } else {
            match compiled(st, v@[k - 1], false) {
                Some(st1) => args_down(st1, e, k - 1),
                None => None,
            }
        },
        _ => Some(st),
    }
}

/// Compiling the cases of switch `e` from the `i`-th on: each compares the
/// value with its case and, when they are equal, runs its body and jumps to
/// `end`.
pub open spec fn cases_rest(st: CtxV, e: Expr, i: int, end: Seq<char>, tail: bool) -> Option<CtxV>
    decreases e, 1int, cases_len(e) - i,
{
    match e {
        Expr::Switch(value, with, _) => if i < 0 || i >= with@.len() {
            Some(st)
        } else {
            let (st1, l1) = st.new_label();
            match compiled(st1, *value, false) {
                None => None,
                Some(st2) => match compiled(st2, with@[i].0, false) {
                    None => None,
                    Some(st3) => {
                        let st4 = st3.wrote(Op::Eq).pushed(UOPV::GotoF(l1));
                        match compiled(st4, with@[i].1, tail) {
                            None => None,
                            Some(st5) => cases_rest(
                                st5.pushed(UOPV::Goto(end)).pushed(UOPV::Label(l1)),
                                e,
                                i + 1,
                                end,
                                tail,
                            ),
                        }
                    },
                },
            }
        },
        _ => Some(st),
    }
}

/// Compiling a function into a code block of its own: its parameters are
/// its first locals, the caller's locals its environment; it gets a global
/// slot (under which `vname`, if given, is known), its body is compiled in
/// tail position and returns, and the caller loads it: as it is when it
/// uses no free variable, else with an environment of those it uses.
pub open spec fn function_spec(
    st: CtxV,
    params: Seq<Seq<char>>,
    body: Expr,
    vname: Option<Seq<char>>,
) -> Option<CtxV>
    decreases body, 3int, 0int,
{
    let gid = st.table.len();
    let c0 = CtxV {
        code: Seq::empty(),
        labels: st.labels,
        gmap: match vname {
            Some(n) => lhm_insert(st.gmap, GlobalV::Var(n), gid as i32),
            None => st.gmap,
        },
        table: st.table.push(GlobalV::Func(gid as i32, -1i32)),
        funcs: st.funcs,
        locals: param_locals(params, params.len() as int),
        env: st.locals,
        upvars: Seq::empty(),
        nenv: 0,
        breaks: Seq::empty(),
        continues: Seq::empty(),
    };
    let (c1, ret) = c0.new_label();
    match compiled(c1, body, true) {
        None => None,
        Some(c2) => {
            let c3 = c2.pushed(UOPV::Label(ret)).wrote(Op::Ret);
            let st1 = CtxV {
                labels: merge_labels(st.labels, c3.labels, 0),
                gmap: c3.gmap,
                table: c3.table,
                funcs: c3.funcs.push((c3.code, gid as i32, params.len() as i32)),
                ..st
            };
            if c3.nenv > 0 {
                let names = c3.upvars.map_values(|e: (Seq<char>, i32)| e.0);
                match idents_down(st1, names, names.len() as int) {
                    None => None,
                    Some(st2) => Some(
                        st2.wrote(Op::LoadGlobal(gid as u32)).wrote(Op::MakeEnv(names.len() as u16)),
                    ),
                }
            } else {
                Some(st1.wrote(Op::LoadGlobal(gid as u32)))
            }
        },
    }
}

/// What compiling `e` does to the generator's state, `tail` telling a call
/// in tail position; `None` where compiling it fails.
pub open spec fn compiled(st: CtxV, e: Expr, tail: bool) -> Option<CtxV>
    decreases e, 2int, 0int,
{
    match e {
        Expr::Break(oe) => match oe {
            Some(x) => match compiled(st, *x, false) {
                None => None,
                Some(st1) => if st1.breaks.len() == 0 {
                    None
                } else {
                    Some(st1.pushed(UOPV::Goto(st1.breaks.last())))
                },
            },
            None => {
                let st1 = st.wrote(Op::LoadNull);
                if st1.breaks.len() == 0 {
                    None
                } else {
                    Some(st1.pushed(UOPV::Goto(st1.breaks.last())))
                }
            },
        },
        Expr::Continue => if st.continues.len() == 0 {
            None
        } else {
            Some(st.pushed(UOPV::Goto(st.continues.last())))
        },
        Expr::Const(c) => const_spec(st, c),
        Expr::Block(v) => if v@.len() == 0 {
            Some(st.wrote(Op::LoadNull))
        } else {
            match block_rest(st, e, 0, tail) {
                None => None,
                Some(st1) => Some(with_locals(st1, st.locals)),
            }
        },
        Expr::Paren(x) => compiled(st, *x, tail),
        Expr::Field(x, f) => {
            let (st1, gid) = st.global(GlobalV::Str(f@));
            match compiled(st1.wrote(Op::LoadGlobal(gid as u32)), *x, false) {
                None => None,
                Some(st2) => Some(st2.wrote(Op::Load)),
            }
        },
        Expr::Array(ea, ei) => match compiled(st, *ei, false) {
            None => None,
            Some(st1) => match compiled(st1, *ea, false) {
                None => None,
                Some(st2) => Some(st2.wrote(Op::Load)),
            },
        },
        Expr::Var(name, init) => {
            let r = match init {
                Some(x) => match *x {
                    Expr::Function(args, body) => function_spec(
                        st,
                        args@.map_values(|a: String| a@),
                        *body,
                        Some(name@),
                    ),
                    _ => compiled(st, *x, false),
                },
                None => Some(st.wrote(Op::LoadNull)),
            };
            match r {
                None => None,
                Some(st1) => {
                    let id = st1.locals.len() as u16;
                    Some(
                        with_locals(st1, lhm_insert(st1.locals, name@, id as i32)).wrote(
                            Op::StoreLocal(id),
                        ),
                    )
                },
            }
        },
        Expr::Assign(e1, e2) => match *e1 {
            Expr::Const(Constant::Ident(name)) => match lhm_get(st.locals, name@) {
                Some(l) => match compiled(st, *e2, false) {
                    None => None,
                    Some(st1) => Some(st1.wrote(Op::StoreLocal(l as u16))),
                },
                None => match lhm_get(st.env, name@) {
                    Some(n) => if st.nenv == i32::MAX {
                        None
                    } else {
                        let st1 = CtxV {
                            upvars: lhm_insert(st.upvars, name@, n),
                            nenv: (st.nenv + 1) as i32,
                            ..st
                        };
                        match compiled(st1, *e2, false) {
                            None => None,
                            Some(st2) => Some(st2.wrote(Op::StoreEnv(n as u16))),
                        }
                    },
                    None => None,
                },
            },
            Expr::Field(fe, f) => match compiled(st, *e2, false) {
                None => None,
                Some(st1) => {
                    let (st2, gid) = st1.global(GlobalV::Str(f@));
                    match compiled(st2.wrote(Op::LoadGlobal(gid as u32)), *fe, false) {
                        None => None,
                        Some(st3) => Some(st3.wrote(Op::Store)),
                    }
                },
            },
            Expr::Const(Constant::This) => match compiled(st, *e2, false) {
                None => None,
                Some(st1) => Some(st1.wrote(Op::StoreThis)),
            },
            Expr::Array(ea, ei) => match compiled(st, *e2, false) {
                None => None,
                Some(st1) => match compiled(st1, *ei, false) {
                    None => None,
                    Some(st2) => match compiled(st2, *ea, false) {
                        None => None,
                        Some(st3) => Some(st3.wrote(Op::Store)),
                    },
                },
            },
            _ => None,
        },
        Expr::Binop(op, e1, e2) => match operator_of(op@) {
            None => None,
            Some(Operator::EqEq) => if *e2 matches Expr::Const(Constant::Null) {
                match compiled(st, *e1, false) {
                    None => None,
                    Some(st1) => Some(st1.wrote(Op::IsNull)),
                }
            } else {
                match compiled(st, *e2, false) {
                    None => None,
                    Some(st1) => match compiled(st1, *e1, false) {
                        None => None,
                        Some(st2) => Some(st2.wrote(Op::Eq)),
                    },
                }
            },
            Some(Operator::NotEq) => if *e2 matches Expr::Const(Constant::Null) {
                match compiled(st, *e1, false) {
                    None => None,
                    Some(st1) => Some(st1.wrote(Op::IsNotNull)),
                }
            } else {
                match compiled(st, *e2, false) {
                    None => None,
                    Some(st1) => match compiled(st1, *e1, false) {
                        None => None,
                        Some(st2) => Some(st2.wrote(Op::Neq)),
                    },
                }
            },
            Some(Operator::AndAnd) => {
                let (st1, lf) = st.new_label();
                match compiled(st1, *e1, false) {
                    None => None,
                    Some(st2) => match compiled(st2.pushed(UOPV::GotoF(lf)), *e2, tail) {
                        None => None,
                        Some(st3) => Some(st3.pushed(UOPV::Label(lf))),
                    },
                }
            },
            Some(Operator::OrOr) => {
                let (st1, lt) = st.new_label();
                match compiled(st1, *e1, false) {
                    None => None,
                    Some(st2) => match compiled(st2.pushed(UOPV::GotoT(lt)), *e2, tail) {
                        None => None,
                        Some(st3) => Some(st3.pushed(UOPV::Label(lt))),
                    },
                }
            },
            Some(o) => match compiled(st, *e2, false) {
                None => None,
                Some(st1) => match compiled(st1, *e1, false) {
                    None => None,
                    Some(st2) => Some(st2.wrote(operator_instruction(o))),
                },
            },
        },
        Expr::Function(params, body) => function_spec(
            st,
            params@.map_values(|a: String| a@),
            *body,
            None,
        ),
        Expr::Return(oe) => match oe {
            Some(x) => match compiled(st, *x, false) {
                None => None,
                Some(st1) => Some(st1.wrote(Op::Ret)),
            },
            None => Some(st.wrote(Op::LoadNull).wrote(Op::Ret)),
        },
        Expr::While(c, b) => {
            let (st1, start) = st.new_label();
            let (st2, end) = st1.new_label();
            let st3 = CtxV {
                breaks: st2.breaks.push(end),
                continues: st2.continues.push(start),
                ..st2
            }.pushed(UOPV::Label(start));
            match compiled(st3, *c, false) {
                None => None,
                Some(st4) => match compiled(st4.pushed(UOPV::GotoF(end)), *b, false) {
                    None => None,
                    Some(st5) => {
                        let st6 = st5.pushed(UOPV::Goto(start)).pushed(UOPV::Label(end));
                        Some(
                            CtxV {
                                breaks: popped(st6.breaks),
                                continues: popped(st6.continues),
                                ..st6
                            },
                        )
                    },
                },
            }
        },
        Expr::Switch(_value, _with, default_) => {
            let (st1, orl) = st.new_label();
            let (st2, end) = st1.new_label();
            match cases_rest(st2, e, 0, end, tail) {
                None => None,
                Some(st3) => {
                    let st4 = if default_ is Some {
                        st3.pushed(UOPV::Goto(orl))
                    } else {
                        st3
                    };
                    let st5 = st4.pushed(UOPV::Label(orl));
                    match default_ {
                        Some(d) => match compiled(st5, *d, false) {
                            None => None,
                            Some(st6) => Some(
                                st6.pushed(UOPV::Goto(end)).pushed(UOPV::Label(end)),
                            ),
                        },
                        None => Some(st5.pushed(UOPV::Label(end))),
                    }
                },
            }
        },
        Expr::If(c, e1, e2) => {
            let (st1, lf) = st.new_label();
            match compiled(st1, *c, false) {
                None => None,
                Some(st2) => match compiled(st2.pushed(UOPV::GotoF(lf)), *e1, tail) {
                    None => None,
                    Some(st3) => {
                        let st4 = st3.pushed(UOPV::Label(lf));
                        match e2 {
                            Some(x) => compiled(st4, *x, tail),
                            None => Some(st4),
                        }
                    },
                },
            }
        },
        Expr::Call(f, el) => match *f {
            Expr::Const(Constant::Builtin(name)) if name@ == "new"@ || name@ == "hash"@ => if el@.len()
                == 0 {
                None
            } else {
                match compiled(st, el@[0], false) {
                    None => None,
                    Some(st1) => Some(
                        st1.wrote(
                            if name@ == "new"@ {
                                Op::New
                            } else {
                                Op::Hash
                            },
                        ),
                    ),
                }
            },
            Expr::Field(fe, fname) => match args_down(st, e, el@.len() as int) {
                None => None,
                Some(st1) => match compiled(st1, *fe, false) {
                    None => None,
                    Some(st2) => {
                        let (st3, gid) = st2.global(GlobalV::Str(fname@));
                        match compiled(st3.wrote(Op::LoadGlobal(gid as u32)), *fe, false) {
                            None => None,
                            Some(st4) => Some(
                                st4.wrote(Op::Load).wrote(Op::ObjCall(el@.len() as u16)),
                            ),
                        }
                    },
                },
            },
            _ => match args_down(st, e, el@.len() as int) {
                None => None,
                Some(st1) => match compiled(st1, *f, false) {
                    None => None,
                    Some(st2) => Some(
                        st2.wrote(
                            if !tail {
                                Op::Call(el@.len() as u16)
                            } else {
                                Op::TailCall(el@.len() as u16)
                            },
                        ),
                    ),
                },
            },
        },
        Expr::Label(l) => Some(
            CtxV { labels: lhm_insert(st.labels, l@, Some(st.code.len() as usize)), ..st },
        ),
        Expr::Goto(l) => Some(st.pushed(UOPV::Goto(l@))),
        Expr::Unop(op, x) => match compiled(st, *x, tail) {
            None => None,
            Some(st1) => match operator_of(op@) {
                Some(Operator::Minus) => Some(st1.wrote(Op::Neg)),
                Some(Operator::Bang) => Some(st1.wrote(Op::Not)),
                _ => Some(st1),
            },
        },
        Expr::Throw(x) => match compiled(st, *x, false) {
            None => None,
            Some(st1) => Some(st1.wrote(Op::Throw)),
        },
        Expr::Try(x, name, c) => {
            let (st1, cl) = st.new_label();
            let (st2, el) = st1.new_label();
            match compiled(st2.pushed(UOPV::PAddr(cl)), *x, false) {
                None => None,
                Some(st3) => {
                    let st4 = st3.pushed(UOPV::Goto(el)).pushed(UOPV::Label(cl));
                    let id = st4.locals.len() as i32;
                    let st5 = with_locals(st4, lhm_insert(st4.locals, name@, id)).wrote(
                        Op::StoreLocal(id as u16),
                    );
                    match compiled(st5, *c, tail) {
                        None => None,
                        Some(st6) => Some(with_locals(st6, st4.locals).pushed(UOPV::Label(el))),
                    }
                },
            }
        },
    }
}

/// Whether two strings are the same.
fn spells(s: &str, w: &str) -> (r: bool)
    ensures
        r == (s@ == w@),
{
    let n = s.unicode_len();
    if n != w.unicode_len() {
        return false;
    }
    let mut i: usize = 0;
    while i < n
        invariant
            n == s@.len(),
            n == w@.len(),
            i <= n,
            forall|j: int| 0 <= j < i ==> s@[j] == w@[j],
        decreases n - i,
    {
        if s.get_char(i) != w.get_char(i) {
            return false;
        }
        i = i + 1;
    }
    assert(s@ =~= w@);
    true
}

/// A copy of a code buffer's entry.
fn copy_uop(u: &UOP) -> (r: UOP)
    ensures
        r@ == u@,
{
    match u {
        UOP::Goto(l) => UOP::Goto(l.clone()),
        UOP::GotoF(l) => UOP::GotoF(l.clone()),
        UOP::GotoT(l) => UOP::GotoT(l.clone()),
        UOP::Label(l) => UOP::Label(l.clone()),
        UOP::PAddr(l) => UOP::PAddr(l.clone()),
        UOP::Op(op) => UOP::Op(copy_op(op)),
    }
}

/// A copy of a code buffer.
fn copy_uops(v: &Vec<UOP>) -> (r: Vec<UOP>)
    ensures
        r@.map_values(|u: UOP| u@) == v@.map_values(|u: UOP| u@),
{
    let mut r: Vec<UOP> = Vec::new();
    let mut i: usize = 0;
    while i < v.len()
        invariant
            i <= v@.len(),
            r@.len() == i,
            forall|j: int| 0 <= j < i ==> #[trigger] r@[j]@ == v@[j]@,
        decreases v@.len() - i,
    {
        r.push(copy_uop(&v[i]));
        i = i + 1;
    }
    assert(r@.map_values(|u: UOP| u@) =~= v@.map_values(|u: UOP| u@));
    r
}

impl Context {
    /// Loads variable `s`: a local by its slot, a variable of the enclosing
    /// function through the environment, any other name as a global.
    fn compile_ident(&mut self, s: &String)
        requires
            ident_spec(old(self).cview(), s@) is Some,
        ensures
            final(self).cview() == ident_spec(old(self).cview(), s@).unwrap(),
    {
        match string_ids_get(&self.locals, s) {
            Some(i) => self.write(Op::LoadLocal(i as u16)),
            None => match string_ids_get(&self.env, s) {
                Some(_) => {
                    self.nenv = self.nenv + 1;
                    match string_ids_get(&self.used_upvars, s) {
                        Some(p) => self.write(Op::LoadEnv(p as u16)),
                        None => {
                            let pos = string_ids_len(&self.used_upvars);
                            string_ids_insert(&mut self.used_upvars, s.clone(), pos as i32);
                            self.write(Op::LoadEnv(pos as u16));
                        },
                    }
                },
                None => {
                    let g = self.global(&Global::Var(s.clone()));
                    self.write(Op::LoadGlobal(g as u32));
                },
            },
        }
    }

    /// Loads constant `c`.
    pub fn compile_const(&mut self, c: &Constant)
        requires
            const_spec(old(self).cview(), *c) is Some,
        ensures
            final(self).cview() == const_spec(old(self).cview(), *c).unwrap(),
    {
        match c {
            Constant::True => self.write(Op::LoadTrue),
            Constant::False => self.write(Op::LoadFalse),
            Constant::Null => self.write(Op::LoadNull),
            Constant::This => self.write(Op::LoadThis),
            Constant::Int(n) => self.write(Op::LoadInt(*n)),
            Constant::Float(f) => {
                let pos = self.global(&Global::Float(*f));
                self.write(Op::LoadGlobal(pos as u32));
            },
            Constant::Str(s) => {
                let pos = self.global(&Global::Str(s.clone()));
                self.write(Op::LoadGlobal(pos as u32));
            },
            Constant::Ident(s) => self.compile_ident(s),
            Constant::Builtin(name) => {
                let _ = self.global(&Global::Str(name.clone()));
                self.write(Op::LoadBuiltin(name.clone()));
            },
        }
    }

    /// Compiles a function into a code block of its own and loads it, as
    /// `function_spec` states.
    pub fn compile_function(&mut self, params: &Vec<String>, body: &Expr, vname: Option<&str>)
        requires
            function_spec(
                old(self).cview(),
                params@.map_values(|a: String| a@),
                *body,
                match vname {
                    Some(n) => Some(n@),
                    None => None,
                },
            ) is Some,
        ensures
            final(self).cview() == function_spec(
                old(self).cview(),
                params@.map_values(|a: String| a@),
                *body,
                match vname {
                    Some(n) => Some(n@),
                    None => None,
                },
            ).unwrap(),
        decreases *body, 3int,
    {
        let ghost st = self.cview();
        let ghost pv = params@.map_values(|a: String| a@);
        let mut locals = string_ids_new();
        let mut idx: usize = 0;
        while idx < params.len()
            invariant
                idx <= params@.len(),
                pv == params@.map_values(|a: String| a@),
                string_ids(locals) == param_locals(pv, idx as int),
            decreases params@.len() - idx,
        {
            string_ids_insert(&mut locals, params[idx].clone(), idx as i32);
            idx = idx + 1;
        }
        let mut ctx = Context {
            g: Globals { map: Vec::new(), table: Vec::new(), functions: Vec::new() },
            ops: Vec::new(),
            labels: label_slots_clone(&self.labels),
            locals,
            env: string_ids_clone(&self.locals),
            used_upvars: string_ids_new(),
            nenv: 0,
            breaks: Vec::new(),
            continues: Vec::new(),
        };
        assert(ctx.code_view() =~= Seq::<UOPV>::empty());
        assert(ctx.breaks@.map_values(|l: String| l@) =~= Seq::<Seq<char>>::empty());
        assert(ctx.continues@.map_values(|l: String| l@) =~= Seq::<Seq<char>>::empty());
        std::mem::swap(&mut ctx.g, &mut self.g);
        let gid = ctx.g.table.len();
        match vname {
            Some(n) => gmap_insert(&mut ctx.g.map, Global::Var(n.to_owned()), gid as i32),
            None => {},
        }
        let ghost t = ctx.g.table_view();
        ctx.g.table.push(Global::Func(gid as i32, -1));
        assert(ctx.g.table_view() =~= t.push(GlobalV::Func(gid as i32, -1i32)));
        let ghost vn: Option<Seq<char>> = match vname {
            Some(n) => Some(n@),
            None => None,
        };
        let ghost c0 = CtxV {
            code: Seq::empty(),
            labels: st.labels,
            gmap: match vn {
                Some(n) => lhm_insert(st.gmap, GlobalV::Var(n), st.table.len() as i32),
                None => st.gmap,
            },
            table: st.table.push(GlobalV::Func(st.table.len() as i32, -1i32)),
            funcs: st.funcs,
            locals: param_locals(pv, pv.len() as int),
            env: st.locals,
            upvars: Seq::empty(),
            nenv: 0,
            breaks: Seq::empty(),
            continues: Seq::empty(),
        };
        assert(ctx.cview() == c0);
        let ret = ctx.new_empty_label();
        ctx.compile(body, true);
        ctx.label_here(&ret);
        ctx.write(Op::Ret);
        let ghost c3 = ctx.cview();
        let code = copy_uops(&ctx.ops);
        let ghost fs = ctx.g.functions_view();
        ctx.g.functions.push((code, gid as i32, params.len() as i32));
        assert(ctx.g.functions_view() =~= fs.push((c3.code, gid as i32, params.len() as i32)));
        std::mem::swap(&mut ctx.g, &mut self.g);
        let entries = label_slots_entries(&ctx.labels);
        let ghost ev = c3.labels;
        let ghost g1 = self.g;
        let mut k: usize = 0;
        while k < entries.len()
            invariant
                self.g == g1,
                self.ops == old(self).ops,
                self.locals == old(self).locals,
                self.env == old(self).env,
                self.used_upvars == old(self).used_upvars,
                self.nenv == old(self).nenv,
                self.breaks == old(self).breaks,
                self.continues == old(self).continues,
                k <= entries@.len(),
                entries@.len() == ev.len(),
                forall|j: int|
                    0 <= j < entries@.len() ==> (#[trigger] entries@[j]).0@ == ev[j].0
                        && entries@[j].1 == ev[j].1,
                merge_labels(st.labels, ev, 0) == merge_labels(label_slots(self.labels), ev, k as int),
            decreases entries@.len() - k,
        {
            label_slots_insert(&mut self.labels, entries[k].0.clone(), entries[k].1);
            k = k + 1;
        }
        proof {
            assert(merge_labels(label_slots(self.labels), ev, entries@.len() as int) == label_slots(self.labels));
        }
        let ghost st1 = CtxV {
            labels: merge_labels(st.labels, c3.labels, 0),
            gmap: c3.gmap,
            table: c3.table,
            funcs: c3.funcs.push((c3.code, gid as i32, params.len() as i32)),
            ..st
        };
        assert(self.cview() == st1);
        if ctx.nenv > 0 {
            let keys = string_ids_keys(&ctx.used_upvars);
            let ghost names = c3.upvars.map_values(|e: (Seq<char>, i32)| e.0);
            let mut i = keys.len();
            while i > 0
                invariant
                    i <= keys@.len(),
                    keys@.len() == names.len(),
                    forall|j: int| 0 <= j < keys@.len() ==> #[trigger] keys@[j]@ == names[j],
                    idents_down(st1, names, names.len() as int) == idents_down(
                        self.cview(),
                        names,
                        i as int,
                    ),
                    idents_down(st1, names, names.len() as int) is Some,
                    names == c3.upvars.map_values(|e: (Seq<char>, i32)| e.0),
                decreases i,
            {
                i = i - 1;
                self.compile_const(&Constant::Ident(keys[i].clone()));
            }
            self.write(Op::LoadGlobal(gid as u32));
            self.write(Op::MakeEnv(keys.len() as u16));
        } else {
            self.write(Op::LoadGlobal(gid as u32));
        }
    }
}

impl Context {
    /// Compiles `e` into the buffer, `tail` telling a call in tail
    /// position, as `compiled` states.
    pub fn compile(&mut self, e: &Expr, tail: bool)
        requires
            compiled(old(self).cview(), *e, tail) is Some,
        ensures
            final(self).cview() == compiled(old(self).cview(), *e, tail).unwrap(),
        decreases *e, 2int,
    {
        match e {
            Expr::Break(..) => self.compile_break(e, tail),
            Expr::Continue => {
                let n = self.continues.len();
                let c = self.continues[n - 1].clone();
                self.emit_goto(c.as_str());
            },
            Expr::Const(c) => self.compile_const(c),
            Expr::Block(..) => self.compile_block(e, tail),
            Expr::Paren(x) => self.compile(x, tail),
            Expr::Field(..) => self.compile_field(e, tail),
            Expr::Array(ea, ei) => {
                self.compile(ei, false);
                self.compile(ea, false);
                self.write(Op::Load);
            },
            Expr::Var(..) => self.compile_var(e, tail),
            Expr::Assign(..) => self.compile_assign(e, tail),
            Expr::Binop(..) => self.compile_binop(e, tail),
            Expr::Function(params, body) => self.compile_function(params, body, None),
            Expr::Return(oe) => {
                match oe {
                    Some(x) => self.compile(x, false),
                    None => self.write(Op::LoadNull),
                }
                self.write(Op::Ret);
            },
            Expr::While(..) => self.compile_while(e, tail),
            Expr::Switch(..) => self.compile_switch(e, tail),
            Expr::If(..) => self.compile_if(e, tail),
            Expr::Call(..) => self.compile_call(e, tail),
            Expr::Label(label) => {
                let p = self.pos();
                label_slots_insert(&mut self.labels, label.clone(), Some(p));
            },
            Expr::Goto(label) => self.emit_goto(label.as_str()),
            Expr::Unop(op, x) => {
                self.compile(x, tail);
                match parse_operator(op.as_str()) {
                    Some(Operator::Minus) => self.write(Op::Neg),
                    Some(Operator::Bang) => self.write(Op::Not),
                    _ => {},
                }
            },
            Expr::Throw(x) => {
                self.compile(x, false);
                self.write(Op::Throw);
            },
            Expr::Try(..) => self.compile_try(e, tail),
        }
    }

    fn compile_break(&mut self, e: &Expr, tail: bool)
        requires
            *e is Break,
            compiled(old(self).cview(), *e, tail) is Some,
        ensures
            final(self).cview() == compiled(old(self).cview(), *e, tail).unwrap(),
        decreases *e, 1int,
    {
        let ghost st = self.cview();
        match e {
            Expr::Break(oe) => {
                match oe {
                    Some(x) => self.compile(x, false),
                    None => self.write(Op::LoadNull),
                }
                let n = self.breaks.len();
                let br = self.breaks[n - 1].clone();
                self.emit_goto(br.as_str());
            },
            _ => {},
        }
    }

    fn compile_block(&mut self, e: &Expr, tail: bool)
        requires
            *e is Block,
            compiled(old(self).cview(), *e, tail) is Some,
        ensures
            final(self).cview() == compiled(old(self).cview(), *e, tail).unwrap(),
        decreases *e, 1int,
    {
        let ghost st = self.cview();
        match e {
            Expr::Block(v) => {
                if v.len() == 0 {
                    self.write(Op::LoadNull);
                } else {
                    let locals = string_ids_clone(&self.locals);
                    let mut i: usize = 0;
                    while i < v.len()
                        invariant
                            *e == Expr::Block(*v),
                            i <= v@.len(),
                            block_rest(st, *e, 0, tail) == block_rest(self.cview(), *e, i as int, tail),
                            block_rest(st, *e, 0, tail) is Some,
                        decreases v@.len() - i,
                    {
                        self.compile(&v[i], tail);
                        i = i + 1;
                    }
                    self.locals = locals;
                }
            },
            _ => {},
        }
    }

    fn compile_field(&mut self, e: &Expr, tail: bool)
        requires
            *e is Field,
            compiled(old(self).cview(), *e, tail) is Some,
        ensures
            final(self).cview() == compiled(old(self).cview(), *e, tail).unwrap(),
        decreases *e, 1int,
    {
        let ghost st = self.cview();
        match e {
            Expr::Field(x, f) => {
                let gid = self.global(&Global::Str(f.clone()));
                self.write(Op::LoadGlobal(gid as u32));
                self.compile(x, false);
                self.write(Op::Load);
            },
            _ => {},
        }
    }

    fn compile_var(&mut self, e: &Expr, tail: bool)
        requires
            *e is Var,
            compiled(old(self).cview(), *e, tail) is Some,
        ensures
            final(self).cview() == compiled(old(self).cview(), *e, tail).unwrap(),
        decreases *e, 1int,
    {
        let ghost st = self.cview();
        match e {
            Expr::Var(name, init) => {
                match init {
                    Some(x) => match &**x {
                        Expr::Function(args, body) => self.compile_function(
                            args,
                            body,
                            Some(name.as_str()),
                        ),
                        _ => self.compile(x, false),
                    },
                    None => self.write(Op::LoadNull),
                }
                let id = string_ids_len(&self.locals) as u16;
                string_ids_insert(&mut self.locals, name.clone(), id as i32);
                self.write(Op::StoreLocal(id));
            },
            _ => {},
        }
    }

    fn compile_assign(&mut self, e: &Expr, tail: bool)
        requires
            *e is Assign,
            compiled(old(self).cview(), *e, tail) is Some,
        ensures
            final(self).cview() == compiled(old(self).cview(), *e, tail).unwrap(),
        decreases *e, 1int,
    {
        let ghost st = self.cview();
        match e {
            Expr::Assign(e1, e2) => {
                match &**e1 {
                    Expr::Const(Constant::Ident(name)) => match string_ids_get(&self.locals, name) {
                        Some(l) => {
                            self.compile(e2, false);
                            self.write(Op::StoreLocal(l as u16));
                        },
                        None => {
                            let n = string_ids_get(&self.env, name).unwrap();
                            string_ids_insert(&mut self.used_upvars, name.clone(), n);
                            self.nenv = self.nenv + 1;
                            self.compile(e2, false);
                            self.write(Op::StoreEnv(n as u16));
                        },
                    },
                    Expr::Field(fe, f) => {
                        self.compile(e2, false);
                        let gid = self.global(&Global::Str(f.clone()));
                        self.write(Op::LoadGlobal(gid as u32));
                        self.compile(fe, false);
                        self.write(Op::Store);
                    },
                    Expr::Const(Constant::This) => {
                        self.compile(e2, false);
                        self.write(Op::StoreThis);
                    },
                    Expr::Array(ea, ei) => {
                        self.compile(e2, false);
                        self.compile(ei, false);
                        self.compile(ea, false);
                        self.write(Op::Store);
                    },
                    _ => {},
                }
            },
            _ => {},
        }
    }

    fn compile_binop(&mut self, e: &Expr, tail: bool)
        requires
            *e is Binop,
            compiled(old(self).cview(), *e, tail) is Some,
        ensures
            final(self).cview() == compiled(old(self).cview(), *e, tail).unwrap(),
        decreases *e, 1int,
    {
        let ghost st = self.cview();
        match e {
            Expr::Binop(op, e1, e2) => {
                let o = parse_operator(op.as_str()).unwrap();
                match o {
                    Operator::EqEq => match &**e2 {
                        Expr::Const(Constant::Null) => {
                            self.compile(e1, false);
                            self.write(Op::IsNull);
                        },
                        _ => {
                            self.compile(e2, false);
                            self.compile(e1, false);
                            self.write(Op::Eq);
                        },
                    },
                    Operator::NotEq => match &**e2 {
                        Expr::Const(Constant::Null) => {
                            self.compile(e1, false);
                            self.write(Op::IsNotNull);
                        },
                        _ => {
                            self.compile(e2, false);
                            self.compile(e1, false);
                            self.write(Op::Neq);
                        },
                    },
                    Operator::AndAnd => {
                        let if_false = self.new_empty_label();
                        self.compile(e1, false);
                        self.emit_gotof(if_false.as_str());
                        self.compile(e2, tail);
                        self.label_here(if_false.as_str());
                    },
                    Operator::OrOr => {
                        let if_true = self.new_empty_label();
                        self.compile(e1, false);
                        self.emit_gotot(if_true.as_str());
                        self.compile(e2, tail);
                        self.label_here(if_true.as_str());
                    },
                    _ => {
                        self.compile(e2, false);
                        self.compile(e1, false);
                        self.write_op(op.as_str());
                    },
                }
            },
            _ => {},
        }
    }

    fn compile_while(&mut self, e: &Expr, tail: bool)
        requires
            *e is While,
            compiled(old(self).cview(), *e, tail) is Some,
        ensures
            final(self).cview() == compiled(old(self).cview(), *e, tail).unwrap(),
        decreases *e, 1int,
    {
        let ghost st = self.cview();
        match e {
            Expr::While(c, b) => {
                let start = self.new_empty_label();
                let end = self.new_empty_label();
                let ghost s2 = self.cview();
                self.breaks.push(end.clone());
                self.continues.push(start.clone());
                proof {
                    assert(self.breaks@.map_values(|l: String| l@) =~= s2.breaks.push(end@));
                    assert(self.continues@.map_values(|l: String| l@) =~= s2.continues.push(start@));
                }
                self.label_here(start.as_str());
                self.compile(c, false);
                self.emit_gotof(end.as_str());
                self.compile(b, false);
                self.emit_goto(start.as_str());
                self.label_here(end.as_str());
                let ghost s6 = self.cview();
                self.breaks.pop();
                self.continues.pop();
                proof {
                    assert(self.breaks@.map_values(|l: String| l@) =~= popped(s6.breaks));
                    assert(self.continues@.map_values(|l: String| l@) =~= popped(s6.continues));
                }
            },
            _ => {},
        }
    }

    fn compile_switch(&mut self, e: &Expr, tail: bool)
        requires
            *e is Switch,
            compiled(old(self).cview(), *e, tail) is Some,
        ensures
            final(self).cview() == compiled(old(self).cview(), *e, tail).unwrap(),
        decreases *e, 1int,
    {
        let ghost st = self.cview();
        match e {
            Expr::Switch(value, with, default_) => {
                let orl = self.new_empty_label();
                let end = self.new_empty_label();
                let ghost st2 = self.cview();
                let mut i: usize = 0;
                while i < with.len()
                    invariant
                        *e == Expr::Switch(*value, *with, *default_),
                        i <= with@.len(),
                        cases_rest(st2, *e, 0, end@, tail) == cases_rest(self.cview(), *e, i as int, end@, tail),
                        cases_rest(st2, *e, 0, end@, tail) is Some,
                    decreases with@.len() - i,
                {
                    let l1 = self.new_empty_label();
                    self.compile(value, false);
                    self.compile(&with[i].0, false);
                    self.write(Op::Eq);
                    self.emit_gotof(l1.as_str());
                    self.compile(&with[i].1, tail);
                    self.emit_goto(end.as_str());
                    self.label_here(l1.as_str());
                    i = i + 1;
                }
                if default_.is_some() {
                    self.emit_goto(orl.as_str());
                }
                self.label_here(orl.as_str());
                match default_ {
                    Some(d) => {
                        self.compile(d, false);
                        self.emit_goto(end.as_str());
                    },
                    None => {},
                }
                self.label_here(end.as_str());
            },
            _ => {},
        }
    }

    fn compile_if(&mut self, e: &Expr, tail: bool)
        requires
            *e is If,
            compiled(old(self).cview(), *e, tail) is Some,
        ensures
            final(self).cview() == compiled(old(self).cview(), *e, tail).unwrap(),
        decreases *e, 1int,
    {
        let ghost st = self.cview();
        match e {
            Expr::If(c, e1, e2) => {
                let lbl_false = self.new_empty_label();
                self.compile(c, false);
                self.emit_gotof(lbl_false.as_str());
                self.compile(e1, tail);
                self.label_here(lbl_false.as_str());
                match e2 {
                    Some(x) => self.compile(x, tail),
                    None => {},
                }
            },
            _ => {},
        }
    }

    fn compile_call(&mut self, e: &Expr, tail: bool)
        requires
            *e is Call,
            compiled(old(self).cview(), *e, tail) is Some,
        ensures
            final(self).cview() == compiled(old(self).cview(), *e, tail).unwrap(),
        decreases *e, 1int,
    {
        let ghost st = self.cview();
        match e {
            Expr::Call(f, el) => {
                let mut special: u8 = 0;
                match &**f {
                    Expr::Const(Constant::Builtin(name)) => {
                        if spells(name.as_str(), "new") {
                            special = 1;
                        } else if spells(name.as_str(), "hash") {
                            special = 2;
                        }
                    },
                    Expr::Field(_, _) => {
                        special = 3;
                    },
                    _ => {},
                }
                if special == 1 || special == 2 {
                    self.compile(&el[0], false);
                    if special == 1 {
                        self.write(Op::New);
                    } else {
                        self.write(Op::Hash);
                    }
                } else {
                    let ghost st0 = self.cview();
                    let mut i = el.len();
                    while i > 0
                        invariant
                            *e == Expr::Call(*f, *el),
                            i <= el@.len(),
                            args_down(st0, *e, el@.len() as int) == args_down(self.cview(), *e, i as int),
                            args_down(st0, *e, el@.len() as int) is Some,
                        decreases i,
                    {
                        i = i - 1;
                        self.compile(&el[i], false);
                    }
                    match &**f {
                        Expr::Field(fe, fname) => {
                            self.compile(fe, false);
                            let gid = self.global(&Global::Str(fname.clone()));
                            self.write(Op::LoadGlobal(gid as u32));
                            self.compile(fe, false);
                            self.write(Op::Load);
                            self.write(Op::ObjCall(el.len() as u16));
                        },
                        _ => {
                            self.compile(f, false);
                            if !tail {
                                self.write(Op::Call(el.len() as u16));
                            } else {
                                self.write(Op::TailCall(el.len() as u16));
                            }
                        },
                    }
                }
            },
            _ => {},
        }
    }

    fn compile_try(&mut self, e: &Expr, tail: bool)
        requires
            *e is Try,
            compiled(old(self).cview(), *e, tail) is Some,
        ensures
            final(self).cview() == compiled(old(self).cview(), *e, tail).unwrap(),
        decreases *e, 1int,
    {
        let ghost st = self.cview();
        match e {
            Expr::Try(x, name, c) => {
                let catch_lbl = self.new_empty_label();
                let end_lbl = self.new_empty_label();
                self.emit_paddr(catch_lbl.as_str());
                self.compile(x, false);
                self.emit_goto(end_lbl.as_str());
                self.label_here(catch_lbl.as_str());
                let locals = string_ids_clone(&self.locals);
                let id = string_ids_len(&self.locals) as i32;
                string_ids_insert(&mut self.locals, name.clone(), id);
                self.write(Op::StoreLocal(id as u16));
                self.compile(c, tail);
                self.locals = locals;
                self.label_here(end_lbl.as_str());
            },
            _ => {},
        }
    }
}

} // verus!
