//! What the stack machine's compiled code means: compiling only appends to
//! the code buffer, `||` skips its right operand when the left is true, an
//! `if` skips its branch when the condition is false, and a comparison
//! with `null` tests for it.

use vstd::prelude::*;
use crate::operators::{Operator, operator_of};
use crate::vm::ast::{Constant, Expr};
use crate::vm::codegen::{CtxV, GlobalV, UOPV};
use crate::vm::compiler::{
    args_down, block_rest, cases_rest, compiled, const_spec, function_spec, ident_spec,
    idents_down, with_locals,
};
use crate::vm::opcode::{Op, OpV};

verus! {

/// Whether code `b` begins with code `a`.
pub open spec fn starts_with(b: Seq<UOPV>, a: Seq<UOPV>) -> bool {
    a.len() <= b.len() && forall|i: int| 0 <= i < a.len() ==> #[trigger] b[i] == a[i]
}

proof fn lemma_starts_trans(a: Seq<UOPV>, b: Seq<UOPV>, c: Seq<UOPV>)
    requires
        starts_with(b, a),
        starts_with(c, b),
    ensures
        starts_with(c, a),
{
    assert forall|i: int| 0 <= i < a.len() implies #[trigger] c[i] == a[i] by {
        assert(c[i] == b[i]);
    }
}

proof fn lemma_ident_appends(st: CtxV, s: Seq<char>)
    requires
        ident_spec(st, s) is Some,
    ensures
        ident_spec(st, s).unwrap().code == st.code.push(ident_spec(st, s).unwrap().code.last()),
{
}

proof fn lemma_const_appends(st: CtxV, c: Constant)
    requires
        const_spec(st, c) is Some,
    ensures
        starts_with(const_spec(st, c).unwrap().code, st.code),
{
    match c {
        Constant::Ident(s) => {
            lemma_ident_appends(st, s@);
        },
        _ => {},
    }
}

proof fn lemma_idents_appends(st: CtxV, names: Seq<Seq<char>>, k: int)
    requires
        idents_down(st, names, k) is Some,
    ensures
        starts_with(idents_down(st, names, k).unwrap().code, st.code),
    decreases k,
{
    if k > 0 {
        lemma_ident_appends(st, names[k - 1]);
        let st1 = ident_spec(st, names[k - 1]).unwrap();
        lemma_idents_appends(st1, names, k - 1);
        lemma_starts_trans(st.code, st1.code, idents_down(st, names, k).unwrap().code);
    }
}

/// Compiling an expression only appends to the code: what was there stays.
pub proof fn lemma_compile_appends(st: CtxV, e: Expr, tail: bool)
    requires
        compiled(st, e, tail) is Some,
    ensures
        starts_with(compiled(st, e, tail).unwrap().code, st.code),
    decreases e, 2int, 0int,
{
    let r = compiled(st, e, tail).unwrap();
    match e {
        Expr::Break(oe) => {
            match oe {
                Some(x) => {
                    lemma_compile_appends(st, *x, false);
                    let st1 = compiled(st, *x, false).unwrap();
                    lemma_starts_trans(st.code, st1.code, r.code);
                },
                None => {},
            }
        },
        Expr::Const(c) => {
            lemma_const_appends(st, c);
        },
        Expr::Block(v) => {
            if v@.len() > 0 {
                lemma_block_appends(st, e, 0, tail);
            }
        },
        Expr::Paren(x) => {
            lemma_compile_appends(st, *x, tail);
        },
        Expr::Field(x, f) => {
            let (st1, gid) = st.global(GlobalV::Str(f@));
            let s0 = st1.wrote(Op::LoadGlobal(gid as u32));
            lemma_compile_appends(s0, *x, false);
            let st2 = compiled(s0, *x, false).unwrap();
            lemma_starts_trans(st.code, st2.code, r.code);
        },
        Expr::Array(ea, ei) => {
            lemma_compile_appends(st, *ei, false);
            let st1 = compiled(st, *ei, false).unwrap();
            lemma_compile_appends(st1, *ea, false);
            let st2 = compiled(st1, *ea, false).unwrap();
            lemma_starts_trans(st.code, st1.code, st2.code);
            lemma_starts_trans(st.code, st2.code, r.code);
        },
        Expr::Var(name, init) => {
            match init {
                Some(x) => match *x {
                    Expr::Function(args, body) => {
                        let ps = args@.map_values(|a: String| a@);
                        lemma_function_appends(st, ps, *body, Some(name@));
                        let st1 = function_spec(st, ps, *body, Some(name@)).unwrap();
                        lemma_starts_trans(st.code, st1.code, r.code);
                    },
                    _ => {
                        lemma_compile_appends(st, *x, false);
                        let st1 = compiled(st, *x, false).unwrap();
                        lemma_starts_trans(st.code, st1.code, r.code);
                    },
                },
                None => {},
            }
        },
        Expr::Assign(e1, e2) => {
            match *e1 {
                Expr::Const(Constant::Ident(name)) => {
                    match crate::lhm::lhm_get(st.locals, name@) {
                        Some(_) => {
                            lemma_compile_appends(st, *e2, false);
                            let st1 = compiled(st, *e2, false).unwrap();
                            lemma_starts_trans(st.code, st1.code, r.code);
                        },
                        None => {
                            let n = crate::lhm::lhm_get(st.env, name@).unwrap();
                            let st1 = CtxV {
                                upvars: crate::lhm::lhm_insert(st.upvars, name@, n),
                                nenv: (st.nenv + 1) as i32,
                                ..st
                            };
                            lemma_compile_appends(st1, *e2, false);
                            let st2 = compiled(st1, *e2, false).unwrap();
                            lemma_starts_trans(st.code, st2.code, r.code);
                        },
                    }
                },
                Expr::Field(fe, f) => {
                    lemma_compile_appends(st, *e2, false);
                    let st1 = compiled(st, *e2, false).unwrap();
                    let (st2, gid) = st1.global(GlobalV::Str(f@));
                    let s0 = st2.wrote(Op::LoadGlobal(gid as u32));
                    lemma_compile_appends(s0, *fe, false);
                    let st3 = compiled(s0, *fe, false).unwrap();
                    lemma_starts_trans(st.code, st1.code, st3.code);
                    lemma_starts_trans(st.code, st3.code, r.code);
                },
                Expr::Const(Constant::This) => {
                    lemma_compile_appends(st, *e2, false);
                    let st1 = compiled(st, *e2, false).unwrap();
                    lemma_starts_trans(st.code, st1.code, r.code);
                },
                Expr::Array(ea, ei) => {
                    lemma_compile_appends(st, *e2, false);
                    let st1 = compiled(st, *e2, false).unwrap();
                    lemma_compile_appends(st1, *ei, false);
                    let st2 = compiled(st1, *ei, false).unwrap();
                    lemma_compile_appends(st2, *ea, false);
                    let st3 = compiled(st2, *ea, false).unwrap();
                    lemma_starts_trans(st.code, st1.code, st2.code);
                    lemma_starts_trans(st.code, st2.code, st3.code);
                    lemma_starts_trans(st.code, st3.code, r.code);
                },
                _ => {},
            }
        },
        Expr::Binop(op, e1, e2) => {
            lemma_binop_appends(st, op, *e1, *e2, tail);
        },
        Expr::Function(params, body) => {
            lemma_function_appends(st, params@.map_values(|a: String| a@), *body, None);
        },
        Expr::Return(oe) => {
            match oe {
                Some(x) => {
                    lemma_compile_appends(st, *x, false);
                    let st1 = compiled(st, *x, false).unwrap();
                    lemma_starts_trans(st.code, st1.code, r.code);
                },
                None => {},
            }
        },
        Expr::While(c, b) => {
            let (st1, start) = st.new_label();
            let (st2, end) = st1.new_label();
            let st3 = CtxV {
                breaks: st2.breaks.push(end),
                continues: st2.continues.push(start),
                ..st2
            }.pushed(UOPV::Label(start));
            lemma_compile_appends(st3, *c, false);
            let st4 = compiled(st3, *c, false).unwrap();
            let s5 = st4.pushed(UOPV::GotoF(end));
            lemma_compile_appends(s5, *b, false);
            let st5 = compiled(s5, *b, false).unwrap();
            lemma_starts_trans(st.code, st4.code, st5.code);
            lemma_starts_trans(st.code, st5.code, r.code);
        },
        Expr::Switch(_value, _with, default_) => {
            let (st1, orl) = st.new_label();
            let (st2, end) = st1.new_label();
            lemma_cases_appends(st2, e, 0, end, tail);
            let st3 = cases_rest(st2, e, 0, end, tail).unwrap();
            let st4 = if default_ is Some {
                st3.pushed(UOPV::Goto(orl))
            } else {
                st3
            };
            let st5 = st4.pushed(UOPV::Label(orl));
            lemma_starts_trans(st.code, st3.code, st5.code);
            match default_ {
                Some(d) => {
                    lemma_compile_appends(st5, *d, false);
                    let st6 = compiled(st5, *d, false).unwrap();
                    lemma_starts_trans(st.code, st5.code, st6.code);
                    lemma_starts_trans(st.code, st6.code, r.code);
                },
                None => {
                    lemma_starts_trans(st.code, st5.code, r.code);
                },
            }
        },
        Expr::If(c, e1, e2) => {
            lemma_if_appends(st, *c, *e1, e2, tail);
        },
        Expr::Call(f, el) => {
            match *f {
                Expr::Const(Constant::Builtin(name)) if name@ == "new"@ || name@ == "hash"@ => {
                    lemma_compile_appends(st, el@[0], false);
                    let st1 = compiled(st, el@[0], false).unwrap();
                    lemma_starts_trans(st.code, st1.code, r.code);
                },
                Expr::Field(fe, fname) => {
                    lemma_args_appends(st, e, el@.len() as int);
                    let st1 = args_down(st, e, el@.len() as int).unwrap();
                    lemma_compile_appends(st1, *fe, false);
                    let st2 = compiled(st1, *fe, false).unwrap();
                    let (st3, gid) = st2.global(GlobalV::Str(fname@));
                    let s0 = st3.wrote(Op::LoadGlobal(gid as u32));
                    lemma_compile_appends(s0, *fe, false);
                    let st4 = compiled(s0, *fe, false).unwrap();
                    lemma_starts_trans(st.code, st1.code, st2.code);
                    lemma_starts_trans(st.code, st2.code, st4.code);
                    lemma_starts_trans(st.code, st4.code, r.code);
                },
                _ => {
                    lemma_args_appends(st, e, el@.len() as int);
                    let st1 = args_down(st, e, el@.len() as int).unwrap();
                    lemma_compile_appends(st1, *f, false);
                    let st2 = compiled(st1, *f, false).unwrap();
                    lemma_starts_trans(st.code, st1.code, st2.code);
                    lemma_starts_trans(st.code, st2.code, r.code);
                },
            }
        },
        Expr::Unop(_, x) => {
            lemma_compile_appends(st, *x, tail);
            let st1 = compiled(st, *x, tail).unwrap();
            lemma_starts_trans(st.code, st1.code, r.code);
        },
        Expr::Throw(x) => {
            lemma_compile_appends(st, *x, false);
            let st1 = compiled(st, *x, false).unwrap();
            lemma_starts_trans(st.code, st1.code, r.code);
        },
        Expr::Try(x, name, c) => {
            let (st1, cl) = st.new_label();
            let (st2, el) = st1.new_label();
            lemma_compile_appends(st2.pushed(UOPV::PAddr(cl)), *x, false);
            let st3 = compiled(st2.pushed(UOPV::PAddr(cl)), *x, false).unwrap();
            let st4 = st3.pushed(UOPV::Goto(el)).pushed(UOPV::Label(cl));
            let id = st4.locals.len() as i32;
            let st5 = with_locals(st4, crate::lhm::lhm_insert(st4.locals, name@, id)).wrote(
                Op::StoreLocal(id as u16),
            );
            lemma_compile_appends(st5, *c, tail);
            let st6 = compiled(st5, *c, tail).unwrap();
            lemma_starts_trans(st.code, st3.code, st6.code);
            lemma_starts_trans(st.code, st6.code, r.code);
        },
        _ => {},
    }
}

proof fn lemma_binop_appends(st: CtxV, op: String, e1: Expr, e2: Expr, tail: bool)
    requires
        compiled(st, Expr::Binop(op, Box::new(e1), Box::new(e2)), tail) is Some,
    ensures
        starts_with(compiled(st, Expr::Binop(op, Box::new(e1), Box::new(e2)), tail).unwrap().code, st.code),
    decreases Expr::Binop(op, Box::new(e1), Box::new(e2)), 1int, 0int,
{
    let r = compiled(st, Expr::Binop(op, Box::new(e1), Box::new(e2)), tail).unwrap();
    match operator_of(op@) {
        Some(Operator::AndAnd) | Some(Operator::OrOr) => {
            let (st1, l) = st.new_label();
            lemma_compile_appends(st1, e1, false);
            let st2 = compiled(st1, e1, false).unwrap();
            let s3 = if operator_of(op@) == Some(Operator::AndAnd) {
                st2.pushed(UOPV::GotoF(l))
            } else {
                st2.pushed(UOPV::GotoT(l))
            };
            lemma_compile_appends(s3, e2, tail);
            let st3 = compiled(s3, e2, tail).unwrap();
            lemma_starts_trans(st.code, st2.code, st3.code);
            lemma_starts_trans(st.code, st3.code, r.code);
        },
        Some(Operator::EqEq) | Some(Operator::NotEq) => {
            if e2 matches Expr::Const(Constant::Null) {
                lemma_compile_appends(st, e1, false);
                let st1 = compiled(st, e1, false).unwrap();
                lemma_starts_trans(st.code, st1.code, r.code);
            } else {
                lemma_compile_appends(st, e2, false);
                let st1 = compiled(st, e2, false).unwrap();
                lemma_compile_appends(st1, e1, false);
                let st2 = compiled(st1, e1, false).unwrap();
                lemma_starts_trans(st.code, st1.code, st2.code);
                lemma_starts_trans(st.code, st2.code, r.code);
            }
        },
        _ => {
            lemma_compile_appends(st, e2, false);
            let st1 = compiled(st, e2, false).unwrap();
            lemma_compile_appends(st1, e1, false);
            let st2 = compiled(st1, e1, false).unwrap();
            lemma_starts_trans(st.code, st1.code, st2.code);
            lemma_starts_trans(st.code, st2.code, r.code);
        },
    }
}

proof fn lemma_if_appends(st: CtxV, c: Expr, e1: Expr, e2: Option<Box<Expr>>, tail: bool)
    requires
        compiled(st, Expr::If(Box::new(c), Box::new(e1), e2), tail) is Some,
    ensures
        starts_with(compiled(st, Expr::If(Box::new(c), Box::new(e1), e2), tail).unwrap().code, st.code),
    decreases Expr::If(Box::new(c), Box::new(e1), e2), 1int, 0int,
{
    let r = compiled(st, Expr::If(Box::new(c), Box::new(e1), e2), tail).unwrap();
    let (st1, lf) = st.new_label();
    lemma_compile_appends(st1, c, false);
    let st2 = compiled(st1, c, false).unwrap();
    lemma_compile_appends(st2.pushed(UOPV::GotoF(lf)), e1, tail);
    let st3 = compiled(st2.pushed(UOPV::GotoF(lf)), e1, tail).unwrap();
    let st4 = st3.pushed(UOPV::Label(lf));
    lemma_starts_trans(st.code, st2.code, st3.code);
    lemma_starts_trans(st.code, st3.code, st4.code);
    match e2 {
        Some(x) => {
            lemma_compile_appends(st4, *x, tail);
            lemma_starts_trans(st.code, st4.code, r.code);
        },
        None => {},
    }
}

proof fn lemma_block_appends(st: CtxV, e: Expr, i: int, tail: bool)
    requires
        block_rest(st, e, i, tail) is Some,
    ensures
        starts_with(block_rest(st, e, i, tail).unwrap().code, st.code),
    decreases e, 1int, crate::vm::compiler::block_len(e) - i,
{
    match e {
        Expr::Block(v) => {
            if 0 <= i < v@.len() {
                lemma_compile_appends(st, v@[i], tail);
                let st1 = compiled(st, v@[i], tail).unwrap();
                lemma_block_appends(st1, e, i + 1, tail);
                lemma_starts_trans(st.code, st1.code, block_rest(st, e, i, tail).unwrap().code);
            }
        },
        _ => {},
    }
}

proof fn lemma_args_appends(st: CtxV, e: Expr, k: int)
    requires
        args_down(st, e, k) is Some,
    ensures
        starts_with(args_down(st, e, k).unwrap().code, st.code),
    decreases e, 1int, k,
{
    match e {
        Expr::Call(_, v) => {
            if 0 < k <= v@.len() {
                lemma_compile_appends(st, v@[k - 1], false);
                let st1 = compiled(st, v@[k - 1], false).unwrap();
                lemma_args_appends(st1, e, k - 1);
                lemma_starts_trans(st.code, st1.code, args_down(st, e, k).unwrap().code);
            }
        },
        _ => {},
    }
}

proof fn lemma_cases_appends(st: CtxV, e: Expr, i: int, end: Seq<char>, tail: bool)
    requires
        cases_rest(st, e, i, end, tail) is Some,
    ensures
        starts_with(cases_rest(st, e, i, end, tail).unwrap().code, st.code),
    decreases e, 1int, crate::vm::compiler::cases_len(e) - i,
{
    match e {
        Expr::Switch(value, with, _) => {
            if 0 <= i < with@.len() {
                let (st1, l1) = st.new_label();
                lemma_compile_appends(st1, *value, false);
                let st2 = compiled(st1, *value, false).unwrap();
                lemma_compile_appends(st2, with@[i].0, false);
                let st3 = compiled(st2, with@[i].0, false).unwrap();
                let st4 = st3.wrote(Op::Eq).pushed(UOPV::GotoF(l1));
                lemma_compile_appends(st4, with@[i].1, tail);
                let st5 = compiled(st4, with@[i].1, tail).unwrap();
                let s6 = st5.pushed(UOPV::Goto(end)).pushed(UOPV::Label(l1));
                lemma_cases_appends(s6, e, i + 1, end, tail);
                lemma_starts_trans(st.code, st2.code, st3.code);
                lemma_starts_trans(st.code, st3.code, st5.code);
                lemma_starts_trans(st.code, st5.code, s6.code);
                lemma_starts_trans(st.code, s6.code, cases_rest(st, e, i, end, tail).unwrap().code);
            }
        },
        _ => {},
    }
}

proof fn lemma_function_appends(
    st: CtxV,
    params: Seq<Seq<char>>,
    body: Expr,
    vname: Option<Seq<char>>,
)
    requires
        function_spec(st, params, body, vname) is Some,
    ensures
        starts_with(function_spec(st, params, body, vname).unwrap().code, st.code),
    decreases body, 3int, 0int,
{
    let gid = st.table.len();
    let c0 = CtxV {
        code: Seq::empty(),
        labels: st.labels,
        gmap: match vname {
            Some(n) => crate::lhm::lhm_insert(st.gmap, GlobalV::Var(n), gid as i32),
            None => st.gmap,
        },
        table: st.table.push(GlobalV::Func(gid as i32, -1i32)),
        funcs: st.funcs,
        locals: crate::vm::compiler::param_locals(params, params.len() as int),
        env: st.locals,
        upvars: Seq::empty(),
        nenv: 0,
        breaks: Seq::empty(),
        continues: Seq::empty(),
    };
    let (c1, ret) = c0.new_label();
    let c2 = compiled(c1, body, true).unwrap();
    let c3 = c2.pushed(UOPV::Label(ret)).wrote(Op::Ret);
    let st1 = CtxV {
        labels: crate::vm::compiler::merge_labels(st.labels, c3.labels, 0),
        gmap: c3.gmap,
        table: c3.table,
        funcs: c3.funcs.push((c3.code, gid as i32, params.len() as i32)),
        ..st
    };
    if c3.nenv > 0 {
        let names = c3.upvars.map_values(|e: (Seq<char>, i32)| e.0);
        lemma_idents_appends(st1, names, names.len() as int);
        let st2 = idents_down(st1, names, names.len() as int).unwrap();
        lemma_starts_trans(st.code, st2.code, function_spec(st, params, body, vname).unwrap().code);
    }
}

/// `e1 || e2`, compiled: after `e1`'s code (compiled with a fresh label
/// registered) comes a jump, taken when `e1` is true, to that label, which
/// is marked at the very end, past `e2`'s code: `e2` runs only when `e1` is
/// false.
pub proof fn lemma_or_skips_right(st: CtxV, op: String, e1: Expr, e2: Expr, tail: bool)
    requires
        operator_of(op@) == Some(Operator::OrOr),
        compiled(st, Expr::Binop(op, Box::new(e1), Box::new(e2)), tail) is Some,
    ensures
        ({
            let r = compiled(st, Expr::Binop(op, Box::new(e1), Box::new(e2)), tail).unwrap();
            let (st1, lt) = st.new_label();
            let left = compiled(st1, e1, false);
            &&& left is Some
            &&& starts_with(r.code, left.unwrap().code)
            &&& r.code.len() >= left.unwrap().code.len() + 2
            &&& r.code[left.unwrap().code.len() as int] == UOPV::GotoT(lt)
            &&& r.code.last() == UOPV::Label(lt)
        }),
{
    let r = compiled(st, Expr::Binop(op, Box::new(e1), Box::new(e2)), tail).unwrap();
    let (st1, lt) = st.new_label();
    let st2 = compiled(st1, e1, false).unwrap();
    let s3 = st2.pushed(UOPV::GotoT(lt));
    lemma_compile_appends(s3, e2, tail);
    let st3 = compiled(s3, e2, tail).unwrap();
    lemma_starts_trans(st2.code, s3.code, st3.code);
    lemma_starts_trans(s3.code, st3.code, r.code);
    lemma_starts_trans(st2.code, s3.code, r.code);
}

/// `if c then e1 [else e2]`, compiled: after `c`'s code (compiled with a
/// fresh label registered) comes a jump, taken when `c` is false, to that
/// label, which is marked right after `e1`'s code; without `else` it is the
/// last entry.
pub proof fn lemma_if_skips_branch(
    st: CtxV,
    c: Expr,
    e1: Expr,
    e2: Option<Box<Expr>>,
    tail: bool,
)
    requires
        compiled(st, Expr::If(Box::new(c), Box::new(e1), e2), tail) is Some,
    ensures
        ({
            let r = compiled(st, Expr::If(Box::new(c), Box::new(e1), e2), tail).unwrap();
            let (st1, lf) = st.new_label();
            let cond = compiled(st1, c, false);
            let n = cond.unwrap().code.len() as int;
            &&& cond is Some
            &&& starts_with(r.code, cond.unwrap().code)
            &&& n < r.code.len()
            &&& r.code[n] == UOPV::GotoF(lf)
            &&& exists|j: int| n < j < r.code.len() && #[trigger] r.code[j] == UOPV::Label(lf)
            &&& e2 is None ==> r.code.last() == UOPV::Label(lf)
        }),
{
    let r = compiled(st, Expr::If(Box::new(c), Box::new(e1), e2), tail).unwrap();
    let (st1, lf) = st.new_label();
    let st2 = compiled(st1, c, false).unwrap();
    let s2 = st2.pushed(UOPV::GotoF(lf));
    lemma_compile_appends(s2, e1, tail);
    let st3 = compiled(s2, e1, tail).unwrap();
    let st4 = st3.pushed(UOPV::Label(lf));
    lemma_starts_trans(st2.code, s2.code, st3.code);
    lemma_starts_trans(s2.code, st3.code, st4.code);
    lemma_starts_trans(st2.code, s2.code, st4.code);
    match e2 {
        Some(x) => {
            lemma_compile_appends(st4, *x, tail);
            lemma_starts_trans(st4.code, r.code, r.code);
            lemma_starts_trans(s2.code, st4.code, r.code);
            lemma_starts_trans(st2.code, st4.code, r.code);
        },
        None => {},
    }
    let j = st3.code.len() as int;
    assert(r.code[j] == UOPV::Label(lf));
}

/// `e == null` compiles to `e`'s code followed by one `IsNull`, and
/// `e != null` to `e`'s code followed by one `IsNotNull`.
pub proof fn lemma_null_test(st: CtxV, op: String, e: Expr, tail: bool)
    requires
        operator_of(op@) == Some(Operator::EqEq) || operator_of(op@) == Some(Operator::NotEq),
        compiled(st, Expr::Binop(op, Box::new(e), Box::new(Expr::Const(Constant::Null))), tail) is Some,
    ensures
        ({
            let r = compiled(
                st,
                Expr::Binop(op, Box::new(e), Box::new(Expr::Const(Constant::Null))),
                tail,
            ).unwrap();
            let v = compiled(st, e, false);
            &&& v is Some
            &&& r.code == v.unwrap().code.push(
                UOPV::Op(
                    OpV::Plain(
                        if operator_of(op@) == Some(Operator::EqEq) {
                            Op::IsNull
                        } else {
                            Op::IsNotNull
                        },
                    ),
                ),
            )
        }),
{
}

/// `e1 && e2`, compiled: after `e1`'s code (compiled with a fresh label
/// registered) comes a jump, taken when `e1` is false, to that label, which
/// is marked at the very end, past `e2`'s code: `e2` runs only when `e1` is
/// true.
pub proof fn lemma_and_skips_right(st: CtxV, op: String, e1: Expr, e2: Expr, tail: bool)
    requires
        operator_of(op@) == Some(Operator::AndAnd),
        compiled(st, Expr::Binop(op, Box::new(e1), Box::new(e2)), tail) is Some,
    ensures
        ({
            let r = compiled(st, Expr::Binop(op, Box::new(e1), Box::new(e2)), tail).unwrap();
            let (st1, lf) = st.new_label();
            let left = compiled(st1, e1, false);
            &&& left is Some
            &&& starts_with(r.code, left.unwrap().code)
            &&& r.code.len() >= left.unwrap().code.len() + 2
            &&& r.code[left.unwrap().code.len() as int] == UOPV::GotoF(lf)
            &&& r.code.last() == UOPV::Label(lf)
        }),
{
    let r = compiled(st, Expr::Binop(op, Box::new(e1), Box::new(e2)), tail).unwrap();
    let (st1, lf) = st.new_label();
    let st2 = compiled(st1, e1, false).unwrap();
    let s3 = st2.pushed(UOPV::GotoF(lf));
    lemma_compile_appends(s3, e2, tail);
    let st3 = compiled(s3, e2, tail).unwrap();
    lemma_starts_trans(st2.code, s3.code, st3.code);
    lemma_starts_trans(s3.code, st3.code, r.code);
    lemma_starts_trans(st2.code, s3.code, r.code);
}

/// A binary operator other than `&&`, `||` and a comparison with `null`,
/// compiled: the right operand's code, then the left operand's, then the
/// operator's one instruction.
pub proof fn lemma_binop_order(st: CtxV, op: String, e1: Expr, e2: Expr, tail: bool)
    requires
        operator_of(op@) is Some,
        operator_of(op@) != Some(Operator::AndAnd),
        operator_of(op@) != Some(Operator::OrOr),
        !((operator_of(op@) == Some(Operator::EqEq) || operator_of(op@) == Some(Operator::NotEq))
            && e2 matches Expr::Const(Constant::Null)),
        compiled(st, Expr::Binop(op, Box::new(e1), Box::new(e2)), tail) is Some,
    ensures
        ({
            let r = compiled(st, Expr::Binop(op, Box::new(e1), Box::new(e2)), tail).unwrap();
            let right = compiled(st, e2, false);
            let left = compiled(right.unwrap(), e1, false);
            &&& right is Some
            &&& left is Some
            &&& starts_with(left.unwrap().code, right.unwrap().code)
            &&& starts_with(right.unwrap().code, st.code)
            &&& r.code == left.unwrap().code.push(
                UOPV::Op(
                    OpV::Plain(
                        match operator_of(op@).unwrap() {
                            Operator::Plus => Op::Add,
                            Operator::Minus => Op::Sub,
                            Operator::Slash => Op::Div,
                            Operator::Star => Op::Mul,
                            Operator::Percent => Op::Mod,
                            Operator::Shl => Op::Shl,
                            Operator::Shr => Op::Shr,
                            Operator::Pipe => Op::Or,
                            Operator::Amp => Op::And,
                            Operator::Caret => Op::Xor,
                            Operator::EqEq => Op::Eq,
                            Operator::NotEq => Op::Neq,
                            Operator::Gt => Op::Gt,
                            Operator::Gte => Op::Gte,
                            Operator::Lt => Op::Lt,
                            Operator::Lte => Op::Lte,
                            _ => Op::Not,
                        },
                    ),
                ),
            )
        }),
{
    let right = compiled(st, e2, false).unwrap();
    lemma_compile_appends(st, e2, false);
    lemma_compile_appends(right, e1, false);
}

/// A unary `-` compiles to its operand's code and `Neg`, a `!` to its
/// operand's code and `Not`.
pub proof fn lemma_unop_instr(st: CtxV, op: String, x: Expr, tail: bool)
    requires
        operator_of(op@) == Some(Operator::Minus) || operator_of(op@) == Some(Operator::Bang),
        compiled(st, Expr::Unop(op, Box::new(x)), tail) is Some,
    ensures
        ({
            let r = compiled(st, Expr::Unop(op, Box::new(x)), tail).unwrap();
            let v = compiled(st, x, tail);
            &&& v is Some
            &&& r.code == v.unwrap().code.push(
                UOPV::Op(
                    OpV::Plain(
                        if operator_of(op@) == Some(Operator::Minus) {
                            Op::Neg
                        } else {
                            Op::Not
                        },
                    ),
                ),
            )
        }),
{
}

/// A `while` loop, compiled: its two fresh labels (its start, then its
/// end), the start marked first, right after the condition's code the jump
/// to the end taken when the condition is false, and the code ending with
/// the jump back to the start, then the end label.
pub proof fn lemma_while_parts(st: CtxV, c: Expr, b: Expr, tail: bool)
    requires
        compiled(st, Expr::While(Box::new(c), Box::new(b)), tail) is Some,
    ensures
        ({
            let r = compiled(st, Expr::While(Box::new(c), Box::new(b)), tail).unwrap();
            let (st1, start) = st.new_label();
            let (st2, end) = st1.new_label();
            let st3 = CtxV {
                breaks: st2.breaks.push(end),
                continues: st2.continues.push(start),
                ..st2
            }.pushed(UOPV::Label(start));
            let cond = compiled(st3, c, false);
            let n = r.code.len();
            &&& starts_with(r.code, st.code.push(UOPV::Label(start)))
            &&& cond is Some
            &&& starts_with(r.code, cond.unwrap().code.push(UOPV::GotoF(end)))
            &&& n >= st.code.len() + 4
            &&& r.code[n - 2] == UOPV::Goto(start)
            &&& r.code[n - 1] == UOPV::Label(end)
        }),
{
    let r = compiled(st, Expr::While(Box::new(c), Box::new(b)), tail).unwrap();
    let (st1, start) = st.new_label();
    let (st2, end) = st1.new_label();
    let st3 = CtxV { breaks: st2.breaks.push(end), continues: st2.continues.push(start), ..st2 }.pushed(
        UOPV::Label(start),
    );
    lemma_compile_appends(st3, c, false);
    let st4 = compiled(st3, c, false).unwrap();
    let s5 = st4.pushed(UOPV::GotoF(end));
    lemma_compile_appends(s5, b, false);
    let st5 = compiled(s5, b, false).unwrap();
    lemma_starts_trans(s5.code, st5.code, r.code);
    lemma_starts_trans(st3.code, st4.code, s5.code);
    lemma_starts_trans(st3.code, s5.code, r.code);
    assert(st3.code == st.code.push(UOPV::Label(start)));
}

/// `continue` jumps to the innermost loop's start; `break` leaves its value
/// (null without one) and jumps to the innermost loop's end; `return`
/// leaves its value (null without one) and returns.
pub proof fn lemma_jumps(st: CtxV, e: Expr, tail: bool)
    requires
        e is Continue || e is Break || e is Return,
        compiled(st, e, tail) is Some,
    ensures
        ({
            let r = compiled(st, e, tail).unwrap();
            let n = r.code.len();
            &&& starts_with(r.code, st.code)
            &&& e is Continue ==> st.continues.len() > 0 && r.code == st.code.push(
                UOPV::Goto(st.continues.last()),
            )
            &&& e is Break ==> n >= st.code.len() + 1 && r.breaks.len() > 0 && r.code[n - 1]
                == UOPV::Goto(r.breaks.last())
            &&& (e matches Expr::Break(None) ==> r.code == st.code.push(
                UOPV::Op(OpV::Plain(Op::LoadNull)),
            ).push(UOPV::Goto(st.breaks.last())))
            &&& e is Return ==> n >= st.code.len() + 1 && r.code[n - 1] == UOPV::Op(OpV::Plain(Op::Ret))
            &&& (e matches Expr::Return(None) ==> r.code == st.code.push(
                UOPV::Op(OpV::Plain(Op::LoadNull)),
            ).push(UOPV::Op(OpV::Plain(Op::Ret))))
        }),
{
    lemma_compile_appends(st, e, tail);
    match e {
        Expr::Break(Some(x)) => {
            lemma_compile_appends(st, *x, false);
        },
        Expr::Return(Some(x)) => {
            lemma_compile_appends(st, *x, false);
        },
        _ => {},
    }
}

} // verus!
