//! What the JazzLight compiler's code means: compiling only appends to
//! the code buffer, and the loops jump where their conditions send them.

use vstd::prelude::*;
use crate::light::ast::{Expr, Literal};
use crate::light::codegen::{
    NameUse, args_down, array_down, block_rest, decls_rest, enter_loop, function_spec,
    light_compiled, write_named,
};
use crate::light::compiler::{LState, UOPV};
use crate::light::opcodes::Opcode;
use crate::operators::{Operator, operator_of};

verus! {

/// Whether code `b` begins with code `a`.
pub open spec fn code_prefix(a: Seq<UOPV>, b: Seq<UOPV>) -> bool {
    a.len() <= b.len() && forall|i: int| 0 <= i < a.len() ==> #[trigger] b[i] == a[i]
}

proof fn lemma_prefix_trans(a: Seq<UOPV>, b: Seq<UOPV>, c: Seq<UOPV>)
    requires
        code_prefix(a, b),
        code_prefix(b, c),
    ensures
        code_prefix(a, c),
{
    assert forall|i: int| 0 <= i < a.len() implies #[trigger] c[i] == a[i] by {
        assert(c[i] == b[i]);
    }
}

/// Compiling an expression only appends to the code: what was there stays.
pub proof fn lemma_compile_appends(st: LState, e: Expr)
    requires
        light_compiled(st, e) is Some,
    ensures
        code_prefix(st.code, light_compiled(st, e).unwrap().code),
    decreases e, 2int, 0int,
{
    let r = light_compiled(st, e).unwrap();
    match e {
        Expr::FromImport(id, f, decls) => {
            let ds = decls@.map_values(|d: String| d@);
            let n = crate::light::codegen::import_name(id);
            let st1 = crate::light::codegen::load_new_const(
                st,
                crate::light::value::ConstantV::Str(f@),
            ).wrote(Opcode::NewObj);
            let st2 = crate::light::codegen::write_named(
                st1,
                crate::light::codegen::NameUse::Load,
                "require"@,
            ).unwrap();
            let st3 = crate::light::codegen::write_named(
                st2.wrote(Opcode::Call(1)),
                crate::light::codegen::NameUse::Decl,
                n,
            ).unwrap();
            lemma_decls_appends(st3, n, ds, 0);
            assert(code_prefix(st.code, st3.code));
            lemma_prefix_trans(st.code, st3.code, r.code);
        },
        Expr::Const(Literal::Array(values)) => {
            lemma_array_appends(st, e, values@.len() as int);
            let st1 = array_down(st, e, values@.len() as int).unwrap();
            lemma_prefix_trans(st.code, st1.code, r.code);
        },
        Expr::Yield(x) => {
            lemma_compile_appends(st.pushed(UOPV::BEnd), *x);
            let st1 = light_compiled(st.pushed(UOPV::BEnd), *x).unwrap();
            lemma_prefix_trans(st.code, st1.code, r.code);
        },
        Expr::Array(a, i) => {
            lemma_compile_appends(st, *a);
            let st1 = light_compiled(st, *a).unwrap();
            lemma_compile_appends(st1, *i);
            let st2 = light_compiled(st1, *i).unwrap();
            lemma_prefix_trans(st.code, st1.code, st2.code);
            lemma_prefix_trans(st.code, st2.code, r.code);
        },
        Expr::Block(_) => {
            let st0 = st.pushed(UOPV::BStart).wrote(Opcode::PushEnv);
            lemma_block_appends(st0, e, 0);
            let st1 = block_rest(st0, e, 0).unwrap();
            lemma_prefix_trans(st.code, st1.code, r.code);
        },
        Expr::Break(oe) => {
            match oe {
                Some(x) => {
                    lemma_compile_appends(st, *x);
                    let st1 = light_compiled(st, *x).unwrap();
                    lemma_prefix_trans(st.code, st1.code, r.code);
                },
                None => {},
            }
        },
        Expr::Return(oe) => {
            match oe {
                Some(x) => {
                    lemma_compile_appends(st, *x);
                    let st1 = light_compiled(st, *x).unwrap();
                    lemma_prefix_trans(st.code, st1.code, r.code);
                },
                None => {},
            }
        },
        Expr::Throw(x) => {
            lemma_compile_appends(st, *x);
            let st1 = light_compiled(st, *x).unwrap();
            lemma_prefix_trans(st.code, st1.code, r.code);
        },
        Expr::Unop(_, x) => {
            lemma_compile_appends(st, *x);
            let st1 = light_compiled(st, *x).unwrap();
            lemma_prefix_trans(st.code, st1.code, r.code);
        },
        Expr::Binop(_, l, rr) => {
            lemma_compile_appends(st, *rr);
            let st1 = light_compiled(st, *rr).unwrap();
            lemma_compile_appends(st1, *l);
            let st2 = light_compiled(st1, *l).unwrap();
            lemma_prefix_trans(st.code, st1.code, st2.code);
            lemma_prefix_trans(st.code, st2.code, r.code);
        },
        Expr::Assign(lhs, rhs) => {
            let st0 = st.wrote(Opcode::Dup);
            match *lhs {
                Expr::Field(obj, f) => {
                    lemma_compile_appends(st0, *obj);
                    let st1 = light_compiled(st0, *obj).unwrap();
                    let st1b = crate::light::codegen::load_new_const(
                        st1,
                        crate::light::value::ConstantV::Str(f@),
                    );
                    lemma_compile_appends(st1b, *rhs);
                    let st2 = light_compiled(st1b, *rhs).unwrap();
                    lemma_prefix_trans(st.code, st1.code, st2.code);
                    lemma_prefix_trans(st.code, st2.code, r.code);
                },
                Expr::Array(a, i) => {
                    lemma_compile_appends(st0, *a);
                    let st1 = light_compiled(st0, *a).unwrap();
                    lemma_compile_appends(st1, *i);
                    let st2 = light_compiled(st1, *i).unwrap();
                    lemma_compile_appends(st2, *rhs);
                    let st3 = light_compiled(st2, *rhs).unwrap();
                    lemma_prefix_trans(st.code, st1.code, st2.code);
                    lemma_prefix_trans(st.code, st2.code, st3.code);
                    lemma_prefix_trans(st.code, st3.code, r.code);
                },
                _ => {
                    lemma_compile_appends(st0, *rhs);
                    let st1 = light_compiled(st0, *rhs).unwrap();
                    lemma_prefix_trans(st.code, st1.code, r.code);
                },
            }
        },
        Expr::Function(args, body) => {
            lemma_function_appends(st, *body, args@.map_values(|a: String| a@), None);
        },
        Expr::FunctionDecl(n, args, body) => {
            lemma_function_appends(st, *body, args@.map_values(|a: String| a@), Some(n@));
        },
        Expr::New(f, el) => {
            lemma_args_appends(st, e, el@.len() as int);
            let st1 = args_down(st, e, el@.len() as int).unwrap();
            lemma_compile_appends(st1.wrote(Opcode::NewObj), *f);
            let st2 = light_compiled(st1.wrote(Opcode::NewObj), *f).unwrap();
            lemma_prefix_trans(st.code, st1.code, st2.code);
            lemma_prefix_trans(st.code, st2.code, r.code);
        },
        Expr::Call(f, el) => {
            lemma_args_appends(st, e, el@.len() as int);
            let st1 = args_down(st, e, el@.len() as int).unwrap();
            match *f {
                Expr::Field(obj, _) => {
                    lemma_compile_appends(st1, *obj);
                    let st2 = light_compiled(st1, *obj).unwrap();
                    lemma_prefix_trans(st.code, st1.code, st2.code);
                    lemma_prefix_trans(st.code, st2.code, r.code);
                },
                _ => {
                    lemma_compile_appends(st1.wrote(Opcode::NewObj), *f);
                    let st2 = light_compiled(st1.wrote(Opcode::NewObj), *f).unwrap();
                    lemma_prefix_trans(st.code, st1.code, st2.code);
                    lemma_prefix_trans(st.code, st2.code, r.code);
                },
            }
        },
        Expr::Var(_, init) => {
            match init {
                Some(x) => {
                    lemma_compile_appends(st, *x);
                    let st1 = light_compiled(st, *x).unwrap();
                    lemma_prefix_trans(st.code, st1.code, r.code);
                },
                None => {},
            }
        },
        Expr::Try(x, v, b) => {
            let (st1, cl) = st.new_label();
            let (st2, el) = st1.new_label();
            let s0 = st2.pushed(UOPV::PAddr(cl)).pushed(UOPV::BStart);
            lemma_compile_appends(s0, *x);
            let st3 = light_compiled(s0, *x).unwrap();
            let st4 = st3.pushed(UOPV::Goto(el)).pushed(UOPV::BEnd).pushed(UOPV::Label(cl)).wrote(
                Opcode::PushEnv,
            );
            let st5 = crate::light::codegen::write_named(
                st4,
                crate::light::codegen::NameUse::Decl,
                v@,
            ).unwrap();
            lemma_compile_appends(st5.pushed(UOPV::BStart), *b);
            let st6 = light_compiled(st5.pushed(UOPV::BStart), *b).unwrap();
            lemma_prefix_trans(st.code, st3.code, st6.code);
            lemma_prefix_trans(st.code, st6.code, r.code);
        },
        Expr::If(c, b, o) => {
            let s0 = st.pushed(UOPV::BEnd).pushed(UOPV::BStart);
            lemma_compile_appends(s0, *c);
            let st1 = light_compiled(s0, *c).unwrap();
            let (st2, endl) = st1.new_label();
            let (st3, iff) = st2.new_label();
            let st4 = st3.pushed(UOPV::GotoF(iff)).pushed(UOPV::BEnd).pushed(UOPV::BStart);
            lemma_compile_appends(st4, *b);
            let st5 = light_compiled(st4, *b).unwrap();
            lemma_prefix_trans(st.code, st1.code, st5.code);
            let st6 = st5.pushed(UOPV::Goto(endl)).pushed(UOPV::BEnd).pushed(UOPV::Label(iff)).pushed(
                UOPV::BStart,
            );
            match o {
                Some(x) => {
                    lemma_compile_appends(st6, *x);
                    let st7 = light_compiled(st6, *x).unwrap();
                    lemma_prefix_trans(st.code, st5.code, st7.code);
                    lemma_prefix_trans(st.code, st7.code, r.code);
                },
                None => {
                    lemma_prefix_trans(st.code, st5.code, r.code);
                },
            }
        },
        Expr::DoWhile(c, b) => {
            lemma_do_while_parts(st, *c, *b);
        },
        Expr::ForIn(n, inx, body) => {
            lemma_for_in_parts(st, n, *inx, *body);
        },
        Expr::While(c, b) => {
            let (st1, check) = st.new_label();
            let (st2, endl) = st1.new_label();
            let st3 = crate::light::codegen::enter_loop(st2, endl, check).pushed(UOPV::BEnd).pushed(
                UOPV::Label(check),
            ).pushed(UOPV::BStart);
            lemma_compile_appends(st3, *c);
            let st4 = light_compiled(st3, *c).unwrap();
            let s5 = st4.pushed(UOPV::GotoF(endl)).pushed(UOPV::BEnd).pushed(UOPV::BStart);
            lemma_compile_appends(s5, *b);
            let st5 = light_compiled(s5, *b).unwrap();
            lemma_prefix_trans(st.code, st4.code, st5.code);
            lemma_prefix_trans(st.code, st5.code, r.code);
        },
        Expr::Field(obj, f) => {
            let s0 = crate::light::codegen::new_const(
                st,
                crate::light::value::ConstantV::Str(f@),
            ).0;
            lemma_compile_appends(s0, *obj);
            let st1 = light_compiled(s0, *obj).unwrap();
            lemma_prefix_trans(st.code, st1.code, r.code);
        },
        Expr::Paren(x) => {
            lemma_compile_appends(st, *x);
        },
        _ => {},
    }
}

proof fn lemma_decls_appends(st: LState, name: Seq<char>, ds: Seq<Seq<char>>, i: int)
    requires
        decls_rest(st, name, ds, i) is Some,
    ensures
        code_prefix(st.code, decls_rest(st, name, ds, i).unwrap().code),
    decreases ds.len() - i,
{
    if 0 <= i < ds.len() {
        let st1 = crate::light::codegen::write_named(
            st,
            crate::light::codegen::NameUse::Load,
            name,
        ).unwrap();
        let st2 = crate::light::codegen::write_named(
            crate::light::codegen::load_new_const(
                st1,
                crate::light::value::ConstantV::Str(ds[i]),
            ).wrote(Opcode::Load),
            crate::light::codegen::NameUse::Decl,
            ds[i],
        ).unwrap();
        lemma_decls_appends(st2, name, ds, i + 1);
        lemma_prefix_trans(st.code, st2.code, decls_rest(st, name, ds, i).unwrap().code);
    }
}

proof fn lemma_block_appends(st: LState, e: Expr, i: int)
    requires
        block_rest(st, e, i) is Some,
    ensures
        code_prefix(st.code, block_rest(st, e, i).unwrap().code),
    decreases e, 1int, crate::light::codegen::block_len(e) - i,
{
    match e {
        Expr::Block(v) => {
            if 0 <= i < v@.len() {
                lemma_compile_appends(st, v@[i]);
                let st1 = light_compiled(st, v@[i]).unwrap();
                lemma_block_appends(st1, e, i + 1);
                lemma_prefix_trans(st.code, st1.code, block_rest(st, e, i).unwrap().code);
            }
        },
        _ => {},
    }
}

proof fn lemma_array_appends(st: LState, e: Expr, k: int)
    requires
        array_down(st, e, k) is Some,
    ensures
        code_prefix(st.code, array_down(st, e, k).unwrap().code),
    decreases e, 1int, k,
{
    match e {
        Expr::Const(Literal::Array(v)) => {
            if 0 < k <= v@.len() {
                lemma_compile_appends(st, v@[k - 1]);
                let st1 = light_compiled(st, v@[k - 1]).unwrap();
                lemma_array_appends(st1, e, k - 1);
                lemma_prefix_trans(st.code, st1.code, array_down(st, e, k).unwrap().code);
            }
        },
        _ => {},
    }
}

proof fn lemma_args_appends(st: LState, e: Expr, k: int)
    requires
        args_down(st, e, k) is Some,
    ensures
        code_prefix(st.code, args_down(st, e, k).unwrap().code),
    decreases e, 1int, k,
{
    match e {
        Expr::Call(_, v) => {
            if 0 < k <= v@.len() {
                lemma_compile_appends(st, v@[k - 1]);
                let st1 = light_compiled(st, v@[k - 1]).unwrap();
                lemma_args_appends(st1, e, k - 1);
                lemma_prefix_trans(st.code, st1.code, args_down(st, e, k).unwrap().code);
            }
        },
        Expr::New(_, v) => {
            if 0 < k <= v@.len() {
                lemma_compile_appends(st, v@[k - 1]);
                let st1 = light_compiled(st, v@[k - 1]).unwrap();
                lemma_args_appends(st1, e, k - 1);
                lemma_prefix_trans(st.code, st1.code, args_down(st, e, k).unwrap().code);
            }
        },
        _ => {},
    }
}

proof fn lemma_function_appends(
    st: LState,
    body: Expr,
    args: Seq<Seq<char>>,
    name: Option<Seq<char>>,
)
    requires
        function_spec(st, body, args, name) is Some,
    ensures
        code_prefix(st.code, function_spec(st, body, args, name).unwrap().code),
    decreases body, 3int, 0int,
{
}

/// A `do ... while` loop, compiled: its two fresh labels (its end first,
/// then its start), the start marked right before the body's code, and the
/// code ending with the jump back to the start taken when the condition is
/// true, then the end label.
pub proof fn lemma_do_while_parts(st: LState, c: Expr, b: Expr)
    requires
        light_compiled(st, Expr::DoWhile(Box::new(c), Box::new(b))) is Some,
    ensures
        ({
            let r = light_compiled(st, Expr::DoWhile(Box::new(c), Box::new(b))).unwrap();
            let (st1, endl) = st.new_label();
            let startl = st1.new_label().1;
            let n = r.code.len();
            let st3 = enter_loop(st1.new_label().0, endl, startl).pushed(UOPV::BEnd).pushed(
                UOPV::Label(startl),
            ).pushed(UOPV::BStart);
            &&& code_prefix(st.code.push(UOPV::BEnd).push(UOPV::Label(startl)).push(UOPV::BStart), r.code)
            &&& light_compiled(st3, b) is Some
            &&& code_prefix(light_compiled(st3, b).unwrap().code.push(UOPV::BEnd).push(UOPV::BStart), r.code)
            &&& n >= st.code.len() + 6
            &&& r.code[n - 3] == UOPV::GotoT(startl)
            &&& r.code[n - 2] == UOPV::BEnd
            &&& r.code[n - 1] == UOPV::Label(endl)
        }),
    decreases Expr::DoWhile(Box::new(c), Box::new(b)), 1int, 0int,
{
    let r = light_compiled(st, Expr::DoWhile(Box::new(c), Box::new(b))).unwrap();
    let (st1, endl) = st.new_label();
    let (st2, startl) = st1.new_label();
    let st3 = crate::light::codegen::enter_loop(st2, endl, startl).pushed(UOPV::BEnd).pushed(
        UOPV::Label(startl),
    ).pushed(UOPV::BStart);
    lemma_compile_appends(st3, b);
    let st4 = light_compiled(st3, b).unwrap();
    let s5 = st4.pushed(UOPV::BEnd).pushed(UOPV::BStart);
    lemma_compile_appends(s5, c);
    let st5 = light_compiled(s5, c).unwrap();
    lemma_prefix_trans(st3.code, st4.code, st5.code);
    lemma_prefix_trans(st3.code, st5.code, r.code);
    lemma_prefix_trans(s5.code, st5.code, r.code);
    assert(st3.code =~= st.code.push(UOPV::BEnd).push(UOPV::Label(startl)).push(UOPV::BStart));
}

/// A `while` loop, compiled: its two fresh labels (its condition check
/// first, then its end), the check marked before the condition's code,
/// right after it the jump to the end taken when the condition is false,
/// and the code ending with the jump back to the check, then the end label.
pub proof fn lemma_while_parts(st: LState, c: Expr, b: Expr)
    requires
        light_compiled(st, Expr::While(Box::new(c), Box::new(b))) is Some,
    ensures
        ({
            let r = light_compiled(st, Expr::While(Box::new(c), Box::new(b))).unwrap();
            let (st1, check) = st.new_label();
            let (st2, endl) = st1.new_label();
            let st3 = enter_loop(st2, endl, check).pushed(UOPV::BEnd).pushed(UOPV::Label(check)).pushed(
                UOPV::BStart,
            );
            let n = r.code.len();
            &&& code_prefix(st3.code, r.code)
            &&& st3.code == st.code.push(UOPV::BEnd).push(UOPV::Label(check)).push(UOPV::BStart)
            &&& light_compiled(st3, c) is Some
            &&& code_prefix(light_compiled(st3, c).unwrap().code.push(UOPV::GotoF(endl)), r.code)
            &&& n >= st.code.len() + 7
            &&& r.code[n - 3] == UOPV::Goto(check)
            &&& r.code[n - 2] == UOPV::BEnd
            &&& r.code[n - 1] == UOPV::Label(endl)
        }),
{
    let r = light_compiled(st, Expr::While(Box::new(c), Box::new(b))).unwrap();
    let (st1, check) = st.new_label();
    let (st2, endl) = st1.new_label();
    let st3 = enter_loop(st2, endl, check).pushed(UOPV::BEnd).pushed(UOPV::Label(check)).pushed(
        UOPV::BStart,
    );
    lemma_compile_appends(st3, c);
    let st4 = light_compiled(st3, c).unwrap();
    let s5 = st4.pushed(UOPV::GotoF(endl)).pushed(UOPV::BEnd).pushed(UOPV::BStart);
    lemma_compile_appends(s5, b);
    let st5 = light_compiled(s5, b).unwrap();
    assert(code_prefix(st4.code.push(UOPV::GotoF(endl)), s5.code));
    lemma_prefix_trans(st4.code.push(UOPV::GotoF(endl)), s5.code, st5.code);
    lemma_prefix_trans(st4.code.push(UOPV::GotoF(endl)), st5.code, r.code);
    assert(code_prefix(st3.code, st4.code.push(UOPV::GotoF(endl))));
    lemma_prefix_trans(st3.code, st4.code.push(UOPV::GotoF(endl)), r.code);
    assert(st3.code =~= st.code.push(UOPV::BEnd).push(UOPV::Label(check)).push(UOPV::BStart));
}

/// `if c b else o`, compiled: its two fresh labels (the end first, then the
/// else branch), right after the condition's code the jump to the else
/// label taken when the condition is false, then the branch's code, a jump
/// to the end and the else label; the code ends with the end label.
pub proof fn lemma_if_parts(st: LState, c: Expr, b: Expr, o: Option<Box<Expr>>)
    requires
        light_compiled(st, Expr::If(Box::new(c), Box::new(b), o)) is Some,
    ensures
        ({
            let r = light_compiled(st, Expr::If(Box::new(c), Box::new(b), o)).unwrap();
            let s0 = st.pushed(UOPV::BEnd).pushed(UOPV::BStart);
            let cond = light_compiled(s0, c);
            let (st2, endl) = cond.unwrap().new_label();
            let iff = st2.new_label().1;
            let st4 = st2.new_label().0.pushed(UOPV::GotoF(iff)).pushed(UOPV::BEnd).pushed(
                UOPV::BStart,
            );
            let n = r.code.len();
            &&& cond is Some
            &&& code_prefix(s0.code, r.code)
            &&& code_prefix(cond.unwrap().code.push(UOPV::GotoF(iff)), r.code)
            &&& light_compiled(st4, b) is Some
            &&& code_prefix(
                light_compiled(st4, b).unwrap().code.push(UOPV::Goto(endl)).push(UOPV::BEnd).push(
                    UOPV::Label(iff),
                ),
                r.code,
            )
            &&& n >= 2
            &&& r.code[n - 2] == UOPV::Label(endl)
            &&& r.code[n - 1] == UOPV::BEnd
        }),
{
    let r = light_compiled(st, Expr::If(Box::new(c), Box::new(b), o)).unwrap();
    let s0 = st.pushed(UOPV::BEnd).pushed(UOPV::BStart);
    lemma_compile_appends(s0, c);
    let st1 = light_compiled(s0, c).unwrap();
    let (st2, endl) = st1.new_label();
    let (st3, iff) = st2.new_label();
    let st4 = st3.pushed(UOPV::GotoF(iff)).pushed(UOPV::BEnd).pushed(UOPV::BStart);
    lemma_compile_appends(st4, b);
    let st5 = light_compiled(st4, b).unwrap();
    let st6 = st5.pushed(UOPV::Goto(endl)).pushed(UOPV::BEnd).pushed(UOPV::Label(iff)).pushed(
        UOPV::BStart,
    );
    let head = st5.code.push(UOPV::Goto(endl)).push(UOPV::BEnd).push(UOPV::Label(iff));
    assert(code_prefix(head, st6.code));
    let st7 = match o {
        Some(x) => {
            lemma_compile_appends(st6, *x);
            light_compiled(st6, *x).unwrap()
        },
        None => st6,
    };
    lemma_prefix_trans(head, st6.code, st7.code);
    assert(code_prefix(st7.code, r.code));
    lemma_prefix_trans(head, st7.code, r.code);
    assert(code_prefix(st1.code.push(UOPV::GotoF(iff)), st4.code));
    lemma_prefix_trans(st1.code.push(UOPV::GotoF(iff)), st4.code, st5.code);
    lemma_prefix_trans(st1.code.push(UOPV::GotoF(iff)), st5.code, r.code);
    lemma_prefix_trans(s0.code, st1.code, r.code);
}

/// A `for n in e body` loop, compiled: right after the test whether the
/// iterator has a next element comes the jump to the loop's end (its
/// second fresh label) taken when it has none, and the code ends with that
/// label.
pub proof fn lemma_for_in_parts(st: LState, n: String, inx: Expr, body: Expr)
    requires
        light_compiled(st, Expr::ForIn(n, Box::new(inx), Box::new(body))) is Some,
    ensures
        ({
            let r = light_compiled(st, Expr::ForIn(n, Box::new(inx), Box::new(body))).unwrap();
            let (st1, check) = st.new_label();
            let endl = st1.new_label().1;
            &&& code_prefix(st.code, r.code)
            &&& exists|i: int|
                st.code.len() + 2 <= i < r.code.len() - 1 && r.code[i - 2] == UOPV::Label(check)
                    && r.code[i] == UOPV::Op(Opcode::IterHasNext) && #[trigger] r.code[i + 1]
                    == UOPV::GotoF(endl)
            &&& r.code.len() >= 3
            &&& r.code[r.code.len() - 3] == UOPV::Goto(check)
            &&& r.code[r.code.len() - 1] == UOPV::Label(endl)
        }),
    decreases Expr::ForIn(n, Box::new(inx), Box::new(body)), 1int, 0int,
{
    let r = light_compiled(st, Expr::ForIn(n, Box::new(inx), Box::new(body))).unwrap();
    let (st1, check) = st.new_label();
    let (st2, endl) = st1.new_label();
    let st3 = enter_loop(st2, endl, check).pushed(UOPV::BEnd).wrote(Opcode::PushEnv).wrote(
        Opcode::LoadNil,
    );
    let st4 = write_named(st3, NameUse::Decl, n@).unwrap();
    lemma_compile_appends(st4, inx);
    let st5 = light_compiled(st4, inx).unwrap();
    let st6 = write_named(st5.wrote(Opcode::NewIter), NameUse::Decl, "@iterator"@).unwrap();
    let st7 = write_named(st6.pushed(UOPV::Label(check)), NameUse::Load, "@iterator"@).unwrap();
    let st8 = write_named(
        st7.wrote(Opcode::IterHasNext).pushed(UOPV::GotoF(endl)).wrote(Opcode::PushEnv),
        NameUse::Load,
        "@iterator"@,
    ).unwrap();
    let st9 = write_named(st8.wrote(Opcode::IterNext), NameUse::Store, n@).unwrap();
    lemma_compile_appends(st9, body);
    let st10 = light_compiled(st9, body).unwrap();
    assert(code_prefix(st.code, st4.code));
    assert(code_prefix(st5.code, st7.code));
    lemma_prefix_trans(st.code, st4.code, st5.code);
    lemma_prefix_trans(st.code, st5.code, st7.code);
    let i = st7.code.len() as int;
    assert(code_prefix(st6.code.push(UOPV::Label(check)), st7.code));
    assert(code_prefix(st7.code.push(UOPV::Op(Opcode::IterHasNext)).push(UOPV::GotoF(endl)), st9.code));
    lemma_prefix_trans(
        st7.code.push(UOPV::Op(Opcode::IterHasNext)).push(UOPV::GotoF(endl)),
        st9.code,
        st10.code,
    );
    lemma_prefix_trans(
        st7.code.push(UOPV::Op(Opcode::IterHasNext)).push(UOPV::GotoF(endl)),
        st10.code,
        r.code,
    );
    lemma_prefix_trans(st.code, st7.code, st9.code);
    lemma_prefix_trans(st.code, st9.code, st10.code);
    lemma_prefix_trans(st.code, st10.code, r.code);
    lemma_prefix_trans(st6.code.push(UOPV::Label(check)), st7.code, r.code);
    assert(r.code[i - 2] == UOPV::Label(check));
    assert(r.code[i] == UOPV::Op(Opcode::IterHasNext));
    assert(r.code[i + 1] == UOPV::GotoF(endl));
}

/// A binary operator, compiled: the right operand's code, then the left
/// operand's, then the operator's one instruction.
pub proof fn lemma_binop_order(st: LState, op: String, l: Expr, rr: Expr)
    requires
        light_compiled(st, Expr::Binop(op, Box::new(l), Box::new(rr))) is Some,
    ensures
        ({
            let r = light_compiled(st, Expr::Binop(op, Box::new(l), Box::new(rr))).unwrap();
            let right = light_compiled(st, rr);
            let left = light_compiled(right.unwrap(), l);
            &&& right is Some
            &&& left is Some
            &&& code_prefix(st.code, right.unwrap().code)
            &&& code_prefix(right.unwrap().code, left.unwrap().code)
            &&& operator_of(op@) is Some
            &&& r.code == left.unwrap().code.push(
                UOPV::Op(
                    match operator_of(op@).unwrap() {
                        Operator::Plus => Opcode::Add,
                        Operator::Minus => Opcode::Sub,
                        Operator::Slash => Opcode::Div,
                        Operator::Star => Opcode::Mul,
                        Operator::Percent => Opcode::Rem,
                        Operator::AndAnd => Opcode::And,
                        Operator::OrOr => Opcode::Or,
                        Operator::Gt => Opcode::Gt,
                        Operator::Lt => Opcode::Lt,
                        Operator::Gte => Opcode::Ge,
                        Operator::Lte => Opcode::Le,
                        Operator::EqEq => Opcode::Eq,
                        Operator::NotEq => Opcode::Ne,
                        Operator::Shr => Opcode::Shr,
                        Operator::Shl => Opcode::Shl,
                        Operator::Pipe => Opcode::BitOr,
                        Operator::Amp => Opcode::BitAnd,
                        Operator::Caret => Opcode::BitXor,
                        Operator::Bang => Opcode::Not,
                    },
                ),
            )
        }),
{
    lemma_compile_appends(st, rr);
    let right = light_compiled(st, rr).unwrap();
    lemma_compile_appends(right, l);
}

/// A unary `-` compiles to its operand's code and `Neg`, a `!` to its
/// operand's code and `Not`, a `+` to its operand's code alone.
pub proof fn lemma_unop_instr(st: LState, op: String, x: Expr)
    requires
        light_compiled(st, Expr::Unop(op, Box::new(x))) is Some,
    ensures
        ({
            let r = light_compiled(st, Expr::Unop(op, Box::new(x))).unwrap();
            let v = light_compiled(st, x);
            &&& v is Some
            &&& operator_of(op@) == Some(Operator::Minus) ==> r.code == v.unwrap().code.push(
                UOPV::Op(Opcode::Neg),
            )
            &&& operator_of(op@) == Some(Operator::Bang) ==> r.code == v.unwrap().code.push(
                UOPV::Op(Opcode::Not),
            )
            &&& operator_of(op@) == Some(Operator::Plus) ==> r.code == v.unwrap().code
        }),
{
}

/// `continue` jumps to the innermost loop's continue label; `break` leaves
/// its value (nil without one) and jumps to the innermost loop's break
/// label; `return` leaves its value, pops the environment and jumps to the
/// return label.
pub proof fn lemma_jumps(st: LState, e: Expr)
    requires
        e is Continue || e is Break || e is Return,
        light_compiled(st, e) is Some,
    ensures
        ({
            let r = light_compiled(st, e).unwrap();
            let n = r.code.len();
            &&& code_prefix(st.code, r.code)
            &&& e is Continue ==> st.continues.len() > 0 && r.code == st.code.push(
                UOPV::Goto(st.continues.last()),
            )
            &&& e is Break ==> n >= st.code.len() + 1 && r.breaks.len() > 0 && r.code[n - 1]
                == UOPV::Goto(r.breaks.last())
            &&& (e matches Expr::Break(None) ==> r.code == st.code.push(UOPV::Op(Opcode::LoadNil)).push(
                UOPV::Goto(st.breaks.last()),
            ))
            &&& e is Return ==> n >= st.code.len() + 2 && r.code[n - 2] == UOPV::Op(Opcode::PopEnv)
                && r.code[n - 1] == UOPV::Goto(r.ret)
        }),
{
    lemma_compile_appends(st, e);
    match e {
        Expr::Break(Some(x)) => {
            lemma_compile_appends(st, *x);
        },
        Expr::Return(Some(x)) => {
            lemma_compile_appends(st, *x);
        },
        _ => {},
    }
}

} // verus!
