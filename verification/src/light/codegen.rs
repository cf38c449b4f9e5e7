//! Compiling a JazzLight syntax tree into the compiler's code buffer: each
//! expression leaves its value on the stack; names go through the symbol
//! table, literals that need one through the constant pool; blocks are
//! marked for the basic-block builder, and jumps go to named labels.
//!
//! `light_compiled` states what compiling an expression does to the
//! compiler's state, the module's constants and its symbols, or `None`
//! where compiling it fails: an `include` (its file is read by the
//! caller), a `break` or `continue` outside a loop, an unknown operator,
//! an assignment to what is not a place, or a symbol table that is full.

use vstd::prelude::*;
use vstd::string::StringExecFns;
use crate::labels::{decimal, usize_to_string};
use crate::lhm::{label_slots, lhm_insert};
use crate::light::ast::{Expr, Literal};
use crate::light::compiler::{Compiler, LState, UOP, UOPV};
use crate::light::opcodes::{Name, Opcode};
use crate::light::symbols::{Symbols, intern_index, interned};
use crate::light::value::{Constant, ConstantV, Function};
use crate::operators::{Operator, operator_of, parse_operator};

verus! {

/// How an instruction uses a name.
#[derive(Copy, Clone, PartialEq, Eq, Structural)]
pub enum NameUse {
    Load,
    Decl,
    Store,
}

/// The instruction that uses name `n` so.
pub open spec fn named_op(k: NameUse, n: Name) -> Opcode {
    match k {
        NameUse::Load => Opcode::LoadVar(n),
        NameUse::Decl => Opcode::DeclVar(n),
        NameUse::Store => Opcode::StoreVar(n),
    }
}

/// Writing an instruction that uses name `x`, interned into the symbols;
/// `None` when the symbol table is full.
pub open spec fn write_named(st: LState, k: NameUse, x: Seq<char>) -> Option<LState> {
    if st.symbols.len() >= u32::MAX {
        None
    } else {
        Some(
            LState { symbols: interned(st.symbols, x), ..st }.wrote(
                named_op(k, Name(intern_index(st.symbols, x) as u32)),
            ),
        )
    }
}

/// Adding constant `c` to the pool, with its slot.
pub open spec fn new_const(st: LState, c: ConstantV) -> (LState, usize) {
    (LState { constants: st.constants.push(c), ..st }, st.constants.len() as usize)
}

/// Adding constant `c` to the pool and loading it.
pub open spec fn load_new_const(st: LState, c: ConstantV) -> LState {
    let (st1, loc) = new_const(st, c);
    st1.wrote(Opcode::LoadConst(loc as u32))
}

/// The instruction of a binary operator, if it has one.
pub open spec fn binop_op(o: Operator) -> Option<Opcode> {
    match o {
        Operator::Plus => Some(Opcode::Add),
        Operator::Minus => Some(Opcode::Sub),
        Operator::Slash => Some(Opcode::Div),
        Operator::Star => Some(Opcode::Mul),
        Operator::Percent => Some(Opcode::Rem),
        Operator::AndAnd => Some(Opcode::And),
        Operator::OrOr => Some(Opcode::Or),
        Operator::Gt => Some(Opcode::Gt),
        Operator::Lt => Some(Opcode::Lt),
        Operator::Gte => Some(Opcode::Ge),
        Operator::Lte => Some(Opcode::Le),
        Operator::EqEq => Some(Opcode::Eq),
        Operator::NotEq => Some(Opcode::Ne),
        Operator::Shr => Some(Opcode::Shr),
        Operator::Shl => Some(Opcode::Shl),
        Operator::Pipe => Some(Opcode::BitOr),
        Operator::Amp => Some(Opcode::BitAnd),
        Operator::Caret => Some(Opcode::BitXor),
        Operator::Bang => None,
    }
}

/// The name a `from ... import` binds its module to.
pub open spec fn import_name(id: usize) -> Seq<char> {
    "@import_"@ + decimal(id as nat)
}

/// The names taken from an imported module, from the `i`-th on: each is
/// read from the module object and declared.
pub open spec fn decls_rest(st: LState, name: Seq<char>, ds: Seq<Seq<char>>, i: int) -> Option<
    LState,
>
    decreases ds.len() - i,
{
    if i < 0 || i >= ds.len() {
        Some(st)
    } else {
        match write_named(st, NameUse::Load, name) {
            None => None,
            Some(st1) => match write_named(
                load_new_const(st1, ConstantV::Str(ds[i])).wrote(Opcode::Load),
                NameUse::Decl,
                ds[i],
            ) {
                None => None,
                Some(st2) => decls_rest(st2, name, ds, i + 1),
            },
        }
    }
}

/// The number of elements of a block.
pub open spec fn block_len(e: Expr) -> int {
    match e {
        Expr::Block(v) => v@.len() as int,
        _ => 0,
    }
}

/// The number of values of an array literal.
pub open spec fn array_len(e: Expr) -> int {
    match e {
        Expr::Const(Literal::Array(v)) => v@.len() as int,
        _ => 0,
    }
}

/// Compiling the elements of block `e` from the `i`-th on.
pub open spec fn block_rest(st: LState, e: Expr, i: int) -> Option<LState>
    decreases e, 1int, block_len(e) - i,
{
    match e {
        Expr::Block(v) => if i < 0 || i >= v@.len() {
            Some(st)
        } else {
            match light_compiled(st, v@[i]) {
                Some(st1) => block_rest(st1, e, i + 1),
                None => None,
            }
        },
        _ => Some(st),
    }
}

/// Compiling the values `k - 1`, ..., `0` of array literal `e`, in that
/// order.
pub open spec fn array_down(st: LState, e: Expr, k: int) -> Option<LState>
    decreases e, 1int, k,
{
    match e {
        Expr::Const(Literal::Array(v)) => if k <= 0 || k > v@.len() {
            Some(st)
        } else {
            match light_compiled(st, v@[k - 1]) {
                Some(st1) => array_down(st1, e, k - 1),
                None => None,
            }
        },
        _ => Some(st),
    }
}

/// Compiling the arguments `k - 1`, ..., `0` of call or `new` `e`, in that
/// order.
pub open spec fn args_down(st: LState, e: Expr, k: int) -> Option<LState>
    decreases e, 1int, k,
{
    match e {
        Expr::Call(_, v) => if k <= 0 || k > v@.len() {
            Some(st)
        } else {
            match light_compiled(st, v@[k - 1]) {
                Some(st1) => args_down(st1, e, k - 1),
                None => None,
            }
        },
        Expr::New(_, v) => if k <= 0 || k > v@.len() {
            Some(st)
        } else {
            match light_compiled(st, v@[k - 1]) {
                Some(st1) => args_down(st1, e, k - 1),
                None => None,
            }
        },
        _ => Some(st),
    }
}

/// The constant that holds a function's place in the pool until its code
/// is laid out: the function at address 0.
pub open spec fn function_placeholder(args: Seq<Seq<char>>) -> ConstantV {
    ConstantV::Func { addr: 0, args, set: false, get: false }
}

/// Compiling a function: its body is compiled into a code block of its own,
/// which returns through a fresh label; the block is kept with the
/// function's constant slot and parameters, and the code before it comes
/// back. The function is then loaded, and, when it has a name, declared
/// under it with its environment set up.
pub open spec fn function_spec(
    st: LState,
    body: Expr,
    args: Seq<Seq<char>>,
    name: Option<Seq<char>>,
) -> Option<LState>
    decreases body, 3int, 0int,
{
    let (st1, r) = LState { code: Seq::empty(), ..st }.new_label();
    match light_compiled(LState { ret: r, ..st1 }, body) {
        None => None,
        Some(st2) => {
            let st3 = st2.pushed(UOPV::Label(r)).wrote(Opcode::Return);
            let gid = st3.constants.len();
            let st4 = LState {
                functions: st3.functions.push((st3.code, gid as u32, args)),
                constants: st3.constants.push(function_placeholder(args)),
                code: st.code,
                ..st3
            }.wrote(Opcode::LoadConst(gid as u32));
            match name {
                None => Some(st4.wrote(Opcode::InitEnv)),
                Some(n) => match write_named(st4, NameUse::Decl, n) {
                    None => None,
                    Some(st5) => match write_named(st5, NameUse::Load, n) {
                        None => None,
                        Some(st6) => write_named(st6.wrote(Opcode::InitEnv), NameUse::Store, n),
                    },
                },
            }
        },
    }
}

/// The state with a loop's `break` and `continue` labels pushed.
pub open spec fn enter_loop(st: LState, brk: Seq<char>, cont: Seq<char>) -> LState {
    LState { breaks: st.breaks.push(brk), continues: st.continues.push(cont), ..st }
}

/// What compiling `e` does to the compiler's state, the constants and the
/// symbols; `None` where compiling it fails.
pub open spec fn light_compiled(st: LState, e: Expr) -> Option<LState>
    decreases e, 2int, 0int,
{
    match e {
        Expr::Import(f) => {
            let st1 = load_new_const(st, ConstantV::Str(f@)).wrote(Opcode::NewObj);
            let st2 = load_new_const(st1, ConstantV::Str("require"@)).wrote(Opcode::Call(1));
            write_named(st2, NameUse::Decl, f@)
        },
        Expr::FromImport(id, f, decls) => {
            let st1 = load_new_const(st, ConstantV::Str(f@)).wrote(Opcode::NewObj);
            match write_named(st1, NameUse::Load, "require"@) {
                None => None,
                Some(st2) => match write_named(
                    st2.wrote(Opcode::Call(1)),
                    NameUse::Decl,
                    import_name(id),
                ) {
                    None => None,
                    Some(st3) => decls_rest(
                        st3,
                        import_name(id),
                        decls@.map_values(|d: String| d@),
                        0,
                    ),
                },
            }
        },
        Expr::Include(_) => None,
        Expr::Const(l) => match l {
            Literal::Ident(n) => write_named(st, NameUse::Load, n@),
            Literal::Int(v) => Some(st.wrote(Opcode::LoadInt(v))),
            Literal::Float(b) => Some(load_new_const(st, ConstantV::Number(b))),
            Literal::This => write_named(st, NameUse::Load, "this"@),
            Literal::Null => Some(st.wrote(Opcode::LoadNil)),
            Literal::Undefined => Some(st.wrote(Opcode::LoadUndef)),
            Literal::Array(values) => match array_down(st, e, values@.len() as int) {
                None => None,
                Some(st1) => Some(st1.wrote(Opcode::ConstructArray(values@.len() as u32))),
            },
            Literal::True => Some(st.wrote(Opcode::LoadTrue)),
            Literal::False => Some(st.wrote(Opcode::LoadFalse)),
            Literal::Str(s) => Some(load_new_const(st, ConstantV::Str(s@))),
        },
        Expr::Yield(x) => match light_compiled(st.pushed(UOPV::BEnd), *x) {
            None => None,
            Some(st1) => Some(st1.wrote(Opcode::Yield).pushed(UOPV::BStart)),
        },
        Expr::Array(a, i) => match light_compiled(st, *a) {
            None => None,
            Some(st1) => match light_compiled(st1, *i) {
                None => None,
                Some(st2) => Some(st2.wrote(Opcode::Load)),
            },
        },
        Expr::Block(_) => match block_rest(st.pushed(UOPV::BStart).wrote(Opcode::PushEnv), e, 0) {
            None => None,
            Some(st1) => Some(st1.wrote(Opcode::PopEnv).pushed(UOPV::BEnd)),
        },
        Expr::Break(oe) => {
            let r = match oe {
                Some(x) => light_compiled(st, *x),
                None => Some(st.wrote(Opcode::LoadNil)),
            };
            match r {
                None => None,
                Some(st1) => if st1.breaks.len() == 0 {
                    None
                } else {
                    Some(st1.pushed(UOPV::Goto(st1.breaks.last())))
                },
            }
        },
        Expr::Continue => if st.continues.len() == 0 {
            None
        } else {
            Some(st.pushed(UOPV::Goto(st.continues.last())))
        },
        Expr::Return(oe) => {
            let r = match oe {
                Some(x) => light_compiled(st, *x),
                None => Some(st.wrote(Opcode::LoadNil)),
            };
            match r {
                None => None,
                Some(st1) => Some(st1.wrote(Opcode::PopEnv).pushed(UOPV::Goto(st1.ret))),
            }
        },
        Expr::Throw(x) => match light_compiled(st, *x) {
            None => None,
            Some(st1) => Some(st1.wrote(Opcode::Throw)),
        },
        Expr::Unop(op, x) => match light_compiled(st, *x) {
            None => None,
            Some(st1) => match operator_of(op@) {
                Some(Operator::Minus) => Some(st1.wrote(Opcode::Neg)),
                Some(Operator::Bang) => Some(st1.wrote(Opcode::Not)),
                Some(Operator::Plus) => Some(st1),
                _ => None,
            },
        },
        Expr::Binop(op, l, r) => match light_compiled(st, *r) {
            None => None,
            Some(st1) => match light_compiled(st1, *l) {
                None => None,
                Some(st2) => match operator_of(op@) {
                    Some(o) => match binop_op(o) {
                        Some(code) => Some(st2.wrote(code)),
                        None => None,
                    },
                    None => None,
                },
            },
        },
        Expr::Assign(lhs, rhs) => {
            let st0 = st.wrote(Opcode::Dup);
            match *lhs {
                Expr::Field(obj, f) => match light_compiled(st0, *obj) {
                    None => None,
                    Some(st1) => match light_compiled(load_new_const(st1, ConstantV::Str(f@)), *rhs) {
                        None => None,
                        Some(st2) => Some(st2.wrote(Opcode::Store)),
                    },
                },
                Expr::Array(a, i) => match light_compiled(st0, *a) {
                    None => None,
                    Some(st1) => match light_compiled(st1, *i) {
                        None => None,
                        Some(st2) => match light_compiled(st2, *rhs) {
                            None => None,
                            Some(st3) => Some(st3.wrote(Opcode::Store)),
                        },
                    },
                },
                Expr::Const(Literal::Ident(n)) => match light_compiled(st0, *rhs) {
                    None => None,
                    Some(st1) => write_named(st1, NameUse::Store, n@),
                },
                Expr::Const(Literal::This) => match light_compiled(st0, *rhs) {
                    None => None,
                    Some(st1) => write_named(st1, NameUse::Store, "this"@),
                },
                _ => None,
            }
        },
        Expr::Function(args, body) => function_spec(
            st,
            *body,
            args@.map_values(|a: String| a@),
            None,
        ),
        Expr::FunctionDecl(n, args, body) => function_spec(
            st,
            *body,
            args@.map_values(|a: String| a@),
            Some(n@),
        ),
        Expr::New(f, el) => match args_down(st, e, el@.len() as int) {
            None => None,
            Some(st1) => match light_compiled(st1.wrote(Opcode::NewObj), *f) {
                None => None,
                Some(st2) => Some(st2.wrote(Opcode::Call(el@.len() as u32))),
            },
        },
        Expr::Call(f, el) => match args_down(st, e, el@.len() as int) {
            None => None,
            Some(st1) => match *f {
                Expr::Field(obj, fld) => match light_compiled(st1, *obj) {
                    None => None,
                    Some(st2) => Some(
                        load_new_const(st2.wrote(Opcode::Dup), ConstantV::Str(fld@)).wrote(
                            Opcode::Load,
                        ).wrote(Opcode::Call(el@.len() as u32)),
                    ),
                },
                _ => match light_compiled(st1.wrote(Opcode::NewObj), *f) {
                    None => None,
                    Some(st2) => Some(st2.wrote(Opcode::Call(el@.len() as u32))),
                },
            },
        },
        Expr::Var(n, init) => {
            let r = match init {
                Some(x) => light_compiled(st, *x),
                None => Some(st.wrote(Opcode::LoadUndef)),
            };
            match r {
                None => None,
                Some(st1) => write_named(st1, NameUse::Decl, n@),
            }
        },
        Expr::Try(x, v, b) => {
            let (st1, cl) = st.new_label();
            let (st2, el) = st1.new_label();
            match light_compiled(st2.pushed(UOPV::PAddr(cl)).pushed(UOPV::BStart), *x) {
                None => None,
                Some(st3) => {
                    let st4 = st3.pushed(UOPV::Goto(el)).pushed(UOPV::BEnd).pushed(
                        UOPV::Label(cl),
                    ).wrote(Opcode::PushEnv);
                    match write_named(st4, NameUse::Decl, v@) {
                        None => None,
                        Some(st5) => match light_compiled(st5.pushed(UOPV::BStart), *b) {
                            None => None,
                            Some(st6) => Some(
                                st6.wrote(Opcode::PopEnv).pushed(UOPV::Goto(el)).pushed(
                                    UOPV::BEnd,
                                ).pushed(UOPV::Label(el)),
                            ),
                        },
                    }
                },
            }
        },
        Expr::If(c, b, o) => match light_compiled(st.pushed(UOPV::BEnd).pushed(UOPV::BStart), *c) {
            None => None,
            Some(st1) => {
                let (st2, endl) = st1.new_label();
                let (st3, iff) = st2.new_label();
                let st4 = st3.pushed(UOPV::GotoF(iff)).pushed(UOPV::BEnd).pushed(UOPV::BStart);
                match light_compiled(st4, *b) {
                    None => None,
                    Some(st5) => {
                        let st6 = st5.pushed(UOPV::Goto(endl)).pushed(UOPV::BEnd).pushed(
                            UOPV::Label(iff),
                        ).pushed(UOPV::BStart);
                        let r = match o {
                            Some(x) => light_compiled(st6, *x),
                            None => Some(st6),
                        };
                        match r {
                            None => None,
                            Some(st7) => Some(
                                st7.pushed(UOPV::Goto(endl)).pushed(UOPV::BEnd).pushed(
                                    UOPV::BStart,
                                ).pushed(UOPV::Label(endl)).pushed(UOPV::BEnd),
                            ),
                        }
                    },
                }
            },
        },
        Expr::DoWhile(c, b) => {
            let (st1, endl) = st.new_label();
            let (st2, startl) = st1.new_label();
            let st3 = enter_loop(st2, endl, startl).pushed(UOPV::BEnd).pushed(
                UOPV::Label(startl),
            ).pushed(UOPV::BStart);
            match light_compiled(st3, *b) {
                None => None,
                Some(st4) => match light_compiled(
                    st4.pushed(UOPV::BEnd).pushed(UOPV::BStart),
                    *c,
                ) {
                    None => None,
                    Some(st5) => Some(
                        st5.pushed(UOPV::GotoT(startl)).pushed(UOPV::BEnd).pushed(
                            UOPV::Label(endl),
                        ),
                    ),
                },
            }
        },
        Expr::ForIn(n, inx, body) => {
            let (st1, check) = st.new_label();
            let (st2, endl) = st1.new_label();
            let st3 = enter_loop(st2, endl, check).pushed(UOPV::BEnd).wrote(Opcode::PushEnv).wrote(
                Opcode::LoadNil,
            );
            match write_named(st3, NameUse::Decl, n@) {
                None => None,
                Some(st4) => match light_compiled(st4, *inx) {
                    None => None,
                    Some(st5) => match write_named(
                        st5.wrote(Opcode::NewIter),
                        NameUse::Decl,
                        "@iterator"@,
                    ) {
                        None => None,
                        Some(st6) => match write_named(
                            st6.pushed(UOPV::Label(check)),
                            NameUse::Load,
                            "@iterator"@,
                        ) {
                            None => None,
                            Some(st7) => match write_named(
                                st7.wrote(Opcode::IterHasNext).pushed(UOPV::GotoF(endl)).wrote(
                                    Opcode::PushEnv,
                                ),
                                NameUse::Load,
                                "@iterator"@,
                            ) {
                                None => None,
                                Some(st8) => match write_named(
                                    st8.wrote(Opcode::IterNext),
                                    NameUse::Store,
                                    n@,
                                ) {
                                    None => None,
                                    Some(st9) => match light_compiled(st9, *body) {
                                        None => None,
                                        Some(st10) => Some(
                                            st10.wrote(Opcode::PopEnv).pushed(
                                                UOPV::Goto(check),
                                            ).pushed(UOPV::BEnd).pushed(UOPV::Label(endl)),
                                        ),
                                    },
                                },
                            },
                        },
                    },
                },
            }
        },
        Expr::While(c, b) => {
            let (st1, check) = st.new_label();
            let (st2, endl) = st1.new_label();
            let st3 = enter_loop(st2, endl, check).pushed(UOPV::BEnd).pushed(
                UOPV::Label(check),
            ).pushed(UOPV::BStart);
            match light_compiled(st3, *c) {
                None => None,
                Some(st4) => match light_compiled(
                    st4.pushed(UOPV::GotoF(endl)).pushed(UOPV::BEnd).pushed(UOPV::BStart),
                    *b,
                ) {
                    None => None,
                    Some(st5) => Some(
                        st5.pushed(UOPV::Goto(check)).pushed(UOPV::BEnd).pushed(UOPV::Label(endl)),
                    ),
                },
            }
        },
        Expr::Field(obj, f) => match light_compiled(
            new_const(st, ConstantV::Str(f@)).0,
            *obj,
        ) {
            None => None,
            Some(st1) => Some(
                st1.wrote(Opcode::LoadConst(st.constants.len() as u32)).wrote(Opcode::Load),
            ),
        },
        Expr::Paren(x) => light_compiled(st, *x),
    }
}

/// A copy of a code buffer's entry.
pub(crate) fn copy_uop(u: &UOP) -> (r: UOP)
    ensures
        r@ == u@,
{
    match u {
        UOP::Goto(l) => UOP::Goto(l.clone()),
        UOP::GotoF(l) => UOP::GotoF(l.clone()),
        UOP::GotoT(l) => UOP::GotoT(l.clone()),
        UOP::Label(l) => UOP::Label(l.clone()),
        UOP::PAddr(l) => UOP::PAddr(l.clone()),
        UOP::BEnd => UOP::BEnd,
        UOP::BStart => UOP::BStart,
        UOP::Op(op) => UOP::Op(*op),
    }
}

/// A copy of a code buffer.
fn copy_uops(v: &Vec<UOP>) -> (r: Vec<UOP>)
    ensures
        r@.map_values(|u: UOP| u@) == v@.map_values(|u: UOP| u@),
{
    let mut r: Vec<UOP> = Vec::new();
    let mut i: usize = 0;
    while i < v.len()
        invariant
            i <= v@.len(),
            r@.len() == i,
            forall|j: int| 0 <= j < i ==> #[trigger] r@[j]@ == v@[j]@,
        decreases v@.len() - i,
    {
        r.push(copy_uop(&v[i]));
        i = i + 1;
    }
    assert(r@.map_values(|u: UOP| u@) =~= v@.map_values(|u: UOP| u@));
    r
}

/// A copy of a list of names.
pub(crate) fn copy_strings(v: &Vec<String>) -> (r: Vec<String>)
    ensures
        r@.map_values(|s: String| s@) == v@.map_values(|s: String| s@),
{
    let mut r: Vec<String> = Vec::new();
    let mut i: usize = 0;
    while i < v.len()
        invariant
            i <= v@.len(),
            r@.len() == i,
            forall|j: int| 0 <= j < i ==> #[trigger] r@[j]@ == v@[j]@,
        decreases v@.len() - i,
    {
        r.push(v[i].clone());
        i = i + 1;
    }
    assert(r@.map_values(|s: String| s@) =~= v@.map_values(|s: String| s@));
    r
}

/// The compiler's state with the module's constants and symbols.
pub open spec fn state(c: Compiler, constants: Vec<Constant>, symbols: Symbols) -> LState {
    c.lview(constants@, symbols@)
}

impl Compiler {
    /// Adds `v` to the constant pool and gives its slot.
    pub fn new_constant(&mut self, constants: &mut Vec<Constant>, v: Constant) -> (loc: usize)
        ensures
            final(constants)@ == old(constants)@.push(v),
            loc == old(constants)@.len(),
            *final(self) == *old(self),
    {
        let loc = constants.len();
        constants.push(v);
        loc
    }

    fn load_new_const(&mut self, constants: &mut Vec<Constant>, symbols: &Symbols, v: Constant)
        ensures
            state(*final(self), *final(constants), *symbols) == load_new_const(
                state(*old(self), *old(constants), *symbols),
                v@,
            ),
    {
        let ghost st = state(*self, *constants, *symbols);
        let loc = self.new_constant(constants, v);
        assert(constants@.map_values(|c: Constant| c@) =~= st.constants.push(v@));
        self.write(Opcode::LoadConst(loc as u32));
    }

    fn write_named(&mut self, constants: &Vec<Constant>, symbols: &mut Symbols, k: NameUse, x: &str)
        requires
            old(symbols)@.len() < u32::MAX,
        ensures
            state(*final(self), *constants, *final(symbols)) == write_named(
                state(*old(self), *constants, *old(symbols)),
                k,
                x@,
            ).unwrap(),
    {
        let n = symbols.intern(x);
        match k {
            NameUse::Load => self.write(Opcode::LoadVar(n)),
            NameUse::Decl => self.write(Opcode::DeclVar(n)),
            NameUse::Store => self.write(Opcode::StoreVar(n)),
        }
    }
}

impl Compiler {
    /// Enters a loop: `break` goes to `brk`, `continue` to `cont`.
    fn enter_loop(&mut self, constants: &Vec<Constant>, symbols: &Symbols, brk: &String, cont: &String)
        ensures
            state(*final(self), *constants, *symbols) == enter_loop(
                state(*old(self), *constants, *symbols),
                brk@,
                cont@,
            ),
    {
        let ghost st = state(*self, *constants, *symbols);
        self.breaks.push(brk.clone());
        self.continues.push(cont.clone());
        assert(self.breaks@.map_values(|l: String| l@) =~= st.breaks.push(brk@));
        assert(self.continues@.map_values(|l: String| l@) =~= st.continues.push(cont@));
    }

    /// Compiles `e` into the buffer, its literals into `constants` and its
    /// names into `symbols`, as `light_compiled` states.
    pub fn compile(&mut self, e: &Expr, constants: &mut Vec<Constant>, symbols: &mut Symbols)
        requires
            light_compiled(state(*old(self), *old(constants), *old(symbols)), *e) is Some,
        ensures
            state(*final(self), *final(constants), *final(symbols)) == light_compiled(
                state(*old(self), *old(constants), *old(symbols)),
                *e,
            ).unwrap(),
        decreases *e, 2int,
    {
        match e {
            Expr::Import(_) => self.compile_import(e, constants, symbols),
            Expr::FromImport(..) => self.compile_from_import(e, constants, symbols),
            Expr::Include(_) => {},
            Expr::Const(..) => self.compile_const(e, constants, symbols),
            Expr::Yield(_) | Expr::Throw(_) | Expr::Unop(..) | Expr::Paren(_) => self.compile_wrapped(
                e,
                constants,
                symbols,
            ),
            Expr::Array(..) | Expr::Var(..) => self.compile_access(e, constants, symbols),
            Expr::Field(..) => self.compile_field(e, constants, symbols),
            Expr::Block(..) => self.compile_block(e, constants, symbols),
            Expr::Break(_) | Expr::Continue | Expr::Return(_) => self.compile_jump(e, constants, symbols),
            Expr::Binop(..) => self.compile_ops(e, constants, symbols),
            Expr::Assign(..) => self.compile_assign(e, constants, symbols),
            Expr::Function(args, body) => self.compile_function(body, args, None, constants, symbols),
            Expr::FunctionDecl(n, args, body) => self.compile_function(
                body,
                args,
                Some(n.as_str()),
                constants,
                symbols,
            ),
            Expr::New(..) => self.compile_new(e, constants, symbols),
            Expr::Call(..) => self.compile_call(e, constants, symbols),
            Expr::Try(..) => self.compile_try(e, constants, symbols),
            Expr::If(..) => self.compile_if(e, constants, symbols),
            Expr::DoWhile(..) => self.compile_do_while(e, constants, symbols),
            Expr::ForIn(..) => self.compile_for_in(e, constants, symbols),
            Expr::While(..) => self.compile_while(e, constants, symbols),
        }
    }

    fn compile_import(&mut self, e: &Expr, constants: &mut Vec<Constant>, symbols: &mut Symbols)
        requires
            *e is Import,
            light_compiled(state(*old(self), *old(constants), *old(symbols)), *e) is Some,
        ensures
            state(*final(self), *final(constants), *final(symbols)) == light_compiled(
                state(*old(self), *old(constants), *old(symbols)),
                *e,
            ).unwrap(),
        decreases *e, 1int,
    {
        match e {
            Expr::Import(f) => {
                self.load_new_const(constants, symbols, Constant::String(f.clone()));
                self.write(Opcode::NewObj);
                self.load_new_const(constants, symbols, Constant::String("require".to_owned()));
                self.write(Opcode::Call(1));
                self.write_named(constants, symbols, NameUse::Decl, f.as_str());
            },
            _ => {},
        }
    }

    fn compile_wrapped(&mut self, e: &Expr, constants: &mut Vec<Constant>, symbols: &mut Symbols)
        requires
            *e is Yield || *e is Throw || *e is Unop || *e is Paren,
            light_compiled(state(*old(self), *old(constants), *old(symbols)), *e) is Some,
        ensures
            state(*final(self), *final(constants), *final(symbols)) == light_compiled(
                state(*old(self), *old(constants), *old(symbols)),
                *e,
            ).unwrap(),
        decreases *e, 1int,
    {
        match e {
            Expr::Yield(x) => {
                self.push(UOP::BEnd);
                self.compile(x, constants, symbols);
                self.write(Opcode::Yield);
                self.push(UOP::BStart);
            },
            Expr::Throw(x) => {
                self.compile(x, constants, symbols);
                self.write(Opcode::Throw);
            },
            Expr::Unop(op, x) => {
                self.compile(x, constants, symbols);
                match parse_operator(op.as_str()) {
                    Some(Operator::Minus) => self.write(Opcode::Neg),
                    Some(Operator::Bang) => self.write(Opcode::Not),
                    _ => {},
                }
            },
            Expr::Paren(x) => self.compile(x, constants, symbols),
            _ => {},
        }
    }

    fn compile_access(&mut self, e: &Expr, constants: &mut Vec<Constant>, symbols: &mut Symbols)
        requires
            *e is Array || *e is Var,
            light_compiled(state(*old(self), *old(constants), *old(symbols)), *e) is Some,
        ensures
            state(*final(self), *final(constants), *final(symbols)) == light_compiled(
                state(*old(self), *old(constants), *old(symbols)),
                *e,
            ).unwrap(),
        decreases *e, 1int,
    {
        match e {
            Expr::Array(a, i) => {
                self.compile(a, constants, symbols);
                self.compile(i, constants, symbols);
                self.write(Opcode::Load);
            },
            Expr::Var(n, init) => {
                match init {
                    Some(x) => self.compile(x, constants, symbols),
                    None => self.write(Opcode::LoadUndef),
                }
                self.write_named(constants, symbols, NameUse::Decl, n.as_str());
            },
            _ => {},
        }
    }

    fn compile_field(&mut self, e: &Expr, constants: &mut Vec<Constant>, symbols: &mut Symbols)
        requires
            *e is Field,
            light_compiled(state(*old(self), *old(constants), *old(symbols)), *e) is Some,
        ensures
            state(*final(self), *final(constants), *final(symbols)) == light_compiled(
                state(*old(self), *old(constants), *old(symbols)),
                *e,
            ).unwrap(),
        decreases *e, 1int,
    {
        let ghost st = state(*self, *constants, *symbols);
        match e {
            Expr::Field(obj, f) => {
                let c = self.new_constant(constants, Constant::String(f.clone()));
                assert(state(*self, *constants, *symbols) == new_const(st, ConstantV::Str(f@)).0) by {
                    assert(constants@.map_values(|k: Constant| k@) =~= st.constants.push(
                        ConstantV::Str(f@),
                    ));
                }
                self.compile(obj, constants, symbols);
                self.write(Opcode::LoadConst(c as u32));
                self.write(Opcode::Load);
            },
            _ => {},
        }
    }

    fn compile_jump(&mut self, e: &Expr, constants: &mut Vec<Constant>, symbols: &mut Symbols)
        requires
            *e is Break || *e is Continue || *e is Return,
            light_compiled(state(*old(self), *old(constants), *old(symbols)), *e) is Some,
        ensures
            state(*final(self), *final(constants), *final(symbols)) == light_compiled(
                state(*old(self), *old(constants), *old(symbols)),
                *e,
            ).unwrap(),
        decreases *e, 1int,
    {
        match e {
            Expr::Break(oe) => {
                match oe {
                    Some(x) => self.compile(x, constants, symbols),
                    None => self.write(Opcode::LoadNil),
                }
                let n = self.breaks.len();
                let b = self.breaks[n - 1].clone();
                self.emit_goto(b.as_str());
            },
            Expr::Continue => {
                let n = self.continues.len();
                let c = self.continues[n - 1].clone();
                self.emit_goto(c.as_str());
            },
            Expr::Return(oe) => {
                match oe {
                    Some(x) => self.compile(x, constants, symbols),
                    None => self.write(Opcode::LoadNil),
                }
                self.write(Opcode::PopEnv);
                let r = self.ret.clone();
                self.emit_goto(r.as_str());
            },
            _ => {},
        }
    }

    fn compile_from_import(&mut self, e: &Expr, constants: &mut Vec<Constant>, symbols: &mut Symbols)
        requires
            *e is FromImport,
            light_compiled(state(*old(self), *old(constants), *old(symbols)), *e) is Some,
        ensures
            state(*final(self), *final(constants), *final(symbols)) == light_compiled(
                state(*old(self), *old(constants), *old(symbols)),
                *e,
            ).unwrap(),
        decreases *e, 1int,
    {
        let ghost st = state(*self, *constants, *symbols);
        match e {
            Expr::FromImport(id, f, decls) => {
                self.load_new_const(constants, symbols, Constant::String(f.clone()));
                self.write(Opcode::NewObj);
                self.write_named(constants, symbols, NameUse::Load, "require");
                self.write(Opcode::Call(1));
                let mut name = "@import_".to_owned();
                let digits = usize_to_string(*id);
                name.append(digits.as_str());
                assert(name@ == import_name(*id));
                self.write_named(constants, symbols, NameUse::Decl, name.as_str());
                let ghost ds = decls@.map_values(|d: String| d@);
                let ghost st3 = state(*self, *constants, *symbols);
                let mut i: usize = 0;
                while i < decls.len()
                    invariant
                        i <= decls@.len(),
                        ds == decls@.map_values(|d: String| d@),
                        name@ == import_name(*id),
                        decls_rest(st3, name@, ds, 0) == decls_rest(
                            state(*self, *constants, *symbols),
                            name@,
                            ds,
                            i as int,
                        ),
                        decls_rest(st3, name@, ds, 0) is Some,
                    decreases decls@.len() - i,
                {
                    self.write_named(constants, symbols, NameUse::Load, name.as_str());
                    self.load_new_const(constants, symbols, Constant::String(decls[i].clone()));
                    self.write(Opcode::Load);
                    self.write_named(constants, symbols, NameUse::Decl, decls[i].as_str());
                    i = i + 1;
                }
            },
            _ => {},
        }
    }

    fn compile_const(&mut self, e: &Expr, constants: &mut Vec<Constant>, symbols: &mut Symbols)
        requires
            *e is Const,
            light_compiled(state(*old(self), *old(constants), *old(symbols)), *e) is Some,
        ensures
            state(*final(self), *final(constants), *final(symbols)) == light_compiled(
                state(*old(self), *old(constants), *old(symbols)),
                *e,
            ).unwrap(),
        decreases *e, 1int,
    {
        let ghost st = state(*self, *constants, *symbols);
        match e {
            Expr::Const(l) => match l {
                Literal::Ident(n) => self.write_named(constants, symbols, NameUse::Load, n.as_str()),
                Literal::Int(v) => self.write(Opcode::LoadInt(*v)),
                Literal::Float(b) => self.load_new_const(constants, symbols, Constant::Number(*b)),
                Literal::This => self.write_named(constants, symbols, NameUse::Load, "this"),
                Literal::Null => self.write(Opcode::LoadNil),
                Literal::Undefined => self.write(Opcode::LoadUndef),
                Literal::Array(values) => {
                    let mut i = values.len();
                    while i > 0
                        invariant
                            *e == Expr::Const(Literal::Array(*values)),
                            i <= values@.len(),
                            array_down(st, *e, values@.len() as int) == array_down(
                                state(*self, *constants, *symbols),
                                *e,
                                i as int,
                            ),
                            array_down(st, *e, values@.len() as int) is Some,
                        decreases i,
                    {
                        i = i - 1;
                        self.compile(&values[i], constants, symbols);
                    }
                    self.write(Opcode::ConstructArray(values.len() as u32));
                },
                Literal::True => self.write(Opcode::LoadTrue),
                Literal::False => self.write(Opcode::LoadFalse),
                Literal::Str(x) => self.load_new_const(constants, symbols, Constant::String(x.clone())),
            },
            _ => {},
        }
    }

    fn compile_block(&mut self, e: &Expr, constants: &mut Vec<Constant>, symbols: &mut Symbols)
        requires
            *e is Block,
            light_compiled(state(*old(self), *old(constants), *old(symbols)), *e) is Some,
        ensures
            state(*final(self), *final(constants), *final(symbols)) == light_compiled(
                state(*old(self), *old(constants), *old(symbols)),
                *e,
            ).unwrap(),
        decreases *e, 1int,
    {
        let ghost st = state(*self, *constants, *symbols);
        match e {
            Expr::Block(v) => {
                self.push(UOP::BStart);
                self.write(Opcode::PushEnv);
                let ghost st1 = state(*self, *constants, *symbols);
                let mut i: usize = 0;
                while i < v.len()
                    invariant
                        *e == Expr::Block(*v),
                        i <= v@.len(),
                        block_rest(st1, *e, 0) == block_rest(
                            state(*self, *constants, *symbols),
                            *e,
                            i as int,
                        ),
                        block_rest(st1, *e, 0) is Some,
                    decreases v@.len() - i,
                {
                    self.compile(&v[i], constants, symbols);
                    i = i + 1;
                }
                self.write(Opcode::PopEnv);
                self.push(UOP::BEnd);
            },
            _ => {},
        }
    }

    fn compile_assign(&mut self, e: &Expr, constants: &mut Vec<Constant>, symbols: &mut Symbols)
        requires
            *e is Assign,
            light_compiled(state(*old(self), *old(constants), *old(symbols)), *e) is Some,
        ensures
            state(*final(self), *final(constants), *final(symbols)) == light_compiled(
                state(*old(self), *old(constants), *old(symbols)),
                *e,
            ).unwrap(),
        decreases *e, 1int,
    {
        let ghost st = state(*self, *constants, *symbols);
        match e {
            Expr::Assign(lhs, rhs) => {
                self.write(Opcode::Dup);
                match &**lhs {
                    Expr::Field(obj, f) => {
                        self.compile(obj, constants, symbols);
                        self.load_new_const(constants, symbols, Constant::String(f.clone()));
                        self.compile(rhs, constants, symbols);
                        self.write(Opcode::Store);
                    },
                    Expr::Array(a, i) => {
                        self.compile(a, constants, symbols);
                        self.compile(i, constants, symbols);
                        self.compile(rhs, constants, symbols);
                        self.write(Opcode::Store);
                    },
                    Expr::Const(Literal::Ident(n)) => {
                        self.compile(rhs, constants, symbols);
                        self.write_named(constants, symbols, NameUse::Store, n.as_str());
                    },
                    Expr::Const(Literal::This) => {
                        self.compile(rhs, constants, symbols);
                        self.write_named(constants, symbols, NameUse::Store, "this");
                    },
                    _ => {},
                }
            },
            _ => {},
        }
    }

    fn compile_call(&mut self, e: &Expr, constants: &mut Vec<Constant>, symbols: &mut Symbols)
        requires
            *e is Call,
            light_compiled(state(*old(self), *old(constants), *old(symbols)), *e) is Some,
        ensures
            state(*final(self), *final(constants), *final(symbols)) == light_compiled(
                state(*old(self), *old(constants), *old(symbols)),
                *e,
            ).unwrap(),
        decreases *e, 1int,
    {
        let ghost st = state(*self, *constants, *symbols);
        match e {
            Expr::Call(f, el) => {
                let mut i = el.len();
                while i > 0
                    invariant
                        *e == Expr::Call(*f, *el),
                        i <= el@.len(),
                        args_down(st, *e, el@.len() as int) == args_down(
                            state(*self, *constants, *symbols),
                            *e,
                            i as int,
                        ),
                        args_down(st, *e, el@.len() as int) is Some,
                    decreases i,
                {
                    i = i - 1;
                    self.compile(&el[i], constants, symbols);
                }
                match &**f {
                    Expr::Field(obj, fld) => {
                        self.compile(obj, constants, symbols);
                        self.write(Opcode::Dup);
                        self.load_new_const(constants, symbols, Constant::String(fld.clone()));
                        self.write(Opcode::Load);
                    },
                    _ => {
                        self.write(Opcode::NewObj);
                        self.compile(f, constants, symbols);
                    },
                }
                self.write(Opcode::Call(el.len() as u32));
            },
            _ => {},
        }
    }

    fn compile_new(&mut self, e: &Expr, constants: &mut Vec<Constant>, symbols: &mut Symbols)
        requires
            *e is New,
            light_compiled(state(*old(self), *old(constants), *old(symbols)), *e) is Some,
        ensures
            state(*final(self), *final(constants), *final(symbols)) == light_compiled(
                state(*old(self), *old(constants), *old(symbols)),
                *e,
            ).unwrap(),
        decreases *e, 1int,
    {
        let ghost st = state(*self, *constants, *symbols);
        match e {
            Expr::New(f, el) => {
                let mut i = el.len();
                while i > 0
                    invariant
                        *e == Expr::New(*f, *el),
                        i <= el@.len(),
                        args_down(st, *e, el@.len() as int) == args_down(
                            state(*self, *constants, *symbols),
                            *e,
                            i as int,
                        ),
                        args_down(st, *e, el@.len() as int) is Some,
                    decreases i,
                {
                    i = i - 1;
                    self.compile(&el[i], constants, symbols);
                }
                self.write(Opcode::NewObj);
                self.compile(f, constants, symbols);
                self.write(Opcode::Call(el.len() as u32));
            },
            _ => {},
        }
    }

    fn compile_try(&mut self, e: &Expr, constants: &mut Vec<Constant>, symbols: &mut Symbols)
        requires
            *e is Try,
            light_compiled(state(*old(self), *old(constants), *old(symbols)), *e) is Some,
        ensures
            state(*final(self), *final(constants), *final(symbols)) == light_compiled(
                state(*old(self), *old(constants), *old(symbols)),
                *e,
            ).unwrap(),
        decreases *e, 1int,
    {
        let ghost st = state(*self, *constants, *symbols);
        match e {
            Expr::Try(x, v, b) => {
                let catch_lbl = self.new_empty_label();
                let end_lbl = self.new_empty_label();
                self.emit_paddr(catch_lbl.as_str());
                self.push(UOP::BStart);
                self.compile(x, constants, symbols);
                self.emit_goto(end_lbl.as_str());
                self.push(UOP::BEnd);
                self.label_here(catch_lbl.as_str());
                self.write(Opcode::PushEnv);
                self.write_named(constants, symbols, NameUse::Decl, v.as_str());
                self.push(UOP::BStart);
                self.compile(b, constants, symbols);
                self.write(Opcode::PopEnv);
                self.emit_goto(end_lbl.as_str());
                self.push(UOP::BEnd);
                self.label_here(end_lbl.as_str());
            },
            _ => {},
        }
    }

    fn compile_if(&mut self, e: &Expr, constants: &mut Vec<Constant>, symbols: &mut Symbols)
        requires
            *e is If,
            light_compiled(state(*old(self), *old(constants), *old(symbols)), *e) is Some,
        ensures
            state(*final(self), *final(constants), *final(symbols)) == light_compiled(
                state(*old(self), *old(constants), *old(symbols)),
                *e,
            ).unwrap(),
        decreases *e, 1int,
    {
        let ghost st = state(*self, *constants, *symbols);
        match e {
            Expr::If(c, b, o) => {
                self.push(UOP::BEnd);
                self.push(UOP::BStart);
                self.compile(c, constants, symbols);
                let end = self.new_empty_label();
                let if_false = self.new_empty_label();
                self.emit_gotof(if_false.as_str());
                self.push(UOP::BEnd);
                self.push(UOP::BStart);
                self.compile(b, constants, symbols);
                self.emit_goto(end.as_str());
                self.push(UOP::BEnd);
                self.label_here(if_false.as_str());
                self.push(UOP::BStart);
                match o {
                    Some(x) => self.compile(x, constants, symbols),
                    None => {},
                }
                self.emit_goto(end.as_str());
                self.push(UOP::BEnd);
                self.push(UOP::BStart);
                self.label_here(end.as_str());
                self.push(UOP::BEnd);
            },
            _ => {},
        }
    }

    fn compile_do_while(&mut self, e: &Expr, constants: &mut Vec<Constant>, symbols: &mut Symbols)
        requires
            *e is DoWhile,
            light_compiled(state(*old(self), *old(constants), *old(symbols)), *e) is Some,
        ensures
            state(*final(self), *final(constants), *final(symbols)) == light_compiled(
                state(*old(self), *old(constants), *old(symbols)),
                *e,
            ).unwrap(),
        decreases *e, 1int,
    {
        let ghost st = state(*self, *constants, *symbols);
        match e {
            Expr::DoWhile(c, b) => {
                let end = self.new_empty_label();
                let start = self.new_empty_label();
                self.enter_loop(constants, symbols, &end, &start);
                self.push(UOP::BEnd);
                self.label_here(start.as_str());
                self.push(UOP::BStart);
                self.compile(b, constants, symbols);
                self.push(UOP::BEnd);
                self.push(UOP::BStart);
                self.compile(c, constants, symbols);
                self.emit_gotot(start.as_str());
                self.push(UOP::BEnd);
                self.label_here(end.as_str());
            },
            _ => {},
        }
    }

    fn compile_for_in(&mut self, e: &Expr, constants: &mut Vec<Constant>, symbols: &mut Symbols)
        requires
            *e is ForIn,
            light_compiled(state(*old(self), *old(constants), *old(symbols)), *e) is Some,
        ensures
            state(*final(self), *final(constants), *final(symbols)) == light_compiled(
                state(*old(self), *old(constants), *old(symbols)),
                *e,
            ).unwrap(),
        decreases *e, 1int,
    {
        let ghost st = state(*self, *constants, *symbols);
        match e {
            Expr::ForIn(n, inx, body) => {
                let check = self.new_empty_label();
                let end = self.new_empty_label();
                self.enter_loop(constants, symbols, &end, &check);
                self.push(UOP::BEnd);
                self.write(Opcode::PushEnv);
                self.write(Opcode::LoadNil);
                self.write_named(constants, symbols, NameUse::Decl, n.as_str());
                self.compile(inx, constants, symbols);
                self.write(Opcode::NewIter);
                self.write_named(constants, symbols, NameUse::Decl, "@iterator");
                self.label_here(check.as_str());
                self.write_named(constants, symbols, NameUse::Load, "@iterator");
                self.write(Opcode::IterHasNext);
                self.emit_gotof(end.as_str());
                self.write(Opcode::PushEnv);
                self.write_named(constants, symbols, NameUse::Load, "@iterator");
                self.write(Opcode::IterNext);
                self.write_named(constants, symbols, NameUse::Store, n.as_str());
                self.compile(body, constants, symbols);
                self.write(Opcode::PopEnv);
                self.emit_goto(check.as_str());
                self.push(UOP::BEnd);
                self.label_here(end.as_str());
            },
            _ => {},
        }
    }

    fn compile_while(&mut self, e: &Expr, constants: &mut Vec<Constant>, symbols: &mut Symbols)
        requires
            *e is While,
            light_compiled(state(*old(self), *old(constants), *old(symbols)), *e) is Some,
        ensures
            state(*final(self), *final(constants), *final(symbols)) == light_compiled(
                state(*old(self), *old(constants), *old(symbols)),
                *e,
            ).unwrap(),
        decreases *e, 1int,
    {
        let ghost st = state(*self, *constants, *symbols);
        match e {
            Expr::While(c, b) => {
                let check = self.new_empty_label();
                let end = self.new_empty_label();
                self.enter_loop(constants, symbols, &end, &check);
                self.push(UOP::BEnd);
                self.label_here(check.as_str());
                self.push(UOP::BStart);
                self.compile(c, constants, symbols);
                self.emit_gotof(end.as_str());
                self.push(UOP::BEnd);
                self.push(UOP::BStart);
                self.compile(b, constants, symbols);
                self.emit_goto(check.as_str());
                self.push(UOP::BEnd);
                self.label_here(end.as_str());
            },
            _ => {},
        }
    }

    fn compile_ops(&mut self, e: &Expr, constants: &mut Vec<Constant>, symbols: &mut Symbols)
        requires
            *e is Binop,
            light_compiled(state(*old(self), *old(constants), *old(symbols)), *e) is Some,
        ensures
            state(*final(self), *final(constants), *final(symbols)) == light_compiled(
                state(*old(self), *old(constants), *old(symbols)),
                *e,
            ).unwrap(),
        decreases *e, 1int,
    {
        let ghost st = state(*self, *constants, *symbols);
        match e {
            Expr::Binop(op, l, r) => {
                self.compile(r, constants, symbols);
                self.compile(l, constants, symbols);
                let code = match parse_operator(op.as_str()).unwrap() {
                    Operator::Plus => Opcode::Add,
                    Operator::Minus => Opcode::Sub,
                    Operator::Slash => Opcode::Div,
                    Operator::Star => Opcode::Mul,
                    Operator::Percent => Opcode::Rem,
                    Operator::AndAnd => Opcode::And,
                    Operator::OrOr => Opcode::Or,
                    Operator::Gt => Opcode::Gt,
                    Operator::Lt => Opcode::Lt,
                    Operator::Gte => Opcode::Ge,
                    Operator::Lte => Opcode::Le,
                    Operator::EqEq => Opcode::Eq,
                    Operator::NotEq => Opcode::Ne,
                    Operator::Shr => Opcode::Shr,
                    Operator::Shl => Opcode::Shl,
                    Operator::Pipe => Opcode::BitOr,
                    Operator::Amp => Opcode::BitAnd,
                    Operator::Caret => Opcode::BitXor,
                    Operator::Bang => Opcode::Not,
                };
                self.write(code);
            },
            _ => {},
        }
    }

    /// Compiles a function, as `function_spec` states.
    pub fn compile_function(
        &mut self,
        body: &Expr,
        args: &Vec<String>,
        name: Option<&str>,
        constants: &mut Vec<Constant>,
        symbols: &mut Symbols,
    )
        requires
            function_spec(
                state(*old(self), *old(constants), *old(symbols)),
                *body,
                args@.map_values(|a: String| a@),
                match name {
                    Some(n) => Some(n@),
                    None => None,
                },
            ) is Some,
        ensures
            state(*final(self), *final(constants), *final(symbols)) == function_spec(
                state(*old(self), *old(constants), *old(symbols)),
                *body,
                args@.map_values(|a: String| a@),
                match name {
                    Some(n) => Some(n@),
                    None => None,
                },
            ).unwrap(),
        decreases *body, 3int,
    {
        let ghost st = state(*self, *constants, *symbols);
        let mut code: Vec<UOP> = Vec::new();
        std::mem::swap(&mut code, &mut self.code);
        assert(self.code_view() =~= Seq::<UOPV>::empty());
        let r = self.new_empty_label();
        self.ret = r.clone();
        self.compile(body, constants, symbols);
        self.label_here(r.as_str());
        self.write(Opcode::Return);
        let ghost st3 = state(*self, *constants, *symbols);
        let gid = constants.len();
        let body_code = copy_uops(&self.code);
        let ghost fs = st3.functions;
        self.functions.push((body_code, gid as u32, copy_strings(args)));
        let ghost cs = st3.constants;
        let placeholder = Function { addr: 0, args: copy_strings(args), set: false, get: false };
        constants.push(Constant::Function(placeholder));
        std::mem::swap(&mut code, &mut self.code);
        proof {
            let av = args@.map_values(|a: String| a@);
            assert(state(*self, *constants, *symbols).functions =~= fs.push((st3.code, gid as u32, av)));
            assert(state(*self, *constants, *symbols).constants =~= cs.push(function_placeholder(av)));
        }
        self.write(Opcode::LoadConst(gid as u32));
        match name {
            None => self.write(Opcode::InitEnv),
            Some(n) => {
                self.write_named(constants, symbols, NameUse::Decl, n);
                self.write_named(constants, symbols, NameUse::Load, n);
                self.write(Opcode::InitEnv);
                self.write_named(constants, symbols, NameUse::Store, n);
            },
        }
    }
}

} // verus!
