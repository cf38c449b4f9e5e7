//! Compiling a whole JazzLight program: its expressions one after the
//! other, ending at the `return` label, then the functions' code laid out
//! before the program's, behind a jump over them, and each function's
//! constant given its entry address.

use vstd::prelude::*;
use crate::labels::place_labels;
use crate::lhm::label_slots;
use crate::light::ast::Expr;
use crate::light::codegen::{copy_strings, copy_uop, light_compiled, state};
use crate::light::compiler::{Compiler, LState, UOP, UOPV, lower, marks, uop_label};
use crate::labels::placed;
use crate::light::opcodes::Opcode;
use crate::light::symbols::Symbols;
use crate::light::value::{Constant, ConstantV, Function};

verus! {

/// Compiling `ast[i..]`, one expression after the other.
pub open spec fn compiled_from(st: LState, ast: Seq<Expr>, i: int) -> Option<LState>
    decreases ast.len() - i,
{
    if 0 <= i < ast.len() {
        match light_compiled(st, ast[i]) {
            None => None,
            Some(st1) => compiled_from(st1, ast, i + 1),
        }
    } else {
        Some(st)
    }
}

/// The state once a program's expressions are compiled: a fresh label is
/// where `return` goes, and it is marked after them, before `Return`.
pub open spec fn program_compiled(st: LState, ast: Seq<Expr>) -> Option<LState> {
    let (st1, r) = st.new_label();
    match compiled_from(LState { ret: r, ..st1 }, ast, 0) {
        None => None,
        Some(st2) => Some(st2.pushed(UOPV::Label(r)).wrote(Opcode::Return)),
    }
}

/// The functions' code, the last compiled first.
pub open spec fn bodies(fs: Seq<(Seq<UOPV>, u32, Seq<Seq<char>>)>) -> Seq<UOPV>
    decreases fs.len(),
{
    if fs.len() == 0 {
        Seq::empty()
    } else {
        bodies(fs.drop_first()) + fs[0].0
    }
}

/// The entry address of function `k` in the laid-out code.
pub open spec fn fn_addr(fs: Seq<(Seq<UOPV>, u32, Seq<Seq<char>>)>, k: int) -> usize {
    (1 + bodies(fs.subrange(k + 1, fs.len() as int)).len()) as usize
}

/// The program's code with the functions' code before it, behind a jump
/// over them; the code alone when there is no function.
pub open spec fn laid_out(code: Seq<UOPV>, fs: Seq<(Seq<UOPV>, u32, Seq<Seq<char>>)>) -> Seq<UOPV> {
    if fs.len() == 0 {
        code
    } else {
        seq![UOPV::Op(Opcode::Jump((1 + bodies(fs).len()) as u32))] + bodies(fs) + code
    }
}

/// The constants once the functions from `k` on, the last first, have their
/// entry address and parameters in their constant's slot.
pub open spec fn fn_addrs(
    cs: Seq<ConstantV>,
    fs: Seq<(Seq<UOPV>, u32, Seq<Seq<char>>)>,
    k: int,
) -> Seq<ConstantV>
    decreases fs.len() - k,
{
    if 0 <= k < fs.len() {
        fn_addrs(cs, fs, k + 1).update(
            fs[k].1 as int,
            ConstantV::Func { addr: fn_addr(fs, k), args: fs[k].2, set: false, get: false },
        )
    } else {
        cs
    }
}

/// Whether a compiled program can be laid out and finished: every label a
/// jump names is marked in the laid-out code, and every function's constant
/// slot is in the pool.
pub open spec fn layout_ok(st: LState) -> bool {
    let code = laid_out(st.code, st.functions);
    &&& forall|i: int|
        0 <= i < code.len() ==> (#[trigger] uop_label(code[i]) matches Some(l) ==> placed(
            place_labels(st.labels, marks(code), code.len() as int),
            l,
        ))
    &&& forall|k: int| 0 <= k < st.functions.len() ==> (#[trigger] st.functions[k]).1 < st.constants.len()
}

proof fn lemma_bodies_step(fs: Seq<(Seq<UOPV>, u32, Seq<Seq<char>>)>, j: int)
    requires
        0 <= j < fs.len(),
    ensures
        bodies(fs.subrange(j, fs.len() as int)) == bodies(fs.subrange(j + 1, fs.len() as int))
            + fs[j].0,
{
    let s = fs.subrange(j, fs.len() as int);
    assert(s.drop_first() =~= fs.subrange(j + 1, fs.len() as int));
    assert(s[0] == fs[j]);
}

impl Compiler {
    /// Compiles a program and gives its instructions: the expressions one
    /// after the other, the `return` label and `Return`; then, when it has
    /// functions, their code (the last compiled first) before it, behind a
    /// jump over them, each function's constant taking its entry address;
    /// then every label placed and every jump sent to its label's position.
    pub fn compile_ast(&mut self, ast: &Vec<Expr>, constants: &mut Vec<Constant>, symbols: &mut Symbols) -> (ops: Vec<Opcode>)
        requires
            program_compiled(state(*old(self), *old(constants), *old(symbols)), ast@) is Some,
            layout_ok(program_compiled(state(*old(self), *old(constants), *old(symbols)), ast@).unwrap()),
        ensures
            ({
                let st = program_compiled(state(*old(self), *old(constants), *old(symbols)), ast@).unwrap();
                let code = laid_out(st.code, st.functions);
                let t = place_labels(st.labels, marks(code), code.len() as int);
                &&& ops@.len() == code.len()
                &&& forall|i: int| 0 <= i < code.len() ==> #[trigger] ops@[i] == lower(t, code[i])
                &&& label_slots(final(self).labels) == t
                &&& final(constants)@.map_values(|c: Constant| c@) == fn_addrs(st.constants, st.functions, 0)
                &&& final(symbols)@ == st.symbols
            }),
    {
        let ghost st0 = state(*self, *constants, *symbols);
        let ret = self.new_empty_label();
        self.ret = ret.clone();
        let ghost st1 = state(*self, *constants, *symbols);
        assert(st1 == LState { ret: st0.new_label().1, ..st0.new_label().0 });
        let mut i: usize = 0;
        while i < ast.len()
            invariant
                i <= ast@.len(),
                compiled_from(st1, ast@, 0) is Some,
                compiled_from(st1, ast@, 0) == compiled_from(state(*self, *constants, *symbols), ast@, i as int),
            decreases ast@.len() - i,
        {
            self.compile(&ast[i], constants, symbols);
            i = i + 1;
        }
        self.label_here(ret.as_str());
        self.write(Opcode::Return);
        let ghost st = state(*self, *constants, *symbols);
        assert(st == program_compiled(st0, ast@).unwrap());
        let ghost fs = st.functions;
        let ghost cs0 = st.constants;
        let n = self.functions.len();
        if n > 0 {
            let mut out: Vec<UOP> = Vec::new();
            out.push(UOP::Op(Opcode::Jump(0)));
            let mut j: usize = n;
            proof {
                assert(fs.subrange(n as int, n as int) =~= Seq::<(Seq<UOPV>, u32, Seq<Seq<char>>)>::empty());
                assert(out@.map_values(|u: UOP| u@) =~= seq![UOPV::Op(Opcode::Jump(0))] + bodies(
                    fs.subrange(n as int, n as int),
                ));
            }
            while j > 0
                invariant
                    j <= n,
                    n == fs.len(),
                    fs == self.functions@.map_values(
                        |f: (Vec<UOP>, u32, Vec<String>)|
                            (f.0@.map_values(|u: UOP| u@), f.1, f.2@.map_values(|a: String| a@)),
                    ),
                    out@.map_values(|u: UOP| u@) == seq![UOPV::Op(Opcode::Jump(0))] + bodies(
                        fs.subrange(j as int, n as int),
                    ),
                    constants@.map_values(|c: Constant| c@) == fn_addrs(cs0, fs, j as int),
                    constants@.len() == cs0.len(),
                    forall|k: int| 0 <= k < fs.len() ==> (#[trigger] fs[k]).1 < cs0.len(),
                decreases j,
            {
                j = j - 1;
                let addr = out.len();
                proof {
                    lemma_bodies_step(fs, j as int);
                    let ov = out@.map_values(|u: UOP| u@);
                    assert(ov.len() == out@.len());
                    assert(ov.len() == 1 + bodies(fs.subrange(j + 1, n as int)).len());
                    assert(addr == fn_addr(fs, j as int));
                }
                let ghost before = out@.map_values(|u: UOP| u@);
                let fops = &self.functions[j].0;
                let mut k: usize = 0;
                while k < fops.len()
                    invariant
                        k <= fops@.len(),
                        out@.map_values(|u: UOP| u@) == before + fops@.map_values(|u: UOP| u@).take(k as int),
                    decreases fops@.len() - k,
                {
                    let ghost b = out@.map_values(|u: UOP| u@);
                    out.push(copy_uop(&fops[k]));
                    proof {
                        assert(out@.map_values(|u: UOP| u@) =~= b.push(fops@[k as int]@));
                        assert(fops@.map_values(|u: UOP| u@).take(k + 1) =~= fops@.map_values(
                            |u: UOP| u@,
                        ).take(k as int).push(fops@[k as int]@));
                    }
                    k = k + 1;
                }
                proof {
                    assert(fops@.map_values(|u: UOP| u@).take(fops@.len() as int) =~= fops@.map_values(
                        |u: UOP| u@,
                    ));
                    assert(fs[j as int].0 == fops@.map_values(|u: UOP| u@));
                    assert(out@.map_values(|u: UOP| u@) =~= seq![UOPV::Op(Opcode::Jump(0))] + bodies(
                        fs.subrange(j as int, n as int),
                    ));
                }
                let gid = self.functions[j].1;
                let args = copy_strings(&self.functions[j].2);
                let ghost cv = constants@.map_values(|c: Constant| c@);
                constants.set(
                    gid as usize,
                    Constant::Function(Function { addr, args, set: false, get: false }),
                );
                proof {
                    assert(fs[j as int].1 == gid);
                    assert(constants@.map_values(|c: Constant| c@) =~= cv.update(
                        gid as int,
                        ConstantV::Func { addr: fn_addr(fs, j as int), args: fs[j as int].2, set: false, get: false },
                    ));
                }
            }
            let total = out.len();
            let ghost pre = out@.map_values(|u: UOP| u@);
            out.set(0, UOP::Op(Opcode::Jump(total as u32)));
            let ghost lay = out@.map_values(|u: UOP| u@);
            proof {
                assert(fs.subrange(0, n as int) =~= fs);
                assert(pre.len() == 1 + bodies(fs).len());
                assert(lay =~= seq![UOPV::Op(Opcode::Jump((1 + bodies(fs).len()) as u32))] + bodies(fs)) by {
                    assert(lay =~= pre.update(0, UOPV::Op(Opcode::Jump(total as u32))));
                }
            }
            let mut k: usize = 0;
            while k < self.code.len()
                invariant
                    k <= self.code@.len(),
                    out@.map_values(|u: UOP| u@) == lay + self.code_view().take(k as int),
                decreases self.code@.len() - k,
            {
                let ghost b = out@.map_values(|u: UOP| u@);
                out.push(copy_uop(&self.code[k]));
                proof {
                    assert(out@.map_values(|u: UOP| u@) =~= b.push(self.code@[k as int]@));
                    assert(self.code_view().take(k + 1) =~= self.code_view().take(k as int).push(
                        self.code@[k as int]@,
                    ));
                }
                k = k + 1;
            }
            proof {
                assert(self.code_view().take(self.code@.len() as int) =~= self.code_view());
                assert(out@.map_values(|u: UOP| u@) =~= laid_out(st.code, fs));
            }
            self.code = out;
        }
        proof {
            assert(self.code_view() == laid_out(st.code, st.functions));
            if n == 0 {
                assert(constants@.map_values(|c: Constant| c@) == fn_addrs(cs0, fs, 0));
            }
        }
        self.finish()
    }
}

} // verus!
