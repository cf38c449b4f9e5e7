use jazzlight::vm::ast::{Constant, Expr};
use jazzlight::vm::codegen::{Context, Global, UOP};
use jazzlight::vm::opcode::Op;

fn ident(s: &str) -> Box<Expr> {
    Box::new(Expr::Const(Constant::Ident(s.to_string())))
}

fn lit(n: i64) -> Box<Expr> {
    Box::new(Expr::Const(Constant::Int(n)))
}

fn binop(op: &str, a: Box<Expr>, b: Box<Expr>) -> Box<Expr> {
    Box::new(Expr::Binop(op.to_string(), a, b))
}

#[test]
fn compile_lowers_a_counting_loop() {
    let program = Expr::Block(vec![
        Expr::Var("x".to_string(), Some(lit(1))),
        Expr::While(
            binop("<", ident("x"), lit(10)),
            Box::new(Expr::Assign(ident("x"), binop("+", ident("x"), lit(1)))),
        ),
        Expr::Return(Some(ident("x"))),
    ]);
    let mut c = Context::new();
    c.compile(&program, false);
    let ops = c.finish();
    let expected = vec![
        Op::LoadInt(1),
        Op::StoreLocal(0),
        Op::Nop,
        Op::LoadInt(10),
        Op::LoadLocal(0),
        Op::Lt,
        Op::JumpIfNot(12),
        Op::LoadInt(1),
        Op::LoadLocal(0),
        Op::Add,
        Op::StoreLocal(0),
        Op::Jump(2),
        Op::Nop,
        Op::LoadLocal(0),
        Op::Ret,
    ];
    assert_eq!(format!("{:?}", ops), format!("{:?}", expected));
    assert!(c.breaks.is_empty() && c.continues.is_empty());
}

#[test]
fn compile_gives_a_function_its_own_block_and_environment() {
    let program = Expr::Block(vec![
        Expr::Var("y".to_string(), Some(lit(5))),
        Expr::Var(
            "f".to_string(),
            Some(Box::new(Expr::Function(vec!["a".to_string()], binop("+", ident("a"), ident("y"))))),
        ),
    ]);
    let mut c = Context::new();
    c.compile(&program, false);
    let code: Vec<String> = c
        .ops
        .iter()
        .map(|u| match u {
            UOP::Op(op) => format!("{:?}", op),
            _ => "label".to_string(),
        })
        .collect();
    assert_eq!(
        code,
        vec!["LoadInt(5)", "StoreLocal(0)", "LoadLocal(0)", "LoadGlobal(0)", "MakeEnv(1)", "StoreLocal(1)"]
    );
    assert_eq!(c.g.table.len(), 1);
    assert!(matches!(c.g.table[0], Global::Func(0, -1)));
    assert_eq!(c.g.functions.len(), 1);
    let (fcode, gid, nargs) = &c.g.functions[0];
    assert_eq!((*gid, *nargs), (0, 1));
    assert_eq!(fcode.len(), 5);
    assert!(matches!(fcode[0], UOP::Op(Op::LoadEnv(0))));
    assert!(matches!(fcode[1], UOP::Op(Op::LoadLocal(0))));
    assert!(matches!(fcode[2], UOP::Op(Op::Add)));
    assert!(matches!(fcode[4], UOP::Op(Op::Ret)));
    // the function's variable is known by the function's global id
    assert_eq!(c.global(&Global::Var("f".to_string())), 0);
}

#[test]
fn compile_registers_strings_and_fields_as_globals() {
    let program = Expr::Call(
        Box::new(Expr::Field(ident("o"), "m".to_string())),
        vec![Expr::Const(Constant::Str("s".to_string()))],
    );
    let mut c = Context::new();
    c.compile(&program, true);
    let ops = c.finish();
    // argument "s", receiver o, method name "m", receiver o again, load, call
    assert_eq!(
        format!("{:?}", ops),
        format!(
            "{:?}",
            vec![
                Op::LoadGlobal(0),
                Op::LoadGlobal(1),
                Op::LoadGlobal(2),
                Op::LoadGlobal(1),
                Op::Load,
                Op::ObjCall(1),
            ]
        )
    );
    assert_eq!(c.g.table.len(), 3);
}
