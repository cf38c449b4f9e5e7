use hashlink::LinkedHashMap;
use jazzlight::light::decoder::BytecodeReader;
use jazzlight::light::writer::Writer;
use jazzlight::light::ast::{Expr, Literal};
use jazzlight::light::compiler::{Compiler, UOP};
use jazzlight::light::opcodes::{Name, Opcode};
use jazzlight::light::symbols::Symbols;
use jazzlight::light::value::Constant;

fn int_lit(v: i64) -> Box<Expr> {
    Box::new(Expr::Const(Literal::Int(v)))
}

fn ident(n: &str) -> Box<Expr> {
    Box::new(Expr::Const(Literal::Ident(n.to_string())))
}

fn compile_one(e: &Expr) -> (Compiler, Vec<Opcode>, Vec<Constant>, Symbols) {
    let mut c = Compiler::new();
    let mut constants = Vec::new();
    let mut symbols = Symbols::new();
    c.compile(e, &mut constants, &mut symbols);
    let ops = c.finish();
    (c, ops, constants, symbols)
}

#[test]
fn binop_compiles_right_operand_first() {
    let e = Expr::Binop("-".to_string(), int_lit(1), int_lit(2));
    let (_, ops, constants, _) = compile_one(&e);
    assert_eq!(ops, vec![Opcode::LoadInt(2), Opcode::LoadInt(1), Opcode::Sub]);
    assert!(constants.is_empty());
}

#[test]
fn unary_minus_and_not() {
    let e = Expr::Unop("-".to_string(), int_lit(5));
    let (_, ops, _, _) = compile_one(&e);
    assert_eq!(ops, vec![Opcode::LoadInt(5), Opcode::Neg]);
    let e = Expr::Unop("!".to_string(), Box::new(Expr::Const(Literal::True)));
    let (_, ops, _, _) = compile_one(&e);
    assert_eq!(ops, vec![Opcode::LoadTrue, Opcode::Not]);
    let e = Expr::Unop("+".to_string(), int_lit(5));
    let (_, ops, _, _) = compile_one(&e);
    assert_eq!(ops, vec![Opcode::LoadInt(5)]);
}

#[test]
fn var_declaration_adds_string_constant_and_interns_name() {
    let e = Expr::Var(
        "x".to_string(),
        Some(Box::new(Expr::Const(Literal::Str("hi".to_string())))),
    );
    let (_, ops, constants, symbols) = compile_one(&e);
    assert_eq!(ops, vec![Opcode::LoadConst(0), Opcode::DeclVar(Name(0))]);
    assert_eq!(constants.len(), 1);
    assert!(matches!(&constants[0], Constant::String(s) if s == "hi"));
    assert_eq!(symbols.str(Name(0)), "x");
}

#[test]
fn var_without_value_is_undefined() {
    let e = Expr::Var("y".to_string(), None);
    let (_, ops, _, _) = compile_one(&e);
    assert_eq!(ops, vec![Opcode::LoadUndef, Opcode::DeclVar(Name(0))]);
}

#[test]
fn field_read_loads_field_name_constant() {
    let e = Expr::Field(ident("o"), "x".to_string());
    let (_, ops, constants, symbols) = compile_one(&e);
    assert_eq!(
        ops,
        vec![Opcode::LoadVar(Name(0)), Opcode::LoadConst(0), Opcode::Load]
    );
    assert!(matches!(&constants[0], Constant::String(s) if s == "x"));
    assert_eq!(symbols.str(Name(0)), "o");
}

#[test]
fn if_else_jumps_over_branches() {
    let e = Expr::If(
        Box::new(Expr::Const(Literal::True)),
        int_lit(1),
        Some(int_lit(2)),
    );
    let (_, ops, _, _) = compile_one(&e);
    assert_eq!(
        ops,
        vec![
            Opcode::BlockEnd,
            Opcode::BlockStart,
            Opcode::LoadTrue,
            Opcode::JumpIfFalse(9),
            Opcode::BlockEnd,
            Opcode::BlockStart,
            Opcode::LoadInt(1),
            Opcode::Jump(15),
            Opcode::BlockEnd,
            Opcode::Label,
            Opcode::BlockStart,
            Opcode::LoadInt(2),
            Opcode::Jump(15),
            Opcode::BlockEnd,
            Opcode::BlockStart,
            Opcode::Label,
            Opcode::BlockEnd,
        ]
    );
}

#[test]
fn while_loop_break_jumps_to_end() {
    let e = Expr::While(
        Box::new(Expr::Const(Literal::True)),
        Box::new(Expr::Break(None)),
    );
    let (c, ops, _, _) = compile_one(&e);
    assert_eq!(
        ops,
        vec![
            Opcode::BlockEnd,
            Opcode::Label,
            Opcode::BlockStart,
            Opcode::LoadTrue,
            Opcode::JumpIfFalse(11),
            Opcode::BlockEnd,
            Opcode::BlockStart,
            Opcode::LoadNil,
            Opcode::Jump(11),
            Opcode::Jump(1),
            Opcode::BlockEnd,
            Opcode::Label,
        ]
    );
    assert_eq!(c.breaks, vec!["1".to_string()]);
    assert_eq!(c.continues, vec!["0".to_string()]);
}

#[test]
fn block_pushes_and_pops_environment() {
    let e = Expr::Block(vec![Expr::Const(Literal::Null), Expr::Const(Literal::False)]);
    let (_, ops, _, _) = compile_one(&e);
    assert_eq!(
        ops,
        vec![
            Opcode::BlockStart,
            Opcode::PushEnv,
            Opcode::LoadNil,
            Opcode::LoadFalse,
            Opcode::PopEnv,
            Opcode::BlockEnd,
        ]
    );
}

#[test]
fn array_literal_compiles_elements_last_first() {
    let e = Expr::Const(Literal::Array(vec![
        Expr::Const(Literal::Int(1)),
        Expr::Const(Literal::Int(2)),
    ]));
    let (_, ops, _, _) = compile_one(&e);
    assert_eq!(
        ops,
        vec![Opcode::LoadInt(2), Opcode::LoadInt(1), Opcode::ConstructArray(2)]
    );
}

#[test]
fn method_call_duplicates_receiver() {
    let e = Expr::Call(
        Box::new(Expr::Field(ident("o"), "m".to_string())),
        vec![Expr::Const(Literal::Int(7))],
    );
    let (_, ops, constants, _) = compile_one(&e);
    assert_eq!(
        ops,
        vec![
            Opcode::LoadInt(7),
            Opcode::LoadVar(Name(0)),
            Opcode::Dup,
            Opcode::LoadConst(0),
            Opcode::Load,
            Opcode::Call(1),
        ]
    );
    assert!(matches!(&constants[0], Constant::String(s) if s == "m"));
}

#[test]
fn plain_call_pushes_new_object() {
    let e = Expr::Call(ident("f"), vec![]);
    let (_, ops, _, _) = compile_one(&e);
    assert_eq!(
        ops,
        vec![Opcode::NewObj, Opcode::LoadVar(Name(0)), Opcode::Call(0)]
    );
}

#[test]
fn assignment_to_variable_stores_it() {
    let e = Expr::Assign(ident("x"), int_lit(3));
    let (_, ops, _, _) = compile_one(&e);
    assert_eq!(
        ops,
        vec![Opcode::Dup, Opcode::LoadInt(3), Opcode::StoreVar(Name(0))]
    );
}

#[test]
fn from_import_binds_numbered_module_name() {
    let e = Expr::FromImport(3, "m.jazz".to_string(), vec!["a".to_string()]);
    let (_, ops, constants, symbols) = compile_one(&e);
    assert_eq!(symbols.str(Name(0)), "require");
    assert_eq!(symbols.str(Name(1)), "@import_3");
    assert_eq!(symbols.str(Name(2)), "a");
    assert_eq!(
        ops,
        vec![
            Opcode::LoadConst(0),
            Opcode::NewObj,
            Opcode::LoadVar(Name(0)),
            Opcode::Call(1),
            Opcode::DeclVar(Name(1)),
            Opcode::LoadVar(Name(1)),
            Opcode::LoadConst(1),
            Opcode::Load,
            Opcode::DeclVar(Name(2)),
        ]
    );
    assert!(matches!(&constants[0], Constant::String(s) if s == "m.jazz"));
    assert!(matches!(&constants[1], Constant::String(s) if s == "a"));
}

#[test]
fn named_function_is_set_aside_and_bound() {
    let e = Expr::FunctionDecl(
        "f".to_string(),
        vec!["a".to_string()],
        Box::new(Expr::Return(Some(ident("a")))),
    );
    let (c, ops, constants, symbols) = compile_one(&e);
    assert_eq!(symbols.str(Name(0)), "a");
    assert_eq!(symbols.str(Name(1)), "f");
    assert_eq!(
        ops,
        vec![
            Opcode::LoadConst(0),
            Opcode::DeclVar(Name(1)),
            Opcode::LoadVar(Name(1)),
            Opcode::InitEnv,
            Opcode::StoreVar(Name(1)),
        ]
    );
    assert_eq!(constants.len(), 1);
    assert!(matches!(&constants[0], Constant::Function(f) if f.args == vec!["a".to_string()]));
    assert_eq!(c.functions.len(), 1);
    let (body, gid, args) = &c.functions[0];
    assert_eq!(*gid, 0);
    assert_eq!(args, &vec!["a".to_string()]);
    assert_eq!(body.len(), 5);
    assert!(matches!(&body[0], UOP::Op(Opcode::LoadVar(Name(0)))));
    assert!(matches!(&body[1], UOP::Op(Opcode::PopEnv)));
    assert!(matches!(&body[2], UOP::Goto(l) if l == "0"));
    assert!(matches!(&body[3], UOP::Label(l) if l == "0"));
    assert!(matches!(&body[4], UOP::Op(Opcode::Return)));
}

#[test]
fn program_without_functions_ends_at_return_label() {
    let mut c = Compiler::new();
    let mut constants = Vec::new();
    let mut symbols = Symbols::new();
    let ast = vec![Expr::Var("x".to_string(), Some(int_lit(1)))];
    let ops = c.compile_ast(&ast, &mut constants, &mut symbols);
    assert_eq!(
        ops,
        vec![
            Opcode::LoadInt(1),
            Opcode::DeclVar(Name(0)),
            Opcode::Label,
            Opcode::Return,
        ]
    );
    assert_eq!(c.labels.get("0"), Some(&Some(2)));
}

#[test]
fn program_lays_functions_out_behind_a_jump() {
    let mut c = Compiler::new();
    let mut constants = Vec::new();
    let mut symbols = Symbols::new();
    let ast = vec![
        Expr::FunctionDecl(
            "f".to_string(),
            vec!["a".to_string()],
            Box::new(Expr::Return(Some(ident("a")))),
        ),
        Expr::Call(ident("f"), vec![Expr::Const(Literal::Int(4))]),
    ];
    let ops = c.compile_ast(&ast, &mut constants, &mut symbols);
    assert_eq!(
        ops,
        vec![
            Opcode::Jump(6),
            Opcode::LoadVar(Name(0)),
            Opcode::PopEnv,
            Opcode::Jump(4),
            Opcode::Label,
            Opcode::Return,
            Opcode::LoadConst(0),
            Opcode::DeclVar(Name(1)),
            Opcode::LoadVar(Name(1)),
            Opcode::InitEnv,
            Opcode::StoreVar(Name(1)),
            Opcode::LoadInt(4),
            Opcode::NewObj,
            Opcode::LoadVar(Name(1)),
            Opcode::Call(1),
            Opcode::Label,
            Opcode::Return,
        ]
    );
    assert_eq!(constants.len(), 1);
    match &constants[0] {
        Constant::Function(f) => {
            assert_eq!(f.addr, 1);
            assert_eq!(f.args, vec!["a".to_string()]);
            assert!(!f.set && !f.get);
        }
        _ => panic!("expected a function constant"),
    }
}

#[test]
fn two_functions_last_compiled_comes_first() {
    let mut c = Compiler::new();
    let mut constants = Vec::new();
    let mut symbols = Symbols::new();
    let ast = vec![
        Expr::Function(vec![], Box::new(Expr::Const(Literal::Null))),
        Expr::Function(vec![], Box::new(Expr::Const(Literal::True))),
    ];
    let ops = c.compile_ast(&ast, &mut constants, &mut symbols);
    assert_eq!(ops[0], Opcode::Jump(7));
    assert_eq!(&ops[1..4], &[Opcode::LoadTrue, Opcode::Label, Opcode::Return]);
    assert_eq!(&ops[4..7], &[Opcode::LoadNil, Opcode::Label, Opcode::Return]);
    match (&constants[0], &constants[1]) {
        (Constant::Function(f0), Constant::Function(f1)) => {
            assert_eq!(f0.addr, 4);
            assert_eq!(f1.addr, 1);
        }
        _ => panic!("expected function constants"),
    }
}

#[test]
fn compiled_program_reads_back_from_its_bytecode() {
    let mut c = Compiler::new();
    let mut constants = Vec::new();
    let mut symbols = Symbols::new();
    let ast = vec![
        Expr::FunctionDecl(
            "double".to_string(),
            vec!["n".to_string()],
            Box::new(Expr::Return(Some(Box::new(Expr::Binop(
                "*".to_string(),
                ident("n"),
                int_lit(2),
            ))))),
        ),
        Expr::Var(
            "s".to_string(),
            Some(Box::new(Expr::Const(Literal::Str("hello".to_string())))),
        ),
        Expr::Call(ident("double"), vec![Expr::Const(Literal::Int(21))]),
    ];
    let ops = c.compile_ast(&ast, &mut constants, &mut symbols);
    let mut w = Writer {
        symbols,
        constants,
        code: ops.clone(),
        bytecode: vec![],
        names: LinkedHashMap::new(),
    };
    w.emit();
    let count = w.bytecode.len();
    let mut r = BytecodeReader {
        symbols: Symbols::new(),
        constants: vec![],
        bytecode: w.bytecode.clone(),
        pc: 0,
        count,
    };
    let read = r.read().expect("a module");
    assert_eq!(read.len(), ops.len());
    for (a, b) in read.iter().zip(ops.iter()) {
        match (a, b) {
            (Opcode::LoadVar(x), Opcode::LoadVar(y))
            | (Opcode::DeclVar(x), Opcode::DeclVar(y))
            | (Opcode::StoreVar(x), Opcode::StoreVar(y)) => {
                assert_eq!(r.symbols.str(*x), w.symbols.str(*y));
            }
            _ => assert_eq!(a, b),
        }
    }
    assert_eq!(r.constants.len(), 2);
    assert!(matches!(&r.constants[1], Constant::String(s) if s == "hello"));
    match &r.constants[0] {
        Constant::Function(f) => {
            assert_eq!(f.addr, 1);
            assert_eq!(f.args, vec!["n".to_string()]);
        }
        _ => panic!("expected a function constant"),
    }
}
