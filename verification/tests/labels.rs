use jazzlight::light::compiler::{Compiler, UOP};
use jazzlight::light::opcodes::Opcode;
use jazzlight::vm::codegen::{module_from_context, Context, Global};
use jazzlight::vm::opcode::Op;
use jazzlight::vm::value::Value;

#[test]
fn finish_resolves_jumps_to_label_positions() {
    let mut c = Compiler::new();
    let end = c.new_empty_label();
    assert_eq!(end, "0");
    let top = c.new_empty_label();
    assert_eq!(top, "1");
    c.label_here(&top);
    c.write(Opcode::LoadTrue);
    c.emit_gotof(&end);
    c.emit_goto(&top);
    c.label_here(&end);
    c.emit_gotot(&end);
    c.emit_paddr(&top);
    let ops = c.finish();
    assert_eq!(
        ops,
        vec![
            Opcode::Label,
            Opcode::LoadTrue,
            Opcode::JumpIfFalse(4),
            Opcode::Jump(0),
            Opcode::Label,
            Opcode::JumpIf(4),
            Opcode::PushCatch(0),
        ]
    );
    assert_eq!(c.labels.get("0"), Some(&Some(4)));
    assert_eq!(c.labels.get("1"), Some(&Some(0)));
}

#[test]
fn a_label_marked_twice_is_at_its_last_mark() {
    let mut c = Compiler::new();
    c.label_here("l");
    c.write(Opcode::Dup);
    c.label_here("l");
    c.emit_goto("l");
    assert_eq!(c.finish(), vec![Opcode::Label, Opcode::Dup, Opcode::Label, Opcode::Jump(2)]);
}

#[test]
fn goto_jumps_relative_to_the_current_position() {
    let mut c = Compiler::new();
    c.write(Opcode::Dup);
    c.write(Opcode::Dup);
    c.goto(5);
    assert_eq!(c.pos(), 3);
    assert!(matches!(c.code[2], UOP::Op(Opcode::Jump(3))));
}

#[test]
fn context_finish_lowers_labels_to_nops() {
    let mut c = Context::new();
    let out = c.new_empty_label();
    c.emit_paddr(&out);
    c.write(Op::LoadBuiltin("print".to_string()));
    c.emit_gotot(&out);
    c.emit_gotof(&out);
    c.emit_goto(&out);
    c.goto(7);
    c.label_here(&out);
    assert_eq!(c.pos(), 7);
    let ops = c.finish();
    let expected = vec![
        Op::CatchPush(6),
        Op::LoadBuiltin("print".to_string()),
        Op::JumpIf(6),
        Op::JumpIfNot(6),
        Op::Jump(6),
        Op::Jump(7),
        Op::Nop,
    ];
    assert_eq!(format!("{:?}", ops), format!("{:?}", expected));
}

#[test]
fn context_global_interns_each_global_once() {
    let mut c = Context::new();
    assert_eq!(c.global(&Global::Str("a".to_string())), 0);
    assert_eq!(c.global(&Global::Float(4.5f64.to_bits())), 1);
    assert_eq!(c.global(&Global::Var("a".to_string())), 2);
    assert_eq!(c.global(&Global::Str("a".to_string())), 0);
    assert_eq!(c.global(&Global::Float(4.5f64.to_bits())), 1);
    assert_eq!(c.global(&Global::Float(2.0f64.to_bits())), 3);
    assert_eq!(c.g.table.len(), 4);
}

#[test]
fn context_write_op_maps_each_operator() {
    let table = [
        ("&&", "And"),
        ("||", "Or"),
        ("+", "Add"),
        ("-", "Sub"),
        ("/", "Div"),
        ("*", "Mul"),
        ("%", "Mod"),
        ("<<", "Shl"),
        (">>", "Shr"),
        ("|", "Or"),
        ("&", "And"),
        ("^", "Xor"),
        ("==", "Eq"),
        ("!=", "Neq"),
        (">", "Gt"),
        (">=", "Gte"),
        ("<", "Lt"),
        ("<=", "Lte"),
        ("!", "Not"),
    ];
    for (op, expected) in table.iter() {
        let mut c = Context::new();
        c.write_op(op);
        let ops = c.finish();
        assert_eq!(format!("{:?}", ops), format!("[{}]", expected));
    }
}

#[test]
fn module_from_context_fills_globals_and_code() {
    let mut c = Context::new();
    let f = c.global(&Global::Func(3, 2));
    let s = c.global(&Global::Str("hi".to_string()));
    let x = c.global(&Global::Float(1.5f64.to_bits()));
    let v = c.global(&Global::Var("v".to_string()));
    assert_eq!((f, s, x, v), (0, 1, 2, 3));
    let end = c.new_empty_label();
    c.emit_goto(&end);
    c.write(Op::LoadGlobal(1));
    c.label_here(&end);
    c.write(Op::Ret);
    let m = module_from_context(&mut c);
    assert_eq!(m.globals.len(), 4);
    match &m.globals[0] {
        Value::Function(func) => {
            assert!(!func.native);
            assert_eq!(func.address, 3);
            assert_eq!(func.argc, 2);
        }
        other => panic!("expected a function, got {:?}", other),
    }
    assert!(matches!(&m.globals[1], Value::String(s) if s == "hi"));
    assert!(matches!(m.globals[2], Value::Float(b) if b == 1.5f64.to_bits()));
    assert!(matches!(m.globals[3], Value::Null));
    assert_eq!(
        format!("{:?}", m.code),
        format!("{:?}", vec![Op::Jump(2), Op::LoadGlobal(1), Op::Nop, Op::Ret])
    );
    assert!(m.trace_info.is_empty());
}

#[test]
fn pending_jumps_are_patched_by_their_distance() {
    let mut c = Compiler::new();
    let skip = c.cjmp(false);
    c.write(Opcode::Dup);
    let over = c.jmp();
    c.write(Opcode::Dup);
    c.write(Opcode::Dup);
    let taken = c.cjmp(true);
    skip.resolve(&mut c);
    over.resolve(&mut c);
    c.write(Opcode::Dup);
    taken.resolve(&mut c);
    assert_eq!(
        c.finish(),
        vec![
            Opcode::JumpIfFalse(6),
            Opcode::Dup,
            Opcode::Jump(4),
            Opcode::Dup,
            Opcode::Dup,
            Opcode::JumpIf(2),
            Opcode::Dup,
        ]
    );
}
