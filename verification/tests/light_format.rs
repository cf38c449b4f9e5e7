use hashlink::LinkedHashMap;
use jazzlight::light::decoder::BytecodeReader;
use jazzlight::light::opcodes::{Name, Opcode};
use jazzlight::light::symbols::Symbols;
use jazzlight::light::value::{Constant, Function};
use jazzlight::light::writer::Writer;

fn writer(names: Vec<&str>, constants: Vec<Constant>, code: Vec<Opcode>) -> Writer {
    Writer {
        symbols: Symbols { names: names.into_iter().map(|s| s.to_string()).collect() },
        constants,
        code,
        bytecode: vec![],
        names: LinkedHashMap::new(),
    }
}

fn reader(bytes: Vec<u8>) -> BytecodeReader {
    let count = bytes.len();
    BytecodeReader {
        symbols: Symbols { names: vec![] },
        constants: vec![],
        bytecode: bytes,
        pc: 0,
        count,
    }
}

#[test]
fn emit_lays_out_code_without_names() {
    let mut w = writer(vec![], vec![], vec![Opcode::LoadInt(5), Opcode::Return]);
    w.emit();
    let mut expected = vec![0, 0, 0, 0, 0, 0, 0, 0, 54];
    expected.extend_from_slice(&5u64.to_le_bytes());
    expected.push(27);
    expected.push(57);
    assert_eq!(w.bytecode, expected);
}

#[test]
fn emit_writes_name_table_with_ids() {
    let mut w = writer(vec!["x"], vec![], vec![Opcode::LoadVar(Name(0))]);
    w.emit();
    let expected = vec![
        1, 0, 0, 0, // one name
        0, 0, 0, 0, // its id
        1, 0, 0, 0, // its length
        b'x', // its bytes
        0, 0, 0, 0, // no constant
        6, 0, 0, 0, 0, // LoadVar of name 0
        57,
    ];
    assert_eq!(w.bytecode, expected);
    assert_eq!(w.names.get("x"), Some(&0));
}

#[test]
fn emit_writes_each_kind_of_constant() {
    let consts = vec![
        Constant::Number(1.5f64.to_bits()),
        Constant::Bool(true),
        Constant::Nil,
        Constant::Function(Function { addr: 7, args: vec![], set: false, get: false }),
    ];
    let mut w = writer(vec![], consts, vec![]);
    w.emit();
    let mut expected = vec![0, 0, 0, 0, 4, 0, 0, 0, 1];
    expected.extend_from_slice(&1.5f64.to_bits().to_le_bytes());
    expected.extend_from_slice(&[2, 1, 4, 5, 7, 0, 0, 0, 0, 0, 0, 57]);
    assert_eq!(w.bytecode, expected);
}

#[test]
fn emit_writes_narrow_operands() {
    let mut w = writer(
        vec![],
        vec![],
        vec![Opcode::ConstructArray(3), Opcode::Call(0x1_0002), Opcode::PushCatch(9)],
    );
    w.emit();
    let expected = vec![0, 0, 0, 0, 0, 0, 0, 0, 10, 3, 0, 19, 2, 0, 13, 9, 0, 0, 0, 57];
    assert_eq!(w.bytecode, expected);
}

#[test]
fn get_str_id_numbers_new_names_in_order() {
    let mut w = writer(vec![], vec![], vec![]);
    assert_eq!(w.get_str_id("a"), 0);
    assert_eq!(w.get_str_id("b"), 1);
    assert_eq!(w.get_str_id("a"), 0);
    assert_eq!(w.names.len(), 2);
}

#[test]
fn read_gives_back_what_emit_wrote() {
    let code = vec![
        Opcode::LoadInt(-12),
        Opcode::LoadConst(1),
        Opcode::Jump(4),
        Opcode::Pop(2),
        Opcode::Add,
        Opcode::BlockStart,
        Opcode::Return,
    ];
    let consts = vec![Constant::Nil, Constant::Bool(false), Constant::Number(7)];
    let mut w = writer(vec![], consts, code.clone());
    w.emit();
    let mut r = reader(w.bytecode.clone());
    let ops = r.read().unwrap();
    assert_eq!(ops, code);
    assert_eq!(r.constants.len(), 3);
    assert!(matches!(r.constants[0], Constant::Nil));
    assert!(matches!(r.constants[1], Constant::Bool(false)));
    assert!(matches!(r.constants[2], Constant::Number(7)));
    assert_eq!(r.pc, w.bytecode.len());
}

#[test]
fn read_interns_names() {
    // name table: "f", "g"; code: DeclVar(g), LoadVar(f), LoadVar(g)
    let bytes = vec![
        2, 0, 0, 0, 0, 0, 0, 0, 1, 0, 0, 0, b'f', 1, 0, 0, 0, 1, 0, 0, 0, b'g', // names
        0, 0, 0, 0, // no constant
        11, 1, 0, 0, 0, 6, 0, 0, 0, 0, 6, 1, 0, 0, 0, 57,
    ];
    let mut r = reader(bytes);
    let ops = r.read().unwrap();
    assert_eq!(ops, vec![Opcode::DeclVar(Name(0)), Opcode::LoadVar(Name(1)), Opcode::LoadVar(Name(0))]);
    assert_eq!(r.symbols.names, vec!["g".to_string(), "f".to_string()]);
}

#[test]
fn read_gives_back_names_strings_and_parameters() {
    let consts = vec![
        Constant::String("s".to_string()),
        Constant::Function(Function {
            addr: 4,
            args: vec!["p".to_string(), "x".to_string()],
            set: false,
            get: false,
        }),
    ];
    let code = vec![Opcode::LoadVar(Name(1)), Opcode::StoreVar(Name(0)), Opcode::LoadVar(Name(1))];
    let mut w = writer(vec!["x", "y"], consts, code);
    w.emit();
    let mut r = reader(w.bytecode.clone());
    let ops = r.read().unwrap();
    assert_eq!(ops, vec![Opcode::LoadVar(Name(0)), Opcode::StoreVar(Name(1)), Opcode::LoadVar(Name(0))]);
    assert_eq!(r.symbols.names, vec!["y".to_string(), "x".to_string()]);
    assert!(matches!(&r.constants[0], Constant::String(s) if s == "s"));
    match &r.constants[1] {
        Constant::Function(f) => {
            assert_eq!(f.addr, 4);
            assert_eq!(f.args, vec!["p".to_string(), "x".to_string()]);
        }
        other => panic!("unexpected constant {:?}", other),
    }
    assert_eq!(r.pc, w.bytecode.len());
}

#[test]
fn read_rejects_a_name_entry_out_of_place() {
    let bytes = vec![
        1, 0, 0, 0, 1, 0, 0, 0, 1, 0, 0, 0, b'x', // one name, with id 1 in place 0
        0, 0, 0, 0, 57,
    ];
    assert!(reader(bytes).read().is_none());
}

#[test]
fn read_rejects_truncated_and_unknown_bytes() {
    assert!(reader(vec![0, 0, 0]).read().is_none());
    assert!(reader(vec![0, 0, 0, 0, 0, 0, 0, 0]).read().is_none());
    assert!(reader(vec![0, 0, 0, 0, 0, 0, 0, 0, 99, 57]).read().is_none());
    assert!(reader(vec![0, 0, 0, 0, 1, 0, 0, 0, 9, 57]).read().is_none());
    assert!(reader(vec![1, 0, 0, 0, 1, 0, 0, 0, 0xff, 0, 0, 0, 0, 57]).read().is_none());
}

#[test]
fn read_stops_at_count() {
    // The byte that reaches `count` is read but not decoded.
    let bytes = vec![0, 0, 0, 0, 0, 0, 0, 0, 21, 22, 23];
    let mut r = reader(bytes);
    r.count = 10;
    assert_eq!(r.read().unwrap(), vec![Opcode::Dup]);
}

#[test]
fn read_decodes_function_flags_and_arguments() {
    let bytes = vec![
        1, 0, 0, 0, 0, 0, 0, 0, 1, 0, 0, 0, b'a', // names: "a"
        1, 0, 0, 0, // one constant
        5, 3, 0, 0, 0, 1, 0, 3, 0, 0, 0, 0, // function at 3, one argument, set and get
        57,
    ];
    let mut r = reader(bytes);
    assert_eq!(r.read().unwrap(), vec![]);
    match &r.constants[0] {
        Constant::Function(f) => {
            assert_eq!(f.addr, 3);
            assert_eq!(f.args, vec!["a".to_string()]);
            assert!(f.set && f.get);
        }
        other => panic!("unexpected constant {:?}", other),
    }
}

#[test]
fn symbols_intern_once() {
    let mut s = Symbols { names: vec![] };
    assert_eq!(s.intern("x"), Name(0));
    assert_eq!(s.intern("y"), Name(1));
    assert_eq!(s.intern("x"), Name(0));
    assert_eq!(s.str(Name(1)), "y");
}
