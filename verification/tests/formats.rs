use jazzlight::jazz::emit::compile;
use jazzlight::jazz::module::{read_module, Module as JazzModule, Reader};
use jazzlight::jazz::opcode::Opcode as JazzOp;
use jazzlight::jazz::value::{FuncVar, Function as JazzFunction, Value as JazzValue};
use jazzlight::vm::opcode::Op;
use jazzlight::vm::reader::BytecodeReader as VmReader;
use jazzlight::vm::value::{Function, Value};
use jazzlight::vm::writer::BytecodeWriter;
use jazzlight::vm::Module as VmModule;
use fnv::FnvHashMap;
use std::collections::HashMap;

fn vm_module() -> VmModule {
    VmModule {
        code: vec![Op::LoadBuiltin("hi".to_string()), Op::Call(1), Op::Jump(0), Op::Ret],
        globals: vec![
            Value::String("hi".to_string()),
            Value::Float(1.0f64.to_bits()),
            Value::Function(Function { native: false, address: 3, argc: 2 }),
        ],
        trace_info: HashMap::new(),
    }
}

#[test]
fn vm_writer_lays_out_a_module() {
    let mut w = BytecodeWriter { bytecode: vec![] };
    w.write_module(&vm_module());
    let mut expected = vec![1, 0, 0, 0, 3, 0, 0, 0, 4, 0, 0, 0, 0];
    expected.extend_from_slice(&[2, 0, 0, 0, b'h', b'i']);
    expected.extend_from_slice(&[0, 0, 0, 0, 0, 1]);
    expected.extend_from_slice(&1.0f64.to_bits().to_le_bytes());
    expected.extend_from_slice(&[3, 3, 0, 0, 0, 2, 0]);
    expected.extend_from_slice(&[7, 0, 0, 0, 0, 15, 1, 0, 18, 0, 0, 0, 0, 23]);
    assert_eq!(w.bytecode, expected);
}

#[test]
fn vm_reader_gives_back_the_written_module() {
    let mut w = BytecodeWriter { bytecode: vec![] };
    w.write_module(&vm_module());
    let mut r = VmReader::new(&w.bytecode);
    let m = r.read_module().unwrap();
    assert_eq!(format!("{:?}", m.code), format!("{:?}", vm_module().code));
    assert_eq!(format!("{:?}", m.globals), format!("{:?}", vm_module().globals));
    assert!(m.trace_info.is_empty());
}

#[test]
fn vm_reader_rejects_truncated_input() {
    let mut w = BytecodeWriter { bytecode: vec![] };
    w.write_module(&vm_module());
    let cut = &w.bytecode[..w.bytecode.len() - 1];
    assert!(VmReader::new(cut).read_module().is_none());
    assert!(VmReader::new(&[]).read_module().is_none());
}

#[test]
fn vm_writer_write_u8_appends() {
    let mut w = BytecodeWriter { bytecode: vec![9] };
    w.write_u8(4);
    w.write_u16(0x0102);
    assert_eq!(w.bytecode, vec![9, 4, 2, 1]);
}

fn jazz_module() -> JazzModule {
    JazzModule {
        name: "main".to_string(),
        globals: vec![JazzValue::Func(JazzFunction { var: FuncVar::Offset(3), nargs: 2 })],
        code: vec![
            JazzOp::LdInt(7),
            JazzOp::LdStr("hi".to_string()),
            JazzOp::Call(1),
            JazzOp::JumpIf(0),
            JazzOp::Ret,
        ],
        fields: {
            let mut f = FnvHashMap::default();
            f.insert(42, "x".to_string());
            f
        },
    }
}

#[test]
fn jazz_compile_lays_out_a_module() {
    let code = compile(&jazz_module());
    let mut expected = vec![1, 0, 0, 0, 1, 0, 0, 0, 5, 0, 0, 0];
    expected.extend_from_slice(&[1, 3, 0, 0, 0, 2, 0]);
    expected.extend_from_slice(&42u64.to_le_bytes());
    expected.extend_from_slice(&[b'x', 0]);
    expected.extend_from_slice(&[0, 0]);
    expected.extend_from_slice(&7u64.to_le_bytes());
    expected.extend_from_slice(&[2, 2, 0, 0, 0, b'h', b'i']);
    expected.extend_from_slice(&[7, 1, 0]);
    expected.extend_from_slice(&[10, 1, 0, 0, 0, 0]);
    expected.extend_from_slice(&[11]);
    assert_eq!(code, expected);
}

#[test]
fn jazz_reader_gives_back_the_compiled_module() {
    let code = compile(&jazz_module());
    let m = read_module(Reader { code, pc: 0 }, "main").unwrap();
    assert_eq!(m.name, "main");
    assert_eq!(format!("{:?}", m.globals), format!("{:?}", jazz_module().globals));
    assert_eq!(format!("{:?}", m.code), format!("{:?}", jazz_module().code));
    assert_eq!(m.fields, jazz_module().fields);
}

#[test]
fn jazz_reader_negates_negative_integer_constants() {
    let mut m = jazz_module();
    m.code = vec![JazzOp::LdInt(-5)];
    let code = compile(&m);
    let back = read_module(Reader { code, pc: 0 }, "main").unwrap();
    assert_eq!(format!("{:?}", back.code), format!("{:?}", vec![JazzOp::LdInt(5)]));
}

#[test]
fn jazz_reader_rejects_truncated_input() {
    let code = compile(&jazz_module());
    let cut = code[..code.len() - 1].to_vec();
    assert!(read_module(Reader { code: cut, pc: 0 }, "main").is_none());
}

#[test]
fn jazz_reader_read_u8_advances() {
    let mut r = Reader { code: vec![5, 6], pc: 0 };
    assert_eq!(r.read_u8(), 5);
    assert_eq!(r.read_u8(), 6);
    assert_eq!(r.pc, 2);
}

#[test]
fn jazz_fields_read_back_in_any_order() {
    let mut m = jazz_module();
    for k in 0..20u64 {
        m.fields.insert(k * 7919, format!("f{}", k));
    }
    let code = compile(&m);
    let back = read_module(Reader { code, pc: 0 }, "main").unwrap();
    assert_eq!(back.fields, m.fields);
}
