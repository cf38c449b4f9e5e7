use jazzlight::jazz::compile::{Access, Context, Global};
use jazzlight::jazz::opcode::Opcode;
use jazzlight::vm::hash::hash_str;

fn name(op: &Opcode) -> String {
    format!("{:?}", op)
}

#[test]
fn jazz_finish_resolves_labels() {
    let mut c = Context::new();
    let end = c.new_empty_label();
    assert_eq!(end, "0");
    let top = c.new_empty_label();
    assert_eq!(top, "1");
    c.label_here(&top);
    c.write(Opcode::LdTrue);
    c.emit_gotof(&end);
    c.emit_goto(&top);
    c.label_here(&end);
    c.goto(7);
    assert_eq!(c.pos(), 6);
    let ops = c.finish();
    let names: Vec<String> = ops.iter().map(name).collect();
    assert_eq!(
        names,
        vec!["Nop", "LdTrue", "JumpIfNot(4)", "Jump(0)", "Nop", "Jump(7)"]
    );
    assert_eq!(c.pos.len(), 2);
}

#[test]
fn jazz_label_marked_twice_goes_to_its_last_mark() {
    let mut c = Context::new();
    let l = c.new_empty_label();
    c.label_here(&l);
    c.emit_goto(&l);
    c.label_here(&l);
    let ops = c.finish();
    assert_eq!(name(&ops[1]), "Jump(2)");
}

#[test]
fn jazz_write_records_source_position() {
    let mut c = Context::new();
    c.cur_pos = (3, 9);
    c.write(Opcode::LdNull);
    c.cur_pos = (4, 1);
    c.write_op("<=");
    assert_eq!(c.pos, vec![(3, 9), (4, 1)]);
}

#[test]
fn jazz_write_op_maps_each_operator() {
    let table = [
        ("+", "Add"),
        ("-", "Sub"),
        ("/", "Div"),
        ("*", "Mul"),
        ("%", "Rem"),
        ("<<", "Shl"),
        (">>", "Shr"),
        ("|", "Or"),
        ("&", "And"),
        ("^", "Xor"),
        ("==", "Eq"),
        ("!=", "Neq"),
        (">", "Gt"),
        (">=", "Gte"),
        ("<", "Lt"),
        ("<=", "Lte"),
    ];
    for (op, expected) in table.iter() {
        let mut c = Context::new();
        c.write_op(op);
        let ops = c.finish();
        assert_eq!(ops.len(), 1);
        assert_eq!(name(&ops[0]), *expected);
    }
}

#[test]
fn jazz_global_interns_each_global_once() {
    let mut c = Context::new();
    assert_eq!(c.global(&Global::Var("x".to_string())), 0);
    assert_eq!(c.global(&Global::Str("x".to_string())), 1);
    assert_eq!(c.global(&Global::Func(4, 2)), 2);
    assert_eq!(c.global(&Global::Var("x".to_string())), 0);
    assert_eq!(c.global(&Global::Func(4, 2)), 2);
    assert_eq!(c.global(&Global::Func(4, 3)), 3);
    assert_eq!(c.g.table.len(), 4);
}

#[test]
fn jazz_access_get_and_set_emit_place_instructions() {
    let mut c = Context::new();
    c.access_get(Access::Env(1));
    c.access_get(Access::Stack(2));
    c.access_get(Access::Global(3));
    c.access_get(Access::Index(4));
    c.access_get(Access::This);
    c.access_get(Access::Array);
    c.access_set(Access::Env(1));
    c.access_set(Access::Stack(2));
    c.access_set(Access::Global(3));
    c.access_set(Access::Index(4));
    c.access_set(Access::This);
    c.access_set(Access::Array);
    let names: Vec<String> = c.finish().iter().map(name).collect();
    assert_eq!(
        names,
        vec![
            "LdEnv(1)", "LdLocal(2)", "LdGlobal(3)", "LdIndex(4)", "LdThis", "LdArray",
            "SetEnv(1)", "SetLocal(2)", "SetGlobal(3)", "SetIndex(4)", "SetThis", "SetArray",
        ]
    );
    assert!(c.fields.is_empty());
}

#[test]
fn jazz_field_access_records_the_name_under_its_hash() {
    let mut c = Context::new();
    c.access_get(Access::Field("len".to_string()));
    c.access_set(Access::Field("data".to_string()));
    let h_len = hash_str("len");
    let h_data = hash_str("data");
    assert_eq!(c.fields.get(&h_len).map(|s| s.as_str()), Some("len"));
    assert_eq!(c.fields.get(&h_data).map(|s| s.as_str()), Some("data"));
    let names: Vec<String> = c.finish().iter().map(name).collect();
    assert_eq!(names, vec![format!("LdField({})", h_len), format!("SetField({})", h_data)]);
}
