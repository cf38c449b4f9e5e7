use jazzlight::light::blocks::{translate_to_blocks, BBlock};
use jazzlight::light::opcodes::Opcode;

#[test]
fn simple() {
    let code = vec![Opcode::LoadInt(0), Opcode::LoadInt(0), Opcode::Return];

    let bbs = translate_to_blocks(code);
    assert!(bbs.len() == 1);
}

#[test]
fn jump() {
    let code = vec![
        Opcode::Jump(4),
        Opcode::LoadInt(0),
        Opcode::LoadInt(2),
        Opcode::Mul,
        Opcode::LoadInt(42),
        Opcode::Return,
    ];
    let bbs = translate_to_blocks(code);

    assert!(bbs.len() == 2);
}

#[test]
fn blocks_keep_order_and_drop_markers() {
    let code = vec![
        Opcode::LoadInt(1),
        Opcode::Return,
        Opcode::BlockStart,
        Opcode::LoadInt(2),
        Opcode::Label,
        Opcode::Add,
        Opcode::BlockEnd,
    ];
    let bbs = translate_to_blocks(code);
    assert_eq!(bbs.len(), 2);
    assert_eq!(bbs[0].opcodes, vec![Opcode::LoadInt(1)]);
    assert_eq!(bbs[1].opcodes, vec![Opcode::LoadInt(2), Opcode::Add]);
}

#[test]
fn jumps_are_retargeted_to_block_numbers() {
    // Instruction 3 is after one BlockStart, so a jump to it becomes a jump
    // to block number 1 + 1.
    let code = vec![
        Opcode::BlockStart,
        Opcode::JumpIfFalse(3),
        Opcode::LoadNil,
        Opcode::LoadTrue,
        Opcode::Return,
    ];
    let bbs = translate_to_blocks(code);
    assert_eq!(bbs.len(), 2);
    assert_eq!(bbs[0].opcodes, vec![Opcode::JumpIfFalse(2), Opcode::LoadNil]);
    assert_eq!(bbs[1].opcodes, vec![Opcode::LoadTrue]);
}

#[test]
fn trailing_instructions_without_a_terminator_are_dropped() {
    let code = vec![Opcode::LoadInt(3), Opcode::Return, Opcode::LoadInt(4)];
    let bbs = translate_to_blocks(code);
    assert_eq!(bbs.len(), 1);
    assert_eq!(bbs[0].opcodes, vec![Opcode::LoadInt(3)]);
}

#[test]
fn empty_code_has_no_blocks() {
    assert!(translate_to_blocks(vec![]).is_empty());
}

#[test]
fn bblock_push_appends() {
    let mut b = BBlock::empty();
    assert!(b.opcodes.is_empty());
    b.push(Opcode::Dup);
    b.push(Opcode::Neg);
    assert_eq!(b.opcodes, vec![Opcode::Dup, Opcode::Neg]);
}
