use chip8::{decode, find_op_code, op_codes, Instruction};

#[test]
fn decodes_each_group() {
    assert_eq!(decode(0x00E0), Some(Instruction::ClearScreen));
    assert_eq!(decode(0x00EE), Some(Instruction::Return));
    assert_eq!(decode(0x1ABC), Some(Instruction::Jump { nnn: 0xABC }));
    assert_eq!(decode(0x2ABC), Some(Instruction::Call { nnn: 0xABC }));
    assert_eq!(decode(0x3A12), Some(Instruction::SkipEqImm { x: 0xA, kk: 0x12 }));
    assert_eq!(decode(0x4A12), Some(Instruction::SkipNeImm { x: 0xA, kk: 0x12 }));
    assert_eq!(decode(0x5AB0), Some(Instruction::SkipEqReg { x: 0xA, y: 0xB }));
    assert_eq!(decode(0x6A12), Some(Instruction::LoadImm { x: 0xA, kk: 0x12 }));
    assert_eq!(decode(0x7A12), Some(Instruction::AddImm { x: 0xA, kk: 0x12 }));
    assert_eq!(decode(0x8AB0), Some(Instruction::Move { x: 0xA, y: 0xB }));
    assert_eq!(decode(0x8AB1), Some(Instruction::Or { x: 0xA, y: 0xB }));
    assert_eq!(decode(0x8AB2), Some(Instruction::And { x: 0xA, y: 0xB }));
    assert_eq!(decode(0x8AB3), Some(Instruction::Xor { x: 0xA, y: 0xB }));
    assert_eq!(decode(0x8AB4), Some(Instruction::AddReg { x: 0xA, y: 0xB }));
    assert_eq!(decode(0x8AB5), Some(Instruction::Sub { x: 0xA, y: 0xB }));
    assert_eq!(decode(0x8AB6), Some(Instruction::ShiftRight { x: 0xA, y: 0xB }));
    assert_eq!(decode(0x8AB7), Some(Instruction::SubReverse { x: 0xA, y: 0xB }));
    assert_eq!(decode(0x8ABE), Some(Instruction::ShiftLeft { x: 0xA, y: 0xB }));
    assert_eq!(decode(0x9AB0), Some(Instruction::SkipNeReg { x: 0xA, y: 0xB }));
    assert_eq!(decode(0xAABC), Some(Instruction::LoadIndex { nnn: 0xABC }));
    assert_eq!(decode(0xBABC), Some(Instruction::JumpOffset { nnn: 0xABC }));
    assert_eq!(decode(0xCA12), Some(Instruction::Random { x: 0xA, kk: 0x12 }));
    assert_eq!(decode(0xD123), Some(Instruction::Draw { x: 1, y: 2, n: 3 }));
    assert_eq!(decode(0xEA9E), Some(Instruction::SkipKey { x: 0xA }));
    assert_eq!(decode(0xEAA1), Some(Instruction::SkipNoKey { x: 0xA }));
    assert_eq!(decode(0xFA07), Some(Instruction::LoadDelay { x: 0xA }));
    assert_eq!(decode(0xFA0A), Some(Instruction::WaitKey { x: 0xA }));
    assert_eq!(decode(0xFA15), Some(Instruction::SetDelay { x: 0xA }));
    assert_eq!(decode(0xFA18), Some(Instruction::SetSound { x: 0xA }));
    assert_eq!(decode(0xFA1E), Some(Instruction::AddIndex { x: 0xA }));
    assert_eq!(decode(0xFA29), Some(Instruction::LoadFont { x: 0xA }));
    assert_eq!(decode(0xFA33), Some(Instruction::StoreBcd { x: 0xA }));
    assert_eq!(decode(0xFA55), Some(Instruction::StoreRegisters { x: 0xA }));
    assert_eq!(decode(0xFA65), Some(Instruction::LoadRegisters { x: 0xA }));
}

#[test]
fn rejects_unknown_words() {
    for word in [0x0000u16, 0x0123, 0x00E1, 0x5AB1, 0x8AB8, 0x8ABF, 0x9AB1, 0xEA9F, 0xFA00, 0xFAFF]
    {
        assert_eq!(decode(word), None);
    }
}

#[test]
fn mnemonic_table_finds_first_matching_entry() {
    let table = op_codes();
    assert_eq!(table.len(), 35);
    let name = |w: u16| find_op_code(&table, w).map(|i| table[i].mnemonic);
    assert_eq!(name(0x00E0), Some("CLS"));
    assert_eq!(name(0x00EE), Some("RET"));
    assert_eq!(name(0x0123), Some("SYS"));
    assert_eq!(name(0x1234), Some("JP"));
    assert_eq!(name(0x8AB6), Some("SHR"));
    assert_eq!(name(0x8ABE), Some("SHL"));
    assert_eq!(name(0xD123), Some("DRW"));
    assert_eq!(name(0xE19E), Some("SKP"));
    assert_eq!(name(0xF155), Some("LD"));
    assert_eq!(name(0x5121), None);
    assert_eq!(name(0x8AB9), None);
    assert_eq!(name(0xF1FF), None);
}

#[test]
fn op_code_entry_keeps_its_fields() {
    let op = chip8::OpCode::new(0x8004, 0x0FF0, "ADD");
    assert_eq!(op.opcode, 0x8004);
    assert_eq!(op.param_mask, 0x0FF0);
    assert_eq!(op.mnemonic, "ADD");
    assert!(op.matches(0x8A14));
    assert!(!op.matches(0x8A15));
}
