use chip8::{Chip8, Fault, FaultKind};

fn machine_with(program: &[u8]) -> Chip8 {
    let mut c = Chip8::new();
    c.load_program(program.to_vec());
    c
}

fn run(c: &mut Chip8, cycles: usize) {
    for _ in 0..cycles {
        assert_eq!(c.cycle_with_random(0, 0), Ok(()));
    }
}

#[test]
fn load_then_add_leaves_eight_and_pc_past_program() {
    let mut c = machine_with(&[0x60, 0x05, 0x70, 0x03]);
    run(&mut c, 2);
    assert_eq!(c.register(0), 8);
    assert_eq!(c.program_counter(), 0x204);
}

#[test]
fn clear_then_jump_loops_between_two_addresses() {
    let mut c = machine_with(&[0x00, 0xE0, 0x12, 0x00]);
    for i in 0..200 {
        assert_eq!(c.cycle_with_random(0, 0), Ok(()));
        let expected = if i % 2 == 0 { 0x202 } else { 0x200 };
        assert_eq!(c.program_counter(), expected);
        assert!(c.display().iter().all(|p| !*p));
    }
}

#[test]
fn new_machine_is_zeroed_with_font() {
    let c = Chip8::new();
    assert_eq!(c.program_counter(), 0);
    assert_eq!(c.index_register(), 0);
    assert_eq!(c.stack_depth(), 0);
    for r in 0..16 {
        assert_eq!(c.register(r), 0);
    }
    let zero = [0xF0, 0x90, 0x90, 0x90, 0xF0];
    for (k, b) in zero.iter().enumerate() {
        assert_eq!(c.memory_at(k as u16), *b);
    }
    let f = [0xF0, 0x80, 0xF0, 0x80, 0x80];
    for (k, b) in f.iter().enumerate() {
        assert_eq!(c.memory_at(75 + k as u16), *b);
    }
    assert_eq!(c.memory_at(80), 0);
    assert_eq!(c.memory_at(0x200), 0);
    assert!(c.display().iter().all(|p| !*p));
    assert_eq!(c.delay_timer(), 0);
    assert_eq!(c.sound_timer(), 0);
    assert!(!c.sound_active());
}

#[test]
fn load_program_copies_bytes_and_sets_pc() {
    let c = machine_with(&[0xAB, 0xCD, 0xEF]);
    assert_eq!(c.program_counter(), 0x200);
    assert_eq!(c.memory_at(0x200), 0xAB);
    assert_eq!(c.memory_at(0x201), 0xCD);
    assert_eq!(c.memory_at(0x202), 0xEF);
    assert_eq!(c.memory_at(0x203), 0);
}

#[test]
fn load_program_of_largest_size_fills_memory() {
    let program = vec![0x11u8; 3584];
    let mut c = Chip8::new();
    c.load_program(program);
    assert_eq!(c.memory_at(0xFFF), 0x11);
    assert_eq!(c.memory_at(0x200), 0x11);
}

#[test]
fn register_add_wraps_and_sets_carry() {
    // V1 = 200, V2 = 100, ADD V1, V2
    let mut c = machine_with(&[0x61, 0xC8, 0x62, 0x64, 0x81, 0x24]);
    run(&mut c, 3);
    assert_eq!(c.register(1), 44);
    assert_eq!(c.register(15), 1);
    // V3 = 1, V4 = 2, ADD V3, V4: no carry
    let mut c = machine_with(&[0x63, 0x01, 0x64, 0x02, 0x83, 0x44]);
    run(&mut c, 3);
    assert_eq!(c.register(3), 3);
    assert_eq!(c.register(15), 0);
}

#[test]
fn register_sub_wraps_and_flags_no_borrow() {
    // V3 = 5, V4 = 10, SUB V3, V4
    let mut c = machine_with(&[0x63, 0x05, 0x64, 0x0A, 0x83, 0x45]);
    run(&mut c, 3);
    assert_eq!(c.register(3), 251);
    assert_eq!(c.register(15), 0);
    // V3 = 10, V4 = 10, SUB V3, V4: equal operands borrow nothing
    let mut c = machine_with(&[0x63, 0x0A, 0x64, 0x0A, 0x83, 0x45]);
    run(&mut c, 3);
    assert_eq!(c.register(3), 0);
    assert_eq!(c.register(15), 1);
}

#[test]
fn reverse_sub_wraps_and_flags_no_borrow() {
    // V1 = 10, V2 = 3, SUBN V1, V2: V1 = 3 - 10
    let mut c = machine_with(&[0x61, 0x0A, 0x62, 0x03, 0x81, 0x27]);
    run(&mut c, 3);
    assert_eq!(c.register(1), 249);
    assert_eq!(c.register(15), 0);
    // V1 = 3, V2 = 10, SUBN V1, V2: V1 = 10 - 3
    let mut c = machine_with(&[0x61, 0x03, 0x62, 0x0A, 0x81, 0x27]);
    run(&mut c, 3);
    assert_eq!(c.register(1), 7);
    assert_eq!(c.register(15), 1);
}

#[test]
fn flag_wins_when_destination_is_vf() {
    // VF = 200, V1 = 100, ADD VF, V1: the carry overwrites the sum
    let mut c = machine_with(&[0x6F, 0xC8, 0x61, 0x64, 0x8F, 0x14]);
    run(&mut c, 3);
    assert_eq!(c.register(15), 1);
}

#[test]
fn immediate_add_wraps_without_flag() {
    // VF = 7, V0 = 0xFF, ADD V0, 2
    let mut c = machine_with(&[0x6F, 0x07, 0x60, 0xFF, 0x70, 0x02]);
    run(&mut c, 3);
    assert_eq!(c.register(0), 1);
    assert_eq!(c.register(15), 7);
}

#[test]
fn shifts_take_bit_from_source_register() {
    // V1 = 0x81, SHR V2, V1, SHL V3, V1
    let mut c = machine_with(&[0x61, 0x81, 0x82, 0x16, 0x83, 0x1E]);
    run(&mut c, 2);
    assert_eq!(c.register(2), 0x40);
    assert_eq!(c.register(15), 1);
    assert_eq!(c.register(1), 0x81);
    run(&mut c, 1);
    assert_eq!(c.register(3), 0x02);
    assert_eq!(c.register(15), 1);
    // V1 = 0x42 (low and high bits clear), V2 = 0x01
    let mut c = machine_with(&[0x61, 0x42, 0x62, 0x01, 0x82, 0x16, 0x83, 0x1E]);
    run(&mut c, 3);
    assert_eq!(c.register(2), 0x21);
    assert_eq!(c.register(15), 0);
    run(&mut c, 1);
    assert_eq!(c.register(3), 0x84);
    assert_eq!(c.register(15), 0);
}

#[test]
fn bitwise_operations() {
    // V0 = 0b1100, V1 = 0b1010; V2 = V0; OR V2,V1; V3 = V0; AND V3,V1; V4 = V0; XOR V4,V1
    let mut c = machine_with(&[
        0x60, 0x0C, 0x61, 0x0A, 0x82, 0x00, 0x82, 0x11, 0x83, 0x00, 0x83, 0x12, 0x84, 0x00, 0x84,
        0x13,
    ]);
    run(&mut c, 8);
    assert_eq!(c.register(2), 0x0E);
    assert_eq!(c.register(3), 0x08);
    assert_eq!(c.register(4), 0x06);
}

#[test]
fn conditional_skips() {
    // V0 = 5; SE V0, 5 (skips); LD V1, 1 (skipped); SNE V0, 5 (no skip); LD V2, 2
    let mut c = machine_with(&[0x60, 0x05, 0x30, 0x05, 0x61, 0x01, 0x40, 0x05, 0x62, 0x02]);
    run(&mut c, 2);
    assert_eq!(c.program_counter(), 0x206);
    run(&mut c, 2);
    assert_eq!(c.register(1), 0);
    assert_eq!(c.register(2), 2);
    // V0 = 5, V1 = 5; SE V0, V1 skips; SNE V0, V1 does not
    let mut c = machine_with(&[0x60, 0x05, 0x61, 0x05, 0x50, 0x10, 0x00, 0x00, 0x90, 0x10]);
    run(&mut c, 3);
    assert_eq!(c.program_counter(), 0x208);
    run(&mut c, 1);
    assert_eq!(c.program_counter(), 0x20A);
}

#[test]
fn jumps_and_offset_jump() {
    let mut c = machine_with(&[0x13, 0x45]);
    run(&mut c, 1);
    assert_eq!(c.program_counter(), 0x345);
    // V0 = 4; JP V0, 0x300
    let mut c = machine_with(&[0x60, 0x04, 0xB3, 0x00]);
    run(&mut c, 2);
    assert_eq!(c.program_counter(), 0x304);
    // V0 = 0xFF; JP V0, 0xFFF wraps around memory
    let mut c = machine_with(&[0x60, 0xFF, 0xBF, 0xFF]);
    run(&mut c, 2);
    assert_eq!(c.program_counter(), (0xFF + 0xFFF) % 0x1000);
}

#[test]
fn call_pushes_next_address_and_return_pops_it() {
    // 200: CALL 206; 202: LD V0, 7; 204: JP 204; 206: RET
    let mut c = machine_with(&[0x22, 0x06, 0x60, 0x07, 0x12, 0x04, 0x00, 0xEE]);
    run(&mut c, 1);
    assert_eq!(c.program_counter(), 0x206);
    assert_eq!(c.stack_depth(), 1);
    run(&mut c, 1);
    assert_eq!(c.program_counter(), 0x202);
    assert_eq!(c.stack_depth(), 0);
    run(&mut c, 1);
    assert_eq!(c.register(0), 7);
}

#[test]
fn seventeenth_nested_call_overflows_the_stack() {
    let mut c = machine_with(&[0x22, 0x00]);
    run(&mut c, 16);
    assert_eq!(c.stack_depth(), 16);
    assert_eq!(
        c.cycle_with_random(0, 0),
        Err(Fault { kind: FaultKind::StackOverflow, opcode: 0x2200, pc: 0x200 })
    );
    assert_eq!(c.stack_depth(), 16);
    assert_eq!(c.program_counter(), 0x200);
}

#[test]
fn return_with_empty_stack_underflows() {
    let mut c = machine_with(&[0x00, 0xEE]);
    assert_eq!(
        c.cycle_with_random(0, 0),
        Err(Fault { kind: FaultKind::StackUnderflow, opcode: 0x00EE, pc: 0x200 })
    );
    assert_eq!(c.program_counter(), 0x200);
}

#[test]
fn unknown_and_machine_code_words_are_fatal() {
    for word in [0x0123u16, 0x5121, 0x8128, 0x800F, 0x9121, 0xE1FF, 0xF1FF, 0x0000] {
        let mut c = machine_with(&[(word >> 8) as u8, (word & 0xFF) as u8]);
        assert_eq!(
            c.cycle_with_random(0, 0),
            Err(Fault { kind: FaultKind::UnsupportedInstruction, opcode: word, pc: 0x200 })
        );
        assert_eq!(c.program_counter(), 0x200);
    }
}

#[test]
fn index_register_instructions() {
    // LD I, 0xFFF; V0 = 0xFF; ADD I, V0: a 16-bit sum, no 12-bit wrap
    let mut c = machine_with(&[0xAF, 0xFF, 0x60, 0xFF, 0xF0, 0x1E]);
    run(&mut c, 3);
    assert_eq!(c.index_register(), 0x10FE);
}

#[test]
fn font_address_is_five_times_digit() {
    // V0 = 0xA; LD F, V0
    let mut c = machine_with(&[0x60, 0x0A, 0xF0, 0x29]);
    run(&mut c, 2);
    assert_eq!(c.index_register(), 50);
    let a = [0xF0, 0x90, 0xF0, 0x90, 0x90];
    for (k, b) in a.iter().enumerate() {
        assert_eq!(c.memory_at(50 + k as u16), *b);
    }
}

#[test]
fn decimal_digits_are_stored_at_index() {
    // V0 = 234; LD I, 0x300; LD B, V0
    let mut c = machine_with(&[0x60, 0xEA, 0xA3, 0x00, 0xF0, 0x33]);
    run(&mut c, 3);
    assert_eq!(c.memory_at(0x300), 2);
    assert_eq!(c.memory_at(0x301), 3);
    assert_eq!(c.memory_at(0x302), 4);
    assert_eq!(c.index_register(), 0x300);
}

#[test]
fn register_store_is_inclusive_and_advances_index() {
    // V0 = 1, V1 = 2, V2 = 3; LD I, 0x300; LD [I], V1
    let mut c = machine_with(&[0x60, 0x01, 0x61, 0x02, 0x62, 0x03, 0xA3, 0x00, 0xF1, 0x55]);
    run(&mut c, 5);
    assert_eq!(c.memory_at(0x300), 1);
    assert_eq!(c.memory_at(0x301), 2);
    assert_eq!(c.memory_at(0x302), 0);
    assert_eq!(c.index_register(), 0x302);
}

#[test]
fn register_load_is_inclusive_and_advances_index() {
    // LD I, 0x208; LD V2, [I]; JP 0x206; data 9 8 7 6
    let mut c = machine_with(&[0xA2, 0x08, 0xF2, 0x65, 0x12, 0x06, 0x12, 0x06, 9, 8, 7, 6]);
    run(&mut c, 2);
    assert_eq!(c.register(0), 9);
    assert_eq!(c.register(1), 8);
    assert_eq!(c.register(2), 7);
    assert_eq!(c.register(3), 0);
    assert_eq!(c.index_register(), 0x20B);
}

#[test]
fn random_byte_is_masked() {
    let mut c = machine_with(&[0xC0, 0x0F]);
    assert_eq!(c.cycle_with_random(0, 0xAB), Ok(()));
    assert_eq!(c.register(0), 0x0B);
    let mut c = machine_with(&[0xC0, 0x00]);
    assert_eq!(c.cycle(0), Ok(()));
    assert_eq!(c.register(0), 0);
    for _ in 0..50 {
        let mut c = machine_with(&[0xC3, 0x0F]);
        assert_eq!(c.cycle(0), Ok(()));
        assert!(c.register(3) <= 0x0F);
    }
}

#[test]
fn key_wait_holds_until_a_key_is_pressed() {
    // LD V5, K
    let mut c = machine_with(&[0xF5, 0x0A]);
    for _ in 0..100 {
        assert_eq!(c.cycle_with_random(0, 0), Ok(()));
        assert_eq!(c.program_counter(), 0x200);
        assert_eq!(c.register(5), 0);
    }
    c.set_key(7, true);
    assert_eq!(c.cycle_with_random(0, 0), Ok(()));
    assert_eq!(c.register(5), 7);
    assert_eq!(c.program_counter(), 0x202);
}

#[test]
fn key_wait_takes_highest_held_key() {
    let mut c = machine_with(&[0xF5, 0x0A]);
    let mut keys = [false; 16];
    keys[3] = true;
    keys[9] = true;
    c.set_keys(keys);
    run(&mut c, 1);
    assert_eq!(c.register(5), 9);
    assert_eq!(c.program_counter(), 0x202);
}

#[test]
fn key_skips_follow_the_keypad() {
    // V0 = 4; SKP V0
    let mut c = machine_with(&[0x60, 0x04, 0xE0, 0x9E]);
    c.set_key(4, true);
    run(&mut c, 2);
    assert_eq!(c.program_counter(), 0x206);
    let mut c = machine_with(&[0x60, 0x04, 0xE0, 0x9E]);
    run(&mut c, 2);
    assert_eq!(c.program_counter(), 0x204);
    // V0 = 4; SKNP V0
    let mut c = machine_with(&[0x60, 0x04, 0xE0, 0xA1]);
    run(&mut c, 2);
    assert_eq!(c.program_counter(), 0x206);
    let mut c = machine_with(&[0x60, 0x04, 0xE0, 0xA1]);
    c.set_key(4, true);
    run(&mut c, 2);
    assert_eq!(c.program_counter(), 0x204);
    // a register value past the keypad names no held key
    let mut c = machine_with(&[0x60, 0x14, 0xE0, 0xA1]);
    c.set_key(4, true);
    run(&mut c, 2);
    assert_eq!(c.program_counter(), 0x206);
}
