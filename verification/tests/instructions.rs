use chip8::instruction::{get_nn_from_instruction, get_nnn_from_instruction, Instruction};
use chip8::state::{Fault, State};

fn run(state: &mut State, high: u8, low: u8) -> Result<(), Fault> {
    Instruction::decode(high, low).execute(state, 0)
}

#[test]
fn decode_splits_bytes_into_nibbles() {
    assert_eq!(Instruction::decode(0xD1, 0x2F).nibbles, [0xD, 0x1, 0x2, 0xF]);
    assert_eq!(Instruction::decode(0x00, 0xE0).nibbles, [0x0, 0x0, 0xE, 0x0]);
    assert_eq!(Instruction::decode(0xFF, 0xFF).nibbles, [0xF, 0xF, 0xF, 0xF]);
}

#[test]
fn address_field_is_last_three_nibbles() {
    assert_eq!(get_nnn_from_instruction(&Instruction::decode(0x12, 0x34)), 0x234);
    assert_eq!(get_nnn_from_instruction(&Instruction::decode(0xAF, 0xFF)), 0xFFF);
    assert_eq!(get_nnn_from_instruction(&Instruction::decode(0x10, 0x00)), 0);
}

#[test]
fn immediate_field_is_last_two_nibbles() {
    assert_eq!(get_nn_from_instruction(&Instruction::decode(0x12, 0x34)), 0x34);
    assert_eq!(get_nn_from_instruction(&Instruction::decode(0x6A, 0xFF)), 0xFF);
    assert_eq!(get_nn_from_instruction(&Instruction::decode(0x6A, 0x0C)), 0x0C);
}

#[test]
fn add_sets_sum_and_carry() {
    let mut state = State::new();
    state.registers[2] = 200;
    state.registers[3] = 100;
    assert_eq!(run(&mut state, 0x82, 0x34), Ok(()));
    assert_eq!(state.registers[2], 44);
    assert_eq!(state.registers[0xF], 1);

    state.registers[2] = 1;
    state.registers[3] = 2;
    assert_eq!(run(&mut state, 0x82, 0x34), Ok(()));
    assert_eq!(state.registers[2], 3);
    assert_eq!(state.registers[0xF], 0);

    state.registers[2] = 255;
    state.registers[3] = 1;
    assert_eq!(run(&mut state, 0x82, 0x34), Ok(()));
    assert_eq!(state.registers[2], 0);
    assert_eq!(state.registers[0xF], 1);
}

#[test]
fn add_into_flag_register_keeps_the_flag() {
    let mut state = State::new();
    state.registers[0xF] = 200;
    state.registers[1] = 100;
    assert_eq!(run(&mut state, 0x8F, 0x14), Ok(()));
    assert_eq!(state.registers[0xF], 1);
}

#[test]
fn sub_sets_difference_and_no_borrow() {
    let mut state = State::new();
    state.registers[4] = 10;
    state.registers[5] = 3;
    assert_eq!(run(&mut state, 0x84, 0x55), Ok(()));
    assert_eq!(state.registers[4], 7);
    assert_eq!(state.registers[0xF], 1);

    state.registers[4] = 3;
    state.registers[5] = 10;
    assert_eq!(run(&mut state, 0x84, 0x55), Ok(()));
    assert_eq!(state.registers[4], 249);
    assert_eq!(state.registers[0xF], 0);

    state.registers[4] = 9;
    state.registers[5] = 9;
    assert_eq!(run(&mut state, 0x84, 0x55), Ok(()));
    assert_eq!(state.registers[4], 0);
    assert_eq!(state.registers[0xF], 1);
}

#[test]
fn reverse_sub_sets_difference_and_no_borrow() {
    let mut state = State::new();
    state.registers[4] = 3;
    state.registers[5] = 10;
    assert_eq!(run(&mut state, 0x84, 0x57), Ok(()));
    assert_eq!(state.registers[4], 7);
    assert_eq!(state.registers[0xF], 1);

    state.registers[4] = 10;
    state.registers[5] = 3;
    assert_eq!(run(&mut state, 0x84, 0x57), Ok(()));
    assert_eq!(state.registers[4], 249);
    assert_eq!(state.registers[0xF], 0);
}

#[test]
fn copy_or_and_xor() {
    let mut state = State::new();
    state.registers[1] = 0b1100;
    state.registers[2] = 0b1010;
    assert_eq!(run(&mut state, 0x81, 0x21), Ok(()));
    assert_eq!(state.registers[1], 0b1110);
    state.registers[1] = 0b1100;
    assert_eq!(run(&mut state, 0x81, 0x22), Ok(()));
    assert_eq!(state.registers[1], 0b1000);
    state.registers[1] = 0b1100;
    assert_eq!(run(&mut state, 0x81, 0x23), Ok(()));
    assert_eq!(state.registers[1], 0b0110);
    assert_eq!(run(&mut state, 0x81, 0x20), Ok(()));
    assert_eq!(state.registers[1], 0b1010);
    assert_eq!(state.registers[0xF], 0);
}

#[test]
fn shift_right_moves_low_bit_to_flag() {
    let mut state = State::new();
    state.registers[6] = 0b0000_0101;
    assert_eq!(run(&mut state, 0x86, 0x06), Ok(()));
    assert_eq!(state.registers[6], 0b0000_0010);
    assert_eq!(state.registers[0xF], 1);
    assert_eq!(run(&mut state, 0x86, 0x06), Ok(()));
    assert_eq!(state.registers[6], 0b0000_0001);
    assert_eq!(state.registers[0xF], 0);
}

#[test]
fn shift_left_moves_high_bit_to_flag() {
    let mut state = State::new();
    state.registers[6] = 0b1100_0001;
    assert_eq!(run(&mut state, 0x86, 0x0E), Ok(()));
    assert_eq!(state.registers[6], 0b1000_0010);
    assert_eq!(state.registers[0xF], 1);
    state.registers[6] = 0b0100_0001;
    assert_eq!(run(&mut state, 0x86, 0x0E), Ok(()));
    assert_eq!(state.registers[6], 0b1000_0010);
    assert_eq!(state.registers[0xF], 0);
}

#[test]
fn shifts_of_the_flag_register_shift_the_flag() {
    let mut state = State::new();
    state.registers[0xF] = 0b1000_0001;
    assert_eq!(run(&mut state, 0x8F, 0x06), Ok(()));
    assert_eq!(state.registers[0xF], 0);
    state.registers[0xF] = 0b1000_0001;
    assert_eq!(run(&mut state, 0x8F, 0x0E), Ok(()));
    assert_eq!(state.registers[0xF], 2);
}

#[test]
fn set_and_add_immediate() {
    let mut state = State::new();
    assert_eq!(run(&mut state, 0x6A, 0x7F), Ok(()));
    assert_eq!(state.registers[0xA], 0x7F);
    assert_eq!(run(&mut state, 0x7A, 0x01), Ok(()));
    assert_eq!(state.registers[0xA], 0x80);
    assert_eq!(run(&mut state, 0x7A, 0x90), Ok(()));
    assert_eq!(state.registers[0xA], 0x10);
    assert_eq!(state.registers[0xF], 0);
}

#[test]
fn clear_turns_every_pixel_off() {
    let mut state = State::new();
    state.display[0] = true;
    state.display[1000] = true;
    state.display[2047] = true;
    assert_eq!(run(&mut state, 0x00, 0xE0), Ok(()));
    assert!(state.display.iter().all(|lit| !lit));
    let mut expected = State::new();
    expected.display = [false; 2048];
    assert_eq!(state, expected);
}

#[test]
fn jump_sets_pc_and_next_fetch_reads_there() {
    let mut state = State::new();
    state.memory[0x345] = 0xAB;
    state.memory[0x346] = 0xCD;
    assert_eq!(run(&mut state, 0x13, 0x45), Ok(()));
    assert_eq!(state.pc, 0x345);
    assert_eq!(state.fetch(), Ok(Instruction { nibbles: [0xA, 0xB, 0xC, 0xD] }));
}

#[test]
fn call_then_return_restores_pc() {
    let mut state = State::new();
    state.pc = 0x202;
    let before = state.clone();
    assert_eq!(run(&mut state, 0x2A, 0xBC), Ok(()));
    assert_eq!(state.pc, 0xABC);
    assert_eq!(state.stack, vec![0x202]);
    assert_eq!(run(&mut state, 0x00, 0xEE), Ok(()));
    assert_eq!(state, before);
}

#[test]
fn nested_calls_return_in_reverse_order() {
    let mut state = State::new();
    state.pc = 0x202;
    assert_eq!(run(&mut state, 0x23, 0x00), Ok(()));
    state.pc = 0x302;
    assert_eq!(run(&mut state, 0x24, 0x00), Ok(()));
    assert_eq!(state.stack, vec![0x202, 0x302]);
    assert_eq!(run(&mut state, 0x00, 0xEE), Ok(()));
    assert_eq!(state.pc, 0x302);
    assert_eq!(run(&mut state, 0x00, 0xEE), Ok(()));
    assert_eq!(state.pc, 0x202);
    assert!(state.stack.is_empty());
}

#[test]
fn return_without_call_is_a_fault() {
    let mut state = State::new();
    let before = state.clone();
    assert_eq!(run(&mut state, 0x00, 0xEE), Err(Fault::StackUnderflow));
    assert_eq!(state, before);
}

#[test]
fn skip_if_equal_immediate() {
    let mut state = State::new();
    state.pc = 0x202;
    state.registers[3] = 0x42;
    assert_eq!(run(&mut state, 0x33, 0x42), Ok(()));
    assert_eq!(state.pc, 0x204);
    assert_eq!(run(&mut state, 0x33, 0x43), Ok(()));
    assert_eq!(state.pc, 0x204);
}

#[test]
fn skip_if_not_equal_immediate() {
    let mut state = State::new();
    state.pc = 0x202;
    state.registers[3] = 0x42;
    assert_eq!(run(&mut state, 0x43, 0x43), Ok(()));
    assert_eq!(state.pc, 0x204);
    assert_eq!(run(&mut state, 0x43, 0x42), Ok(()));
    assert_eq!(state.pc, 0x204);
}

#[test]
fn skip_if_registers_equal() {
    let mut state = State::new();
    state.pc = 0x202;
    state.registers[1] = 9;
    state.registers[2] = 9;
    assert_eq!(run(&mut state, 0x51, 0x20), Ok(()));
    assert_eq!(state.pc, 0x204);
    state.registers[2] = 8;
    assert_eq!(run(&mut state, 0x51, 0x20), Ok(()));
    assert_eq!(state.pc, 0x204);
}

#[test]
fn skip_if_registers_differ() {
    let mut state = State::new();
    state.pc = 0x202;
    state.registers[1] = 9;
    state.registers[2] = 8;
    assert_eq!(run(&mut state, 0x91, 0x20), Ok(()));
    assert_eq!(state.pc, 0x204);
    state.registers[2] = 9;
    assert_eq!(run(&mut state, 0x91, 0x20), Ok(()));
    assert_eq!(state.pc, 0x204);
}

#[test]
fn skip_at_the_top_of_the_address_space_wraps() {
    let mut state = State::new();
    state.pc = 0xFFFF;
    assert_eq!(run(&mut state, 0x30, 0x00), Ok(()));
    assert_eq!(state.pc, 1);
}

#[test]
fn unknown_patterns_change_nothing() {
    let patterns: [(u8, u8); 12] = [
        (0x00, 0x00),
        (0x01, 0x23),
        (0x00, 0xE1),
        (0x51, 0x21),
        (0x91, 0x2F),
        (0x81, 0x28),
        (0x81, 0x2F),
        (0xE1, 0x00),
        (0xE1, 0x9F),
        (0xF1, 0x00),
        (0xF1, 0xFF),
        (0xF1, 0x56),
    ];
    for (high, low) in patterns {
        let mut state = State::new();
        state.pc = 0x202;
        state.registers[1] = 1;
        state.registers[2] = 2;
        let before = state.clone();
        assert_eq!(run(&mut state, high, low), Ok(()));
        assert_eq!(state, before);
    }
}

#[test]
fn index_load_and_offset_jump() {
    let mut state = State::new();
    assert_eq!(run(&mut state, 0xA1, 0x23), Ok(()));
    assert_eq!(state.index, 0x123);
    state.registers[0] = 0x10;
    assert_eq!(run(&mut state, 0xB3, 0x00), Ok(()));
    assert_eq!(state.pc, 0x310);
    state.registers[0] = 0xFF;
    assert_eq!(run(&mut state, 0xBF, 0xFF), Ok(()));
    assert_eq!(state.pc, 0xFFF + 0xFF);
}

#[test]
fn random_byte_is_masked_by_the_immediate() {
    let mut state = State::new();
    let instruction = Instruction::decode(0xC4, 0x0F);
    assert_eq!(instruction.execute(&mut state, 0xAB), Ok(()));
    assert_eq!(state.registers[4], 0x0B);
    let instruction = Instruction::decode(0xC4, 0xF0);
    assert_eq!(instruction.execute(&mut state, 0xAB), Ok(()));
    assert_eq!(state.registers[4], 0xA0);
}

#[test]
fn drawn_random_byte_stays_under_the_mask() {
    let mut state = State::new();
    for _ in 0..200 {
        state.registers[4] = 0xFF;
        assert_eq!(Instruction::decode(0xC4, 0x0F).do_instruction(&mut state), Ok(()));
        assert!(state.registers[4] <= 0x0F);
    }
    state.registers[4] = 0xFF;
    assert_eq!(Instruction::decode(0xC4, 0x00).do_instruction(&mut state), Ok(()));
    assert_eq!(state.registers[4], 0);
}

#[test]
fn drawn_random_bytes_vary() {
    let mut state = State::new();
    let mut seen = [false; 256];
    for _ in 0..4000 {
        assert_eq!(Instruction::decode(0xC0, 0xFF).do_instruction(&mut state), Ok(()));
        seen[state.registers[0] as usize] = true;
    }
    assert!(seen.iter().filter(|s| **s).count() > 100);
}

#[test]
fn do_instruction_without_randomness_matches_execute() {
    let mut drawn = State::new();
    let mut given = State::new();
    let program: [(u8, u8); 6] =
        [(0x60, 0x05), (0x61, 0x03), (0x80, 0x14), (0xA0, 0x50), (0xF1, 0x55), (0x22, 0x22)];
    for (high, low) in program {
        let instruction = Instruction::decode(high, low);
        assert_eq!(instruction.do_instruction(&mut drawn), Ok(()));
        assert_eq!(instruction.execute(&mut given, 0x5A), Ok(()));
        assert_eq!(drawn, given);
    }
}

#[test]
fn key_tests_skip_on_held_and_not_held() {
    let mut state = State::new();
    state.pc = 0x202;
    state.registers[1] = 0xA;
    state.keys[0xA] = true;
    assert_eq!(run(&mut state, 0xE1, 0x9E), Ok(()));
    assert_eq!(state.pc, 0x204);
    assert_eq!(run(&mut state, 0xE1, 0xA1), Ok(()));
    assert_eq!(state.pc, 0x204);
    state.keys[0xA] = false;
    assert_eq!(run(&mut state, 0xE1, 0x9E), Ok(()));
    assert_eq!(state.pc, 0x204);
    assert_eq!(run(&mut state, 0xE1, 0xA1), Ok(()));
    assert_eq!(state.pc, 0x206);
}

#[test]
fn key_test_on_a_register_that_names_no_key_is_a_fault() {
    let mut state = State::new();
    state.registers[1] = 16;
    let before = state.clone();
    assert_eq!(run(&mut state, 0xE1, 0x9E), Err(Fault::KeyOutOfRange));
    assert_eq!(state, before);
    assert_eq!(run(&mut state, 0xE1, 0xA1), Err(Fault::KeyOutOfRange));
    assert_eq!(state, before);
}

#[test]
fn wait_for_key_takes_the_lowest_held_key() {
    let mut state = State::new();
    state.pc = 0x202;
    state.keys[5] = true;
    state.keys[3] = true;
    state.keys[0xF] = true;
    assert_eq!(run(&mut state, 0xF7, 0x0A), Ok(()));
    assert_eq!(state.registers[7], 3);
    assert_eq!(state.pc, 0x202);
}

#[test]
fn wait_for_key_without_a_key_steps_back() {
    let mut state = State::new();
    state.pc = 0x202;
    state.registers[7] = 0x99;
    assert_eq!(run(&mut state, 0xF7, 0x0A), Ok(()));
    assert_eq!(state.registers[7], 0x99);
    assert_eq!(state.pc, 0x200);
}

#[test]
fn timers_are_read_and_set() {
    let mut state = State::new();
    state.delay_timer = 0x33;
    assert_eq!(run(&mut state, 0xF2, 0x07), Ok(()));
    assert_eq!(state.registers[2], 0x33);
    state.registers[3] = 0x44;
    assert_eq!(run(&mut state, 0xF3, 0x15), Ok(()));
    assert_eq!(state.delay_timer, 0x44);
    assert_eq!(state.sound_timer, 0);
    state.registers[3] = 0x55;
    assert_eq!(run(&mut state, 0xF3, 0x18), Ok(()));
    assert_eq!(state.sound_timer, 0x55);
    assert_eq!(state.delay_timer, 0x44);
}

#[test]
fn index_add_is_a_sixteen_bit_add() {
    let mut state = State::new();
    state.index = 0x0FF0;
    state.registers[1] = 0x20;
    assert_eq!(run(&mut state, 0xF1, 0x1E), Ok(()));
    assert_eq!(state.index, 0x1010);
    assert_eq!(state.registers[0xF], 0);
    state.index = 0xFFFF;
    state.registers[1] = 2;
    assert_eq!(run(&mut state, 0xF1, 0x1E), Ok(()));
    assert_eq!(state.index, 1);
}

#[test]
fn glyph_address_and_decimal_digits() {
    let mut state = State::new();
    state.registers[2] = 7;
    assert_eq!(run(&mut state, 0xF2, 0x29), Ok(()));
    assert_eq!(state.index, 35);

    state.registers[3] = 157;
    state.index = 0x300;
    assert_eq!(run(&mut state, 0xF3, 0x33), Ok(()));
    assert_eq!(&state.memory[0x300..0x303], &[1, 5, 7]);
    assert_eq!(state.memory[0x303], 0);
}

#[test]
fn glyph_address_of_the_largest_register_value() {
    let mut state = State::new();
    state.registers[2] = 255;
    assert_eq!(run(&mut state, 0xF2, 0x29), Ok(()));
    assert_eq!(state.index, 1275);
}

#[test]
fn decimal_digits_at_the_end_of_memory() {
    let mut state = State::new();
    state.registers[3] = 209;
    state.index = 4093;
    assert_eq!(run(&mut state, 0xF3, 0x33), Ok(()));
    assert_eq!(&state.memory[4093..4096], &[2, 0, 9]);

    state.index = 4094;
    let before = state.clone();
    assert_eq!(run(&mut state, 0xF3, 0x33), Err(Fault::MemoryOutOfBounds));
    assert_eq!(state, before);
}

#[test]
fn registers_are_stored_and_loaded() {
    let mut state = State::new();
    for k in 0..16 {
        state.registers[k] = 0x10 + k as u8;
    }
    state.index = 0x400;
    assert_eq!(run(&mut state, 0xF3, 0x55), Ok(()));
    assert_eq!(&state.memory[0x400..0x404], &[0x10, 0x11, 0x12, 0x13]);
    assert_eq!(state.memory[0x404], 0);
    assert_eq!(state.index, 0x400);

    state.memory[0x500] = 0xAA;
    state.memory[0x501] = 0xBB;
    state.memory[0x502] = 0xCC;
    state.index = 0x500;
    assert_eq!(run(&mut state, 0xF1, 0x65), Ok(()));
    assert_eq!(state.registers[0], 0xAA);
    assert_eq!(state.registers[1], 0xBB);
    assert_eq!(state.registers[2], 0x12);
}

#[test]
fn all_registers_are_stored_and_loaded() {
    let mut state = State::new();
    for k in 0..16 {
        state.registers[k] = 0x20 + k as u8;
    }
    state.index = 4080;
    assert_eq!(run(&mut state, 0xFF, 0x55), Ok(()));
    for k in 0..16 {
        assert_eq!(state.memory[4080 + k], 0x20 + k as u8);
    }
    state.registers = [0; 16];
    assert_eq!(run(&mut state, 0xFF, 0x65), Ok(()));
    for k in 0..16 {
        assert_eq!(state.registers[k], 0x20 + k as u8);
    }
}

#[test]
fn store_and_load_outside_memory_are_faults() {
    let mut state = State::new();
    state.index = 4095;
    let before = state.clone();
    assert_eq!(run(&mut state, 0xF1, 0x55), Err(Fault::MemoryOutOfBounds));
    assert_eq!(state, before);
    assert_eq!(run(&mut state, 0xF1, 0x65), Err(Fault::MemoryOutOfBounds));
    assert_eq!(state, before);
    assert_eq!(run(&mut state, 0xF0, 0x55), Ok(()));
    assert_eq!(run(&mut state, 0xF0, 0x65), Ok(()));
}
