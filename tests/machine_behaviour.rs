use chip8_core::{Emulator, EmulatorError};

const FONT_ZERO: [u8; 5] = [0xF0, 0x90, 0x90, 0x90, 0xF0];
const FONT_F: [u8; 5] = [0xF0, 0x80, 0xF0, 0x80, 0x80];

#[test]
fn new_loads_font_and_starts_at_0x200() {
    let emul = Emulator::new();
    assert_eq!(emul.program_counter, 0x200);
    assert_eq!(&emul.ram[0..5], &FONT_ZERO);
    assert_eq!(&emul.ram[75..80], &FONT_F);
    assert!(emul.ram[80..].iter().all(|b| *b == 0));
    assert_eq!(emul.stack_pointer, 0);
    assert!(!emul.awaiting_key);
}

#[test]
fn reset_restores_initial_state() {
    let mut emul = Emulator::new();
    emul.load_rom(&[0x60, 0x05, 0x61, 0x07]).unwrap();
    emul.tick().unwrap();
    emul.ram[0] = 0;
    emul.sound_timer = 9;
    emul.reset();
    assert_eq!(emul.program_counter, 0x200);
    assert_eq!(emul.v_reg, [0; 16]);
    assert_eq!(emul.ram[0x200], 0);
    assert_eq!(&emul.ram[0..5], &FONT_ZERO);
    assert_eq!(emul.sound_timer, 0);
}

#[test]
fn load_rom_copies_to_start_address() {
    let mut emul = Emulator::new();
    assert_eq!(emul.load_rom(&[0xA2, 0xF0, 0x12]), Ok(()));
    assert_eq!(&emul.ram[0x200..0x203], &[0xA2, 0xF0, 0x12]);
    assert_eq!(emul.ram[0x203], 0);
}

#[test]
fn load_rom_accepts_largest_and_rejects_larger() {
    let mut emul = Emulator::new();
    let largest = vec![0xAB; 4096 - 0x200];
    assert_eq!(emul.load_rom(&largest), Ok(()));
    assert_eq!(emul.ram[4095], 0xAB);
    let too_large = vec![0xCD; 4096 - 0x200 + 1];
    assert_eq!(emul.load_rom(&too_large), Err(EmulatorError::RomTooLarge));
    assert_eq!(emul.ram[0x200], 0xAB);
}

#[test]
fn fetch_reads_big_endian_and_advances() {
    let mut emul = Emulator::new();
    emul.load_rom(&[0x12, 0x34]).unwrap();
    assert_eq!(emul.fetch_opcode(), Ok(0x1234));
    assert_eq!(emul.program_counter, 0x202);
}

#[test]
fn fetch_past_memory_end_fails() {
    let mut emul = Emulator::new();
    emul.program_counter = 4094;
    assert_eq!(emul.fetch_opcode(), Ok(0));
    emul.program_counter = 4095;
    assert_eq!(emul.fetch_opcode(), Err(EmulatorError::MemoryOutOfBounds));
    assert_eq!(emul.program_counter, 4095);
    assert_eq!(emul.tick(), Err(EmulatorError::MemoryOutOfBounds));
    assert_eq!(emul.program_counter, 4095);
}

#[test]
fn unknown_word_is_reported_not_executed() {
    let mut emul = Emulator::new();
    assert_eq!(emul.execute_opcode(0x0011), Err(EmulatorError::UnimplementedOpcode(0x0011)));
    assert_eq!(emul.execute_opcode(0x5121), Err(EmulatorError::UnimplementedOpcode(0x5121)));
    assert_eq!(emul.execute_opcode(0x800F), Err(EmulatorError::UnimplementedOpcode(0x800F)));
    assert_eq!(emul.execute_opcode(0xE1FF), Err(EmulatorError::UnimplementedOpcode(0xE1FF)));
    assert_eq!(emul.execute_opcode(0xF0FF), Err(EmulatorError::UnimplementedOpcode(0xF0FF)));
    emul.load_rom(&[0xFF, 0xFF]).unwrap();
    assert_eq!(emul.tick(), Err(EmulatorError::UnimplementedOpcode(0xFFFF)));
    assert_eq!(emul.program_counter, 0x200);
}

#[test]
fn add_immediate_wraps() {
    let mut emul = Emulator::new();
    emul.v_reg[4] = 0x55;
    emul.execute_opcode(0x7433).unwrap();
    assert_eq!(emul.v_reg[4], 0x88);
    emul.execute_opcode(0x7480).unwrap();
    assert_eq!(emul.v_reg[4], 0x08);
    assert_eq!(emul.v_reg[15], 0);
}

#[test]
fn add_registers_sets_carry() {
    let mut emul = Emulator::new();
    emul.v_reg[1] = 0xF0;
    emul.v_reg[2] = 0x20;
    emul.execute_opcode(0x8124).unwrap();
    assert_eq!(emul.v_reg[1], 0x10);
    assert_eq!(emul.v_reg[15], 1);
    emul.v_reg[1] = 0x10;
    emul.v_reg[2] = 0x20;
    emul.execute_opcode(0x8124).unwrap();
    assert_eq!(emul.v_reg[1], 0x30);
    assert_eq!(emul.v_reg[15], 0);
}

#[test]
fn sub_registers_sets_no_borrow() {
    let mut emul = Emulator::new();
    emul.v_reg[1] = 0x10;
    emul.v_reg[2] = 0x05;
    emul.execute_opcode(0x8125).unwrap();
    assert_eq!(emul.v_reg[1], 0x0B);
    assert_eq!(emul.v_reg[15], 1);
    emul.v_reg[1] = 0x05;
    emul.v_reg[2] = 0x10;
    emul.execute_opcode(0x8125).unwrap();
    assert_eq!(emul.v_reg[1], 0xF5);
    assert_eq!(emul.v_reg[15], 0);
}

#[test]
fn logic_and_shift_instructions() {
    let mut emul = Emulator::new();
    emul.v_reg[1] = 0b1100_1010;
    emul.v_reg[2] = 0b1010_0110;
    emul.execute_opcode(0x8121).unwrap();
    assert_eq!(emul.v_reg[1], 0b1110_1110);
    emul.v_reg[1] = 0b1100_1010;
    emul.execute_opcode(0x8122).unwrap();
    assert_eq!(emul.v_reg[1], 0b1000_0010);
    emul.v_reg[1] = 0b1100_1010;
    emul.execute_opcode(0x8123).unwrap();
    assert_eq!(emul.v_reg[1], 0b0110_1100);
    emul.v_reg[1] = 0b1100_1011;
    emul.execute_opcode(0x8126).unwrap();
    assert_eq!(emul.v_reg[1], 0b0110_0101);
    assert_eq!(emul.v_reg[15], 1);
    emul.v_reg[1] = 0b1100_1011;
    emul.execute_opcode(0x812E).unwrap();
    assert_eq!(emul.v_reg[1], 0b1001_0110);
    assert_eq!(emul.v_reg[15], 1);
    emul.v_reg[1] = 0x05;
    emul.v_reg[2] = 0x10;
    emul.execute_opcode(0x8127).unwrap();
    assert_eq!(emul.v_reg[1], 0x0B);
    assert_eq!(emul.v_reg[15], 1);
}

#[test]
fn flag_register_as_destination_keeps_result() {
    let mut emul = Emulator::new();
    emul.v_reg[15] = 0xF0;
    emul.v_reg[2] = 0x20;
    emul.execute_opcode(0x8F24).unwrap();
    assert_eq!(emul.v_reg[15], 0x10);
}

#[test]
fn skip_on_registers_not_equal() {
    let mut emul = Emulator::new();
    emul.program_counter = 0x300;
    emul.v_reg[1] = 1;
    emul.v_reg[2] = 2;
    emul.execute_opcode(0x9120).unwrap();
    assert_eq!(emul.program_counter, 0x302);
    emul.v_reg[2] = 1;
    emul.execute_opcode(0x9120).unwrap();
    assert_eq!(emul.program_counter, 0x302);
}

#[test]
fn index_register_instructions() {
    let mut emul = Emulator::new();
    emul.execute_opcode(0xA123).unwrap();
    assert_eq!(emul.i_reg, 0x123);
    emul.v_reg[3] = 0x10;
    emul.execute_opcode(0xF31E).unwrap();
    assert_eq!(emul.i_reg, 0x133);
    emul.v_reg[3] = 0x1B;
    emul.execute_opcode(0xF329).unwrap();
    assert_eq!(emul.i_reg, 55);
}

#[test]
fn jump_with_offset() {
    let mut emul = Emulator::new();
    emul.v_reg[0] = 0x10;
    emul.execute_opcode(0xB300).unwrap();
    assert_eq!(emul.program_counter, 0x310);
}

#[test]
fn random_byte_is_masked() {
    let mut emul = Emulator::new();
    emul.execute_opcode(0xC5FF).unwrap();
    assert_eq!(emul.v_reg[5], 0x14);
    emul.execute_opcode(0xC500).unwrap();
    assert_eq!(emul.v_reg[5], 0);
}

#[test]
fn call_then_return_round_trips() {
    let mut emul = Emulator::new();
    emul.program_counter = 123;
    emul.ram[123] = 0x23;
    emul.ram[124] = 0x45;
    emul.ram[0x345] = 0x00;
    emul.ram[0x346] = 0xEE;
    emul.tick().unwrap();
    assert_eq!(emul.program_counter, 0x345);
    assert_eq!(emul.stack[0], 125);
    assert_eq!(emul.stack_pointer, 1);
    emul.tick().unwrap();
    assert_eq!(emul.program_counter, 125);
    assert_eq!(emul.stack_pointer, 0);
}

#[test]
fn seventeenth_call_overflows() {
    let mut emul = Emulator::new();
    for _ in 0..16 {
        assert_eq!(emul.execute_opcode(0x2400), Ok(()));
    }
    assert_eq!(emul.stack_pointer, 16);
    assert_eq!(emul.execute_opcode(0x2400), Err(EmulatorError::StackOverflow));
    assert_eq!(emul.stack_pointer, 16);
}

#[test]
fn return_on_empty_stack_underflows() {
    let mut emul = Emulator::new();
    assert_eq!(emul.execute_opcode(0x00EE), Err(EmulatorError::StackUnderflow));
    assert_eq!(emul.program_counter, 0x200);
}

#[test]
fn draw_twice_reports_collision_and_erases() {
    let mut emul = Emulator::new();
    emul.i_reg = 0;
    emul.v_reg[0] = 2;
    emul.v_reg[1] = 3;
    emul.execute_opcode(0xD015).unwrap();
    assert_eq!(emul.v_reg[15], 0);
    assert!(emul.screen[3 * 64 + 2]);
    assert!(emul.screen[3 * 64 + 5]);
    assert!(!emul.screen[3 * 64 + 6]);
    assert!(emul.screen[4 * 64 + 2]);
    assert!(!emul.screen[4 * 64 + 3]);
    assert_eq!(emul.screen.iter().filter(|p| **p).count(), 14);
    emul.execute_opcode(0xD015).unwrap();
    assert_eq!(emul.v_reg[15], 1);
    assert!(emul.screen.iter().all(|p| !*p));
}

#[test]
fn draw_wraps_around_edges() {
    let mut emul = Emulator::new();
    emul.i_reg = 0x300;
    emul.ram[0x300] = 0xFF;
    emul.ram[0x301] = 0x80;
    emul.v_reg[0] = 60 + 64;
    emul.v_reg[1] = 31;
    emul.execute_opcode(0xD012).unwrap();
    assert!(emul.screen[31 * 64 + 60]);
    assert!(emul.screen[31 * 64 + 63]);
    assert!(emul.screen[31 * 64]);
    assert!(emul.screen[31 * 64 + 3]);
    assert!(!emul.screen[31 * 64 + 4]);
    assert!(emul.screen[60]);
    assert_eq!(emul.screen.iter().filter(|p| **p).count(), 9);
}

#[test]
fn draw_past_memory_end_fails() {
    let mut emul = Emulator::new();
    emul.i_reg = 4094;
    assert_eq!(emul.execute_opcode(0xD012), Ok(()));
    assert_eq!(emul.execute_opcode(0xD013), Err(EmulatorError::MemoryOutOfBounds));
}

#[test]
fn store_bcd_digits() {
    let mut emul = Emulator::new();
    emul.i_reg = 0x300;
    emul.v_reg[7] = 234;
    emul.execute_opcode(0xF733).unwrap();
    assert_eq!(&emul.ram[0x300..0x303], &[2, 3, 4]);
    emul.i_reg = 4094;
    assert_eq!(emul.execute_opcode(0xF733), Err(EmulatorError::MemoryOutOfBounds));
}

#[test]
fn store_and_load_register_block() {
    let mut emul = Emulator::new();
    emul.i_reg = 0x400;
    for r in 0..16 {
        emul.v_reg[r] = (r as u8) * 3 + 1;
    }
    emul.execute_opcode(0xF355).unwrap();
    assert_eq!(&emul.ram[0x400..0x405], &[1, 4, 7, 10, 0]);
    emul.v_reg = [0; 16];
    emul.execute_opcode(0xF265).unwrap();
    assert_eq!(&emul.v_reg[0..4], &[1, 4, 7, 0]);
    emul.i_reg = 4090;
    assert_eq!(emul.execute_opcode(0xF655), Err(EmulatorError::MemoryOutOfBounds));
    assert_eq!(emul.execute_opcode(0xF565), Ok(()));
}

#[test]
fn key_skips() {
    let mut emul = Emulator::new();
    emul.program_counter = 0x300;
    emul.v_reg[1] = 7;
    emul.execute_opcode(0xE19E).unwrap();
    assert_eq!(emul.program_counter, 0x300);
    emul.execute_opcode(0xE1A1).unwrap();
    assert_eq!(emul.program_counter, 0x302);
    emul.set_key(7, true);
    emul.execute_opcode(0xE19E).unwrap();
    assert_eq!(emul.program_counter, 0x304);
    emul.execute_opcode(0xE1A1).unwrap();
    assert_eq!(emul.program_counter, 0x304);
}

#[test]
fn key_wait_holds_until_press() {
    let mut emul = Emulator::new();
    emul.load_rom(&[0xF3, 0x0A, 0x00, 0x00]).unwrap();
    emul.set_key(9, true);
    for _ in 0..5 {
        emul.tick().unwrap();
        assert_eq!(emul.program_counter, 0x200);
    }
    emul.set_key(5, true);
    emul.tick().unwrap();
    assert_eq!(emul.program_counter, 0x202);
    assert_eq!(emul.v_reg[3], 5);
    assert!(!emul.awaiting_key);
}

#[test]
fn timers_count_down_and_tone_once() {
    let mut emul = Emulator::new();
    emul.v_reg[2] = 3;
    emul.execute_opcode(0xF215).unwrap();
    emul.v_reg[2] = 1;
    emul.execute_opcode(0xF218).unwrap();
    assert_eq!(emul.delay_timer, 3);
    assert!(emul.tick_timers());
    assert_eq!(emul.sound_timer, 0);
    assert!(!emul.tick_timers());
    assert_eq!(emul.sound_timer, 0);
    assert_eq!(emul.delay_timer, 1);
    emul.execute_opcode(0xF407).unwrap();
    assert_eq!(emul.v_reg[4], 1);
    emul.tick_timers();
    emul.tick_timers();
    assert_eq!(emul.delay_timer, 0);
}
