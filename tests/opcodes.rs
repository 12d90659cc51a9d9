use chip8_core::{Emulator, SCREEN_HEIGHT, SCREEN_WIDTH};

/// Test setting a v register to a value using the dedicated method
#[test]
fn set_v_reg() {
    let mut emul = Emulator::new();
    emul.set_v_reg(12, 0x0089);
    assert_eq!(emul.v_reg[12], 0x0089);
}

/// Test do nothing opcode
#[test]
fn opcode_0000() {
    let mut emul = Emulator::new();
    assert_eq!(emul.execute_opcode(0x0000), Ok(()));
}

/// Test clearing screen opcode
#[test]
fn opcode_00e0() {
    let mut emul = Emulator::new();
    emul.screen = [true; SCREEN_WIDTH * SCREEN_HEIGHT];
    emul.execute_opcode(0x00E0).unwrap();
    assert_eq!(emul.screen, [false; SCREEN_WIDTH * SCREEN_HEIGHT]);
}

/// Test return from subroutine
#[test]
fn opcode_00ee() {
    let mut emul = Emulator::new();
    emul.stack[1] = 0x0011;
    emul.stack_pointer = 2;
    emul.execute_opcode(0x00EE).unwrap();
    assert_eq!(emul.stack_pointer, 1);
    assert_eq!(emul.program_counter, 0x0011);
}

/// Test jump to
#[test]
fn opcode_1nnn() {
    let mut emul = Emulator::new();
    emul.execute_opcode(0x1234).unwrap();
    assert_eq!(emul.program_counter, 0x234);
}

/// Test call subroutine
#[test]
fn opcode_2nnn() {
    let mut emul = Emulator::new();
    emul.program_counter = 123;
    emul.execute_opcode(0x2345).unwrap();
    assert_eq!(emul.program_counter, 0x345);
    assert_eq!(emul.stack[0], 123);
    assert_eq!(emul.stack_pointer, 1);
}

/// Test skip if VX == 0xNN
#[test]
fn opcode_3nnn() {
    let mut emul = Emulator::new();
    emul.program_counter = 0;
    emul.v_reg[6] = 0x0078;
    emul.execute_opcode(0x3678).unwrap();
    assert_eq!(emul.program_counter, 2);
    emul.execute_opcode(0x3689).unwrap();
    assert_eq!(emul.program_counter, 2);
}

/// Test skip if VX != 0xNN
#[test]
fn opcode_4nnn() {
    let mut emul = Emulator::new();
    emul.program_counter = 0;
    emul.set_v_reg(11, 0x0033);
    emul.execute_opcode(0x4B33).unwrap();
    assert_eq!(emul.program_counter, 0);
    emul.execute_opcode(0x4B01).unwrap();
    assert_eq!(emul.program_counter, 2);
}

/// Test skip if VX == VY
#[test]
fn opcode_5xy0() {
    let mut emul = Emulator::new();
    emul.program_counter = 0;
    emul.set_v_reg(8, 0x0093);
    emul.set_v_reg(15, 0x0093);
    emul.execute_opcode(0x58F0).unwrap();
    assert_eq!(emul.program_counter, 2);
    emul.set_v_reg(15, 0x0025);
    emul.execute_opcode(0x58F0).unwrap();
    assert_eq!(emul.program_counter, 2);
}

/// Test set VX to NN
#[test]
fn opcode_6xnn() {
    let mut emul = Emulator::new();
    emul.execute_opcode(0x6722).unwrap();
    assert_eq!(emul.v_reg[7], 0x0022);
}

/// Test add NN to VX
#[test]
fn opcode_7xnn() {
    let mut emul = Emulator::new();
    emul.set_v_reg(7, 0x0055);
    emul.execute_opcode(0x7733).unwrap();
    assert_eq!(emul.get_v_reg(7), 0x0088);
    emul.execute_opcode(0x7780).unwrap();
    assert_eq!(emul.get_v_reg(7), 0x0008);
}

/// Test VX = VY
#[test]
fn opcode_8xy0() {
    let mut emul = Emulator::new();
    emul.set_v_reg(2, 0x0055);
    emul.set_v_reg(3, 0x0039);
    emul.execute_opcode(0x8230).unwrap();
    assert_eq!(emul.get_v_reg(2), 0x0039);
}
