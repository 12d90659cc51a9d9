//! The mathematical model of the machine and of each of its transitions.
use vstd::prelude::*;

verus! {

pub const SCREEN_WIDTH: usize = 64;
pub const SCREEN_HEIGHT: usize = 32;
pub const DISPLAY_SIZE: usize = SCREEN_WIDTH * SCREEN_HEIGHT;
pub const RAM_SIZE: usize = 4096;
pub const NUM_REGS: usize = 16;
pub const STACK_SIZE: usize = 16;
pub const NUM_KEYS: usize = 16;
pub const FONTSET_SIZE: usize = 80;
/// Programs are loaded, and execution starts, at this address.
pub const START_ADDR: u16 = 0x200;
/// The general register that doubles as carry, borrow and collision flag.
pub const FLAG_REG: usize = 15;
/// Largest ROM that fits between the start address and the end of memory.
pub const MAX_ROM_SIZE: usize = 3584;

/// Multiplier and increment of the generator behind the random instruction.
pub const RNG_MUL: u64 = 6364136223846793005;
pub const RNG_INC: u64 = 1442695040888963407;

/// A fault of the guest program, reported instead of a state change.
#[derive(Debug, Clone, Copy, PartialEq, Eq, Structural)]
pub enum EmulatorError {
    /// A fetch or a memory access of an instruction lies beyond address 4095.
    MemoryOutOfBounds,
    /// A call with all sixteen stack slots in use.
    StackOverflow,
    /// A return with an empty stack.
    StackUnderflow,
    /// The word matches no instruction.
    UnimplementedOpcode(u16),
    /// A ROM larger than the space above the start address.
    RomTooLarge,
}

/// The glyphs of the hexadecimal digits 0 to F, five bytes each.
pub open spec fn fontset() -> Seq<u8> {
    seq![
        0xF0u8, 0x90, 0x90, 0x90, 0xF0,
        0x20, 0x60, 0x20, 0x20, 0x70,
        0xF0, 0x10, 0xF0, 0x80, 0xF0,
        0xF0, 0x10, 0xF0, 0x10, 0xF0,
        0x90, 0x90, 0xF0, 0x10, 0x10,
        0xF0, 0x80, 0xF0, 0x10, 0xF0,
        0xF0, 0x80, 0xF0, 0x90, 0xF0,
        0xF0, 0x10, 0x20, 0x40, 0x40,
        0xF0, 0x90, 0xF0, 0x90, 0xF0,
        0xF0, 0x90, 0xF0, 0x10, 0xF0,
        0xF0, 0x90, 0xF0, 0x90, 0x90,
        0xE0, 0x90, 0xE0, 0x90, 0xE0,
        0xF0, 0x80, 0x80, 0x80, 0xF0,
        0xE0, 0x90, 0x90, 0x90, 0xE0,
        0xF0, 0x80, 0xF0, 0x80, 0xF0,
        0xF0, 0x80, 0xF0, 0x80, 0x80,
    ]
}

/// The whole state of the machine.
pub struct Machine {
    /// 4096 bytes of memory.
    pub memory: Seq<u8>,
    /// 64 x 32 pixels, row-major.
    pub display: Seq<bool>,
    /// The sixteen general registers V0..VF.
    pub v: Seq<u8>,
    /// The address register I.
    pub i: u16,
    pub pc: u16,
    /// The sixteen stack slots; the first `sp` of them are in use.
    pub stack: Seq<u16>,
    pub sp: u16,
    pub keys: Seq<bool>,
    pub delay: u8,
    pub sound: u8,
    /// A key-wait instruction is suspended.
    pub awaiting_key: bool,
    /// The first key that went from released to pressed during the wait.
    pub key_event: Option<u8>,
    /// State of the generator behind the random instruction.
    pub rng: u64,
}

impl Machine {
    pub open spec fn wf(self) -> bool {
        &&& self.memory.len() == RAM_SIZE
        &&& self.display.len() == DISPLAY_SIZE
        &&& self.v.len() == NUM_REGS
        &&& self.stack.len() == STACK_SIZE
        &&& self.keys.len() == NUM_KEYS
        &&& self.sp <= STACK_SIZE
        &&& !self.awaiting_key ==> self.key_event is None
        &&& self.key_event matches Some(k) ==> k < NUM_KEYS
    }
}

/// The state after construction or reset: font at address 0, the program
/// counter at the start address, everything else zero or released.
pub open spec fn initial_machine() -> Machine {
    Machine {
        memory: Seq::new(
            RAM_SIZE as nat,
            |a: int| if a < FONTSET_SIZE { fontset()[a] } else { 0u8 },
        ),
        display: Seq::new(DISPLAY_SIZE as nat, |p: int| false),
        v: Seq::new(NUM_REGS as nat, |r: int| 0u8),
        i: 0,
        pc: START_ADDR,
        stack: Seq::new(STACK_SIZE as nat, |k: int| 0u16),
        sp: 0,
        keys: Seq::new(NUM_KEYS as nat, |k: int| false),
        delay: 0,
        sound: 0,
        awaiting_key: false,
        key_event: None,
        rng: 0,
    }
}

/// Memory after copying `rom` to the start address.
pub open spec fn load_rom(m: Machine, rom: Seq<u8>) -> Result<Machine, EmulatorError> {
    if rom.len() > MAX_ROM_SIZE {
        Err(EmulatorError::RomTooLarge)
    } else {
        Ok(
            Machine {
                memory: Seq::new(
                    RAM_SIZE as nat,
                    |a: int|
                        if START_ADDR <= a < START_ADDR + rom.len() {
                            rom[a - START_ADDR]
                        } else {
                            m.memory[a]
                        },
                ),
                ..m
            },
        )
    }
}

/// The big-endian word at `addr`.
pub open spec fn word_at(m: Machine, addr: int) -> u16 {
    (m.memory[addr] as int * 256 + m.memory[addr + 1] as int) as u16
}

pub open spec fn nibble1(op: u16) -> u16 {
    (op & 0xF000) >> 12u16
}

pub open spec fn nibble2(op: u16) -> u16 {
    (op & 0x0F00) >> 8u16
}

pub open spec fn nibble3(op: u16) -> u16 {
    (op & 0x00F0) >> 4u16
}

pub open spec fn nibble4(op: u16) -> u16 {
    op & 0x000F
}

pub open spec fn low_byte(op: u16) -> u8 {
    (op & 0xFF) as u8
}

pub open spec fn address(op: u16) -> u16 {
    op & 0xFFF
}

pub open spec fn set_reg(m: Machine, r: int, value: u8) -> Machine {
    Machine { v: m.v.update(r, value), ..m }
}

/// Skips the next instruction when `cond` holds.
pub open spec fn skip_if(m: Machine, cond: bool) -> Machine {
    if cond {
        Machine { pc: m.pc.wrapping_add(2), ..m }
    } else {
        m
    }
}

/// Writes `value` to Vx after `flag` to VF, so that Vx wins when x is F.
pub open spec fn set_with_flag(m: Machine, x: int, value: u8, flag: u8) -> Machine {
    set_reg(set_reg(m, FLAG_REG as int, flag), x, value)
}

pub open spec fn next_rng(s: u64) -> u64 {
    s.wrapping_mul(RNG_MUL).wrapping_add(RNG_INC)
}

pub open spec fn random_byte(s: u64) -> u8 {
    (s >> 56u64) as u8
}

/// Whether the key named by a register value is held; a value of 16 or
/// more names no key.
pub open spec fn key_down(m: Machine, k: u8) -> bool {
    k < NUM_KEYS && m.keys[k as int]
}

/// Whether bit `dx` (0 is the leftmost) of a sprite row is set.
pub open spec fn row_bit(row: u8, dx: int) -> bool {
    row & (0x80u8 >> (dx as u8)) != 0
}

/// Whether the sprite of `rows` rows at `base`, drawn at (x0, y0), sets a bit
/// over pixel `p`, with wrap-around at the edges.
pub open spec fn sprite_covers(
    memory: Seq<u8>,
    base: int,
    rows: int,
    x0: int,
    y0: int,
    p: int,
) -> bool {
    let dx = (p % 64 - x0) % 64;
    let dy = (p / 64 - y0) % 32;
    dx < 8 && dy < rows && row_bit(memory[base + dy], dx)
}

pub open spec fn drawn_display(m: Machine, rows: int, x0: int, y0: int) -> Seq<bool> {
    Seq::new(
        DISPLAY_SIZE as nat,
        |p: int| m.display[p] != sprite_covers(m.memory, m.i as int, rows, x0, y0, p),
    )
}

pub open spec fn collides(m: Machine, rows: int, x0: int, y0: int) -> bool {
    exists|p: int|
        0 <= p < DISPLAY_SIZE && #[trigger] m.display[p] && sprite_covers(
            m.memory,
            m.i as int,
            rows,
            x0,
            y0,
            p,
        )
}

/// DRW: XOR the sprite at I onto the display at (Vx mod 64, Vy mod 32); VF
/// tells whether a set pixel was cleared.
pub open spec fn draw(m: Machine, x: int, y: int, rows: int) -> Result<Machine, EmulatorError> {
    let x0 = m.v[x] % 64;
    let y0 = m.v[y] % 32;
    if m.i + rows > RAM_SIZE {
        Err(EmulatorError::MemoryOutOfBounds)
    } else {
        Ok(
            set_reg(
                Machine { display: drawn_display(m, rows, x0 as int, y0 as int), ..m },
                FLAG_REG as int,
                if collides(m, rows, x0 as int, y0 as int) { 1 } else { 0 },
            ),
        )
    }
}

/// LD Vx,K: completes with the key recorded during the wait, else suspends
/// by leaving the program counter on the instruction.
pub open spec fn wait_key(m: Machine, x: int) -> Machine {
    if m.awaiting_key && m.key_event is Some {
        set_reg(Machine { awaiting_key: false, key_event: None, ..m }, x, m.key_event->0)
    } else {
        Machine { awaiting_key: true, key_event: None, pc: m.pc.wrapping_sub(2), ..m }
    }
}

/// The decimal digits of `b`, hundreds first.
pub open spec fn bcd_digit(b: u8, k: int) -> u8 {
    if k == 0 {
        b / 100
    } else if k == 1 {
        (b / 10) % 10
    } else {
        b % 10
    }
}

pub open spec fn store_bcd(m: Machine, b: u8) -> Result<Machine, EmulatorError> {
    if m.i + 2 >= RAM_SIZE {
        Err(EmulatorError::MemoryOutOfBounds)
    } else {
        Ok(
            Machine {
                memory: Seq::new(
                    RAM_SIZE as nat,
                    |a: int|
                        if m.i <= a <= m.i + 2 {
                            bcd_digit(b, a - m.i)
                        } else {
                            m.memory[a]
                        },
                ),
                ..m
            },
        )
    }
}

/// LD [I],Vx: V0..Vx to memory at I.
pub open spec fn store_regs(m: Machine, x: int) -> Result<Machine, EmulatorError> {
    if m.i + x >= RAM_SIZE {
        Err(EmulatorError::MemoryOutOfBounds)
    } else {
        Ok(
            Machine {
                memory: Seq::new(
                    RAM_SIZE as nat,
                    |a: int|
                        if m.i <= a <= m.i + x {
                            m.v[a - m.i]
                        } else {
                            m.memory[a]
                        },
                ),
                ..m
            },
        )
    }
}

/// LD Vx,[I]: memory at I to V0..Vx.
pub open spec fn load_regs(m: Machine, x: int) -> Result<Machine, EmulatorError> {
    if m.i + x >= RAM_SIZE {
        Err(EmulatorError::MemoryOutOfBounds)
    } else {
        Ok(
            Machine {
                v: Seq::new(
                    NUM_REGS as nat,
                    |r: int|
                        if r <= x {
                            m.memory[m.i + r]
                        } else {
                            m.v[r]
                        },
                ),
                ..m
            },
        )
    }
}

/// The effect of instruction `op` on `m`, whose program counter has already
/// moved past it. Operands are read before any register is written.
pub open spec fn execute(m: Machine, op: u16) -> Result<Machine, EmulatorError> {
    let x = nibble2(op) as int;
    let y = nibble3(op) as int;
    let vx = m.v[x];
    let vy = m.v[y];
    let nn = low_byte(op);
    let nnn = address(op);
    match (nibble1(op), nibble2(op), nibble3(op), nibble4(op)) {
        (0, 0, 0, 0) => Ok(m),
        (0, 0, 0xE, 0) => Ok(Machine { display: Seq::new(DISPLAY_SIZE as nat, |p: int| false), ..m }),
        (0, 0, 0xE, 0xE) => if m.sp == 0 {
            Err(EmulatorError::StackUnderflow)
        } else {
            Ok(Machine { pc: m.stack[m.sp - 1], sp: (m.sp - 1) as u16, ..m })
        },
        (1, _, _, _) => Ok(Machine { pc: nnn, ..m }),
        (2, _, _, _) => if m.sp >= STACK_SIZE {
            Err(EmulatorError::StackOverflow)
        } else {
            Ok(Machine { stack: m.stack.update(m.sp as int, m.pc), sp: (m.sp + 1) as u16, pc: nnn, ..m })
        },
        (3, _, _, _) => Ok(skip_if(m, vx == nn)),
        (4, _, _, _) => Ok(skip_if(m, vx != nn)),
        (5, _, _, 0) => Ok(skip_if(m, vx == vy)),
        (6, _, _, _) => Ok(set_reg(m, x, nn)),
        (7, _, _, _) => Ok(set_reg(m, x, vx.wrapping_add(nn))),
        (8, _, _, 0) => Ok(set_reg(m, x, vy)),
        (8, _, _, 1) => Ok(set_reg(m, x, vx | vy)),
        (8, _, _, 2) => Ok(set_reg(m, x, vx & vy)),
        (8, _, _, 3) => Ok(set_reg(m, x, vx ^ vy)),
        (8, _, _, 4) => Ok(set_with_flag(m, x, vx.wrapping_add(vy), if vx + vy >= 256 { 1 } else { 0 })),
        (8, _, _, 5) => Ok(set_with_flag(m, x, vx.wrapping_sub(vy), if vx >= vy { 1 } else { 0 })),
        (8, _, _, 6) => Ok(set_with_flag(m, x, vx / 2, vx % 2)),
        (8, _, _, 7) => Ok(set_with_flag(m, x, vy.wrapping_sub(vx), if vy >= vx { 1 } else { 0 })),
        (8, _, _, 0xE) => Ok(set_with_flag(m, x, vx.wrapping_mul(2), vx / 128)),
        (9, _, _, 0) => Ok(skip_if(m, vx != vy)),
        (0xA, _, _, _) => Ok(Machine { i: nnn, ..m }),
        (0xB, _, _, _) => Ok(Machine { pc: (m.v[0] + nnn) as u16, ..m }),
        (0xC, _, _, _) => Ok(
            set_reg(Machine { rng: next_rng(m.rng), ..m }, x, random_byte(next_rng(m.rng)) & nn),
        ),
        (0xD, _, _, _) => draw(m, x, y, nibble4(op) as int),
        (0xE, _, 9, 0xE) => Ok(skip_if(m, key_down(m, vx))),
        (0xE, _, 0xA, 1) => Ok(skip_if(m, !key_down(m, vx))),
        (0xF, _, 0, 7) => Ok(set_reg(m, x, m.delay)),
        (0xF, _, 0, 0xA) => Ok(wait_key(m, x)),
        (0xF, _, 1, 5) => Ok(Machine { delay: vx, ..m }),
        (0xF, _, 1, 8) => Ok(Machine { sound: vx, ..m }),
        (0xF, _, 1, 0xE) => Ok(Machine { i: m.i.wrapping_add(vx as u16), ..m }),
        (0xF, _, 2, 9) => Ok(Machine { i: (5 * (vx % 16)) as u16, ..m }),
        (0xF, _, 3, 3) => store_bcd(m, vx),
        (0xF, _, 5, 5) => store_regs(m, x),
        (0xF, _, 6, 5) => load_regs(m, x),
        _ => Err(EmulatorError::UnimplementedOpcode(op)),
    }
}

/// Fetch: the word at the program counter, if both of its bytes lie in memory.
pub open spec fn fetch(m: Machine) -> Result<(Machine, u16), EmulatorError> {
    if m.pc > RAM_SIZE - 2 {
        Err(EmulatorError::MemoryOutOfBounds)
    } else {
        Ok((Machine { pc: (m.pc + 2) as u16, ..m }, word_at(m, m.pc as int)))
    }
}

/// One fetch-decode-execute cycle; on a fault the state is left as it was.
pub open spec fn step(m: Machine) -> Result<Machine, EmulatorError> {
    match fetch(m) {
        Ok((fetched, op)) => execute(fetched, op),
        Err(e) => Err(e),
    }
}

/// The state after `n` cycles, stopping at the first fault.
pub open spec fn run(m: Machine, n: nat) -> Result<Machine, EmulatorError>
    decreases n,
{
    if n == 0 {
        Ok(m)
    } else {
        match step(m) {
            Ok(next) => run(next, (n - 1) as nat),
            Err(e) => Err(e),
        }
    }
}

/// One 60 Hz timer tick: both timers count down to zero; the tone sounds when
/// the sound timer runs out on this tick.
pub open spec fn tick_timers(m: Machine) -> (Machine, bool) {
    (
        Machine {
            delay: if m.delay > 0 { (m.delay - 1) as u8 } else { 0 },
            sound: if m.sound > 0 { (m.sound - 1) as u8 } else { 0 },
            ..m
        },
        m.sound == 1,
    )
}

/// The host sets key `k`; a press during a key wait is recorded if it is the
/// first.
pub open spec fn set_key(m: Machine, k: int, pressed: bool) -> Machine {
    let first_press = pressed && !m.keys[k] && m.awaiting_key && m.key_event is None;
    Machine {
        keys: m.keys.update(k, pressed),
        key_event: if first_press { Some(k as u8) } else { m.key_event },
        ..m
    }
}

} // verus!
