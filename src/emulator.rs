//! The executable machine state and its operations.
use vstd::prelude::*;
use crate::machine::{
    fontset, initial_machine, load_rom, fetch, execute, step, tick_timers, set_key, nibble1,
    nibble2, nibble3, nibble4, sprite_covers, row_bit, collides, draw, store_bcd, store_regs,
    load_regs, Machine, EmulatorError, DISPLAY_SIZE, RAM_SIZE, NUM_REGS, STACK_SIZE, NUM_KEYS,
    FONTSET_SIZE, START_ADDR, FLAG_REG, MAX_ROM_SIZE, RNG_MUL, RNG_INC,
};

verus! {

const FONTSET: [u8; FONTSET_SIZE] = [
    0xF0, 0x90, 0x90, 0x90, 0xF0, // 0
    0x20, 0x60, 0x20, 0x20, 0x70, // 1
    0xF0, 0x10, 0xF0, 0x80, 0xF0, // 2
    0xF0, 0x10, 0xF0, 0x10, 0xF0, // 3
    0x90, 0x90, 0xF0, 0x10, 0x10, // 4
    0xF0, 0x80, 0xF0, 0x10, 0xF0, // 5
    0xF0, 0x80, 0xF0, 0x90, 0xF0, // 6
    0xF0, 0x10, 0x20, 0x40, 0x40, // 7
    0xF0, 0x90, 0xF0, 0x90, 0xF0, // 8
    0xF0, 0x90, 0xF0, 0x10, 0xF0, // 9
    0xF0, 0x90, 0xF0, 0x90, 0x90, // A
    0xE0, 0x90, 0xE0, 0x90, 0xE0, // B
    0xF0, 0x80, 0x80, 0x80, 0xF0, // C
    0xE0, 0x90, 0x90, 0x90, 0xE0, // D
    0xF0, 0x80, 0xF0, 0x80, 0xF0, // E
    0xF0, 0x80, 0xF0, 0x80, 0x80, // F
];

/// The state of one CHIP-8 machine.
pub struct Emulator {
    pub program_counter: u16,
    pub ram: [u8; RAM_SIZE],
    /// Row-major pixels, `SCREEN_WIDTH` per row.
    pub screen: [bool; DISPLAY_SIZE],
    pub v_reg: [u8; NUM_REGS],
    pub i_reg: u16,
    /// Number of stack slots in use.
    pub stack_pointer: u16,
    pub stack: [u16; STACK_SIZE],
    pub keys: [bool; NUM_KEYS],
    pub delay_timer: u8,
    pub sound_timer: u8,
    /// A key-wait instruction is suspended.
    pub awaiting_key: bool,
    /// The first key pressed during the current key wait.
    pub key_event: Option<u8>,
    /// State of the generator behind the random instruction.
    pub rng_state: u64,
}

impl View for Emulator {
    type V = Machine;

    open spec fn view(&self) -> Machine {
        Machine {
            memory: self.ram@,
            display: self.screen@,
            v: self.v_reg@,
            i: self.i_reg,
            pc: self.program_counter,
            stack: self.stack@,
            sp: self.stack_pointer,
            keys: self.keys@,
            delay: self.delay_timer,
            sound: self.sound_timer,
            awaiting_key: self.awaiting_key,
            key_event: self.key_event,
            rng: self.rng_state,
        }
    }
}

/// Splits an instruction word into its four nibbles, most significant first.
fn decode(opcode: u16) -> (r: (u16, u16, u16, u16))
    ensures
        r == (nibble1(opcode), nibble2(opcode), nibble3(opcode), nibble4(opcode)),
        r.0 < 16 && r.1 < 16 && r.2 < 16 && r.3 < 16,
{
    let digit1 = (opcode & 0xF000) >> 12u16;
    let digit2 = (opcode & 0x0F00) >> 8u16;
    let digit3 = (opcode & 0x00F0) >> 4u16;
    let digit4 = opcode & 0x000F;
    assert(digit1 < 16 && digit2 < 16 && digit3 < 16 && digit4 < 16) by (bit_vector)
        requires
            digit1 == (opcode & 0xF000) >> 12u16,
            digit2 == (opcode & 0x0F00) >> 8u16,
            digit3 == (opcode & 0x00F0) >> 4u16,
            digit4 == opcode & 0x000F,
    ;
    (digit1, digit2, digit3, digit4)
}

/// The result of an operation, `after` and `r`, is the transition `expected`
/// from `before`: its new state, or its fault with nothing changed.
spec fn outcome(
    before: Emulator,
    after: Emulator,
    r: Result<(), EmulatorError>,
    expected: Result<Machine, EmulatorError>,
) -> bool {
    match expected {
        Ok(m) => r is Ok && after@ == m,
        Err(e) => r == Err::<(), EmulatorError>(e) && after == before,
    }
}

/// Whether pixel `p` has been toggled once the sprite rows before `row`, and
/// the columns of row `row` before `col`, are drawn.
spec fn drawn_before(memory: Seq<u8>, base: int, x0: int, y0: int, p: int, row: int, col: int) -> bool {
    let dx = (p % 64 - x0) % 64;
    let dy = (p / 64 - y0) % 32;
    (dy < row || (dy == row && dx < col)) && dx < 8 && row_bit(memory[base + dy], dx)
}

/// Whether a pixel toggled so far was set before the draw.
spec fn hit_before(m: Machine, base: int, x0: int, y0: int, row: int, col: int) -> bool {
    exists|p: int|
        0 <= p < DISPLAY_SIZE && #[trigger] m.display[p] && drawn_before(m.memory, base, x0, y0, p, row, col)
}

/// On a ring of `n` positions, `c` lies `d` steps past `a` exactly when it
/// sits at (a + d) mod n.
proof fn lemma_ring_offset(a: int, c: int, d: int, n: int)
    requires
        0 <= a < n,
        0 <= c < n,
        0 <= d < n,
    ensures
        ((c - a) % n == d) <==> (c == (a + d) % n),
{
    if c >= a {
        assert((c - a) % n == c - a) by (nonlinear_arith)
            requires
                0 <= c - a < n,
        ;
    } else {
        assert((c - a) % n == c - a + n) by (nonlinear_arith)
            requires
                -n < c - a < 0,
        ;
    }
    if a + d < n {
        assert((a + d) % n == a + d) by (nonlinear_arith)
            requires
                0 <= a + d < n,
        ;
    } else {
        assert((a + d) % n == a + d - n) by (nonlinear_arith)
            requires
                n <= a + d < 2 * n,
        ;
    }
}

/// Pixel ((y0 + row) mod 32) * 64 + (x0 + col) mod 64 is the one pixel at
/// sprite offset (col, row).
proof fn lemma_place_unique(x0: int, y0: int, row: int, col: int, p: int)
    requires
        0 <= x0 < 64,
        0 <= y0 < 32,
        0 <= row < 16,
        0 <= col < 8,
        0 <= p < DISPLAY_SIZE,
    ensures
        ((p % 64 - x0) % 64 == col && (p / 64 - y0) % 32 == row) <==> p == ((y0 + row) % 32)
            * 64 + (x0 + col) % 64,
        0 <= ((y0 + row) % 32) * 64 + (x0 + col) % 64 < DISPLAY_SIZE,
{
    let qy = (y0 + row) % 32;
    let qx = (x0 + col) % 64;
    let px = p % 64;
    let py = p / 64;
    assert(p == py * 64 + px && 0 <= px < 64 && 0 <= py < 32) by (nonlinear_arith)
        requires
            0 <= p < DISPLAY_SIZE,
            px == p % 64,
            py == p / 64,
    ;
    assert(0 <= qx < 64 && 0 <= qy < 32) by (nonlinear_arith)
        requires
            qx == (x0 + col) % 64,
            qy == (y0 + row) % 32,
    ;
    assert(0 <= qy * 64 + qx < DISPLAY_SIZE) by (nonlinear_arith)
        requires
            0 <= qx < 64,
            0 <= qy < 32,
    ;
    lemma_ring_offset(x0, px, col, 64);
    lemma_ring_offset(y0, py, row, 32);
    if p == qy * 64 + qx {
        assert(px == qx && py == qy) by (nonlinear_arith)
            requires
                p == qy * 64 + qx,
                p == py * 64 + px,
                0 <= px < 64,
                0 <= py < 32,
                0 <= qx < 64,
                0 <= qy < 32,
        ;
    }
}

/// Pixel ((y0 + row) mod 32, (x0 + col) mod 64) is the one pixel that the
/// sprite bit at (row, col) lands on.
proof fn lemma_pixel_place(m: Machine, base: int, x0: int, y0: int, row: int, col: int)
    requires
        m.wf(),
        0 <= x0 < 64,
        0 <= y0 < 32,
        0 <= row < 16,
        0 <= col < 8,
    ensures
        ({
            let q = ((y0 + row) % 32) * 64 + (x0 + col) % 64;
            let bit = row_bit(m.memory[base + row], col);
            &&& 0 <= q < DISPLAY_SIZE
            &&& !drawn_before(m.memory, base, x0, y0, q, row, col)
            &&& drawn_before(m.memory, base, x0, y0, q, row, col + 1) == bit
            &&& forall|p: int|
                0 <= p < DISPLAY_SIZE && p != q ==> drawn_before(m.memory, base, x0, y0, p, row, col + 1)
                    == drawn_before(m.memory, base, x0, y0, p, row, col)
            &&& hit_before(m, base, x0, y0, row, col + 1) == (hit_before(m, base, x0, y0, row, col)
                || (m.display[q] && bit))
        }),
{
    let memory = m.memory;
    let q = ((y0 + row) % 32) * 64 + (x0 + col) % 64;
    lemma_place_unique(x0, y0, row, col, q);
    assert forall|p: int|
        0 <= p < DISPLAY_SIZE && p != q implies drawn_before(memory, base, x0, y0, p, row, col + 1)
        == drawn_before(memory, base, x0, y0, p, row, col) by {
        lemma_place_unique(x0, y0, row, col, p);
    }
    let bit = row_bit(m.memory[base + row], col);
    if hit_before(m, base, x0, y0, row, col + 1) {
        let p = choose|p: int|
            0 <= p < DISPLAY_SIZE && #[trigger] m.display[p] && drawn_before(memory, base, x0, y0, p, row, col + 1);
        if p != q {
            assert(drawn_before(memory, base, x0, y0, p, row, col));
        }
    }
    if hit_before(m, base, x0, y0, row, col) {
        let p = choose|p: int|
            0 <= p < DISPLAY_SIZE && #[trigger] m.display[p] && drawn_before(memory, base, x0, y0, p, row, col);
        assert(p != q);
        assert(drawn_before(memory, base, x0, y0, p, row, col + 1));
    }
    if m.display[q] && bit {
        assert(drawn_before(memory, base, x0, y0, q, row, col + 1));
    }
}

/// A finished row `row` is the start of row `row + 1`.
proof fn lemma_next_row(m: Machine, base: int, x0: int, y0: int, row: int)
    ensures
        forall|p: int|
            drawn_before(m.memory, base, x0, y0, p, row, 8) == drawn_before(
                m.memory,
                base,
                x0,
                y0,
                p,
                row + 1,
                0,
            ),
        hit_before(m, base, x0, y0, row, 8) == hit_before(m, base, x0, y0, row + 1, 0),
{
    if hit_before(m, base, x0, y0, row, 8) {
        let p = choose|p: int|
            0 <= p < DISPLAY_SIZE && #[trigger] m.display[p] && drawn_before(m.memory, base, x0, y0, p, row, 8);
        assert(drawn_before(m.memory, base, x0, y0, p, row + 1, 0));
    }
    if hit_before(m, base, x0, y0, row + 1, 0) {
        let p = choose|p: int|
            0 <= p < DISPLAY_SIZE && #[trigger] m.display[p] && drawn_before(m.memory, base, x0, y0, p, row + 1, 0);
        assert(drawn_before(m.memory, base, x0, y0, p, row, 8));
    }
}

/// All rows drawn is the whole sprite.
proof fn lemma_whole_sprite(m: Machine, base: int, x0: int, y0: int, rows: int)
    requires
        base == m.i,
    ensures
        forall|p: int|
            drawn_before(m.memory, base, x0, y0, p, rows, 0) == sprite_covers(
                m.memory,
                base,
                rows,
                x0,
                y0,
                p,
            ),
        hit_before(m, base, x0, y0, rows, 0) == collides(m, rows, x0, y0),
{
    if hit_before(m, base, x0, y0, rows, 0) {
        let p = choose|p: int|
            0 <= p < DISPLAY_SIZE && #[trigger] m.display[p] && drawn_before(m.memory, base, x0, y0, p, rows, 0);
        assert(sprite_covers(m.memory, base, rows, x0, y0, p));
    }
    if collides(m, rows, x0, y0) {
        let p = choose|p: int|
            0 <= p < DISPLAY_SIZE && #[trigger] m.display[p] && sprite_covers(m.memory, m.i as int, rows, x0, y0, p);
        assert(drawn_before(m.memory, base, x0, y0, p, rows, 0));
    }
}

impl Emulator {
    /// The invariant that every operation keeps: a stack pointer within the
    /// stack, and a recorded key only during a key wait.
    pub open spec fn wf(&self) -> bool {
        self@.wf()
    }

    pub fn new() -> (r: Emulator)
        ensures
            r.wf(),
            r@ == initial_machine(),
    {
        let mut emu = Emulator {
            program_counter: START_ADDR,
            ram: [0u8; RAM_SIZE],
            screen: [false; DISPLAY_SIZE],
            v_reg: [0u8; NUM_REGS],
            i_reg: 0,
            stack_pointer: 0,
            stack: [0u16; STACK_SIZE],
            keys: [false; NUM_KEYS],
            delay_timer: 0,
            sound_timer: 0,
            awaiting_key: false,
            key_event: None,
            rng_state: 0,
        };
        emu.load_font();
        proof {
            Self::lemma_initial(emu);
        }
        emu
    }

    /// Brings the machine back to the state of [`Emulator::new`].
    pub fn reset(&mut self)
        ensures
            final(self).wf(),
            final(self)@ == initial_machine(),
    {
        self.program_counter = START_ADDR;
        self.ram = [0u8; RAM_SIZE];
        self.screen = [false; DISPLAY_SIZE];
        self.v_reg = [0u8; NUM_REGS];
        self.i_reg = 0;
        self.stack_pointer = 0;
        self.stack = [0u16; STACK_SIZE];
        self.keys = [false; NUM_KEYS];
        self.delay_timer = 0;
        self.sound_timer = 0;
        self.awaiting_key = false;
        self.key_event = None;
        self.rng_state = 0;
        self.load_font();
        proof {
            Self::lemma_initial(*self);
        }
    }

    proof fn lemma_initial(emu: Emulator)
        requires
            emu.program_counter == START_ADDR,
            forall|a: int| 0 <= a < FONTSET_SIZE ==> emu.ram@[a] == fontset()[a],
            forall|a: int| FONTSET_SIZE <= a < RAM_SIZE ==> emu.ram@[a] == 0,
            forall|p: int| 0 <= p < DISPLAY_SIZE ==> !emu.screen@[p],
            forall|r: int| 0 <= r < NUM_REGS ==> emu.v_reg@[r] == 0,
            forall|k: int| 0 <= k < STACK_SIZE ==> emu.stack@[k] == 0,
            forall|k: int| 0 <= k < NUM_KEYS ==> !emu.keys@[k],
            emu.i_reg == 0,
            emu.stack_pointer == 0,
            emu.delay_timer == 0,
            emu.sound_timer == 0,
            !emu.awaiting_key,
            emu.key_event is None,
            emu.rng_state == 0,
        ensures
            emu.wf(),
            emu@ == initial_machine(),
    {
        let init = initial_machine();
        assert(emu.ram@ =~= init.memory);
        assert(emu.screen@ =~= init.display);
        assert(emu.v_reg@ =~= init.v);
        assert(emu.stack@ =~= init.stack);
        assert(emu.keys@ =~= init.keys);
    }

    /// Copies the font glyphs to the start of memory.
    fn load_font(&mut self)
        ensures
            forall|a: int| 0 <= a < FONTSET_SIZE ==> final(self).ram@[a] == fontset()[a],
            forall|a: int|
                FONTSET_SIZE <= a < RAM_SIZE ==> final(self).ram@[a] == old(self).ram@[a],
            final(self)@ == (Machine { memory: final(self).ram@, ..old(self)@ }),
    {
        let font = FONTSET;
        assert(font@ =~= fontset());
        let mut a: usize = 0;
        while a < FONTSET_SIZE
            invariant
                a <= FONTSET_SIZE,
                font@ == fontset(),
                forall|b: int| 0 <= b < a ==> self.ram@[b] == fontset()[b],
                forall|b: int| a <= b < RAM_SIZE ==> self.ram@[b] == old(self).ram@[b],
                self@ == (Machine { memory: self.ram@, ..old(self)@ }),
            decreases FONTSET_SIZE - a,
        {
            self.ram[a] = font[a];
            a += 1;
        }
    }

    /// Sets register `v_reg` to `value`.
    pub fn set_v_reg(&mut self, v_reg: usize, value: u8)
        requires
            v_reg < NUM_REGS,
        ensures
            final(self)@ == (Machine { v: old(self)@.v.update(v_reg as int, value), ..old(self)@ }),
    {
        self.v_reg[v_reg] = value;
    }

    /// The value of register `v_reg`.
    pub fn get_v_reg(&self, v_reg: usize) -> (r: u8)
        requires
            v_reg < NUM_REGS,
        ensures
            r == self@.v[v_reg as int],
    {
        self.v_reg[v_reg]
    }

    /// Turns every pixel off.
    fn clear_screen(&mut self)
        ensures
            final(self)@ == (Machine {
                display: Seq::new(DISPLAY_SIZE as nat, |p: int| false),
                ..old(self)@
            }),
    {
        self.screen = [false; DISPLAY_SIZE];
        assert(self.screen@ =~= Seq::new(DISPLAY_SIZE as nat, |p: int| false));
    }

    /// Pushes `value` onto the stack, unless all of its slots are in use.
    fn push(&mut self, value: u16) -> (r: Result<(), EmulatorError>)
        requires
            old(self).wf(),
        ensures
            old(self).stack_pointer >= STACK_SIZE ==> r == Err::<(), EmulatorError>(
                EmulatorError::StackOverflow,
            ) && *final(self) == *old(self),
            old(self).stack_pointer < STACK_SIZE ==> r is Ok && final(self)@ == (Machine {
                stack: old(self)@.stack.update(old(self).stack_pointer as int, value),
                sp: (old(self).stack_pointer + 1) as u16,
                ..old(self)@
            }),
    {
        if self.stack_pointer as usize >= STACK_SIZE {
            return Err(EmulatorError::StackOverflow);
        }
        self.stack[self.stack_pointer as usize] = value;
        self.stack_pointer += 1;
        Ok(())
    }

    /// Pops the top of the stack, unless it is empty.
    fn pop(&mut self) -> (r: Result<u16, EmulatorError>)
        requires
            old(self).wf(),
        ensures
            old(self).stack_pointer == 0 ==> r == Err::<u16, EmulatorError>(
                EmulatorError::StackUnderflow,
            ) && *final(self) == *old(self),
            old(self).stack_pointer > 0 ==> r == Ok::<u16, EmulatorError>(
                old(self)@.stack[old(self).stack_pointer - 1],
            ) && final(self)@ == (Machine {
                sp: (old(self).stack_pointer - 1) as u16,
                ..old(self)@
            }),
    {
        if self.stack_pointer == 0 {
            return Err(EmulatorError::StackUnderflow);
        }
        self.stack_pointer -= 1;
        Ok(self.stack[self.stack_pointer as usize])
    }

    /// Copies `rom` into memory at the start address.
    pub fn load_rom(&mut self, rom: &[u8]) -> (r: Result<(), EmulatorError>)
        ensures
            match load_rom(old(self)@, rom@) {
                Ok(m) => r is Ok && final(self)@ == m,
                Err(e) => r == Err::<(), EmulatorError>(e) && *final(self) == *old(self),
            },
    {
        if rom.len() > MAX_ROM_SIZE {
            return Err(EmulatorError::RomTooLarge);
        }
        let ghost m = load_rom(old(self)@, rom@)->Ok_0;
        let mut k: usize = 0;
        while k < rom.len()
            invariant
                rom.len() <= MAX_ROM_SIZE,
                k <= rom.len(),
                m == load_rom(old(self)@, rom@)->Ok_0,
                forall|a: int|
                    0 <= a < START_ADDR + k ==> self.ram@[a] == m.memory[a],
                forall|a: int| START_ADDR + k <= a < RAM_SIZE ==> self.ram@[a] == old(self).ram@[a],
                self@ == (Machine { memory: self.ram@, ..old(self)@ }),
            decreases rom.len() - k,
        {
            self.ram[START_ADDR as usize + k] = rom[k];
            k += 1;
        }
        assert(self.ram@ =~= m.memory);
        Ok(())
    }

    /// One 60 Hz tick of the timers; returns whether the tone sounds now.
    pub fn tick_timers(&mut self) -> (tone: bool)
        ensures
            (final(self)@, tone) == tick_timers(old(self)@),
    {
        if self.delay_timer > 0 {
            self.delay_timer -= 1;
        }
        let tone = self.sound_timer == 1;
        if self.sound_timer > 0 {
            self.sound_timer -= 1;
        }
        tone
    }

    /// The host reports key `index` as pressed or released.
    pub fn set_key(&mut self, index: usize, pressed: bool)
        requires
            old(self).wf(),
            index < NUM_KEYS,
        ensures
            final(self).wf(),
            final(self)@ == set_key(old(self)@, index as int, pressed),
    {
        if pressed && !self.keys[index] && self.awaiting_key && self.key_event.is_none() {
            self.key_event = Some(index as u8);
        }
        self.keys[index] = pressed;
    }

    /// One fetch-decode-execute cycle. On a fault nothing changes, the
    /// program counter included.
    pub fn tick(&mut self) -> (r: Result<(), EmulatorError>)
        requires
            old(self).wf(),
        ensures
            final(self).wf(),
            match step(old(self)@) {
                Ok(m) => r is Ok && final(self)@ == m,
                Err(e) => r == Err::<(), EmulatorError>(e) && *final(self) == *old(self),
            },
    {
        let pc = self.program_counter;
        match self.fetch_opcode() {
            Ok(opcode) => match self.execute_opcode(opcode) {
                Ok(()) => Ok(()),
                Err(e) => {
                    self.program_counter = pc;
                    assert(self.ram =~= old(self).ram);
                    assert(self.screen =~= old(self).screen);
                    assert(self.v_reg =~= old(self).v_reg);
                    assert(self.stack =~= old(self).stack);
                    assert(self.keys =~= old(self).keys);
                    Err(e)
                },
            },
            Err(e) => Err(e),
        }
    }

    /// Reads the instruction at the program counter and moves past it.
    pub fn fetch_opcode(&mut self) -> (r: Result<u16, EmulatorError>)
        ensures
            match fetch(old(self)@) {
                Ok((m, op)) => r == Ok::<u16, EmulatorError>(op) && final(self)@ == m,
                Err(e) => r == Err::<u16, EmulatorError>(e) && *final(self) == *old(self),
            },
    {
        if self.program_counter as usize > RAM_SIZE - 2 {
            return Err(EmulatorError::MemoryOutOfBounds);
        }
        let pc = self.program_counter as usize;
        let high = self.ram[pc] as u16;
        let low = self.ram[pc + 1] as u16;
        self.program_counter += 2;
        Ok(high * 256 + low)
    }

    /// Executes instruction `opcode`; on a fault the state is left unchanged.
    pub fn execute_opcode(&mut self, opcode: u16) -> (r: Result<(), EmulatorError>)
        requires
            old(self).wf(),
        ensures
            final(self).wf(),
            match execute(old(self)@, opcode) {
                Ok(m) => r is Ok && final(self)@ == m,
                Err(e) => r == Err::<(), EmulatorError>(e) && *final(self) == *old(self),
            },
    {
        let (digit1, digit2, _digit3, _digit4) = decode(opcode);
        let x = digit2 as usize;
        #[verifier::truncate]
        let nn = (opcode & 0xFF) as u8;
        let nnn = opcode & 0xFFF;
        assert(nnn < 4096) by (bit_vector)
            requires
                nnn == opcode & 0xFFF,
        ;
        match digit1 {
            0 => self.execute_system(opcode),
            1 => {
                self.program_counter = nnn;
                Ok(())
            },
            2 => match self.push(self.program_counter) {
                Ok(()) => {
                    self.program_counter = nnn;
                    Ok(())
                },
                Err(e) => Err(e),
            },
            3 | 4 | 5 | 9 => self.execute_skip(opcode),
            6 => {
                self.set_v_reg(x, nn);
                Ok(())
            },
            7 => {
                let vx = self.get_v_reg(x);
                self.set_v_reg(x, vx.wrapping_add(nn));
                Ok(())
            },
            8 => self.execute_alu(opcode),
            0xA => {
                self.i_reg = nnn;
                Ok(())
            },
            0xB => {
                self.program_counter = self.v_reg[0] as u16 + nnn;
                Ok(())
            },
            0xC => {
                self.rng_state = self.rng_state.wrapping_mul(RNG_MUL).wrapping_add(RNG_INC);
                #[verifier::truncate]
                let byte = (self.rng_state >> 56u64) as u8;
                self.set_v_reg(x, byte & nn);
                Ok(())
            },
            0xD => {
                let (_, _, y, rows) = decode(opcode);
                self.draw_sprite(x, y as usize, rows as usize)
            },
            0xE => self.execute_key_skip(opcode),
            _ => self.execute_misc(opcode),
        }
    }

    /// The instructions whose first nibble is 0: NOP, CLS and RET.
    fn execute_system(&mut self, opcode: u16) -> (r: Result<(), EmulatorError>)
        requires
            old(self).wf(),
            nibble1(opcode) == 0,
        ensures
            final(self).wf(),
            outcome(*old(self), *final(self), r, execute(old(self)@, opcode)),
    {
        match decode(opcode) {
            (0, 0, 0, 0) => Ok(()),
            (0, 0, 0xE, 0) => {
                self.clear_screen();
                Ok(())
            },
            (0, 0, 0xE, 0xE) => match self.pop() {
                Ok(addr) => {
                    self.program_counter = addr;
                    Ok(())
                },
                Err(e) => Err(e),
            },
            _ => Err(EmulatorError::UnimplementedOpcode(opcode)),
        }
    }

    /// The conditional skips on registers: SE and SNE.
    fn execute_skip(&mut self, opcode: u16) -> (r: Result<(), EmulatorError>)
        requires
            old(self).wf(),
            nibble1(opcode) == 3 || nibble1(opcode) == 4 || nibble1(opcode) == 5 || nibble1(opcode)
                == 9,
        ensures
            final(self).wf(),
            outcome(*old(self), *final(self), r, execute(old(self)@, opcode)),
    {
        let (digit1, digit2, digit3, digit4) = decode(opcode);
        #[verifier::truncate]
        let nn = (opcode & 0xFF) as u8;
        let vx = self.v_reg[digit2 as usize];
        let vy = self.v_reg[digit3 as usize];
        let skip = match (digit1, digit4) {
            (3, _) => vx == nn,
            (4, _) => vx != nn,
            (5, 0) => vx == vy,
            (9, 0) => vx != vy,
            _ => return Err(EmulatorError::UnimplementedOpcode(opcode)),
        };
        if skip {
            self.program_counter = self.program_counter.wrapping_add(2);
        }
        Ok(())
    }

    /// The register-to-register arithmetic and logic instructions.
    fn execute_alu(&mut self, opcode: u16) -> (r: Result<(), EmulatorError>)
        requires
            old(self).wf(),
            nibble1(opcode) == 8,
        ensures
            final(self).wf(),
            outcome(*old(self), *final(self), r, execute(old(self)@, opcode)),
    {
        let (_, digit2, digit3, digit4) = decode(opcode);
        let x = digit2 as usize;
        let vx = self.v_reg[x];
        let vy = self.v_reg[digit3 as usize];
        let (value, flag): (u8, Option<u8>) = match digit4 {
            0 => (vy, None),
            1 => (vx | vy, None),
            2 => (vx & vy, None),
            3 => (vx ^ vy, None),
            4 => (vx.wrapping_add(vy), Some(if vx as u16 + vy as u16 >= 256 { 1 } else { 0 })),
            5 => (vx.wrapping_sub(vy), Some(if vx >= vy { 1 } else { 0 })),
            6 => (vx / 2, Some(vx % 2)),
            7 => (vy.wrapping_sub(vx), Some(if vy >= vx { 1 } else { 0 })),
            0xE => (vx.wrapping_mul(2), Some(vx / 128)),
            _ => return Err(EmulatorError::UnimplementedOpcode(opcode)),
        };
        if let Some(f) = flag {
            self.set_v_reg(FLAG_REG, f);
        }
        self.set_v_reg(x, value);
        Ok(())
    }

    /// SKP and SKNP: skips on the state of the key named by Vx.
    fn execute_key_skip(&mut self, opcode: u16) -> (r: Result<(), EmulatorError>)
        requires
            old(self).wf(),
            nibble1(opcode) == 0xE,
        ensures
            final(self).wf(),
            outcome(*old(self), *final(self), r, execute(old(self)@, opcode)),
    {
        let (_, digit2, digit3, digit4) = decode(opcode);
        let k = self.v_reg[digit2 as usize] as usize;
        let down = k < NUM_KEYS && self.keys[k];
        let skip = match (digit3, digit4) {
            (9, 0xE) => down,
            (0xA, 1) => !down,
            _ => return Err(EmulatorError::UnimplementedOpcode(opcode)),
        };
        if skip {
            self.program_counter = self.program_counter.wrapping_add(2);
        }
        Ok(())
    }

    /// The instructions whose first nibble is F: timers, key wait, I and
    /// memory transfers.
    fn execute_misc(&mut self, opcode: u16) -> (r: Result<(), EmulatorError>)
        requires
            old(self).wf(),
            nibble1(opcode) == 0xF,
        ensures
            final(self).wf(),
            outcome(*old(self), *final(self), r, execute(old(self)@, opcode)),
    {
        let (_, digit2, digit3, digit4) = decode(opcode);
        let x = digit2 as usize;
        match (digit3, digit4) {
            (0, 7) => {
                let delay = self.delay_timer;
                self.set_v_reg(x, delay);
            },
            (0, 0xA) => {
                if self.awaiting_key && self.key_event.is_some() {
                    let k = self.key_event.unwrap();
                    self.awaiting_key = false;
                    self.key_event = None;
                    self.set_v_reg(x, k);
                } else {
                    self.awaiting_key = true;
                    self.key_event = None;
                    self.program_counter = self.program_counter.wrapping_sub(2);
                }
            },
            (1, 5) => {
                self.delay_timer = self.v_reg[x];
            },
            (1, 8) => {
                self.sound_timer = self.v_reg[x];
            },
            (1, 0xE) => {
                self.i_reg = self.i_reg.wrapping_add(self.v_reg[x] as u16);
            },
            (2, 9) => {
                self.i_reg = 5 * (self.v_reg[x] % 16) as u16;
            },
            (3, 3) => return self.store_bcd(x),
            (5, 5) => return self.store_regs(x),
            (6, 5) => return self.load_regs(x),
            _ => return Err(EmulatorError::UnimplementedOpcode(opcode)),
        }
        Ok(())
    }

    /// DRW: XORs the sprite of `rows` rows at I onto the display at
    /// (Vx mod 64, Vy mod 32) and sets VF to the collision flag.
    fn draw_sprite(&mut self, x: usize, y: usize, rows: usize) -> (r: Result<(), EmulatorError>)
        requires
            old(self).wf(),
            x < NUM_REGS,
            y < NUM_REGS,
            rows < 16,
        ensures
            final(self).wf(),
            match draw(old(self)@, x as int, y as int, rows as int) {
                Ok(m) => r is Ok && final(self)@ == m,
                Err(e) => r == Err::<(), EmulatorError>(e) && *final(self) == *old(self),
            },
    {
        let x0 = (self.v_reg[x] % 64) as usize;
        let y0 = (self.v_reg[y] % 32) as usize;
        let base = self.i_reg as usize;
        if base + rows > RAM_SIZE {
            return Err(EmulatorError::MemoryOutOfBounds);
        }
        let ghost m = old(self)@;
        let mut collided = false;
        let mut row: usize = 0;
        while row < rows
            invariant
                m == old(self)@,
                m.wf(),
                x0 < 64 && y0 < 32 && rows < 16,
                base == m.i,
                base + rows <= RAM_SIZE,
                row <= rows,
                self@ == (Machine { display: self.screen@, ..m }),
                forall|p: int|
                    0 <= p < DISPLAY_SIZE ==> self.screen@[p] == (m.display[p] != drawn_before(
                        m.memory,
                        base as int,
                        x0 as int,
                        y0 as int,
                        p,
                        row as int,
                        0,
                    )),
                collided == hit_before(m, base as int, x0 as int, y0 as int, row as int, 0),
            decreases rows - row,
        {
            let bits = self.ram[base + row];
            let mut col: usize = 0;
            while col < 8
                invariant
                    m == old(self)@,
                    m.wf(),
                    x0 < 64 && y0 < 32 && rows < 16,
                    base == m.i,
                    base + rows <= RAM_SIZE,
                    row < rows,
                    col <= 8,
                    bits == m.memory[base + row],
                    self@ == (Machine { display: self.screen@, ..m }),
                    forall|p: int|
                        0 <= p < DISPLAY_SIZE ==> self.screen@[p] == (m.display[p] != drawn_before(
                            m.memory,
                            base as int,
                            x0 as int,
                            y0 as int,
                            p,
                            row as int,
                            col as int,
                        )),
                    collided == hit_before(m, base as int, x0 as int, y0 as int, row as int, col as int),
                decreases 8 - col,
            {
                let p = ((y0 + row) % 32) * 64 + (x0 + col) % 64;
                proof {
                    lemma_pixel_place(m, base as int, x0 as int, y0 as int, row as int, col as int);
                }
                let set = bits & (0x80u8 >> (col as u8)) != 0;
                assert(set == row_bit(m.memory[base + row], col as int));
                if set {
                    if self.screen[p] {
                        collided = true;
                    }
                    self.screen[p] = !self.screen[p];
                }
                col += 1;
            }
            proof {
                lemma_next_row(m, base as int, x0 as int, y0 as int, row as int);
            }
            row += 1;
        }
        proof {
            lemma_whole_sprite(m, base as int, x0 as int, y0 as int, rows as int);
        }
        let flag: u8 = if collided { 1 } else { 0 };
        self.v_reg[FLAG_REG] = flag;
        proof {
            let expected = draw(m, x as int, y as int, rows as int)->Ok_0;
            assert(self.screen@ =~= expected.display);
            assert(self.v_reg@ =~= expected.v);
        }
        Ok(())
    }

    /// LD B,Vx: the decimal digits of Vx to memory at I, I+1, I+2.
    fn store_bcd(&mut self, x: usize) -> (r: Result<(), EmulatorError>)
        requires
            old(self).wf(),
            x < NUM_REGS,
        ensures
            final(self).wf(),
            match store_bcd(old(self)@, old(self)@.v[x as int]) {
                Ok(m) => r is Ok && final(self)@ == m,
                Err(e) => r == Err::<(), EmulatorError>(e) && *final(self) == *old(self),
            },
    {
        let base = self.i_reg as usize;
        if base + 2 >= RAM_SIZE {
            return Err(EmulatorError::MemoryOutOfBounds);
        }
        let vx = self.v_reg[x];
        self.ram[base] = vx / 100;
        self.ram[base + 1] = (vx / 10) % 10;
        self.ram[base + 2] = vx % 10;
        assert(self.ram@ =~= store_bcd(old(self)@, vx)->Ok_0.memory);
        Ok(())
    }

    /// LD [I],Vx: registers V0..Vx to memory from I on.
    fn store_regs(&mut self, x: usize) -> (r: Result<(), EmulatorError>)
        requires
            old(self).wf(),
            x < NUM_REGS,
        ensures
            final(self).wf(),
            match store_regs(old(self)@, x as int) {
                Ok(m) => r is Ok && final(self)@ == m,
                Err(e) => r == Err::<(), EmulatorError>(e) && *final(self) == *old(self),
            },
    {
        let base = self.i_reg as usize;
        if base + x >= RAM_SIZE {
            return Err(EmulatorError::MemoryOutOfBounds);
        }
        let ghost m = store_regs(old(self)@, x as int)->Ok_0;
        let mut r: usize = 0;
        while r <= x
            invariant
                x < NUM_REGS,
                base == old(self).i_reg,
                base + x < RAM_SIZE,
                r <= x + 1,
                m == store_regs(old(self)@, x as int)->Ok_0,
                forall|a: int| 0 <= a < base + r ==> self.ram@[a] == m.memory[a],
                forall|a: int| base + r <= a < RAM_SIZE ==> self.ram@[a] == old(self).ram@[a],
                self@ == (Machine { memory: self.ram@, ..old(self)@ }),
            decreases x + 1 - r,
        {
            self.ram[base + r] = self.v_reg[r];
            r += 1;
        }
        assert(self.ram@ =~= m.memory);
        Ok(())
    }

    /// LD Vx,[I]: memory from I on to registers V0..Vx.
    fn load_regs(&mut self, x: usize) -> (r: Result<(), EmulatorError>)
        requires
            old(self).wf(),
            x < NUM_REGS,
        ensures
            final(self).wf(),
            match load_regs(old(self)@, x as int) {
                Ok(m) => r is Ok && final(self)@ == m,
                Err(e) => r == Err::<(), EmulatorError>(e) && *final(self) == *old(self),
            },
    {
        let base = self.i_reg as usize;
        if base + x >= RAM_SIZE {
            return Err(EmulatorError::MemoryOutOfBounds);
        }
        let ghost m = load_regs(old(self)@, x as int)->Ok_0;
        let mut r: usize = 0;
        while r <= x
            invariant
                x < NUM_REGS,
                base == old(self).i_reg,
                base + x < RAM_SIZE,
                r <= x + 1,
                m == load_regs(old(self)@, x as int)->Ok_0,
                forall|k: int| 0 <= k < r ==> self.v_reg@[k] == m.v[k],
                forall|k: int| r <= k < NUM_REGS ==> self.v_reg@[k] == old(self).v_reg@[k],
                self@ == (Machine { v: self.v_reg@, ..old(self)@ }),
            decreases x + 1 - r,
        {
            self.v_reg[r] = self.ram[base + r];
            r += 1;
        }
        assert(self.v_reg@ =~= m.v);
        Ok(())
    }
}

} // verus!
