//! Laws of the instruction set, proved over the model in [`crate::machine`].
use vstd::prelude::*;
use crate::machine::{
    execute, step, run, set_key, tick_timers, word_at, nibble1, nibble2, nibble3, nibble4,
    address, sprite_covers, draw, collides, Machine, EmulatorError, DISPLAY_SIZE, FLAG_REG, RAM_SIZE, STACK_SIZE,
};

verus! {

/// The nibbles of the return instruction 00EE.
proof fn lemma_ret_nibbles()
    ensures
        nibble1(0x00EE) == 0 && nibble2(0x00EE) == 0 && nibble3(0x00EE) == 0xE && nibble4(0x00EE)
            == 0xE,
{
    assert((0x00EEu16 & 0xF000) >> 12u16 == 0 && (0x00EEu16 & 0x0F00) >> 8u16 == 0 && (0x00EEu16
        & 0x00F0) >> 4u16 == 0xE && 0x00EEu16 & 0x000F == 0xE) by (bit_vector);
}

/// Register indices taken from nibbles are below 16.
proof fn lemma_nibble_bounds(op: u16)
    ensures
        nibble1(op) < 16 && nibble2(op) < 16 && nibble3(op) < 16 && nibble4(op) < 16,
        address(op) < 4096,
{
    assert((op & 0xF000) >> 12u16 < 16 && (op & 0x0F00) >> 8u16 < 16 && (op & 0x00F0) >> 4u16 < 16
        && op & 0x000F < 16 && op & 0xFFF < 4096) by (bit_vector);
}

/// ADD Vx,Vy with x other than F: VF is 1 exactly when the sum reaches 256,
/// and Vx is the sum modulo 256.
pub proof fn lemma_add_sets_carry(m: Machine, op: u16)
    requires
        m.wf(),
        nibble1(op) == 8,
        nibble4(op) == 4,
        nibble2(op) != FLAG_REG,
    ensures
        ({
            let (x, y) = (nibble2(op) as int, nibble3(op) as int);
            let r = execute(m, op);
            &&& r is Ok
            &&& r->Ok_0.v[FLAG_REG as int] == (if m.v[x] + m.v[y] >= 256 { 1u8 } else { 0u8 })
            &&& r->Ok_0.v[x] == (m.v[x] + m.v[y]) % 256
        }),
{
    lemma_nibble_bounds(op);
}

/// SUB Vx,Vy with x other than F: VF is 1 exactly when Vx >= Vy (no borrow),
/// and Vx is the difference modulo 256.
pub proof fn lemma_sub_sets_no_borrow(m: Machine, op: u16)
    requires
        m.wf(),
        nibble1(op) == 8,
        nibble4(op) == 5,
        nibble2(op) != FLAG_REG,
    ensures
        ({
            let (x, y) = (nibble2(op) as int, nibble3(op) as int);
            let r = execute(m, op);
            &&& r is Ok
            &&& r->Ok_0.v[FLAG_REG as int] == (if m.v[x] >= m.v[y] { 1u8 } else { 0u8 })
            &&& r->Ok_0.v[x] == (m.v[x] - m.v[y]) % 256
        }),
{
    lemma_nibble_bounds(op);
}

/// A call followed by a return at its target comes back to the instruction
/// after the call, with the stack as deep as before.
pub proof fn lemma_call_then_return(m: Machine)
    requires
        m.wf(),
        m.sp < STACK_SIZE,
        m.pc <= RAM_SIZE - 2,
        nibble1(word_at(m, m.pc as int)) == 2,
        address(word_at(m, m.pc as int)) <= RAM_SIZE - 2,
        word_at(m, address(word_at(m, m.pc as int)) as int) == 0x00EE,
    ensures
        ({
            let target = address(word_at(m, m.pc as int));
            let first = step(m);
            &&& first is Ok
            &&& first->Ok_0.pc == target
            &&& first->Ok_0.sp == m.sp + 1
            &&& first->Ok_0.stack[m.sp as int] == m.pc + 2
            &&& step(first->Ok_0) is Ok
            &&& step(first->Ok_0)->Ok_0.pc == m.pc + 2
            &&& step(first->Ok_0)->Ok_0.sp == m.sp
        }),
{
    lemma_ret_nibbles();
    lemma_nibble_bounds(word_at(m, m.pc as int));
    let first = step(m)->Ok_0;
    assert(first.memory == m.memory);
    assert(word_at(first, first.pc as int) == 0x00EE);
}

/// A call succeeds exactly while a stack slot is free, and then uses one
/// more slot.
pub proof fn lemma_call_depth(m: Machine, op: u16)
    requires
        m.wf(),
        nibble1(op) == 2,
    ensures
        execute(m, op) == Err::<Machine, EmulatorError>(EmulatorError::StackOverflow) <==> m.sp
            == STACK_SIZE,
        execute(m, op) is Ok <==> m.sp < STACK_SIZE,
        execute(m, op) is Ok ==> execute(m, op)->Ok_0.sp == m.sp + 1 && execute(m, op)->Ok_0.wf(),
{
}

/// The state after the same instruction is executed `n` times in a row.
pub open spec fn execute_repeatedly(m: Machine, op: u16, n: nat) -> Result<Machine, EmulatorError>
    decreases n,
{
    if n == 0 {
        Ok(m)
    } else {
        match execute_repeatedly(m, op, (n - 1) as nat) {
            Ok(prev) => execute(prev, op),
            Err(e) => Err(e),
        }
    }
}

/// From an empty stack, sixteen calls in a row succeed, the k-th leaving k
/// slots in use, and a seventeenth overflows.
pub proof fn lemma_sixteen_calls(m: Machine, op: u16)
    requires
        m.wf(),
        m.sp == 0,
        nibble1(op) == 2,
    ensures
        forall|k: nat|
            k <= STACK_SIZE ==> #[trigger] execute_repeatedly(m, op, k) is Ok && execute_repeatedly(
                m,
                op,
                k,
            )->Ok_0.sp == k,
        execute_repeatedly(m, op, 17) == Err::<Machine, EmulatorError>(
            EmulatorError::StackOverflow,
        ),
{
    assert forall|k: nat| k <= STACK_SIZE implies #[trigger] execute_repeatedly(m, op, k) is Ok
        && execute_repeatedly(m, op, k)->Ok_0.sp == k && execute_repeatedly(m, op, k)->Ok_0.wf() by {
        lemma_calls_prefix(m, op, k);
    }
    lemma_calls_prefix(m, op, 16);
    lemma_call_depth(execute_repeatedly(m, op, 16)->Ok_0, op);
}

proof fn lemma_calls_prefix(m: Machine, op: u16, k: nat)
    requires
        m.wf(),
        m.sp == 0,
        nibble1(op) == 2,
        k <= STACK_SIZE,
    ensures
        execute_repeatedly(m, op, k) is Ok,
        execute_repeatedly(m, op, k)->Ok_0.sp == k,
        execute_repeatedly(m, op, k)->Ok_0.wf(),
    decreases k,
{
    if k > 0 {
        lemma_calls_prefix(m, op, (k - 1) as nat);
        lemma_call_depth(execute_repeatedly(m, op, (k - 1) as nat)->Ok_0, op);
    }
}

/// A return with an empty stack underflows.
pub proof fn lemma_return_on_empty_stack(m: Machine)
    requires
        m.wf(),
        m.sp == 0,
    ensures
        execute(m, 0x00EE) == Err::<Machine, EmulatorError>(EmulatorError::StackUnderflow),
{
    lemma_ret_nibbles();
}

/// Drawing a sprite twice at the same place restores the display. On a blank
/// region the first draw reports no collision, and the second reports one
/// exactly when the sprite has a set bit.
pub proof fn lemma_draw_twice(m: Machine, op: u16)
    requires
        m.wf(),
        nibble1(op) == 0xD,
        nibble2(op) != FLAG_REG,
        nibble3(op) != FLAG_REG,
        m.i + nibble4(op) <= RAM_SIZE,
    ensures
        ({
            let rows = nibble4(op) as int;
            let x0 = m.v[nibble2(op) as int] % 64;
            let y0 = m.v[nibble3(op) as int] % 32;
            let covers = |p: int| sprite_covers(m.memory, m.i as int, rows, x0 as int, y0 as int, p);
            let blank = forall|p: int| 0 <= p < DISPLAY_SIZE && #[trigger] covers(p) ==> !m.display[p];
            let first = execute(m, op);
            let second = execute(first->Ok_0, op);
            &&& first is Ok
            &&& second is Ok
            &&& second->Ok_0.display == m.display
            &&& blank ==> first->Ok_0.v[FLAG_REG as int] == 0
            &&& blank ==> (second->Ok_0.v[FLAG_REG as int] == 1 <==> exists|p: int|
                0 <= p < DISPLAY_SIZE && #[trigger] covers(p))
        }),
{
    lemma_nibble_bounds(op);
    let (x, y) = (nibble2(op) as int, nibble3(op) as int);
    lemma_execute_is_draw(m, op);
    lemma_execute_is_draw(draw(m, x, y, nibble4(op) as int)->Ok_0, op);
    lemma_draw_twice_model(m, x, y, nibble4(op) as int);
}

/// The draw-level form of [`lemma_draw_twice`].
proof fn lemma_draw_twice_model(m: Machine, x: int, y: int, rows: int)
    requires
        m.wf(),
        0 <= x < 16,
        0 <= y < 16,
        0 <= rows < 16,
        x != FLAG_REG,
        y != FLAG_REG,
        m.i + rows <= RAM_SIZE,
    ensures
        ({
            let x0 = m.v[x] % 64;
            let y0 = m.v[y] % 32;
            let covers = |p: int| sprite_covers(m.memory, m.i as int, rows, x0 as int, y0 as int, p);
            let blank = forall|p: int| 0 <= p < DISPLAY_SIZE && #[trigger] covers(p) ==> !m.display[p];
            let first = draw(m, x, y, rows);
            let second = draw(first->Ok_0, x, y, rows);
            &&& first is Ok
            &&& second is Ok
            &&& second->Ok_0.display == m.display
            &&& blank ==> first->Ok_0.v[FLAG_REG as int] == 0
            &&& blank ==> (second->Ok_0.v[FLAG_REG as int] == 1 <==> exists|p: int|
                0 <= p < DISPLAY_SIZE && #[trigger] covers(p))
        }),
{
    let x0 = m.v[x] % 64;
    let y0 = m.v[y] % 32;
    let covers = |p: int| sprite_covers(m.memory, m.i as int, rows, x0 as int, y0 as int, p);
    let first = draw(m, x, y, rows)->Ok_0;
    let second = draw(first, x, y, rows)->Ok_0;
    assert(first.v[x] == m.v[x]);
    assert(first.v[y] == m.v[y]);
    assert(second.display =~= m.display);
    let blank = forall|p: int| 0 <= p < DISPLAY_SIZE && #[trigger] covers(p) ==> !m.display[p];
    if blank {
        if exists|p: int| 0 <= p < DISPLAY_SIZE && #[trigger] covers(p) {
            let p = choose|p: int| 0 <= p < DISPLAY_SIZE && #[trigger] covers(p);
            assert(first.display[p]);
            assert(collides(first, rows, x0 as int, y0 as int));
        }
        if collides(m, rows, x0 as int, y0 as int) {
            let p = choose|p: int|
                0 <= p < DISPLAY_SIZE && #[trigger] m.display[p] && sprite_covers(
                    m.memory,
                    m.i as int,
                    rows,
                    x0 as int,
                    y0 as int,
                    p,
                );
            assert(covers(p));
        }
        if second.v[FLAG_REG as int] == 1 {
            let p = choose|p: int|
                0 <= p < DISPLAY_SIZE && #[trigger] first.display[p] && sprite_covers(
                    first.memory,
                    first.i as int,
                    rows,
                    x0 as int,
                    y0 as int,
                    p,
                );
            assert(covers(p));
        }
    }
}

proof fn lemma_execute_is_draw(m: Machine, op: u16)
    requires
        nibble1(op) == 0xD,
    ensures
        execute(m, op) == draw(m, nibble2(op) as int, nibble3(op) as int, nibble4(op) as int),
{
}

/// While no key has been pressed, the key-wait instruction leaves the program
/// counter on itself, however many cycles run.
pub proof fn lemma_key_wait_holds(m: Machine, n: nat)
    requires
        m.wf(),
        m.pc <= RAM_SIZE - 2,
        nibble1(word_at(m, m.pc as int)) == 0xF,
        nibble3(word_at(m, m.pc as int)) == 0,
        nibble4(word_at(m, m.pc as int)) == 0xA,
        m.key_event is None,
    ensures
        run(m, n) is Ok,
        run(m, n)->Ok_0.pc == m.pc,
        run(m, n)->Ok_0.v == m.v,
        run(m, n)->Ok_0.memory == m.memory,
        n > 0 ==> run(m, n)->Ok_0.awaiting_key,
    decreases n,
{
    if n > 0 {
        lemma_nibble_bounds(word_at(m, m.pc as int));
        let next = step(m)->Ok_0;
        assert(next.pc == m.pc);
        lemma_key_wait_holds(next, (n - 1) as nat);
    }
}

/// A key that goes from released to pressed during the wait ends it: the
/// next cycle stores the key in Vx and moves past the instruction.
pub proof fn lemma_key_press_resumes(m: Machine, k: int)
    requires
        m.wf(),
        m.pc <= RAM_SIZE - 2,
        nibble1(word_at(m, m.pc as int)) == 0xF,
        nibble3(word_at(m, m.pc as int)) == 0,
        nibble4(word_at(m, m.pc as int)) == 0xA,
        m.awaiting_key,
        m.key_event is None,
        0 <= k < 16,
        !m.keys[k],
    ensures
        ({
            let r = step(set_key(m, k, true));
            &&& r is Ok
            &&& r->Ok_0.pc == m.pc + 2
            &&& r->Ok_0.v[nibble2(word_at(m, m.pc as int)) as int] == k
            &&& !r->Ok_0.awaiting_key
        }),
{
    lemma_nibble_bounds(word_at(m, m.pc as int));
    let pressed = set_key(m, k, true);
    assert(word_at(pressed, m.pc as int) == word_at(m, m.pc as int));
}

/// A sound timer at 1 sounds the tone once and stops at 0; the next tick is
/// silent.
pub proof fn lemma_tone_sounds_once(m: Machine)
    requires
        m.sound == 1,
    ensures
        tick_timers(m).1,
        tick_timers(m).0.sound == 0,
        !tick_timers(tick_timers(m).0).1,
        tick_timers(tick_timers(m).0).0.sound == 0,
{
}

} // verus!
