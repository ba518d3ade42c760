//! Laws of the instruction set, proved over the machine model.
use vstd::prelude::*;

use crate::decode::decode;
use crate::enums::{ADDMode, Instr};
use crate::semantics::{
    collides, covers_cell, exec_spec, flag, lemma_sprite_cell, next_addr, opcode_at, press, run_steps, sprite_bit,
    step_spec, ticks, Machine, CHIP8_HEIGHT, CHIP8_WIDTH, MEMORY_SIZE, SCREEN_SIZE,
    STACK_CAPACITY, VF,
};

verus! {

/// Register-to-register addition sets VF to 1 exactly when the sum exceeds
/// 255, and leaves the sum modulo 256 in `Vx` (unless `Vx` is VF itself, which
/// the flag overwrites).
pub proof fn lemma_add_carry(m: Machine, x: usize, y: usize, rnd: u8)
    requires
        m.wf(),
        x < 16,
        y < 16,
    ensures
        exec_spec(m, Instr::ADD(x, ADDMode::Reg(y)), rnd) matches Ok(m2) && {
            &&& m2.v[VF as int] == flag(m.v[x as int] + m.v[y as int] > 255)
            &&& x != VF ==> m2.v[x as int] == (m.v[x as int] + m.v[y as int]) % 256
        },
{
}

/// Subtraction sets VF to 1 exactly when no borrow occurs, and leaves the
/// difference modulo 256 in `Vx` (unless `Vx` is VF itself, which the flag
/// overwrites): `SUB` computes `Vx - Vy`, `SUBN` computes `Vy - Vx`.
pub proof fn lemma_sub_borrow(m: Machine, x: usize, y: usize, rnd: u8)
    requires
        m.wf(),
        x < 16,
        y < 16,
    ensures
        exec_spec(m, Instr::SUB(x, y), rnd) matches Ok(m2) && {
            &&& m2.v[VF as int] == flag(m.v[x as int] >= m.v[y as int])
            &&& x != VF ==> m2.v[x as int] == (m.v[x as int] - m.v[y as int]) % 256
        },
        exec_spec(m, Instr::SUBN(x, y), rnd) matches Ok(m2) && {
            &&& m2.v[VF as int] == flag(m.v[y as int] >= m.v[x as int])
            &&& x != VF ==> m2.v[x as int] == (m.v[y as int] - m.v[x as int]) % 256
        },
{
}

/// Shift right puts bit 0 of `Vx` in VF and halves `Vx`; shift left puts bit
/// 7 in VF and doubles `Vx` modulo 256. With `Vx` being VF itself the shift
/// applies to the flag just written, so the register is not VF here.
pub proof fn lemma_shifts(m: Machine, x: usize, rnd: u8)
    requires
        m.wf(),
        x < 16,
        x != VF,
    ensures
        exec_spec(m, Instr::SHR(x), rnd) matches Ok(m2) && {
            &&& m2.v[VF as int] == m.v[x as int] & 1
            &&& m2.v[x as int] == m.v[x as int] >> 1
        },
        exec_spec(m, Instr::SHL(x), rnd) matches Ok(m2) && {
            &&& m2.v[VF as int] == (m.v[x as int] >> 7) & 1
            &&& m2.v[x as int] == ((m.v[x as int] as int * 2) % 256) as u8
        },
{
    let v = m.v[x as int];
    assert(v & 1 == v % 2) by (bit_vector);
    assert(v >> 1 == v / 2) by (bit_vector);
    assert((v >> 7) & 1 == v / 128) by (bit_vector);
}

/// Drawing the same sprite twice at the same place, with nothing in between,
/// leaves the framebuffer as it was. The second draw reports a collision
/// exactly where the first one left a covered pixel on; on a region that was
/// all off, the first draw reports none and the second one reports one
/// exactly when the sprite has a set bit.
pub proof fn lemma_draw_twice(m: Machine, x: usize, y: usize, n: usize, rnd: u8)
    requires
        m.wf(),
        x < 16,
        y < 16,
        n < 16,
        x != VF,
        y != VF,
        m.i + n <= MEMORY_SIZE,
    ensures
        exec_spec(m, Instr::DRW(x, y, n), rnd) matches Ok(m1) && exec_spec(
            m1,
            Instr::DRW(x, y, n),
            rnd,
        ) matches Ok(m2) && {
            let vx = m.v[x as int];
            let vy = m.v[y as int];
            &&& m2.screen == m.screen
            &&& m2.v[VF as int] == flag(
                exists|k: int|
                    0 <= k < SCREEN_SIZE && #[trigger] covers_cell(m, vx, vy, n as int, k)
                        && m1.screen[k],
            )
            &&& (forall|k: int|
                0 <= k < SCREEN_SIZE && #[trigger] covers_cell(m, vx, vy, n as int, k)
                    ==> !m.screen[k]) ==> m1.v[VF as int] == 0 && m2.v[VF as int] == flag(
                exists|k: int|
                    0 <= k < SCREEN_SIZE && #[trigger] covers_cell(m, vx, vy, n as int, k),
            )
        },
{
    let vx = m.v[x as int];
    let vy = m.v[y as int];
    let m1 = exec_spec(m, Instr::DRW(x, y, n), rnd)->Ok_0;
    assert(m1.v[x as int] == vx && m1.v[y as int] == vy);
    assert(m1.ram == m.ram && m1.i == m.i);
    assert forall|k: int| 0 <= k < SCREEN_SIZE implies #[trigger] covers_cell(
        m1,
        vx,
        vy,
        n as int,
        k,
    ) == covers_cell(m, vx, vy, n as int, k) by {}
    let m2 = exec_spec(m1, Instr::DRW(x, y, n), rnd)->Ok_0;
    assert(m2.screen =~= m.screen);
    if forall|k: int|
        0 <= k < SCREEN_SIZE && #[trigger] covers_cell(m, vx, vy, n as int, k) ==> !m.screen[k] {
        assert(!collides(m, vx, vy, n as int));
    }
}

/// A sprite wraps around the screen pixel by pixel: the bit at row `j` and
/// column `c` of the sprite lands on column `(Vx + c) % 64` and row
/// `(Vy + j) % 32`, which it flips exactly when the bit is set.
pub proof fn lemma_draw_wraps(m: Machine, x: usize, y: usize, n: usize, rnd: u8, j: int, c: int)
    requires
        m.wf(),
        x < 16,
        y < 16,
        n < 16,
        m.i + n <= MEMORY_SIZE,
        0 <= j < n,
        0 <= c < 8,
    ensures
        exec_spec(m, Instr::DRW(x, y, n), rnd) matches Ok(m1) && {
            let px = (m.v[x as int] + c) % (CHIP8_WIDTH as int);
            let py = (m.v[y as int] + j) % (CHIP8_HEIGHT as int);
            m1.pixel(px, py) == (m.pixel(px, py) != sprite_bit(m.ram[m.i + j], c))
        },
{
    lemma_sprite_cell(m.v[x as int], m.v[y as int], j, c);
}

/// A call pushes the address right after the call instruction, not the call
/// itself, and jumps; the return that later finds the stack as the call left
/// it comes back to that address, with the stack as it was before the call.
pub proof fn lemma_call_return(
    m: Machine,
    nnn: u16,
    later: Machine,
    ev1: Option<(u8, bool)>,
    ev2: Option<(u8, bool)>,
    rnd1: u8,
    rnd2: u8,
)
    requires
        m.wf(),
        m.waiting is None,
        m.pc + 1 < MEMORY_SIZE,
        m.stack.len() < STACK_CAPACITY,
        decode(opcode_at(m, m.pc as int)) == Some(Instr::CALL(nnn)),
        later.wf(),
        later.waiting is None,
        later.pc + 1 < MEMORY_SIZE,
        decode(opcode_at(later, later.pc as int)) == Some(Instr::RET),
        later.stack == step_spec(m, ev1, rnd1).0.stack,
    ensures
        step_spec(m, ev1, rnd1).1 is Ok,
        step_spec(m, ev1, rnd1).0.pc == nnn,
        step_spec(m, ev1, rnd1).0.stack == m.stack.push((m.pc + 2) as u16),
        step_spec(later, ev2, rnd2).1 is Ok,
        step_spec(later, ev2, rnd2).0.pc == m.pc + 2,
        step_spec(later, ev2, rnd2).0.stack == m.stack,
{
    assert(next_addr(m.pc) == m.pc + 2);
    assert(m.stack.push((m.pc + 2) as u16).drop_last() =~= m.stack);
}

/// While a key-wait instruction waits, an iteration only folds the polled key
/// transition into the keypad: the machine goes on waiting until a key goes
/// down, and then stores that key in the waiting register. Nothing else
/// changes, and the wait never faults.
pub proof fn lemma_key_wait(m: Machine, event: Option<(u8, bool)>, rnd: u8)
    requires
        m.wf(),
        m.waiting is Some,
        event matches Some((k, _)) ==> k < 16,
    ensures
        ({
            let (m1, r) = step_spec(m, event, rnd);
            &&& r is Ok
            &&& m1.pc == m.pc && m1.i == m.i && m1.ram == m.ram && m1.stack == m.stack
            &&& m1.screen == m.screen && m1.dt == m.dt && m1.st == m.st
            &&& m1.keys == press(m, event).keys
            &&& event matches Some((k, true)) ==> (m1.waiting is None && m1.v == m.v.update(
                m.waiting->Some_0 as int,
                k,
            ) && m1.keys[k as int])
            &&& !(event matches Some((_, true))) ==> m1.waiting == m.waiting && m1.v == m.v
        }),
{
}

/// A key wait lasts exactly as many iterations as it takes a key to go down:
/// over a run of polled events in which only the last one is a key press, the
/// machine waits throughout and then holds that key in the waiting register,
/// with the key down and the program counter, index register, memory, stack,
/// screen and timers as they were.
pub proof fn lemma_key_wait_run(m: Machine, events: Seq<Option<(u8, bool)>>, rnd: u8, k: u8)
    requires
        m.wf(),
        m.waiting is Some,
        events.len() > 0,
        forall|e: int|
            0 <= e < events.len() ==> (#[trigger] events[e] matches Some((key, _)) ==> key < 16),
        forall|e: int| 0 <= e < events.len() - 1 ==> !(#[trigger] events[e] matches Some((_, true))),
        events.last() == Some((k, true)),
    ensures
        ({
            let m1 = run_steps(m, events, rnd);
            &&& m1.waiting is None
            &&& m1.v == m.v.update(m.waiting->Some_0 as int, k)
            &&& m1.keys[k as int]
            &&& m1.pc == m.pc && m1.i == m.i && m1.ram == m.ram && m1.stack == m.stack
            &&& m1.screen == m.screen && m1.dt == m.dt && m1.st == m.st
        }),
    decreases events.len(),
{
    lemma_key_wait(m, events[0], rnd);
    if events.len() > 1 {
        let m1 = step_spec(m, events[0], rnd).0;
        let rest = events.drop_first();
        assert forall|e: int| 0 <= e < rest.len() implies (#[trigger] rest[e] matches Some((key, _))
            ==> key < 16) by {
            assert(rest[e] == events[e + 1]);
        }
        assert forall|e: int| 0 <= e < rest.len() - 1 implies !(#[trigger] rest[e] matches Some(
            (_, true),
        )) by {
            assert(rest[e] == events[e + 1]);
        }
        lemma_key_wait_run(m1, rest, rnd, k);
    }
}

/// A timer counts down one per tick and stops at zero: after `k` ticks it
/// reads `t - k`, or zero once `k >= t`.
pub proof fn lemma_timer_decay(t: u8, k: nat)
    ensures
        ticks(t, k) == if k >= t {
            0
        } else {
            t - k
        },
    decreases k,
{
    if k > 0 {
        lemma_timer_decay(t, (k - 1) as nat);
    }
}

} // verus!
