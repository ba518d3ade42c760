//! The machine's state as mathematical values, and what each instruction does
//! to it.
use vstd::prelude::*;

use vstd::arithmetic::div_mod::{
    lemma_div_is_ordered, lemma_div_pos_is_pos, lemma_fundamental_div_mod,
    lemma_fundamental_div_mod_converse, lemma_fundamental_div_mod_converse_mod, lemma_mod_bound,
};

use crate::enums::{ADDMode, Instr, JPMode, LDMode, SEMode};

verus! {

/// Bytes of addressable memory.
pub const MEMORY_SIZE: usize = 0x1000;

/// Where a program image is loaded, and where execution starts.
pub const PROGRAM_START: u16 = 0x200;

/// Address of the built-in hexadecimal font.
pub const DIGITS_LOC: u16 = 0;

/// Bytes of the built-in font: sixteen glyphs of five rows each.
pub const FONT_SIZE: usize = 80;

/// Return addresses the call stack can hold.
pub const STACK_CAPACITY: usize = 16;

pub const CHIP8_WIDTH: usize = 64;

pub const CHIP8_HEIGHT: usize = 32;

/// Cells of the framebuffer, stored row after row.
pub const SCREEN_SIZE: usize = 2048;

/// The register that instructions overwrite with a carry, borrow, collision
/// or shifted-out bit.
pub const VF: usize = 15;

/// The hexadecimal digit glyphs 0 to F, five rows of eight pixels each.
pub open spec fn font() -> Seq<u8> {
    seq![
        0xF0u8, 0x90, 0x90, 0x90, 0xF0, // 0
        0x20, 0x60, 0x20, 0x20, 0x70, // 1
        0xF0, 0x10, 0xF0, 0x80, 0xF0, // 2
        0xF0, 0x10, 0xF0, 0x10, 0xF0, // 3
        0x90, 0x90, 0xF0, 0x10, 0x10, // 4
        0xF0, 0x80, 0xF0, 0x10, 0xF0, // 5
        0xF0, 0x80, 0xF0, 0x90, 0xF0, // 6
        0xF0, 0x10, 0x20, 0x40, 0x40, // 7
        0xF0, 0x90, 0xF0, 0x90, 0xF0, // 8
        0xF0, 0x90, 0xF0, 0x10, 0xF0, // 9
        0xF0, 0x90, 0xF0, 0x90, 0x90, // A
        0xE0, 0x90, 0xE0, 0x90, 0xE0, // B
        0xF0, 0x80, 0x80, 0x80, 0xF0, // C
        0xE0, 0x90, 0x90, 0x90, 0xE0, // D
        0xF0, 0x80, 0xF0, 0x80, 0xF0, // E
        0xF0, 0x80, 0xF0, 0x80, 0x80, // F
    ]
}

/// A fault of the machine while it executes one instruction. None of them has
/// a meaning in the architecture, so each one ends the run.
#[derive(Clone, Copy, Debug, PartialEq, Eq, Structural)]
pub enum ExecError {
    /// A call with all sixteen stack slots in use.
    StackOverflow,
    /// A return with an empty stack.
    StackUnderflow,
    /// A memory access past the last byte.
    MemoryOutOfRange,
    /// A key test on a register that names no key of the keypad.
    KeyOutOfRange,
}

/// The whole state of a machine.
pub struct Machine {
    pub ram: Seq<u8>,
    /// The general registers V0 to VF.
    pub v: Seq<u8>,
    /// Return addresses, the most recent last.
    pub stack: Seq<u16>,
    pub pc: u16,
    /// The index register.
    pub i: u16,
    pub dt: u8,
    pub st: u8,
    /// Pressed state of the sixteen keys.
    pub keys: Seq<bool>,
    /// Pixel state, `CHIP8_WIDTH` cells per row.
    pub screen: Seq<bool>,
    /// The register that a key-wait instruction will fill, while the machine
    /// waits for a key press.
    pub waiting: Option<usize>,
}

impl Machine {
    pub open spec fn wf(self) -> bool {
        &&& self.ram.len() == MEMORY_SIZE
        &&& self.v.len() == 16
        &&& self.stack.len() <= STACK_CAPACITY
        &&& self.keys.len() == 16
        &&& self.screen.len() == SCREEN_SIZE
        &&& self.waiting matches Some(x) ==> x < 16
    }

    /// The pixel at column `px` and row `py`.
    pub open spec fn pixel(self, px: int, py: int) -> bool {
        self.screen[py * CHIP8_WIDTH + px]
    }

    pub open spec fn with_v(self, v: Seq<u8>) -> Machine {
        Machine { v, ..self }
    }

    pub open spec fn with_reg(self, x: int, val: u8) -> Machine {
        self.with_v(self.v.update(x, val))
    }

    pub open spec fn with_i(self, i: u16) -> Machine {
        Machine { i, ..self }
    }

    pub open spec fn with_pc(self, pc: u16) -> Machine {
        Machine { pc, ..self }
    }
}

/// A flag register value for a condition.
pub open spec fn flag(b: bool) -> u8 {
    if b {
        1
    } else {
        0
    }
}

/// The address two bytes on, in 16-bit arithmetic.
pub open spec fn next_addr(pc: u16) -> u16 {
    ((pc + 2) % 0x10000) as u16
}

/// Advances the program counter past one more instruction when `cond` holds.
pub open spec fn skip_if(m: Machine, cond: bool) -> Machine {
    if cond {
        m.with_pc(next_addr(m.pc))
    } else {
        m
    }
}

/// `Vx := Va - Vb` modulo 256, then VF := 1 where no borrow occurred
/// (`Va >= Vb`).
pub open spec fn sub_regs(m: Machine, x: int, a: int, b: int) -> Machine {
    let v1 = m.v.update(x, ((m.v[a] - m.v[b]) % 256) as u8);
    m.with_v(v1.update(VF as int, flag(m.v[a] >= m.v[b])))
}

/// `Vx := Vx + Vy` modulo 256, then VF := 1 where the sum exceeded 255.
pub open spec fn add_regs(m: Machine, x: int, y: int) -> Machine {
    let sum = m.v[x] + m.v[y];
    let v1 = m.v.update(x, (sum % 256) as u8);
    m.with_v(v1.update(VF as int, flag(sum > 255)))
}

/// VF := bit 0 of Vx, then Vx is halved (with x = F, the flag is what halves).
pub open spec fn shift_right(m: Machine, x: int) -> Machine {
    let v1 = m.v.update(VF as int, m.v[x] % 2);
    m.with_v(v1.update(x, v1[x] / 2))
}

/// VF := bit 7 of Vx, then Vx is doubled modulo 256 (with x = F, the flag is
/// what doubles).
pub open spec fn shift_left(m: Machine, x: int) -> Machine {
    let v1 = m.v.update(VF as int, m.v[x] / 128);
    m.with_v(v1.update(x, (v1[x] * 2 % 256) as u8))
}

/// Bit `c` of a sprite row, counted from the most significant (leftmost) one.
pub open spec fn sprite_bit(row: u8, c: int) -> bool {
    (row >> ((7 - c) as u8)) & 1u8 == 1u8
}

/// The sprite row that lands on screen row `py` when the sprite's top edge is
/// at `vy`, counting around the bottom edge.
pub open spec fn row_of(vy: u8, py: int) -> int {
    (py - vy) % (CHIP8_HEIGHT as int)
}

/// The sprite column that lands on screen column `px` when the sprite's left
/// edge is at `vx`, counting around the right edge.
pub open spec fn col_of(vx: u8, px: int) -> int {
    (px - vx) % (CHIP8_WIDTH as int)
}

/// Whether the sprite of `n` rows at the index register, drawn with its top
/// left corner at `(vx, vy)`, covers the pixel `(px, py)` with a set bit. The
/// sprite wraps around both edges of the screen, pixel by pixel.
pub open spec fn covers(m: Machine, vx: u8, vy: u8, n: int, px: int, py: int) -> bool {
    let row = row_of(vy, py);
    let col = col_of(vx, px);
    row < n && col < 8 && sprite_bit(m.ram[m.i + row], col)
}

/// Whether the framebuffer cell `k` is covered.
pub open spec fn covers_cell(m: Machine, vx: u8, vy: u8, n: int, k: int) -> bool {
    covers(m, vx, vy, n, k % (CHIP8_WIDTH as int), k / (CHIP8_WIDTH as int))
}

/// On a circle of `len` positions, `p` lies `j` steps after `v` exactly when it
/// is `(v + j) % len`.
pub proof fn lemma_wrap_offset(p: int, v: int, j: int, len: int)
    requires
        0 <= p < len,
        0 <= j < len,
        0 <= v,
    ensures
        ((p - v) % len == j) <==> (p == (v + j) % len),
{
    let q = (v + j) % len;
    let t = (v + j) / len;
    lemma_fundamental_div_mod(v + j, len);
    assert(q - v == (-t) * len + j) by (nonlinear_arith)
        requires
            v + j == len * t + q,
    ;
    lemma_fundamental_div_mod_converse_mod(q - v, len, -t, j);
    if (p - v) % len == j {
        let s = (p - v) / len;
        lemma_fundamental_div_mod(p - v, len);
        assert(v + j == (-s) * len + p) by (nonlinear_arith)
            requires
                p - v == len * s + j,
        ;
        lemma_fundamental_div_mod_converse_mod(v + j, len, -s, p);
    }
}

/// The framebuffer cell of the pixel that sprite row `j`, column `c` lands on,
/// drawn at `(vx, vy)`; that cell is the only one that row and column land on.
pub proof fn lemma_sprite_cell(vx: u8, vy: u8, j: int, c: int)
    requires
        0 <= j < CHIP8_HEIGHT,
        0 <= c < 8,
    ensures
        ({
            let py = (vy + j) % (CHIP8_HEIGHT as int);
            let px = (vx + c) % (CHIP8_WIDTH as int);
            let k = py * CHIP8_WIDTH + px;
            &&& 0 <= px < CHIP8_WIDTH
            &&& 0 <= py < CHIP8_HEIGHT
            &&& 0 <= k < SCREEN_SIZE
            &&& k % (CHIP8_WIDTH as int) == px
            &&& k / (CHIP8_WIDTH as int) == py
            &&& row_of(vy, py) == j
            &&& col_of(vx, px) == c
            &&& forall|k2: int|
                0 <= k2 < SCREEN_SIZE && #[trigger] row_of(vy, k2 / (CHIP8_WIDTH as int)) == j
                    && #[trigger] col_of(vx, k2 % (CHIP8_WIDTH as int)) == c ==> k2 == k
        }),
{
    let w = CHIP8_WIDTH as int;
    let h = CHIP8_HEIGHT as int;
    let py = (vy + j) % h;
    let px = (vx + c) % w;
    let k = py * w + px;
    lemma_mod_bound(vy + j, h);
    lemma_mod_bound(vx + c, w);
    lemma_fundamental_div_mod_converse(k, w, py, px);
    lemma_wrap_offset(py, vy as int, j, h);
    lemma_wrap_offset(px, vx as int, c, w);
    assert forall|k2: int|
        0 <= k2 < SCREEN_SIZE && #[trigger] row_of(vy, k2 / w) == j && #[trigger] col_of(vx, k2 % w)
            == c implies k2 == k by {
        lemma_fundamental_div_mod(k2, w);
        lemma_mod_bound(k2, w);
        lemma_div_pos_is_pos(k2, w);
        lemma_div_is_ordered(k2, SCREEN_SIZE as int, w);
        lemma_wrap_offset(k2 / w, vy as int, j, h);
        lemma_wrap_offset(k2 % w, vx as int, c, w);
    }
}

/// Whether drawing turns off a pixel that was on.
pub open spec fn collides(m: Machine, vx: u8, vy: u8, n: int) -> bool {
    exists|k: int| 0 <= k < SCREEN_SIZE && #[trigger] covers_cell(m, vx, vy, n, k) && m.screen[k]
}

/// The framebuffer after XOR-ing the sprite onto it.
pub open spec fn drawn_screen(m: Machine, vx: u8, vy: u8, n: int) -> Seq<bool> {
    Seq::new(SCREEN_SIZE as nat, |k: int| m.screen[k] != covers_cell(m, vx, vy, n, k))
}

/// Sprite draw at `(Vx, Vy)` with `n` rows; VF reports a collision. The
/// coordinates are read from `Vx` and `Vy` before VF is written, so a draw
/// whose coordinate register is VF uses the value VF held before the draw.
pub open spec fn draw_sprite(m: Machine, x: int, y: int, n: int) -> Machine {
    let vx = m.v[x];
    let vy = m.v[y];
    Machine {
        screen: drawn_screen(m, vx, vy, n),
        v: m.v.update(VF as int, flag(collides(m, vx, vy, n))),
        ..m
    }
}

/// Memory with `Vx` written as three decimal digits at `I`, `I+1`, `I+2`.
pub open spec fn bcd_ram(m: Machine, x: int) -> Seq<u8> {
    let val = m.v[x];
    m.ram.update(m.i as int, val / 100).update(m.i + 1, val % 100 / 10).update(m.i + 2, val % 10)
}

/// Memory with registers `V0..=Vx` stored from `I` on.
pub open spec fn spill_ram(m: Machine, x: int) -> Seq<u8> {
    Seq::new(m.ram.len(), |a: int| if m.i <= a <= m.i + x { m.v[a - m.i] } else { m.ram[a] })
}

/// Registers with `V0..=Vx` loaded from memory at `I`.
pub open spec fn fill_regs(m: Machine, x: int) -> Seq<u8> {
    Seq::new(m.v.len(), |r: int| if r <= x { m.ram[m.i + r] } else { m.v[r] })
}

/// What executing one instruction does, given the random byte that `RND`
/// would draw. The program counter has already been advanced past the
/// instruction, unless it is a jump, call or return. A fault leaves the
/// machine as it was.
pub open spec fn exec_spec(m: Machine, instr: Instr, rnd: u8) -> Result<Machine, ExecError> {
    match instr {
        Instr::LD(x, mode) => match mode {
            LDMode::Imm8(kk) => Ok(m.with_reg(x as int, kk)),
            LDMode::Imm12(nnn) => Ok(m.with_i(nnn)),
            LDMode::Reg(y) => Ok(m.with_reg(x as int, m.v[y as int])),
            LDMode::FromDT => Ok(m.with_reg(x as int, m.dt)),
            LDMode::DT => Ok(Machine { dt: m.v[x as int], ..m }),
            LDMode::ST => Ok(Machine { st: m.v[x as int], ..m }),
            LDMode::K => Ok(Machine { waiting: Some(x), ..m }),
            LDMode::F => Ok(m.with_i((DIGITS_LOC + 5 * m.v[x as int]) as u16)),
            LDMode::B => if m.i + 3 <= MEMORY_SIZE {
                Ok(Machine { ram: bcd_ram(m, x as int), ..m })
            } else {
                Err(ExecError::MemoryOutOfRange)
            },
            LDMode::ToI => if m.i + x + 1 <= MEMORY_SIZE {
                Ok(Machine { ram: spill_ram(m, x as int), ..m })
            } else {
                Err(ExecError::MemoryOutOfRange)
            },
            LDMode::FromI => if m.i + x + 1 <= MEMORY_SIZE {
                Ok(m.with_v(fill_regs(m, x as int)))
            } else {
                Err(ExecError::MemoryOutOfRange)
            },
        },
        Instr::ADD(x, mode) => match mode {
            ADDMode::Imm8(kk) => Ok(m.with_reg(x as int, ((m.v[x as int] + kk) % 256) as u8)),
            ADDMode::ToI => Ok(m.with_i(((m.i + m.v[x as int]) % 0x10000) as u16)),
            ADDMode::Reg(y) => Ok(add_regs(m, x as int, y as int)),
        },
        Instr::SUB(x, y) => Ok(sub_regs(m, x as int, x as int, y as int)),
        Instr::SUBN(x, y) => Ok(sub_regs(m, x as int, y as int, x as int)),
        Instr::OR(x, y) => Ok(m.with_reg(x as int, m.v[x as int] | m.v[y as int])),
        Instr::AND(x, y) => Ok(m.with_reg(x as int, m.v[x as int] & m.v[y as int])),
        Instr::XOR(x, y) => Ok(m.with_reg(x as int, m.v[x as int] ^ m.v[y as int])),
        Instr::SHR(x) => Ok(shift_right(m, x as int)),
        Instr::SHL(x) => Ok(shift_left(m, x as int)),
        Instr::RND(x, kk) => Ok(m.with_reg(x as int, rnd & kk)),
        Instr::RET => if m.stack.len() == 0 {
            Err(ExecError::StackUnderflow)
        } else {
            Ok(Machine { pc: m.stack.last(), stack: m.stack.drop_last(), ..m })
        },
        Instr::JP(nnn, JPMode::NoOffset) => Ok(m.with_pc(nnn)),
        Instr::JP(nnn, JPMode::Offset) => Ok(m.with_pc((nnn + m.v[0]) as u16)),
        Instr::CALL(nnn) => if m.stack.len() >= STACK_CAPACITY {
            Err(ExecError::StackOverflow)
        } else {
            Ok(Machine { pc: nnn, stack: m.stack.push(next_addr(m.pc)), ..m })
        },
        Instr::SKP(x) => if m.v[x as int] >= 16 {
            Err(ExecError::KeyOutOfRange)
        } else {
            Ok(skip_if(m, m.keys[m.v[x as int] as int]))
        },
        Instr::SKNP(x) => if m.v[x as int] >= 16 {
            Err(ExecError::KeyOutOfRange)
        } else {
            Ok(skip_if(m, !m.keys[m.v[x as int] as int]))
        },
        Instr::SE(x, SEMode::Imm8(kk)) => Ok(skip_if(m, m.v[x as int] == kk)),
        Instr::SE(x, SEMode::Reg(y)) => Ok(skip_if(m, m.v[x as int] == m.v[y as int])),
        Instr::SNE(x, SEMode::Imm8(kk)) => Ok(skip_if(m, m.v[x as int] != kk)),
        Instr::SNE(x, SEMode::Reg(y)) => Ok(skip_if(m, m.v[x as int] != m.v[y as int])),
        Instr::DRW(x, y, n) => if n == 0 || m.i + n <= MEMORY_SIZE {
            Ok(draw_sprite(m, x as int, y as int, n as int))
        } else {
            Err(ExecError::MemoryOutOfRange)
        },
        Instr::SYS(_) => Ok(m),
        Instr::CLS => Ok(Machine { screen: Seq::new(SCREEN_SIZE as nat, |k: int| false), ..m }),
    }
}

/// The machine after one instruction: the new state, or the old one on a fault.
pub open spec fn exec_state(m: Machine, instr: Instr, rnd: u8) -> Machine {
    match exec_spec(m, instr, rnd) {
        Ok(m2) => m2,
        Err(_) => m,
    }
}

/// Whether one instruction runs, or the fault it raises.
pub open spec fn exec_status(m: Machine, instr: Instr, rnd: u8) -> Result<(), ExecError> {
    match exec_spec(m, instr, rnd) {
        Ok(_) => Ok(()),
        Err(e) => Err(e),
    }
}

/// Why the driver halted.
#[derive(Clone, Copy, Debug, PartialEq, Eq, Structural)]
pub enum Fault {
    /// The program counter points where no whole instruction can be fetched.
    PcOutOfRange { addr: u16 },
    /// The word at `addr` is no instruction.
    InvalidInstruction { addr: u16, opcode: u16 },
    /// The instruction at `addr` faulted.
    Exec { addr: u16, opcode: u16, error: ExecError },
}

/// The big-endian instruction word at `addr`.
pub open spec fn opcode_at(m: Machine, addr: int) -> u16 {
    (m.ram[addr] * 256 + m.ram[addr + 1]) as u16
}

/// The keypad after a key transition, if there was one.
pub open spec fn press(m: Machine, event: Option<(u8, bool)>) -> Machine {
    match event {
        Some((k, pressed)) => Machine { keys: m.keys.update(k as int, pressed), ..m },
        None => m,
    }
}

/// One iteration of the driver, given the key transition seen by this
/// iteration's poll and the byte that `RND` would draw. While a key-wait
/// instruction waits, an iteration only polls, and a key press ends the wait.
/// Otherwise it fetches and decodes the instruction at the program counter,
/// advances the counter unless the instruction sets it, folds in the key
/// transition and executes. Gives the state after the iteration and whether
/// the driver halts.
pub open spec fn step_spec(m: Machine, event: Option<(u8, bool)>, rnd: u8) -> (
    Machine,
    Result<(), Fault>,
) {
    match m.waiting {
        Some(x) => {
            let m1 = press(m, event);
            match event {
                Some((k, true)) => (Machine { waiting: None, ..m1.with_reg(x as int, k) }, Ok(())),
                _ => (m1, Ok(())),
            }
        },
        None => {
            let addr = m.pc;
            if addr + 1 >= MEMORY_SIZE {
                (m, Err(Fault::PcOutOfRange { addr }))
            } else {
                let opcode = opcode_at(m, addr as int);
                match crate::decode::decode(opcode) {
                    None => (m, Err(Fault::InvalidInstruction { addr, opcode })),
                    Some(instr) => {
                        let m1 = if instr.sets_pc() {
                            m
                        } else {
                            m.with_pc((addr + 2) as u16)
                        };
                        let m2 = press(m1, event);
                        match exec_spec(m2, instr, rnd) {
                            Ok(m3) => (m3, Ok(())),
                            Err(error) => (m2, Err(Fault::Exec { addr, opcode, error })),
                        }
                    },
                }
            }
        },
    }
}

/// The machine after one driver iteration per polled event in `events`, with
/// `rnd` as the byte that `RND` would draw; a fault leaves the state where
/// that iteration put it.
pub open spec fn run_steps(m: Machine, events: Seq<Option<(u8, bool)>>, rnd: u8) -> Machine
    decreases events.len(),
{
    if events.len() == 0 {
        m
    } else {
        run_steps(step_spec(m, events[0], rnd).0, events.drop_first(), rnd)
    }
}

/// A timer after one 60 Hz tick: one less, but never below zero.
pub open spec fn tick(t: u8) -> u8 {
    if t > 0 {
        (t - 1) as u8
    } else {
        0
    }
}

/// A timer after `k` ticks.
pub open spec fn ticks(t: u8, k: nat) -> u8
    decreases k,
{
    if k == 0 {
        t
    } else {
        tick(ticks(t, (k - 1) as nat))
    }
}

} // verus!
