//! The machine: its state, program loading, and the execution engine.
use vstd::arithmetic::div_mod::lemma_fundamental_div_mod_converse_mod;
use vstd::prelude::*;

use rand::rngs::ThreadRng;

use crate::decode::parse_instr;
use crate::enums::{ADDMode, Instr, JPMode, LDMode, SEMode};
use crate::keypad::{get_key, key_of};
use crate::rng::{new_rng, random_byte};
use crate::semantics::{
    bcd_ram, col_of, collides, covers_cell, draw_sprite, drawn_screen, exec_state, exec_status,
    fill_regs, flag, font, lemma_sprite_cell, opcode_at, press, row_of, skip_if, spill_ram,
    step_spec, sub_regs, tick, ExecError, Fault, Machine, CHIP8_HEIGHT, CHIP8_WIDTH, DIGITS_LOC,
    FONT_SIZE, MEMORY_SIZE, PROGRAM_START, SCREEN_SIZE, STACK_CAPACITY, VF,
};

verus! {

/// A program image that does not fit between the load address and the end of
/// memory.
#[derive(Clone, Copy, Debug, PartialEq, Eq, Structural)]
pub enum LoadError {
    ProgramTooLarge { len: usize },
}

/// The largest program image that can be loaded.
pub const MAX_PROGRAM_SIZE: usize = 0xE00;

/// A sum of two values below `modulus` wraps by subtracting it once.
proof fn lemma_wrap_sum(sum: int, modulus: int)
    requires
        0 <= sum < 2 * modulus,
    ensures
        sum % modulus == if sum >= modulus {
            sum - modulus
        } else {
            sum
        },
{
    if sum >= modulus {
        lemma_fundamental_div_mod_converse_mod(sum, modulus, 1, sum - modulus);
    } else {
        lemma_fundamental_div_mod_converse_mod(sum, modulus, 0, sum);
    }
}

/// The keypad transition of a polled input event: the key that its host key
/// name stands for, and whether it went down.
pub open spec fn key_event(event: Option<(String, bool)>) -> Option<(u8, bool)> {
    match event {
        Some((name, pressed)) => match key_of(name@) {
            Some(k) => Some((k, pressed)),
            None => None,
        },
        None => None,
    }
}

/// A CHIP-8 machine with a loaded program.
pub struct Chip8 {
    rng: ThreadRng,
    ram: Vec<u8>,
    v: [u8; 16],
    stack: Vec<u16>,
    pc: u16,
    i: u16,
    dt: u8,
    st: u8,
    keyboard: [bool; 16],
    screen: Vec<bool>,
    waiting: Option<usize>,
}

impl View for Chip8 {
    type V = Machine;

    closed spec fn view(&self) -> Machine {
        Machine {
            ram: self.ram@,
            v: self.v@,
            stack: self.stack@,
            pc: self.pc,
            i: self.i,
            dt: self.dt,
            st: self.st,
            keys: self.keyboard@,
            screen: self.screen@,
            waiting: self.waiting,
        }
    }
}

/// A fresh machine with `program` loaded: the font at its fixed address, the
/// image at the load address, everything else zero, off or empty, and the
/// program counter at the load address.
pub open spec fn initial(program: Seq<u8>) -> Machine {
    Machine {
        ram: Seq::new(
            MEMORY_SIZE as nat,
            |a: int|
                if a < FONT_SIZE {
                    font()[a]
                } else if PROGRAM_START <= a < PROGRAM_START + program.len() {
                    program[a - PROGRAM_START]
                } else {
                    0u8
                },
        ),
        v: Seq::new(16, |r: int| 0u8),
        stack: Seq::empty(),
        pc: PROGRAM_START,
        i: 0,
        dt: 0,
        st: 0,
        keys: Seq::new(16, |k: int| false),
        screen: Seq::new(SCREEN_SIZE as nat, |k: int| false),
        waiting: None,
    }
}

fn font_bytes() -> (r: [u8; 80])
    ensures
        r@ == font(),
{
    let r: [u8; 80] = [
        0xF0, 0x90, 0x90, 0x90, 0xF0, 0x20, 0x60, 0x20, 0x20, 0x70, 0xF0, 0x10, 0xF0, 0x80, 0xF0,
        0xF0, 0x10, 0xF0, 0x10, 0xF0, 0x90, 0x90, 0xF0, 0x10, 0x10, 0xF0, 0x80, 0xF0, 0x10, 0xF0,
        0xF0, 0x80, 0xF0, 0x90, 0xF0, 0xF0, 0x10, 0x20, 0x40, 0x40, 0xF0, 0x90, 0xF0, 0x90, 0xF0,
        0xF0, 0x90, 0xF0, 0x10, 0xF0, 0xF0, 0x90, 0xF0, 0x90, 0x90, 0xE0, 0x90, 0xE0, 0x90, 0xE0,
        0xF0, 0x80, 0x80, 0x80, 0xF0, 0xE0, 0x90, 0x90, 0x90, 0xE0, 0xF0, 0x80, 0xF0, 0x80, 0xF0,
        0xF0, 0x80, 0xF0, 0x80, 0x80,
    ];
    assert(r@ =~= font());
    r
}

impl Chip8 {
    /// Loads a program image into a fresh machine. Fails exactly when the
    /// image is longer than the memory above the load address.
    pub fn new(program: &[u8]) -> (r: Result<Chip8, LoadError>)
        ensures
            program@.len() <= MAX_PROGRAM_SIZE <==> r is Ok,
            r matches Ok(c) ==> c@ == initial(program@) && c@.wf(),
            r matches Err(e) ==> e == (LoadError::ProgramTooLarge { len: program@.len() as usize }),
    {
        if program.len() > MAX_PROGRAM_SIZE {
            return Err(LoadError::ProgramTooLarge { len: program.len() });
        }
        let mut ram: Vec<u8> = vec![0u8; MEMORY_SIZE];
        let digits = font_bytes();
        let base: usize = DIGITS_LOC as usize;
        for k in 0..FONT_SIZE
            invariant
                ram@.len() == MEMORY_SIZE,
                digits@ == font(),
                base == 0,
                forall|a: int| 0 <= a < k ==> ram@[a] == font()[a],
                forall|a: int| k <= a < MEMORY_SIZE ==> ram@[a] == 0u8,
        {
            ram[base + k] = digits[k];
        }
        let start: usize = PROGRAM_START as usize;
        for k in 0..program.len()
            invariant
                ram@.len() == MEMORY_SIZE,
                start == PROGRAM_START,
                program@.len() <= MAX_PROGRAM_SIZE,
                forall|a: int| 0 <= a < FONT_SIZE ==> ram@[a] == font()[a],
                forall|a: int| start <= a < start + k ==> ram@[a] == program@[a - start],
                forall|a: int|
                    #![trigger ram@[a]]
                    FONT_SIZE <= a < MEMORY_SIZE && !(start <= a < start + k) ==> ram@[a] == 0u8,
        {
            ram[start + k] = program[k];
        }
        let c = Chip8 {
            rng: new_rng(),
            ram,
            v: [0u8; 16],
            stack: Vec::new(),
            pc: PROGRAM_START,
            i: 0,
            dt: 0,
            st: 0,
            keyboard: [false; 16],
            screen: vec![false; SCREEN_SIZE],
            waiting: None,
        };
        assert(c@.ram =~= initial(program@).ram);
        assert(c@.v =~= initial(program@).v);
        assert(c@.keys =~= initial(program@).keys);
        assert(c@.screen =~= initial(program@).screen);
        assert(c@.stack =~= initial(program@).stack);
        Ok(c)
    }

    fn push(&mut self, val: u16) -> (r: Result<(), ExecError>)
        requires
            old(self)@.wf(),
        ensures
            old(self)@.stack.len() < STACK_CAPACITY ==> r is Ok && final(self)@ == (Machine {
                stack: old(self)@.stack.push(val),
                ..old(self)@
            }),
            old(self)@.stack.len() >= STACK_CAPACITY ==> r == Err::<(), ExecError>(
                ExecError::StackOverflow,
            ) && final(self)@ == old(self)@,
    {
        if self.stack.len() >= STACK_CAPACITY {
            return Err(ExecError::StackOverflow);
        }
        self.stack.push(val);
        Ok(())
    }

    fn pop(&mut self) -> (r: Result<u16, ExecError>)
        requires
            old(self)@.wf(),
        ensures
            old(self)@.stack.len() > 0 ==> r == Ok::<u16, ExecError>(old(self)@.stack.last())
                && final(self)@ == (Machine { stack: old(self)@.stack.drop_last(), ..old(self)@ }),
            old(self)@.stack.len() == 0 ==> r == Err::<u16, ExecError>(ExecError::StackUnderflow)
                && final(self)@ == old(self)@,
    {
        match self.stack.pop() {
            Some(addr) => Ok(addr),
            None => Err(ExecError::StackUnderflow),
        }
    }

    /// Skips the next instruction when `expr` holds.
    fn skip(&mut self, expr: bool)
        ensures
            final(self)@ == skip_if(old(self)@, expr),
    {
        if expr {
            self.pc = self.pc.wrapping_add(2);
        }
    }

    /// Sets `V[x]` to `V[a] - V[b]`, and sets VF where no borrow occurs.
    fn sub(&mut self, x: usize, a: usize, b: usize)
        requires
            old(self)@.wf(),
            x < 16,
            a < 16,
            b < 16,
        ensures
            final(self)@ == sub_regs(old(self)@, x as int, a as int, b as int),
    {
        let va = self.v[a];
        let vb = self.v[b];
        self.v[x] = va.wrapping_sub(vb);
        self.v[VF] = if va >= vb {
            1
        } else {
            0
        };
        assert(self@.v =~= sub_regs(old(self)@, x as int, a as int, b as int).v);
    }

    /// XORs the `n`-row sprite at the index register onto the screen at
    /// `(V[x], V[y])`, wrapping around the edges, and sets VF where a pixel
    /// that was on is turned off.
    fn draw(&mut self, x: usize, y: usize, n: usize)
        requires
            old(self)@.wf(),
            x < 16,
            y < 16,
            n < 16,
            n == 0 || old(self)@.i + n <= MEMORY_SIZE,
        ensures
            final(self)@ == draw_sprite(old(self)@, x as int, y as int, n as int),
    {
        let ghost m = self@;
        let vx = self.v[x];
        let vy = self.v[y];
        let base = self.i as usize;
        let mut collided = false;
        for j in 0..n
            invariant
                self@ == (Machine { screen: self@.screen, ..m }),
                m.wf(),
                n < 16,
                base == m.i,
                n == 0 || base + n <= MEMORY_SIZE,
                vx == m.v[x as int],
                vy == m.v[y as int],
                self@.screen.len() == SCREEN_SIZE,
                forall|k: int|
                    #![trigger self@.screen[k]]
                    0 <= k < SCREEN_SIZE ==> self@.screen[k] == (m.screen[k] != (covers_cell(
                        m,
                        vx,
                        vy,
                        n as int,
                        k,
                    ) && row_of(vy, k / (CHIP8_WIDTH as int)) < j)),
                collided == exists|k: int|
                    0 <= k < SCREEN_SIZE && #[trigger] covers_cell(m, vx, vy, n as int, k) && row_of(
                        vy,
                        k / (CHIP8_WIDTH as int),
                    ) < j && m.screen[k],
        {
            let py = (vy as usize + j) % CHIP8_HEIGHT;
            let val = self.ram[base + j];
            for c in 0..8u8
                invariant
                    self@ == (Machine { screen: self@.screen, ..m }),
                    m.wf(),
                    n < 16,
                    j < n,
                    base == m.i,
                    val == m.ram[m.i + j],
                    py == (vy + j) % (CHIP8_HEIGHT as int),
                    vx == m.v[x as int],
                    vy == m.v[y as int],
                    self@.screen.len() == SCREEN_SIZE,
                    forall|k: int|
                        #![trigger self@.screen[k]]
                        0 <= k < SCREEN_SIZE ==> self@.screen[k] == (m.screen[k] != (covers_cell(
                            m,
                            vx,
                            vy,
                            n as int,
                            k,
                        ) && (row_of(vy, k / (CHIP8_WIDTH as int)) < j || (row_of(
                            vy,
                            k / (CHIP8_WIDTH as int),
                        ) == j && col_of(vx, k % (CHIP8_WIDTH as int)) < c)))),
                    collided == exists|k: int|
                        0 <= k < SCREEN_SIZE && #[trigger] covers_cell(m, vx, vy, n as int, k) && (
                        row_of(vy, k / (CHIP8_WIDTH as int)) < j || (row_of(
                            vy,
                            k / (CHIP8_WIDTH as int),
                        ) == j && col_of(vx, k % (CHIP8_WIDTH as int)) < c)) && m.screen[k],
            {
                let px = (vx as usize + c as usize) % CHIP8_WIDTH;
                let k = py * CHIP8_WIDTH + px;
                proof {
                    lemma_sprite_cell(vx, vy, j as int, c as int);
                }
                let bit = (val >> (7 - c)) & 1u8 == 1u8;
                assert(covers_cell(m, vx, vy, n as int, k as int) == bit);
                let old_pixel = self.screen[k];
                collided = collided || (bit && old_pixel);
                self.screen[k] = old_pixel != bit;
            }
        }
        self.v[VF] = if collided {
            1
        } else {
            0
        };
        proof {
            assert forall|k: int| 0 <= k < SCREEN_SIZE && #[trigger] covers_cell(
                m,
                vx,
                vy,
                n as int,
                k,
            ) implies row_of(vy, k / (CHIP8_WIDTH as int)) < n by {}
            assert(self@.screen =~= drawn_screen(m, vx, vy, n as int));
            assert(collided == collides(m, vx, vy, n as int));
            assert(self@.v =~= m.v.update(VF as int, flag(collided)));
        }
    }

    /// Stores `V[x]` as three decimal digits at `I`, `I+1` and `I+2`.
    fn store_bcd(&mut self, x: usize) -> (r: Result<(), ExecError>)
        requires
            old(self)@.wf(),
            x < 16,
        ensures
            r == exec_status(old(self)@, Instr::LD(x, LDMode::B), 0),
            final(self)@ == exec_state(old(self)@, Instr::LD(x, LDMode::B), 0),
    {
        let base = self.i as usize;
        if base + 3 > MEMORY_SIZE {
            return Err(ExecError::MemoryOutOfRange);
        }
        let val = self.v[x];
        self.ram[base] = val / 100;
        self.ram[base + 1] = val % 100 / 10;
        self.ram[base + 2] = val % 10;
        assert(self@.ram =~= bcd_ram(old(self)@, x as int));
        Ok(())
    }

    /// Stores registers `V0..=Vx` in memory from `I` on.
    fn store_regs(&mut self, x: usize) -> (r: Result<(), ExecError>)
        requires
            old(self)@.wf(),
            x < 16,
        ensures
            r == exec_status(old(self)@, Instr::LD(x, LDMode::ToI), 0),
            final(self)@ == exec_state(old(self)@, Instr::LD(x, LDMode::ToI), 0),
    {
        let ghost m = self@;
        let base = self.i as usize;
        if base + x + 1 > MEMORY_SIZE {
            return Err(ExecError::MemoryOutOfRange);
        }
        for r in 0..x + 1
            invariant
                self@ == (Machine { ram: self@.ram, ..m }),
                m.wf(),
                x < 16,
                base == m.i,
                base + x + 1 <= MEMORY_SIZE,
                self@.ram.len() == MEMORY_SIZE,
                forall|a: int|
                    #![trigger self@.ram[a]]
                    0 <= a < MEMORY_SIZE ==> self@.ram[a] == if base <= a < base + r {
                        m.v[a - base]
                    } else {
                        m.ram[a]
                    },
        {
            self.ram[base + r] = self.v[r];
        }
        assert(self@.ram =~= spill_ram(m, x as int));
        Ok(())
    }

    /// Loads registers `V0..=Vx` from memory at `I`.
    fn load_regs(&mut self, x: usize) -> (r: Result<(), ExecError>)
        requires
            old(self)@.wf(),
            x < 16,
        ensures
            r == exec_status(old(self)@, Instr::LD(x, LDMode::FromI), 0),
            final(self)@ == exec_state(old(self)@, Instr::LD(x, LDMode::FromI), 0),
    {
        let ghost m = self@;
        let base = self.i as usize;
        if base + x + 1 > MEMORY_SIZE {
            return Err(ExecError::MemoryOutOfRange);
        }
        for r in 0..x + 1
            invariant
                self@ == (Machine { v: self@.v, ..m }),
                m.wf(),
                x < 16,
                base == m.i,
                base + x + 1 <= MEMORY_SIZE,
                forall|q: int|
                    #![trigger self@.v[q]]
                    0 <= q < 16 ==> self@.v[q] == if q < r {
                        m.ram[base + q]
                    } else {
                        m.v[q]
                    },
        {
            self.v[r] = self.ram[base + r];
        }
        assert(self@.v =~= fill_regs(m, x as int));
        Ok(())
    }

    /// Loads and stores.
    fn exec_load(&mut self, instr: Instr) -> (r: Result<(), ExecError>)
        requires
            old(self)@.wf(),
            instr.wf(),
            instr is LD,
        ensures
            r == exec_status(old(self)@, instr, 0),
            final(self)@ == exec_state(old(self)@, instr, 0),
    {
        let ghost m = self@;
        if let Instr::LD(x, mode) = instr {
            match mode {
                LDMode::Imm8(kk) => self.v[x] = kk,
                LDMode::Imm12(nnn) => self.i = nnn,
                LDMode::Reg(y) => self.v[x] = self.v[y],
                LDMode::FromDT => self.v[x] = self.dt,
                LDMode::DT => self.dt = self.v[x],
                LDMode::ST => self.st = self.v[x],
                LDMode::K => self.waiting = Some(x),
                LDMode::F => self.i = DIGITS_LOC + 5 * self.v[x] as u16,
                LDMode::B => return self.store_bcd(x),
                LDMode::ToI => return self.store_regs(x),
                LDMode::FromI => return self.load_regs(x),
            }
        }
        assert(self@.v =~= exec_state(m, instr, 0).v);
        Ok(())
    }

    /// Additions.
    fn exec_add(&mut self, instr: Instr) -> (r: Result<(), ExecError>)
        requires
            old(self)@.wf(),
            instr.wf(),
            instr is ADD,
        ensures
            r == exec_status(old(self)@, instr, 0),
            final(self)@ == exec_state(old(self)@, instr, 0),
    {
        let ghost m = self@;
        match instr {
            Instr::ADD(x, ADDMode::Imm8(kk)) => {
                let vx = self.v[x];
                proof {
                    lemma_wrap_sum(vx + kk, 256);
                }
                self.v[x] = vx.wrapping_add(kk);
            },
            Instr::ADD(x, ADDMode::ToI) => {
                let vx = self.v[x] as u16;
                proof {
                    lemma_wrap_sum(self.i + vx, 0x10000);
                }
                self.i = self.i.wrapping_add(vx);
            },
            Instr::ADD(x, ADDMode::Reg(y)) => {
                let vx = self.v[x];
                let vy = self.v[y];
                proof {
                    lemma_wrap_sum(vx + vy, 256);
                }
                self.v[x] = vx.wrapping_add(vy);
                self.v[VF] = if vx as u16 + vy as u16 > 255 {
                    1
                } else {
                    0
                };
            },
            _ => {},
        }
        assert(self@.v =~= exec_state(m, instr, 0).v);
        Ok(())
    }

    /// Register arithmetic and logic.
    fn exec_alu(&mut self, instr: Instr, random: u8) -> (r: Result<(), ExecError>)
        requires
            old(self)@.wf(),
            instr.wf(),
            !(instr is LD) && !(instr is ADD) && !instr.sets_pc() && !(instr is SYS) && !(instr is SKP) && !(instr is SKNP) && !(instr is SE) && !(instr is SNE) && !(instr is DRW) && !(instr is CLS),
        ensures
            r == exec_status(old(self)@, instr, random),
            final(self)@ == exec_state(old(self)@, instr, random),
    {
        let ghost m = self@;
        match instr {
            Instr::SUB(x, y) => self.sub(x, x, y),
            Instr::SUBN(x, y) => self.sub(x, y, x),
            Instr::OR(x, y) => self.v[x] = self.v[x] | self.v[y],
            Instr::AND(x, y) => self.v[x] = self.v[x] & self.v[y],
            Instr::XOR(x, y) => self.v[x] = self.v[x] ^ self.v[y],
            Instr::SHR(x) => {
                self.v[VF] = self.v[x] % 2;
                self.v[x] = self.v[x] / 2;
            },
            Instr::SHL(x) => {
                self.v[VF] = self.v[x] / 128;
                self.v[x] = self.v[x].wrapping_mul(2);
            },
            Instr::RND(x, kk) => self.v[x] = random & kk,
            _ => {},
        }
        assert(self@.v =~= exec_state(m, instr, random).v);
        Ok(())
    }

    /// Jumps, calls, returns and conditional skips.
    fn exec_flow(&mut self, instr: Instr) -> (r: Result<(), ExecError>)
        requires
            old(self)@.wf(),
            instr.wf(),
            instr.sets_pc() || instr is SKP || instr is SKNP || instr is SE || instr is SNE,
        ensures
            r == exec_status(old(self)@, instr, 0),
            final(self)@ == exec_state(old(self)@, instr, 0),
    {
        match instr {
            Instr::RET => {
                let addr = self.pop()?;
                self.pc = addr;
            },
            Instr::JP(nnn, JPMode::NoOffset) => self.pc = nnn,
            Instr::JP(nnn, JPMode::Offset) => self.pc = nnn + self.v[0] as u16,
            Instr::CALL(nnn) => {
                let ret = self.pc.wrapping_add(2);
                self.push(ret)?;
                self.pc = nnn;
            },
            Instr::SKP(x) => {
                let key = self.v[x];
                if key >= 16 {
                    return Err(ExecError::KeyOutOfRange);
                }
                self.skip(self.keyboard[key as usize]);
            },
            Instr::SKNP(x) => {
                let key = self.v[x];
                if key >= 16 {
                    return Err(ExecError::KeyOutOfRange);
                }
                self.skip(!self.keyboard[key as usize]);
            },
            Instr::SE(x, SEMode::Imm8(kk)) => self.skip(self.v[x] == kk),
            Instr::SE(x, SEMode::Reg(y)) => self.skip(self.v[x] == self.v[y]),
            Instr::SNE(x, SEMode::Imm8(kk)) => self.skip(self.v[x] != kk),
            Instr::SNE(x, SEMode::Reg(y)) => self.skip(self.v[x] != self.v[y]),
            _ => {},
        }
        Ok(())
    }

    /// Applies one decoded instruction, with `random` as the byte that `RND`
    /// masks. The program counter is expected to point past the instruction
    /// already, unless it is a jump, call or return. On a fault the machine is
    /// left as it was.
    pub fn execute(&mut self, instr: Instr, random: u8) -> (r: Result<(), ExecError>)
        requires
            old(self)@.wf(),
            instr.wf(),
        ensures
            final(self)@.wf(),
            r == exec_status(old(self)@, instr, random),
            final(self)@ == exec_state(old(self)@, instr, random),
    {
        match instr {
            Instr::LD(_, _) => self.exec_load(instr),
            Instr::ADD(_, _) => self.exec_add(instr),
            Instr::DRW(x, y, n) => {
                if n > 0 && self.i as usize + n > MEMORY_SIZE {
                    return Err(ExecError::MemoryOutOfRange);
                }
                self.draw(x, y, n);
                Ok(())
            },
            Instr::SYS(_) => Ok(()),
            Instr::CLS => {
                self.screen = vec![false; SCREEN_SIZE];
                assert(self@.screen =~= Seq::new(SCREEN_SIZE as nat, |k: int| false));
                Ok(())
            },
            Instr::JP(_, _) | Instr::CALL(_) | Instr::RET | Instr::SKP(_) | Instr::SKNP(_)
            | Instr::SE(_, _) | Instr::SNE(_, _) => self.exec_flow(instr),
            _ => self.exec_alu(instr, random),
        }
    }

    /// Applies one decoded instruction, drawing the random byte of `RND`
    /// from the machine's generator. Whatever byte was drawn, the machine
    /// ends as `execute` leaves it for that byte.
    pub fn run_instr(&mut self, instr: Instr) -> (r: Result<(), ExecError>)
        requires
            old(self)@.wf(),
            instr.wf(),
        ensures
            final(self)@.wf(),
            exists|random: u8|
                r == exec_status(old(self)@, instr, random) && final(self)@
                    == exec_state(old(self)@, instr, random),
    {
        let random: u8 = match instr {
            Instr::RND(_, _) => random_byte(&mut self.rng),
            _ => 0,
        };
        self.execute(instr, random)
    }

    /// The big-endian instruction word at `addr`.
    pub fn fetch_instr(&self, addr: u16) -> (r: u16)
        requires
            self@.wf(),
            addr + 1 < MEMORY_SIZE,
        ensures
            r == opcode_at(self@, addr as int),
    {
        let a = addr as usize;
        self.ram[a] as u16 * 256 + self.ram[a + 1] as u16
    }

    /// Folds one polled input event, a host key name and whether it went
    /// down, into the keypad state. Keys outside the layout are ignored.
    /// Returns the keypad transition, if there was one.
    pub fn poll_keyboard(&mut self, event: Option<(String, bool)>) -> (r: Option<(u8, bool)>)
        requires
            old(self)@.wf(),
        ensures
            r == key_event(event),
            final(self)@ == press(old(self)@, r),
            final(self)@.wf(),
    {
        let (name, pressed) = match event {
            Some(e) => e,
            None => return None,
        };
        let key_val = match get_key(name.as_str()) {
            Some(k) => k,
            None => return None,
        };
        self.keyboard[key_val as usize] = pressed;
        Some((key_val, pressed))
    }

    /// Runs one iteration of the driver with the input event polled for it.
    /// An error means the driver halts; it names the address and the word of
    /// the instruction at fault. Whatever byte the random source gave, the
    /// machine ends as `step_spec` says for that byte.
    pub fn step(&mut self, event: Option<(String, bool)>) -> (r: Result<(), Fault>)
        requires
            old(self)@.wf(),
        ensures
            final(self)@.wf(),
            exists|random: u8|
                (final(self)@, r) == step_spec(old(self)@, key_event(event), random),
    {
        if let Some(x) = self.waiting {
            if let Some((key_val, true)) = self.poll_keyboard(event) {
                self.v[x] = key_val;
                self.waiting = None;
            }
            proof {
                let m = step_spec(old(self)@, key_event(event), 0).0;
                assert(self@.v =~= m.v);
                assert(step_spec(old(self)@, key_event(event), 0) == (self@, Ok::<(), Fault>(())));
            }
            return Ok(());
        }
        let addr = self.pc;
        if addr as usize + 1 >= MEMORY_SIZE {
            let r = Err(Fault::PcOutOfRange { addr });
            assert(step_spec(old(self)@, key_event(event), 0) == (self@, r));
            return r;
        }
        let opcode = self.fetch_instr(addr);
        let instr = match parse_instr(opcode) {
            Ok(i) => i,
            Err(_) => {
                let r = Err(Fault::InvalidInstruction { addr, opcode });
                assert(step_spec(old(self)@, key_event(event), 0) == (self@, r));
                return r;
            },
        };
        match instr {
            Instr::JP(_, _) | Instr::CALL(_) | Instr::RET => {},
            _ => self.pc = addr + 2,
        }
        self.poll_keyboard(event);
        let ghost before = self@;
        let result = self.run_instr(instr);
        let r = match result {
            Ok(()) => Ok(()),
            Err(error) => Err(Fault::Exec { addr, opcode, error }),
        };
        proof {
            let random = choose|random: u8|
                result == exec_status(before, instr, random) && self@ == exec_state(
                    before,
                    instr,
                    random,
                );
            assert(step_spec(old(self)@, key_event(event), random) == (self@, r));
        }
        r
    }

    /// One 60 Hz tick: the delay and sound timers each count down by one
    /// unless already zero.
    pub fn tick_timers(&mut self)
        requires
            old(self)@.wf(),
        ensures
            final(self)@ == (Machine { dt: tick(old(self)@.dt), st: tick(old(self)@.st), ..old(self)@ }),
    {
        if self.dt > 0 {
            self.dt = self.dt - 1;
        }
        if self.st > 0 {
            self.st = self.st - 1;
        }
    }

    pub fn pc(&self) -> (r: u16)
        ensures
            r == self@.pc,
    {
        self.pc
    }

    /// The index register.
    pub fn index(&self) -> (r: u16)
        ensures
            r == self@.i,
    {
        self.i
    }

    /// The general register `Vx`.
    pub fn register(&self, x: usize) -> (r: u8)
        requires
            x < 16,
        ensures
            r == self@.v[x as int],
    {
        self.v[x]
    }

    /// The memory byte at `addr`.
    pub fn memory(&self, addr: usize) -> (r: u8)
        requires
            self@.wf(),
            addr < MEMORY_SIZE,
        ensures
            r == self@.ram[addr as int],
    {
        self.ram[addr]
    }

    pub fn delay_timer(&self) -> (r: u8)
        ensures
            r == self@.dt,
    {
        self.dt
    }

    pub fn sound_timer(&self) -> (r: u8)
        ensures
            r == self@.st,
    {
        self.st
    }

    /// Return addresses on the call stack.
    pub fn stack_depth(&self) -> (r: usize)
        ensures
            r == self@.stack.len(),
    {
        self.stack.len()
    }

    /// Whether keypad key `k` is down.
    pub fn key_pressed(&self, k: usize) -> (r: bool)
        requires
            k < 16,
        ensures
            r == self@.keys[k as int],
    {
        self.keyboard[k]
    }

    /// Whether a key-wait instruction is waiting for a key press.
    pub fn is_waiting(&self) -> (r: bool)
        ensures
            r == self@.waiting is Some,
    {
        self.waiting.is_some()
    }

    /// The pixel at column `x` and row `y`.
    pub fn pixel(&self, x: usize, y: usize) -> (r: bool)
        requires
            self@.wf(),
            x < CHIP8_WIDTH,
            y < CHIP8_HEIGHT,
        ensures
            r == self@.pixel(x as int, y as int),
    {
        self.screen[y * CHIP8_WIDTH + x]
    }

    /// The framebuffer, row after row.
    pub fn screen(&self) -> (r: &[bool])
        ensures
            r@ == self@.screen,
    {
        self.screen.as_slice()
    }
}

} // verus!
