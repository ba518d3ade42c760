//! The instruction decoder: a 16-bit word to a tagged instruction.
use vstd::prelude::*;

use crate::enums::{ADDMode, Instr, JPMode, LDMode, SEMode};

verus! {

/// A word that matches none of the recognised instruction shapes.
#[derive(Clone, Copy, Debug, PartialEq, Eq, Structural)]
pub struct InvalidInstruction {
    pub opcode: u16,
}

/// The `k`-th nibble of a word, counted from the most significant one.
pub open spec fn nibble(op: u16, k: int) -> int {
    let w = op as int;
    if k == 0 {
        w / 0x1000
    } else if k == 1 {
        w / 0x100 % 0x10
    } else if k == 2 {
        w / 0x10 % 0x10
    } else {
        w % 0x10
    }
}

/// What a word decodes to, by its four nibbles, or `None` where it matches no
/// shape. `x` and `y` are the second and third nibbles, `n` the fourth, `kk`
/// the low byte and `nnn` the low twelve bits.
pub open spec fn decode(op: u16) -> Option<Instr> {
    let a = nibble(op, 0);
    let x = nibble(op, 1) as usize;
    let y = nibble(op, 2) as usize;
    let n = nibble(op, 3);
    let kk = (op % 0x100) as u8;
    let nnn = (op % 0x1000) as u16;
    if op == 0x00E0 {
        Some(Instr::CLS)
    } else if op == 0x00EE {
        Some(Instr::RET)
    } else if a == 0x0 {
        Some(Instr::SYS(nnn))
    } else if a == 0x1 {
        Some(Instr::JP(nnn, JPMode::NoOffset))
    } else if a == 0x2 {
        Some(Instr::CALL(nnn))
    } else if a == 0x3 {
        Some(Instr::SE(x, SEMode::Imm8(kk)))
    } else if a == 0x4 {
        Some(Instr::SNE(x, SEMode::Imm8(kk)))
    } else if a == 0x5 && n == 0 {
        Some(Instr::SE(x, SEMode::Reg(y)))
    } else if a == 0x6 {
        Some(Instr::LD(x, LDMode::Imm8(kk)))
    } else if a == 0x7 {
        Some(Instr::ADD(x, ADDMode::Imm8(kk)))
    } else if a == 0x8 && n == 0x0 {
        Some(Instr::LD(x, LDMode::Reg(y)))
    } else if a == 0x8 && n == 0x1 {
        Some(Instr::OR(x, y))
    } else if a == 0x8 && n == 0x2 {
        Some(Instr::AND(x, y))
    } else if a == 0x8 && n == 0x3 {
        Some(Instr::XOR(x, y))
    } else if a == 0x8 && n == 0x4 {
        Some(Instr::ADD(x, ADDMode::Reg(y)))
    } else if a == 0x8 && n == 0x5 {
        Some(Instr::SUB(x, y))
    } else if a == 0x8 && n == 0x6 {
        Some(Instr::SHR(x))
    } else if a == 0x8 && n == 0x7 {
        Some(Instr::SUBN(x, y))
    } else if a == 0x8 && n == 0xE {
        Some(Instr::SHL(x))
    } else if a == 0x9 && n == 0 {
        Some(Instr::SNE(x, SEMode::Reg(y)))
    } else if a == 0xA {
        Some(Instr::LD(0, LDMode::Imm12(nnn)))
    } else if a == 0xB {
        Some(Instr::JP(nnn, JPMode::Offset))
    } else if a == 0xC {
        Some(Instr::RND(x, kk))
    } else if a == 0xD {
        Some(Instr::DRW(x, y, n as usize))
    } else if a == 0xE && op % 0x100 == 0x9E {
        Some(Instr::SKP(x))
    } else if a == 0xE && op % 0x100 == 0xA1 {
        Some(Instr::SKNP(x))
    } else if a == 0xF && op % 0x100 == 0x07 {
        Some(Instr::LD(x, LDMode::FromDT))
    } else if a == 0xF && op % 0x100 == 0x0A {
        Some(Instr::LD(x, LDMode::K))
    } else if a == 0xF && op % 0x100 == 0x15 {
        Some(Instr::LD(x, LDMode::DT))
    } else if a == 0xF && op % 0x100 == 0x18 {
        Some(Instr::LD(x, LDMode::ST))
    } else if a == 0xF && op % 0x100 == 0x1E {
        Some(Instr::ADD(x, ADDMode::ToI))
    } else if a == 0xF && op % 0x100 == 0x29 {
        Some(Instr::LD(x, LDMode::F))
    } else if a == 0xF && op % 0x100 == 0x33 {
        Some(Instr::LD(x, LDMode::B))
    } else if a == 0xF && op % 0x100 == 0x55 {
        Some(Instr::LD(x, LDMode::ToI))
    } else if a == 0xF && op % 0x100 == 0x65 {
        Some(Instr::LD(x, LDMode::FromI))
    } else {
        None
    }
}

/// Decodes one instruction word. Total and free of side effects: every word
/// either decodes to the instruction `decode` gives, which is well formed, or
/// is rejected with the word itself.
pub fn parse_instr(instr: u16) -> (r: Result<Instr, InvalidInstruction>)
    ensures
        match decode(instr) {
            Some(i) => r == Ok::<Instr, InvalidInstruction>(i),
            None => r == Err::<Instr, InvalidInstruction>(InvalidInstruction { opcode: instr }),
        },
        r is Ok ==> r->Ok_0.wf(),
{
    let a: u16 = instr / 0x1000;
    let x: usize = (instr / 0x100 % 0x10) as usize;
    let y: usize = (instr / 0x10 % 0x10) as usize;
    let n: u16 = instr % 0x10;
    let low: u16 = instr % 0x100;
    let kk: u8 = low as u8;
    let nnn: u16 = instr % 0x1000;
    let parsed = if instr == 0x00E0 {
        Instr::CLS
    } else if instr == 0x00EE {
        Instr::RET
    } else if a == 0x0 {
        Instr::SYS(nnn)
    } else if a == 0x1 {
        Instr::JP(nnn, JPMode::NoOffset)
    } else if a == 0x2 {
        Instr::CALL(nnn)
    } else if a == 0x3 {
        Instr::SE(x, SEMode::Imm8(kk))
    } else if a == 0x4 {
        Instr::SNE(x, SEMode::Imm8(kk))
    } else if a == 0x5 && n == 0 {
        Instr::SE(x, SEMode::Reg(y))
    } else if a == 0x6 {
        Instr::LD(x, LDMode::Imm8(kk))
    } else if a == 0x7 {
        Instr::ADD(x, ADDMode::Imm8(kk))
    } else if a == 0x8 && n == 0x0 {
        Instr::LD(x, LDMode::Reg(y))
    } else if a == 0x8 && n == 0x1 {
        Instr::OR(x, y)
    } else if a == 0x8 && n == 0x2 {
        Instr::AND(x, y)
    } else if a == 0x8 && n == 0x3 {
        Instr::XOR(x, y)
    } else if a == 0x8 && n == 0x4 {
        Instr::ADD(x, ADDMode::Reg(y))
    } else if a == 0x8 && n == 0x5 {
        Instr::SUB(x, y)
    } else if a == 0x8 && n == 0x6 {
        Instr::SHR(x)
    } else if a == 0x8 && n == 0x7 {
        Instr::SUBN(x, y)
    } else if a == 0x8 && n == 0xE {
        Instr::SHL(x)
    } else if a == 0x9 && n == 0 {
        Instr::SNE(x, SEMode::Reg(y))
    } else if a == 0xA {
        Instr::LD(0, LDMode::Imm12(nnn))
    } else if a == 0xB {
        Instr::JP(nnn, JPMode::Offset)
    } else if a == 0xC {
        Instr::RND(x, kk)
    } else if a == 0xD {
        Instr::DRW(x, y, n as usize)
    } else if a == 0xE && low == 0x9E {
        Instr::SKP(x)
    } else if a == 0xE && low == 0xA1 {
        Instr::SKNP(x)
    } else if a == 0xF && low == 0x07 {
        Instr::LD(x, LDMode::FromDT)
    } else if a == 0xF && low == 0x0A {
        Instr::LD(x, LDMode::K)
    } else if a == 0xF && low == 0x15 {
        Instr::LD(x, LDMode::DT)
    } else if a == 0xF && low == 0x18 {
        Instr::LD(x, LDMode::ST)
    } else if a == 0xF && low == 0x1E {
        Instr::ADD(x, ADDMode::ToI)
    } else if a == 0xF && low == 0x29 {
        Instr::LD(x, LDMode::F)
    } else if a == 0xF && low == 0x33 {
        Instr::LD(x, LDMode::B)
    } else if a == 0xF && low == 0x55 {
        Instr::LD(x, LDMode::ToI)
    } else if a == 0xF && low == 0x65 {
        Instr::LD(x, LDMode::FromI)
    } else {
        return Err(InvalidInstruction { opcode: instr });
    };
    Ok(parsed)
}

} // verus!
