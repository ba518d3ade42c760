//! Decoded CHIP-8 instructions.
use vstd::prelude::*;

verus! {

/// One decoded instruction, with its operand fields already extracted.
///
/// Register operands are indices into the sixteen general registers.
#[derive(Clone, Copy, Debug, PartialEq, Eq, Structural)]
pub enum Instr {
    // Arithmetic
    LD(usize, LDMode),
    ADD(usize, ADDMode),
    SUB(usize, usize),
    SUBN(usize, usize),
    OR(usize, usize),
    AND(usize, usize),
    XOR(usize, usize),
    SHL(usize),
    SHR(usize),
    RND(usize, u8),
    // Control flow
    SKP(usize),
    SKNP(usize),
    SE(usize, SEMode),
    SNE(usize, SEMode),
    JP(u16, JPMode),
    CALL(u16),
    RET,
    /// A call of a machine-code routine of the host; interpreters ignore it.
    SYS(u16),
    // Drawing
    DRW(usize, usize, usize),
    CLS,
}

/// Source or destination of a load, beside the register operand of `LD`.
#[derive(Clone, Copy, Debug, PartialEq, Eq, Structural)]
pub enum LDMode {
    Imm8(u8),
    /// Loads the index register; the register operand is unused.
    Imm12(u16),
    Reg(usize),
    FromDT,
    DT,
    ST,
    K,
    F,
    B,
    ToI,
    FromI,
}

#[derive(Clone, Copy, Debug, PartialEq, Eq, Structural)]
pub enum ADDMode {
    Imm8(u8),
    ToI,
    Reg(usize),
}

#[derive(Clone, Copy, Debug, PartialEq, Eq, Structural)]
pub enum SEMode {
    Imm8(u8),
    Reg(usize),
}

#[derive(Clone, Copy, Debug, PartialEq, Eq, Structural)]
pub enum JPMode {
    NoOffset,
    Offset,
}

impl Instr {
    /// Every register operand names one of the sixteen registers, every
    /// address fits in twelve bits and every sprite height in four: what the
    /// decoder produces.
    pub open spec fn wf(self) -> bool {
        match self {
            Instr::LD(x, mode) => x < 16 && match mode {
                LDMode::Reg(y) => y < 16,
                LDMode::Imm12(nnn) => nnn < 0x1000,
                _ => true,
            },
            Instr::ADD(x, mode) => x < 16 && match mode {
                ADDMode::Reg(y) => y < 16,
                _ => true,
            },
            Instr::SUB(x, y) | Instr::SUBN(x, y) | Instr::OR(x, y) | Instr::AND(x, y)
            | Instr::XOR(x, y) => x < 16 && y < 16,
            Instr::SHL(x) | Instr::SHR(x) | Instr::RND(x, _) | Instr::SKP(x) | Instr::SKNP(x) => x
                < 16,
            Instr::SE(x, mode) | Instr::SNE(x, mode) => x < 16 && match mode {
                SEMode::Reg(y) => y < 16,
                _ => true,
            },
            Instr::JP(nnn, _) | Instr::CALL(nnn) | Instr::SYS(nnn) => nnn < 0x1000,
            Instr::RET | Instr::CLS => true,
            Instr::DRW(x, y, n) => x < 16 && y < 16 && n < 16,
        }
    }

    /// The instructions that set the program counter themselves, so that the
    /// driver does not advance it past them.
    pub open spec fn sets_pc(self) -> bool {
        self is JP || self is CALL || self is RET
    }
}

/// The assembler mnemonic of each instruction shape.
pub open spec fn mnemonic(instr: Instr) -> Seq<char> {
    match instr {
        Instr::CLS => "CLS"@,
        Instr::SYS(_) => "SYS nnn"@,
        Instr::RET => "RET"@,
        Instr::JP(_, JPMode::NoOffset) => "JP nnn"@,
        Instr::CALL(_) => "CALL nnn"@,
        Instr::SNE(_, SEMode::Imm8(_)) => "SNE Vx, kk"@,
        Instr::SE(_, SEMode::Imm8(_)) => "SE Vx, kk"@,
        Instr::SE(_, SEMode::Reg(_)) => "SE Vx, Vy"@,
        Instr::LD(_, LDMode::Imm8(_)) => "LD Vx, kk"@,
        Instr::ADD(_, ADDMode::Imm8(_)) => "ADD Vx, kk"@,
        Instr::LD(_, LDMode::Reg(_)) => "LD Vx, Vy"@,
        Instr::OR(_, _) => "OR Vx, Vy"@,
        Instr::AND(_, _) => "AND Vx, Vy"@,
        Instr::XOR(_, _) => "XOR Vx, Vy"@,
        Instr::ADD(_, ADDMode::Reg(_)) => "ADD Vx, Vy"@,
        Instr::SUB(_, _) => "SUB Vx, Vy"@,
        Instr::SHR(_) => "SHR Vx"@,
        Instr::SUBN(_, _) => "SUB Vy, Vx"@,
        Instr::SHL(_) => "SHL Vx"@,
        Instr::SNE(_, SEMode::Reg(_)) => "SNE Vx, Vy"@,
        Instr::LD(_, LDMode::Imm12(_)) => "LD I, nnn"@,
        Instr::JP(_, JPMode::Offset) => "JP V0, nnn"@,
        Instr::RND(_, _) => "RND Vx, kk"@,
        Instr::DRW(_, _, _) => "DRW Vx, Vy, n"@,
        Instr::SKP(_) => "SKP Vx"@,
        Instr::SKNP(_) => "SKNP Vx"@,
        Instr::LD(_, LDMode::FromDT) => "LD Vx, DT"@,
        Instr::LD(_, LDMode::K) => "LD Vx, K"@,
        Instr::LD(_, LDMode::DT) => "LD DT, Vx"@,
        Instr::LD(_, LDMode::ST) => "LD ST, Vx"@,
        Instr::ADD(_, ADDMode::ToI) => "ADD I, Vx"@,
        Instr::LD(_, LDMode::F) => "LD Vx, F"@,
        Instr::LD(_, LDMode::B) => "LD Vx, B"@,
        Instr::LD(_, LDMode::ToI) => "LD [I], Vx"@,
        Instr::LD(_, LDMode::FromI) => "LD Vx, [I]"@,
    }
}

/// The mnemonic of an instruction, for traces and error messages.
pub fn instr_name(instr: &Instr) -> (r: &str)
    ensures
        r@ == mnemonic(*instr),
{
    match instr {
        Instr::CLS => "CLS",
        Instr::SYS(_) => "SYS nnn",
        Instr::RET => "RET",
        Instr::JP(_, JPMode::NoOffset) => "JP nnn",
        Instr::CALL(_) => "CALL nnn",
        Instr::SNE(_, SEMode::Imm8(_)) => "SNE Vx, kk",
        Instr::SE(_, SEMode::Imm8(_)) => "SE Vx, kk",
        Instr::SE(_, SEMode::Reg(_)) => "SE Vx, Vy",
        Instr::LD(_, LDMode::Imm8(_)) => "LD Vx, kk",
        Instr::ADD(_, ADDMode::Imm8(_)) => "ADD Vx, kk",
        Instr::LD(_, LDMode::Reg(_)) => "LD Vx, Vy",
        Instr::OR(_, _) => "OR Vx, Vy",
        Instr::AND(_, _) => "AND Vx, Vy",
        Instr::XOR(_, _) => "XOR Vx, Vy",
        Instr::ADD(_, ADDMode::Reg(_)) => "ADD Vx, Vy",
        Instr::SUB(_, _) => "SUB Vx, Vy",
        Instr::SHR(_) => "SHR Vx",
        Instr::SUBN(_, _) => "SUB Vy, Vx",
        Instr::SHL(_) => "SHL Vx",
        Instr::SNE(_, SEMode::Reg(_)) => "SNE Vx, Vy",
        Instr::LD(_, LDMode::Imm12(_)) => "LD I, nnn",
        Instr::JP(_, JPMode::Offset) => "JP V0, nnn",
        Instr::RND(_, _) => "RND Vx, kk",
        Instr::DRW(_, _, _) => "DRW Vx, Vy, n",
        Instr::SKP(_) => "SKP Vx",
        Instr::SKNP(_) => "SKNP Vx",
        Instr::LD(_, LDMode::FromDT) => "LD Vx, DT",
        Instr::LD(_, LDMode::K) => "LD Vx, K",
        Instr::LD(_, LDMode::DT) => "LD DT, Vx",
        Instr::LD(_, LDMode::ST) => "LD ST, Vx",
        Instr::ADD(_, ADDMode::ToI) => "ADD I, Vx",
        Instr::LD(_, LDMode::F) => "LD Vx, F",
        Instr::LD(_, LDMode::B) => "LD Vx, B",
        Instr::LD(_, LDMode::ToI) => "LD [I], Vx",
        Instr::LD(_, LDMode::FromI) => "LD Vx, [I]",
    }
}

} // verus!
