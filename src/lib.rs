//! An interpreter for the classic 35-opcode CHIP-8 virtual machine.
//!
//! The crate holds the verified core: the instruction decoder, the machine
//! state, the execution engine and the decisions of the timing driver. The
//! window, the keyboard and the wall clock are left to the caller, which hands
//! the core plain values.

pub mod chip8;
pub mod decode;
pub mod enums;
pub mod keypad;
pub mod laws;
pub mod rng;
pub mod semantics;
pub mod timing;

pub use chip8::{Chip8, LoadError, MAX_PROGRAM_SIZE};
pub use decode::{parse_instr, InvalidInstruction};
pub use enums::{instr_name, ADDMode, Instr, JPMode, LDMode, SEMode};
pub use keypad::get_key;
pub use semantics::{ExecError, Fault, CHIP8_HEIGHT, CHIP8_WIDTH};
pub use timing::{frame_sleep, timer_due};
