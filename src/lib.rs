//! A CHIP-8 virtual machine: instruction decoding, execution, a toroidal
//! monochrome framebuffer and two 60 Hz countdown timers, all stated against a
//! mathematical model of the machine.
//!
//! The host drives the machine one cycle at a time with `Chip8::cycle`,
//! passing the current time; between cycles it reports the keypad with
//! `Chip8::set_key` and reads the framebuffer with `Chip8::display`.

pub mod chip8;
pub mod display;
pub mod instruction;
pub mod machine;
pub mod opcode;
pub mod timer;

pub use chip8::Chip8;
pub use instruction::{decode, Instruction};
pub use machine::{Fault, FaultKind};
pub use opcode::{find_op_code, op_codes, OpCode};
pub use timer::Timer;
