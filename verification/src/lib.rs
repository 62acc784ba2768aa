//! A CHIP-8 interpreter core: the instruction decoder and the machine that
//! executes decoded instructions, with every function verified against a
//! mathematical model of the machine.

pub mod emu;
pub mod laws;
pub mod machine;
pub mod opcode;
pub mod register;
mod sprite;
