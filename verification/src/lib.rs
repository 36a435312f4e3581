//! A CHIP-8 interpreter core with machine-checked contracts.
//!
//! The crate models the classic CHIP-8 virtual machine: 4096 bytes of
//! memory with a built-in hexadecimal font, sixteen 8-bit registers, a
//! 16-entry call stack, two 60 Hz timers, a 64x32 monochrome display and
//! a 16-key keypad.  Every opcode's effect on the machine state is stated
//! as a contract over a mathematical view of the state and proved.
//!
//! Host concerns (windowing, key scanning, audio, file loading) are left
//! to the caller: the machine only consumes plain byte programs and key
//! flags, and exposes its framebuffer and timer values.

pub mod decode;
pub mod display;
pub mod font;
pub mod machine;
mod rng;
pub mod semantics;
