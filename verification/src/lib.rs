//! A verified CHIP-8 virtual machine core.
//!
//! The library models the machine state (memory, registers, call stack,
//! timers, monochrome display) and executes the full 35-opcode instruction
//! set, with contracts pinning down every state transition.  Window
//! management, key polling and file loading live outside the library.

pub mod decode;
pub mod display;
pub mod font;
pub mod machine;
mod rng;

pub use decode::{decode, first_nibble, fourth_nibble, second_nibble, third_nibble, Instr};
pub use display::{screen_coords, Display};
pub use machine::{Fatal, Keypad, Machine};
