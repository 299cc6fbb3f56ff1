//! A CHIP-8 virtual machine: state, fetch, decode and execute, and timers.
pub mod emulator;
pub mod instruction;
pub mod lemmas;
mod random;

pub use emulator::{Emulator, Fault, SCREEN_HEIGHT, SCREEN_WIDTH};
pub use instruction::{decode, Instruction};
