//! An interpreter for the CHIP-8 virtual machine: memory, registers, stack,
//! timers and frame buffer, advanced one fetch-decode-execute cycle at a time.
pub mod chip8;
pub mod keypad;
pub mod laws;
pub mod machine;

pub use crate::chip8::{Chip8, ExternalResources};
pub use crate::keypad::{keypad_index, keypad_state};
pub use crate::machine::{Fault, KeyWait, Nibbles};
