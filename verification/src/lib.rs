//! A CHIP-8 virtual machine: instruction decoding and execution, timers,
//! sprite drawing and keyboard state, with the window, the keyboard device
//! and the clock left to the program that drives the machine.

pub mod model;
pub mod key_check;
pub mod chip8;
pub mod laws;
pub mod instruction_laws;

pub use chip8::{Chip8, Chip8_VM, Effect};
pub use key_check::{keycheck, KeyCheck, KeyEvent, Keycode};
