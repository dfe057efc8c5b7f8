//! A verified interpreter core for an 8-bit virtual machine with a 64x32
//! monochrome display, a sixteen-key pad and two 60 Hz timers.
//!
//! The crate is organised leaves first: bit packing of pixel rows, the
//! instruction decoder, the frame buffer with its XOR blit, the keypad
//! mapping, the mathematical model of the machine, and the engine that
//! realises the model on concrete arrays.

pub mod bits;
pub mod display;
pub mod engine;
pub mod host;
pub mod instruction;
pub mod keypad;
pub mod laws;
pub mod machine;

pub use crate::engine::Chip8;
pub use crate::keypad::Keycode;
