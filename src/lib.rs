//! An interpreter core for the CHIP-8 virtual machine.
//!
//! [`Emulator`] holds the machine state and executes one instruction per
//! [`Emulator::tick`]. Its behaviour is stated over the mathematical model in
//! [`machine`], and the general laws of the instruction set are proved in
//! [`laws`].
pub mod emulator;
pub mod laws;
pub mod machine;

pub use emulator::Emulator;
pub use machine::{EmulatorError, SCREEN_HEIGHT, SCREEN_WIDTH};
