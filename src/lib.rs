//! Console subsystem of a small bare-metal kernel: a text-mode display
//! driver, a fixed-capacity line-input buffer fed by keyboard interrupts,
//! and a registry of swappable key hooks.

pub mod decoder;
pub mod interrupts;
pub mod keyboard;
pub mod shell;
pub mod text;
