//! A CHIP-8 interpreter core: memory, registers, call stack, framebuffer,
//! keypad and timers, driven one instruction at a time by the host.

pub mod display;
pub mod error;
pub mod instruction;
pub mod machine;
pub mod laws;
