//! A verified CHIP-8 interpreter core.
//!
//! The crate models the CHIP-8 virtual machine: 4096 bytes of memory, sixteen
//! 8-bit registers, an index register, a program counter, two 60 Hz timers, a
//! call stack and a 64x32 monochrome framebuffer. The instruction decoder and
//! the execute dispatch are verified against a mathematical transition
//! relation; rendering, sound and keyboard backends are left to the host
//! through small port traits.

pub mod display;
pub mod emulator;
pub mod input;
pub mod instruction;
pub mod read;
pub mod semantics;
pub mod sound;
pub mod stack;
pub mod timing;

pub use stack::Stack;
