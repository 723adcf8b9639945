//! A verified interpreter core for the CHIP-8 virtual machine.
//!
//! The crate models the classic fixed layout of the architecture: 4096 bytes
//! of addressable memory with a sixteen-entry call stack, sixteen 8-bit
//! registers with an index register, program counter and two saturating
//! timers, a 64 by 32 monochrome framebuffer with XOR sprite blending, and a
//! sixteen-key input table.  The decode/execute engine in [`machine`] carries
//! a contract for every instruction of the architecture.
//!
//! Loading a program image from disk, presenting the framebuffer and
//! collecting key events are left to an external driver; the core works on
//! plain byte and boolean values only.

pub mod cpu;
pub mod decode;
pub mod framebuffer;
pub mod keypad;
pub mod machine;
pub mod memory;
