//! A CHIP-8 interpreter core: instruction decoding and execution over
//! memory, registers, a call stack, a monochrome framebuffer and two
//! countdown timers. The host supplies key state, random bytes and elapsed
//! time, and presents the framebuffer.
pub mod cpu;
pub mod stack;
pub mod timer;
pub mod opcode;
pub mod keyboard;
pub mod display;
pub mod machine;
