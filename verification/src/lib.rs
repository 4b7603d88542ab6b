//! A CHIP-8 virtual machine core: memory, registers, framebuffer, the
//! instruction decoder, and the execution engine that gives each decoded
//! instruction its exact semantics.

pub mod chip8;
pub mod cpu;
pub mod display;
pub mod fault;
pub mod memory;
pub mod opcode;
pub mod utils;
