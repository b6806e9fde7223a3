//! A register-machine bytecode interpreter: a decoder for 4-byte instruction
//! words, a bank of sixteen 16-bit registers, and an execution core that runs
//! decoded words against them.

pub mod alu;
pub mod decimal;
pub mod emulator;
pub mod instructions;
pub mod program;
pub mod registries;
