//! The instruction core of a handheld-console processor: a decoder for 32-bit instruction
//! words, the condition evaluator, a register file with per-mode banking, the branch and
//! multiply handlers, and the check of a ROM image's header.

pub mod cartridge;
pub mod cpu;
pub mod error;
pub mod register;
