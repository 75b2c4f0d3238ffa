//! Cycle-paced virtual machine for an 8-bit byte-code instruction set
//! with a flat 4096-byte memory, a monochrome 64x32 bitmap display, a
//! 16-key input device and two 60Hz countdown timers.
//!
//! The machine executes a loaded program image instruction by
//! instruction at a configurable clock rate; instruction semantics,
//! including the historically ambiguous "quirk" behaviours, are stated
//! as contracts and proved against them.

pub mod cli_debug;
pub mod config;
pub mod cpu;
pub mod disassembler;
pub mod display;
pub mod instructions;
pub mod keyboard;
pub mod machine;
pub mod memory;
pub mod timer;

pub use disassembler::disassemble_program_at;
pub use machine::Machine;

