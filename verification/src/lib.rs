//! An emulator for a 16-bit instructional computer architecture: 16 opcodes,
//! 8 general registers, a 16-bit program counter, a 3-way condition flag and a
//! flat 65536-word address space.
//!
//! The crate holds the instruction execution engine: bit-field utilities, the
//! register file, memory with its binary-image loader, the opcode decoder, one
//! semantic handler per opcode, the trap (system-call) dispatcher, and a
//! single-step execution entry point. Console I/O is handed in and out as
//! plain bytes, so the whole engine is verified; the terminal glue around it
//! lives outside the library.

pub mod cpu;
pub mod memory;
pub mod opcode;
pub mod register;
pub mod trapcode;
pub mod utils;
