//! A minimal 8-bit pipelined processor: a validating assembler that lowers
//! source text into a fixed 32-slot instruction store, and a cycle-stepped
//! emulator that runs that store through a four-stage pipeline driving a
//! register file, an ALU with condition flags, and memory-mapped output ports.

pub mod bytes;
pub mod emulator;
pub mod parser;
