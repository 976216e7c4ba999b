//! Bytecode for the register machine: its opcodes, the allocator of
//! registers and memory, the artifact that collects opcodes and labels, and
//! the context that emits structured operations.

pub mod artifact;
pub mod brillig_ir;
pub mod memory;
pub mod opcodes;
pub mod value;
