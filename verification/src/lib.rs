//! Back end pieces of a compiler for zero-knowledge circuits: a pass over the
//! SSA form that narrows the range of conditional execution, and a context
//! that emits register-machine bytecode and links its jumps.

pub mod brillig;
pub mod field;
pub mod prove_cmd;
pub mod ssa;
