//! The SSA form of a function, and the pass that moves the markers of
//! conditional execution down to the instructions that need them.

pub mod ir;
pub mod remove_enable_side_effects;
pub mod sinking;
