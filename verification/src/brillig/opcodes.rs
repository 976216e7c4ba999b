//! The opcodes of the register machine.

use crate::brillig::value::Value;
use vstd::prelude::*;

verus! {

/// The index of a register of the machine.
#[derive(Clone, Copy, Debug, PartialEq, Eq, Hash)]
pub struct RegisterIndex(pub usize);

impl RegisterIndex {
    /// The index as a number.
    pub fn to_usize(self) -> (index: usize)
        ensures
            index == self.0,
    {
        self.0
    }
}

impl vstd::std_specs::convert::FromSpecImpl<usize> for RegisterIndex {
    open spec fn obeys_from_spec() -> bool {
        true
    }

    open spec fn from_spec(value: usize) -> Self {
        RegisterIndex(value)
    }
}

impl From<usize> for RegisterIndex {
    fn from(value: usize) -> (register: Self) {
        RegisterIndex(value)
    }
}

/// An operand of a foreign call: one register, or an array in memory that a
/// register points to.
#[derive(Clone, Copy, Debug, PartialEq, Eq)]
pub enum RegisterValueOrArray {
    RegisterIndex(RegisterIndex),
    HeapArray(RegisterIndex, usize),
}

/// The binary operations on field elements.
#[derive(Clone, Copy, Debug, PartialEq, Eq)]
pub enum BinaryFieldOp {
    Add,
    Sub,
    Mul,
    Div,
    Equals,
}

/// The binary operations on integers of a given bit width.
#[derive(Clone, Copy, Debug, PartialEq, Eq)]
pub enum BinaryIntOp {
    Add,
    Sub,
    Mul,
    SignedDiv,
    UnsignedDiv,
    Equals,
    LessThan,
    LessThanEquals,
    And,
    Or,
    Xor,
    Shl,
    Shr,
}

/// One instruction of the machine.
#[derive(Clone, Debug, PartialEq, Eq)]
#[allow(inconsistent_fields)]
pub enum Opcode {
    /// `destination = lhs op rhs` on field elements.
    BinaryFieldOp { destination: RegisterIndex, op: BinaryFieldOp, lhs: RegisterIndex, rhs: RegisterIndex },
    /// `destination = lhs op rhs` on integers of `bit_size` bits.
    BinaryIntOp {
        destination: RegisterIndex,
        op: BinaryIntOp,
        bit_size: u32,
        lhs: RegisterIndex,
        rhs: RegisterIndex,
    },
    /// Continues at `location` if `condition` holds zero.
    JumpIfNot { condition: RegisterIndex, location: usize },
    /// Continues at `location` if `condition` holds a value other than zero.
    JumpIf { condition: RegisterIndex, location: usize },
    /// Continues at `location`.
    Jump { location: usize },
    /// Calls the code at `location`.
    Call { location: usize },
    /// Loads `value` into `destination`.
    Const { destination: RegisterIndex, value: Value },
    /// Returns from a call.
    Return,
    /// Asks the host to run `function` on `input` and to write to `destination`.
    ForeignCall { function: String, destination: RegisterValueOrArray, input: RegisterValueOrArray },
    /// Copies `source` into `destination`.
    Mov { destination: RegisterIndex, source: RegisterIndex },
    /// Reads the memory cell that `source_pointer` points to.
    Load { destination: RegisterIndex, source_pointer: RegisterIndex },
    /// Writes `source` to the memory cell that `destination_pointer` points to.
    Store { destination_pointer: RegisterIndex, source: RegisterIndex },
    /// Ends the run as failed.
    Trap,
    /// Ends the run.
    Stop,
}

/// What an opcode says, with its constant and its name as sequences.
#[allow(inconsistent_fields)]
pub enum OpcodeView {
    BinaryFieldOp { destination: RegisterIndex, op: BinaryFieldOp, lhs: RegisterIndex, rhs: RegisterIndex },
    BinaryIntOp {
        destination: RegisterIndex,
        op: BinaryIntOp,
        bit_size: u32,
        lhs: RegisterIndex,
        rhs: RegisterIndex,
    },
    JumpIfNot { condition: RegisterIndex, location: usize },
    JumpIf { condition: RegisterIndex, location: usize },
    Jump { location: usize },
    Call { location: usize },
    Const { destination: RegisterIndex, value: Seq<u8> },
    Return,
    ForeignCall { function: Seq<char>, destination: RegisterValueOrArray, input: RegisterValueOrArray },
    Mov { destination: RegisterIndex, source: RegisterIndex },
    Load { destination: RegisterIndex, source_pointer: RegisterIndex },
    Store { destination_pointer: RegisterIndex, source: RegisterIndex },
    Trap,
    Stop,
}

impl View for Opcode {
    type V = OpcodeView;

    open spec fn view(&self) -> OpcodeView {
        match *self {
            Opcode::BinaryFieldOp { destination, op, lhs, rhs } => OpcodeView::BinaryFieldOp {
                destination,
                op,
                lhs,
                rhs,
            },
            Opcode::BinaryIntOp { destination, op, bit_size, lhs, rhs } => OpcodeView::BinaryIntOp {
                destination,
                op,
                bit_size,
                lhs,
                rhs,
            },
            Opcode::JumpIfNot { condition, location } => OpcodeView::JumpIfNot { condition, location },
            Opcode::JumpIf { condition, location } => OpcodeView::JumpIf { condition, location },
            Opcode::Jump { location } => OpcodeView::Jump { location },
            Opcode::Call { location } => OpcodeView::Call { location },
            Opcode::Const { destination, value } => OpcodeView::Const { destination, value: value@ },
            Opcode::Return => OpcodeView::Return,
            Opcode::ForeignCall { function, destination, input } => OpcodeView::ForeignCall {
                function: function@,
                destination,
                input,
            },
            Opcode::Mov { destination, source } => OpcodeView::Mov { destination, source },
            Opcode::Load { destination, source_pointer } => OpcodeView::Load {
                destination,
                source_pointer,
            },
            Opcode::Store { destination_pointer, source } => OpcodeView::Store {
                destination_pointer,
                source,
            },
            Opcode::Trap => OpcodeView::Trap,
            Opcode::Stop => OpcodeView::Stop,
        }
    }
}

impl OpcodeView {
    /// Whether the opcode transfers control to a location that it names.
    pub open spec fn is_jump(self) -> bool {
        self is Jump || self is JumpIf || self is JumpIfNot
    }

    /// The same opcode with `target` as the location that it jumps to; an
    /// opcode that is no jump stays as it is.
    pub open spec fn with_location(self, target: usize) -> OpcodeView {
        match self {
            OpcodeView::Jump { .. } => OpcodeView::Jump { location: target },
            OpcodeView::JumpIf { condition, .. } => OpcodeView::JumpIf { condition, location: target },
            OpcodeView::JumpIfNot { condition, .. } => OpcodeView::JumpIfNot {
                condition,
                location: target,
            },
            other => other,
        }
    }
}

/// The views of a sequence of opcodes.
pub open spec fn opcode_views(opcodes: Seq<Opcode>) -> Seq<OpcodeView> {
    opcodes.map_values(|opcode: Opcode| opcode@)
}

impl Opcode {
    /// Whether the opcode transfers control to a location that it names.
    pub fn is_jump(&self) -> (b: bool)
        ensures
            b == self@.is_jump(),
    {
        match self {
            Opcode::Jump { .. } => true,
            Opcode::JumpIf { .. } => true,
            Opcode::JumpIfNot { .. } => true,
            _ => false,
        }
    }
}

} // verus!
