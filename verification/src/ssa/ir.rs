//! Functions in SSA form: basic blocks of instructions, joined by the
//! terminators of the blocks into a control-flow graph.

use crate::field::{be_nat, field_modulus, FieldElement};
use vstd::prelude::*;

verus! {

/// The number of a value of a function.
#[derive(Clone, Copy, Debug, PartialEq, Eq, Hash)]
pub struct ValueId(pub usize);

/// The number of an instruction of a function.
#[derive(Clone, Copy, Debug, PartialEq, Eq, Hash)]
pub struct InstructionId(pub usize);

/// The number of a basic block of a function.
#[derive(Clone, Copy, Debug, PartialEq, Eq, Hash)]
pub struct BasicBlockId(pub usize);

/// An instruction, by the kind of its operation.
#[derive(Clone, Copy, Debug, PartialEq, Eq)]
#[allow(inconsistent_fields)]
pub enum Instruction {
    /// An arithmetic or logic operation on two values.
    Binary { lhs: ValueId, rhs: ValueId },
    /// A conversion of a value to another type.
    Cast { value: ValueId },
    /// The bitwise complement of a value.
    Not { value: ValueId },
    /// A value cut down to `bit_size` bits.
    Truncate { value: ValueId, bit_size: u32 },
    /// The demand that a value is true.
    Constrain { condition: ValueId },
    /// A call of a function.
    Call { function: ValueId },
    /// A fresh memory cell.
    Allocate,
    /// A read of a memory cell.
    Load { address: ValueId },
    /// A write to a memory cell.
    Store { address: ValueId, value: ValueId },
    /// From here on, side effects happen only if `condition` is true.
    EnableSideEffects { condition: ValueId },
    /// A read of an element of an array.
    ArrayGet { array: ValueId, index: ValueId },
    /// An array with one element replaced.
    ArraySet { array: ValueId, index: ValueId, value: ValueId },
}

impl Instruction {
    /// Whether running the instruction can be observed from outside: it
    /// constrains, writes to memory or calls.
    pub open spec fn spec_has_side_effects(&self) -> bool {
        *self is Constrain || *self is Call || *self is Store
    }

    /// Whether running the instruction can be observed from outside: it
    /// constrains, writes to memory or calls.
    #[verifier::when_used_as_spec(spec_has_side_effects)]
    pub fn has_side_effects(&self) -> (b: bool)
        ensures
            b == self.spec_has_side_effects(),
    {
        match self {
            Instruction::Constrain { .. } => true,
            Instruction::Call { .. } => true,
            Instruction::Store { .. } => true,
            Instruction::Binary { .. } => false,
            Instruction::Cast { .. } => false,
            Instruction::Not { .. } => false,
            Instruction::Truncate { .. } => false,
            Instruction::Allocate => false,
            Instruction::Load { .. } => false,
            Instruction::EnableSideEffects { .. } => false,
            Instruction::ArrayGet { .. } => false,
            Instruction::ArraySet { .. } => false,
        }
    }
}

/// How a basic block hands control on.
#[derive(Clone, Copy, Debug, PartialEq, Eq)]
#[allow(inconsistent_fields)]
pub enum Terminator {
    /// On to `destination`.
    Jmp { destination: BasicBlockId },
    /// On to `then_destination` if `condition` is true, else to
    /// `else_destination`.
    JmpIf { condition: ValueId, then_destination: BasicBlockId, else_destination: BasicBlockId },
    /// Out of the function.
    Return,
}

/// The blocks that the terminator of a block leads to, in its order.
pub open spec fn terminator_successors(terminator: Option<Terminator>) -> Seq<BasicBlockId> {
    match terminator {
        Some(Terminator::Jmp { destination }) => seq![destination],
        Some(Terminator::JmpIf { then_destination, else_destination, .. }) => seq![
            then_destination,
            else_destination,
        ],
        _ => Seq::empty(),
    }
}

/// A value of a function.
#[derive(Debug)]
pub enum Value {
    /// A parameter of the function or of a block.
    Param,
    /// The result of an instruction.
    Result { instruction: InstructionId },
    /// A number that is known when the function is compiled.
    NumericConstant { constant: FieldElement },
}

/// A value of a function, with a constant as its bytes.
pub enum ValueView {
    Param,
    Result { instruction: InstructionId },
    NumericConstant { constant: Seq<u8> },
}

impl View for Value {
    type V = ValueView;

    open spec fn view(&self) -> ValueView {
        match *self {
            Value::Param => ValueView::Param,
            Value::Result { instruction } => ValueView::Result { instruction },
            Value::NumericConstant { constant } => ValueView::NumericConstant { constant: constant@ },
        }
    }
}

/// A basic block: instructions that run one after the other, and a
/// terminator once the block is complete.
#[derive(Debug)]
pub struct BasicBlock {
    instructions: Vec<InstructionId>,
    terminator: Option<Terminator>,
}

/// A basic block, with its instructions as a sequence.
pub struct BlockView {
    pub instructions: Seq<InstructionId>,
    pub terminator: Option<Terminator>,
}

impl View for BasicBlock {
    type V = BlockView;

    closed spec fn view(&self) -> BlockView {
        BlockView { instructions: self.instructions@, terminator: self.terminator }
    }
}

impl BlockView {
    /// The blocks that this block leads to.
    pub open spec fn successors(self) -> Seq<BasicBlockId> {
        terminator_successors(self.terminator)
    }
}

/// What the pass that sinks markers needs to know of an instruction.
#[derive(Clone, Copy, Debug, PartialEq, Eq)]
pub enum InstructionKind {
    /// A marker whose condition is the constant true.
    EnableAlways,
    /// A marker with any other condition.
    EnableIf,
    /// An instruction that must run under the condition in force: one with
    /// side effects, or an array access.
    Guarded,
    /// Any other instruction.
    Transparent,
}

/// The constant that a value is among `values`, if it is one.
pub open spec fn numeric_constant(values: Seq<ValueView>, value: ValueId) -> Option<Seq<u8>> {
    if value.0 < values.len() {
        match values[value.0 as int] {
            ValueView::NumericConstant { constant } => Some(constant),
            _ => None,
        }
    } else {
        None
    }
}

/// Whether a value is the constant true: a constant that is 1 in the field.
pub open spec fn is_constant_true(values: Seq<ValueView>, value: ValueId) -> bool {
    numeric_constant(values, value) matches Some(constant) && be_nat(constant) % field_modulus() == 1
}

/// The kind of the instruction with the number `id` among `instructions`.
pub open spec fn kind_of(instructions: Seq<Instruction>, values: Seq<ValueView>, id: InstructionId) -> InstructionKind {
    let instruction = instructions[id.0 as int];
    match instruction {
        Instruction::EnableSideEffects { condition } => if is_constant_true(values, condition) {
            InstructionKind::EnableAlways
        } else {
            InstructionKind::EnableIf
        },
        Instruction::ArrayGet { .. } => InstructionKind::Guarded,
        Instruction::ArraySet { .. } => InstructionKind::Guarded,
        _ => if instruction.has_side_effects() {
            InstructionKind::Guarded
        } else {
            InstructionKind::Transparent
        },
    }
}

/// The kinds of `instructions`, as a function of their numbers.
pub open spec fn kinds_of(instructions: Seq<Instruction>, values: Seq<ValueView>) -> spec_fn(
    InstructionId,
) -> InstructionKind {
    |id: InstructionId| kind_of(instructions, values, id)
}

/// A function, with its tables as sequences.
pub struct FunctionView {
    pub entry_block: BasicBlockId,
    pub blocks: Seq<BlockView>,
    pub instructions: Seq<Instruction>,
    pub values: Seq<ValueView>,
}

impl FunctionView {
    /// Every number in the function names something: the entry and every
    /// destination of a terminator is a block of the function, and every
    /// entry of a block is an instruction of the function. The blocks are
    /// few enough for each to have a number.
    pub open spec fn wf(self) -> bool {
        &&& self.blocks.len() <= usize::MAX
        &&& self.entry_block.0 < self.blocks.len()
        &&& forall|b: int, i: int|
            0 <= b < self.blocks.len() && 0 <= i < self.blocks[b].instructions.len() ==> (
            #[trigger] self.blocks[b].instructions[i]).0 < self.instructions.len()
        &&& forall|b: int, i: int|
            0 <= b < self.blocks.len() && 0 <= i < self.blocks[b].successors().len() ==> (
            #[trigger] self.blocks[b].successors()[i]).0 < self.blocks.len()
    }

    /// The constant that a value is, if it is one.
    pub open spec fn numeric_constant(self, value: ValueId) -> Option<Seq<u8>> {
        numeric_constant(self.values, value)
    }

    /// Whether a value is the constant true: a constant that is 1 in the
    /// field.
    pub open spec fn is_constant_true(self, value: ValueId) -> bool {
        is_constant_true(self.values, value)
    }

    /// The kind of the instruction with the number `id`.
    pub open spec fn kind(self, id: InstructionId) -> InstructionKind {
        kind_of(self.instructions, self.values, id)
    }

    /// The kinds of the instructions, as a function of their numbers.
    pub open spec fn kinds(self) -> spec_fn(InstructionId) -> InstructionKind {
        kinds_of(self.instructions, self.values)
    }

    /// The blocks that each block leads to.
    pub open spec fn successors(self) -> Seq<Seq<BasicBlockId>> {
        Seq::new(self.blocks.len(), |b: int| self.blocks[b].successors())
    }
}

/// A well-formed function stays well formed when one of its blocks is
/// replaced by a block whose entries are instructions of the function and
/// whose terminator leads to blocks of the function; instructions may have
/// been added on the way.
pub proof fn lemma_replace_block_wf(before: FunctionView, after: FunctionView, b: int)
    requires
        before.wf(),
        0 <= b < before.blocks.len(),
        after.entry_block == before.entry_block,
        after.blocks == before.blocks.update(b, after.blocks[b]),
        before.instructions.len() <= after.instructions.len(),
        forall|i: int|
            0 <= i < after.blocks[b].instructions.len() ==> (#[trigger] after.blocks[b].instructions[i]).0
                < after.instructions.len(),
        forall|i: int|
            0 <= i < after.blocks[b].successors().len() ==> (#[trigger] after.blocks[b].successors()[i]).0
                < after.blocks.len(),
    ensures
        after.wf(),
{
    assert forall|c: int, i: int|
        0 <= c < after.blocks.len() && 0 <= i < after.blocks[c].instructions.len() implies (
    #[trigger] after.blocks[c].instructions[i]).0 < after.instructions.len() by {
        if c != b {
            assert(after.blocks[c].instructions[i] == before.blocks[c].instructions[i]);
        }
    }
    assert forall|c: int, i: int|
        0 <= c < after.blocks.len() && 0 <= i < after.blocks[c].successors().len() implies (
    #[trigger] after.blocks[c].successors()[i]).0 < after.blocks.len() by {
        if c != b {
            assert(after.blocks[c].successors()[i] == before.blocks[c].successors()[i]);
        }
    }
}

/// A function in SSA form.
#[derive(Debug)]
pub struct Function {
    entry_block: BasicBlockId,
    blocks: Vec<BasicBlock>,
    instructions: Vec<Instruction>,
    values: Vec<Value>,
}

impl View for Function {
    type V = FunctionView;

    closed spec fn view(&self) -> FunctionView {
        FunctionView {
            entry_block: self.entry_block,
            blocks: self.blocks@.map_values(|block: BasicBlock| block@),
            instructions: self.instructions@,
            values: self.values@.map_values(|value: Value| value@),
        }
    }
}

impl Function {
    /// A function of one block, the entry, that holds nothing yet.
    pub fn new() -> (function: Self)
        ensures
            function@.wf(),
            function@.entry_block == BasicBlockId(0),
            function@.blocks == seq![
                BlockView { instructions: Seq::<InstructionId>::empty(), terminator: None },
            ],
            function@.instructions == Seq::<Instruction>::empty(),
            function@.values == Seq::<ValueView>::empty(),
    {
        let mut blocks: Vec<BasicBlock> = Vec::new();
        blocks.push(BasicBlock { instructions: Vec::new(), terminator: None });
        let function = Function {
            entry_block: BasicBlockId(0),
            blocks,
            instructions: Vec::new(),
            values: Vec::new(),
        };
        assert(function@.blocks =~= seq![
            BlockView { instructions: Seq::<InstructionId>::empty(), terminator: None },
        ]);
        assert(function@.values =~= Seq::<ValueView>::empty());
        function
    }

    /// The block that the function starts in.
    pub fn entry_block(&self) -> (block: BasicBlockId)
        ensures
            block == self@.entry_block,
    {
        self.entry_block
    }

    /// The number of blocks.
    pub fn num_blocks(&self) -> (n: usize)
        ensures
            n == self@.blocks.len(),
    {
        self.blocks.len()
    }

    /// Adds a block that holds nothing yet.
    pub fn make_block(&mut self) -> (block: BasicBlockId)
        requires
            old(self)@.wf(),
        ensures
            final(self)@.wf(),
            block.0 == old(self)@.blocks.len(),
            final(self)@ == (FunctionView {
                blocks: old(self)@.blocks.push(
                    BlockView { instructions: Seq::<InstructionId>::empty(), terminator: None },
                ),
                ..old(self)@
            }),
    {
        let block = BasicBlockId(self.blocks.len());
        self.blocks.push(BasicBlock { instructions: Vec::new(), terminator: None });
        assert(self.blocks.len() == self.blocks@.len());
        assert(self@.blocks =~= old(self)@.blocks.push(
            BlockView { instructions: Seq::<InstructionId>::empty(), terminator: None },
        ));
        block
    }

    /// Adds a value that is a parameter.
    pub fn make_parameter(&mut self) -> (value: ValueId)
        ensures
            value.0 == old(self)@.values.len(),
            final(self)@ == (FunctionView {
                values: old(self)@.values.push(ValueView::Param),
                ..old(self)@
            }),
    {
        let value = ValueId(self.values.len());
        self.values.push(Value::Param);
        assert(self@.values =~= old(self)@.values.push(ValueView::Param));
        value
    }

    /// Adds a value that is the constant `constant`.
    pub fn make_constant(&mut self, constant: FieldElement) -> (value: ValueId)
        ensures
            value.0 == old(self)@.values.len(),
            final(self)@ == (FunctionView {
                values: old(self)@.values.push(ValueView::NumericConstant { constant: constant@ }),
                ..old(self)@
            }),
    {
        let value = ValueId(self.values.len());
        self.values.push(Value::NumericConstant { constant });
        assert(self@.values =~= old(self)@.values.push(
            ValueView::NumericConstant { constant: constant@ },
        ));
        value
    }

    /// Adds `instruction` to the function, at the end of `block`.
    pub fn insert_instruction(&mut self, block: BasicBlockId, instruction: Instruction) -> (id:
        InstructionId)
        requires
            old(self)@.wf(),
            block.0 < old(self)@.blocks.len(),
        ensures
            final(self)@.wf(),
            id.0 == old(self)@.instructions.len(),
            final(self)@ == (FunctionView {
                instructions: old(self)@.instructions.push(instruction),
                blocks: old(self)@.blocks.update(
                    block.0 as int,
                    BlockView {
                        instructions: old(self)@.blocks[block.0 as int].instructions.push(id),
                        terminator: old(self)@.blocks[block.0 as int].terminator,
                    },
                ),
                ..old(self)@
            }),
    {
        let id = InstructionId(self.instructions.len());
        self.instructions.push(instruction);
        let mut instructions = self.copy_block_instructions(block);
        instructions.push(id);
        let terminator = self.blocks[block.0].terminator;
        self.blocks.set(block.0, BasicBlock { instructions, terminator });
        proof {
            let expected = FunctionView {
                instructions: old(self)@.instructions.push(instruction),
                blocks: old(self)@.blocks.update(
                    block.0 as int,
                    BlockView {
                        instructions: old(self)@.blocks[block.0 as int].instructions.push(id),
                        terminator: old(self)@.blocks[block.0 as int].terminator,
                    },
                ),
                ..old(self)@
            };
            assert(self@.blocks =~= expected.blocks);
            assert(self@.values =~= expected.values);
            assert(self@.blocks[block.0 as int].successors() == old(self)@.blocks[block.0 as int].successors());
            lemma_replace_block_wf(old(self)@, self@, block.0 as int);
        }
        id
    }
}

impl Function {
    /// Gives `block` the terminator `terminator`.
    pub fn set_terminator(&mut self, block: BasicBlockId, terminator: Terminator)
        requires
            old(self)@.wf(),
            block.0 < old(self)@.blocks.len(),
            forall|i: int|
                0 <= i < terminator_successors(Some(terminator)).len() ==> (
                #[trigger] terminator_successors(Some(terminator))[i]).0 < old(self)@.blocks.len(),
        ensures
            final(self)@.wf(),
            final(self)@ == (FunctionView {
                blocks: old(self)@.blocks.update(
                    block.0 as int,
                    BlockView {
                        instructions: old(self)@.blocks[block.0 as int].instructions,
                        terminator: Some(terminator),
                    },
                ),
                ..old(self)@
            }),
    {
        let instructions = self.copy_block_instructions(block);
        self.blocks.set(block.0, BasicBlock { instructions, terminator: Some(terminator) });
        proof {
            let expected = FunctionView {
                blocks: old(self)@.blocks.update(
                    block.0 as int,
                    BlockView {
                        instructions: old(self)@.blocks[block.0 as int].instructions,
                        terminator: Some(terminator),
                    },
                ),
                ..old(self)@
            };
            assert(self@.blocks =~= expected.blocks);
            assert(self@.values =~= expected.values);
            lemma_replace_block_wf(old(self)@, self@, block.0 as int);
        }
    }

    /// The instructions of `block`, in a vector of their own.
    fn copy_block_instructions(&self, block: BasicBlockId) -> (instructions: Vec<InstructionId>)
        requires
            block.0 < self@.blocks.len(),
        ensures
            instructions@ == self@.blocks[block.0 as int].instructions,
    {
        let mut instructions: Vec<InstructionId> = Vec::new();
        let mut i: usize = 0;
        while i < self.blocks[block.0].instructions.len()
            invariant
                block.0 < self.blocks.len(),
                i <= self.blocks[block.0 as int].instructions.len(),
                instructions@ == self.blocks[block.0 as int].instructions@.take(i as int),
            decreases self.blocks[block.0 as int].instructions.len() - i,
        {
            instructions.push(self.blocks[block.0].instructions[i]);
            assert(self.blocks[block.0 as int].instructions@.take(i + 1)
                =~= self.blocks[block.0 as int].instructions@.take(i as int).push(
                self.blocks[block.0 as int].instructions@[i as int],
            ));
            i = i + 1;
        }
        assert(instructions@ =~= self.blocks[block.0 as int].instructions@);
        instructions
    }

    /// The instructions of `block`, in their order.
    pub fn block_instructions(&self, block: BasicBlockId) -> (instructions: &Vec<InstructionId>)
        requires
            block.0 < self@.blocks.len(),
        ensures
            instructions@ == self@.blocks[block.0 as int].instructions,
    {
        &self.blocks[block.0].instructions
    }

    /// Replaces the instructions of `block` by `instructions`.
    pub fn set_block_instructions(&mut self, block: BasicBlockId, instructions: Vec<InstructionId>)
        requires
            old(self)@.wf(),
            block.0 < old(self)@.blocks.len(),
            forall|i: int|
                0 <= i < instructions@.len() ==> (#[trigger] instructions@[i]).0 < old(
                    self,
                )@.instructions.len(),
        ensures
            final(self)@.wf(),
            final(self)@ == (FunctionView {
                blocks: old(self)@.blocks.update(
                    block.0 as int,
                    BlockView {
                        instructions: instructions@,
                        terminator: old(self)@.blocks[block.0 as int].terminator,
                    },
                ),
                ..old(self)@
            }),
    {
        let terminator = self.blocks[block.0].terminator;
        self.blocks.set(block.0, BasicBlock { instructions, terminator });
        proof {
            let expected = FunctionView {
                blocks: old(self)@.blocks.update(
                    block.0 as int,
                    BlockView {
                        instructions: instructions@,
                        terminator: old(self)@.blocks[block.0 as int].terminator,
                    },
                ),
                ..old(self)@
            };
            assert(self@.blocks =~= expected.blocks);
            assert(self@.values =~= expected.values);
            assert(self@.blocks[block.0 as int].successors() == old(self)@.blocks[block.0 as int].successors());
            lemma_replace_block_wf(old(self)@, self@, block.0 as int);
        }
    }

    /// The blocks that `block` leads to, in the order of its terminator.
    pub fn successors(&self, block: BasicBlockId) -> (successors: Vec<BasicBlockId>)
        requires
            block.0 < self@.blocks.len(),
        ensures
            successors@ == self@.blocks[block.0 as int].successors(),
    {
        let mut successors: Vec<BasicBlockId> = Vec::new();
        match self.blocks[block.0].terminator {
            Some(Terminator::Jmp { destination }) => {
                successors.push(destination);
            },
            Some(Terminator::JmpIf { then_destination, else_destination, .. }) => {
                successors.push(then_destination);
                successors.push(else_destination);
            },
            _ => {},
        }
        assert(successors@ =~= self@.blocks[block.0 as int].successors());
        successors
    }

    /// The instruction with the number `id`.
    pub fn instruction(&self, id: InstructionId) -> (instruction: Instruction)
        requires
            id.0 < self@.instructions.len(),
        ensures
            instruction == self@.instructions[id.0 as int],
    {
        self.instructions[id.0]
    }

    /// The constant that `value` is, if it is one.
    pub fn get_numeric_constant(&self, value: ValueId) -> (constant: Option<&FieldElement>)
        ensures
            match constant {
                Some(constant) => self@.numeric_constant(value) == Some(constant@),
                None => self@.numeric_constant(value) is None,
            },
    {
        if value.0 < self.values.len() {
            match &self.values[value.0] {
                Value::NumericConstant { constant } => Some(constant),
                _ => None,
            }
        } else {
            None
        }
    }

    /// The kind of the instruction with the number `id`: a marker, with the
    /// constant true as its condition or not, an instruction that must run
    /// under the condition in force, or any other.
    pub fn instruction_kind(&self, id: InstructionId) -> (kind: InstructionKind)
        requires
            id.0 < self@.instructions.len(),
        ensures
            kind == self@.kind(id),
    {
        let instruction = self.instruction(id);
        match instruction {
            Instruction::EnableSideEffects { condition } => {
                let is_true = match self.get_numeric_constant(condition) {
                    Some(constant) => constant.is_one(),
                    None => false,
                };
                if is_true {
                    InstructionKind::EnableAlways
                } else {
                    InstructionKind::EnableIf
                }
            },
            Instruction::ArrayGet { .. } => InstructionKind::Guarded,
            Instruction::ArraySet { .. } => InstructionKind::Guarded,
            _ => {
                if instruction.has_side_effects() {
                    InstructionKind::Guarded
                } else {
                    InstructionKind::Transparent
                }
            },
        }
    }
}

/// A program in SSA form: its functions.
#[derive(Debug)]
pub struct Ssa {
    pub functions: Vec<Function>,
}

} // verus!
