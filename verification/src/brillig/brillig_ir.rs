//! The context that a code generator drives to emit bytecode: it hands out
//! registers and memory, and turns structured operations into opcodes.

use crate::brillig::artifact::{
    BrilligArtifact, BrilligError, JumpLocationView, UnresolvedJump, UnresolvedJumpLocation,
};
use crate::brillig::memory::{block_at, blocks_from, is_run, lemma_run_blocks, BrilligMemory};
use crate::brillig::opcodes::{
    BinaryFieldOp, BinaryIntOp, Opcode, OpcodeView, RegisterIndex, RegisterValueOrArray,
};
use crate::brillig::value::Value;
use crate::field::{canonical, FieldElement};
use vstd::prelude::*;

verus! {

/// A binary operation that the context can emit.
#[derive(Clone, Copy, Debug, PartialEq, Eq)]
#[allow(inconsistent_fields)]
pub enum BrilligBinaryOp {
    /// An operation on field elements: one opcode.
    Field { op: BinaryFieldOp },
    /// An operation on integers of `bit_size` bits: one opcode.
    Integer { op: BinaryIntOp, bit_size: u32 },
    /// The remainder of a division, which the machine has no opcode for.
    Modulo { is_signed_integer: bool, bit_size: u32 },
}

/// The register with the number `n`.
pub open spec fn register(n: nat) -> RegisterIndex {
    RegisterIndex(n as usize)
}

/// The opcodes that compute `result = left % right` on integers of
/// `bit_size` bits as `left - right * (left / right)`, with the division
/// signed or not, when `first` is the first free register.
pub open spec fn modulo_opcodes(
    result: RegisterIndex,
    left: RegisterIndex,
    right: RegisterIndex,
    bit_size: u32,
    signed: bool,
    first: nat,
) -> Seq<OpcodeView> {
    seq![
        OpcodeView::BinaryIntOp {
            destination: register(first),
            op: if signed {
                BinaryIntOp::SignedDiv
            } else {
                BinaryIntOp::UnsignedDiv
            },
            bit_size,
            lhs: left,
            rhs: right,
        },
        OpcodeView::BinaryIntOp {
            destination: register(first + 1),
            op: BinaryIntOp::Mul,
            bit_size,
            lhs: register(first),
            rhs: right,
        },
        OpcodeView::BinaryIntOp {
            destination: result,
            op: BinaryIntOp::Sub,
            bit_size,
            lhs: left,
            rhs: register(first + 1),
        },
    ]
}

/// The number of registers that a binary operation takes for itself.
pub open spec fn binary_registers(operation: BrilligBinaryOp) -> nat {
    match operation {
        BrilligBinaryOp::Modulo { .. } => 2,
        _ => 0,
    }
}

/// The opcodes that compute `result = lhs operation rhs` when `first` is the
/// first free register.
pub open spec fn binary_opcodes(
    lhs: RegisterIndex,
    rhs: RegisterIndex,
    result: RegisterIndex,
    operation: BrilligBinaryOp,
    first: nat,
) -> Seq<OpcodeView> {
    match operation {
        BrilligBinaryOp::Field { op } => seq![
            OpcodeView::BinaryFieldOp { destination: result, op, lhs, rhs },
        ],
        BrilligBinaryOp::Integer { op, bit_size } => seq![
            OpcodeView::BinaryIntOp { destination: result, op, bit_size, lhs, rhs },
        ],
        BrilligBinaryOp::Modulo { is_signed_integer, bit_size } => modulo_opcodes(
            result,
            lhs,
            rhs,
            bit_size,
            is_signed_integer,
            first,
        ),
    }
}

/// The opcodes that compute the address `array_ptr + index` into the
/// register `first`, as field elements.
pub open spec fn element_address_opcode(
    array_ptr: RegisterIndex,
    index: RegisterIndex,
    first: nat,
) -> OpcodeView {
    OpcodeView::BinaryFieldOp {
        destination: register(first),
        op: BinaryFieldOp::Add,
        lhs: array_ptr,
        rhs: index,
    }
}

/// The opcodes that read the element `index` of the array at `array_ptr`
/// into `result` when `first` is the first free register.
pub open spec fn array_get_opcodes(
    array_ptr: RegisterIndex,
    index: RegisterIndex,
    result: RegisterIndex,
    first: nat,
) -> Seq<OpcodeView> {
    seq![
        element_address_opcode(array_ptr, index, first),
        OpcodeView::Load { destination: result, source_pointer: register(first) },
    ]
}

/// The opcodes that write `value` to the element `index` of the array at
/// `array_ptr` when `first` is the first free register.
pub open spec fn array_store_opcodes(
    array_ptr: RegisterIndex,
    index: RegisterIndex,
    value: RegisterIndex,
    first: nat,
) -> Seq<OpcodeView> {
    seq![
        element_address_opcode(array_ptr, index, first),
        OpcodeView::Store { destination_pointer: register(first), source: value },
    ]
}

/// Emits bytecode for one function.
pub struct BrilligContext {
    obj: BrilligArtifact,
    /// The first register that is not in use.
    latest_register: usize,
    /// The memory handed out so far.
    memory: BrilligMemory,
}

impl BrilligContext {
    /// The artifact built so far.
    pub closed spec fn obj(&self) -> BrilligArtifact {
        self.obj
    }

    /// The number of the first register that is not in use.
    pub closed spec fn latest_register(&self) -> nat {
        self.latest_register as nat
    }

    /// The number of memory cells handed out so far.
    pub closed spec fn memory(&self) -> nat {
        self.memory@
    }

    /// The opcodes emitted so far.
    pub open spec fn opcodes(&self) -> Seq<OpcodeView> {
        self.obj().opcodes()
    }

    /// The artifact built so far is well formed.
    pub open spec fn wf(&self) -> bool {
        self.obj().wf()
    }

    /// Whether `self` is what `before` becomes by emitting `opcodes` and
    /// taking `registers` registers, with labels, pending jumps and memory
    /// left alone.
    pub open spec fn emitted(&self, before: &Self, opcodes: Seq<OpcodeView>, registers: nat) -> bool {
        &&& self.wf()
        &&& self.opcodes() == before.opcodes() + opcodes
        &&& self.obj().unresolved() == before.obj().unresolved()
        &&& self.obj().labels() == before.obj().labels()
        &&& self.latest_register() == before.latest_register() + registers
        &&& self.memory() == before.memory()
    }

    /// Whether `self` is what `before` becomes by emitting the jump `opcode`
    /// that waits for `target`, and nothing else.
    pub open spec fn emitted_jump(&self, before: &Self, opcode: OpcodeView, target: JumpLocationView) -> bool {
        &&& self.wf()
        &&& self.opcodes() == before.opcodes().push(opcode)
        &&& self.obj().unresolved() == before.obj().unresolved().push(
            (before.opcodes().len() as usize, target),
        )
        &&& self.obj().labels() == before.obj().labels()
        &&& self.latest_register() == before.latest_register()
        &&& self.memory() == before.memory()
    }

    /// Whether `self` can come after `before` in the life of one context:
    /// no register and no memory cell was taken back.
    pub open spec fn follows(&self, before: &Self) -> bool {
        &&& before.latest_register() <= self.latest_register()
        &&& before.memory() <= self.memory()
    }

    /// The registers in use, the memory cells taken and the opcodes emitted
    /// can each be counted by the machine.
    pub proof fn lemma_bounded(&self)
        ensures
            self.latest_register() <= usize::MAX,
            self.memory() <= usize::MAX,
            self.opcodes().len() <= usize::MAX,
    {
        self.memory.lemma_bounded();
        self.obj.lemma_bounded();
    }

    /// A context that has emitted nothing and handed out nothing.
    pub fn new() -> (context: Self)
        ensures
            context.wf(),
            context.opcodes() == Seq::<OpcodeView>::empty(),
            context.obj().unresolved() == Seq::<UnresolvedJump>::empty(),
            context.obj().labels() == Map::<Seq<char>, usize>::empty(),
            context.latest_register() == 0,
            context.memory() == 0,
    {
        BrilligContext { obj: BrilligArtifact::new(), latest_register: 0, memory: BrilligMemory::new() }
    }

    /// Appends `opcode` to the bytecode.
    pub fn push_opcode(&mut self, opcode: Opcode)
        requires
            old(self).wf(),
        ensures
            final(self).follows(old(self)),
            final(self).emitted(old(self), seq![opcode@], 0),
    {
        self.obj.push_opcode(opcode);
        assert(self.opcodes() =~= old(self).opcodes() + seq![opcode@]);
    }

    /// Hands out the artifact built so far.
    pub fn artifact(self) -> (artifact: BrilligArtifact)
        ensures
            artifact == self.obj(),
    {
        self.obj
    }

    /// Binds `label` to the position of the next opcode, unless it is bound
    /// already.
    pub fn add_label_to_next_opcode(&mut self, label: String) -> (result: Result<(), BrilligError>)
        requires
            old(self).wf(),
        ensures
            final(self).follows(old(self)),
            final(self).wf(),
            final(self).opcodes() == old(self).opcodes(),
            final(self).obj().unresolved() == old(self).obj().unresolved(),
            final(self).latest_register() == old(self).latest_register(),
            final(self).memory() == old(self).memory(),
            old(self).obj().labels().contains_key(label@) ==> result == Err::<(), BrilligError>(
                BrilligError::DuplicateLabel,
            ) && final(self).obj().labels() == old(self).obj().labels(),
            !old(self).obj().labels().contains_key(label@) ==> result == Ok::<(), BrilligError>(())
                && final(self).obj().labels() == old(self).obj().labels().insert(
                label@,
                old(self).opcodes().len() as usize,
            ),
    {
        let position: usize = self.obj.index_of_next_opcode();
        self.obj.add_label_at_position(label, position)
    }

    /// Emits a jump to the position that `target_label` is bound to when the
    /// artifact is linked.
    pub fn jump_instruction(&mut self, target_label: String)
        requires
            old(self).wf(),
        ensures
            final(self).follows(old(self)),
            final(self).emitted_jump(
                old(self),
                OpcodeView::Jump { location: 0 },
                JumpLocationView::Label(target_label@),
            ),
    {
        self.add_unresolved_jump(
            Opcode::Jump { location: 0 },
            UnresolvedJumpLocation::Label(target_label),
        );
    }

    /// Emits a jump, taken if `condition` holds a value other than zero, to
    /// the position that `target_label` is bound to when the artifact is
    /// linked.
    pub fn jump_if_instruction(&mut self, condition: RegisterIndex, target_label: String)
        requires
            old(self).wf(),
        ensures
            final(self).follows(old(self)),
            final(self).emitted_jump(
                old(self),
                OpcodeView::JumpIf { condition, location: 0 },
                JumpLocationView::Label(target_label@),
            ),
    {
        self.add_unresolved_jump(
            Opcode::JumpIf { condition, location: 0 },
            UnresolvedJumpLocation::Label(target_label),
        );
    }

    /// Emits the jump `jmp_instruction`, which waits for `destination`.
    fn add_unresolved_jump(&mut self, jmp_instruction: Opcode, destination: UnresolvedJumpLocation)
        requires
            old(self).wf(),
            jmp_instruction@.is_jump(),
            destination@ is Relative ==> 0 <= old(self).opcodes().len() + destination@->Relative_0
                <= usize::MAX,
        ensures
            final(self).follows(old(self)),
            final(self).emitted_jump(old(self), jmp_instruction@, destination@),
    {
        self.obj.add_unresolved_jump(jmp_instruction, destination);
    }

    /// The register that the next call of `create_register` hands out.
    pub open spec fn next_register(&self) -> RegisterIndex {
        register(self.latest_register())
    }

    /// Hands out a register that was not in use.
    pub fn create_register(&mut self) -> (register: RegisterIndex)
        requires
            old(self).wf(),
            old(self).latest_register() < usize::MAX,
        ensures
            final(self).follows(old(self)),
            register == old(self).next_register(),
            final(self).emitted(old(self), Seq::empty(), 1),
    {
        let register = RegisterIndex::from(self.latest_register);
        self.latest_register += 1;
        assert(self.opcodes() =~= old(self).opcodes() + Seq::empty());
        register
    }
}

/// The opcodes that trap unless `condition` holds: a jump over the trap,
/// and the trap.
pub open spec fn constrain_opcodes(condition: RegisterIndex) -> Seq<OpcodeView> {
    seq![OpcodeView::JumpIf { condition, location: 0 }, OpcodeView::Trap]
}

/// The opcodes that move the return values into the registers from 0 on and
/// stop.
pub open spec fn return_opcodes(return_registers: Seq<RegisterIndex>) -> Seq<OpcodeView> {
    Seq::new(
        return_registers.len(),
        |i: int| OpcodeView::Mov { destination: register(i as nat), source: return_registers[i] },
    ).push(OpcodeView::Stop)
}

/// The first free register after `count` values were returned, when it was
/// `latest` before: the last register written to, if that is further on.
pub open spec fn latest_after_return(latest: nat, count: nat) -> nat {
    if count > 0 && count - 1 > latest {
        (count - 1) as nat
    } else {
        latest
    }
}

/// The opcodes that compute `result = 1 - condition` on one bit when `first`
/// is the first free register.
pub open spec fn not_opcodes(condition: RegisterIndex, result: RegisterIndex, first: nat) -> Seq<
    OpcodeView,
> {
    seq![
        OpcodeView::Const { destination: register(first), value: canonical(1) },
        OpcodeView::BinaryIntOp {
            destination: result,
            op: BinaryIntOp::Sub,
            bit_size: 1,
            lhs: register(first),
            rhs: condition,
        },
    ]
}

/// The number of registers that allocating an array takes.
pub open spec fn allocate_array_registers(prefilled: bool) -> nat {
    if prefilled {
        0
    } else {
        2
    }
}

/// The opcodes that allocate the block `block` and load its start into
/// `pointer_register` when `first` is the first free register. Unless the
/// block is filled already, a zero is stored at its end first, which makes
/// the machine reserve and clear the cells up to there.
pub open spec fn allocate_array_opcodes(
    pointer_register: RegisterIndex,
    block: (nat, nat),
    prefilled: bool,
    first: nat,
) -> Seq<OpcodeView> {
    let load_start = OpcodeView::Const { destination: pointer_register, value: canonical(block.0) };
    if prefilled {
        seq![load_start]
    } else {
        seq![
            OpcodeView::Const { destination: register(first), value: canonical(block.1) },
            OpcodeView::Const { destination: register(first + 1), value: canonical(0) },
            OpcodeView::Store { destination_pointer: register(first), source: register(first + 1) },
            load_start,
        ]
    }
}

/// The number of registers that one element takes when an operation is
/// applied to two arrays.
pub open spec fn arrays_binary_step_registers(operation: BrilligBinaryOp) -> nat {
    3 + binary_registers(operation)
}

/// The number of registers that applying an operation to two arrays of `n`
/// elements takes.
pub open spec fn arrays_binary_registers(n: nat, operation: BrilligBinaryOp) -> nat {
    4 + n * arrays_binary_step_registers(operation)
}

/// The opcodes for element `i` when an operation is applied to two arrays:
/// both elements are loaded, the operation is applied, and the result is
/// stored. The four registers from `first` on hold the result, the index
/// and the two elements; `scratch` is the first free register.
pub open spec fn arrays_binary_step(
    lhs_array_ptr: RegisterIndex,
    rhs_array_ptr: RegisterIndex,
    result_array_ptr: RegisterIndex,
    i: nat,
    operation: BrilligBinaryOp,
    first: nat,
    scratch: nat,
) -> Seq<OpcodeView> {
    let comparison = register(first);
    let index = register(first + 1);
    let left = register(first + 2);
    let right = register(first + 3);
    let load_index = OpcodeView::Const { destination: index, value: canonical(i) };
    seq![load_index] + array_get_opcodes(lhs_array_ptr, index, left, scratch) + seq![load_index]
        + array_get_opcodes(rhs_array_ptr, index, right, scratch + 1) + binary_opcodes(
        left,
        right,
        comparison,
        operation,
        scratch + 2,
    ) + seq![load_index] + array_store_opcodes(
        result_array_ptr,
        index,
        comparison,
        scratch + 2 + binary_registers(operation),
    )
}

/// The opcodes that apply an operation to the first `n` elements of two
/// arrays, element by element, when `first` is the first free register.
pub open spec fn arrays_binary_opcodes(
    lhs_array_ptr: RegisterIndex,
    rhs_array_ptr: RegisterIndex,
    result_array_ptr: RegisterIndex,
    n: nat,
    operation: BrilligBinaryOp,
    first: nat,
) -> Seq<OpcodeView>
    decreases n,
{
    if n == 0 {
        Seq::empty()
    } else {
        arrays_binary_opcodes(
            lhs_array_ptr,
            rhs_array_ptr,
            result_array_ptr,
            (n - 1) as nat,
            operation,
            first,
        ) + arrays_binary_step(
            lhs_array_ptr,
            rhs_array_ptr,
            result_array_ptr,
            (n - 1) as nat,
            operation,
            first,
            (first + 4 + (n - 1) * arrays_binary_step_registers(operation)) as nat,
        )
    }
}

/// The number of registers that one element takes when an array is folded.
pub open spec fn array_reduce_step_registers(operation: BrilligBinaryOp) -> nat {
    1 + binary_registers(operation)
}

/// The number of registers that folding an array of `n` elements takes.
pub open spec fn array_reduce_registers(n: nat, operation: BrilligBinaryOp) -> nat {
    2 + n * array_reduce_step_registers(operation)
}

/// The opcodes for element `i` when an array is folded into
/// `result_register`: the element is loaded and the operation is applied to
/// the accumulator and the element. The two registers from `first` on hold
/// the index and the element; `scratch` is the first free register.
pub open spec fn array_reduce_step(
    array_ptr: RegisterIndex,
    result_register: RegisterIndex,
    i: nat,
    operation: BrilligBinaryOp,
    first: nat,
    scratch: nat,
) -> Seq<OpcodeView> {
    let index = register(first);
    let value = register(first + 1);
    seq![OpcodeView::Const { destination: index, value: canonical(i) }] + array_get_opcodes(
        array_ptr,
        index,
        value,
        scratch,
    ) + binary_opcodes(result_register, value, result_register, operation, scratch + 1)
}

/// The opcodes that fold the first `n` elements of an array into
/// `result_register`, from the left, when `first` is the first free
/// register.
pub open spec fn array_reduce_opcodes(
    array_ptr: RegisterIndex,
    result_register: RegisterIndex,
    n: nat,
    operation: BrilligBinaryOp,
    first: nat,
) -> Seq<OpcodeView>
    decreases n,
{
    if n == 0 {
        Seq::empty()
    } else {
        array_reduce_opcodes(array_ptr, result_register, (n - 1) as nat, operation, first)
            + array_reduce_step(
            array_ptr,
            result_register,
            (n - 1) as nat,
            operation,
            first,
            (first + 2 + (n - 1) * array_reduce_step_registers(operation)) as nat,
        )
    }
}

impl BrilligContext {
    /// Emits a move of `source` into `destination`.
    pub fn mov_instruction(&mut self, destination: RegisterIndex, source: RegisterIndex)
        requires
            old(self).wf(),
        ensures
            final(self).follows(old(self)),
            final(self).emitted(old(self), seq![OpcodeView::Mov { destination, source }], 0),
    {
        self.push_opcode(Opcode::Mov { destination, source });
    }

    /// Emits a load of `constant` into `result`.
    pub fn const_instruction(&mut self, result: RegisterIndex, constant: Value)
        requires
            old(self).wf(),
        ensures
            final(self).follows(old(self)),
            final(self).emitted(
                old(self),
                seq![OpcodeView::Const { destination: result, value: constant@ }],
                0,
            ),
    {
        self.push_opcode(Opcode::Const { destination: result, value: constant });
    }

    /// Emits a read of the cell that `source_pointer` points to.
    pub fn load_instruction(&mut self, destination: RegisterIndex, source_pointer: RegisterIndex)
        requires
            old(self).wf(),
        ensures
            final(self).follows(old(self)),
            final(self).emitted(
                old(self),
                seq![OpcodeView::Load { destination, source_pointer }],
                0,
            ),
    {
        self.push_opcode(Opcode::Load { destination, source_pointer });
    }

    /// Emits a write of `source` to the cell that `destination_pointer`
    /// points to.
    pub fn store_instruction(&mut self, destination_pointer: RegisterIndex, source: RegisterIndex)
        requires
            old(self).wf(),
        ensures
            final(self).follows(old(self)),
            final(self).emitted(
                old(self),
                seq![OpcodeView::Store { destination_pointer, source }],
                0,
            ),
    {
        self.push_opcode(Opcode::Store { destination_pointer, source });
    }

    /// Emits a truncation, which is a move: the machine wraps every integer
    /// operation to its bit width by itself.
    pub fn truncate_instruction(
        &mut self,
        destination_of_truncated_value: RegisterIndex,
        value_to_truncate: RegisterIndex,
    )
        requires
            old(self).wf(),
        ensures
            final(self).follows(old(self)),
            final(self).emitted(
                old(self),
                seq![
                    OpcodeView::Mov {
                        destination: destination_of_truncated_value,
                        source: value_to_truncate,
                    },
                ],
                0,
            ),
    {
        self.mov_instruction(destination_of_truncated_value, value_to_truncate);
    }

    /// Emits a stop.
    pub fn stop_instruction(&mut self)
        requires
            old(self).wf(),
        ensures
            final(self).follows(old(self)),
            final(self).emitted(old(self), seq![OpcodeView::Stop], 0),
    {
        self.push_opcode(Opcode::Stop);
    }

    /// Loads `constant` into a register that was not in use, and hands the
    /// register out.
    pub fn make_constant(&mut self, constant: Value) -> (register: RegisterIndex)
        requires
            old(self).wf(),
            old(self).latest_register() < usize::MAX,
        ensures
            final(self).follows(old(self)),
            register == old(self).next_register(),
            final(self).emitted(
                old(self),
                seq![OpcodeView::Const { destination: register, value: constant@ }],
                1,
            ),
    {
        let register = self.create_register();
        self.const_instruction(register, constant);
        assert(self.opcodes() =~= old(self).opcodes() + seq![
            OpcodeView::Const { destination: register, value: constant@ },
        ]);
        register
    }

    /// Emits `result_register = left % right` on integers of `bit_size`
    /// bits, as `left - right * (left / right)`: the machine has no opcode
    /// for the remainder, so it is what the chosen division leaves.
    pub fn modulo_instruction(
        &mut self,
        result_register: RegisterIndex,
        left: RegisterIndex,
        right: RegisterIndex,
        bit_size: u32,
        signed: bool,
    )
        requires
            old(self).wf(),
            old(self).latest_register() + 2 <= usize::MAX,
        ensures
            final(self).follows(old(self)),
            final(self).emitted(
                old(self),
                modulo_opcodes(
                    result_register,
                    left,
                    right,
                    bit_size,
                    signed,
                    old(self).latest_register(),
                ),
                2,
            ),
    {
        let scratch_register_i = self.create_register();
        let scratch_register_j = self.create_register();

        // i = left / right
        self.push_opcode(
            Opcode::BinaryIntOp {
                op: if signed {
                    BinaryIntOp::SignedDiv
                } else {
                    BinaryIntOp::UnsignedDiv
                },
                destination: scratch_register_i,
                bit_size,
                lhs: left,
                rhs: right,
            },
        );

        // j = i * right
        self.push_opcode(
            Opcode::BinaryIntOp {
                op: BinaryIntOp::Mul,
                destination: scratch_register_j,
                bit_size,
                lhs: scratch_register_i,
                rhs: right,
            },
        );

        // result_register = left - j
        self.push_opcode(
            Opcode::BinaryIntOp {
                op: BinaryIntOp::Sub,
                destination: result_register,
                bit_size,
                lhs: left,
                rhs: scratch_register_j,
            },
        );
        assert(self.opcodes() =~= old(self).opcodes() + modulo_opcodes(
            result_register,
            left,
            right,
            bit_size,
            signed,
            old(self).latest_register(),
        ));
    }

    /// Emits `result = lhs operation rhs`.
    pub fn binary_instruction(
        &mut self,
        lhs: RegisterIndex,
        rhs: RegisterIndex,
        result: RegisterIndex,
        operation: BrilligBinaryOp,
    )
        requires
            old(self).wf(),
            old(self).latest_register() + binary_registers(operation) <= usize::MAX,
        ensures
            final(self).follows(old(self)),
            final(self).emitted(
                old(self),
                binary_opcodes(lhs, rhs, result, operation, old(self).latest_register()),
                binary_registers(operation),
            ),
    {
        match operation {
            BrilligBinaryOp::Field { op } => {
                let opcode = Opcode::BinaryFieldOp { op, destination: result, lhs, rhs };
                self.push_opcode(opcode);
            },
            BrilligBinaryOp::Integer { op, bit_size } => {
                let opcode = Opcode::BinaryIntOp { op, destination: result, bit_size, lhs, rhs };
                self.push_opcode(opcode);
            },
            BrilligBinaryOp::Modulo { is_signed_integer, bit_size } => {
                self.modulo_instruction(result, lhs, rhs, bit_size, is_signed_integer);
            },
        }
    }

    /// Emits a read of the element `index` of the array at `array_ptr` into
    /// `result`. The address is the sum of pointer and index as field
    /// elements.
    pub fn array_get(&mut self, array_ptr: RegisterIndex, index: RegisterIndex, result: RegisterIndex)
        requires
            old(self).wf(),
            old(self).latest_register() < usize::MAX,
        ensures
            final(self).follows(old(self)),
            final(self).emitted(
                old(self),
                array_get_opcodes(array_ptr, index, result, old(self).latest_register()),
                1,
            ),
    {
        // Computes array_ptr + index, ie array[index]
        let index_of_element_in_memory = self.create_register();
        self.binary_instruction(
            array_ptr,
            index,
            index_of_element_in_memory,
            BrilligBinaryOp::Field { op: BinaryFieldOp::Add },
        );

        self.load_instruction(result, index_of_element_in_memory);
        assert(self.opcodes() =~= old(self).opcodes() + array_get_opcodes(
            array_ptr,
            index,
            result,
            old(self).latest_register(),
        ));
    }

    /// Emits a write of `value` to the element `index` of the array at
    /// `array_ptr`. The address is the sum of pointer and index as field
    /// elements.
    pub fn array_store(&mut self, array_ptr: RegisterIndex, index: RegisterIndex, value: RegisterIndex)
        requires
            old(self).wf(),
            old(self).latest_register() < usize::MAX,
        ensures
            final(self).follows(old(self)),
            final(self).emitted(
                old(self),
                array_store_opcodes(array_ptr, index, value, old(self).latest_register()),
                1,
            ),
    {
        // Computes array_ptr + index, ie array[index]
        let index_of_element_in_memory = self.create_register();
        self.binary_instruction(
            array_ptr,
            index,
            index_of_element_in_memory,
            BrilligBinaryOp::Field { op: BinaryFieldOp::Add },
        );

        self.store_instruction(index_of_element_in_memory, value);
        assert(self.opcodes() =~= old(self).opcodes() + array_store_opcodes(
            array_ptr,
            index,
            value,
            old(self).latest_register(),
        ));
    }

    /// Emits `result = !condition` for a register that holds one bit, as
    /// `1 - condition`: the machine has no opcode for it.
    pub fn not_instruction(&mut self, condition: RegisterIndex, result: RegisterIndex)
        requires
            old(self).wf(),
            old(self).latest_register() < usize::MAX,
        ensures
            final(self).follows(old(self)),
            final(self).emitted(
                old(self),
                not_opcodes(condition, result, old(self).latest_register()),
                1,
            ),
    {
        let one = self.make_constant(Value::from_field(FieldElement::one()));

        // Compile !x as (1 - x)
        let opcode = Opcode::BinaryIntOp {
            destination: result,
            op: BinaryIntOp::Sub,
            bit_size: 1,
            lhs: one,
            rhs: condition,
        };
        self.push_opcode(opcode);
        assert(self.opcodes() =~= old(self).opcodes() + not_opcodes(
            condition,
            result,
            old(self).latest_register(),
        ));
    }

    /// Emits a trap that is skipped if `condition` holds: a jump over one
    /// opcode, and the trap.
    pub fn constrain_instruction(&mut self, condition: RegisterIndex)
        requires
            old(self).wf(),
            old(self).opcodes().len() + 2 <= usize::MAX,
        ensures
            final(self).follows(old(self)),
            final(self).wf(),
            final(self).opcodes() == old(self).opcodes() + constrain_opcodes(condition),
            final(self).obj().unresolved() == old(self).obj().unresolved().push(
                (old(self).opcodes().len() as usize, JumpLocationView::Relative(2)),
            ),
            final(self).obj().labels() == old(self).obj().labels(),
            final(self).latest_register() == old(self).latest_register(),
            final(self).memory() == old(self).memory(),
    {
        // Jump to the relative location after the trap
        self.add_unresolved_jump(
            Opcode::JumpIf { condition, location: 0 },
            UnresolvedJumpLocation::Relative(2),
        );
        self.push_opcode(Opcode::Trap);
        assert(self.opcodes() =~= old(self).opcodes() + constrain_opcodes(condition));
    }

    /// Emits a call of the host's function `func_name` with the one input
    /// and the one output: one operand each way is all that a foreign call
    /// carries. With any other number of inputs or of outputs the call is
    /// refused and nothing is emitted; no operand is dropped.
    pub fn foreign_call_instruction(
        &mut self,
        func_name: String,
        inputs: &[RegisterValueOrArray],
        outputs: &[RegisterValueOrArray],
    ) -> (result: Result<(), BrilligError>)
        requires
            old(self).wf(),
        ensures
            final(self).follows(old(self)),
            inputs@.len() != 1 || outputs@.len() != 1 ==> result == Err::<(), BrilligError>(
                BrilligError::MalformedOperands,
            ) && *final(self) == *old(self),
            inputs@.len() == 1 && outputs@.len() == 1 ==> result == Ok::<(), BrilligError>(())
                && final(self).emitted(
                old(self),
                seq![
                    OpcodeView::ForeignCall {
                        function: func_name@,
                        destination: outputs@[0],
                        input: inputs@[0],
                    },
                ],
                0,
            ),
    {
        if inputs.len() != 1 || outputs.len() != 1 {
            return Err(BrilligError::MalformedOperands);
        }
        let opcode = Opcode::ForeignCall {
            function: func_name,
            destination: outputs[0],
            input: inputs[0],
        };
        self.push_opcode(opcode);
        Ok(())
    }
}

impl BrilligContext {
    /// Allocates an array of `size` cells and emits a load of its start into
    /// `pointer_register`. Unless the array is filled already, a zero is
    /// stored at its end first: the machine then reserves and clears all the
    /// cells up to there.
    pub fn allocate_array(&mut self, pointer_register: RegisterIndex, size: u32, prefilled: bool)
        requires
            old(self).wf(),
            old(self).memory() + size <= usize::MAX,
            old(self).latest_register() + allocate_array_registers(prefilled) <= usize::MAX,
        ensures
            final(self).follows(old(self)),
            final(self).wf(),
            final(self).opcodes() == old(self).opcodes() + allocate_array_opcodes(
                pointer_register,
                block_at(old(self).memory(), size as nat),
                prefilled,
                old(self).latest_register(),
            ),
            final(self).obj().unresolved() == old(self).obj().unresolved(),
            final(self).obj().labels() == old(self).obj().labels(),
            final(self).latest_register() == old(self).latest_register() + allocate_array_registers(
                prefilled,
            ),
            final(self).memory() == old(self).memory() + size,
    {
        let allocation = self.memory.allocate(size as usize);

        // If the array is prefilled (for example, parameter arrays), then we do not need to expand memory
        if !prefilled {
            // Create a new register to store the pointer to the memory address
            // of the last element in the array
            let end_memory_address = self.create_register();
            self.const_instruction(end_memory_address, Value::from_usize(allocation.end_address));
            // Emit a store instruction for the last element in the array.
            // The VM will expand the memory and zero fill all of the elements
            // from `start_address` to `end_address`
            //
            // Since it is a store instruction, we need to indicate a value to
            // store at `end_address` in memory. We will store zero here.
            let zero = self.create_register();
            self.const_instruction(zero, Value::from_u128(0u128));
            self.store_instruction(end_memory_address, zero);
        }
        self.push_opcode(
            Opcode::Const {
                destination: pointer_register,
                value: Value::from_usize(allocation.start_address),
            },
        );
        assert(self.opcodes() =~= old(self).opcodes() + allocate_array_opcodes(
            pointer_register,
            block_at(old(self).memory(), size as nat),
            prefilled,
            old(self).latest_register(),
        ));
    }

    /// Emits the return of the values in `return_registers`: the machine has
    /// no opcode for it, so the values are moved into the registers from 0
    /// on, where the caller reads them after the stop. A destination beyond
    /// the registers in use becomes the first free register.
    pub fn return_instruction(&mut self, return_registers: &[RegisterIndex])
        requires
            old(self).wf(),
        ensures
            final(self).follows(old(self)),
            final(self).wf(),
            final(self).opcodes() == old(self).opcodes() + return_opcodes(return_registers@),
            final(self).obj().unresolved() == old(self).obj().unresolved(),
            final(self).obj().labels() == old(self).obj().labels(),
            final(self).latest_register() == latest_after_return(
                old(self).latest_register(),
                return_registers@.len(),
            ),
            final(self).memory() == old(self).memory(),
    {
        let mut destination_index: usize = 0;
        while destination_index < return_registers.len()
            invariant
                destination_index <= return_registers@.len(),
                self.wf(),
                self.opcodes() == old(self).opcodes() + Seq::new(
                    destination_index as nat,
                    |i: int|
                        OpcodeView::Mov { destination: register(i as nat), source: return_registers@[i] },
                ),
                self.obj().unresolved() == old(self).obj().unresolved(),
                self.obj().labels() == old(self).obj().labels(),
                self.latest_register() == latest_after_return(
                    old(self).latest_register(),
                    destination_index as nat,
                ),
                self.memory() == old(self).memory(),
            decreases return_registers@.len() - destination_index,
        {
            // If the destination register index is more than the latest register,
            // we update the latest register to be the destination register because the
            // brillig vm will expand the number of registers internally, when it encounters
            // a register that has not been initialized.
            if destination_index > self.latest_register {
                self.latest_register = destination_index;
            }
            let ghost before = self.opcodes();
            self.mov_instruction(RegisterIndex::from(destination_index), return_registers[destination_index]);
            assert(self.opcodes() =~= old(self).opcodes() + Seq::new(
                (destination_index + 1) as nat,
                |i: int| OpcodeView::Mov { destination: register(i as nat), source: return_registers@[i] },
            ));
            destination_index = destination_index + 1;
        }
        self.stop_instruction();
        assert(self.opcodes() =~= old(self).opcodes() + return_opcodes(return_registers@));
    }

    /// Emits, for each of the first `num_elements` elements of the arrays at
    /// `lhs_array_ptr` and `rhs_array_ptr`, the operation on the two
    /// elements and a store of its result to the array at
    /// `result_array_ptr`. The loop is unrolled: the machine runs none.
    pub fn arrays_binary_instruction(
        &mut self,
        lhs_array_ptr: RegisterIndex,
        rhs_array_ptr: RegisterIndex,
        result_array_ptr: RegisterIndex,
        num_elements: u32,
        binary_operation: BrilligBinaryOp,
    )
        requires
            old(self).wf(),
            old(self).latest_register() + arrays_binary_registers(
                num_elements as nat,
                binary_operation,
            ) <= usize::MAX,
        ensures
            final(self).follows(old(self)),
            final(self).emitted(
                old(self),
                arrays_binary_opcodes(
                    lhs_array_ptr,
                    rhs_array_ptr,
                    result_array_ptr,
                    num_elements as nat,
                    binary_operation,
                    old(self).latest_register(),
                ),
                arrays_binary_registers(num_elements as nat, binary_operation),
            ),
    {
        let ghost first = self.latest_register();
        let ghost per_element = arrays_binary_step_registers(binary_operation);
        // Reserve a register for the result of each comparation
        let index_comparison_register = self.create_register();

        // Reserve a register for the index being compared
        let index_register = self.create_register();

        // Reserve registers for the values of left and right
        let left_value_register = self.create_register();
        let right_value_register = self.create_register();

        assert(self.opcodes() =~= old(self).opcodes() + Seq::empty());
        let mut i: u32 = 0;
        while i < num_elements
            invariant
                i <= num_elements,
                first == old(self).latest_register(),
                per_element == arrays_binary_step_registers(binary_operation),
                first + 4 + num_elements * per_element <= usize::MAX,
                index_comparison_register == register(first),
                index_register == register(first + 1),
                left_value_register == register(first + 2),
                right_value_register == register(first + 3),
                self.emitted(
                    old(self),
                    arrays_binary_opcodes(
                        lhs_array_ptr,
                        rhs_array_ptr,
                        result_array_ptr,
                        i as nat,
                        binary_operation,
                        first,
                    ),
                    (4 + i * per_element) as nat,
                ),
            decreases num_elements - i,
        {
            let ghost scratch = self.latest_register();
            assert((i + 1) * per_element == i * per_element + per_element) by (nonlinear_arith);
            assert((i + 1) * per_element <= num_elements * per_element) by (nonlinear_arith)
                requires
                    i + 1 <= num_elements,
            ;
            // Load both values
            self.const_instruction(index_register, Value::from_u128(i as u128));
            self.array_get(lhs_array_ptr, index_register, left_value_register);
            self.const_instruction(index_register, Value::from_u128(i as u128));
            self.array_get(rhs_array_ptr, index_register, right_value_register);

            // Compare the values
            self.binary_instruction(
                left_value_register,
                right_value_register,
                index_comparison_register,
                binary_operation,
            );
            self.const_instruction(index_register, Value::from_u128(i as u128));
            self.array_store(result_array_ptr, index_register, index_comparison_register);
            assert(self.opcodes() =~= old(self).opcodes() + arrays_binary_opcodes(
                lhs_array_ptr,
                rhs_array_ptr,
                result_array_ptr,
                (i + 1) as nat,
                binary_operation,
                first,
            ));
            i = i + 1;
        }
    }

    /// Emits the fold of the first `num_elements` elements of the array at
    /// `array_ptr` into `result_register`, from the left: for each element,
    /// the operation on the accumulator and the element. The caller has put
    /// the first value into `result_register`.
    pub fn array_reduce(
        &mut self,
        array_ptr: RegisterIndex,
        result_register: RegisterIndex,
        num_elements: u32,
        reduce_operation: BrilligBinaryOp,
    )
        requires
            old(self).wf(),
            old(self).latest_register() + array_reduce_registers(
                num_elements as nat,
                reduce_operation,
            ) <= usize::MAX,
        ensures
            final(self).follows(old(self)),
            final(self).emitted(
                old(self),
                array_reduce_opcodes(
                    array_ptr,
                    result_register,
                    num_elements as nat,
                    reduce_operation,
                    old(self).latest_register(),
                ),
                array_reduce_registers(num_elements as nat, reduce_operation),
            ),
    {
        let ghost first = self.latest_register();
        let ghost per_element = array_reduce_step_registers(reduce_operation);
        // Reserve a register for the index being compared
        let index_register = self.create_register();

        // Reserve register for the value at the index
        let value_register = self.create_register();

        assert(self.opcodes() =~= old(self).opcodes() + Seq::empty());
        let mut i: u32 = 0;
        while i < num_elements
            invariant
                i <= num_elements,
                first == old(self).latest_register(),
                per_element == array_reduce_step_registers(reduce_operation),
                first + 2 + num_elements * per_element <= usize::MAX,
                index_register == register(first),
                value_register == register(first + 1),
                self.emitted(
                    old(self),
                    array_reduce_opcodes(
                        array_ptr,
                        result_register,
                        i as nat,
                        reduce_operation,
                        first,
                    ),
                    (2 + i * per_element) as nat,
                ),
            decreases num_elements - i,
        {
            assert((i + 1) * per_element == i * per_element + per_element) by (nonlinear_arith);
            assert((i + 1) * per_element <= num_elements * per_element) by (nonlinear_arith)
                requires
                    i + 1 <= num_elements,
            ;
            // Load value
            self.const_instruction(index_register, Value::from_u128(i as u128));
            self.array_get(array_ptr, index_register, value_register);

            // Reduce the value
            self.binary_instruction(result_register, value_register, result_register, reduce_operation);
            assert(self.opcodes() =~= old(self).opcodes() + array_reduce_opcodes(
                array_ptr,
                result_register,
                (i + 1) as nat,
                reduce_operation,
                first,
            ));
            i = i + 1;
        }
    }
}

impl Default for BrilligContext {
    /// A context that has emitted nothing and handed out nothing.
    fn default() -> (context: Self)
        ensures
            context.wf(),
            context.opcodes() == Seq::<OpcodeView>::empty(),
            context.obj().unresolved() == Seq::<UnresolvedJump>::empty(),
            context.obj().labels() == Map::<Seq<char>, usize>::empty(),
            context.latest_register() == 0,
            context.memory() == 0,
    {
        BrilligContext::new()
    }
}

/// Whether `history` can be the life of one context: each state follows
/// the one before it, as it does after every operation of the context.
pub open spec fn is_history(history: Seq<BrilligContext>) -> bool {
    forall|k: int| 0 <= k < history.len() - 1 ==> precedes(#[trigger] history[k], history[k + 1])
}

/// Whether `after` can come after `before` in the life of one context.
pub open spec fn precedes(before: BrilligContext, after: BrilligContext) -> bool {
    after.follows(&before)
}

/// In the life of a context no register and no memory cell is ever taken
/// back, however many operations lie between two states.
pub proof fn lemma_history_follows(history: Seq<BrilligContext>, i: int, j: int)
    requires
        is_history(history),
        0 <= i <= j < history.len(),
    ensures
        history[j].follows(&history[i]),
    decreases j - i,
{
    if i < j {
        lemma_history_follows(history, i, j - 1);
        assert(precedes(history[j - 1], history[j - 1 + 1]));
    }
}

/// Registers are handed out in rising order over the whole life of a
/// context: if `create_register` is the operation after the state `i`, then
/// whatever operations follow, the register handed out after a later state
/// `j` has a larger number. It is also none of the registers in use by
/// then, which hold all that were handed out or taken as scratch before.
pub proof fn lemma_registers_increase(history: Seq<BrilligContext>, i: int, j: int)
    requires
        is_history(history),
        0 <= i < j < history.len(),
        history[i + 1].emitted(&history[i], Seq::empty(), 1),
    ensures
        history[i].next_register().0 < history[j].next_register().0,
        forall|n: nat| n < history[j].latest_register() ==> #[trigger] register(n) != history[j].next_register(),
{
    lemma_history_follows(history, i + 1, j);
    history[i].lemma_bounded();
    history[j].lemma_bounded();
}

/// Arrays allocated in the life of a context do not overlap, whatever
/// operations lie between the two allocations and whether or not the arrays
/// were filled already: if an array of `size` cells is allocated after the
/// state `i`, then a block allocated after a later state `j` starts at or
/// after the end of that array.
pub proof fn lemma_arrays_do_not_overlap(
    history: Seq<BrilligContext>,
    i: int,
    j: int,
    size: nat,
    later_size: nat,
)
    requires
        is_history(history),
        0 <= i < j < history.len(),
        history[i + 1].memory() == history[i].memory() + size,
    ensures
        block_at(history[i].memory(), size).1 <= block_at(history[j].memory(), later_size).0,
{
    lemma_history_follows(history, i + 1, j);
}

/// Arrays allocated one after the other, with no operation in between that
/// takes memory, are contiguous: they get the blocks of a run that starts
/// where the first array starts.
pub proof fn lemma_successive_arrays(history: Seq<BrilligContext>, sizes: Seq<nat>, k: int)
    requires
        history.len() == sizes.len() + 1,
        forall|j: int|
            0 <= j < sizes.len() ==> history[j + 1].memory() == (#[trigger] history[j]).memory()
                + sizes[j],
        0 <= k < sizes.len(),
    ensures
        block_at(history[k].memory(), sizes[k]) == blocks_from(history[0].memory(), sizes)[k],
{
    let watermarks = Seq::new(history.len(), |j: int| history[j].memory());
    assert(is_run(watermarks, sizes)) by {
        assert forall|j: int| 0 <= j < sizes.len() implies watermarks[j + 1] == (
        #[trigger] watermarks[j]) + sizes[j] by {
            assert(history[j + 1].memory() == history[j].memory() + sizes[j]);
        }
    }
    lemma_run_blocks(watermarks, sizes, k);
}

} // verus!
