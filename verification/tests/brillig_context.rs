use noirc_evaluator::brillig::artifact::{BrilligArtifact, BrilligError, UnresolvedJumpLocation};
use noirc_evaluator::brillig::brillig_ir::{BrilligBinaryOp, BrilligContext};
use noirc_evaluator::brillig::memory::{Allocation, BrilligMemory};
use noirc_evaluator::brillig::opcodes::{
    BinaryFieldOp, BinaryIntOp, Opcode, RegisterIndex, RegisterValueOrArray,
};
use noirc_evaluator::brillig::value::Value;
use noirc_evaluator::field::FieldElement;

fn r(index: usize) -> RegisterIndex {
    RegisterIndex(index)
}

fn emitted(context: BrilligContext) -> Vec<Opcode> {
    context.artifact().byte_code().clone()
}

fn load(destination: usize, value: u128) -> Opcode {
    Opcode::Const { destination: r(destination), value: Value::from_u128(value) }
}

fn address(destination: usize, array_ptr: usize, index: usize) -> Opcode {
    Opcode::BinaryFieldOp {
        destination: r(destination),
        op: BinaryFieldOp::Add,
        lhs: r(array_ptr),
        rhs: r(index),
    }
}

/// The same opcode for the machine of the outside crate.
fn for_machine(opcode: &Opcode) -> acvm::acir::brillig_vm::Opcode {
    let reg = |index: &RegisterIndex| acvm::acir::brillig_vm::RegisterIndex::from(index.0);
    match opcode {
        Opcode::BinaryIntOp { destination, op, bit_size, lhs, rhs } => {
            acvm::acir::brillig_vm::Opcode::BinaryIntOp {
                destination: reg(destination),
                op: match op {
                    BinaryIntOp::Sub => acvm::acir::brillig_vm::BinaryIntOp::Sub,
                    BinaryIntOp::Mul => acvm::acir::brillig_vm::BinaryIntOp::Mul,
                    BinaryIntOp::SignedDiv => acvm::acir::brillig_vm::BinaryIntOp::SignedDiv,
                    BinaryIntOp::UnsignedDiv => acvm::acir::brillig_vm::BinaryIntOp::UnsignedDiv,
                    other => panic!("not part of a remainder: {:?}", other),
                },
                bit_size: *bit_size,
                lhs: reg(lhs),
                rhs: reg(rhs),
            }
        }
        Opcode::Const { destination, value } => acvm::acir::brillig_vm::Opcode::Const {
            destination: reg(destination),
            value: acvm::acir::brillig_vm::Value::from(acvm::FieldElement::from_be_bytes_reduce(
                value.to_field().to_be_bytes(),
            )),
        },
        Opcode::JumpIf { condition, location } => acvm::acir::brillig_vm::Opcode::JumpIf {
            condition: reg(condition),
            location: *location,
        },
        Opcode::Trap => acvm::acir::brillig_vm::Opcode::Trap,
        Opcode::Stop => acvm::acir::brillig_vm::Opcode::Stop,
        other => panic!("not used here: {:?}", other),
    }
}

/// What the machine leaves in register 2 after the remainder of the values
/// in the registers 0 and 1 was computed into it.
fn run_modulo(left: u128, right: u128, bit_size: u32, signed: bool) -> u128 {
    let mut context = BrilligContext::new();
    let left_register = context.create_register();
    let right_register = context.create_register();
    let result_register = context.create_register();
    context.modulo_instruction(result_register, left_register, right_register, bit_size, signed);
    context.stop_instruction();
    let bytecode: Vec<acvm::acir::brillig_vm::Opcode> =
        context.artifact().link().unwrap().iter().map(for_machine).collect();
    let registers = acvm::acir::brillig_vm::Registers::load(vec![
        acvm::acir::brillig_vm::Value::from(left),
        acvm::acir::brillig_vm::Value::from(right),
    ]);
    let mut machine = acvm::acir::brillig_vm::VM::new(registers, vec![], bytecode, vec![]);
    let status = machine.process_opcodes();
    assert_eq!(status, acvm::acir::brillig_vm::VMStatus::Finished);
    machine.get_registers().get(acvm::acir::brillig_vm::RegisterIndex::from(2)).to_u128()
}

fn negative(value: u128, bit_size: u32) -> u128 {
    (1u128 << bit_size) - value
}

#[test]
fn registers_are_handed_out_in_rising_order() {
    let mut context = BrilligContext::new();
    let mut previous = context.create_register();
    assert_eq!(previous, r(0));
    for expected in 1..50usize {
        let next = context.create_register();
        assert!(next.0 > previous.0);
        assert_eq!(next, r(expected));
        previous = next;
    }
}

#[test]
fn registers_keep_rising_across_other_operations() {
    let mut context = BrilligContext::new();
    let first = context.create_register();
    context.array_get(r(0), r(0), r(0));
    context.modulo_instruction(r(0), r(0), r(0), 8, false);
    context.return_instruction(&[r(0), r(0)]);
    let later = context.create_register();
    assert_eq!(first, r(0));
    assert_eq!(later, r(4));
}

#[test]
fn register_index_from_usize() {
    assert_eq!(RegisterIndex::from(7usize), r(7));
    assert_eq!(r(7).to_usize(), 7);
}

#[test]
fn allocations_are_contiguous_and_do_not_overlap() {
    let mut memory = BrilligMemory::new();
    let sizes = [3usize, 0, 5, 1];
    let mut blocks: Vec<Allocation> = Vec::new();
    for size in sizes {
        blocks.push(memory.allocate(size));
    }
    assert_eq!(blocks[0], Allocation { start_address: 0, end_address: 3 });
    assert_eq!(blocks[1], Allocation { start_address: 3, end_address: 3 });
    assert_eq!(blocks[2], Allocation { start_address: 3, end_address: 8 });
    assert_eq!(blocks[3], Allocation { start_address: 8, end_address: 9 });
    for i in 0..blocks.len() {
        assert_eq!(blocks[i].end_address - blocks[i].start_address, sizes[i]);
        for j in i + 1..blocks.len() {
            assert!(blocks[i].end_address <= blocks[j].start_address);
        }
    }
}

#[test]
fn arrays_allocated_in_a_row_are_contiguous() {
    // Each start is the first start plus the sizes before it; an array of no
    // cells leaves the next start where it was.
    let mut context = BrilligContext::new();
    context.allocate_array(r(10), 4, true);
    context.allocate_array(r(11), 0, false);
    context.allocate_array(r(12), 6, true);
    context.allocate_array(r(13), 1, true);
    let starts: Vec<Opcode> = emitted(context)
        .into_iter()
        .filter(|opcode| matches!(opcode, Opcode::Const { destination, .. } if destination.0 >= 10))
        .collect();
    assert_eq!(
        starts,
        vec![
            Opcode::Const { destination: r(10), value: Value::from_usize(0) },
            Opcode::Const { destination: r(11), value: Value::from_usize(4) },
            Opcode::Const { destination: r(12), value: Value::from_usize(4) },
            Opcode::Const { destination: r(13), value: Value::from_usize(10) },
        ]
    );
}

#[test]
fn arrays_do_not_overlap_across_other_operations() {
    let mut context = BrilligContext::new();
    context.allocate_array(r(10), 5, false);
    context.array_get(r(10), r(0), r(1));
    context.modulo_instruction(r(1), r(1), r(1), 8, true);
    context.return_instruction(&[r(1)]);
    context.allocate_array(r(11), 3, true);
    let code = emitted(context);
    assert_eq!(code[3], Opcode::Const { destination: r(10), value: Value::from_usize(0) });
    assert_eq!(
        code[code.len() - 1],
        Opcode::Const { destination: r(11), value: Value::from_usize(5) }
    );
}

#[test]
fn register_after_other_operations_is_none_in_use_before() {
    let mut context = BrilligContext::new();
    let first = context.create_register();
    context.allocate_array(r(0), 2, false);
    context.not_instruction(r(0), r(0));
    context.array_store(r(0), r(0), r(0));
    context.constrain_instruction(r(0));
    let later = context.create_register();
    // One register was handed out, then 2 + 1 + 1 were taken as scratch.
    assert_eq!(first, r(0));
    assert_eq!(later, r(5));
    // Handing out a register emits nothing.
    assert_eq!(context.artifact().byte_code().len(), 4 + 2 + 2 + 2);
}

#[test]
fn modulo_is_division_multiplication_subtraction() {
    let mut context = BrilligContext::new();
    context.create_register();
    context.modulo_instruction(r(10), r(11), r(12), 32, true);
    context.modulo_instruction(r(10), r(11), r(12), 16, false);
    assert_eq!(
        emitted(context),
        vec![
            Opcode::BinaryIntOp {
                destination: r(1),
                op: BinaryIntOp::SignedDiv,
                bit_size: 32,
                lhs: r(11),
                rhs: r(12),
            },
            Opcode::BinaryIntOp {
                destination: r(2),
                op: BinaryIntOp::Mul,
                bit_size: 32,
                lhs: r(1),
                rhs: r(12),
            },
            Opcode::BinaryIntOp {
                destination: r(10),
                op: BinaryIntOp::Sub,
                bit_size: 32,
                lhs: r(11),
                rhs: r(2),
            },
            Opcode::BinaryIntOp {
                destination: r(3),
                op: BinaryIntOp::UnsignedDiv,
                bit_size: 16,
                lhs: r(11),
                rhs: r(12),
            },
            Opcode::BinaryIntOp {
                destination: r(4),
                op: BinaryIntOp::Mul,
                bit_size: 16,
                lhs: r(3),
                rhs: r(12),
            },
            Opcode::BinaryIntOp {
                destination: r(10),
                op: BinaryIntOp::Sub,
                bit_size: 16,
                lhs: r(11),
                rhs: r(4),
            },
        ]
    );
}

#[test]
fn modulo_of_unsigned_values_on_the_machine() {
    assert_eq!(run_modulo(17, 5, 32, false), 2);
    assert_eq!(run_modulo(5, 17, 32, false), 5);
    assert_eq!(run_modulo(255, 16, 8, false), 15);
    assert_eq!(run_modulo(u64::MAX as u128, 10, 64, false), 5);
    assert_eq!(run_modulo(12, 4, 8, false), 0);
}

#[test]
fn modulo_of_signed_values_on_the_machine() {
    for bit_size in [8u32, 32, 64] {
        // 7 % 3 == 1
        assert_eq!(run_modulo(7, 3, bit_size, true), 1);
        // -7 % 3 == -1
        assert_eq!(run_modulo(negative(7, bit_size), 3, bit_size, true), negative(1, bit_size));
        // 7 % -3 == 1
        assert_eq!(run_modulo(7, negative(3, bit_size), bit_size, true), 1);
        // -7 % -3 == -1
        assert_eq!(
            run_modulo(negative(7, bit_size), negative(3, bit_size), bit_size, true),
            negative(1, bit_size)
        );
        // -6 % 3 == 0
        assert_eq!(run_modulo(negative(6, bit_size), 3, bit_size, true), 0);
    }
}

#[test]
fn binary_instruction_by_kind() {
    let mut context = BrilligContext::new();
    context.binary_instruction(r(1), r(2), r(3), BrilligBinaryOp::Field { op: BinaryFieldOp::Mul });
    context.binary_instruction(
        r(1),
        r(2),
        r(3),
        BrilligBinaryOp::Integer { op: BinaryIntOp::LessThan, bit_size: 64 },
    );
    context.binary_instruction(
        r(1),
        r(2),
        r(3),
        BrilligBinaryOp::Modulo { is_signed_integer: false, bit_size: 8 },
    );
    assert_eq!(context.create_register(), r(2));
    assert_eq!(
        emitted(context),
        vec![
            Opcode::BinaryFieldOp { destination: r(3), op: BinaryFieldOp::Mul, lhs: r(1), rhs: r(2) },
            Opcode::BinaryIntOp {
                destination: r(3),
                op: BinaryIntOp::LessThan,
                bit_size: 64,
                lhs: r(1),
                rhs: r(2),
            },
            Opcode::BinaryIntOp {
                destination: r(0),
                op: BinaryIntOp::UnsignedDiv,
                bit_size: 8,
                lhs: r(1),
                rhs: r(2),
            },
            Opcode::BinaryIntOp {
                destination: r(1),
                op: BinaryIntOp::Mul,
                bit_size: 8,
                lhs: r(0),
                rhs: r(2),
            },
            Opcode::BinaryIntOp {
                destination: r(3),
                op: BinaryIntOp::Sub,
                bit_size: 8,
                lhs: r(1),
                rhs: r(1),
            },
        ]
    );
}

#[test]
fn array_get_adds_pointer_and_index_as_field_elements() {
    let mut context = BrilligContext::new();
    context.array_get(r(7), r(8), r(9));
    context.array_store(r(7), r(8), r(9));
    assert_eq!(
        emitted(context),
        vec![
            address(0, 7, 8),
            Opcode::Load { destination: r(9), source_pointer: r(0) },
            address(1, 7, 8),
            Opcode::Store { destination_pointer: r(1), source: r(9) },
        ]
    );
}

#[test]
fn allocate_array_reserves_by_a_store_at_the_end() {
    let mut context = BrilligContext::new();
    context.allocate_array(r(20), 4, false);
    context.allocate_array(r(21), 6, false);
    assert_eq!(
        emitted(context),
        vec![
            Opcode::Const { destination: r(0), value: Value::from_usize(4) },
            load(1, 0),
            Opcode::Store { destination_pointer: r(0), source: r(1) },
            Opcode::Const { destination: r(20), value: Value::from_usize(0) },
            Opcode::Const { destination: r(2), value: Value::from_usize(10) },
            load(3, 0),
            Opcode::Store { destination_pointer: r(2), source: r(3) },
            Opcode::Const { destination: r(21), value: Value::from_usize(4) },
        ]
    );
}

#[test]
fn allocate_prefilled_array_only_loads_the_start() {
    let mut context = BrilligContext::new();
    context.allocate_array(r(5), 3, true);
    context.allocate_array(r(6), 0, true);
    assert_eq!(context.create_register(), r(0));
    assert_eq!(emitted(context), vec![load(5, 0), load(6, 3)]);
}

#[test]
fn not_is_one_minus_the_bit() {
    let mut context = BrilligContext::new();
    context.not_instruction(r(4), r(5));
    assert_eq!(
        emitted(context),
        vec![
            Opcode::Const { destination: r(0), value: Value::from_field(FieldElement::one()) },
            Opcode::BinaryIntOp {
                destination: r(5),
                op: BinaryIntOp::Sub,
                bit_size: 1,
                lhs: r(0),
                rhs: r(4),
            },
        ]
    );
}

#[test]
fn truncate_is_a_move() {
    let mut context = BrilligContext::new();
    context.truncate_instruction(r(1), r(2));
    context.mov_instruction(r(3), r(4));
    assert_eq!(
        emitted(context),
        vec![
            Opcode::Mov { destination: r(1), source: r(2) },
            Opcode::Mov { destination: r(3), source: r(4) },
        ]
    );
}

#[test]
fn single_opcodes() {
    let mut context = BrilligContext::new();
    context.const_instruction(r(1), Value::from_u128(9));
    context.load_instruction(r(2), r(3));
    context.store_instruction(r(4), r(5));
    context.push_opcode(Opcode::Return);
    context.stop_instruction();
    assert_eq!(
        emitted(context),
        vec![
            load(1, 9),
            Opcode::Load { destination: r(2), source_pointer: r(3) },
            Opcode::Store { destination_pointer: r(4), source: r(5) },
            Opcode::Return,
            Opcode::Stop,
        ]
    );
}

#[test]
fn make_constant_takes_a_register() {
    let mut context = BrilligContext::new();
    context.create_register();
    let register = context.make_constant(Value::from_u128(77));
    assert_eq!(register, r(1));
    assert_eq!(emitted(context), vec![load(1, 77)]);
}

#[test]
fn constrain_jumps_over_the_trap() {
    let mut context = BrilligContext::new();
    context.stop_instruction();
    context.constrain_instruction(r(3));
    context.stop_instruction();
    let artifact = context.artifact();
    assert_eq!(
        artifact.byte_code(),
        &vec![
            Opcode::Stop,
            Opcode::JumpIf { condition: r(3), location: 0 },
            Opcode::Trap,
            Opcode::Stop,
        ]
    );
    assert_eq!(artifact.unresolved_jumps(), &vec![(1usize, UnresolvedJumpLocation::Relative(2))]);
    assert_eq!(
        artifact.link(),
        Ok(vec![
            Opcode::Stop,
            Opcode::JumpIf { condition: r(3), location: 3 },
            Opcode::Trap,
            Opcode::Stop,
        ])
    );
}

#[test]
fn constrain_traps_unless_the_condition_holds() {
    for (condition, passes) in [(1u128, true), (0u128, false)] {
        let mut context = BrilligContext::new();
        let register = context.make_constant(Value::from_u128(condition));
        context.constrain_instruction(register);
        context.stop_instruction();
        let bytecode: Vec<acvm::acir::brillig_vm::Opcode> =
            context.artifact().link().unwrap().iter().map(for_machine).collect();
        let registers = acvm::acir::brillig_vm::Registers::load(vec![]);
        let mut machine = acvm::acir::brillig_vm::VM::new(registers, vec![], bytecode, vec![]);
        let status = machine.process_opcodes();
        assert_eq!(status == acvm::acir::brillig_vm::VMStatus::Finished, passes);
    }
}

#[test]
fn return_moves_values_to_the_first_registers() {
    let mut context = BrilligContext::new();
    context.return_instruction(&[r(9), r(8), r(7)]);
    // The last destination, register 2, is beyond the registers in use.
    assert_eq!(context.create_register(), r(2));
    assert_eq!(
        emitted(context),
        vec![
            Opcode::Mov { destination: r(0), source: r(9) },
            Opcode::Mov { destination: r(1), source: r(8) },
            Opcode::Mov { destination: r(2), source: r(7) },
            Opcode::Stop,
        ]
    );
}

#[test]
fn return_keeps_the_registers_in_use() {
    let mut context = BrilligContext::new();
    for _ in 0..5 {
        context.create_register();
    }
    context.return_instruction(&[r(4), r(3)]);
    assert_eq!(context.create_register(), r(5));
}

#[test]
fn return_of_nothing_only_stops() {
    let mut context = BrilligContext::new();
    context.return_instruction(&[]);
    assert_eq!(context.create_register(), r(0));
    assert_eq!(emitted(context), vec![Opcode::Stop]);
}

#[test]
fn foreign_call_takes_one_input_and_one_output() {
    let mut context = BrilligContext::new();
    let inputs = [RegisterValueOrArray::RegisterIndex(r(1))];
    let outputs = [RegisterValueOrArray::HeapArray(r(3), 4)];
    assert_eq!(context.foreign_call_instruction("oracle".to_string(), &inputs, &outputs), Ok(()));
    assert_eq!(context.create_register(), r(0));
    assert_eq!(
        emitted(context),
        vec![
            Opcode::ForeignCall {
                function: "oracle".to_string(),
                destination: RegisterValueOrArray::HeapArray(r(3), 4),
                input: RegisterValueOrArray::RegisterIndex(r(1)),
            },
        ]
    );
}

#[test]
fn foreign_call_without_operands_is_refused() {
    let operand = [RegisterValueOrArray::RegisterIndex(r(1))];
    let mut context = BrilligContext::new();
    assert_eq!(
        context.foreign_call_instruction("oracle".to_string(), &[], &operand),
        Err(BrilligError::MalformedOperands)
    );
    assert_eq!(
        context.foreign_call_instruction("oracle".to_string(), &operand, &[]),
        Err(BrilligError::MalformedOperands)
    );
    assert_eq!(
        context.foreign_call_instruction("oracle".to_string(), &[], &[]),
        Err(BrilligError::MalformedOperands)
    );
    assert_eq!(emitted(context), vec![]);
}

#[test]
fn foreign_call_with_more_operands_is_refused_and_drops_none() {
    let one = [RegisterValueOrArray::RegisterIndex(r(1))];
    let two = [
        RegisterValueOrArray::RegisterIndex(r(1)),
        RegisterValueOrArray::HeapArray(r(2), 8),
    ];
    let mut context = BrilligContext::new();
    context.stop_instruction();
    assert_eq!(
        context.foreign_call_instruction("oracle".to_string(), &two, &one),
        Err(BrilligError::MalformedOperands)
    );
    assert_eq!(
        context.foreign_call_instruction("oracle".to_string(), &one, &two),
        Err(BrilligError::MalformedOperands)
    );
    assert_eq!(
        context.foreign_call_instruction("oracle".to_string(), &two, &two),
        Err(BrilligError::MalformedOperands)
    );
    // Nothing was emitted for the refused calls, and no register was taken.
    assert_eq!(context.create_register(), r(0));
    assert_eq!(emitted(context), vec![Opcode::Stop]);
}

#[test]
fn arrays_binary_instruction_is_unrolled() {
    let mut context = BrilligContext::new();
    let operation = BrilligBinaryOp::Integer { op: BinaryIntOp::Equals, bit_size: 8 };
    context.arrays_binary_instruction(r(100), r(101), r(102), 2, operation);
    assert_eq!(context.create_register(), r(10));
    let mut expected = Vec::new();
    for (i, scratch) in [(0u128, 4usize), (1, 7)] {
        expected.extend([
            load(1, i),
            address(scratch, 100, 1),
            Opcode::Load { destination: r(2), source_pointer: r(scratch) },
            load(1, i),
            address(scratch + 1, 101, 1),
            Opcode::Load { destination: r(3), source_pointer: r(scratch + 1) },
            Opcode::BinaryIntOp {
                destination: r(0),
                op: BinaryIntOp::Equals,
                bit_size: 8,
                lhs: r(2),
                rhs: r(3),
            },
            load(1, i),
            address(scratch + 2, 102, 1),
            Opcode::Store { destination_pointer: r(scratch + 2), source: r(0) },
        ]);
    }
    assert_eq!(emitted(context), expected);
}

#[test]
fn arrays_binary_instruction_with_modulo_takes_more_registers() {
    let mut context = BrilligContext::new();
    let operation = BrilligBinaryOp::Modulo { is_signed_integer: true, bit_size: 8 };
    context.arrays_binary_instruction(r(100), r(101), r(102), 3, operation);
    // Four registers at first, then five for each of the three elements.
    assert_eq!(context.create_register(), r(19));
    let code = emitted(context);
    assert_eq!(code.len(), 3 * 12);
    assert_eq!(
        code[12 + 11],
        Opcode::Store { destination_pointer: r(4 + 5 + 4), source: r(0) }
    );
}

#[test]
fn arrays_binary_instruction_of_no_elements() {
    let mut context = BrilligContext::new();
    let operation = BrilligBinaryOp::Field { op: BinaryFieldOp::Add };
    context.arrays_binary_instruction(r(100), r(101), r(102), 0, operation);
    assert_eq!(context.create_register(), r(4));
    assert_eq!(emitted(context), vec![]);
}

#[test]
fn array_reduce_folds_from_the_left() {
    let mut context = BrilligContext::new();
    let operation = BrilligBinaryOp::Field { op: BinaryFieldOp::Add };
    context.array_reduce(r(50), r(51), 3, operation);
    assert_eq!(context.create_register(), r(5));
    let mut expected = Vec::new();
    for i in 0..3usize {
        expected.extend([
            load(0, i as u128),
            address(2 + i, 50, 0),
            Opcode::Load { destination: r(1), source_pointer: r(2 + i) },
            Opcode::BinaryFieldOp {
                destination: r(51),
                op: BinaryFieldOp::Add,
                lhs: r(51),
                rhs: r(1),
            },
        ]);
    }
    assert_eq!(emitted(context), expected);
}

#[test]
fn labels_resolve_forward_and_backward_jumps() {
    let mut context = BrilligContext::new();
    assert_eq!(context.add_label_to_next_opcode("start".to_string()), Ok(()));
    context.jump_if_instruction(r(1), "end".to_string());
    context.stop_instruction();
    context.jump_instruction("start".to_string());
    assert_eq!(context.add_label_to_next_opcode("end".to_string()), Ok(()));
    context.stop_instruction();
    let artifact = context.artifact();
    assert_eq!(artifact.label_position("start"), Some(0));
    assert_eq!(artifact.label_position("end"), Some(3));
    assert_eq!(artifact.label_position("other"), None);
    assert_eq!(
        artifact.unresolved_jumps(),
        &vec![
            (0usize, UnresolvedJumpLocation::Label("end".to_string())),
            (2usize, UnresolvedJumpLocation::Label("start".to_string())),
        ]
    );
    assert_eq!(
        artifact.link(),
        Ok(vec![
            Opcode::JumpIf { condition: r(1), location: 3 },
            Opcode::Stop,
            Opcode::Jump { location: 0 },
            Opcode::Stop,
        ])
    );
}

#[test]
fn link_fails_on_a_label_that_was_never_bound() {
    let mut context = BrilligContext::new();
    assert_eq!(context.add_label_to_next_opcode("here".to_string()), Ok(()));
    context.jump_instruction("here".to_string());
    context.jump_instruction("nowhere".to_string());
    assert_eq!(context.artifact().link(), Err(BrilligError::UnresolvedLabel));
}

#[test]
fn link_without_jumps_gives_the_opcodes_back() {
    let mut context = BrilligContext::new();
    context.mov_instruction(r(0), r(1));
    context.stop_instruction();
    assert_eq!(
        context.artifact().link(),
        Ok(vec![Opcode::Mov { destination: r(0), source: r(1) }, Opcode::Stop])
    );
    assert_eq!(BrilligArtifact::new().link(), Ok(vec![]));
}

#[test]
fn binding_a_label_twice_is_refused() {
    let mut context = BrilligContext::new();
    assert_eq!(context.add_label_to_next_opcode("twice".to_string()), Ok(()));
    context.stop_instruction();
    assert_eq!(
        context.add_label_to_next_opcode("twice".to_string()),
        Err(BrilligError::DuplicateLabel)
    );
    // The first binding stands.
    assert_eq!(context.artifact().label_position("twice"), Some(0));
}

#[test]
fn artifact_resolves_relative_jumps_in_both_directions() {
    let mut artifact = BrilligArtifact::new();
    artifact.push_opcode(Opcode::Stop);
    assert_eq!(artifact.index_of_next_opcode(), 1);
    artifact.add_unresolved_jump(
        Opcode::JumpIfNot { condition: r(2), location: 0 },
        UnresolvedJumpLocation::Relative(-1),
    );
    artifact.add_unresolved_jump(Opcode::Jump { location: 9 }, UnresolvedJumpLocation::Relative(0));
    assert_eq!(artifact.add_label_at_position("far".to_string(), 40), Ok(()));
    artifact.add_unresolved_jump(
        Opcode::Jump { location: 0 },
        UnresolvedJumpLocation::Label("far".to_string()),
    );
    assert_eq!(
        artifact.link(),
        Ok(vec![
            Opcode::Stop,
            Opcode::JumpIfNot { condition: r(2), location: 0 },
            Opcode::Jump { location: 2 },
            Opcode::Jump { location: 40 },
        ])
    );
}
