use stackvm::instructions::{instruction_for, Instruction, ParamType, DEBUG, EXIT, GOTO};
use stackvm::vm::{ByteStack, Program, VirtualMachine, VmError};

#[test]
fn new_machine_is_zeroed() {
    let vm: VirtualMachine<16> = VirtualMachine::new();
    assert_eq!(vm.memory, vec![0u8; 16]);
    assert_eq!(vm.stack_pointer, 0);
    assert_eq!(vm.program_pointer, 0);
}

#[test]
fn instruction_table_knows_the_built_ins() {
    assert_eq!(
        instruction_for(EXIT),
        Some(Instruction { byte: EXIT, param_type: ParamType::Nil })
    );
    assert_eq!(
        instruction_for(DEBUG),
        Some(Instruction { byte: DEBUG, param_type: ParamType::Nil })
    );
    assert_eq!(
        instruction_for(GOTO),
        Some(Instruction { byte: GOTO, param_type: ParamType::Static(1) })
    );
    assert_eq!(instruction_for(0xab), None);
}

#[test]
fn push_appends_at_stack_cursor() {
    let mut vm: VirtualMachine<4> = VirtualMachine::new();
    assert_eq!(vm.push(0x11), Ok(()));
    assert_eq!(vm.push(0x22), Ok(()));
    assert_eq!(vm.memory, vec![0x11, 0x22, 0x00, 0x00]);
    assert_eq!(vm.stack_pointer, 2);
}

#[test]
fn push_past_the_end_is_stack_overflow() {
    let mut vm: VirtualMachine<2> = VirtualMachine::new();
    assert_eq!(vm.push(1), Ok(()));
    assert_eq!(vm.push(2), Ok(()));
    assert_eq!(vm.push(3), Err(VmError::StackOverflow));
    assert_eq!(vm.memory, vec![1, 2]);
    assert_eq!(vm.stack_pointer, 2);
}

#[test]
fn push_array_appends_in_order() {
    let mut vm: VirtualMachine<8> = VirtualMachine::new();
    assert_eq!(vm.push_array(&[1, 2, 3]), Ok(()));
    assert_eq!(vm.memory, vec![1, 2, 3, 0, 0, 0, 0, 0]);
    assert_eq!(vm.stack_pointer, 3);
}

#[test]
fn push_array_too_long_writes_nothing() {
    let mut vm: VirtualMachine<2> = VirtualMachine::new();
    assert_eq!(vm.push_array(&[1, 2, 3]), Err(VmError::StackOverflow));
    assert_eq!(vm.memory, vec![0, 0]);
    assert_eq!(vm.stack_pointer, 0);
}

#[test]
fn write_pokes_without_moving_cursors() {
    let mut vm: VirtualMachine<4> = VirtualMachine::new();
    assert_eq!(vm.write(2, 0x55), Ok(()));
    assert_eq!(vm.memory, vec![0, 0, 0x55, 0]);
    assert_eq!(vm.stack_pointer, 0);
    assert_eq!(vm.program_pointer, 0);
}

#[test]
fn write_at_or_past_mem_size_is_out_of_bounds() {
    let mut vm: VirtualMachine<4> = VirtualMachine::new();
    assert_eq!(vm.write(4, 0xff), Err(VmError::OutOfBounds));
    assert_eq!(vm.write(100, 0xff), Err(VmError::OutOfBounds));
    assert_eq!(vm.memory, vec![0, 0, 0, 0]);
}

#[test]
fn write_array_back_patches_a_region() {
    let mut vm: VirtualMachine<6> = VirtualMachine::new();
    assert_eq!(vm.push_array(&[GOTO, 0x00, EXIT]), Ok(()));
    // Back-patch the jump target once its destination is known.
    assert_eq!(vm.write_array(1, &[0x02]), Ok(()));
    assert_eq!(vm.memory, vec![GOTO, 0x02, EXIT, 0, 0, 0]);
}

#[test]
fn write_array_past_the_end_writes_nothing() {
    let mut vm: VirtualMachine<4> = VirtualMachine::new();
    assert_eq!(vm.write_array(3, &[1, 2]), Err(VmError::OutOfBounds));
    assert_eq!(vm.memory, vec![0, 0, 0, 0]);
}

#[test]
fn static_operands_round_trip() {
    let mut vm: VirtualMachine<8> = VirtualMachine::new();
    assert_eq!(vm.write_array(2, &[0xaa, 0xbb, 0xcc]), Ok(()));
    vm.program_pointer = 2;
    let params = vm.read_params(ParamType::Static(3));
    assert_eq!(params, Ok(vec![0xaa, 0xbb, 0xcc]));
    assert_eq!(vm.program_pointer, 5);
}

#[test]
fn nil_operands_read_nothing() {
    let mut vm: VirtualMachine<4> = VirtualMachine::new();
    vm.program_pointer = 1;
    assert_eq!(vm.read_params(ParamType::Nil), Ok(vec![]));
    assert_eq!(vm.program_pointer, 1);
}

#[test]
fn variadic_operands_round_trip() {
    let mut vm: VirtualMachine<16> = VirtualMachine::new();
    // Two header bytes, a length byte of 3, then three payload bytes.
    assert_eq!(vm.write_array(0, &[0x10, 0x20, 0x03, 0x0a, 0x0b, 0x0c]), Ok(()));
    let params = vm.read_params(ParamType::Variadic(2));
    assert_eq!(params, Ok(vec![0x10, 0x20, 0x0a, 0x0b, 0x0c]));
    assert_eq!(vm.program_pointer, 6);
}

#[test]
fn variadic_with_empty_payload() {
    let mut vm: VirtualMachine<8> = VirtualMachine::new();
    assert_eq!(vm.write_array(0, &[0x42, 0x00]), Ok(()));
    let params = vm.read_params(ParamType::Variadic(1));
    assert_eq!(params, Ok(vec![0x42]));
    assert_eq!(vm.program_pointer, 2);
}

#[test]
fn static_read_past_the_end_is_out_of_bounds() {
    let mut vm: VirtualMachine<4> = VirtualMachine::new();
    vm.program_pointer = 2;
    assert_eq!(vm.read_params(ParamType::Static(3)), Err(VmError::OutOfBounds));
    // The machine is left unchanged.
    assert_eq!(vm.program_pointer, 2);
}

#[test]
fn variadic_payload_past_the_end_is_out_of_bounds() {
    let mut vm: VirtualMachine<4> = VirtualMachine::new();
    // Length byte claims three payload bytes but only one position remains.
    assert_eq!(vm.write_array(0, &[0x01, 0x03]), Ok(()));
    assert_eq!(vm.read_params(ParamType::Variadic(1)), Err(VmError::OutOfBounds));
    assert_eq!(vm.program_pointer, 0);
}

#[test]
fn exit_halts_after_one_step_without_mutation() {
    let mut vm: VirtualMachine<8> = VirtualMachine::new();
    assert_eq!(vm.write_array(0, &[EXIT]), Ok(()));
    let before = vm.memory.clone();
    // One step reports "no further steps"...
    assert_eq!(vm.step(), Ok(false));
    // ...and nothing but the program cursor moved.
    assert_eq!(vm.memory, before);
    assert_eq!(vm.stack_pointer, 0);
    assert_eq!(vm.program_pointer, 1);
}

#[test]
fn debug_keeps_running_and_changes_no_state() {
    let mut vm: VirtualMachine<8> = VirtualMachine::new();
    assert_eq!(vm.write_array(0, &[DEBUG, EXIT]), Ok(()));
    let before = vm.memory.clone();
    assert_eq!(vm.step(), Ok(true));
    assert_eq!(vm.memory, before);
    assert_eq!(vm.stack_pointer, 0);
    assert_eq!(vm.program_pointer, 1);
}

#[test]
fn goto_sets_program_pointer_to_operand() {
    let mut vm: VirtualMachine<8> = VirtualMachine::new();
    assert_eq!(
        vm.write_array(0, &[GOTO, 0x05, 0x00, 0x00, 0x00, EXIT]),
        Ok(())
    );
    // The jump lands on the EXIT at position 5...
    assert_eq!(vm.step(), Ok(true));
    assert_eq!(vm.program_pointer, 5);
    // ...and the next step halts.
    assert_eq!(vm.step(), Ok(false));
}

#[test]
fn exec_runs_to_exit() {
    let mut vm: VirtualMachine<8> = VirtualMachine::new();
    assert_eq!(vm.write_array(0, &[DEBUG, DEBUG, GOTO, 0x05, 0x00, EXIT]), Ok(()));
    assert_eq!(vm.exec(100), Ok(true));
    assert_eq!(vm.program_pointer, 6);
}

#[test]
fn exec_reports_budget_exhaustion_on_a_tight_loop() {
    let mut vm: VirtualMachine<8> = VirtualMachine::new();
    // GOTO back to itself: runs forever, so the step budget runs out.
    assert_eq!(vm.write_array(0, &[GOTO, 0x00]), Ok(()));
    assert_eq!(vm.exec(1000), Ok(false));
}

#[test]
fn unknown_opcode_is_reported_with_its_position() {
    let mut vm: VirtualMachine<8> = VirtualMachine::new();
    assert_eq!(vm.write_array(0, &[DEBUG, 0xab]), Ok(()));
    assert_eq!(vm.step(), Ok(true));
    assert_eq!(vm.step(), Err(VmError::UnknownOpcode { position: 1 }));
}

#[test]
fn unknown_opcode_halts_exec() {
    let mut vm: VirtualMachine<8> = VirtualMachine::new();
    assert_eq!(vm.write_array(0, &[DEBUG, 0xab]), Ok(()));
    assert_eq!(vm.exec(100), Err(VmError::UnknownOpcode { position: 1 }));
}

#[test]
fn fetch_past_the_end_is_out_of_bounds() {
    let mut vm: VirtualMachine<4> = VirtualMachine::new();
    vm.program_pointer = 4;
    assert_eq!(vm.step(), Err(VmError::OutOfBounds));
    vm.program_pointer = 1000;
    assert_eq!(vm.step(), Err(VmError::OutOfBounds));
}

#[test]
fn running_off_the_program_end_is_out_of_bounds() {
    let mut vm: VirtualMachine<2> = VirtualMachine::new();
    // Two DEBUGs and then the cursor leaves memory.
    assert_eq!(vm.write_array(0, &[DEBUG, DEBUG]), Ok(()));
    assert_eq!(vm.exec(100), Err(VmError::OutOfBounds));
    assert_eq!(vm.program_pointer, 2);
}

#[test]
fn goto_operand_at_end_is_out_of_bounds() {
    let mut vm: VirtualMachine<2> = VirtualMachine::new();
    // The GOTO opcode sits on the last byte; its operand would be outside.
    assert_eq!(vm.write_array(0, &[DEBUG, GOTO]), Ok(()));
    assert_eq!(vm.exec(100), Err(VmError::OutOfBounds));
}
