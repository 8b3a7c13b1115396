use heat_vm::constraints::Constraints;
use heat_vm::error::VmError;
use heat_vm::frame::Frame;
use heat_vm::h_type::HType;
use heat_vm::instruction::Instruction;
use heat_vm::interpreter::Interpreter;
use heat_vm::opcode;
use heat_vm::types::VirtualObject;

fn ins(opcode: u64, arg1: u64) -> Instruction {
    Instruction { opcode, arg1, arg2: 0, arg3: 0 }
}

#[test]
fn new_then_load_leaves_value_on_stack_top() {
    let i = Interpreter::new(Constraints::new_none());
    let mut frame = Frame::default();
    frame.instructions.push(ins(opcode::NEW_U8, 0));
    frame.instructions.push(ins(opcode::LOAD_U8, 5));
    i.execute_frame(&mut frame).unwrap();
    let top = frame.stack.last().unwrap();
    assert_eq!(top.data_type, HType::U8);
    assert_eq!(top.get_u8(), 5);
}

#[test]
fn add_u8_wraps_at_byte_width() {
    let i = Interpreter::new(Constraints::new_none());
    let mut frame = Frame::default();
    frame.stack.push(VirtualObject::from(250u8));
    frame.stack.push(VirtualObject::from(10u8));
    frame.instructions.push(ins(opcode::ADD_U8, 0));
    i.execute_frame(&mut frame).unwrap();
    let top = frame.operand_stack.last().unwrap();
    assert_eq!(top.data_type, HType::U8);
    assert_eq!(top.get_u8(), 4);
}

#[test]
fn store_transfers_operand_to_stack() {
    let i = Interpreter::new(Constraints::new_none());
    let mut frame = Frame::default();
    let x = VirtualObject::from(0x77u8);
    frame.operand_stack.push(x.clone());
    frame.instructions.push(ins(opcode::STORE, 0));
    i.execute_frame(&mut frame).unwrap();
    assert_eq!(frame.operand_stack.len(), 0);
    assert_eq!(frame.stack.len(), 1);
    assert_eq!(frame.stack[0], x);
}

#[test]
fn load_with_wrong_tag_fails_and_keeps_stack() {
    let i = Interpreter::new(Constraints::new_none());
    let mut frame = Frame::default();
    frame.stack.push(VirtualObject::new_empty(HType::U16));
    frame.instructions.push(ins(opcode::LOAD_U8, 5));
    let err = i.execute_frame(&mut frame).unwrap_err();
    assert_eq!(err, VmError::TypeMismatchError);
    assert_eq!(frame.stack.len(), 1);
    assert_eq!(frame.stack[0].data_type, HType::U16);
    assert_eq!(frame.stack[0].get_u16(), 0);
}

#[test]
fn allocation_limit_fails_second_new() {
    let i = Interpreter::new(Constraints::new(0, 1));
    let mut frame = Frame::default();
    frame.instructions.push(ins(opcode::NEW_U64, 0));
    frame.instructions.push(ins(opcode::NEW_U64, 0));
    let err = i.execute_frame(&mut frame).unwrap_err();
    assert_eq!(err, VmError::ResourceExceeded);
    assert_eq!(frame.stack.len(), 1);
    assert_eq!(frame.pc, 1);
}

#[test]
fn memory_limit_counts_bytes_across_containers() {
    let i = Interpreter::new(Constraints::new(5, 0));
    let mut frame = Frame::default();
    frame.instructions.push(ins(opcode::NEW_U32, 0));
    frame.instructions.push(ins(opcode::NEW_U8, 0));
    i.execute_frame(&mut frame).unwrap();
    assert_eq!(frame.stack.len(), 2);

    frame.clear_instructions();
    frame.instructions.push(ins(opcode::NEW_BOOL, 0));
    let err = i.execute_frame(&mut frame).unwrap_err();
    assert_eq!(err, VmError::ResourceExceeded);
    assert_eq!(frame.stack.len(), 2);
}

#[test]
fn memory_limit_rejects_oversized_first_allocation() {
    let i = Interpreter::new(Constraints::new(5, 0));
    let mut frame = Frame::default();
    frame.instructions.push(ins(opcode::NEW_U64, 0));
    let err = i.execute_frame(&mut frame).unwrap_err();
    assert_eq!(err, VmError::ResourceExceeded);
    assert_eq!(frame.stack.len(), 0);
}

#[test]
fn counter_reaches_instruction_count_on_success() {
    let i = Interpreter::new(Constraints::new_none());
    let mut frame = Frame::default();
    for _ in 0..6 {
        frame.instructions.push(ins(opcode::NONE, 0));
    }
    frame.instructions.push(ins(opcode::NEW_U8, 0));
    i.execute_frame(&mut frame).unwrap();
    assert_eq!(frame.pc, 7);
    assert_eq!(frame.pc as usize, frame.instructions.len());
}

#[test]
fn unknown_opcode_is_an_error() {
    let i = Interpreter::new(Constraints::new_none());
    let mut frame = Frame::default();
    frame.instructions.push(ins(0x99, 0));
    let err = i.execute_frame(&mut frame).unwrap_err();
    assert_eq!(err, VmError::UnknownOpcode);

    frame.clear_instructions();
    frame.instructions.push(ins(opcode::ILLEGAL, 0));
    let err2 = i.execute_frame(&mut frame).unwrap_err();
    assert_eq!(err2, VmError::UnknownOpcode);
}

#[test]
fn division_works_and_zero_divisor_is_an_error() {
    let i = Interpreter::new(Constraints::new_none());
    let mut frame = Frame::default();
    frame.stack.push(VirtualObject::from(4u8));
    frame.stack.push(VirtualObject::from(92u8));
    frame.instructions.push(ins(opcode::DIV_U8, 0));
    i.execute_frame(&mut frame).unwrap();
    assert_eq!(frame.operand_stack.pop().unwrap().get_u8(), 23);

    let mut frame2 = Frame::default();
    frame2.stack.push(VirtualObject::from(0u8));
    frame2.stack.push(VirtualObject::from(5u8));
    frame2.instructions.push(ins(opcode::DIV_U8, 0));
    let err = i.execute_frame(&mut frame2).unwrap_err();
    assert_eq!(err, VmError::DivisionByZero);
}

#[test]
fn multiplication_wraps_at_width() {
    let i = Interpreter::new(Constraints::new_none());
    let mut frame = Frame::default();
    frame.stack.push(VirtualObject::from(100u8));
    frame.stack.push(VirtualObject::from(3u8));
    frame.instructions.push(ins(opcode::MUL_U8, 0));
    i.execute_frame(&mut frame).unwrap();
    // 300 wraps to 44 within eight bits
    assert_eq!(frame.operand_stack.pop().unwrap().get_u8(), 44);
}

#[test]
fn power_is_exponentiation_wrapping_at_width() {
    let i = Interpreter::new(Constraints::new_none());
    let mut frame = Frame::default();
    frame.stack.push(VirtualObject::from(2u8)); // exponent: offset 1
    frame.stack.push(VirtualObject::from(3u8)); // base: offset 0
    frame.instructions.push(ins(opcode::PWR_U8, 0));
    i.execute_frame(&mut frame).unwrap();
    assert_eq!(frame.operand_stack.pop().unwrap().get_u8(), 9);

    let mut frame2 = Frame::default();
    frame2.stack.push(VirtualObject::from(10u8)); // exponent
    frame2.stack.push(VirtualObject::from(2u8)); // base
    frame2.instructions.push(ins(opcode::PWR_U8, 0));
    i.execute_frame(&mut frame2).unwrap();
    // 1024 wraps to 0 within eight bits
    assert_eq!(frame2.operand_stack.pop().unwrap().get_u8(), 0);

    let mut frame3 = Frame::default();
    frame3.stack.push(VirtualObject::from(16u64)); // exponent
    frame3.stack.push(VirtualObject::from(3u64)); // base
    frame3.instructions.push(ins(opcode::PWR_U64, 0));
    i.execute_frame(&mut frame3).unwrap();
    assert_eq!(frame3.operand_stack.pop().unwrap().get_u64(), 43_046_721);
}

#[test]
fn stack_underflow_is_an_error() {
    let i = Interpreter::new(Constraints::new_none());
    let mut frame = Frame::default();
    frame.instructions.push(ins(opcode::ADD_U8, 0));
    assert_eq!(i.execute_frame(&mut frame).unwrap_err(), VmError::StackUnderflow);

    frame.clear_instructions();
    frame.instructions.push(ins(opcode::LOAD_U8, 1));
    assert_eq!(i.execute_frame(&mut frame).unwrap_err(), VmError::StackUnderflow);

    frame.clear_instructions();
    frame.instructions.push(ins(opcode::STORE, 0));
    assert_eq!(i.execute_frame(&mut frame).unwrap_err(), VmError::StackUnderflow);

    frame.clear_instructions();
    frame.stack.push(VirtualObject::from(1u8));
    frame.instructions.push(ins(opcode::ADD_U8, 0));
    assert_eq!(i.execute_frame(&mut frame).unwrap_err(), VmError::StackUnderflow);
}

#[test]
fn equal_compares_tag_and_bytes() {
    let i = Interpreter::new(Constraints::new_none());
    let mut frame = Frame::default();
    frame.stack.push(VirtualObject::from(7u8));
    frame.stack.push(VirtualObject::from(7u8));
    frame.instructions.push(ins(opcode::EQUAL, 0));
    i.execute_frame(&mut frame).unwrap();
    let top = frame.operand_stack.pop().unwrap();
    assert_eq!(top.data_type, HType::Bool);
    assert_eq!(top.get_bool(), true);

    frame.clear_instructions();
    frame.stack.push(VirtualObject::from(8u8));
    frame.instructions.push(ins(opcode::EQUAL, 0));
    i.execute_frame(&mut frame).unwrap();
    assert_eq!(frame.operand_stack.pop().unwrap().get_bool(), false);

    frame.clear_instructions();
    frame.stack.push(VirtualObject::from(8u16));
    frame.instructions.push(ins(opcode::EQUAL, 0));
    assert_eq!(i.execute_frame(&mut frame).unwrap_err(), VmError::TypeMismatchError);
}

#[test]
fn boolean_not_and_or() {
    let i = Interpreter::new(Constraints::new_none());
    let mut frame = Frame::default();
    frame.stack.push(VirtualObject::from(true));
    frame.instructions.push(ins(opcode::NOT, 0));
    i.execute_frame(&mut frame).unwrap();
    assert_eq!(frame.operand_stack.pop().unwrap().get_bool(), false);

    frame.clear_instructions();
    frame.stack.push(VirtualObject::from(false));
    frame.instructions.push(ins(opcode::AND, 0));
    i.execute_frame(&mut frame).unwrap();
    assert_eq!(frame.operand_stack.pop().unwrap().get_bool(), false);

    frame.clear_instructions();
    frame.instructions.push(ins(opcode::OR, 0));
    i.execute_frame(&mut frame).unwrap();
    assert_eq!(frame.operand_stack.pop().unwrap().get_bool(), true);

    frame.clear_instructions();
    frame.stack.push(VirtualObject::from(3u32));
    frame.instructions.push(ins(opcode::NOT, 0));
    assert_eq!(i.execute_frame(&mut frame).unwrap_err(), VmError::TypeMismatchError);
}

#[test]
fn frame_accessors_are_offsets_from_the_top() {
    let mut frame = Frame::default();
    assert!(frame.get_front_in_stack(0).is_none());
    assert!(frame.get_front_in_op_stack(0).is_none());
    frame.stack.push(VirtualObject::from(1u8));
    frame.stack.push(VirtualObject::from(2u8));
    assert_eq!(frame.get_front_in_stack(0).unwrap().get_u8(), 2);
    assert_eq!(frame.get_front_in_stack(1).unwrap().get_u8(), 1);
    assert!(frame.get_front_in_stack(2).is_none());
    frame.operand_stack.push(VirtualObject::from(9u8));
    assert_eq!(frame.get_front_in_op_stack(0).unwrap().get_u8(), 9);

    assert!(frame.set_front_in_stack(0, VirtualObject::from(5u8)));
    assert_eq!(frame.get_front_in_stack(0).unwrap().get_u8(), 5);
    assert!(!frame.set_front_in_stack(2, VirtualObject::from(5u8)));
    assert!(frame.set_front_in_op_stack(0, VirtualObject::from(6u8)));
    assert_eq!(frame.get_front_in_op_stack(0).unwrap().get_u8(), 6);
}

#[test]
fn fresh_frame_and_clear_instructions() {
    let mut frame = Frame::new(42u128, 4, 4);
    assert_eq!(frame.address, 42u128);
    assert_eq!(frame.pc, 0);
    assert!(frame.instructions.is_empty());
    assert!(frame.stack.is_empty());
    frame.instructions.push(ins(opcode::NONE, 0));
    let i = Interpreter::new(Constraints::new_none());
    i.execute_frame(&mut frame).unwrap();
    assert_eq!(frame.pc, 1);
    frame.clear_instructions();
    assert_eq!(frame.pc, 0);
    assert!(frame.instructions.is_empty());
}

#[test]
fn error_descriptions_are_nonempty() {
    let errors = [
        VmError::DecodeError,
        VmError::TypeMismatchError,
        VmError::StackUnderflow,
        VmError::ResourceExceeded,
        VmError::UnknownOpcode,
        VmError::DivisionByZero,
    ];
    for e in errors {
        assert!(!e.describe().is_empty());
    }
}
