use heat_vm::constraints::Constraints;
use heat_vm::frame::Frame;
use heat_vm::h_type::{HType, BOOL_SIZE, U16_SIZE, U32_SIZE, U64_SIZE, U8_SIZE};
use heat_vm::instruction::Instruction;
use heat_vm::interpreter::Interpreter;
use heat_vm::opcode;
use heat_vm::types::VirtualObject;

/// Performs stack allocation test on all HTypes using NEW_\[HType] instruction
#[test]
fn interpreter_frame_stack_allocation() {
    let i = Interpreter::new(Constraints::new_none());
    let mut frame = Frame::default();
    frame.instructions.push(Instruction {
        opcode: opcode::NEW_BOOL,
        arg1: 0,
        arg2: 0,
        arg3: 0,
    });
    frame.instructions.push(Instruction {
        opcode: opcode::NEW_U8,
        arg1: 0,
        arg2: 0,
        arg3: 0,
    });
    frame.instructions.push(Instruction {
        opcode: opcode::NEW_U16,
        arg1: 0,
        arg2: 0,
        arg3: 0,
    });
    frame.instructions.push(Instruction {
        opcode: opcode::NEW_U32,
        arg1: 0,
        arg2: 0,
        arg3: 0,
    });
    frame.instructions.push(Instruction {
        opcode: opcode::NEW_U64,
        arg1: 0,
        arg2: 0,
        arg3: 0,
    });
    i.execute_frame(&mut frame).unwrap();

    assert_eq!(frame.stack.get(0).unwrap().data_type, HType::Bool);
    assert_eq!(frame.stack.get(0).unwrap().data.capacity(), BOOL_SIZE);

    assert_eq!(frame.stack.get(1).unwrap().data_type, HType::U8);
    assert_eq!(frame.stack.get(1).unwrap().data.capacity(), U8_SIZE);

    assert_eq!(frame.stack.get(2).unwrap().data_type, HType::U16);
    assert_eq!(frame.stack.get(2).unwrap().data.capacity(), U16_SIZE);

    assert_eq!(frame.stack.get(3).unwrap().data_type, HType::U32);
    assert_eq!(frame.stack.get(3).unwrap().data.capacity(), U32_SIZE);

    assert_eq!(frame.stack.get(4).unwrap().data_type, HType::U64);
    assert_eq!(frame.stack.get(4).unwrap().data.capacity(), U64_SIZE);
}

/// Performs LOAD_[HType] on `VirtualObjects` in stack
#[test]
fn interpreter_frame_stack_obj_load() {
    let i = Interpreter::new(Constraints::new_none());
    let mut frame = Frame::default();

    frame.stack.push(VirtualObject::new_empty(HType::Bool));
    frame.instructions.push(Instruction {
        opcode: opcode::LOAD_BOOL,
        arg1: 1,
        arg2: 0,
        arg3: 0,
    });
    i.execute_frame(&mut frame).unwrap();

    frame.clear_instructions();
    frame.stack.push(VirtualObject::new_empty(HType::U8));
    frame.instructions.push(Instruction {
        opcode: opcode::LOAD_U8,
        arg1: u8::MAX as u64,
        arg2: 0,
        arg3: 0,
    });
    i.execute_frame(&mut frame).unwrap();

    frame.clear_instructions();
    frame.stack.push(VirtualObject::new_empty(HType::U16));
    frame.instructions.push(Instruction {
        opcode: opcode::LOAD_U16,
        arg1: u16::MAX as u64,
        arg2: 0,
        arg3: 0,
    });
    i.execute_frame(&mut frame).unwrap();

    frame.clear_instructions();
    frame.stack.push(VirtualObject::new_empty(HType::U32));
    frame.instructions.push(Instruction {
        opcode: opcode::LOAD_U32,
        arg1: u32::MAX as u64,
        arg2: 0,
        arg3: 0,
    });
    i.execute_frame(&mut frame).unwrap();

    frame.clear_instructions();
    frame.stack.push(VirtualObject::new_empty(HType::U64));
    frame.instructions.push(Instruction {
        opcode: opcode::LOAD_U64,
        arg1: u64::MAX,
        arg2: 0,
        arg3: 0,
    });
    i.execute_frame(&mut frame).unwrap();

    assert_eq!(frame.stack.get(0).unwrap().get_bool(), true);
    assert_eq!(frame.stack.get(1).unwrap().get_u8(), u8::MAX);
    assert_eq!(frame.stack.get(2).unwrap().get_u16(), u16::MAX);
    assert_eq!(frame.stack.get(3).unwrap().get_u32(), u32::MAX);
    assert_eq!(frame.stack.get(4).unwrap().get_u64(), u64::MAX);
}

/// Performs STORE on `VirtualObjects` in operand stack
#[test]
fn interpreter_frame_stack_operand_store() {
    let i = Interpreter::new(Constraints::new_none());

    let types = [HType::U8, HType::U16, HType::U32, HType::U64, HType::Bool];
    for h_type in types {
        let mut frame = Frame::default();
        frame.stack.push(VirtualObject::new_max(h_type));
        frame.instructions.push(Instruction {
            opcode: opcode::STORE,
            arg1: 0,
            arg2: 0,
            arg3: 0,
        });
        let _ = i.execute_frame(&mut frame);
        assert_eq!(
            frame.stack.pop().unwrap().data_type,
            h_type,
            "checking both operand and the first stack item are the same type"
        )
    }
}

/// Performs ADD_[HType] on `VirtualObjects` in operand stack
#[test]
fn interpreter_frame_arithmetic_add() {
    let interpreter = Interpreter::new(Constraints::new_none());

    let u8list: [[u8; 3]; 4] = [[1, 2, 3], [5, 6, 11], [4, 1, 5], [7, 8, 15]];

    let u16list: [[u16; 3]; 4] = [[1, 2, 3], [5, 6, 11], [4, 1, 5], [7, 8, 15]];

    let u32list: [[u32; 3]; 4] = [[1, 2, 3], [5, 6, 11], [4, 1, 5], [7, 8, 15]];

    let u64list: [[u64; 3]; 4] = [[1, 2, 3], [5, 6, 11], [4, 1, 5], [7, 8, 15]];

    for i in u8list {
        let mut frame = Frame::default();
        frame.stack.push(VirtualObject::from(i[0]));
        frame.stack.push(VirtualObject::from(i[1]));

        frame.instructions.push(Instruction {
            opcode: opcode::ADD_U8,
            arg1: 0,
            arg2: 0,
            arg3: 0,
        });

        interpreter.execute_frame(&mut frame).unwrap();
        assert_eq!(frame.operand_stack.pop().unwrap().get_u8(), i[2]);
    }

    for i in u16list {
        let mut frame = Frame::default();
        frame.stack.push(VirtualObject::from(i[0]));
        frame.stack.push(VirtualObject::from(i[1]));

        frame.instructions.push(Instruction {
            opcode: opcode::ADD_U16,
            arg1: 0,
            arg2: 0,
            arg3: 0,
        });

        interpreter.execute_frame(&mut frame).unwrap();
        assert_eq!(frame.operand_stack.pop().unwrap().get_u16(), i[2]);
    }

    for i in u32list {
        let mut frame = Frame::default();
        frame.stack.push(VirtualObject::from(i[0]));
        frame.stack.push(VirtualObject::from(i[1]));

        frame.instructions.push(Instruction {
            opcode: opcode::ADD_U32,
            arg1: 0,
            arg2: 0,
            arg3: 0,
        });

        interpreter.execute_frame(&mut frame).unwrap();
        assert_eq!(frame.operand_stack.pop().unwrap().get_u32(), i[2]);
    }

    for i in u64list {
        let mut frame = Frame::default();
        frame.stack.push(VirtualObject::from(i[0]));
        frame.stack.push(VirtualObject::from(i[1]));

        frame.instructions.push(Instruction {
            opcode: opcode::ADD_U64,
            arg1: 0,
            arg2: 0,
            arg3: 0,
        });

        interpreter.execute_frame(&mut frame).unwrap();
        assert_eq!(frame.operand_stack.pop().unwrap().get_u64(), i[2]);
    }
}

/// Performs SUB_[HType] on `VirtualObjects` in operand stack
#[test]
fn interpreter_frame_arithmetic_sub() {
    let interpreter = Interpreter::new(Constraints::new_none());

    let u8list: [[u8; 3]; 4] = [[2, 5, 3], [2, 7, 5], [1, 12, 11], [5, 20, 15]];

    let u16list: [[u16; 3]; 4] = [[2, 5, 3], [2, 7, 5], [1, 12, 11], [5, 20, 15]];

    let u32list: [[u32; 3]; 4] = [[2, 5, 3], [2, 7, 5], [1, 12, 11], [5, 20, 15]];

    let u64list: [[u64; 3]; 4] = [[2, 5, 3], [2, 7, 5], [1, 12, 11], [5, 20, 15]];

    for i in u8list {
        let mut frame = Frame::default();
        frame.stack.push(VirtualObject::from(i[0]));
        frame.stack.push(VirtualObject::from(i[1]));

        frame.instructions.push(Instruction {
            opcode: opcode::SUB_U8,
            arg1: 0,
            arg2: 0,
            arg3: 0,
        });

        interpreter.execute_frame(&mut frame).unwrap();
        assert_eq!(frame.operand_stack.pop().unwrap().get_u8(), i[2]);
    }

    for i in u16list {
        let mut frame = Frame::default();
        frame.stack.push(VirtualObject::from(i[0]));
        frame.stack.push(VirtualObject::from(i[1]));

        frame.instructions.push(Instruction {
            opcode: opcode::SUB_U16,
            arg1: 0,
            arg2: 0,
            arg3: 0,
        });

        interpreter.execute_frame(&mut frame).unwrap();
        assert_eq!(frame.operand_stack.pop().unwrap().get_u16(), i[2]);
    }

    for i in u32list {
        let mut frame = Frame::default();
        frame.stack.push(VirtualObject::from(i[0]));
        frame.stack.push(VirtualObject::from(i[1]));

        frame.instructions.push(Instruction {
            opcode: opcode::SUB_U32,
            arg1: 0,
            arg2: 0,
            arg3: 0,
        });

        interpreter.execute_frame(&mut frame).unwrap();
        assert_eq!(frame.operand_stack.pop().unwrap().get_u32(), i[2]);
    }

    for i in u64list {
        let mut frame = Frame::default();
        frame.stack.push(VirtualObject::from(i[0]));
        frame.stack.push(VirtualObject::from(i[1]));

        frame.instructions.push(Instruction {
            opcode: opcode::SUB_U64,
            arg1: 0,
            arg2: 0,
            arg3: 0,
        });

        interpreter.execute_frame(&mut frame).unwrap();
        assert_eq!(frame.operand_stack.pop().unwrap().get_u64(), i[2]);
    }
}
