use heat_vm::error::VmError;
use heat_vm::instruction::Instruction;

#[test]
fn encode_is_four_big_endian_words() {
    let x = Instruction { opcode: 1, arg1: 2, arg2: 3, arg3: 0x0102_0304_0506_0708 };
    let bytes = x.encode();
    let mut expected = vec![0u8; 24];
    expected[7] = 1;
    expected[15] = 2;
    expected[23] = 3;
    expected.extend_from_slice(&[0x01, 0x02, 0x03, 0x04, 0x05, 0x06, 0x07, 0x08]);
    assert_eq!(bytes, expected);
}

#[test]
fn decode_reads_four_big_endian_words() {
    let mut bytes = vec![0u8; 32];
    bytes[7] = 0x31; // opcode
    bytes[14] = 0x01; // arg1 = 256
    bytes[23] = 0x07; // arg2
    bytes[24] = 0x80; // arg3 high byte
    let ins = Instruction::from(&bytes).unwrap();
    assert_eq!(ins.opcode, 0x31);
    assert_eq!(ins.arg1, 256);
    assert_eq!(ins.arg2, 7);
    assert_eq!(ins.arg3, 0x8000_0000_0000_0000);
}

#[test]
fn decode_encode_roundtrip() {
    let cases = [
        Instruction { opcode: 0, arg1: 0, arg2: 0, arg3: 0 },
        Instruction { opcode: 0x50, arg1: 5, arg2: 0, arg3: 0 },
        Instruction { opcode: u64::MAX, arg1: u64::MAX, arg2: 1, arg3: u64::MAX - 1 },
    ];
    for x in cases {
        let bytes = x.encode();
        assert_eq!(bytes.len(), 32);
        let back = Instruction::from(&bytes).unwrap();
        assert_eq!(back.opcode, x.opcode);
        assert_eq!(back.arg1, x.arg1);
        assert_eq!(back.arg2, x.arg2);
        assert_eq!(back.arg3, x.arg3);
    }
}

#[test]
fn decode_rejects_wrong_lengths() {
    assert_eq!(Instruction::from(&[]).unwrap_err(), VmError::DecodeError);
    assert_eq!(Instruction::from(&[0u8; 31]).unwrap_err(), VmError::DecodeError);
    assert_eq!(Instruction::from(&[0u8; 33]).unwrap_err(), VmError::DecodeError);
    assert_eq!(Instruction::from(&[0u8; 64]).unwrap_err(), VmError::DecodeError);
    assert!(Instruction::from(&[0u8; 32]).is_ok());
}
