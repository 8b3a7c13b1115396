//! The closed opcode catalogue: the stable numeric codes of the wire format,
//! and their decoding into a closed tagged-variant type so that dispatch is
//! exhaustive and a code outside the catalogue is a distinct state.

use vstd::prelude::*;

use crate::h_type::HType;

verus! {

pub const NONE: u64 = 0x00;

/// Allocates an object of the named type in the frame's stack.
pub const NEW_BOOL: u64 = 0x01;

pub const NEW_U8: u64 = 0x02;

pub const NEW_U16: u64 = 0x03;

pub const NEW_U32: u64 = 0x04;

pub const NEW_U64: u64 = 0x05;

/// Pushes whether the two topmost stack values are structurally equal.
pub const EQUAL: u64 = 0x20;

/// Pushes the negation of the topmost boolean stack value.
pub const NOT: u64 = 0x21;

/// Pushes the conjunction of the two topmost boolean stack values.
pub const AND: u64 = 0x22;

/// Pushes the disjunction of the two topmost boolean stack values.
pub const OR: u64 = 0x23;

/// Loads an immediate of the named type into the topmost stack object.
pub const LOAD_BOOL: u64 = 0x30;

pub const LOAD_U8: u64 = 0x31;

pub const LOAD_U16: u64 = 0x32;

pub const LOAD_U32: u64 = 0x33;

pub const LOAD_U64: u64 = 0x34;

/// Transfers the topmost operand-stack value onto the stack.
pub const STORE: u64 = 0x40;

/// Adds the two topmost stack values of the named width, wrapping.
pub const ADD_U8: u64 = 0x50;

pub const ADD_U16: u64 = 0x51;

pub const ADD_U32: u64 = 0x52;

pub const ADD_U64: u64 = 0x53;

/// Subtracts the two topmost stack values of the named width, wrapping.
pub const SUB_U8: u64 = 0x60;

pub const SUB_U16: u64 = 0x61;

pub const SUB_U32: u64 = 0x62;

pub const SUB_U64: u64 = 0x63;

/// Divides the two topmost stack values of the named width.
pub const DIV_U8: u64 = 0x70;

pub const DIV_U16: u64 = 0x71;

pub const DIV_U32: u64 = 0x72;

pub const DIV_U64: u64 = 0x73;

/// Multiplies the two topmost stack values of the named width, wrapping.
pub const MUL_U8: u64 = 0x80;

pub const MUL_U16: u64 = 0x81;

pub const MUL_U32: u64 = 0x82;

pub const MUL_U64: u64 = 0x83;

/// Raises the topmost stack value to the power of the second, wrapping.
pub const PWR_U8: u64 = 0x90;

pub const PWR_U16: u64 = 0x91;

pub const PWR_U32: u64 = 0x92;

pub const PWR_U64: u64 = 0x93;

/// The sentinel the assembler emits for an unknown opcode name; it is outside
/// the catalogue and never dispatched to.
pub const ILLEGAL: u64 = u64::MAX;

/// A binary arithmetic operator over one numeric width.
#[derive(Clone, Copy, PartialEq, Eq, Structural, Debug)]
pub enum AluOp {
    Add,
    Sub,
    Div,
    Mul,
    Pwr,
}

/// One entry of the opcode catalogue, decoded. `Alu` carries only the numeric
/// tags U8 through U64, never `Bool`.
#[derive(Clone, Copy, PartialEq, Eq, Structural, Debug)]
pub enum Op {
    Nop,
    New(HType),
    Load(HType),
    Store,
    Alu(AluOp, HType),
    Equal,
    Not,
    And,
    Or,
}

/// The catalogue as a function: the decoded operation of a numeric code, or
/// `None` for a code outside the catalogue.
pub open spec fn op_of(code: u64) -> Option<Op> {
    if code == NONE {
        Some(Op::Nop)
    } else if code == NEW_BOOL {
        Some(Op::New(HType::Bool))
    } else if code == NEW_U8 {
        Some(Op::New(HType::U8))
    } else if code == NEW_U16 {
        Some(Op::New(HType::U16))
    } else if code == NEW_U32 {
        Some(Op::New(HType::U32))
    } else if code == NEW_U64 {
        Some(Op::New(HType::U64))
    } else if code == EQUAL {
        Some(Op::Equal)
    } else if code == NOT {
        Some(Op::Not)
    } else if code == AND {
        Some(Op::And)
    } else if code == OR {
        Some(Op::Or)
    } else if code == LOAD_BOOL {
        Some(Op::Load(HType::Bool))
    } else if code == LOAD_U8 {
        Some(Op::Load(HType::U8))
    } else if code == LOAD_U16 {
        Some(Op::Load(HType::U16))
    } else if code == LOAD_U32 {
        Some(Op::Load(HType::U32))
    } else if code == LOAD_U64 {
        Some(Op::Load(HType::U64))
    } else if code == STORE {
        Some(Op::Store)
    } else if code == ADD_U8 {
        Some(Op::Alu(AluOp::Add, HType::U8))
    } else if code == ADD_U16 {
        Some(Op::Alu(AluOp::Add, HType::U16))
    } else if code == ADD_U32 {
        Some(Op::Alu(AluOp::Add, HType::U32))
    } else if code == ADD_U64 {
        Some(Op::Alu(AluOp::Add, HType::U64))
    } else if code == SUB_U8 {
        Some(Op::Alu(AluOp::Sub, HType::U8))
    } else if code == SUB_U16 {
        Some(Op::Alu(AluOp::Sub, HType::U16))
    } else if code == SUB_U32 {
        Some(Op::Alu(AluOp::Sub, HType::U32))
    } else if code == SUB_U64 {
        Some(Op::Alu(AluOp::Sub, HType::U64))
    } else if code == DIV_U8 {
        Some(Op::Alu(AluOp::Div, HType::U8))
    } else if code == DIV_U16 {
        Some(Op::Alu(AluOp::Div, HType::U16))
    } else if code == DIV_U32 {
        Some(Op::Alu(AluOp::Div, HType::U32))
    } else if code == DIV_U64 {
        Some(Op::Alu(AluOp::Div, HType::U64))
    } else if code == MUL_U8 {
        Some(Op::Alu(AluOp::Mul, HType::U8))
    } else if code == MUL_U16 {
        Some(Op::Alu(AluOp::Mul, HType::U16))
    } else if code == MUL_U32 {
        Some(Op::Alu(AluOp::Mul, HType::U32))
    } else if code == MUL_U64 {
        Some(Op::Alu(AluOp::Mul, HType::U64))
    } else if code == PWR_U8 {
        Some(Op::Alu(AluOp::Pwr, HType::U8))
    } else if code == PWR_U16 {
        Some(Op::Alu(AluOp::Pwr, HType::U16))
    } else if code == PWR_U32 {
        Some(Op::Alu(AluOp::Pwr, HType::U32))
    } else if code == PWR_U64 {
        Some(Op::Alu(AluOp::Pwr, HType::U64))
    } else {
        None
    }
}

/// Decodes a numeric code against the catalogue.
pub fn decode_op(code: u64) -> (r: Option<Op>)
    ensures
        r == op_of(code),
{
    match code {
        NONE => Some(Op::Nop),
        NEW_BOOL => Some(Op::New(HType::Bool)),
        NEW_U8 => Some(Op::New(HType::U8)),
        NEW_U16 => Some(Op::New(HType::U16)),
        NEW_U32 => Some(Op::New(HType::U32)),
        NEW_U64 => Some(Op::New(HType::U64)),
        EQUAL => Some(Op::Equal),
        NOT => Some(Op::Not),
        AND => Some(Op::And),
        OR => Some(Op::Or),
        LOAD_BOOL => Some(Op::Load(HType::Bool)),
        LOAD_U8 => Some(Op::Load(HType::U8)),
        LOAD_U16 => Some(Op::Load(HType::U16)),
        LOAD_U32 => Some(Op::Load(HType::U32)),
        LOAD_U64 => Some(Op::Load(HType::U64)),
        STORE => Some(Op::Store),
        ADD_U8 => Some(Op::Alu(AluOp::Add, HType::U8)),
        ADD_U16 => Some(Op::Alu(AluOp::Add, HType::U16)),
        ADD_U32 => Some(Op::Alu(AluOp::Add, HType::U32)),
        ADD_U64 => Some(Op::Alu(AluOp::Add, HType::U64)),
        SUB_U8 => Some(Op::Alu(AluOp::Sub, HType::U8)),
        SUB_U16 => Some(Op::Alu(AluOp::Sub, HType::U16)),
        SUB_U32 => Some(Op::Alu(AluOp::Sub, HType::U32)),
        SUB_U64 => Some(Op::Alu(AluOp::Sub, HType::U64)),
        DIV_U8 => Some(Op::Alu(AluOp::Div, HType::U8)),
        DIV_U16 => Some(Op::Alu(AluOp::Div, HType::U16)),
        DIV_U32 => Some(Op::Alu(AluOp::Div, HType::U32)),
        DIV_U64 => Some(Op::Alu(AluOp::Div, HType::U64)),
        MUL_U8 => Some(Op::Alu(AluOp::Mul, HType::U8)),
        MUL_U16 => Some(Op::Alu(AluOp::Mul, HType::U16)),
        MUL_U32 => Some(Op::Alu(AluOp::Mul, HType::U32)),
        MUL_U64 => Some(Op::Alu(AluOp::Mul, HType::U64)),
        PWR_U8 => Some(Op::Alu(AluOp::Pwr, HType::U8)),
        PWR_U16 => Some(Op::Alu(AluOp::Pwr, HType::U16)),
        PWR_U32 => Some(Op::Alu(AluOp::Pwr, HType::U32)),
        PWR_U64 => Some(Op::Alu(AluOp::Pwr, HType::U64)),
        _ => None,
    }
}

} // verus!
