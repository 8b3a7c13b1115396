//! A small stack-based bytecode virtual machine: a fixed-width binary
//! instruction codec, typed byte-buffer values, an execution frame holding
//! several value stacks, declarative resource constraints, and an interpreter
//! that dispatches opcodes against a frame. A companion assembler module
//! turns textual instruction lines into the binary format the codec reads.

pub mod alu;
pub mod big_endian;
pub mod compiler;
pub mod constraints;
pub mod error;
pub mod frame;
pub mod opcode;
pub mod h_type;
pub mod instruction;
pub mod interpreter;
pub mod types;
