//! The error taxonomy of the virtual machine. Every condition here aborts the
//! current operation and surfaces to the caller as an inspectable value; none
//! is a process abort.

use vstd::prelude::*;

verus! {

/// A recoverable failure of the codec or the interpreter.
#[derive(Clone, Copy, PartialEq, Eq, Structural, Debug)]
pub enum VmError {
    /// An instruction byte slice is not exactly `instruction::SIZE` bytes.
    DecodeError,
    /// An opcode's type expectation on a stack or operand-stack element is violated.
    TypeMismatchError,
    /// A required stack or operand-stack depth is not met.
    StackUnderflow,
    /// A constraint limit would be violated by an allocation.
    ResourceExceeded,
    /// Dispatch reached a code outside the opcode catalogue.
    UnknownOpcode,
    /// A division instruction met a zero divisor.
    DivisionByZero,
}

impl VmError {
    /// A short stable name for the error, for callers that report it.
    pub fn describe(&self) -> (r: &'static str)
        ensures
            r@.len() > 0,
            self is DecodeError ==> r@ == "instruction is not exactly 32 bytes"@,
            self is TypeMismatchError ==> r@ == "value has an unexpected type tag"@,
            self is StackUnderflow ==> r@ == "stack depth is not met"@,
            self is ResourceExceeded ==> r@ == "a resource constraint was exceeded"@,
            self is UnknownOpcode ==> r@ == "opcode is outside the catalogue"@,
            self is DivisionByZero ==> r@ == "division by zero"@,
    {
        proof {
            reveal_strlit("instruction is not exactly 32 bytes");
            reveal_strlit("value has an unexpected type tag");
            reveal_strlit("stack depth is not met");
            reveal_strlit("a resource constraint was exceeded");
            reveal_strlit("opcode is outside the catalogue");
            reveal_strlit("division by zero");
        }
        match self {
            VmError::DecodeError => "instruction is not exactly 32 bytes",
            VmError::TypeMismatchError => "value has an unexpected type tag",
            VmError::StackUnderflow => "stack depth is not met",
            VmError::ResourceExceeded => "a resource constraint was exceeded",
            VmError::UnknownOpcode => "opcode is outside the catalogue",
            VmError::DivisionByZero => "division by zero",
        }
    }
}

} // verus!
