//! The fixed-width binary instruction codec: each instruction is exactly 32
//! bytes, four 8-byte big-endian unsigned integers in the order opcode, arg1,
//! arg2, arg3. A compiled program is a flat concatenation of such records.

use vstd::prelude::*;

use crate::big_endian::{
    be_bytes, be_read, be_val, be_write, lemma_be_bytes_be_val, lemma_be_bytes_len,
    lemma_be_val_be_bytes, lemma_be_val_bound, lemma_pow256_values,
};
use crate::error::VmError;

verus! {

/// The size of one encoded instruction in bytes.
pub const SIZE: u64 = 32;

/// One decoded instruction: an opcode and three immediate arguments.
#[derive(Clone, Copy, PartialEq, Eq, Structural, Debug)]
pub struct Instruction {
    pub opcode: u64,
    pub arg1: u64,
    pub arg2: u64,
    pub arg3: u64,
}

/// The 32-byte wire representation of an instruction.
pub open spec fn encode_spec(i: Instruction) -> Seq<u8> {
    be_bytes(i.opcode as nat, 8) + be_bytes(i.arg1 as nat, 8) + be_bytes(i.arg2 as nat, 8)
        + be_bytes(i.arg3 as nat, 8)
}

/// The instruction a byte string denotes: defined exactly on 32-byte strings.
pub open spec fn decode_spec(s: Seq<u8>) -> Option<Instruction> {
    if s.len() != 32 {
        None
    } else {
        Some(
            Instruction {
                opcode: be_val(s.subrange(0, 8)) as u64,
                arg1: be_val(s.subrange(8, 16)) as u64,
                arg2: be_val(s.subrange(16, 24)) as u64,
                arg3: be_val(s.subrange(24, 32)) as u64,
            },
        )
    }
}

impl Instruction {
    /// Decodes one instruction from a byte slice. Fails with `DecodeError`
    /// exactly when the slice is not 32 bytes long; no other validation is
    /// performed here, and opcode range checking is deferred to dispatch.
    pub fn from(instruction: &[u8]) -> (r: Result<Instruction, VmError>)
        ensures
            r matches Ok(i) ==> decode_spec(instruction@) == Some(i),
            r matches Err(e) ==> decode_spec(instruction@) is None && e == VmError::DecodeError,
            r is Ok <==> instruction@.len() == 32,
    {
        if instruction.len() != 32 {
            return Err(VmError::DecodeError);
        }
        let opcode = be_read(instruction, 0, 8);
        let arg1 = be_read(instruction, 8, 8);
        let arg2 = be_read(instruction, 16, 8);
        let arg3 = be_read(instruction, 24, 8);
        Ok(Instruction { opcode, arg1, arg2, arg3 })
    }

    /// Encodes the instruction as its 32-byte wire representation, the exact
    /// inverse of `from`.
    pub fn encode(&self) -> (r: Vec<u8>)
        ensures
            r@ == encode_spec(*self),
            r@.len() == 32,
    {
        proof {
            lemma_pow256_values();
        }
        let mut out = be_write(self.opcode, 8);
        let mut part = be_write(self.arg1, 8);
        out.append(&mut part);
        let mut part2 = be_write(self.arg2, 8);
        out.append(&mut part2);
        let mut part3 = be_write(self.arg3, 8);
        out.append(&mut part3);
        out
    }
}

/// Round trip: decoding an encoded instruction returns the instruction,
/// for every instruction value.
pub proof fn lemma_decode_encode_roundtrip(x: Instruction)
    ensures
        decode_spec(encode_spec(x)) == Some(x),
{
    lemma_pow256_values();
    let s = encode_spec(x);
    lemma_be_bytes_len(x.opcode as nat, 8);
    lemma_be_bytes_len(x.arg1 as nat, 8);
    lemma_be_bytes_len(x.arg2 as nat, 8);
    lemma_be_bytes_len(x.arg3 as nat, 8);
    assert(s.subrange(0, 8) =~= be_bytes(x.opcode as nat, 8));
    assert(s.subrange(8, 16) =~= be_bytes(x.arg1 as nat, 8));
    assert(s.subrange(16, 24) =~= be_bytes(x.arg2 as nat, 8));
    assert(s.subrange(24, 32) =~= be_bytes(x.arg3 as nat, 8));
    lemma_be_val_be_bytes(x.opcode as nat, 8);
    lemma_be_val_be_bytes(x.arg1 as nat, 8);
    lemma_be_val_be_bytes(x.arg2 as nat, 8);
    lemma_be_val_be_bytes(x.arg3 as nat, 8);
}

/// Bit-exactness the other way: every 32-byte record is the encoding of the
/// instruction it decodes to, so encoding is the exact inverse of decoding.
pub proof fn lemma_encode_decode_roundtrip(s: Seq<u8>)
    requires
        s.len() == 32,
    ensures
        decode_spec(s) matches Some(i) && encode_spec(i) == s,
{
    lemma_pow256_values();
    let w0 = s.subrange(0, 8);
    let w1 = s.subrange(8, 16);
    let w2 = s.subrange(16, 24);
    let w3 = s.subrange(24, 32);
    lemma_be_val_bound(w0);
    lemma_be_val_bound(w1);
    lemma_be_val_bound(w2);
    lemma_be_val_bound(w3);
    lemma_be_bytes_be_val(w0);
    lemma_be_bytes_be_val(w1);
    lemma_be_bytes_be_val(w2);
    lemma_be_bytes_be_val(w3);
    let i = decode_spec(s).unwrap();
    assert(encode_spec(i) =~= w0 + w1 + w2 + w3);
    assert(w0 + w1 + w2 + w3 =~= s);
}

} // verus!
