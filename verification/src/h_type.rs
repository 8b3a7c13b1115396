//! The closed set of primitive value tags and their fixed byte widths.

use vstd::prelude::*;

verus! {

/// A primitive type tag. Every typed value carries one of these, and the
/// tag alone determines the byte width of the value's backing buffer.
#[derive(Clone, Copy, PartialEq, Eq, Structural, Debug)]
pub enum HType {
    Bool,
    U8,
    U16,
    U32,
    U64,
}

/// Size of `HType::Bool` in bytes.
pub const BOOL_SIZE: usize = 1;

/// Size of `HType::U8` in bytes.
pub const U8_SIZE: usize = 1;

/// Size of `HType::U16` in bytes.
pub const U16_SIZE: usize = 2;

/// Size of `HType::U32` in bytes.
pub const U32_SIZE: usize = 4;

/// Size of `HType::U64` in bytes.
pub const U64_SIZE: usize = 8;

/// The byte width of a tag, as a mathematical function of the tag alone.
pub open spec fn width(h_type: HType) -> nat {
    match h_type {
        HType::Bool => 1,
        HType::U8 => 1,
        HType::U16 => 2,
        HType::U32 => 4,
        HType::U64 => 8,
    }
}

/// The byte width of a tag.
pub fn get_size(h_type: HType) -> (r: usize)
    ensures
        r == width(h_type),
        1 <= r <= 8,
{
    match h_type {
        HType::Bool => BOOL_SIZE,
        HType::U8 => U8_SIZE,
        HType::U16 => U16_SIZE,
        HType::U32 => U32_SIZE,
        HType::U64 => U64_SIZE,
    }
}

} // verus!
