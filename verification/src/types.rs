//! Typed values: a byte buffer tagged with a primitive type, with accessors
//! that read and write the buffer in big-endian order. The backing buffer of
//! a well-formed value always has exactly the width of its tag.

use vstd::prelude::*;

use crate::big_endian::{be_bytes, be_read, be_val, be_write, lemma_pow256_values, pow256};
use crate::h_type::{get_size, width, HType};

verus! {

pub type VirtualAddress = u64;

/// A typed location: an address paired with the type of the value it holds.
pub struct VirtualPointer {
    pub location: VirtualAddress,
    pub data_type: HType,
}

/// A typed value: a byte buffer plus its type tag. Equality is structural
/// (tag and bytes).
#[derive(Clone, Debug)]
pub struct VirtualObject {
    pub data: Vec<u8>,
    pub data_type: HType,
}

/// The mathematical content of a `VirtualObject`: its tag and its bytes.
#[verifier::ext_equal]
pub ghost struct ObjView {
    pub data: Seq<u8>,
    pub data_type: HType,
}

impl ObjView {
    /// A value is well formed when its buffer length equals the width of its tag.
    pub open spec fn wf(self) -> bool {
        self.data.len() == width(self.data_type)
    }

    /// The natural number the buffer denotes, read in big-endian order.
    pub open spec fn val(self) -> nat {
        be_val(self.data)
    }
}

impl View for VirtualObject {
    type V = ObjView;

    open spec fn view(&self) -> ObjView {
        ObjView { data: self.data@, data_type: self.data_type }
    }
}

/// The zero-filled value of a tag: what allocation produces.
pub open spec fn zero_obj(t: HType) -> ObjView {
    ObjView { data: Seq::new(width(t), |i: int| 0u8), data_type: t }
}

/// A zero-filled buffer denotes zero.
pub proof fn lemma_be_val_of_zeros(s: Seq<u8>)
    requires
        forall|i: int| 0 <= i < s.len() ==> s[i] == 0,
    ensures
        be_val(s) == 0,
    decreases s.len(),
{
    if s.len() > 0 {
        lemma_be_val_of_zeros(s.drop_last());
    }
}

impl PartialEq for VirtualObject {
    fn eq(&self, other: &Self) -> (r: bool) {
        let tag_eq = self.data_type == other.data_type;
        let data_eq = self.data == other.data;
        proof {
            if self.data@ =~= other.data@ {
                assert(self.data@ == other.data@);
            }
        }
        tag_eq && data_eq
    }
}

impl vstd::std_specs::cmp::PartialEqSpecImpl for VirtualObject {
    open spec fn obeys_eq_spec() -> bool {
        true
    }

    open spec fn eq_spec(&self, other: &VirtualObject) -> bool {
        self.data_type == other.data_type && self.data@ == other.data@
    }
}

impl From<bool> for VirtualObject {
    /// The typed literal constructor for booleans: a one-byte buffer holding
    /// 1 for true and 0 for false, tagged `Bool`.
    fn from(boolean: bool) -> (r: VirtualObject)
        ensures
            r@.data_type == HType::Bool,
            r@.data == be_bytes(if boolean { 1nat } else { 0nat }, 1),
            r@.wf(),
            r@.val() == (if boolean { 1nat } else { 0nat }),
    {
        let mut obj = VirtualObject::new_empty(HType::Bool);
        obj.set_bool(&boolean);
        proof {
            lemma_pow256_values();
            crate::big_endian::lemma_be_val_be_bytes(if boolean { 1nat } else { 0nat }, 1);
            let ghost v01 = if boolean { 1nat } else { 0nat };
            assert(be_bytes(0nat, 0) =~= Seq::<u8>::empty());
            assert(be_bytes(v01, 1) == be_bytes(v01 / 256, 0).push((v01 % 256) as u8));
            assert(obj.data@ =~= be_bytes(v01, 1));
        }
        obj
    }
}

impl vstd::std_specs::convert::FromSpecImpl<bool> for VirtualObject {
    open spec fn obeys_from_spec() -> bool {
        false
    }

    open spec fn from_spec(v: bool) -> VirtualObject {
        arbitrary()
    }
}

impl vstd::std_specs::convert::FromSpecImpl<u8> for VirtualObject {
    open spec fn obeys_from_spec() -> bool {
        false
    }

    open spec fn from_spec(v: u8) -> VirtualObject {
        arbitrary()
    }
}

impl vstd::std_specs::convert::FromSpecImpl<u16> for VirtualObject {
    open spec fn obeys_from_spec() -> bool {
        false
    }

    open spec fn from_spec(v: u16) -> VirtualObject {
        arbitrary()
    }
}

impl vstd::std_specs::convert::FromSpecImpl<u32> for VirtualObject {
    open spec fn obeys_from_spec() -> bool {
        false
    }

    open spec fn from_spec(v: u32) -> VirtualObject {
        arbitrary()
    }
}

impl vstd::std_specs::convert::FromSpecImpl<u64> for VirtualObject {
    open spec fn obeys_from_spec() -> bool {
        false
    }

    open spec fn from_spec(v: u64) -> VirtualObject {
        arbitrary()
    }
}

impl From<u8> for VirtualObject {
    /// The typed literal constructor for `u8`: the one-byte big-endian
    /// encoding of the value, tagged `U8`.
    fn from(v: u8) -> (r: VirtualObject)
        ensures
            r@.data_type == HType::U8,
            r@.data == be_bytes(v as nat, 1),
            r@.wf(),
            r@.val() == v,
    {
        let mut obj = VirtualObject::new_empty(HType::U8);
        obj.set_u8(&v);
        obj
    }
}

impl From<u16> for VirtualObject {
    /// The typed literal constructor for `u16`: the two-byte big-endian
    /// encoding of the value, tagged `U16`.
    fn from(v: u16) -> (r: VirtualObject)
        ensures
            r@.data_type == HType::U16,
            r@.data == be_bytes(v as nat, 2),
            r@.wf(),
            r@.val() == v,
    {
        let mut obj = VirtualObject::new_empty(HType::U16);
        obj.set_u16(&v);
        obj
    }
}

impl From<u32> for VirtualObject {
    /// The typed literal constructor for `u32`: the four-byte big-endian
    /// encoding of the value, tagged `U32`.
    fn from(v: u32) -> (r: VirtualObject)
        ensures
            r@.data_type == HType::U32,
            r@.data == be_bytes(v as nat, 4),
            r@.wf(),
            r@.val() == v,
    {
        let mut obj = VirtualObject::new_empty(HType::U32);
        obj.set_u32(&v);
        obj
    }
}

impl From<u64> for VirtualObject {
    /// The typed literal constructor for `u64`: the eight-byte big-endian
    /// encoding of the value, tagged `U64`.
    fn from(v: u64) -> (r: VirtualObject)
        ensures
            r@.data_type == HType::U64,
            r@.data == be_bytes(v as nat, 8),
            r@.wf(),
            r@.val() == v,
    {
        let mut obj = VirtualObject::new_empty(HType::U64);
        obj.set_u64(&v);
        obj
    }
}

impl VirtualObject {
    /// Builds a value directly from a buffer and a tag; the buffer must
    /// already have exactly the width of the tag, so that every constructed
    /// value keeps the width invariant.
    pub fn new(data: Vec<u8>, data_type: HType) -> (r: VirtualObject)
        requires
            data@.len() == width(data_type),
        ensures
            r@.data == data@,
            r@.data_type == data_type,
            r@.wf(),
    {
        VirtualObject { data, data_type }
    }

    /// Creates a `VirtualObject` whose buffer is zero-filled to exactly the
    /// width of the tag.
    pub fn new_empty(data_type: HType) -> (r: VirtualObject)
        ensures
            r@ == zero_obj(data_type),
            r@.wf(),
            r@.data.len() == width(data_type),
            forall|i: int| 0 <= i < r@.data.len() ==> r@.data[i] == 0,
            r@.val() == 0,
    {
        let size = get_size(data_type);
        let mut vec = Vec::<u8>::with_capacity(size);
        let mut k: usize = 0;
        while k < size
            invariant
                k <= size,
                vec@ =~= Seq::new(k as nat, |i: int| 0u8),
            decreases size - k,
        {
            vec.push(0u8);
            proof {
                assert(vec@ =~= Seq::new((k + 1) as nat, |i: int| 0u8));
            }
            k = k + 1;
        }
        let r = VirtualObject { data: vec, data_type };
        proof {
            assert(r@ =~= zero_obj(data_type));
            lemma_be_val_of_zeros(r@.data);
        }
        r
    }

    /// Creates a `VirtualObject` whose buffer is filled with `u8::MAX` to
    /// exactly the width of the tag.
    pub fn new_max(data_type: HType) -> (r: VirtualObject)
        ensures
            r@.data_type == data_type,
            r@.wf(),
            r@.data =~= Seq::new(width(data_type), |i: int| 0xffu8),
    {
        let size = get_size(data_type);
        let mut vec = Vec::<u8>::with_capacity(size);
        let mut k: usize = 0;
        while k < size
            invariant
                k <= size,
                vec@ =~= Seq::new(k as nat, |i: int| 0xffu8),
            decreases size - k,
        {
            vec.push(u8::MAX);
            proof {
                assert(vec@ =~= Seq::new((k + 1) as nat, |i: int| 0xffu8));
            }
            k = k + 1;
        }
        VirtualObject { data: vec, data_type }
    }

    /// Writes a boolean as a single byte, in place, without resizing.
    pub fn set_bool(&mut self, value: &bool)
        requires
            old(self).data@.len() >= 1,
        ensures
            final(self).data@ == old(self).data@.update(0, (if *value { 1u8 } else { 0u8 })),
            final(self).data_type == old(self).data_type,
    {
        self.data[0] = if *value {
            1u8
        } else {
            0u8
        };
    }

    /// Replaces the buffer with the one-byte big-endian encoding of the value.
    pub fn set_u8(&mut self, value: &u8)
        ensures
            final(self).data@ == be_bytes(*value as nat, 1),
            final(self).data@.len() == 1,
            final(self).data_type == old(self).data_type,
            be_val(final(self).data@) == *value,
    {
        proof {
            lemma_pow256_values();
            crate::big_endian::lemma_be_val_be_bytes(*value as nat, 1);
        }
        self.data = be_write(*value as u64, 1);
    }

    /// Replaces the buffer with the two-byte big-endian encoding of the value.
    pub fn set_u16(&mut self, value: &u16)
        ensures
            final(self).data@ == be_bytes(*value as nat, 2),
            final(self).data@.len() == 2,
            final(self).data_type == old(self).data_type,
            be_val(final(self).data@) == *value,
    {
        proof {
            lemma_pow256_values();
            crate::big_endian::lemma_be_val_be_bytes(*value as nat, 2);
        }
        self.data = be_write(*value as u64, 2);
    }

    /// Replaces the buffer with the four-byte big-endian encoding of the value.
    pub fn set_u32(&mut self, value: &u32)
        ensures
            final(self).data@ == be_bytes(*value as nat, 4),
            final(self).data@.len() == 4,
            final(self).data_type == old(self).data_type,
            be_val(final(self).data@) == *value,
    {
        proof {
            lemma_pow256_values();
            crate::big_endian::lemma_be_val_be_bytes(*value as nat, 4);
        }
        self.data = be_write(*value as u64, 4);
    }

    /// Replaces the buffer with the eight-byte big-endian encoding of the value.
    pub fn set_u64(&mut self, value: &u64)
        ensures
            final(self).data@ == be_bytes(*value as nat, 8),
            final(self).data@.len() == 8,
            final(self).data_type == old(self).data_type,
            be_val(final(self).data@) == *value,
    {
        proof {
            lemma_pow256_values();
            crate::big_endian::lemma_be_val_be_bytes(*value as nat, 8);
        }
        self.data = be_write(*value, 8);
    }

    /// Reads the first byte as a boolean: any nonzero byte is true.
    pub fn get_bool(&self) -> (r: bool)
        requires
            self.data@.len() >= 1,
        ensures
            r == (self.data@[0] != 0),
    {
        self.data[0] != 0
    }

    /// Reads a one-byte buffer as its value.
    pub fn get_u8(&self) -> (r: u8)
        requires
            self.data@.len() == 1,
        ensures
            r == self@.val(),
    {
        proof {
            assert(self.data@.drop_last() =~= Seq::<u8>::empty());
            assert(be_val(Seq::<u8>::empty()) == 0);
            assert(self.data@.last() == self.data@[0]);
        }
        self.data[0]
    }

    /// Reads a two-byte buffer as its big-endian value.
    pub fn get_u16(&self) -> (r: u16)
        requires
            self.data@.len() == 2,
        ensures
            r == self@.val(),
    {
        proof {
            lemma_pow256_values();
            crate::big_endian::lemma_be_val_bound(self.data@);
            assert(self.data@.subrange(0, 2) =~= self.data@);
        }
        be_read(self.data.as_slice(), 0, 2) as u16
    }

    /// Reads a four-byte buffer as its big-endian value.
    pub fn get_u32(&self) -> (r: u32)
        requires
            self.data@.len() == 4,
        ensures
            r == self@.val(),
    {
        proof {
            lemma_pow256_values();
            crate::big_endian::lemma_be_val_bound(self.data@);
            assert(self.data@.subrange(0, 4) =~= self.data@);
        }
        be_read(self.data.as_slice(), 0, 4) as u32
    }

    /// Reads an eight-byte buffer as its big-endian value.
    pub fn get_u64(&self) -> (r: u64)
        requires
            self.data@.len() == 8,
        ensures
            r == self@.val(),
    {
        proof {
            assert(self.data@.subrange(0, 8) =~= self.data@);
        }
        be_read(self.data.as_slice(), 0, 8)
    }
}

/// Idempotence of allocation: any two zero-allocated values of one tag are
/// structurally equal, whichever call produced them.
pub proof fn lemma_allocate_idempotent(a: VirtualObject, b: VirtualObject, t: HType)
    requires
        a@ == zero_obj(t),
        b@ == zero_obj(t),
    ensures
        vstd::std_specs::cmp::PartialEqSpec::eq_spec(&a, &b),
{
}

} // verus!
