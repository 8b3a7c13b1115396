//! The execution context: an identifier, an instruction sequence with a
//! program counter, and four independent containers of typed values.

use vstd::prelude::*;

use crate::h_type::{width, HType};
use crate::instruction::Instruction;
use crate::types::{zero_obj, ObjView, VirtualObject};

verus! {

/// An opaque, globally unique frame identifier. It addresses the frame and is
/// not consumed by any cross-frame mechanism.
pub type FrameAddress = u128;

/// Relies on uuid::Uuid::new_v4 (and as_u128) for a fresh random identifier;
/// nothing is promised of the value.
#[verifier::external_body]
fn fresh_address() -> FrameAddress {
    uuid::Uuid::new_v4().as_u128()
}

/// A frame: an independent execution context with its own code and stacks,
/// depending on no other frame.
pub struct Frame {
    /// Unique identifier of the frame.
    pub address: FrameAddress,
    /// Instructions local to the frame.
    pub instructions: Vec<Instruction>,
    /// Constant pool: constant values local to the frame (reserved; unused by
    /// current opcode semantics).
    pub constant_pool: Vec<VirtualObject>,
    /// Named-slot storage local to the frame (reserved; unused by current
    /// opcode semantics).
    pub local: Vec<VirtualObject>,
    /// Operand storage addressed from the top; instructions consume it.
    pub stack: Vec<VirtualObject>,
    /// Holds results of binary operators before STORE commits them.
    pub operand_stack: Vec<VirtualObject>,
    /// Index of the current instruction.
    pub pc: u64,
}

/// The mathematical content of a frame.
#[verifier::ext_equal]
pub ghost struct FrameView {
    pub address: FrameAddress,
    pub instructions: Seq<Instruction>,
    pub constant_pool: Seq<ObjView>,
    pub local: Seq<ObjView>,
    pub stack: Seq<ObjView>,
    pub operand_stack: Seq<ObjView>,
    pub pc: nat,
}

/// Every value of a container is well formed.
pub open spec fn objs_wf(s: Seq<ObjView>) -> bool {
    forall|i: int| 0 <= i < s.len() ==> (#[trigger] s[i]).wf()
}

/// Total bytes held by the values of one container.
pub open spec fn objs_bytes(s: Seq<ObjView>) -> nat
    decreases s.len(),
{
    if s.len() == 0 {
        0
    } else {
        objs_bytes(s.drop_last()) + s.last().data.len()
    }
}

/// Appending a value adds exactly its buffer length to the byte total.
pub proof fn lemma_objs_bytes_snoc(s: Seq<ObjView>, o: ObjView)
    ensures
        objs_bytes(s.push(o)) == objs_bytes(s) + o.data.len(),
{
    assert(s.push(o).drop_last() =~= s);
}

/// A prefix of a container holds the byte total of its values.
pub proof fn lemma_objs_bytes_take_step(s: Seq<ObjView>, i: int)
    requires
        0 <= i < s.len(),
    ensures
        objs_bytes(s.take(i + 1)) == objs_bytes(s.take(i)) + s[i].data.len(),
{
    assert(s.take(i + 1).drop_last() =~= s.take(i));
    assert(s.take(i + 1).last() == s[i]);
}

/// Updating one value changes the byte total by the buffer length difference.
pub proof fn lemma_objs_bytes_update(s: Seq<ObjView>, i: int, o: ObjView)
    requires
        0 <= i < s.len(),
    ensures
        objs_bytes(s.update(i, o)) + s[i].data.len() == objs_bytes(s) + o.data.len(),
    decreases s.len(),
{
    if i == s.len() - 1 {
        assert(s.update(i, o).drop_last() =~= s.drop_last());
        assert(s.update(i, o).last() == o);
    } else {
        assert(s.update(i, o).drop_last() =~= s.drop_last().update(i, o));
        assert(s.update(i, o).last() == s.last());
        lemma_objs_bytes_update(s.drop_last(), i, o);
    }
}

/// Dropping the last value removes exactly its buffer length.
pub proof fn lemma_objs_bytes_drop_last(s: Seq<ObjView>)
    requires
        s.len() > 0,
    ensures
        objs_bytes(s.drop_last()) + s.last().data.len() == objs_bytes(s),
{
}

/// A container of well-formed values holds at most eight bytes per value.
pub proof fn lemma_objs_bytes_bounded(s: Seq<ObjView>)
    requires
        objs_wf(s),
    ensures
        objs_bytes(s) <= 8 * s.len(),
    decreases s.len(),
{
    if s.len() > 0 {
        assert(objs_wf(s.drop_last())) by {
            assert(forall|i: int|
                0 <= i < s.len() - 1 ==> (#[trigger] s.drop_last()[i]) == s[i]);
        }
        lemma_objs_bytes_bounded(s.drop_last());
        assert(s.last().wf());
        assert(s.last().data.len() <= 8);
    }
}

impl FrameView {
    /// Well-formedness: the program counter stays within the instruction
    /// sequence and every held value is well formed.
    pub open spec fn wf(self) -> bool {
        &&& self.pc <= self.instructions.len()
        &&& objs_wf(self.constant_pool)
        &&& objs_wf(self.local)
        &&& objs_wf(self.stack)
        &&& objs_wf(self.operand_stack)
    }

    /// Total bytes allocated across all four containers.
    pub open spec fn mem_bytes(self) -> nat {
        objs_bytes(self.constant_pool) + objs_bytes(self.local) + objs_bytes(self.stack)
            + objs_bytes(self.operand_stack)
    }
}

impl View for Frame {
    type V = FrameView;

    open spec fn view(&self) -> FrameView {
        FrameView {
            address: self.address,
            instructions: self.instructions@,
            constant_pool: self.constant_pool@.map_values(|o: VirtualObject| o@),
            local: self.local@.map_values(|o: VirtualObject| o@),
            stack: self.stack@.map_values(|o: VirtualObject| o@),
            operand_stack: self.operand_stack@.map_values(|o: VirtualObject| o@),
            pc: self.pc as nat,
        }
    }
}

impl Default for Frame {
    /// A fresh frame: a new random address, no code, empty containers, and a
    /// program counter at zero.
    fn default() -> (r: Frame)
        ensures
            r@.instructions =~= Seq::<Instruction>::empty(),
            r@.constant_pool =~= Seq::<ObjView>::empty(),
            r@.local =~= Seq::<ObjView>::empty(),
            r@.stack =~= Seq::<ObjView>::empty(),
            r@.operand_stack =~= Seq::<ObjView>::empty(),
            r@.pc == 0,
            r@.wf(),
    {
        Frame {
            address: fresh_address(),
            instructions: Vec::new(),
            constant_pool: Vec::new(),
            local: Vec::new(),
            stack: Vec::new(),
            operand_stack: Vec::new(),
            pc: 0,
        }
    }
}

impl Frame {
    /// A fresh frame under a caller-chosen address, with room reserved for
    /// the given numbers of local and stack values.
    pub fn new(address: FrameAddress, local_max: u16, stack_max: u16) -> (r: Frame)
        ensures
            r@.address == address,
            r@.instructions =~= Seq::<Instruction>::empty(),
            r@.constant_pool =~= Seq::<ObjView>::empty(),
            r@.local =~= Seq::<ObjView>::empty(),
            r@.stack =~= Seq::<ObjView>::empty(),
            r@.operand_stack =~= Seq::<ObjView>::empty(),
            r@.pc == 0,
            r@.wf(),
    {
        Frame {
            address,
            instructions: Vec::new(),
            constant_pool: Vec::new(),
            local: Vec::with_capacity(local_max as usize),
            stack: Vec::with_capacity(stack_max as usize),
            operand_stack: Vec::new(),
            pc: 0,
        }
    }

    /// Allocates a zero-filled value of the type and pushes it onto the
    /// stack: the only way new storage enters a frame.
    pub fn allocate_in_stack(&mut self, htype: HType)
        ensures
            final(self)@ =~= (FrameView {
                stack: old(self)@.stack.push(zero_obj(htype)),
                ..old(self)@
            }),
    {
        self.stack.push(VirtualObject::new_empty(htype));
        proof {
            assert(self.stack@.map_values(|o: VirtualObject| o@) =~= old(
                self,
            )@.stack.push(zero_obj(htype)));
        }
    }

    /// Bounds-checked read of the stack at an offset from the top; offset 0
    /// is the topmost element. `None` exactly when the stack is too shallow.
    pub fn get_front_in_stack(&self, offset: usize) -> (r: Option<&VirtualObject>)
        ensures
            match r {
                Some(o) => offset < self@.stack.len() && o@ == self@.stack[self@.stack.len() - 1
                    - offset],
                None => offset >= self@.stack.len(),
            },
    {
        if offset < self.stack.len() {
            Some(&self.stack[self.stack.len() - 1 - offset])
        } else {
            None
        }
    }

    /// Bounds-checked read of the operand stack at an offset from the top.
    pub fn get_front_in_op_stack(&self, offset: usize) -> (r: Option<&VirtualObject>)
        ensures
            match r {
                Some(o) => offset < self@.operand_stack.len() && o@
                    == self@.operand_stack[self@.operand_stack.len() - 1 - offset],
                None => offset >= self@.operand_stack.len(),
            },
    {
        if offset < self.operand_stack.len() {
            Some(&self.operand_stack[self.operand_stack.len() - 1 - offset])
        } else {
            None
        }
    }

    /// Bounds-checked overwrite of the stack at an offset from the top.
    /// Returns whether the stack was deep enough to write.
    pub fn set_front_in_stack(&mut self, offset: usize, value: VirtualObject) -> (r: bool)
        ensures
            r == (offset < old(self)@.stack.len()),
            r ==> final(self)@ =~= (FrameView {
                stack: old(self)@.stack.update(
                    old(self)@.stack.len() - 1 - offset,
                    value@,
                ),
                ..old(self)@
            }),
            !r ==> final(self)@ =~= old(self)@,
    {
        if offset < self.stack.len() {
            let i = self.stack.len() - 1 - offset;
            self.stack[i] = value;
            proof {
                assert(self.stack@.map_values(|o: VirtualObject| o@) =~= old(
                    self,
                )@.stack.update(old(self)@.stack.len() - 1 - offset, value@));
            }
            true
        } else {
            false
        }
    }

    /// Bounds-checked overwrite of the operand stack at an offset from the
    /// top. Returns whether the operand stack was deep enough to write.
    pub fn set_front_in_op_stack(&mut self, offset: usize, value: VirtualObject) -> (r: bool)
        ensures
            r == (offset < old(self)@.operand_stack.len()),
            r ==> final(self)@ =~= (FrameView {
                operand_stack: old(self)@.operand_stack.update(
                    old(self)@.operand_stack.len() - 1 - offset,
                    value@,
                ),
                ..old(self)@
            }),
            !r ==> final(self)@ =~= old(self)@,
    {
        if offset < self.operand_stack.len() {
            let i = self.operand_stack.len() - 1 - offset;
            self.operand_stack[i] = value;
            proof {
                assert(self.operand_stack@.map_values(|o: VirtualObject| o@) =~= old(
                    self,
                )@.operand_stack.update(old(self)@.operand_stack.len() - 1 - offset, value@));
            }
            true
        } else {
            false
        }
    }

    /// Clears the instruction storage and resets the program counter: for
    /// reusing a frame across independent programs, never during a run.
    pub fn clear_instructions(&mut self)
        ensures
            final(self)@ =~= (FrameView {
                instructions: Seq::<Instruction>::empty(),
                pc: 0,
                ..old(self)@
            }),
    {
        self.pc = 0;
        self.instructions.clear();
    }
}

} // verus!
