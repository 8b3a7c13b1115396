//! The dispatch state machine: while the program counter is short of the
//! instruction count, fetch the instruction at the counter, execute its
//! semantics against the frame's containers under the bound constraints, and
//! advance the counter by one. `step` and `run` below are the mathematical
//! meaning of one dispatch and of a whole execution; `execute_frame` is proved
//! against them.

use vstd::prelude::*;

use crate::alu::{alu_exec, alu_result};
use crate::big_endian::{
    be_bytes, be_write, lemma_be_bytes_len, lemma_be_val_bound, lemma_pow256_values, pow256,
};
use crate::constraints::Constraints;
use crate::error::VmError;
use crate::frame::{
    lemma_objs_bytes_bounded, lemma_objs_bytes_drop_last, lemma_objs_bytes_snoc,
    lemma_objs_bytes_take_step, lemma_objs_bytes_update, objs_bytes, objs_wf, Frame, FrameView,
};
use crate::h_type::{get_size, width, HType};
use crate::instruction::Instruction;
use crate::opcode::{decode_op, op_of, AluOp, Op};
use crate::types::{zero_obj, ObjView, VirtualObject};

verus! {

/// Whether adding `add` bytes keeps the memory limit; a zero limit is off.
pub open spec fn check_mem(c: Constraints, f: FrameView, add: nat) -> bool {
    c.max_memory == 0 || f.mem_bytes() + add <= c.max_memory
}

/// Whether one more stack allocation keeps the allocation limit; a zero limit
/// is off.
pub open spec fn check_alloc(c: Constraints, allocs: nat) -> bool {
    c.max_stack_allocation == 0 || allocs < c.max_stack_allocation
}

/// The value a LOAD of tag `t` writes: the immediate argument narrowed to the
/// width of the tag; a boolean is the truth of the argument.
pub open spec fn load_val(t: HType, arg1: u64) -> nat {
    match t {
        HType::Bool => if arg1 != 0 {
            1nat
        } else {
            0nat
        },
        _ => (arg1 as nat) % pow256(width(t)),
    }
}

/// The object a LOAD of tag `t` leaves at the top of the stack.
pub open spec fn loaded_obj(t: HType, arg1: u64) -> ObjView {
    ObjView { data: be_bytes(load_val(t, arg1), width(t)), data_type: t }
}

/// A one-byte boolean object holding 1 for true and 0 for false.
pub open spec fn bool_obj(b: bool) -> ObjView {
    ObjView {
        data: be_bytes(if b { 1nat } else { 0nat }, 1),
        data_type: HType::Bool,
    }
}

/// The truth of a boolean object: any nonzero byte is true.
pub open spec fn truthy(o: ObjView) -> bool
    recommends
        o.data.len() >= 1,
{
    o.data[0] != 0
}

/// The object an arithmetic opcode pushes onto the operand stack.
pub open spec fn alu_obj(op: AluOp, t: HType, v1: nat, v2: nat) -> ObjView {
    ObjView { data: be_bytes(alu_result(op, width(t), v1, v2), width(t)), data_type: t }
}

/// One NEW dispatch: consult both limits, then push a fresh zero value.
pub open spec fn step_new(c: Constraints, f: FrameView, allocs: nat, t: HType) -> Result<
    (FrameView, nat),
    VmError,
> {
    if !check_alloc(c, allocs) {
        Err(VmError::ResourceExceeded)
    } else if !check_mem(c, f, width(t)) {
        Err(VmError::ResourceExceeded)
    } else {
        Ok((FrameView { stack: f.stack.push(zero_obj(t)), ..f }, allocs + 1))
    }
}

/// One LOAD dispatch: the stack top must exist and carry the expected tag;
/// it is then overwritten in place with the narrowed immediate.
pub open spec fn step_load(f: FrameView, t: HType, arg1: u64) -> Result<FrameView, VmError> {
    if f.stack.len() == 0 {
        Err(VmError::StackUnderflow)
    } else if f.stack.last().data_type != t {
        Err(VmError::TypeMismatchError)
    } else {
        Ok(FrameView { stack: f.stack.update(f.stack.len() - 1, loaded_obj(t, arg1)), ..f })
    }
}

/// One STORE dispatch: a transfer, not a copy — the topmost operand-stack
/// value is removed there and pushed onto the stack.
pub open spec fn step_store(f: FrameView) -> Result<FrameView, VmError> {
    if f.operand_stack.len() == 0 {
        Err(VmError::StackUnderflow)
    } else {
        Ok(
            FrameView {
                stack: f.stack.push(f.operand_stack.last()),
                operand_stack: f.operand_stack.drop_last(),
                ..f
            },
        )
    }
}

/// One arithmetic dispatch: both of the two topmost stack values must carry
/// the operand tag; the result is pushed onto the operand stack, subject to
/// the memory limit. A zero divisor is a distinct error.
pub open spec fn step_alu(c: Constraints, f: FrameView, op: AluOp, t: HType) -> Result<
    FrameView,
    VmError,
> {
    if f.stack.len() < 2 {
        Err(VmError::StackUnderflow)
    } else {
        let o1 = f.stack[f.stack.len() - 1];
        let o2 = f.stack[f.stack.len() - 2];
        if o1.data_type != t || o2.data_type != t {
            Err(VmError::TypeMismatchError)
        } else if op == AluOp::Div && o2.val() == 0 {
            Err(VmError::DivisionByZero)
        } else if !check_mem(c, f, width(t)) {
            Err(VmError::ResourceExceeded)
        } else {
            Ok(
                FrameView {
                    operand_stack: f.operand_stack.push(alu_obj(op, t, o1.val(), o2.val())),
                    ..f
                },
            )
        }
    }
}

/// One EQUAL dispatch: the two topmost stack values must carry one tag; the
/// structural comparison of their bytes is pushed as a boolean.
pub open spec fn step_equal(c: Constraints, f: FrameView) -> Result<FrameView, VmError> {
    if f.stack.len() < 2 {
        Err(VmError::StackUnderflow)
    } else {
        let o1 = f.stack[f.stack.len() - 1];
        let o2 = f.stack[f.stack.len() - 2];
        if o1.data_type != o2.data_type {
            Err(VmError::TypeMismatchError)
        } else if !check_mem(c, f, 1) {
            Err(VmError::ResourceExceeded)
        } else {
            Ok(FrameView { operand_stack: f.operand_stack.push(bool_obj(o1.data == o2.data)), ..f })
        }
    }
}

/// One NOT dispatch: the stack top must be a boolean; its negation is pushed.
pub open spec fn step_not(c: Constraints, f: FrameView) -> Result<FrameView, VmError> {
    if f.stack.len() == 0 {
        Err(VmError::StackUnderflow)
    } else {
        let o1 = f.stack[f.stack.len() - 1];
        if o1.data_type != HType::Bool {
            Err(VmError::TypeMismatchError)
        } else if !check_mem(c, f, 1) {
            Err(VmError::ResourceExceeded)
        } else {
            Ok(FrameView { operand_stack: f.operand_stack.push(bool_obj(!truthy(o1))), ..f })
        }
    }
}

/// One AND or OR dispatch: the two topmost stack values must be booleans;
/// their conjunction or disjunction is pushed.
pub open spec fn step_junction(c: Constraints, f: FrameView, is_and: bool) -> Result<
    FrameView,
    VmError,
> {
    if f.stack.len() < 2 {
        Err(VmError::StackUnderflow)
    } else {
        let o1 = f.stack[f.stack.len() - 1];
        let o2 = f.stack[f.stack.len() - 2];
        if o1.data_type != HType::Bool || o2.data_type != HType::Bool {
            Err(VmError::TypeMismatchError)
        } else if !check_mem(c, f, 1) {
            Err(VmError::ResourceExceeded)
        } else {
            let b = if is_and {
                truthy(o1) && truthy(o2)
            } else {
                truthy(o1) || truthy(o2)
            };
            Ok(FrameView { operand_stack: f.operand_stack.push(bool_obj(b)), ..f })
        }
    }
}

/// Lifts a family step that does not allocate on the stack to the common
/// result shape.
pub open spec fn lift(r: Result<FrameView, VmError>, allocs: nat) -> Result<
    (FrameView, nat),
    VmError,
> {
    match r {
        Ok(f) => Ok((f, allocs)),
        Err(e) => Err(e),
    }
}

/// One dispatch of a decoded operation. The returned view keeps the program
/// counter and the instructions of `f`; `run` advances the counter.
pub open spec fn step_op(c: Constraints, f: FrameView, allocs: nat, op: Op, arg1: u64) -> Result<
    (FrameView, nat),
    VmError,
> {
    match op {
        Op::Nop => Ok((f, allocs)),
        Op::New(t) => step_new(c, f, allocs, t),
        Op::Load(t) => lift(step_load(f, t, arg1), allocs),
        Op::Store => lift(step_store(f), allocs),
        Op::Alu(aop, t) => lift(step_alu(c, f, aop, t), allocs),
        Op::Equal => lift(step_equal(c, f), allocs),
        Op::Not => lift(step_not(c, f), allocs),
        Op::And => lift(step_junction(c, f, true), allocs),
        Op::Or => lift(step_junction(c, f, false), allocs),
    }
}

/// One dispatch of the instruction at the program counter. A code outside
/// the catalogue is a distinct failure, never a silent no-op.
pub open spec fn step(c: Constraints, f: FrameView, allocs: nat) -> Result<
    (FrameView, nat),
    VmError,
> {
    let i = f.instructions[f.pc as int];
    match op_of(i.opcode) {
        None => Err(VmError::UnknownOpcode),
        Some(op) => step_op(c, f, allocs, op, i.arg1),
    }
}

/// A whole execution from a frame state: steps until the counter reaches the
/// instruction count, or until a step fails; the result is the final frame
/// state and the verdict. A failing step leaves the frame as it stood before
/// that instruction.
pub open spec fn run(c: Constraints, f: FrameView, allocs: nat) -> (FrameView, Result<
    (),
    VmError,
>)
    decreases f.instructions.len() - f.pc,
{
    if f.pc >= f.instructions.len() {
        (f, Ok(()))
    } else {
        match step(c, f, allocs) {
            Ok(p) => run(
                c,
                FrameView { pc: f.pc + 1, instructions: f.instructions, ..p.0 },
                p.1,
            ),
            Err(e) => (f, Err(e)),
        }
    }
}

/// Establishes that a well-formed frame holds comfortably fewer bytes than a
/// memory counter can carry.
fn note_mem_bound(frame: &Frame) -> (r: ())
    requires
        frame@.wf(),
    ensures
        frame@.mem_bytes() <= 0x20_0000_0000_0000_0000,
{
    let n_cp = frame.constant_pool.len();
    let n_lo = frame.local.len();
    let n_st = frame.stack.len();
    let n_op = frame.operand_stack.len();
    proof {
        lemma_objs_bytes_bounded(frame@.constant_pool);
        lemma_objs_bytes_bounded(frame@.local);
        lemma_objs_bytes_bounded(frame@.stack);
        lemma_objs_bytes_bounded(frame@.operand_stack);
    }
}

/// Sums the bytes held by the values of one container.
fn container_bytes(v: &Vec<VirtualObject>) -> (r: u128)
    requires
        objs_wf(v@.map_values(|o: VirtualObject| o@)),
    ensures
        r == objs_bytes(v@.map_values(|o: VirtualObject| o@)),
        r <= 8 * (v@.len() as u128),
{
    let ghost s = v@.map_values(|o: VirtualObject| o@);
    let n = v.len();
    let mut acc: u128 = 0;
    let mut i: usize = 0;
    proof {
        assert(s.take(0) =~= Seq::empty());
    }
    while i < n
        invariant
            i <= n == v@.len(),
            s == v@.map_values(|o: VirtualObject| o@),
            objs_wf(s),
            acc == objs_bytes(s.take(i as int)),
            acc <= 8 * (i as u128),
        decreases n - i,
    {
        let l = v[i].data.len();
        proof {
            lemma_objs_bytes_take_step(s, i as int);
            assert(s[i as int].wf());
            assert(l <= 8);
        }
        acc = acc + (l as u128);
        i = i + 1;
    }
    proof {
        assert(s.take(n as int) =~= s);
    }
    acc
}

/// The total bytes currently allocated across the four containers of a frame.
fn mem_used(frame: &Frame) -> (r: u128)
    requires
        frame@.wf(),
    ensures
        r == frame@.mem_bytes(),
{
    let n_cp = frame.constant_pool.len();
    let n_lo = frame.local.len();
    let n_st = frame.stack.len();
    let n_op = frame.operand_stack.len();
    let a = container_bytes(&frame.constant_pool);
    let b = container_bytes(&frame.local);
    let c = container_bytes(&frame.stack);
    let d = container_bytes(&frame.operand_stack);
    proof {
        assert(a <= 8 * (n_cp as u128));
        assert(b <= 8 * (n_lo as u128));
        assert(c <= 8 * (n_st as u128));
        assert(d <= 8 * (n_op as u128));
    }
    a + b + c + d
}

/// Reads the numeric value of a well-formed object, whatever its width.
fn read_numeric(o: &VirtualObject) -> (r: u64)
    requires
        o@.wf(),
    ensures
        r == o@.val(),
        r < pow256(width(o@.data_type)),
{
    proof {
        lemma_be_val_bound(o.data@);
    }
    match o.data_type {
        HType::Bool => o.get_u8() as u64,
        HType::U8 => o.get_u8() as u64,
        HType::U16 => o.get_u16() as u64,
        HType::U32 => o.get_u32() as u64,
        HType::U64 => o.get_u64(),
    }
}

/// Builds a well-formed object of tag `t` holding the value `v`.
fn make_obj(t: HType, v: u64) -> (r: VirtualObject)
    requires
        v < pow256(width(t)),
    ensures
        r@ =~= (ObjView { data: be_bytes(v as nat, width(t)), data_type: t }),
        r@.wf(),
        r@.data.len() == width(t),
{
    proof {
        lemma_be_bytes_len(v as nat, width(t));
    }
    let w = get_size(t);
    let data = be_write(v, w);
    VirtualObject::new(data, t)
}

/// Narrows a LOAD immediate to the width of the tag.
fn load_trunc(t: HType, arg1: u64) -> (r: u64)
    ensures
        r == load_val(t, arg1),
        r < pow256(width(t)),
{
    proof {
        lemma_pow256_values();
        if t is U64 {
            vstd::arithmetic::div_mod::lemma_small_mod(arg1 as nat, pow256(8));
        }
    }
    match t {
        HType::Bool => if arg1 != 0 {
            1
        } else {
            0
        },
        HType::U8 => arg1 % 0x100,
        HType::U16 => arg1 % 0x10000,
        HType::U32 => arg1 % 0x1_0000_0000,
        HType::U64 => arg1,
    }
}

/// The interpreter: a dispatch loop bound to one read-only constraint set.
pub struct Interpreter {
    pub constraints: Constraints,
}

impl Interpreter {
    pub fn new(constraints: Constraints) -> (r: Interpreter)
        ensures
            r.constraints == constraints,
    {
        Interpreter { constraints }
    }

    /// Executes the frame from its current counter until it halts at the end
    /// of the instruction sequence, or until an instruction fails. The final
    /// frame state and the verdict are exactly `run` of the initial state;
    /// in particular, on success the counter equals the instruction count.
    pub fn execute_frame(&self, frame: &mut Frame) -> (r: Result<(), VmError>)
        requires
            old(frame)@.wf(),
        ensures
            final(frame)@.wf(),
            run(self.constraints, old(frame)@, 0).0 == final(frame)@,
            run(self.constraints, old(frame)@, 0).1 == (match r {
                Ok(_) => Ok::<(), VmError>(()),
                Err(e) => Err::<(), VmError>(e),
            }),
            r is Ok ==> final(frame)@.pc == final(frame)@.instructions.len(),
    {
        let ghost c = self.constraints;
        let ghost f0 = frame@;
        let mut allocs: u64 = 0;
        let mut mem: u128 = mem_used(frame);
        #[verifier::loop_isolation(false)]
        while frame.pc < frame.instructions.len() as u64
            invariant
                self.constraints == c,
                frame@.wf(),
                allocs as nat <= frame@.pc,
                mem == frame@.mem_bytes(),
                run(c, frame@, allocs as nat) == run(c, f0, 0),
            decreases frame@.instructions.len() - frame@.pc,
        {
            let ghost pre = frame@;
            let ghost a0 = allocs as nat;
            let pcu = frame.pc as usize;
            let inst = frame.instructions[pcu];
            match self.dispatch(frame, inst, allocs, mem) {
                Ok(am) => {
                    allocs = am.0;
                    mem = am.1;
                    frame.pc = frame.pc + 1;
                    proof {
                        assert(frame@ =~= (FrameView {
                            pc: pre.pc + 1,
                            instructions: pre.instructions,
                            ..run_step_view(c, pre, a0)
                        }));
                        assert(run(c, pre, a0) == run(c, frame@, allocs as nat));
                    }
                },
                Err(e) => {
                    proof {
                        assert(run(c, pre, a0) == (pre, Err::<(), VmError>(e)));
                    }
                    return Err(e);
                },
            }
        }
        Ok(())
    }

    /// Dispatches one instruction against the frame; the program counter is
    /// advanced by the caller.
    fn dispatch(&self, frame: &mut Frame, inst: Instruction, allocs: u64, mem: u128) -> (r: Result<
        (u64, u128),
        VmError,
    >)
        requires
            old(frame)@.wf(),
            old(frame)@.pc < old(frame)@.instructions.len(),
            inst == old(frame)@.instructions[old(frame)@.pc as int],
            mem == old(frame)@.mem_bytes(),
            allocs < 0xffff_ffff_ffff_ffff,
        ensures
            r matches Ok(am) ==> {
                &&& step(self.constraints, old(frame)@, allocs as nat) == Ok::<
                    (FrameView, nat),
                    VmError,
                >((final(frame)@, am.0 as nat))
                &&& am.1 == final(frame)@.mem_bytes()
                &&& final(frame)@.wf()
                &&& am.0 <= allocs + 1
                &&& final(frame)@.pc == old(frame)@.pc
                &&& final(frame)@.instructions == old(frame)@.instructions
            },
            r matches Err(e) ==> step(self.constraints, old(frame)@, allocs as nat) == Err::<
                (FrameView, nat),
                VmError,
            >(e) && final(frame)@ == old(frame)@,
    {
        match decode_op(inst.opcode) {
            None => Err(VmError::UnknownOpcode),
            Some(op) => match op {
                Op::Nop => Ok((allocs, mem)),
                Op::New(t) => self.exec_new(frame, t, allocs, mem),
                Op::Load(t) => match Self::exec_load(frame, t, inst.arg1) {
                    Ok(_) => Ok((allocs, mem)),
                    Err(e) => Err(e),
                },
                Op::Store => match Self::exec_store(frame) {
                    Ok(_) => Ok((allocs, mem)),
                    Err(e) => Err(e),
                },
                Op::Alu(aop, t) => match self.exec_alu(frame, aop, t, mem) {
                    Ok(m2) => Ok((allocs, m2)),
                    Err(e) => Err(e),
                },
                Op::Equal => match self.exec_equal(frame, mem) {
                    Ok(m2) => Ok((allocs, m2)),
                    Err(e) => Err(e),
                },
                Op::Not => match self.exec_not(frame, mem) {
                    Ok(m2) => Ok((allocs, m2)),
                    Err(e) => Err(e),
                },
                Op::And => match self.exec_junction(frame, true, mem) {
                    Ok(m2) => Ok((allocs, m2)),
                    Err(e) => Err(e),
                },
                Op::Or => match self.exec_junction(frame, false, mem) {
                    Ok(m2) => Ok((allocs, m2)),
                    Err(e) => Err(e),
                },
            },
        }
    }

    /// NEW: consult both limits, then allocate a zero value in the stack.
    fn exec_new(&self, frame: &mut Frame, t: HType, allocs: u64, mem: u128) -> (r: Result<
        (u64, u128),
        VmError,
    >)
        requires
            old(frame)@.wf(),
            mem == old(frame)@.mem_bytes(),
            allocs < 0xffff_ffff_ffff_ffff,
        ensures
            r matches Ok(am) ==> {
                &&& step_new(self.constraints, old(frame)@, allocs as nat, t) == Ok::<
                    (FrameView, nat),
                    VmError,
                >((final(frame)@, am.0 as nat))
                &&& am.1 == final(frame)@.mem_bytes()
                &&& final(frame)@.wf()
                &&& am.0 <= allocs + 1
                &&& final(frame)@.pc == old(frame)@.pc
                &&& final(frame)@.instructions == old(frame)@.instructions
            },
            r matches Err(e) ==> step_new(self.constraints, old(frame)@, allocs as nat, t)
                == Err::<(FrameView, nat), VmError>(e) && final(frame)@ == old(frame)@,
    {
        note_mem_bound(frame);
        let w = get_size(t);
        let amax = self.constraints.max_stack_allocation;
        if amax != 0 && allocs >= amax {
            return Err(VmError::ResourceExceeded);
        }
        let mmax = self.constraints.max_memory;
        if mmax != 0 && mem + (w as u128) > (mmax as u128) {
            return Err(VmError::ResourceExceeded);
        }
        let ghost pre = frame@;
        frame.allocate_in_stack(t);
        proof {
            lemma_objs_bytes_snoc(pre.stack, zero_obj(t));
            assert(objs_wf(frame@.stack)) by {
                assert(forall|i: int|
                    0 <= i < pre.stack.len() ==> frame@.stack[i] == pre.stack[i]);
                assert(frame@.stack.last() == zero_obj(t));
            }
            assert(step_new(self.constraints, pre, allocs as nat, t) == Ok::<
                (FrameView, nat),
                VmError,
            >((frame@, (allocs + 1) as nat)));
        }
        Ok((allocs + 1, mem + (w as u128)))
    }

    /// LOAD: overwrite the stack top, which must carry the expected tag, with
    /// the narrowed immediate.
    fn exec_load(frame: &mut Frame, t: HType, arg1: u64) -> (r: Result<(), VmError>)
        requires
            old(frame)@.wf(),
        ensures
            r matches Ok(_) ==> {
                &&& step_load(old(frame)@, t, arg1) == Ok::<FrameView, VmError>(final(frame)@)
                &&& final(frame)@.mem_bytes() == old(frame)@.mem_bytes()
                &&& final(frame)@.wf()
                &&& final(frame)@.pc == old(frame)@.pc
                &&& final(frame)@.instructions == old(frame)@.instructions
            },
            r matches Err(e) ==> step_load(old(frame)@, t, arg1) == Err::<FrameView, VmError>(e)
                && final(frame)@ == old(frame)@,
    {
        let ghost pre = frame@;
        let top_tag = match frame.get_front_in_stack(0) {
            Some(o) => o.data_type,
            None => {
                return Err(VmError::StackUnderflow);
            },
        };
        if top_tag != t {
            return Err(VmError::TypeMismatchError);
        }
        let v = load_trunc(t, arg1);
        let obj = make_obj(t, v);
        let ghost idx = pre.stack.len() - 1;
        let wrote = frame.set_front_in_stack(0, obj);
        proof {
            assert(wrote);
            assert(frame@.stack =~= pre.stack.update(idx, loaded_obj(t, arg1)));
            assert(frame@ =~= (FrameView { stack: pre.stack.update(idx, loaded_obj(t, arg1)), ..pre }));
            assert(objs_wf(frame@.stack)) by {
                assert(forall|i: int|
                    0 <= i < pre.stack.len() && i != idx ==> frame@.stack[i] == pre.stack[i]);
                assert(frame@.stack[idx].wf());
            }
            assert(pre.stack[idx].wf());
            assert(pre.stack[idx].data.len() == width(t));
            lemma_objs_bytes_update(pre.stack, idx, loaded_obj(t, arg1));
            lemma_be_bytes_len(load_val(t, arg1), width(t));
        }
        Ok(())
    }

    /// STORE: transfer the topmost operand-stack value onto the stack.
    fn exec_store(frame: &mut Frame) -> (r: Result<(), VmError>)
        requires
            old(frame)@.wf(),
        ensures
            r matches Ok(_) ==> {
                &&& step_store(old(frame)@) == Ok::<FrameView, VmError>(final(frame)@)
                &&& final(frame)@.mem_bytes() == old(frame)@.mem_bytes()
                &&& final(frame)@.wf()
                &&& final(frame)@.pc == old(frame)@.pc
                &&& final(frame)@.instructions == old(frame)@.instructions
            },
            r matches Err(e) ==> step_store(old(frame)@) == Err::<FrameView, VmError>(e)
                && final(frame)@ == old(frame)@,
    {
        let ghost pre = frame@;
        let operand = match frame.operand_stack.pop() {
            Some(o) => o,
            None => {
                proof {
                    assert(frame@ =~= pre);
                }
                return Err(VmError::StackUnderflow);
            },
        };
        proof {
            assert(operand@ == pre.operand_stack.last());
            assert(frame.operand_stack@.map_values(|o: VirtualObject| o@)
                =~= pre.operand_stack.drop_last());
        }
        let ghost mid = frame@;
        frame.stack.push(operand);
        proof {
            assert(frame@.stack =~= pre.stack.push(pre.operand_stack.last()));
            assert(frame@ =~= (FrameView {
                stack: pre.stack.push(pre.operand_stack.last()),
                operand_stack: pre.operand_stack.drop_last(),
                ..pre
            }));
            lemma_objs_bytes_drop_last(pre.operand_stack);
            lemma_objs_bytes_snoc(pre.stack, pre.operand_stack.last());
            assert(objs_wf(frame@.stack)) by {
                assert(forall|i: int|
                    0 <= i < pre.stack.len() ==> frame@.stack[i] == pre.stack[i]);
                assert(pre.operand_stack.last().wf());
            }
            assert(objs_wf(frame@.operand_stack)) by {
                assert(forall|i: int|
                    0 <= i < frame@.operand_stack.len() ==> frame@.operand_stack[i]
                        == pre.operand_stack[i]);
            }
        }
        Ok(())
    }

    /// Arithmetic: combine the two topmost stack values of the operand tag
    /// and push the result onto the operand stack.
    fn exec_alu(&self, frame: &mut Frame, op: AluOp, t: HType, mem: u128) -> (r: Result<
        u128,
        VmError,
    >)
        requires
            old(frame)@.wf(),
            mem == old(frame)@.mem_bytes(),
        ensures
            r matches Ok(m2) ==> {
                &&& step_alu(self.constraints, old(frame)@, op, t) == Ok::<FrameView, VmError>(
                    final(frame)@,
                )
                &&& m2 == final(frame)@.mem_bytes()
                &&& final(frame)@.wf()
                &&& final(frame)@.pc == old(frame)@.pc
                &&& final(frame)@.instructions == old(frame)@.instructions
            },
            r matches Err(e) ==> step_alu(self.constraints, old(frame)@, op, t) == Err::<
                FrameView,
                VmError,
            >(e) && final(frame)@ == old(frame)@,
    {
        note_mem_bound(frame);
        let ghost pre = frame@;
        if frame.stack.len() < 2 {
            return Err(VmError::StackUnderflow);
        }
        let (v1, v2) = {
            let o1 = match frame.get_front_in_stack(0) {
                Some(o) => o,
                None => {
                    return Err(VmError::StackUnderflow);
                },
            };
            if o1.data_type != t {
                return Err(VmError::TypeMismatchError);
            }
            let v1 = read_numeric(o1);
            let o2 = match frame.get_front_in_stack(1) {
                Some(o) => o,
                None => {
                    return Err(VmError::StackUnderflow);
                },
            };
            if o2.data_type != t {
                return Err(VmError::TypeMismatchError);
            }
            let v2 = read_numeric(o2);
            (v1, v2)
        };
        if matches!(op, AluOp::Div) && v2 == 0 {
            return Err(VmError::DivisionByZero);
        }
        let w = get_size(t);
        let mmax = self.constraints.max_memory;
        if mmax != 0 && mem + (w as u128) > (mmax as u128) {
            return Err(VmError::ResourceExceeded);
        }
        let res = alu_exec(op, t, v1, v2);
        let obj = make_obj(t, res);
        frame.operand_stack.push(obj);
        proof {
            assert(frame@.operand_stack =~= pre.operand_stack.push(
                alu_obj(op, t, pre.stack[pre.stack.len() - 1].val(), pre.stack[pre.stack.len()
                    - 2].val()),
            ));
            assert(frame@ =~= (FrameView {
                operand_stack: frame@.operand_stack,
                ..pre
            }));
            lemma_objs_bytes_snoc(pre.operand_stack, obj@);
            lemma_be_bytes_len(
                alu_result(op, width(t), pre.stack[pre.stack.len() - 1].val(), pre.stack[
                    pre.stack.len() - 2].val()),
                width(t),
            );
            assert(objs_wf(frame@.operand_stack)) by {
                assert(forall|i: int|
                    0 <= i < pre.operand_stack.len() ==> frame@.operand_stack[i]
                        == pre.operand_stack[i]);
                assert(frame@.operand_stack.last().wf());
            }
        }
        Ok(mem + (w as u128))
    }

    /// EQUAL: push whether the two topmost stack values, which must share a
    /// tag, hold identical bytes.
    fn exec_equal(&self, frame: &mut Frame, mem: u128) -> (r: Result<u128, VmError>)
        requires
            old(frame)@.wf(),
            mem == old(frame)@.mem_bytes(),
        ensures
            r matches Ok(m2) ==> {
                &&& step_equal(self.constraints, old(frame)@) == Ok::<FrameView, VmError>(
                    final(frame)@,
                )
                &&& m2 == final(frame)@.mem_bytes()
                &&& final(frame)@.wf()
                &&& final(frame)@.pc == old(frame)@.pc
                &&& final(frame)@.instructions == old(frame)@.instructions
            },
            r matches Err(e) ==> step_equal(self.constraints, old(frame)@) == Err::<
                FrameView,
                VmError,
            >(e) && final(frame)@ == old(frame)@,
    {
        note_mem_bound(frame);
        let ghost pre = frame@;
        if frame.stack.len() < 2 {
            return Err(VmError::StackUnderflow);
        }
        let b = {
            let o1 = match frame.get_front_in_stack(0) {
                Some(o) => o,
                None => {
                    return Err(VmError::StackUnderflow);
                },
            };
            let o2 = match frame.get_front_in_stack(1) {
                Some(o) => o,
                None => {
                    return Err(VmError::StackUnderflow);
                },
            };
            if o1.data_type != o2.data_type {
                return Err(VmError::TypeMismatchError);
            }
            let b = o1.data == o2.data;
            proof {
                broadcast use vstd::std_specs::vec::lemma_vec_obeys_eq_spec;
                if o1.data@ == o2.data@ {
                    assert(b);
                } else {
                    if b {
                        assert(o1.data@ =~= o2.data@);
                    }
                }
            }
            b
        };
        let mmax = self.constraints.max_memory;
        if mmax != 0 && mem + 1 > (mmax as u128) {
            return Err(VmError::ResourceExceeded);
        }
        self.push_bool_result(frame, b);
        proof {
            self.finish_bool_push(pre, frame@, b);
        }
        Ok(mem + 1)
    }

    /// NOT: push the negation of the topmost stack value, which must be a
    /// boolean.
    fn exec_not(&self, frame: &mut Frame, mem: u128) -> (r: Result<u128, VmError>)
        requires
            old(frame)@.wf(),
            mem == old(frame)@.mem_bytes(),
        ensures
            r matches Ok(m2) ==> {
                &&& step_not(self.constraints, old(frame)@) == Ok::<FrameView, VmError>(
                    final(frame)@,
                )
                &&& m2 == final(frame)@.mem_bytes()
                &&& final(frame)@.wf()
                &&& final(frame)@.pc == old(frame)@.pc
                &&& final(frame)@.instructions == old(frame)@.instructions
            },
            r matches Err(e) ==> step_not(self.constraints, old(frame)@) == Err::<
                FrameView,
                VmError,
            >(e) && final(frame)@ == old(frame)@,
    {
        note_mem_bound(frame);
        let ghost pre = frame@;
        let b = {
            let o1 = match frame.get_front_in_stack(0) {
                Some(o) => o,
                None => {
                    return Err(VmError::StackUnderflow);
                },
            };
            if o1.data_type != HType::Bool {
                return Err(VmError::TypeMismatchError);
            }
            !o1.get_bool()
        };
        let mmax = self.constraints.max_memory;
        if mmax != 0 && mem + 1 > (mmax as u128) {
            return Err(VmError::ResourceExceeded);
        }
        self.push_bool_result(frame, b);
        proof {
            self.finish_bool_push(pre, frame@, b);
        }
        Ok(mem + 1)
    }

    /// AND or OR: push the junction of the two topmost stack values, which
    /// must both be booleans.
    fn exec_junction(&self, frame: &mut Frame, is_and: bool, mem: u128) -> (r: Result<
        u128,
        VmError,
    >)
        requires
            old(frame)@.wf(),
            mem == old(frame)@.mem_bytes(),
        ensures
            r matches Ok(m2) ==> {
                &&& step_junction(self.constraints, old(frame)@, is_and) == Ok::<
                    FrameView,
                    VmError,
                >(final(frame)@)
                &&& m2 == final(frame)@.mem_bytes()
                &&& final(frame)@.wf()
                &&& final(frame)@.pc == old(frame)@.pc
                &&& final(frame)@.instructions == old(frame)@.instructions
            },
            r matches Err(e) ==> step_junction(self.constraints, old(frame)@, is_and) == Err::<
                FrameView,
                VmError,
            >(e) && final(frame)@ == old(frame)@,
    {
        note_mem_bound(frame);
        let ghost pre = frame@;
        if frame.stack.len() < 2 {
            return Err(VmError::StackUnderflow);
        }
        let b = {
            let o1 = match frame.get_front_in_stack(0) {
                Some(o) => o,
                None => {
                    return Err(VmError::StackUnderflow);
                },
            };
            if o1.data_type != HType::Bool {
                return Err(VmError::TypeMismatchError);
            }
            let b1 = o1.get_bool();
            let o2 = match frame.get_front_in_stack(1) {
                Some(o) => o,
                None => {
                    return Err(VmError::StackUnderflow);
                },
            };
            if o2.data_type != HType::Bool {
                return Err(VmError::TypeMismatchError);
            }
            let b2 = o2.get_bool();
            if is_and {
                b1 && b2
            } else {
                b1 || b2
            }
        };
        let mmax = self.constraints.max_memory;
        if mmax != 0 && mem + 1 > (mmax as u128) {
            return Err(VmError::ResourceExceeded);
        }
        self.push_bool_result(frame, b);
        proof {
            self.finish_bool_push(pre, frame@, b);
        }
        Ok(mem + 1)
    }

    /// Pushes a fresh boolean result onto the operand stack.
    fn push_bool_result(&self, frame: &mut Frame, b: bool)
        requires
            old(frame)@.wf(),
        ensures
            final(frame)@ =~= (FrameView {
                operand_stack: old(frame)@.operand_stack.push(bool_obj(b)),
                ..old(frame)@
            }),
            final(frame)@.wf(),
            final(frame)@.mem_bytes() == old(frame)@.mem_bytes() + 1,
    {
        proof {
            lemma_pow256_values();
        }
        let obj = make_obj(HType::Bool, if b { 1 } else { 0 });
        let ghost pre = frame@;
        frame.operand_stack.push(obj);
        proof {
            assert(frame@.operand_stack =~= pre.operand_stack.push(bool_obj(b)));
            assert(frame@ =~= (FrameView { operand_stack: frame@.operand_stack, ..pre }));
            lemma_objs_bytes_snoc(pre.operand_stack, bool_obj(b));
            lemma_be_bytes_len(if b { 1nat } else { 0nat }, 1);
            assert(objs_wf(frame@.operand_stack)) by {
                assert(forall|i: int|
                    0 <= i < pre.operand_stack.len() ==> frame@.operand_stack[i]
                        == pre.operand_stack[i]);
                assert(frame@.operand_stack.last().wf());
            }
        }
    }

    /// Closes a boolean push: the new view is the old view with the result
    /// appended to the operand stack.
    proof fn finish_bool_push(&self, pre: FrameView, post: FrameView, b: bool)
        requires
            post =~= (FrameView { operand_stack: pre.operand_stack.push(bool_obj(b)), ..pre }),
        ensures
            post == (FrameView { operand_stack: pre.operand_stack.push(bool_obj(b)), ..pre }),
    {
    }
}

/// The view after one successful step, before the counter advances: a helper
/// name for the loop proof of `execute_frame`.
pub open spec fn run_step_view(c: Constraints, f: FrameView, allocs: nat) -> FrameView {
    match step(c, f, allocs) {
        Ok(p) => p.0,
        Err(_) => f,
    }
}

} // verus!
