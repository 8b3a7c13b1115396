//! Declarative resource limits for one interpreter run. A limit of zero means
//! unbounded. A `Constraints` value is bound to an interpreter at construction
//! and never mutated afterwards.

use vstd::prelude::*;

verus! {

/// Upper bounds on total allocated memory and on the number of stack
/// allocations; each bound is off when zero.
#[derive(Clone, Copy, PartialEq, Eq, Structural, Debug)]
pub struct Constraints {
    /// Maximum total bytes allocated across all frame containers; 0 = unbounded.
    pub max_memory: u64,
    /// Maximum number of allocations possible in the stack; 0 = unbounded.
    pub max_stack_allocation: u64,
}

impl Constraints {
    pub fn new(max_memory: u64, max_stack_allocation: u64) -> (r: Constraints)
        ensures
            r.max_memory == max_memory,
            r.max_stack_allocation == max_stack_allocation,
    {
        Constraints { max_memory, max_stack_allocation }
    }

    /// The unconstrained limits: both bounds off.
    pub fn new_none() -> (r: Constraints)
        ensures
            r.max_memory == 0,
            r.max_stack_allocation == 0,
    {
        Constraints { max_memory: 0, max_stack_allocation: 0 }
    }
}

} // verus!
