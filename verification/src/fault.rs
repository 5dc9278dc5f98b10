//! Faults: the fatal violations that stop execution.

use vstd::prelude::*;
use crate::instruction::Instruction;

verus! {

/// What a single stack slot holds, as far as a shape check is concerned.
#[derive(Debug, Clone, Copy, PartialEq, Eq)]
pub enum EntryKind {
    /// A data value.
    Value,
    /// The marker of a function activation.
    Frame,
    /// Nothing: the stack ends above this slot.
    Nothing,
}

/// The invariant that was violated when execution stopped.
#[derive(Debug, Clone, Copy, PartialEq, Eq)]
pub enum FaultKind {
    /// The stack did not have the shape that the step needs. Slots are
    /// examined from the top down; `expected` and `found` describe the first
    /// slot that differs.
    StackShape { expected: EntryKind, found: EntryKind },
    /// A memory access at `address` does not lie within the `length` bytes of
    /// linear memory.
    Bounds { address: i32, length: usize },
    /// A limit would be exceeded. Linear memory cannot have the size asked
    /// for, because the page count is negative or the length in bytes would
    /// not fit in a 32-bit signed integer; or a call would nest deeper than
    /// is allowed.
    Overflow,
    /// `index` does not name one of the `length` entries of the table it
    /// refers to (the locals of the frame, or the functions of the module).
    Index { index: usize, length: usize },
}

/// A fatal violation of an execution precondition: the instruction that
/// could not be carried out, and why. Nothing is retried after a fault and
/// nothing is rolled back.
#[derive(Debug, Clone, Copy, PartialEq, Eq)]
pub struct Fault {
    pub instruction: Instruction,
    pub kind: FaultKind,
}

} // verus!
