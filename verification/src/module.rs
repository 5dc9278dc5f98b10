//! Modules, their functions, the stack the functions share, and the running
//! of a function.

use vstd::prelude::*;
use std::sync::Arc;
use crate::fault::Fault;
use crate::frames::{lemma_call_balanced, lemma_values_on_top};
use crate::instruction::Instruction;
use crate::memory::LinearMemory;
use crate::semantics::{step, Machine, Outcome};
use crate::value::{TypeDeclaration, ValueType};

verus! {

/// One function of a module. A declaration is never changed once it is
/// built; every activation of the function refers to the same declaration.
#[derive(Debug, PartialEq, Eq)]
pub struct FunctionDeclaration {
    /// The types of the parameters, which become the first locals.
    pub parameters: Vec<TypeDeclaration>,
    /// The types of the locals that follow the parameters.
    pub locals: Vec<TypeDeclaration>,
    /// The type of the returned value, if the function returns one.
    pub return_value: Option<TypeDeclaration>,
    /// The body, executed from first to last.
    pub instructions: Vec<Instruction>,
    /// A name for people to read; execution never looks at it.
    pub label: Option<String>,
}

/// The marker that a call leaves on the stack for as long as it runs.
#[derive(Debug, PartialEq, Eq)]
pub struct FunctionFrame {
    /// The function that is running, shared with the module.
    pub declaration: Arc<FunctionDeclaration>,
}

/// One slot of the stack. Activation markers and data share a single stack,
/// so that a callee cannot reach below its own marker.
#[derive(Debug, PartialEq, Eq)]
pub enum StackEntry {
    /// The marker of a call that is running.
    Function(FunctionFrame),
    /// A value that an instruction pushed.
    Value(ValueType),
}

/// The shared stack. The last entry is the top.
pub type Stack = Vec<StackEntry>;

/// The functions of a module. A function's position is its call target.
#[derive(Debug, PartialEq, Eq)]
pub struct ModuleDeclaration {
    /// The functions, each shared with the activations that run it.
    pub functions: Vec<Arc<FunctionDeclaration>>,
}

/// In contracts a module stands for the sequence of its functions.
impl View for ModuleDeclaration {
    type V = Seq<Arc<FunctionDeclaration>>;

    open spec fn view(&self) -> Seq<Arc<FunctionDeclaration>> {
        self.functions@
    }
}

/// The state of a module at run time: its linear memory, together with the
/// declarations it executes. The memory lives as long as the instance and is
/// not reset between runs.
#[derive(Debug)]
pub struct ModuleInstance {
    /// The linear memory, which instructions read, write and grow.
    pub memory: LinearMemory,
    /// The module that this instance runs. Execution never changes it.
    pub declaration: Arc<ModuleDeclaration>,
}

/// How deep calls may nest in a run. A call that would nest deeper faults
/// with [`crate::fault::FaultKind::Overflow`].
pub const CALL_DEPTH_LIMIT: usize = 1024;

/// What a run of function `index` of `program` on `memory` comes to: a call
/// of that function on an empty stack, with no locals.
pub open spec fn run_outcome(
    program: Seq<Arc<FunctionDeclaration>>,
    memory: Seq<u8>,
    index: usize,
) -> Outcome {
    step(
        program,
        CALL_DEPTH_LIMIT as nat,
        Instruction::Call(index),
        Machine { stack: Seq::empty(), memory, locals: Seq::empty() },
    )
}

/// What a run that came to `outcome` hands back: the fault, if there is
/// one, and otherwise the value that the call left on the stack, if it left
/// one.
pub open spec fn run_result(outcome: Outcome) -> Result<Option<ValueType>, Fault> {
    match outcome.fault {
        Some(fault) => Err(fault),
        None => Ok(
            if outcome.machine.stack.len() > 0 {
                Some(outcome.machine.stack.last()->Value_0)
            } else {
                None
            },
        ),
    }
}

/// A run that ends without a fault leaves on the stack what the function
/// declares to return and nothing else: one value, or nothing at all.
pub proof fn lemma_run_leaves_what_is_returned(
    program: Seq<Arc<FunctionDeclaration>>,
    memory: Seq<u8>,
    index: usize,
)
    requires
        run_outcome(program, memory, index).fault is None,
    ensures
        index < program.len(),
        program[index as int].parameters@.len() == 0,
        program[index as int].return_value is Some ==> {
            &&& run_outcome(program, memory, index).machine.stack.len() == 1
            &&& run_outcome(program, memory, index).machine.stack[0] is Value
            &&& run_result(run_outcome(program, memory, index)) is Ok
            &&& run_result(run_outcome(program, memory, index))->Ok_0 is Some
        },
        program[index as int].return_value is None ==> {
            &&& run_outcome(program, memory, index).machine.stack.len() == 0
            &&& run_result(run_outcome(program, memory, index)) == Ok::<Option<ValueType>, Fault>(
                None,
            )
        },
{
    let start = Machine { stack: Seq::empty(), memory, locals: Seq::empty() };
    lemma_values_on_top(start.stack, program[index as int].parameters@.len());
    lemma_call_balanced(program, CALL_DEPTH_LIMIT as nat, index, start);
}

impl ModuleInstance {
    /// Runs function `index` of the module on the memory of this instance
    /// and returns what the function returns.
    ///
    /// The run is a call of the function on an empty stack, with nested
    /// calls allowed down to [`CALL_DEPTH_LIMIT`]. If the call faults, the
    /// fault is the result. Otherwise the result is the value that the call
    /// left on the stack, or `None` if the function returns nothing. Either
    /// way the memory stays as the call left it.
    pub fn run(&mut self, index: usize) -> (result: Result<Option<ValueType>, Fault>)
        ensures
            final(self).declaration == old(self).declaration,
            final(self).memory@ == run_outcome(
                old(self).declaration@,
                old(self).memory@,
                index,
            ).machine.memory,
            result == run_result(run_outcome(old(self).declaration@, old(self).memory@, index)),
    {
        let mut stack: Stack = Vec::new();
        let mut locals: Vec<ValueType> = Vec::new();
        let ghost program = self.declaration@;
        let ghost memory = self.memory@;
        match Instruction::Call(index).execute(
            &mut stack,
            self,
            locals.as_mut_slice(),
            CALL_DEPTH_LIMIT,
        ) {
            Err(fault) => {
                return Err(fault);
            },
            Ok(()) => {},
        }
        proof {
            lemma_run_leaves_what_is_returned(program, memory, index);
        }
        match stack.pop() {
            Some(StackEntry::Value(value)) => Ok(Some(value)),
            Some(StackEntry::Function(_)) => unreached(),
            None => Ok(None),
        }
    }
}

} // verus!
