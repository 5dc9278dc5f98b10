//! The meaning of the instructions, as mathematical functions on the state
//! of the machine. The executable interpreter is proved to compute exactly
//! these functions.

use vstd::prelude::*;
use std::sync::Arc;
use crate::fault::{EntryKind, Fault, FaultKind};
use crate::instruction::Instruction;
use crate::memory::{can_grow, grown, in_bounds, loaded, page_count, stored};
use crate::module::{FunctionDeclaration, FunctionFrame, StackEntry};
use crate::value::{TypeDeclaration, ValueType};

verus! {

/// What one activation can see and change: the shared stack, the linear
/// memory, and its own locals.
pub struct Machine {
    pub stack: Seq<StackEntry>,
    pub memory: Seq<u8>,
    pub locals: Seq<ValueType>,
}

/// How a step or a run ended: the state it left, and the fault that stopped
/// it, if one did.
pub struct Outcome {
    pub machine: Machine,
    pub fault: Option<Fault>,
}

/// The outcome of a step that went through.
pub open spec fn done(machine: Machine) -> Outcome {
    Outcome { machine, fault: None }
}

/// The outcome of a step that the given fault stopped.
pub open spec fn stopped(machine: Machine, instruction: Instruction, kind: FaultKind) -> Outcome {
    Outcome { machine, fault: Some(Fault { instruction, kind }) }
}

/// The fault kind for a slot that should have held `expected` and held
/// `found`.
pub open spec fn shape(expected: EntryKind, found: EntryKind) -> FaultKind {
    FaultKind::StackShape { expected, found }
}

/// Looks for `need` values on top of `stack`, from the top down. The result
/// is `None` when they are all there, and otherwise says what stands in the
/// first slot that holds no value.
pub open spec fn missing_value(stack: Seq<StackEntry>, need: nat) -> Option<EntryKind>
    decreases need,
{
    if need == 0 {
        None
    } else if stack.len() == 0 {
        Some(EntryKind::Nothing)
    } else if stack.last() is Function {
        Some(EntryKind::Frame)
    } else {
        missing_value(stack.drop_last(), (need - 1) as nat)
    }
}

/// The value `below` slots under the top of `stack`.
pub open spec fn operand(stack: Seq<StackEntry>, below: int) -> ValueType {
    stack[stack.len() - 1 - below]->Value_0
}

/// `stack` without its top `count` slots.
pub open spec fn popped(stack: Seq<StackEntry>, count: nat) -> Seq<StackEntry> {
    stack.take(stack.len() - count)
}

/// The values in the top `count` slots of `stack`, the deepest first.
pub open spec fn top_values(stack: Seq<StackEntry>, count: nat) -> Seq<ValueType> {
    Seq::new(count, |i: int| stack[stack.len() - count + i]->Value_0)
}

/// The 32-bit signed integer that `x` wraps around to in two's complement,
/// for an `x` that is the sum or the difference of two such integers.
pub open spec fn wrapped(x: int) -> i32 {
    if x > i32::MAX {
        (x - 0x1_0000_0000) as i32
    } else if x < i32::MIN {
        (x + 0x1_0000_0000) as i32
    } else {
        x as i32
    }
}

/// `left + right`, wrapping around on overflow.
pub open spec fn sum(left: ValueType, right: ValueType) -> ValueType {
    match (left, right) {
        (ValueType::I32(a), ValueType::I32(b)) => ValueType::I32(wrapped(a + b)),
    }
}

/// `left - right`, wrapping around on overflow.
pub open spec fn difference(left: ValueType, right: ValueType) -> ValueType {
    match (left, right) {
        (ValueType::I32(a), ValueType::I32(b)) => ValueType::I32(wrapped(a - b)),
    }
}

/// 1 if the two values are equal and 0 if they are not.
pub open spec fn equality(left: ValueType, right: ValueType) -> ValueType {
    match (left, right) {
        (ValueType::I32(a), ValueType::I32(b)) => ValueType::I32(
            if a == b {
                1i32
            } else {
                0i32
            },
        ),
    }
}

/// The integer that a value stands for where an address or a page count is
/// wanted.
pub open spec fn integer(value: ValueType) -> i32 {
    match value {
        ValueType::I32(v) => v,
    }
}

/// The step of an arithmetic instruction: the two operands on top of the
/// stack give way to `result`.
pub open spec fn binary(machine: Machine, instruction: Instruction, result: ValueType) -> Outcome {
    match missing_value(machine.stack, 2) {
        Some(found) => stopped(machine, instruction, shape(EntryKind::Value, found)),
        None => done(
            Machine {
                stack: popped(machine.stack, 2).push(StackEntry::Value(result)),
                memory: machine.memory,
                locals: machine.locals,
            },
        ),
    }
}

/// The step of every instruction but a call. A step that faults leaves the
/// machine as it found it.
pub open spec fn step_local(instruction: Instruction, machine: Machine) -> Outcome {
    let Machine { stack, memory, locals } = machine;
    match instruction {
        Instruction::Nop | Instruction::Call(_) => done(machine),
        Instruction::Const(value) => done(
            Machine { stack: stack.push(StackEntry::Value(value)), memory, locals },
        ),
        Instruction::Add(_) => binary(machine, instruction, sum(operand(stack, 1), operand(stack, 0))),
        Instruction::Sub(_) => binary(
            machine,
            instruction,
            difference(operand(stack, 1), operand(stack, 0)),
        ),
        Instruction::Eq(_) => binary(
            machine,
            instruction,
            equality(operand(stack, 1), operand(stack, 0)),
        ),
        Instruction::Drop => match missing_value(stack, 1) {
            Some(found) => stopped(machine, instruction, shape(EntryKind::Value, found)),
            None => done(Machine { stack: popped(stack, 1), memory, locals }),
        },
        Instruction::GetLocal(index) => if index < locals.len() {
            done(Machine { stack: stack.push(StackEntry::Value(locals[index as int])), memory, locals })
        } else {
            stopped(
                machine,
                instruction,
                FaultKind::Index { index, length: locals.len() as usize },
            )
        },
        Instruction::SetLocal(index) => match missing_value(stack, 1) {
            Some(found) => stopped(machine, instruction, shape(EntryKind::Value, found)),
            None => if index < locals.len() {
                done(
                    Machine {
                        stack: popped(stack, 1),
                        memory,
                        locals: locals.update(index as int, operand(stack, 0)),
                    },
                )
            } else {
                stopped(
                    machine,
                    instruction,
                    FaultKind::Index { index, length: locals.len() as usize },
                )
            },
        },
        Instruction::MemorySize => done(
            Machine {
                stack: stack.push(StackEntry::Value(ValueType::I32(page_count(memory) as i32))),
                memory,
                locals,
            },
        ),
        Instruction::MemoryGrow => match missing_value(stack, 1) {
            Some(found) => stopped(machine, instruction, shape(EntryKind::Value, found)),
            None => {
                let pages = integer(operand(stack, 0));
                if can_grow(memory, pages as int) {
                    done(
                        Machine {
                            stack: popped(stack, 1),
                            memory: grown(memory, pages as int),
                            locals,
                        },
                    )
                } else {
                    stopped(machine, instruction, FaultKind::Overflow)
                }
            },
        },
        Instruction::Load(t) => match missing_value(stack, 1) {
            Some(found) => stopped(machine, instruction, shape(EntryKind::Value, found)),
            None => {
                let address = integer(operand(stack, 0));
                if in_bounds(memory, t, address as int) {
                    done(
                        Machine {
                            stack: popped(stack, 1).push(
                                StackEntry::Value(loaded(memory, t, address as int)),
                            ),
                            memory,
                            locals,
                        },
                    )
                } else {
                    stopped(
                        machine,
                        instruction,
                        FaultKind::Bounds { address, length: memory.len() as usize },
                    )
                }
            },
        },
        Instruction::Store(t) => match missing_value(stack, 2) {
            Some(found) => stopped(machine, instruction, shape(EntryKind::Value, found)),
            None => {
                let address = integer(operand(stack, 1));
                if in_bounds(memory, t, address as int) {
                    done(
                        Machine {
                            stack: popped(stack, 2),
                            memory: stored(memory, address as int, operand(stack, 0)),
                            locals,
                        },
                    )
                } else {
                    stopped(
                        machine,
                        instruction,
                        FaultKind::Bounds { address, length: memory.len() as usize },
                    )
                }
            },
        },
    }
}

/// The locals that a call of `declaration` starts with when it is made on
/// `stack`: the arguments, of which the one pushed last becomes the last
/// parameter, and then the default value of each declared local.
pub open spec fn bound_locals(declaration: FunctionDeclaration, stack: Seq<StackEntry>) -> Seq<
    ValueType,
> {
    top_values(stack, declaration.parameters@.len()) + declaration.locals@.map_values(
        |t: TypeDeclaration| t.spec_default_value(),
    )
}

/// The marker that a call of `declaration` puts on the stack.
pub open spec fn marker(declaration: Arc<FunctionDeclaration>) -> StackEntry {
    StackEntry::Function(FunctionFrame { declaration })
}

/// The machine with which the body of `declaration` starts when it is called
/// from `machine`: the arguments have left the stack for the new locals, and
/// the marker of the call has taken their place.
pub open spec fn entered(declaration: Arc<FunctionDeclaration>, machine: Machine) -> Machine {
    Machine {
        stack: popped(machine.stack, declaration.parameters@.len()).push(marker(declaration)),
        memory: machine.memory,
        locals: bound_locals(*declaration, machine.stack),
    }
}

/// The number of values that a function hands back.
pub open spec fn arity(return_value: Option<TypeDeclaration>) -> nat {
    if return_value is Some {
        1
    } else {
        0
    }
}

/// The end of a call whose body ran through and left `stack`. The returned
/// value, if one is declared, must be on top, and the marker of the call
/// directly beneath it. Both leave the stack and the value goes back on:
/// the result is the stack that is left. Otherwise the result says which
/// slot was not as it must be.
pub open spec fn unwound(return_value: Option<TypeDeclaration>, stack: Seq<StackEntry>) -> Result<
    Seq<StackEntry>,
    FaultKind,
> {
    let held = arity(return_value);
    match missing_value(stack, held) {
        Some(found) => Err(shape(EntryKind::Value, found)),
        None => {
            let below = popped(stack, held);
            if below.len() == 0 {
                Err(shape(EntryKind::Frame, EntryKind::Nothing))
            } else if below.last() is Value {
                Err(shape(EntryKind::Frame, EntryKind::Value))
            } else {
                Ok(below.drop_last() + stack.skip(stack.len() - held))
            }
        },
    }
}

/// The outcome of a call whose body ran through and left `machine`, with
/// the caller's locals in it again. If the stack is not what the
/// declaration promises, the call faults and the stack stays as the body
/// left it.
pub open spec fn returned(
    instruction: Instruction,
    return_value: Option<TypeDeclaration>,
    machine: Machine,
) -> Outcome {
    match unwound(return_value, machine.stack) {
        Ok(stack) => done(Machine { stack, memory: machine.memory, locals: machine.locals }),
        Err(kind) => stopped(machine, instruction, kind),
    }
}

/// The step of one instruction in `program`, with `depth` further levels of
/// nested calls allowed.
///
/// A call resolves its target, takes its arguments off the stack, runs the
/// body one level deeper on the shared stack and memory with locals of its
/// own, and then checks that the body left exactly what the declaration
/// promises above the marker. A fault in the body ends the call where it
/// happened: the stack and the memory stay as the fault left them.
pub open spec fn step(
    program: Seq<Arc<FunctionDeclaration>>,
    depth: nat,
    instruction: Instruction,
    machine: Machine,
) -> Outcome
    decreases depth, 0nat,
{
    match instruction {
        Instruction::Call(index) => {
            if index >= program.len() {
                stopped(
                    machine,
                    instruction,
                    FaultKind::Index { index, length: program.len() as usize },
                )
            } else if depth == 0 {
                stopped(machine, instruction, FaultKind::Overflow)
            } else {
                let declaration = program[index as int];
                match missing_value(machine.stack, declaration.parameters@.len()) {
                    Some(found) => stopped(machine, instruction, shape(EntryKind::Value, found)),
                    None => {
                        let body = run_from(
                            program,
                            (depth - 1) as nat,
                            declaration.instructions@,
                            0,
                            entered(declaration, machine),
                        );
                        let left = Machine {
                            stack: body.machine.stack,
                            memory: body.machine.memory,
                            locals: machine.locals,
                        };
                        if body.fault is Some {
                            Outcome { machine: left, fault: body.fault }
                        } else {
                            returned(instruction, declaration.return_value, left)
                        }
                    },
                }
            }
        },
        _ => step_local(instruction, machine),
    }
}

/// Runs the instructions of `body` from position `next` on, in order, until
/// the end or the first fault.
pub open spec fn run_from(
    program: Seq<Arc<FunctionDeclaration>>,
    depth: nat,
    body: Seq<Instruction>,
    next: nat,
    machine: Machine,
) -> Outcome
    decreases depth, body.len() - next + 1,
{
    if next >= body.len() {
        done(machine)
    } else {
        let outcome = step(program, depth, body[next as int], machine);
        if outcome.fault is Some {
            outcome
        } else {
            run_from(program, depth, body, next + 1, outcome.machine)
        }
    }
}

/// Runs all of `body`.
pub open spec fn run_all(
    program: Seq<Arc<FunctionDeclaration>>,
    depth: nat,
    body: Seq<Instruction>,
    machine: Machine,
) -> Outcome {
    run_from(program, depth, body, 0, machine)
}

/// Whether an execution that ended with `result` and left `machine` has
/// done what `outcome` says: the machine is the one of the outcome, and the
/// result is its fault, or `Ok` if it has none.
pub open spec fn carried_out(outcome: Outcome, machine: Machine, result: Result<(), Fault>) -> bool {
    &&& machine == outcome.machine
    &&& result == match outcome.fault {
        Some(fault) => Err::<(), Fault>(fault),
        None => Ok::<(), Fault>(()),
    }
}

} // verus!
