//! The instructions and their execution.

use vstd::prelude::*;
use std::sync::Arc;
use crate::fault::{EntryKind, Fault, FaultKind};
use crate::frames::lemma_values_on_top;
use crate::module::{FunctionDeclaration, FunctionFrame, ModuleInstance, Stack, StackEntry};
use crate::semantics::{
    bound_locals, carried_out, difference, entered, equality, integer, missing_value, operand,
    popped, run_from, step, step_local, sum, top_values, unwound, Machine,
};
use crate::value::{TypeDeclaration, ValueType};

verus! {

/// One operation of the machine.
///
/// The typed operations carry the tag they work on. With a single numeric
/// type the tag is never compared with the operands: every value has it.
#[derive(Debug, Clone, Copy, PartialEq, Eq)]
pub enum Instruction {
    /// Does nothing.
    Nop,
    /// Pushes the value.
    Const(ValueType),
    /// Pops two values and pushes their sum, wrapping around on overflow.
    Add(TypeDeclaration),
    /// Pops two values and pushes the one pushed first minus the one pushed
    /// last, wrapping around on overflow.
    Sub(TypeDeclaration),
    /// Pops two values and pushes 1 if they are equal, 0 if not.
    Eq(TypeDeclaration),
    /// Calls the function with this index in the module.
    Call(usize),
    /// Pops a value and discards it.
    Drop,
    /// Pushes a copy of the local with this index.
    GetLocal(usize),
    /// Pops an address and pushes the value stored there.
    Load(TypeDeclaration),
    /// Pops a value, then an address, and stores the value there.
    Store(TypeDeclaration),
    /// Pushes the size of the memory in pages.
    MemorySize,
    /// Pops a page count and grows the memory by so many pages.
    MemoryGrow,
    /// Pops a value into the local with this index. The declared type of the
    /// local is not compared with the value.
    SetLocal(usize),
}

/// Looks for `need` values on top of the stack.
fn check_values(stack: &Stack, need: usize) -> (missing: Option<EntryKind>)
    ensures
        missing == missing_value(stack@, need as nat),
{
    let length = stack.len();
    let mut seen: usize = 0;
    assert(stack@.take(length as int) == stack@);
    while seen < need
        invariant
            length == stack@.len(),
            seen <= need,
            seen <= length,
            missing_value(stack@, need as nat) == missing_value(
                stack@.take(length - seen),
                (need - seen) as nat,
            ),
        decreases need - seen,
    {
        if seen == length {
            return Some(EntryKind::Nothing);
        }
        assert(stack@.take(length - seen).drop_last() == stack@.take(length - (seen + 1)));
        match &stack[length - seen - 1] {
            StackEntry::Function(_) => {
                return Some(EntryKind::Frame);
            },
            StackEntry::Value(_) => {},
        }
        seen += 1;
    }
    None
}

/// Takes the value on top of the stack.
fn pop_value(stack: &mut Stack) -> (value: ValueType)
    requires
        missing_value(old(stack)@, 1) is None,
    ensures
        value == operand(old(stack)@, 0),
        final(stack)@ == popped(old(stack)@, 1),
{
    match stack.pop() {
        Some(StackEntry::Value(value)) => value,
        _ => unreached(),
    }
}

/// Copies the value `below` slots under the top of the stack, which is
/// known to have `need` values on top.
fn peek_value(stack: &Stack, below: usize, Ghost(need): Ghost<nat>) -> (value: ValueType)
    requires
        missing_value(stack@, need) is None,
        below < need,
    ensures
        value == operand(stack@, below as int),
{
    proof {
        lemma_values_on_top(stack@, need);
    }
    match &stack[stack.len() - 1 - below] {
        StackEntry::Value(value) => *value,
        StackEntry::Function(_) => unreached(),
    }
}

/// Adds two values, wrapping around on overflow.
fn add_values(left: ValueType, right: ValueType) -> (result: ValueType)
    ensures
        result == sum(left, right),
{
    match (left, right) {
        (ValueType::I32(a), ValueType::I32(b)) => ValueType::I32(a.wrapping_add(b)),
    }
}

/// Subtracts `right` from `left`, wrapping around on overflow.
fn sub_values(left: ValueType, right: ValueType) -> (result: ValueType)
    ensures
        result == difference(left, right),
{
    match (left, right) {
        (ValueType::I32(a), ValueType::I32(b)) => ValueType::I32(a.wrapping_sub(b)),
    }
}

/// Compares two values: 1 if they are equal, 0 if not.
fn eq_values(left: ValueType, right: ValueType) -> (result: ValueType)
    ensures
        result == equality(left, right),
{
    match (left, right) {
        (ValueType::I32(a), ValueType::I32(b)) => ValueType::I32(
            if a == b {
                1
            } else {
                0
            },
        ),
    }
}

/// Reads a value as an address or a page count.
fn integer_of(value: ValueType) -> (v: i32)
    ensures
        v == integer(value),
{
    match value {
        ValueType::I32(v) => v,
    }
}

/// Takes the arguments of a call of `declaration` off the stack and builds
/// the locals that the call starts with.
fn bind_locals(declaration: &FunctionDeclaration, stack: &mut Stack) -> (locals: Vec<ValueType>)
    requires
        missing_value(old(stack)@, declaration.parameters@.len()) is None,
    ensures
        locals@ == bound_locals(*declaration, old(stack)@),
        final(stack)@ == popped(old(stack)@, declaration.parameters@.len()),
{
    proof {
        lemma_values_on_top(stack@, declaration.parameters@.len());
    }
    let count = declaration.parameters.len();
    let length = stack.len();
    let first = length - count;
    let mut locals: Vec<ValueType> = Vec::new();
    let mut taken: usize = 0;
    while taken < count
        invariant
            stack@ == old(stack)@,
            length == stack@.len(),
            first + count == length,
            taken <= count,
            locals@ == top_values(stack@, count as nat).take(taken as int),
            forall|i: int| first <= i < length ==> stack@[i] is Value,
        decreases count - taken,
    {
        match &stack[first + taken] {
            StackEntry::Value(value) => {
                locals.push(*value);
            },
            StackEntry::Function(_) => unreached(),
        }
        taken += 1;
    }
    stack.truncate(first);
    let ghost arguments = locals@;
    let ghost defaults = declaration.locals@.map_values(|t: TypeDeclaration| t.spec_default_value());
    let mut declared: usize = 0;
    while declared < declaration.locals.len()
        invariant
            declared <= declaration.locals@.len(),
            defaults == declaration.locals@.map_values(|t: TypeDeclaration| t.spec_default_value()),
            locals@ == arguments + defaults.take(declared as int),
        decreases declaration.locals@.len() - declared,
    {
        locals.push(declaration.locals[declared].default_value());
        declared += 1;
    }
    locals
}

/// Ends a call whose body has run through: takes the returned value, if
/// one is declared, and the marker of the call off the stack, and puts the
/// value back. Where the stack is not as it must be, it stays as it is.
fn unwind(return_value: Option<TypeDeclaration>, stack: &mut Stack) -> (result: Result<(), FaultKind>)
    ensures
        match unwound(return_value, old(stack)@) {
            Ok(left) => result == Ok::<(), FaultKind>(()) && final(stack)@ == left,
            Err(kind) => result == Err::<(), FaultKind>(kind) && final(stack)@ == old(stack)@,
        },
{
    let held: usize = if return_value.is_some() {
        1
    } else {
        0
    };
    if let Some(found) = check_values(stack, held) {
        return Err(FaultKind::StackShape { expected: EntryKind::Value, found });
    }
    proof {
        lemma_values_on_top(stack@, held as nat);
    }
    let length = stack.len();
    if length == held {
        return Err(
            FaultKind::StackShape { expected: EntryKind::Frame, found: EntryKind::Nothing },
        );
    }
    if let StackEntry::Value(_) = &stack[length - held - 1] {
        return Err(FaultKind::StackShape { expected: EntryKind::Frame, found: EntryKind::Value });
    }
    if held == 1 {
        let value = pop_value(stack);
        stack.pop();
        stack.push(StackEntry::Value(value));
    } else {
        stack.pop();
    }
    Ok(())
}

/// The fault of an instruction that found `found` where it needs a value.
fn shape_fault(instruction: Instruction, found: EntryKind) -> (fault: Fault)
    ensures
        fault == (Fault {
            instruction,
            kind: FaultKind::StackShape { expected: EntryKind::Value, found },
        }),
{
    Fault { instruction, kind: FaultKind::StackShape { expected: EntryKind::Value, found } }
}

/// Takes the two values on top of the stack away.
fn pop_two(stack: &mut Stack)
    requires
        missing_value(old(stack)@, 2) is None,
    ensures
        final(stack)@ == popped(old(stack)@, 2),
{
    proof {
        lemma_values_on_top(stack@, 2);
    }
    stack.pop();
    stack.pop();
}

/// Puts `result` in the place of the two values on top of the stack.
fn replace_two(stack: &mut Stack, result: ValueType)
    requires
        missing_value(old(stack)@, 2) is None,
    ensures
        final(stack)@ == popped(old(stack)@, 2).push(StackEntry::Value(result)),
{
    pop_two(stack);
    stack.push(StackEntry::Value(result));
}

/// Carries out an instruction that works on the stack alone.
fn execute_on_stack(
    instruction: Instruction,
    stack: &mut Stack,
    module: &mut ModuleInstance,
    locals: &mut [ValueType],
) -> (result: Result<(), Fault>)
    requires
        instruction is Nop || instruction is Const || instruction is Add || instruction is Sub
            || instruction is Eq || instruction is Drop,
    ensures
        carried_out(
            step_local(
                instruction,
                Machine { stack: old(stack)@, memory: old(module).memory@, locals: old(locals)@ },
            ),
            Machine { stack: final(stack)@, memory: final(module).memory@, locals: final(locals)@ },
            result,
        ),
        final(module).declaration == old(module).declaration,
{
    match instruction {
        Instruction::Const(value) => {
            stack.push(StackEntry::Value(value));
            Ok(())
        },
        Instruction::Add(_) | Instruction::Sub(_) | Instruction::Eq(_) => {
            if let Some(found) = check_values(stack, 2) {
                return Err(shape_fault(instruction, found));
            }
            let right = peek_value(stack, 0, Ghost(2));
            let left = peek_value(stack, 1, Ghost(2));
            let result = match instruction {
                Instruction::Add(_) => add_values(left, right),
                Instruction::Sub(_) => sub_values(left, right),
                _ => eq_values(left, right),
            };
            replace_two(stack, result);
            Ok(())
        },
        Instruction::Drop => {
            if let Some(found) = check_values(stack, 1) {
                return Err(shape_fault(instruction, found));
            }
            pop_value(stack);
            Ok(())
        },
        _ => Ok(()),
    }
}

/// Carries out an instruction that reads or writes a local.
fn execute_on_locals(
    instruction: Instruction,
    stack: &mut Stack,
    module: &mut ModuleInstance,
    locals: &mut [ValueType],
) -> (result: Result<(), Fault>)
    requires
        instruction is GetLocal || instruction is SetLocal,
    ensures
        carried_out(
            step_local(
                instruction,
                Machine { stack: old(stack)@, memory: old(module).memory@, locals: old(locals)@ },
            ),
            Machine { stack: final(stack)@, memory: final(module).memory@, locals: final(locals)@ },
            result,
        ),
        final(module).declaration == old(module).declaration,
{
    match instruction {
        Instruction::GetLocal(index) => {
            if index >= locals.len() {
                return Err(
                    Fault { instruction, kind: FaultKind::Index { index, length: locals.len() } },
                );
            }
            stack.push(StackEntry::Value(locals[index]));
            Ok(())
        },
        Instruction::SetLocal(index) => {
            if let Some(found) = check_values(stack, 1) {
                return Err(shape_fault(instruction, found));
            }
            if index >= locals.len() {
                return Err(
                    Fault { instruction, kind: FaultKind::Index { index, length: locals.len() } },
                );
            }
            locals[index] = pop_value(stack);
            Ok(())
        },
        _ => Ok(()),
    }
}

/// Carries out an instruction that reads or writes the memory.
fn execute_on_memory(
    instruction: Instruction,
    stack: &mut Stack,
    module: &mut ModuleInstance,
    locals: &mut [ValueType],
) -> (result: Result<(), Fault>)
    requires
        instruction is MemorySize || instruction is MemoryGrow || instruction is Load
            || instruction is Store,
    ensures
        carried_out(
            step_local(
                instruction,
                Machine { stack: old(stack)@, memory: old(module).memory@, locals: old(locals)@ },
            ),
            Machine { stack: final(stack)@, memory: final(module).memory@, locals: final(locals)@ },
            result,
        ),
        final(module).declaration == old(module).declaration,
{
    match instruction {
        Instruction::MemorySize => {
            let pages = module.memory.size();
            stack.push(StackEntry::Value(ValueType::I32(pages)));
            Ok(())
        },
        Instruction::MemoryGrow => {
            if let Some(found) = check_values(stack, 1) {
                return Err(shape_fault(instruction, found));
            }
            let pages = integer_of(peek_value(stack, 0, Ghost(1)));
            match module.memory.grow(pages) {
                Ok(()) => {
                    pop_value(stack);
                    Ok(())
                },
                Err(kind) => Err(Fault { instruction, kind }),
            }
        },
        Instruction::Load(t) => {
            if let Some(found) = check_values(stack, 1) {
                return Err(shape_fault(instruction, found));
            }
            let address = integer_of(peek_value(stack, 0, Ghost(1)));
            match module.memory.load(t, address) {
                Ok(value) => {
                    pop_value(stack);
                    stack.push(StackEntry::Value(value));
                    Ok(())
                },
                Err(kind) => Err(Fault { instruction, kind }),
            }
        },
        Instruction::Store(t) => {
            if let Some(found) = check_values(stack, 2) {
                return Err(shape_fault(instruction, found));
            }
            let value = peek_value(stack, 0, Ghost(2));
            let address = integer_of(peek_value(stack, 1, Ghost(2)));
            match module.memory.store(t, address, value) {
                Ok(()) => {
                    pop_two(stack);
                    Ok(())
                },
                Err(kind) => Err(Fault { instruction, kind }),
            }
        },
        _ => Ok(()),
    }
}

impl Instruction {
    /// Carries out this instruction on the shared stack, the module instance
    /// and the locals of the current activation, with `depth` further levels
    /// of nested calls allowed.
    ///
    /// The stack, the memory and the locals end as [`step`] says, and the
    /// result is the fault that `step` reports, if it reports one. A faulting
    /// instruction other than a call changes nothing; a call that faults in
    /// its body leaves the stack and the memory as they were at the fault.
    /// A call where `depth` is zero faults with [`FaultKind::Overflow`]; the
    /// body of a call runs with `depth - 1`.
    pub fn execute(
        &self,
        stack: &mut Stack,
        module: &mut ModuleInstance,
        locals: &mut [ValueType],
        depth: usize,
    ) -> (result: Result<(), Fault>)
        ensures
            carried_out(
                step(
                    old(module).declaration@,
                    depth as nat,
                    *self,
                    Machine {
                        stack: old(stack)@,
                        memory: old(module).memory@,
                        locals: old(locals)@,
                    },
                ),
                Machine {
                    stack: final(stack)@,
                    memory: final(module).memory@,
                    locals: final(locals)@,
                },
                result,
            ),
            final(module).declaration == old(module).declaration,
        decreases depth,
    {
        let instruction = *self;
        let index = match instruction {
            Instruction::Call(index) => index,
            Instruction::GetLocal(_) | Instruction::SetLocal(_) => {
                return execute_on_locals(instruction, stack, module, locals);
            },
            Instruction::MemorySize
            | Instruction::MemoryGrow
            | Instruction::Load(_)
            | Instruction::Store(_) => {
                return execute_on_memory(instruction, stack, module, locals);
            },
            _ => {
                return execute_on_stack(instruction, stack, module, locals);
            },
        };
        let count = module.declaration.functions.len();
        if index >= count {
            return Err(Fault { instruction, kind: FaultKind::Index { index, length: count } });
        }
        if depth == 0 {
            return Err(Fault { instruction, kind: FaultKind::Overflow });
        }
        let declaration = Arc::clone(&module.declaration.functions[index]);
        if let Some(found) = check_values(stack, declaration.parameters.len()) {
            return Err(shape_fault(instruction, found));
        }
        let ghost program = module.declaration@;
        let ghost caller = Machine { stack: stack@, memory: module.memory@, locals: locals@ };
        let ghost body = declaration.instructions@;
        let ghost below = (depth - 1) as nat;
        let mut own = bind_locals(&declaration, stack);
        stack.push(StackEntry::Function(FunctionFrame { declaration: Arc::clone(&declaration) }));
        let mut next: usize = 0;
        while next < declaration.instructions.len()
            invariant
                next <= body.len(),
                body == declaration.instructions@,
                depth > 0,
                below == depth - 1,
                instruction == Instruction::Call(index),
                instruction == *self,
                module.declaration == old(module).declaration,
                program == module.declaration@,
                index < program.len(),
                program[index as int] == declaration,
                locals@ == old(locals)@,
                caller == (Machine {
                    stack: old(stack)@,
                    memory: old(module).memory@,
                    locals: old(locals)@,
                }),
                missing_value(caller.stack, declaration.parameters@.len()) is None,
                run_from(program, below, body, 0, entered(declaration, caller)) == run_from(
                    program,
                    below,
                    body,
                    next as nat,
                    Machine { stack: stack@, memory: module.memory@, locals: own@ },
                ),
            decreases body.len() - next,
        {
            let inner = declaration.instructions[next];
            match inner.execute(stack, module, own.as_mut_slice(), depth - 1) {
                Ok(()) => {},
                Err(fault) => {
                    return Err(fault);
                },
            }
            next += 1;
        }
        match unwind(declaration.return_value, stack) {
            Ok(()) => Ok(()),
            Err(kind) => Err(Fault { instruction, kind }),
        }
    }
}

} // verus!
