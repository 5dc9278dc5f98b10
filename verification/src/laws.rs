//! What holds of every program: what short sequences of instructions come to
//! on any stack, memory and locals, and what no step can change.

use vstd::prelude::*;
use std::sync::Arc;
use crate::fault::{EntryKind, FaultKind};
use crate::instruction::Instruction;
use crate::memory::{
    be_bytes, can_grow, grown, in_bounds, lemma_be_round_trip, loaded, page_count, stored,
    valid_memory, PAGE_SIZE,
};
use crate::module::{FunctionDeclaration, StackEntry};
use crate::semantics::{
    bound_locals, done, entered, integer, marker, missing_value, operand, popped, run_all,
    run_from, step, stopped, top_values, wrapped, Machine,
};
use crate::value::{TypeDeclaration, ValueType};

verus! {

/// `machine` with `value` pushed on its stack.
pub open spec fn with_value(machine: Machine, value: ValueType) -> Machine {
    Machine {
        stack: machine.stack.push(StackEntry::Value(value)),
        memory: machine.memory,
        locals: machine.locals,
    }
}

/// `machine` with the 32-bit integer `v` pushed on its stack.
pub open spec fn with_integer(machine: Machine, v: i32) -> Machine {
    with_value(machine, ValueType::I32(v))
}

/// The instruction that pushes the 32-bit integer `v`.
pub open spec fn push_integer(v: i32) -> Instruction {
    Instruction::Const(ValueType::I32(v))
}

/// After two pushes, the two values pushed are on top of the stack, and
/// taking them off gives the stack back.
proof fn lemma_two_on_top(stack: Seq<StackEntry>, first: ValueType, second: ValueType)
    ensures
        missing_value(stack.push(StackEntry::Value(first)).push(StackEntry::Value(second)), 2)
            is None,
        popped(stack.push(StackEntry::Value(first)).push(StackEntry::Value(second)), 2) == stack,
        popped(stack.push(StackEntry::Value(first)).push(StackEntry::Value(second)), 1)
            == stack.push(StackEntry::Value(first)),
{
    reveal_with_fuel(missing_value, 3);
}

/// After a push, the value pushed is on top of the stack, and taking it off
/// gives the stack back.
proof fn lemma_one_on_top(stack: Seq<StackEntry>, value: ValueType)
    ensures
        missing_value(stack.push(StackEntry::Value(value)), 1) is None,
        popped(stack.push(StackEntry::Value(value)), 1) == stack,
{
    reveal_with_fuel(missing_value, 2);
}

/// Pushing `a`, pushing `b` and adding leaves `a + b` on the stack on top of
/// what was there, wrapped around to 32 bits where the sum does not fit, and
/// changes nothing else. On an empty stack the sum is the only entry.
pub proof fn lemma_add_constants(
    program: Seq<Arc<FunctionDeclaration>>,
    depth: nat,
    a: i32,
    b: i32,
    t: TypeDeclaration,
    machine: Machine,
)
    ensures
        run_all(
            program,
            depth,
            seq![push_integer(a), push_integer(b), Instruction::Add(t)],
            machine,
        ) == done(with_integer(machine, wrapped(a + b))),
        i32::MIN <= a + b <= i32::MAX ==> wrapped(a + b) == a + b,
{
    reveal_with_fuel(run_from, 4);
    lemma_two_on_top(machine.stack, ValueType::I32(a), ValueType::I32(b));
}

/// Pushing `a`, pushing `b` and subtracting leaves `a - b` on the stack on
/// top of what was there, wrapped around to 32 bits where the difference
/// does not fit, and changes nothing else: the value pushed first is the
/// left operand.
pub proof fn lemma_sub_constants(
    program: Seq<Arc<FunctionDeclaration>>,
    depth: nat,
    a: i32,
    b: i32,
    t: TypeDeclaration,
    machine: Machine,
)
    ensures
        run_all(
            program,
            depth,
            seq![push_integer(a), push_integer(b), Instruction::Sub(t)],
            machine,
        ) == done(with_integer(machine, wrapped(a - b))),
        i32::MIN <= a - b <= i32::MAX ==> wrapped(a - b) == a - b,
{
    reveal_with_fuel(run_from, 4);
    lemma_two_on_top(machine.stack, ValueType::I32(a), ValueType::I32(b));
}

/// Pushing `a`, pushing `b` and comparing leaves 1 on the stack if the two
/// are the same number and 0 if they are not, and changes nothing else.
pub proof fn lemma_eq_constants(
    program: Seq<Arc<FunctionDeclaration>>,
    depth: nat,
    a: i32,
    b: i32,
    t: TypeDeclaration,
    machine: Machine,
)
    ensures
        run_all(
            program,
            depth,
            seq![push_integer(a), push_integer(b), Instruction::Eq(t)],
            machine,
        ) == done(
            with_integer(
                machine,
                if a == b {
                    1i32
                } else {
                    0i32
                },
            ),
        ),
{
    reveal_with_fuel(run_from, 4);
    lemma_two_on_top(machine.stack, ValueType::I32(a), ValueType::I32(b));
}

/// A value that was stored at an address within the memory is what a load
/// from that address gives, whatever the address and the value are. The
/// store changes no byte outside the value's own and leaves the length of
/// the memory as it was.
pub proof fn lemma_store_then_load(
    memory: Seq<u8>,
    t: TypeDeclaration,
    address: int,
    value: ValueType,
)
    requires
        in_bounds(memory, t, address),
    ensures
        loaded(stored(memory, address, value), t, address) == value,
        stored(memory, address, value).len() == memory.len(),
        forall|i: int|
            0 <= i < memory.len() && !(address <= i < address + t.spec_size()) ==> stored(
                memory,
                address,
                value,
            )[i] == memory[i],
{
    let ValueType::I32(v) = value;
    let after = stored(memory, address, value);
    lemma_be_round_trip(v);
    assert(after.subrange(address, address + 4) =~= be_bytes(v));
}

/// Storing `value` at `address` and loading from `address` again leaves
/// `value` on the stack, for every address at which a value fits in the
/// memory.
pub proof fn lemma_store_load_round_trip(
    program: Seq<Arc<FunctionDeclaration>>,
    depth: nat,
    address: i32,
    value: i32,
    t: TypeDeclaration,
    machine: Machine,
)
    requires
        in_bounds(machine.memory, t, address as int),
    ensures
        run_all(
            program,
            depth,
            seq![
                push_integer(address),
                push_integer(value),
                Instruction::Store(t),
                push_integer(address),
                Instruction::Load(t),
            ],
            machine,
        ) == done(
            Machine {
                stack: machine.stack.push(StackEntry::Value(ValueType::I32(value))),
                memory: stored(machine.memory, address as int, ValueType::I32(value)),
                locals: machine.locals,
            },
        ),
{
    reveal_with_fuel(run_from, 6);
    lemma_two_on_top(machine.stack, ValueType::I32(address), ValueType::I32(value));
    lemma_one_on_top(machine.stack, ValueType::I32(address));
    lemma_store_then_load(machine.memory, t, address as int, ValueType::I32(value));
}

/// A memory that grows by `pages` pages is a valid memory again and is
/// `pages` pages larger. Growing by no page changes nothing, and is always
/// possible.
pub proof fn lemma_grown_memory(memory: Seq<u8>, pages: int)
    requires
        valid_memory(memory),
        can_grow(memory, pages),
    ensures
        valid_memory(grown(memory, pages)),
        page_count(grown(memory, pages)) == page_count(memory) + pages,
        grown(memory, 0) == memory,
        can_grow(memory, 0),
{
}

/// Growing the memory by `pages` pages and asking for its size gives the
/// size before plus `pages`. With `pages` zero the memory stays as it is and
/// the step still succeeds.
pub proof fn lemma_grow_then_size(
    program: Seq<Arc<FunctionDeclaration>>,
    depth: nat,
    pages: i32,
    machine: Machine,
)
    requires
        valid_memory(machine.memory),
        can_grow(machine.memory, pages as int),
    ensures
        run_all(
            program,
            depth,
            seq![push_integer(pages), Instruction::MemoryGrow, Instruction::MemorySize],
            machine,
        ) == done(
            Machine {
                stack: machine.stack.push(
                    StackEntry::Value(ValueType::I32((page_count(machine.memory) + pages) as i32)),
                ),
                memory: grown(machine.memory, pages as int),
                locals: machine.locals,
            },
        ),
        i32::MIN <= page_count(machine.memory) + pages <= i32::MAX,
        pages == 0 ==> grown(machine.memory, pages as int) == machine.memory,
{
    reveal_with_fuel(run_from, 4);
    lemma_one_on_top(machine.stack, ValueType::I32(pages));
    lemma_grown_memory(machine.memory, pages as int);
}

/// A load from an address at which a value does not fit in the memory
/// faults with the address and the length of the memory, and changes
/// nothing: neither is the address wrapped around nor the value cut short.
pub proof fn lemma_load_out_of_bounds(
    program: Seq<Arc<FunctionDeclaration>>,
    depth: nat,
    address: i32,
    t: TypeDeclaration,
    machine: Machine,
)
    requires
        address < 0 || address + t.spec_size() > machine.memory.len(),
    ensures
        step(program, depth, Instruction::Load(t), with_integer(machine, address)) == stopped(
            with_integer(machine, address),
            Instruction::Load(t),
            FaultKind::Bounds { address, length: machine.memory.len() as usize },
        ),
{
    lemma_one_on_top(machine.stack, ValueType::I32(address));
}

/// A call binds its arguments in the order in which they were pushed: on a
/// stack that ends in the values `arguments`, as many as the function has
/// parameters, the locals of the call are `arguments` followed by the
/// default value of each declared local.
pub proof fn lemma_arguments_bind_in_order(
    declaration: FunctionDeclaration,
    stack: Seq<StackEntry>,
    arguments: Seq<ValueType>,
)
    requires
        arguments.len() == declaration.parameters@.len(),
    ensures
        missing_value(stack + arguments.map_values(|v: ValueType| StackEntry::Value(v)), arguments.len())
            is None,
        bound_locals(
            declaration,
            stack + arguments.map_values(|v: ValueType| StackEntry::Value(v)),
        ) == arguments + declaration.locals@.map_values(
            |t: TypeDeclaration| t.spec_default_value(),
        ),
        popped(stack + arguments.map_values(|v: ValueType| StackEntry::Value(v)), arguments.len())
            == stack,
{
    let pushed = arguments.map_values(|v: ValueType| StackEntry::Value(v));
    let whole = stack + pushed;
    crate::frames::lemma_values_on_top(whole, arguments.len());
}

/// A function with two parameters that is called after `x` and `y` were
/// pushed, in this order, starts its body with `x` in local 0 and `y` in
/// local 1, followed by the default value of each declared local. The body
/// starts on the caller's stack, with the marker of the call in the place of
/// the two arguments, and on the caller's memory.
pub proof fn lemma_two_arguments_bind_in_order(
    declaration: Arc<FunctionDeclaration>,
    machine: Machine,
    x: ValueType,
    y: ValueType,
)
    requires
        declaration.parameters@.len() == 2,
    ensures
        missing_value(with_value(with_value(machine, x), y).stack, 2) is None,
        entered(declaration, with_value(with_value(machine, x), y)) == (Machine {
            stack: machine.stack.push(marker(declaration)),
            memory: machine.memory,
            locals: seq![x, y] + declaration.locals@.map_values(
                |t: TypeDeclaration| t.spec_default_value(),
            ),
        }),
        entered(declaration, with_value(with_value(machine, x), y)).locals[0] == x,
        entered(declaration, with_value(with_value(machine, x), y)).locals[1] == y,
{
    lemma_two_on_top(machine.stack, x, y);
    let stack = with_value(with_value(machine, x), y).stack;
    assert(top_values(stack, 2) =~= seq![x, y]);
}

/// A function with two parameters whose body does nothing but fetch one of
/// them hands back the argument pushed first for parameter 0 and the
/// argument pushed last for parameter 1. The call leaves it on the caller's
/// stack in the place of the two arguments and changes nothing else.
pub proof fn lemma_call_returns_argument(
    program: Seq<Arc<FunctionDeclaration>>,
    depth: nat,
    index: usize,
    parameter: usize,
    machine: Machine,
    x: ValueType,
    y: ValueType,
)
    requires
        index < program.len(),
        depth > 0,
        parameter < 2,
        program[index as int].parameters@.len() == 2,
        program[index as int].return_value is Some,
        program[index as int].instructions@ == seq![Instruction::GetLocal(parameter)],
    ensures
        step(program, depth, Instruction::Call(index), with_value(with_value(machine, x), y))
            == done(
            with_value(
                machine,
                if parameter == 0 {
                    x
                } else {
                    y
                },
            ),
        ),
{
    let declaration = program[index as int];
    let caller = with_value(with_value(machine, x), y);
    lemma_two_arguments_bind_in_order(declaration, machine, x, y);
    reveal_with_fuel(run_from, 3);
    reveal_with_fuel(missing_value, 2);
    let start = entered(declaration, caller);
    let chosen = start.locals[parameter as int];
    let body = run_from(program, (depth - 1) as nat, declaration.instructions@, 0, start);
    let left = body.machine.stack;
    assert(popped(left, 1) =~= start.stack);
    assert(start.stack.drop_last() =~= machine.stack);
    assert(left.skip(left.len() - 1) =~= seq![StackEntry::Value(chosen)]);
    assert(machine.stack + seq![StackEntry::Value(chosen)] =~= machine.stack.push(
        StackEntry::Value(chosen),
    ));
}

/// A step other than a call that faults changes nothing: the stack, the
/// memory and the locals are as they were before the step.
pub proof fn lemma_fault_changes_nothing(
    program: Seq<Arc<FunctionDeclaration>>,
    depth: nat,
    instruction: Instruction,
    machine: Machine,
)
    requires
        !(instruction is Call),
        step(program, depth, instruction, machine).fault is Some,
    ensures
        step(program, depth, instruction, machine).machine == machine,
{
}

/// A call that cannot start changes nothing either: its target is unknown,
/// no further level of calls is allowed, or its arguments are not on the
/// stack. The fault says which, and the target is looked at first, the level
/// second and the arguments last.
pub proof fn lemma_call_that_cannot_start(
    program: Seq<Arc<FunctionDeclaration>>,
    depth: nat,
    index: usize,
    machine: Machine,
)
    ensures
        index >= program.len() ==> step(program, depth, Instruction::Call(index), machine)
            == stopped(
            machine,
            Instruction::Call(index),
            FaultKind::Index { index, length: program.len() as usize },
        ),
        index < program.len() && depth == 0 ==> step(
            program,
            depth,
            Instruction::Call(index),
            machine,
        ) == stopped(machine, Instruction::Call(index), FaultKind::Overflow),
        index < program.len() && depth > 0 ==> match missing_value(
            machine.stack,
            program[index as int].parameters@.len(),
        ) {
            Some(found) => step(program, depth, Instruction::Call(index), machine) == stopped(
                machine,
                Instruction::Call(index),
                FaultKind::StackShape { expected: EntryKind::Value, found },
            ),
            None => true,
        },
{
}

/// No step changes the number of locals. Only a step that sets a local
/// changes a local at all; a call, whatever its body does, leaves the
/// locals of its caller as they are.
pub proof fn lemma_locals_are_kept(
    program: Seq<Arc<FunctionDeclaration>>,
    depth: nat,
    instruction: Instruction,
    machine: Machine,
)
    ensures
        step(program, depth, instruction, machine).machine.locals.len() == machine.locals.len(),
        !(instruction is SetLocal) ==> step(program, depth, instruction, machine).machine.locals
            == machine.locals,
{
}

/// A step leaves a valid memory valid, whether it faults or not: the memory
/// is whole pages long and within the largest length. It never gets
/// shorter.
pub proof fn lemma_step_keeps_memory_valid(
    program: Seq<Arc<FunctionDeclaration>>,
    depth: nat,
    instruction: Instruction,
    machine: Machine,
)
    requires
        valid_memory(machine.memory),
    ensures
        valid_memory(step(program, depth, instruction, machine).machine.memory),
        step(program, depth, instruction, machine).machine.memory.len() >= machine.memory.len(),
    decreases depth, 0nat,
{
    match instruction {
        Instruction::Call(index) => {
            if index < program.len() && depth > 0 {
                let declaration = program[index as int];
                if missing_value(machine.stack, declaration.parameters@.len()) is None {
                    lemma_run_keeps_memory_valid(
                        program,
                        (depth - 1) as nat,
                        declaration.instructions@,
                        0,
                        entered(declaration, machine),
                    );
                }
            }
        },
        Instruction::MemoryGrow => {
            if step(program, depth, instruction, machine).fault is None {
                lemma_grown_memory(machine.memory, integer(operand(machine.stack, 0)) as int);
            }
        },
        _ => {},
    }
}

/// A run leaves a valid memory valid, whether it faults or not, and never
/// makes it shorter.
pub proof fn lemma_run_keeps_memory_valid(
    program: Seq<Arc<FunctionDeclaration>>,
    depth: nat,
    body: Seq<Instruction>,
    next: nat,
    machine: Machine,
)
    requires
        valid_memory(machine.memory),
    ensures
        valid_memory(run_from(program, depth, body, next, machine).machine.memory),
        run_from(program, depth, body, next, machine).machine.memory.len() >= machine.memory.len(),
    decreases depth, body.len() - next + 1,
{
    if next < body.len() {
        let outcome = step(program, depth, body[next as int], machine);
        lemma_step_keeps_memory_valid(program, depth, body[next as int], machine);
        if outcome.fault is None {
            lemma_run_keeps_memory_valid(program, depth, body, next + 1, outcome.machine);
        }
    }
}

} // verus!
