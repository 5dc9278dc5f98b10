//! The discipline of the shared stack: a body never touches its own marker
//! or anything beneath it, and a call hands back exactly what its
//! declaration promises.

use vstd::prelude::*;
use std::sync::Arc;
use crate::fault::{EntryKind, Fault};
use crate::instruction::Instruction;
use crate::module::{FunctionDeclaration, StackEntry};
use crate::semantics::{
    arity, entered, marker, missing_value, popped, run_from, shape, step, Machine,
};

verus! {

/// Slot `frame` of `stack` holds a marker, and every slot above it a value.
pub open spec fn values_above(stack: Seq<StackEntry>, frame: int) -> bool {
    &&& 0 <= frame < stack.len()
    &&& stack[frame] is Function
    &&& forall|i: int| frame < i < stack.len() ==> stack[i] is Value
}

/// `after` agrees with `before` in slot `frame` and in every slot beneath it.
pub open spec fn same_up_to(before: Seq<StackEntry>, after: Seq<StackEntry>, frame: int) -> bool {
    &&& frame < after.len()
    &&& after.take(frame + 1) == before.take(frame + 1)
}

/// `missing_value(stack, need)` is `None` exactly when the stack has `need`
/// slots or more and the top `need` of them hold values.
pub proof fn lemma_values_on_top(stack: Seq<StackEntry>, need: nat)
    ensures
        missing_value(stack, need) is None <==> need <= stack.len() && forall|i: int|
            stack.len() - need <= i < stack.len() ==> stack[i] is Value,
    decreases need,
{
    if need > 0 && stack.len() > 0 && stack.last() is Value {
        let rest = stack.drop_last();
        lemma_values_on_top(rest, (need - 1) as nat);
        if missing_value(rest, (need - 1) as nat) is None {
            assert forall|i: int| stack.len() - need <= i < stack.len() implies stack[i] is Value by {
                if i < rest.len() {
                    assert(stack[i] == rest[i]);
                }
            }
        } else if need <= stack.len() {
            let i = choose|i: int| rest.len() - (need - 1) <= i < rest.len() && !(rest[i] is Value);
            assert(stack[i] == rest[i]);
        }
    }
}

/// A stack that holds only values above a marker lacks a value exactly when
/// more are asked for than lie above the marker, and the marker is then what
/// is found in their place.
pub proof fn lemma_missing_above_marker(stack: Seq<StackEntry>, frame: int, need: nat)
    requires
        values_above(stack, frame),
    ensures
        need <= stack.len() - frame - 1 ==> missing_value(stack, need) is None,
        need > stack.len() - frame - 1 ==> missing_value(stack, need) == Some(EntryKind::Frame),
    decreases need,
{
    if need > 0 && stack.len() - frame - 1 > 0 {
        lemma_missing_above_marker(stack.drop_last(), frame, (need - 1) as nat);
    }
}

/// Rewriting the top of a stack, in place of `count` values that were there,
/// with nothing but values leaves the nearest marker and all beneath it
/// alone.
proof fn lemma_top_rewritten(
    stack: Seq<StackEntry>,
    count: nat,
    result: Seq<StackEntry>,
    frame: int,
)
    requires
        values_above(stack, frame),
        missing_value(stack, count) is None,
        result.len() >= stack.len() - count,
        forall|i: int| 0 <= i < stack.len() - count ==> result[i] == stack[i],
        forall|i: int| stack.len() - count <= i < result.len() ==> result[i] is Value,
    ensures
        values_above(result, frame),
        same_up_to(stack, result, frame),
{
    lemma_values_on_top(stack, count);
    assert(frame < stack.len() - count) by {
        if frame >= stack.len() - count {
            assert(stack[frame] is Value);
        }
    }
    assert(result.take(frame + 1) =~= stack.take(frame + 1));
}

/// A step inside a body leaves the marker of that body, and everything
/// beneath it, as it was, whether the step faults or not. If it does not
/// fault, there are still only values above the marker.
pub proof fn lemma_step_keeps_frame(
    program: Seq<Arc<FunctionDeclaration>>,
    depth: nat,
    instruction: Instruction,
    machine: Machine,
    frame: int,
)
    requires
        values_above(machine.stack, frame),
    ensures
        same_up_to(machine.stack, step(program, depth, instruction, machine).machine.stack, frame),
        step(program, depth, instruction, machine).fault is None ==> values_above(
            step(program, depth, instruction, machine).machine.stack,
            frame,
        ),
    decreases depth, 1nat, 0nat,
{
    let stack = machine.stack;
    let outcome = step(program, depth, instruction, machine);
    if outcome.fault is None {
        match instruction {
            Instruction::Nop => {},
            Instruction::Const(_) | Instruction::GetLocal(_) | Instruction::MemorySize => {
                lemma_top_rewritten(stack, 0, outcome.machine.stack, frame);
            },
            Instruction::Add(_) | Instruction::Sub(_) | Instruction::Eq(_) | Instruction::Store(_) => {
                lemma_top_rewritten(stack, 2, outcome.machine.stack, frame);
            },
            Instruction::Drop | Instruction::SetLocal(_) | Instruction::MemoryGrow | Instruction::Load(
                _,
            ) => {
                lemma_top_rewritten(stack, 1, outcome.machine.stack, frame);
            },
            Instruction::Call(index) => {
                let declaration = program[index as int];
                let count = declaration.parameters@.len();
                let base = popped(stack, count);
                lemma_values_on_top(stack, count);
                lemma_call_balanced(program, depth, index, machine);
                assert forall|i: int| base.len() <= i < outcome.machine.stack.len() implies outcome.machine.stack[i] is Value by {
                    let body = run_from(
                        program,
                        (depth - 1) as nat,
                        declaration.instructions@,
                        0,
                        entered(declaration, machine),
                    );
                    let above = body.machine.stack.skip(base.len() as int + 1);
                    assert(outcome.machine.stack[i] == above[i - base.len()]);
                }
                lemma_top_rewritten(
                    stack,
                    declaration.parameters@.len(),
                    outcome.machine.stack,
                    frame,
                );
            },
        }
    } else if let Instruction::Call(index) = instruction {
        if index < program.len() && depth > 0 {
            let declaration = program[index as int];
            let count = declaration.parameters@.len();
            if missing_value(stack, count) is None {
                let start = entered(declaration, machine);
                let body = run_from(
                    program,
                    (depth - 1) as nat,
                    declaration.instructions@,
                    0,
                    start,
                );
                lemma_values_on_top(stack, count);
                lemma_top_rewritten(stack, count, popped(stack, count), frame);
                let own = popped(stack, count).len() as int;
                assert(values_above(start.stack, own));
                lemma_run_keeps_frame(
                    program,
                    (depth - 1) as nat,
                    declaration.instructions@,
                    0,
                    start,
                    own,
                );
                assert(body.machine.stack.take(frame + 1) =~= body.machine.stack.take(own + 1).take(
                    frame + 1,
                ));
                assert(start.stack.take(frame + 1) =~= start.stack.take(own + 1).take(frame + 1));
                assert(start.stack.take(frame + 1) =~= stack.take(frame + 1));
            }
        }
    }
}

/// A run inside a body leaves the marker of that body, and everything
/// beneath it, as it was, whether the run faults or not. If it does not
/// fault, there are still only values above the marker.
pub proof fn lemma_run_keeps_frame(
    program: Seq<Arc<FunctionDeclaration>>,
    depth: nat,
    body: Seq<Instruction>,
    next: nat,
    machine: Machine,
    frame: int,
)
    requires
        values_above(machine.stack, frame),
    ensures
        same_up_to(
            machine.stack,
            run_from(program, depth, body, next, machine).machine.stack,
            frame,
        ),
        run_from(program, depth, body, next, machine).fault is None ==> values_above(
            run_from(program, depth, body, next, machine).machine.stack,
            frame,
        ),
    decreases depth, 2nat, body.len() - next,
{
    if next < body.len() {
        let outcome = step(program, depth, body[next as int], machine);
        lemma_step_keeps_frame(program, depth, body[next as int], machine, frame);
        if outcome.fault is None {
            lemma_run_keeps_frame(program, depth, body, next + 1, outcome.machine, frame);
        }
    }
}

/// A call whose body runs through succeeds exactly when the body has left,
/// above the marker of the call, as many values as the declaration returns:
/// one or none. The call then leaves the caller's stack without the
/// arguments, followed by what was returned. With a value too few the call
/// faults for want of a value; with a value too many it faults for want of
/// its marker.
pub proof fn lemma_call_balanced(
    program: Seq<Arc<FunctionDeclaration>>,
    depth: nat,
    index: usize,
    machine: Machine,
)
    requires
        index < program.len(),
        depth > 0,
        missing_value(machine.stack, program[index as int].parameters@.len()) is None,
    ensures
        ({
            let declaration = program[index as int];
            let instruction = Instruction::Call(index);
            let base = popped(machine.stack, declaration.parameters@.len());
            let body = run_from(
                program,
                (depth - 1) as nat,
                declaration.instructions@,
                0,
                entered(declaration, machine),
            );
            let above = body.machine.stack.skip(base.len() as int + 1);
            let held = arity(declaration.return_value);
            let outcome = step(program, depth, instruction, machine);
            body.fault is None ==> {
                &&& body.machine.stack == base.push(marker(declaration)) + above
                &&& forall|i: int| 0 <= i < above.len() ==> above[i] is Value
                &&& above.len() == held ==> outcome.fault is None && outcome.machine.stack == base
                    + above
                &&& above.len() < held ==> outcome.fault == Some(
                    Fault { instruction, kind: shape(EntryKind::Value, EntryKind::Frame) },
                )
                &&& above.len() > held ==> outcome.fault == Some(
                    Fault { instruction, kind: shape(EntryKind::Frame, EntryKind::Value) },
                )
            }
        }),
    decreases depth, 0nat, 0nat,
{
    let declaration = program[index as int];
    let count = declaration.parameters@.len();
    let base = popped(machine.stack, count);
    let start = entered(declaration, machine);
    let body = run_from(program, (depth - 1) as nat, declaration.instructions@, 0, start);
    let own = base.len() as int;
    lemma_values_on_top(machine.stack, count);
    assert(values_above(start.stack, own));
    lemma_run_keeps_frame(program, (depth - 1) as nat, declaration.instructions@, 0, start, own);
    if body.fault is None {
        let stack = body.machine.stack;
        let above = stack.skip(own + 1);
        let held = arity(declaration.return_value);
        assert(start.stack.take(own + 1) =~= base.push(marker(declaration)));
        assert(stack =~= stack.take(own + 1) + above);
        lemma_missing_above_marker(stack, own, held);
        assert forall|i: int| 0 <= i < above.len() implies above[i] is Value by {
            assert(above[i] == stack[own + 1 + i]);
        }
        if above.len() >= held {
            let below = popped(stack, held);
            if above.len() > held {
                assert(below.last() == stack[stack.len() - held - 1]);
            } else {
                assert(below =~= base.push(marker(declaration)));
                assert(below.drop_last() =~= base);
                assert(stack.skip(stack.len() - held) =~= above);
            }
        }
    }
}

} // verus!
