use std::sync::Arc;

use stackvm::{
    EntryKind, Fault, FaultKind, FunctionDeclaration, FunctionFrame, Instruction, LinearMemory,
    ModuleDeclaration, ModuleInstance, StackEntry, TypeDeclaration, ValueType, CALL_DEPTH_LIMIT,
};

const I32: TypeDeclaration = TypeDeclaration::I32;

fn module_of(functions: Vec<FunctionDeclaration>) -> ModuleInstance {
    ModuleInstance {
        memory: LinearMemory::new(),
        declaration: Arc::new(ModuleDeclaration {
            functions: functions.into_iter().map(Arc::new).collect(),
        }),
    }
}

fn declare(
    parameters: usize,
    locals: usize,
    returns: bool,
    instructions: Vec<Instruction>,
) -> FunctionDeclaration {
    FunctionDeclaration {
        parameters: vec![I32; parameters],
        locals: vec![I32; locals],
        return_value: if returns { Some(I32) } else { None },
        instructions,
        label: None,
    }
}

fn put(v: i32) -> Instruction {
    Instruction::Const(ValueType::I32(v))
}

fn val(v: i32) -> StackEntry {
    StackEntry::Value(ValueType::I32(v))
}

fn marker_of(module: &ModuleInstance, index: usize) -> StackEntry {
    StackEntry::Function(FunctionFrame {
        declaration: Arc::clone(&module.declaration.functions[index]),
    })
}

fn shape_fault(instruction: Instruction, expected: EntryKind, found: EntryKind) -> Fault {
    Fault { instruction, kind: FaultKind::StackShape { expected, found } }
}

/// Calls function `index` on `stack` with no locals of the caller.
fn call(
    module: &mut ModuleInstance,
    stack: &mut Vec<StackEntry>,
    index: usize,
    depth: usize,
) -> Result<(), Fault> {
    let mut locals: Vec<ValueType> = Vec::new();
    Instruction::Call(index).execute(stack, module, &mut locals[..], depth)
}

#[test]
fn arguments_bind_in_the_order_they_were_pushed() {
    for (local, expected) in [(0, 10), (1, 20)] {
        let mut module = module_of(vec![
            declare(0, 0, true, vec![put(10), put(20), Instruction::Call(1)]),
            declare(2, 0, true, vec![Instruction::GetLocal(local)]),
        ]);
        assert_eq!(module.run(0), Ok(Some(ValueType::I32(expected))));
    }
    let mut module = module_of(vec![declare(
        2,
        0,
        true,
        vec![Instruction::GetLocal(0), Instruction::GetLocal(1), Instruction::Sub(I32)],
    )]);
    let mut stack = vec![val(1), val(30), val(8)];
    assert_eq!(call(&mut module, &mut stack, 0, 1), Ok(()));
    assert_eq!(stack, vec![val(1), val(22)]);
}

#[test]
fn three_arguments_bind_first_to_last() {
    for (local, expected) in [(0, 5), (1, 6), (2, 7)] {
        let mut module = module_of(vec![declare(3, 0, true, vec![Instruction::GetLocal(local)])]);
        let mut stack = vec![val(4), val(5), val(6), val(7)];
        assert_eq!(call(&mut module, &mut stack, 0, 1), Ok(()));
        assert_eq!(stack, vec![val(4), val(expected)]);
    }
}

#[test]
fn declared_locals_follow_the_parameters_and_start_at_zero() {
    for (local, expected) in [(0, 9), (1, 0), (2, 0)] {
        let mut module = module_of(vec![declare(1, 2, true, vec![Instruction::GetLocal(local)])]);
        let mut stack = vec![val(9)];
        assert_eq!(call(&mut module, &mut stack, 0, 1), Ok(()));
        assert_eq!(stack, vec![val(expected)]);
    }
    let mut module = module_of(vec![declare(1, 2, true, vec![Instruction::GetLocal(3)])]);
    let mut stack = vec![val(9)];
    assert_eq!(
        call(&mut module, &mut stack, 0, 1),
        Err(Fault {
            instruction: Instruction::GetLocal(3),
            kind: FaultKind::Index { index: 3, length: 3 },
        })
    );
    assert_eq!(stack, vec![marker_of(&module, 0)]);
}

#[test]
fn set_local_overwrites_one_local() {
    let mut module = module_of(vec![declare(
        2,
        1,
        true,
        vec![
            put(40),
            Instruction::SetLocal(2),
            Instruction::GetLocal(0),
            Instruction::SetLocal(1),
            Instruction::GetLocal(1),
            Instruction::GetLocal(2),
            Instruction::Add(I32),
        ],
    )]);
    let mut stack = vec![val(2), val(3)];
    assert_eq!(call(&mut module, &mut stack, 0, 1), Ok(()));
    assert_eq!(stack, vec![val(42)]);
}

#[test]
fn locals_belong_to_one_activation() {
    let mut module = module_of(vec![
        declare(
            0,
            1,
            true,
            vec![put(5), Instruction::SetLocal(0), Instruction::Call(1), Instruction::GetLocal(0)],
        ),
        declare(0, 1, false, vec![put(6), Instruction::SetLocal(0)]),
    ]);
    assert_eq!(module.run(0), Ok(Some(ValueType::I32(5))));
    let mut stack: Vec<StackEntry> = Vec::new();
    let mut locals = vec![ValueType::I32(1), ValueType::I32(2)];
    assert_eq!(Instruction::Call(1).execute(&mut stack, &mut module, &mut locals[..], 1), Ok(()));
    assert_eq!(locals, vec![ValueType::I32(1), ValueType::I32(2)]);
}

#[test]
fn get_and_set_local_on_the_given_locals() {
    let mut module = module_of(vec![]);
    let mut stack = vec![val(8)];
    let mut locals = vec![ValueType::I32(1), ValueType::I32(2)];
    assert_eq!(Instruction::GetLocal(1).execute(&mut stack, &mut module, &mut locals[..], 0), Ok(()));
    assert_eq!(stack, vec![val(8), val(2)]);
    assert_eq!(Instruction::SetLocal(0).execute(&mut stack, &mut module, &mut locals[..], 0), Ok(()));
    assert_eq!(stack, vec![val(8)]);
    assert_eq!(locals, vec![ValueType::I32(2), ValueType::I32(2)]);
    for instruction in [Instruction::GetLocal(2), Instruction::SetLocal(2)] {
        assert_eq!(
            instruction.execute(&mut stack, &mut module, &mut locals[..], 0),
            Err(Fault { instruction, kind: FaultKind::Index { index: 2, length: 2 } })
        );
        assert_eq!(stack, vec![val(8)]);
        assert_eq!(locals, vec![ValueType::I32(2), ValueType::I32(2)]);
    }
}

#[test]
fn set_local_looks_at_the_stack_before_the_index() {
    let mut module = module_of(vec![]);
    let mut stack: Vec<StackEntry> = Vec::new();
    let mut locals: Vec<ValueType> = Vec::new();
    assert_eq!(
        Instruction::SetLocal(0).execute(&mut stack, &mut module, &mut locals[..], 0),
        Err(shape_fault(Instruction::SetLocal(0), EntryKind::Value, EntryKind::Nothing))
    );
}

#[test]
fn function_that_returns_must_leave_a_value() {
    let mut module = module_of(vec![declare(0, 0, true, vec![])]);
    assert_eq!(
        module.run(0),
        Err(shape_fault(Instruction::Call(0), EntryKind::Value, EntryKind::Frame))
    );
    let mut module = module_of(vec![declare(1, 0, true, vec![put(1), Instruction::Drop])]);
    let mut stack = vec![val(3), val(4)];
    assert_eq!(
        call(&mut module, &mut stack, 0, 1),
        Err(shape_fault(Instruction::Call(0), EntryKind::Value, EntryKind::Frame))
    );
    assert_eq!(stack, vec![val(3), marker_of(&module, 0)]);
}

#[test]
fn function_that_returns_must_leave_no_more_than_a_value() {
    let mut module = module_of(vec![declare(0, 0, true, vec![put(1), put(2)])]);
    assert_eq!(
        module.run(0),
        Err(shape_fault(Instruction::Call(0), EntryKind::Frame, EntryKind::Value))
    );
    let mut stack = vec![val(3)];
    assert_eq!(
        call(&mut module, &mut stack, 0, 1),
        Err(shape_fault(Instruction::Call(0), EntryKind::Frame, EntryKind::Value))
    );
    assert_eq!(stack, vec![val(3), marker_of(&module, 0), val(1), val(2)]);
}

#[test]
fn function_without_return_type_must_leave_nothing() {
    let mut module = module_of(vec![declare(0, 0, false, vec![put(1)])]);
    assert_eq!(
        module.run(0),
        Err(shape_fault(Instruction::Call(0), EntryKind::Frame, EntryKind::Value))
    );
    let mut module = module_of(vec![declare(0, 0, false, vec![put(1), Instruction::Drop])]);
    assert_eq!(module.run(0), Ok(None));
}

#[test]
fn function_that_leaves_exactly_one_value_returns_it() {
    let mut module = module_of(vec![declare(0, 0, true, vec![put(1), put(2), Instruction::Drop])]);
    assert_eq!(module.run(0), Ok(Some(ValueType::I32(1))));
    let mut stack = vec![val(3)];
    assert_eq!(call(&mut module, &mut stack, 0, 1), Ok(()));
    assert_eq!(stack, vec![val(3), val(1)]);
}

#[test]
fn callee_cannot_reach_beneath_its_marker() {
    let mut module = module_of(vec![declare(0, 0, false, vec![Instruction::Drop])]);
    let mut stack = vec![val(3)];
    assert_eq!(
        call(&mut module, &mut stack, 0, 1),
        Err(shape_fault(Instruction::Drop, EntryKind::Value, EntryKind::Frame))
    );
    assert_eq!(stack, vec![val(3), marker_of(&module, 0)]);
}

#[test]
fn call_needs_as_many_values_as_parameters() {
    let mut module = module_of(vec![declare(2, 0, false, vec![])]);
    for (before, found) in [
        (vec![], EntryKind::Nothing),
        (vec![val(1)], EntryKind::Nothing),
        (vec![marker_of(&module, 0), val(1)], EntryKind::Frame),
    ] {
        let mut stack: Vec<StackEntry> = Vec::new();
        for entry in &before {
            stack.push(match entry {
                StackEntry::Value(value) => StackEntry::Value(*value),
                StackEntry::Function(_) => marker_of(&module, 0),
            });
        }
        assert_eq!(
            call(&mut module, &mut stack, 0, 1),
            Err(shape_fault(Instruction::Call(0), EntryKind::Value, found))
        );
        assert_eq!(stack, before);
    }
    assert_eq!(
        module.run(0),
        Err(shape_fault(Instruction::Call(0), EntryKind::Value, EntryKind::Nothing))
    );
}

#[test]
fn call_of_an_unknown_function_is_an_index_fault() {
    let mut module = module_of(vec![declare(0, 0, false, vec![Instruction::Call(2)])]);
    assert_eq!(
        module.run(1),
        Err(Fault {
            instruction: Instruction::Call(1),
            kind: FaultKind::Index { index: 1, length: 1 },
        })
    );
    assert_eq!(
        module.run(0),
        Err(Fault {
            instruction: Instruction::Call(2),
            kind: FaultKind::Index { index: 2, length: 1 },
        })
    );
    let mut stack = vec![val(1)];
    assert_eq!(
        call(&mut module, &mut stack, usize::MAX, 0),
        Err(Fault {
            instruction: Instruction::Call(usize::MAX),
            kind: FaultKind::Index { index: usize::MAX, length: 1 },
        })
    );
    assert_eq!(stack, vec![val(1)]);
}

#[test]
fn nested_calls_pass_values_down_and_up() {
    let mut module = module_of(vec![
        declare(0, 0, true, vec![put(1), put(2), Instruction::Call(1), put(100), Instruction::Add(I32)]),
        declare(
            2,
            0,
            true,
            vec![
                Instruction::GetLocal(0),
                Instruction::Call(2),
                Instruction::GetLocal(1),
                Instruction::Call(2),
                Instruction::Sub(I32),
            ],
        ),
        declare(1, 0, true, vec![Instruction::GetLocal(0), put(10), Instruction::Add(I32)]),
    ]);
    assert_eq!(module.run(0), Ok(Some(ValueType::I32(99))));
}

#[test]
fn fault_in_a_nested_call_leaves_the_stack_as_it_was_at_the_fault() {
    let mut module = module_of(vec![
        declare(0, 0, false, vec![put(1), put(2), Instruction::Call(1)]),
        declare(1, 0, false, vec![put(3), Instruction::GetLocal(5)]),
    ]);
    let mut stack = vec![val(0)];
    let mut locals = vec![ValueType::I32(8)];
    assert_eq!(
        Instruction::Call(0).execute(&mut stack, &mut module, &mut locals[..], 2),
        Err(Fault {
            instruction: Instruction::GetLocal(5),
            kind: FaultKind::Index { index: 5, length: 1 },
        })
    );
    assert_eq!(
        stack,
        vec![val(0), marker_of(&module, 0), val(1), marker_of(&module, 1), val(3)]
    );
    assert_eq!(locals, vec![ValueType::I32(8)]);
}

#[test]
fn calls_nest_as_deep_as_allowed_and_no_deeper() {
    let mut module = module_of(vec![
        declare(0, 0, true, vec![Instruction::Call(1)]),
        declare(0, 0, true, vec![Instruction::Call(2)]),
        declare(0, 0, true, vec![put(7)]),
    ]);
    let mut stack: Vec<StackEntry> = Vec::new();
    assert_eq!(call(&mut module, &mut stack, 0, 3), Ok(()));
    assert_eq!(stack, vec![val(7)]);
    let mut stack: Vec<StackEntry> = Vec::new();
    assert_eq!(
        call(&mut module, &mut stack, 0, 2),
        Err(Fault { instruction: Instruction::Call(2), kind: FaultKind::Overflow })
    );
    assert_eq!(stack, vec![marker_of(&module, 0), marker_of(&module, 1)]);
    let mut stack: Vec<StackEntry> = Vec::new();
    assert_eq!(
        call(&mut module, &mut stack, 0, 0),
        Err(Fault { instruction: Instruction::Call(0), kind: FaultKind::Overflow })
    );
    assert_eq!(stack, vec![]);
}

#[test]
fn unbounded_recursion_faults_with_overflow() {
    let mut module = module_of(vec![declare(0, 0, false, vec![Instruction::Call(0)])]);
    assert_eq!(
        module.run(0),
        Err(Fault { instruction: Instruction::Call(0), kind: FaultKind::Overflow })
    );
    let mut stack: Vec<StackEntry> = Vec::new();
    assert_eq!(
        call(&mut module, &mut stack, 0, CALL_DEPTH_LIMIT),
        Err(Fault { instruction: Instruction::Call(0), kind: FaultKind::Overflow })
    );
    assert_eq!(stack.len(), CALL_DEPTH_LIMIT);
}

#[test]
fn run_reaches_the_depth_limit_exactly() {
    let mut functions: Vec<FunctionDeclaration> = Vec::new();
    for index in 0..CALL_DEPTH_LIMIT {
        functions.push(declare(0, 0, true, vec![Instruction::Call(index + 1)]));
    }
    functions.pop();
    functions.push(declare(0, 0, true, vec![put(11)]));
    let mut module = module_of(functions);
    assert_eq!(module.run(0), Ok(Some(ValueType::I32(11))));
}

#[test]
fn run_returns_what_the_function_returns() {
    let mut module = module_of(vec![
        declare(0, 0, false, vec![Instruction::Nop]),
        declare(0, 0, true, vec![put(-3)]),
        declare(0, 1, true, vec![Instruction::GetLocal(0)]),
    ]);
    assert_eq!(module.run(0), Ok(None));
    assert_eq!(module.run(1), Ok(Some(ValueType::I32(-3))));
    assert_eq!(module.run(2), Ok(Some(ValueType::I32(0))));
}

#[test]
fn one_declaration_serves_many_activations() {
    let mut module = module_of(vec![
        declare(
            0,
            0,
            true,
            vec![put(1), Instruction::Call(1), Instruction::Call(1), Instruction::Call(1)],
        ),
        declare(1, 0, true, vec![Instruction::GetLocal(0), Instruction::GetLocal(0), Instruction::Add(I32)]),
    ]);
    let declarations = Arc::clone(&module.declaration);
    assert_eq!(module.run(0), Ok(Some(ValueType::I32(8))));
    assert!(Arc::ptr_eq(&declarations, &module.declaration));
    assert_eq!(Arc::strong_count(&declarations.functions[1]), 1);
}

#[test]
fn marker_shares_the_declaration_of_the_module() {
    let mut module = module_of(vec![declare(0, 0, false, vec![Instruction::Drop])]);
    let mut stack: Vec<StackEntry> = Vec::new();
    assert!(call(&mut module, &mut stack, 0, 1).is_err());
    match &stack[0] {
        StackEntry::Function(frame) => {
            assert!(Arc::ptr_eq(&frame.declaration, &module.declaration.functions[0]));
        }
        StackEntry::Value(_) => panic!("the call left no marker"),
    }
}
