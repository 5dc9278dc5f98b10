use std::sync::Arc;

use stackvm::{
    EntryKind, Fault, FaultKind, FunctionDeclaration, Instruction, LinearMemory,
    ModuleDeclaration, ModuleInstance, StackEntry, TypeDeclaration, ValueType,
};

const I32: TypeDeclaration = TypeDeclaration::I32;

fn scenario_instance(functions: Vec<FunctionDeclaration>) -> ModuleInstance {
    ModuleInstance {
        memory: LinearMemory::new(),
        declaration: Arc::new(ModuleDeclaration {
            functions: functions.into_iter().map(Arc::new).collect(),
        }),
    }
}

fn scenario_constant(v: i32) -> Instruction {
    Instruction::Const(ValueType::I32(v))
}

fn scenario_value(v: i32) -> StackEntry {
    StackEntry::Value(ValueType::I32(v))
}

fn adder() -> FunctionDeclaration {
    FunctionDeclaration {
        parameters: vec![I32, I32],
        locals: vec![],
        return_value: Some(I32),
        instructions: vec![
            Instruction::GetLocal(0),
            Instruction::GetLocal(1),
            Instruction::Add(I32),
        ],
        label: Some("hoge".to_owned()),
    }
}

fn entry(instructions: Vec<Instruction>) -> FunctionDeclaration {
    FunctionDeclaration {
        parameters: vec![],
        locals: vec![],
        return_value: None,
        instructions,
        label: Some("main".to_owned()),
    }
}

/// The whole demonstration program: arithmetic, a call with two arguments,
/// growth of the memory, and a store followed by a load.
#[test]
fn demonstration_program_runs_without_fault() {
    let mut module = scenario_instance(vec![
        entry(vec![
            Instruction::Nop,
            scenario_constant(32),
            scenario_constant(23),
            Instruction::Add(I32),
            scenario_constant(42),
            Instruction::Sub(I32),
            scenario_constant(13),
            Instruction::Eq(I32),
            scenario_constant(23),
            Instruction::Call(1),
            Instruction::Drop,
            scenario_constant(1),
            Instruction::MemoryGrow,
            Instruction::MemorySize,
            Instruction::Drop,
            scenario_constant(0),
            scenario_constant(500),
            Instruction::Store(I32),
            scenario_constant(0),
            Instruction::Load(I32),
            Instruction::Drop,
        ]),
        adder(),
    ]);
    assert_eq!(module.run(0), Ok(None));
    assert_eq!(module.memory.size(), 1);
    assert_eq!(module.memory.load(I32, 0), Ok(ValueType::I32(500)));
}

/// Arithmetic, comparison and a call whose two arguments are the result of
/// the comparison and a constant: every intermediate stack is as expected
/// and the stack is empty at the end.
#[test]
fn arithmetic_then_call_step_by_step() {
    let mut module = scenario_instance(vec![entry(vec![]), adder()]);
    let mut stack: Vec<StackEntry> = Vec::new();
    let mut locals: Vec<ValueType> = Vec::new();
    let steps: Vec<(Instruction, Vec<StackEntry>)> = vec![
        (scenario_constant(32), vec![scenario_value(32)]),
        (scenario_constant(23), vec![scenario_value(32), scenario_value(23)]),
        (Instruction::Add(I32), vec![scenario_value(55)]),
        (scenario_constant(42), vec![scenario_value(55), scenario_value(42)]),
        (Instruction::Sub(I32), vec![scenario_value(13)]),
        (scenario_constant(13), vec![scenario_value(13), scenario_value(13)]),
        (Instruction::Eq(I32), vec![scenario_value(1)]),
        (scenario_constant(23), vec![scenario_value(1), scenario_value(23)]),
        (Instruction::Call(1), vec![scenario_value(24)]),
        (Instruction::Drop, vec![]),
    ];
    for (instruction, expected) in steps {
        assert_eq!(instruction.execute(&mut stack, &mut module, &mut locals[..], 8), Ok(()));
        assert_eq!(stack, expected);
    }
}

/// The same program with the result of the comparison dropped before the
/// call: the callee declares two parameters and finds one value above the
/// caller's marker, so the call faults and nothing is taken off the stack.
#[test]
fn call_after_drop_lacks_an_argument() {
    let mut module = scenario_instance(vec![
        entry(vec![
            scenario_constant(32),
            scenario_constant(23),
            Instruction::Add(I32),
            scenario_constant(42),
            Instruction::Sub(I32),
            scenario_constant(13),
            Instruction::Eq(I32),
            Instruction::Drop,
            scenario_constant(23),
            Instruction::Call(1),
            Instruction::Drop,
        ]),
        adder(),
    ]);
    assert_eq!(
        module.run(0),
        Err(Fault {
            instruction: Instruction::Call(1),
            kind: FaultKind::StackShape { expected: EntryKind::Value, found: EntryKind::Frame },
        })
    );
}

/// With a value beneath the argument, the call of the program above goes
/// through and the run ends with an empty stack.
#[test]
fn call_with_both_arguments_returns_their_sum() {
    let mut module = scenario_instance(vec![
        entry(vec![
            scenario_constant(32),
            scenario_constant(23),
            Instruction::Add(I32),
            scenario_constant(42),
            Instruction::Sub(I32),
            scenario_constant(13),
            Instruction::Eq(I32),
            scenario_constant(23),
            Instruction::Call(1),
            Instruction::Drop,
        ]),
        adder(),
    ]);
    assert_eq!(module.run(0), Ok(None));
}

/// Grow by one page, store 500 at address 0, load address 0.
#[test]
fn grow_store_load_yields_what_was_stored() {
    let mut module = scenario_instance(vec![FunctionDeclaration {
        parameters: vec![],
        locals: vec![],
        return_value: Some(I32),
        instructions: vec![
            scenario_constant(1),
            Instruction::MemoryGrow,
            scenario_constant(0),
            scenario_constant(500),
            Instruction::Store(I32),
            scenario_constant(0),
            Instruction::Load(I32),
        ],
        label: None,
    }]);
    assert_eq!(module.run(0), Ok(Some(ValueType::I32(500))));
}

/// The memory of an instance outlives a run: what one run stored, the next
/// one loads.
#[test]
fn memory_persists_between_runs() {
    let mut module = scenario_instance(vec![
        entry(vec![
            scenario_constant(2),
            Instruction::MemoryGrow,
            scenario_constant(65534),
            scenario_constant(-7),
            Instruction::Store(I32),
        ]),
        FunctionDeclaration {
            parameters: vec![],
            locals: vec![],
            return_value: Some(I32),
            instructions: vec![scenario_constant(65534), Instruction::Load(I32)],
            label: None,
        },
        FunctionDeclaration {
            parameters: vec![],
            locals: vec![],
            return_value: Some(I32),
            instructions: vec![Instruction::MemorySize],
            label: None,
        },
    ]);
    assert_eq!(module.run(1).map_err(|fault| fault.kind), Err(FaultKind::Bounds { address: 65534, length: 0 }));
    assert_eq!(module.run(0), Ok(None));
    assert_eq!(module.run(1), Ok(Some(ValueType::I32(-7))));
    assert_eq!(module.run(2), Ok(Some(ValueType::I32(2))));
    assert_eq!(module.run(0), Ok(None));
    assert_eq!(module.run(2), Ok(Some(ValueType::I32(4))));
    assert_eq!(module.run(1), Ok(Some(ValueType::I32(-7))));
}
