//! A small stack machine in the manner of WebAssembly.
//!
//! A module is a table of functions. Each function is a list of
//! instructions that work on one shared stack, on the function's own locals
//! and on a linear memory that grows by pages. Calls leave a marker on the
//! stack, so that a callee can neither reach beneath its own activation nor
//! return with more or less than it declares. Every violation of what an
//! instruction needs is a [`fault::Fault`]: execution stops there and the
//! fault is the result.
//!
//! [`semantics`] says what every instruction means, as mathematical
//! functions on the state of the machine. [`instruction::Instruction::execute`]
//! and [`module::ModuleInstance::run`] compute exactly these functions.
//! [`frames`] and [`laws`] hold what follows for every program.

pub mod fault;
pub mod frames;
pub mod instruction;
pub mod laws;
pub mod memory;
pub mod module;
pub mod semantics;
pub mod value;

pub use fault::{EntryKind, Fault, FaultKind};
pub use instruction::Instruction;
pub use memory::{LinearMemory, PAGE_SIZE};
pub use module::{
    FunctionDeclaration, FunctionFrame, ModuleDeclaration, ModuleInstance, Stack, StackEntry,
    CALL_DEPTH_LIMIT,
};
pub use value::{TypeDeclaration, ValueType};
