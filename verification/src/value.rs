//! Values and their types.

use vstd::prelude::*;

verus! {

/// The declared type of a value, a parameter or a local variable.
///
/// Only 32-bit signed integers exist today. Every typed operation already
/// carries its tag, so that further numeric types can be added as new
/// variants and new match arms without touching any signature.
#[derive(Debug, Clone, Copy, PartialEq, Eq)]
pub enum TypeDeclaration {
    I32,
}

/// A runtime value together with its type tag. Values are small and are
/// always copied, never shared.
#[derive(Debug, Clone, Copy, PartialEq, Eq)]
pub enum ValueType {
    I32(i32),
}

impl TypeDeclaration {
    /// The value that a declared local of this type starts with.
    pub open spec fn spec_default_value(&self) -> ValueType {
        match self {
            TypeDeclaration::I32 => ValueType::I32(0),
        }
    }

    /// The number of bytes that a value of this type occupies in linear memory.
    pub open spec fn spec_size(&self) -> nat {
        match self {
            TypeDeclaration::I32 => 4,
        }
    }

    /// Returns the zero value of this type.
    #[verifier::when_used_as_spec(spec_default_value)]
    pub fn default_value(&self) -> (value: ValueType)
        ensures
            value == self.spec_default_value(),
    {
        match self {
            TypeDeclaration::I32 => ValueType::I32(0),
        }
    }

    /// Returns the number of bytes that a value of this type occupies in
    /// linear memory.
    pub fn size(&self) -> (bytes: usize)
        ensures
            bytes == self.spec_size(),
    {
        broadcast use vstd::layout::layout_of_primitives;

        match self {
            TypeDeclaration::I32 => core::mem::size_of::<i32>(),
        }
    }
}

} // verus!
