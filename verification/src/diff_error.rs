//! Error values of the diff and apply engines.

use vstd::prelude::*;

verus! {

/// Error produced while diffing two reflected values.
///
/// The `Expected` family reports that the new value's shape does not match
/// the old value's; `MissingField` that a struct field of the old value has
/// no counterpart in the new one; `Incomparable` that the values cannot be
/// compared because a leaf without equality support was reached.
#[derive(Debug, PartialEq, Eq, Structural, Clone, Copy)]
pub enum DiffError {
    ExpectedTuple,
    ExpectedArray,
    ExpectedList,
    ExpectedMap,
    ExpectedTupleStruct,
    ExpectedStruct,
    ExpectedEnum,
    MissingField,
    Incomparable,
}

/// Error produced while applying a diff to a base value.
#[derive(Debug)]
pub enum DiffApplyError {
    ExpectedValue,
    ExpectedTuple,
    ExpectedArray,
    ExpectedList,
    ExpectedMap,
    ExpectedTupleStruct,
    ExpectedStruct,
    ExpectedEnum,
    ExpectedTupleVariant,
    ExpectedStructVariant,
    MissingField,
    TypeMismatch,
    Failed(String),
}

impl DiffError {
    /// A human-readable description of this error.
    pub fn message(&self) -> &str {
        match self {
            DiffError::ExpectedTuple => "expected tuple, but found a different reflect value",
            DiffError::ExpectedArray => "expected array, but found a different reflect value",
            DiffError::ExpectedList => "expected list, but found a different reflect value",
            DiffError::ExpectedMap => "expected map, but found a different reflect value",
            DiffError::ExpectedTupleStruct => "expected tuple struct, but found a different reflect value",
            DiffError::ExpectedStruct => "expected struct, but found a different reflect value",
            DiffError::ExpectedEnum => "expected enum, but found a different reflect value",
            DiffError::MissingField => "expected a required field",
            DiffError::Incomparable => "the given values cannot be compared",
        }
    }
}

impl DiffApplyError {
    /// A human-readable description of this error.
    pub fn message(&self) -> &str {
        match self {
            DiffApplyError::ExpectedValue => "expected value, but found a different reflect value",
            DiffApplyError::ExpectedTuple => "expected tuple, but found a different reflect value",
            DiffApplyError::ExpectedArray => "expected array, but found a different reflect value",
            DiffApplyError::ExpectedList => "expected list, but found a different reflect value",
            DiffApplyError::ExpectedMap => "expected map, but found a different reflect value",
            DiffApplyError::ExpectedTupleStruct => "expected tuple struct, but found a different reflect value",
            DiffApplyError::ExpectedStruct => "expected struct, but found a different reflect value",
            DiffApplyError::ExpectedEnum => "expected enum, but found a different reflect value",
            DiffApplyError::ExpectedTupleVariant => "expected tuple variant, but found a different variant type",
            DiffApplyError::ExpectedStructVariant => "expected struct variant, but found a different variant type",
            DiffApplyError::MissingField => "expected a required field",
            DiffApplyError::TypeMismatch => "received a mismatched type",
            DiffApplyError::Failed(_) => "failed to apply diff",
        }
    }
}

} // verus!
