//! Errors surfaced to the host by the execution engine.

use vstd::prelude::*;

verus! {

/// An error that ends the current script execution.
///
/// - `Reference`: a name lookup failed with no enclosing binding.
/// - `Type`: an operand kind mismatch in a call, a construction, arithmetic
///   or member access.
/// - `Unimplemented`: an operator combination the engine does not model.
/// - `General`: an internal invariant violation, such as a local lookup by a
///   missing name or ill-formed bytecode.
#[derive(Debug)]
pub enum RuntimeError {
    Reference(String),
    Type(String),
    Unimplemented,
    General(String),
}

impl RuntimeError {
    /// True of the reference-error variant.
    pub fn is_reference(&self) -> (r: bool)
        ensures
            r == (self matches RuntimeError::Reference(_)),
    {
        match self {
            RuntimeError::Reference(_) => true,
            _ => false,
        }
    }

    /// True of the type-error variant.
    pub fn is_type(&self) -> (r: bool)
        ensures
            r == (self matches RuntimeError::Type(_)),
    {
        match self {
            RuntimeError::Type(_) => true,
            _ => false,
        }
    }

    /// True of the unimplemented variant.
    pub fn is_unimplemented(&self) -> (r: bool)
        ensures
            r == (self matches RuntimeError::Unimplemented),
    {
        match self {
            RuntimeError::Unimplemented => true,
            _ => false,
        }
    }

    /// True of the general variant.
    pub fn is_general(&self) -> (r: bool)
        ensures
            r == (self matches RuntimeError::General(_)),
    {
        match self {
            RuntimeError::General(_) => true,
            _ => false,
        }
    }
}

} // verus!
