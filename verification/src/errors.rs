//! The error type shared by every fallible operation of the library.

use vstd::prelude::*;

verus! {

/// Errors returned by Sangria.
#[derive(Clone, Copy, Debug, PartialEq, Eq, Structural)]
pub enum SangriaError {
    /// A selector, column, row or commitment index is not a valid position,
    /// or two operands do not have the shape the operation needs.
    IndexOutOfBounds,
}

impl SangriaError {
    /// The human-readable description of the error.
    pub fn message(&self) -> (text: String)
        ensures
            text@ == "Index is out of bounds"@,
    {
        match self {
            SangriaError::IndexOutOfBounds => "Index is out of bounds".to_string(),
        }
    }
}

} // verus!
