//! The ways in which an operation on a container can fail.

use vstd::prelude::*;

verus! {

/// Why an operation refused its operands.
#[derive(Debug, Clone, Copy, PartialEq, Eq)]
pub enum MlError {
    /// The dimensions of the operands do not fit the operation, or a buffer
    /// does not have the length that its dimensions ask for.
    ShapeMismatch,
    /// A coordinate lies outside the dimensions of the container.
    IndexOutOfRange,
}

impl MlError {
    /// A one-line description for diagnostics.
    pub fn message(&self) -> (text: String)
        ensures
            text@ == (match *self {
                MlError::ShapeMismatch => "shape mismatch"@,
                MlError::IndexOutOfRange => "index out of range"@,
            }),
    {
        match self {
            MlError::ShapeMismatch => "shape mismatch".to_owned(),
            MlError::IndexOutOfRange => "index out of range".to_owned(),
        }
    }
}

} // verus!
