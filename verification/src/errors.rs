//! Error catalog shared by indicators, strategies and the output system.

use vstd::prelude::*;

verus! {

use crate::output::OutputShape;

/// The library's main error type.
#[derive(Debug)]
pub enum TaUtilsError {
    /// A parameter outside its allowed range.
    InvalidParameter(String),
    /// An operation that is not allowed, such as modifying an immutable
    /// reference.
    Unallowed(String),
    /// An unexpected internal failure.
    Unexpected(String),
    /// An output value of the wrong kind was produced or requested.
    IncorrectOutputType { expected: String, actual: String },
    /// A failure reported by an embedding language layer.
    Lang(String),
    /// A failure of the output comparison or shape machinery.
    Cmp(OutputError),
}

/// Errors of the output shape machinery.
#[derive(Debug, PartialEq)]
pub enum OutputError {
    /// Two outputs of incompatible kinds were combined.
    TypeMismatch,
    /// Two sequences of different lengths were combined.
    LengthMismatch(usize, usize),
    /// A shape that does not validate: an empty size or an empty tensor.
    InvalidOutputShape(OutputShape),
}

pub type TaUtilsResult<T> = Result<T, TaUtilsError>;

/// Equality of errors: two errors are equal when they are the same variant
/// with the same message. `Lang` and `Cmp` errors never compare equal, not
/// even to themselves.
pub open spec fn spec_err_eq(a: TaUtilsError, b: TaUtilsError) -> bool {
    match (a, b) {
        (TaUtilsError::InvalidParameter(x), TaUtilsError::InvalidParameter(y)) => x@ == y@,
        (TaUtilsError::Unallowed(x), TaUtilsError::Unallowed(y)) => x@ == y@,
        (TaUtilsError::Unexpected(x), TaUtilsError::Unexpected(y)) => x@ == y@,
        (
            TaUtilsError::IncorrectOutputType { expected: e1, actual: a1 },
            TaUtilsError::IncorrectOutputType { expected: e2, actual: a2 },
        ) => e1@ == e2@ && a1@ == a2@,
        _ => false,
    }
}

impl PartialEq for TaUtilsError {
    fn eq(&self, other: &Self) -> (r: bool) {
        match (self, other) {
            (TaUtilsError::InvalidParameter(x), TaUtilsError::InvalidParameter(y)) => *x == *y,
            (TaUtilsError::Unallowed(x), TaUtilsError::Unallowed(y)) => *x == *y,
            (TaUtilsError::Unexpected(x), TaUtilsError::Unexpected(y)) => *x == *y,
            (
                TaUtilsError::IncorrectOutputType { expected: e1, actual: a1 },
                TaUtilsError::IncorrectOutputType { expected: e2, actual: a2 },
            ) => *e1 == *e2 && *a1 == *a2,
            _ => false,
        }
    }
}

impl vstd::std_specs::cmp::PartialEqSpecImpl for TaUtilsError {
    open spec fn obeys_eq_spec() -> bool {
        true
    }

    open spec fn eq_spec(&self, other: &Self) -> bool {
        spec_err_eq(*self, *other)
    }
}

} // verus!
