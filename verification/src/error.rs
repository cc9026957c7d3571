//! Errors that the array operations report.

use vstd::prelude::*;

verus! {

/// The operation whose index was out of bound.
#[derive(Clone, Copy, Debug, PartialEq, Eq, Structural)]
pub enum ArrayOp {
    Get,
    Insert,
    Remove,
}

/// An error of an array operation.
#[derive(Clone, Copy, Debug, PartialEq, Eq, Structural)]
pub enum Error {
    /// The index lies outside the array (an index error).
    IndexOutOfBound { op: ArrayOp },
    /// The slot does not hold an object (a type error); `found` is its type index.
    ExpectedStaticObject { found: i32 },
    /// The value does not convert to an array of the element type (a type
    /// error); `found` is its type index.
    CannotConvert { found: i32 },
}

impl Error {
    /// Whether this is an index error (as opposed to a type error).
    pub fn is_index_error(&self) -> (r: bool)
        ensures
            r <==> (*self is IndexOutOfBound),
    {
        match self {
            Error::IndexOutOfBound { .. } => true,
            Error::ExpectedStaticObject { .. } => false,
            Error::CannotConvert { .. } => false,
        }
    }
}

} // verus!
