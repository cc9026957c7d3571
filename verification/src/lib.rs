//! A reference-counted, copy-on-write array of object references, with the
//! type-index checks that govern how its slots are read back.

pub mod type_index;
pub mod error;
pub mod any;
pub mod array;
pub mod laws;

pub use any::{AnyCell, AnyCompatible, AnyValue, ObjectRef, ObjectRefCore};
pub use array::{Array, ArrayIterator, ArrayObj};
pub use error::{ArrayOp, Error};
