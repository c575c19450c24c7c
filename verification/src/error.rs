//! The error type of every fallible operation of the library.
use vstd::prelude::*;

verus! {

/// A failed serialization or deserialization, with a message that says why.
#[derive(Debug)]
pub struct SerDesError {
    pub message: String,
}

/// The result of a serialization or deserialization step.
pub type Result<T> = core::result::Result<T, SerDesError>;

} // verus!
