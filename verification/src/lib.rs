//! Byte-level serialization and deserialization of numerics, strings and
//! ascii types into fixed-capacity stack buffers and growable heap buffers,
//! and the decisions behind the code that its derive macros generate.
use vstd::prelude::*;

pub mod buffers;
pub mod codegen;
pub mod des_bytes;
pub mod des_slice;
pub mod error;
pub mod prelude;
pub mod ser_heap;
pub mod ser_stack;
pub mod size;
pub mod types;
pub mod utils;

verus! {

} // verus!
