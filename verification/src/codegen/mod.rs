pub mod common;
pub mod enum_from;
pub mod fields;
pub mod generics;
pub mod impls;
pub mod laws;
pub mod model;
pub mod struct_shared;
pub mod tokens;
pub mod validate;
