pub mod hex;
pub mod numerics;
pub mod strings;
pub mod text;
