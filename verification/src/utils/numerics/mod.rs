pub mod be_bytes;
pub mod digits;
pub mod le_bytes;
pub mod ne_bytes;
pub mod width;
