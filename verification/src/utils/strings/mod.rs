pub mod utf8;
