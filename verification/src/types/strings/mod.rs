pub mod ascii;
