//! Fixed-width integers seen as unsigned base-256 numbers of `N` digits.
use vstd::prelude::*;
use super::digits::{pow256, lemma_pow256_widths};

verus! {

/// A numeric type that occupies exactly `N` bytes. Its value is modeled by
/// its bits read as an unsigned number below `256^N` (two's complement for
/// signed types).
pub trait FixedWidth<const N: usize>: Sized {
    /// The bits of the value read as an unsigned number.
    spec fn bits(self) -> nat;

    /// The value whose bits, read as an unsigned number, are `b`.
    spec fn from_bits(b: nat) -> Self;

    /// The bits fit in `N` bytes and determine the value.
    proof fn lemma_bits(self)
        ensures
            self.bits() < pow256(N as nat),
            Self::from_bits(self.bits()) == self,
    ;

    /// Every fixed width is between one and sixteen bytes.
    proof fn lemma_width()
        ensures
            1 <= N <= 16,
    ;

    /// The bits of the value.
    fn to_bits(&self) -> (r: u128)
        ensures
            r as nat == self.bits(),
    ;

    /// The value with the given bits.
    fn of_bits(b: u128) -> (r: Self)
        requires
            (b as nat) < pow256(N as nat),
        ensures
            r == Self::from_bits(b as nat),
    ;
}

impl FixedWidth<1> for u8 {
    open spec fn bits(self) -> nat {
        self as nat
    }

    open spec fn from_bits(b: nat) -> u8 {
        b as u8
    }

    proof fn lemma_bits(self) {
        lemma_pow256_widths();
    }

    proof fn lemma_width() {
    }

    fn to_bits(&self) -> (r: u128) {
        *self as u128
    }

    fn of_bits(b: u128) -> (r: u8) {
        proof {
            lemma_pow256_widths();
        }
        b as u8
    }
}

impl FixedWidth<1> for i8 {
    open spec fn bits(self) -> nat {
        if self < 0 {
            (self + 0x100) as nat
        } else {
            self as nat
        }
    }

    open spec fn from_bits(b: nat) -> i8 {
        if b >= 0x80 {
            (b - 0x100) as i8
        } else {
            b as i8
        }
    }

    proof fn lemma_bits(self) {
        lemma_pow256_widths();
    }

    proof fn lemma_width() {
    }

    fn to_bits(&self) -> (r: u128) {
        if *self < 0 {
            (*self as i16 + 0x100) as u128
        } else {
            *self as u128
        }
    }

    fn of_bits(b: u128) -> (r: i8) {
        proof {
            lemma_pow256_widths();
        }
        if b >= 0x80 {
            (b as i16 - 0x100) as i8
        } else {
            b as i8
        }
    }
}

impl FixedWidth<2> for u16 {
    open spec fn bits(self) -> nat {
        self as nat
    }

    open spec fn from_bits(b: nat) -> u16 {
        b as u16
    }

    proof fn lemma_bits(self) {
        lemma_pow256_widths();
    }

    proof fn lemma_width() {
    }

    fn to_bits(&self) -> (r: u128) {
        *self as u128
    }

    fn of_bits(b: u128) -> (r: u16) {
        proof {
            lemma_pow256_widths();
        }
        b as u16
    }
}

impl FixedWidth<2> for i16 {
    open spec fn bits(self) -> nat {
        if self < 0 {
            (self + 0x1_0000) as nat
        } else {
            self as nat
        }
    }

    open spec fn from_bits(b: nat) -> i16 {
        if b >= 0x8000 {
            (b - 0x1_0000) as i16
        } else {
            b as i16
        }
    }

    proof fn lemma_bits(self) {
        lemma_pow256_widths();
    }

    proof fn lemma_width() {
    }

    fn to_bits(&self) -> (r: u128) {
        if *self < 0 {
            (*self as i32 + 0x1_0000) as u128
        } else {
            *self as u128
        }
    }

    fn of_bits(b: u128) -> (r: i16) {
        proof {
            lemma_pow256_widths();
        }
        if b >= 0x8000 {
            (b as i32 - 0x1_0000) as i16
        } else {
            b as i16
        }
    }
}

impl FixedWidth<4> for u32 {
    open spec fn bits(self) -> nat {
        self as nat
    }

    open spec fn from_bits(b: nat) -> u32 {
        b as u32
    }

    proof fn lemma_bits(self) {
        lemma_pow256_widths();
    }

    proof fn lemma_width() {
    }

    fn to_bits(&self) -> (r: u128) {
        *self as u128
    }

    fn of_bits(b: u128) -> (r: u32) {
        proof {
            lemma_pow256_widths();
        }
        b as u32
    }
}

impl FixedWidth<4> for i32 {
    open spec fn bits(self) -> nat {
        if self < 0 {
            (self + 0x1_0000_0000) as nat
        } else {
            self as nat
        }
    }

    open spec fn from_bits(b: nat) -> i32 {
        if b >= 0x8000_0000 {
            (b - 0x1_0000_0000) as i32
        } else {
            b as i32
        }
    }

    proof fn lemma_bits(self) {
        lemma_pow256_widths();
    }

    proof fn lemma_width() {
    }

    fn to_bits(&self) -> (r: u128) {
        if *self < 0 {
            (*self as i64 + 0x1_0000_0000) as u128
        } else {
            *self as u128
        }
    }

    fn of_bits(b: u128) -> (r: i32) {
        proof {
            lemma_pow256_widths();
        }
        if b >= 0x8000_0000 {
            (b as i64 - 0x1_0000_0000) as i32
        } else {
            b as i32
        }
    }
}

impl FixedWidth<8> for u64 {
    open spec fn bits(self) -> nat {
        self as nat
    }

    open spec fn from_bits(b: nat) -> u64 {
        b as u64
    }

    proof fn lemma_bits(self) {
        lemma_pow256_widths();
    }

    proof fn lemma_width() {
    }

    fn to_bits(&self) -> (r: u128) {
        *self as u128
    }

    fn of_bits(b: u128) -> (r: u64) {
        proof {
            lemma_pow256_widths();
        }
        b as u64
    }
}

impl FixedWidth<8> for i64 {
    open spec fn bits(self) -> nat {
        if self < 0 {
            (self + 0x1_0000_0000_0000_0000) as nat
        } else {
            self as nat
        }
    }

    open spec fn from_bits(b: nat) -> i64 {
        if b >= 0x8000_0000_0000_0000 {
            (b - 0x1_0000_0000_0000_0000) as i64
        } else {
            b as i64
        }
    }

    proof fn lemma_bits(self) {
        lemma_pow256_widths();
    }

    proof fn lemma_width() {
    }

    fn to_bits(&self) -> (r: u128) {
        if *self < 0 {
            (*self as i128 + 0x1_0000_0000_0000_0000) as u128
        } else {
            *self as u128
        }
    }

    fn of_bits(b: u128) -> (r: i64) {
        proof {
            lemma_pow256_widths();
        }
        if b >= 0x8000_0000_0000_0000 {
            (b as i128 - 0x1_0000_0000_0000_0000) as i64
        } else {
            b as i64
        }
    }
}

impl FixedWidth<16> for u128 {
    open spec fn bits(self) -> nat {
        self as nat
    }

    open spec fn from_bits(b: nat) -> u128 {
        b as u128
    }

    proof fn lemma_bits(self) {
        lemma_pow256_widths();
    }

    proof fn lemma_width() {
    }

    fn to_bits(&self) -> (r: u128) {
        *self
    }

    fn of_bits(b: u128) -> (r: u128) {
        b
    }
}

impl FixedWidth<16> for i128 {
    open spec fn bits(self) -> nat {
        if self < 0 {
            (self + 0x1_0000_0000_0000_0000_0000_0000_0000_0000) as nat
        } else {
            self as nat
        }
    }

    open spec fn from_bits(b: nat) -> i128 {
        if b >= 0x8000_0000_0000_0000_0000_0000_0000_0000 {
            (b - 0x1_0000_0000_0000_0000_0000_0000_0000_0000) as i128
        } else {
            b as i128
        }
    }

    proof fn lemma_bits(self) {
        lemma_pow256_widths();
    }

    proof fn lemma_width() {
    }

    fn to_bits(&self) -> (r: u128) {
        if *self < 0 {
            (*self - i128::MIN) as u128 + 0x8000_0000_0000_0000_0000_0000_0000_0000
        } else {
            *self as u128
        }
    }

    fn of_bits(b: u128) -> (r: i128) {
        proof {
            lemma_pow256_widths();
        }
        if b >= 0x8000_0000_0000_0000_0000_0000_0000_0000 {
            (b - 0x8000_0000_0000_0000_0000_0000_0000_0000) as i128 + i128::MIN
        } else {
            b as i128
        }
    }
}

/// `usize` is laid out in eight bytes, the width of a pointer on 64-bit targets.
impl FixedWidth<8> for usize {
    open spec fn bits(self) -> nat {
        self as nat
    }

    open spec fn from_bits(b: nat) -> usize {
        b as usize
    }

    proof fn lemma_bits(self) {
        lemma_pow256_widths();
    }

    proof fn lemma_width() {
    }

    fn to_bits(&self) -> (r: u128) {
        *self as u128
    }

    fn of_bits(b: u128) -> (r: usize) {
        b as usize
    }
}

/// `isize` is laid out in eight bytes, the width of a pointer on 64-bit targets.
impl FixedWidth<8> for isize {
    open spec fn bits(self) -> nat {
        if self < 0 {
            (self + 0x1_0000_0000_0000_0000) as nat
        } else {
            self as nat
        }
    }

    open spec fn from_bits(b: nat) -> isize {
        if b >= 0x8000_0000_0000_0000 {
            (b - 0x1_0000_0000_0000_0000) as isize
        } else {
            b as isize
        }
    }

    proof fn lemma_bits(self) {
        lemma_pow256_widths();
    }

    proof fn lemma_width() {
    }

    fn to_bits(&self) -> (r: u128) {
        if *self < 0 {
            (*self as i128 + 0x1_0000_0000_0000_0000) as u128
        } else {
            *self as u128
        }
    }

    fn of_bits(b: u128) -> (r: isize) {
        proof {
            lemma_pow256_widths();
        }
        if b >= 0x8000_0000_0000_0000 {
            (b as i128 - 0x1_0000_0000_0000_0000) as isize
        } else {
            b as isize
        }
    }
}

} // verus!
