//! little-endian byte images of fixed-width numerics.
use vstd::prelude::*;
use super::digits::{le_digits, le_value, le_encode, le_decode, lemma_le_value_bound, lemma_le_value_of_digits, lemma_le_digits_of_value, pow256};
use super::width::FixedWidth;

verus! {

/// Numerics that can be written as `N` bytes, least significant byte first.
pub trait ToLeBytes<const N: usize>: FixedWidth<N> {
    /// The little-endian bytes of the value.
    fn to_bytes(&self) -> (r: [u8; N])
        ensures
            r@ == le_digits((*self).bits(), N as nat),
    ;
}

impl<const N: usize, T: FixedWidth<N>> ToLeBytes<N> for T {
    fn to_bytes(&self) -> (r: [u8; N]) {
        le_encode::<N>(self.to_bits())
    }
}

/// Numerics that can be read back from `N` little-endian bytes.
pub trait FromLeBytes<const N: usize, T: FixedWidth<N>> {
    /// The value whose little-endian bytes are `v`.
    fn from_bytes(v: [u8; N]) -> (r: T)
        ensures
            r == T::from_bits(le_value(v@)),
    ;

    /// The value whose little-endian bytes are `*v`.
    fn from_bytes_ref(v: &[u8; N]) -> (r: T)
        ensures
            r == T::from_bits(le_value(v@)),
    ;
}

impl<const N: usize, T: FixedWidth<N>> FromLeBytes<N, T> for T {
    fn from_bytes(v: [u8; N]) -> (r: T) {
        Self::from_bytes_ref(&v)
    }

    fn from_bytes_ref(v: &[u8; N]) -> (r: T) {
        proof {
            T::lemma_width();
            lemma_le_value_bound(v@);
        }
        T::of_bits(le_decode(v.as_slice()))
    }
}

/// Reading back the little-endian bytes of a numeric gives the numeric,
/// whatever bytes follow them.
pub proof fn law_le_bytes_roundtrip<const N: usize, T: FixedWidth<N>>(x: T, rest: Seq<u8>)
    ensures
        le_digits(x.bits(), N as nat).len() == N,
        T::from_bits(le_value((le_digits(x.bits(), N as nat) + rest).take(N as int))) == x,
{
    x.lemma_bits();
    lemma_le_value_of_digits(x.bits(), N as nat);
    assert((le_digits(x.bits(), N as nat) + rest).take(N as int) =~= le_digits(x.bits(), N as nat));
    assert(x.bits() % pow256(N as nat) == x.bits()) by {
        vstd::arithmetic::div_mod::lemma_small_mod(x.bits(), pow256(N as nat));
    }
}

/// Writing the little-endian bytes of the numeric that `N` bytes denote gives
/// back those bytes, when that numeric exists on the target.
pub proof fn law_le_bytes_reread<const N: usize, T: FixedWidth<N>>(b: Seq<u8>)
    requires
        b.len() == N,
        T::from_bits(le_value(b)).bits() == le_value(b),
    ensures
        le_digits(T::from_bits(le_value(b)).bits(), N as nat) == b,
{
    lemma_le_digits_of_value(b);
}

} // verus!
