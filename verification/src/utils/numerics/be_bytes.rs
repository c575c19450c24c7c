//! big-endian byte images of fixed-width numerics.
use vstd::prelude::*;
use super::digits::{be_digits, be_value, be_encode, be_decode, lemma_be_value_bound, lemma_be_value_of_digits, lemma_be_digits_of_value, pow256};
use super::width::FixedWidth;

verus! {

/// Numerics that can be written as `N` bytes, most significant byte first.
pub trait ToBeBytes<const N: usize>: FixedWidth<N> {
    /// The big-endian bytes of the value.
    fn to_bytes(&self) -> (r: [u8; N])
        ensures
            r@ == be_digits((*self).bits(), N as nat),
    ;
}

impl<const N: usize, T: FixedWidth<N>> ToBeBytes<N> for T {
    fn to_bytes(&self) -> (r: [u8; N]) {
        be_encode::<N>(self.to_bits())
    }
}

/// Numerics that can be read back from `N` big-endian bytes.
pub trait FromBeBytes<const N: usize, T: FixedWidth<N>> {
    /// The value whose big-endian bytes are `v`.
    fn from_bytes(v: [u8; N]) -> (r: T)
        ensures
            r == T::from_bits(be_value(v@)),
    ;

    /// The value whose big-endian bytes are `*v`.
    fn from_bytes_ref(v: &[u8; N]) -> (r: T)
        ensures
            r == T::from_bits(be_value(v@)),
    ;
}

impl<const N: usize, T: FixedWidth<N>> FromBeBytes<N, T> for T {
    fn from_bytes(v: [u8; N]) -> (r: T) {
        Self::from_bytes_ref(&v)
    }

    fn from_bytes_ref(v: &[u8; N]) -> (r: T) {
        proof {
            T::lemma_width();
            lemma_be_value_bound(v@);
        }
        T::of_bits(be_decode(v.as_slice()))
    }
}

/// Reading back the big-endian bytes of a numeric gives the numeric, whatever
/// bytes follow them.
pub proof fn law_be_bytes_roundtrip<const N: usize, T: FixedWidth<N>>(x: T, rest: Seq<u8>)
    ensures
        be_digits(x.bits(), N as nat).len() == N,
        T::from_bits(be_value((be_digits(x.bits(), N as nat) + rest).take(N as int))) == x,
{
    x.lemma_bits();
    lemma_be_value_of_digits(x.bits(), N as nat);
    assert((be_digits(x.bits(), N as nat) + rest).take(N as int) =~= be_digits(x.bits(), N as nat));
    assert(x.bits() % pow256(N as nat) == x.bits()) by {
        vstd::arithmetic::div_mod::lemma_small_mod(x.bits(), pow256(N as nat));
    }
}

/// Writing the big-endian bytes of the numeric that `N` bytes denote gives
/// back those bytes, when that numeric exists on the target.
pub proof fn law_be_bytes_reread<const N: usize, T: FixedWidth<N>>(b: Seq<u8>)
    requires
        b.len() == N,
        T::from_bits(be_value(b)).bits() == be_value(b),
    ensures
        be_digits(T::from_bits(be_value(b)).bits(), N as nat) == b,
{
    lemma_be_digits_of_value(b);
}

} // verus!
