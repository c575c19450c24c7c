//! Native-endian byte images of fixed-width numerics: big or little endian,
//! whichever the target machine uses.
use vstd::prelude::*;
use super::digits::{be_digits, be_value, be_encode, be_decode, le_digits, le_value, le_encode, le_decode, lemma_be_value_bound, lemma_le_value_bound};
use super::width::FixedWidth;
use super::be_bytes::law_be_bytes_roundtrip;
use super::le_bytes::law_le_bytes_roundtrip;

verus! {

/// Whether the machine stores the most significant byte first, in the terms
/// of vstd's `endianness()`, the byte order of the executing hardware.
pub open spec fn native_big() -> bool {
    vstd::endian::endianness() is Big
}

/// The `n` bytes of `v` in the machine's byte order.
pub open spec fn ne_digits(v: nat, n: nat) -> Seq<u8> {
    if native_big() {
        be_digits(v, n)
    } else {
        le_digits(v, n)
    }
}

/// The number whose bytes, in the machine's byte order, are `s`.
pub open spec fn ne_value(s: Seq<u8>) -> nat {
    if native_big() {
        be_value(s)
    } else {
        le_value(s)
    }
}

/// Calls `u16::from_ne_bytes`, which reads two bytes in the byte order of the
/// target machine: big endian or little endian, the order that vstd's
/// `endianness()` stands for. Which of the two it is the contract leaves
/// open, since it depends on the machine.
#[verifier::external_body]
fn u16_from_ne_bytes(b: [u8; 2]) -> (r: u16)
    ensures
        r as nat == be_value(b@) || r as nat == le_value(b@),
        r as nat == ne_value(b@),
{
    u16::from_ne_bytes(b)
}

/// Whether the target machine stores the most significant byte first.
fn native_big_endian() -> (r: bool)
    ensures
        r == native_big(),
{
    let b = [0u8, 1u8];
    proof {
        let s = b@;
        reveal_with_fuel(be_value, 3);
        reveal_with_fuel(le_value, 3);
        assert(s.drop_last() =~= seq![0u8]);
        assert(s.drop_last().drop_last() =~= Seq::<u8>::empty());
        assert(s.drop_first() =~= seq![1u8]);
        assert(s.drop_first().drop_first() =~= Seq::<u8>::empty());
        assert(be_value(s) == 1);
        assert(le_value(s) == 256);
    }
    u16_from_ne_bytes(b) == 1
}

/// Numerics that can be written as `N` bytes in the byte order of the machine.
pub trait ToNeBytes<const N: usize>: FixedWidth<N> {
    /// The native-endian bytes of the value: its big-endian or its
    /// little-endian bytes, in the one order of the machine, whatever `N`.
    fn to_bytes(&self) -> (r: [u8; N])
        ensures
            r@ == be_digits((*self).bits(), N as nat) || r@ == le_digits((*self).bits(), N as nat),
            r@ == ne_digits((*self).bits(), N as nat),
    ;
}

impl<const N: usize, T: FixedWidth<N>> ToNeBytes<N> for T {
    fn to_bytes(&self) -> (r: [u8; N]) {
        if native_big_endian() {
            be_encode::<N>(self.to_bits())
        } else {
            le_encode::<N>(self.to_bits())
        }
    }
}

/// Numerics that can be read back from `N` bytes in the byte order of the machine.
pub trait FromNeBytes<const N: usize, T: FixedWidth<N>> {
    /// The value whose native-endian bytes are `v`.
    fn from_bytes(v: [u8; N]) -> (r: T)
        ensures
            r == T::from_bits(be_value(v@)) || r == T::from_bits(le_value(v@)),
            r == T::from_bits(ne_value(v@)),
    ;

    /// The value whose native-endian bytes are `*v`.
    fn from_bytes_ref(v: &[u8; N]) -> (r: T)
        ensures
            r == T::from_bits(be_value(v@)) || r == T::from_bits(le_value(v@)),
            r == T::from_bits(ne_value(v@)),
    ;
}

impl<const N: usize, T: FixedWidth<N>> FromNeBytes<N, T> for T {
    fn from_bytes(v: [u8; N]) -> (r: T) {
        Self::from_bytes_ref(&v)
    }

    fn from_bytes_ref(v: &[u8; N]) -> (r: T) {
        proof {
            T::lemma_width();
            lemma_be_value_bound(v@);
            lemma_le_value_bound(v@);
        }
        if native_big_endian() {
            T::of_bits(be_decode(v.as_slice()))
        } else {
            T::of_bits(le_decode(v.as_slice()))
        }
    }
}

/// Law: the machine has one byte order for every width. The native-endian
/// image of every value of every width is its big-endian image, or that of
/// every value of every width is its little-endian image.
pub proof fn law_ne_one_order_for_all_widths()
    ensures
        (forall|v: nat, n: nat| #[trigger] ne_digits(v, n) == be_digits(v, n)) || (forall|v: nat, n: nat| #[trigger] ne_digits(v, n)
            == le_digits(v, n)),
        (forall|s: Seq<u8>| #[trigger] ne_value(s) == be_value(s)) || (forall|s: Seq<u8>| #[trigger] ne_value(s) == le_value(s)),
        native_big() ==> (forall|v: nat, n: nat| #[trigger] ne_digits(v, n) == be_digits(v, n)) && (forall|s: Seq<u8>|
            #[trigger] ne_value(s) == be_value(s)),
        !native_big() ==> (forall|v: nat, n: nat| #[trigger] ne_digits(v, n) == le_digits(v, n)) && (forall|s: Seq<u8>|
            #[trigger] ne_value(s) == le_value(s)),
{
}

/// Law: reading back the native-endian bytes of a numeric, with any bytes
/// after them, gives the numeric, on every machine.
pub proof fn law_ne_bytes_roundtrip<const N: usize, T: FixedWidth<N>>(x: T, rest: Seq<u8>)
    ensures
        ne_digits(x.bits(), N as nat).len() == N,
        T::from_bits(ne_value((ne_digits(x.bits(), N as nat) + rest).take(N as int))) == x,
{
    if native_big() {
        law_be_bytes_roundtrip::<N, T>(x, rest);
    } else {
        law_le_bytes_roundtrip::<N, T>(x, rest);
    }
}

} // verus!
