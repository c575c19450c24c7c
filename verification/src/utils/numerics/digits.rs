//! Base-256 positional notation: the mathematical model of how fixed-width
//! integers are laid out as bytes.
use vstd::prelude::*;
use vstd::arithmetic::div_mod::{lemma_breakdown, lemma_div_denominator, lemma_fundamental_div_mod_converse};

verus! {

/// `256` raised to the power `n`.
pub open spec fn pow256(n: nat) -> nat
    decreases n,
{
    if n == 0 {
        1
    } else {
        256 * pow256((n - 1) as nat)
    }
}

/// The `n` base-256 digits of `v`, least significant first (little endian).
pub open spec fn le_digits(v: nat, n: nat) -> Seq<u8> {
    Seq::new(n, |i: int| ((v / pow256(i as nat)) % 256) as u8)
}

/// The `n` base-256 digits of `v`, most significant first (big endian).
pub open spec fn be_digits(v: nat, n: nat) -> Seq<u8> {
    Seq::new(n, |i: int| ((v / pow256((n - 1 - i) as nat)) % 256) as u8)
}

/// The number whose base-256 digits, least significant first, are `s`.
pub open spec fn le_value(s: Seq<u8>) -> nat
    decreases s.len(),
{
    if s.len() == 0 {
        0
    } else {
        s[0] as nat + 256 * le_value(s.drop_first())
    }
}

/// The number whose base-256 digits, most significant first, are `s`.
pub open spec fn be_value(s: Seq<u8>) -> nat
    decreases s.len(),
{
    if s.len() == 0 {
        0
    } else {
        be_value(s.drop_last()) * 256 + s.last() as nat
    }
}

pub proof fn lemma_pow256_positive(n: nat)
    ensures
        pow256(n) > 0,
    decreases n,
{
    if n > 0 {
        lemma_pow256_positive((n - 1) as nat);
    }
}

pub proof fn lemma_pow256_monotonic(m: nat, n: nat)
    requires
        m <= n,
    ensures
        pow256(m) <= pow256(n),
    decreases n,
{
    if m < n {
        lemma_pow256_monotonic(m, (n - 1) as nat);
        lemma_pow256_positive((n - 1) as nat);
    }
}

/// Dropping the lowest digit is dividing by 256.
proof fn lemma_le_digits_drop_first(v: nat, n: nat)
    requires
        n > 0,
    ensures
        le_digits(v, n).drop_first() =~= le_digits(v / 256, (n - 1) as nat),
{
    assert forall|i: int| 0 <= i < n - 1 implies #[trigger] le_digits(v, n).drop_first()[i]
        == le_digits(v / 256, (n - 1) as nat)[i] by {
        lemma_pow256_positive(i as nat);
        lemma_div_denominator(v as int, 256, pow256(i as nat) as int);
        assert(pow256((i + 1) as nat) == 256 * pow256(i as nat));
    }
}

/// Dropping the lowest digit is dividing by 256.
proof fn lemma_be_digits_drop_last(v: nat, n: nat)
    requires
        n > 0,
    ensures
        be_digits(v, n).drop_last() =~= be_digits(v / 256, (n - 1) as nat),
        be_digits(v, n).last() == (v % 256) as u8,
{
    assert forall|i: int| 0 <= i < n - 1 implies #[trigger] be_digits(v, n).drop_last()[i]
        == be_digits(v / 256, (n - 1) as nat)[i] by {
        let k = (n - 2 - i) as nat;
        lemma_pow256_positive(k);
        lemma_div_denominator(v as int, 256, pow256(k) as int);
        assert(pow256((k + 1) as nat) == 256 * pow256(k));
    }
    assert(pow256(0) == 1);
    assert(v / 1 == v);
}

/// Reading back the little-endian digits of `v` gives `v` modulo `256^n`.
pub proof fn lemma_le_value_of_digits(v: nat, n: nat)
    ensures
        le_value(le_digits(v, n)) == v % pow256(n),
    decreases n,
{
    if n == 0 {
        assert(v % 1 == 0);
    } else {
        let m = (n - 1) as nat;
        assert(pow256(0) == 1);
        assert(v / 1 == v);
        lemma_le_digits_drop_first(v, n);
        lemma_le_value_of_digits(v / 256, m);
        lemma_pow256_positive(m);
        lemma_breakdown(v as int, 256, pow256(m) as int);
    }
}

/// Reading back the big-endian digits of `v` gives `v` modulo `256^n`.
pub proof fn lemma_be_value_of_digits(v: nat, n: nat)
    ensures
        be_value(be_digits(v, n)) == v % pow256(n),
    decreases n,
{
    if n == 0 {
        assert(v % 1 == 0);
    } else {
        let m = (n - 1) as nat;
        lemma_be_digits_drop_last(v, n);
        lemma_be_value_of_digits(v / 256, m);
        lemma_pow256_positive(m);
        lemma_breakdown(v as int, 256, pow256(m) as int);
    }
}

/// A sequence of `n` digits denotes a number below `256^n`.
pub proof fn lemma_le_value_bound(s: Seq<u8>)
    ensures
        le_value(s) < pow256(s.len()),
    decreases s.len(),
{
    if s.len() > 0 {
        lemma_le_value_bound(s.drop_first());
    }
}

/// A sequence of `n` digits denotes a number below `256^n`.
pub proof fn lemma_be_value_bound(s: Seq<u8>)
    ensures
        be_value(s) < pow256(s.len()),
    decreases s.len(),
{
    if s.len() > 0 {
        lemma_be_value_bound(s.drop_last());
    }
}

/// Writing out the number denoted by `s` gives back `s`.
pub proof fn lemma_le_digits_of_value(s: Seq<u8>)
    ensures
        le_digits(le_value(s), s.len()) =~= s,
    decreases s.len(),
{
    if s.len() > 0 {
        let x = le_value(s);
        let rest = le_value(s.drop_first());
        lemma_le_digits_of_value(s.drop_first());
        lemma_fundamental_div_mod_converse(x as int, 256, rest as int, s[0] as int);
        lemma_le_digits_drop_first(x, s.len());
        assert(pow256(0) == 1);
        assert(x / 1 == x);
        assert(le_digits(x, s.len())[0] == s[0]);
        assert(le_digits(x, s.len()) =~= seq![s[0]] + le_digits(x, s.len()).drop_first());
        assert(s =~= seq![s[0]] + s.drop_first());
    }
}

/// Writing out the number denoted by `s` gives back `s`.
pub proof fn lemma_be_digits_of_value(s: Seq<u8>)
    ensures
        be_digits(be_value(s), s.len()) =~= s,
    decreases s.len(),
{
    if s.len() > 0 {
        let x = be_value(s);
        let rest = be_value(s.drop_last());
        lemma_be_digits_of_value(s.drop_last());
        lemma_fundamental_div_mod_converse(x as int, 256, rest as int, s.last() as int);
        lemma_be_digits_drop_last(x, s.len());
        assert(be_digits(x, s.len()) =~= be_digits(x, s.len()).drop_last().push(be_digits(x, s.len()).last()));
        assert(s =~= s.drop_last().push(s.last()));
    }
}

/// The powers of 256 that the integer widths of Rust need.
pub proof fn lemma_pow256_widths()
    ensures
        pow256(1) == 0x100,
        pow256(2) == 0x1_0000,
        pow256(4) == 0x1_0000_0000,
        pow256(8) == 0x1_0000_0000_0000_0000,
        pow256(16) == 0x1_0000_0000_0000_0000_0000_0000_0000_0000,
{
    reveal_with_fuel(pow256, 17);
}

/// Writes the `N` least significant base-256 digits of `v`, least significant first.
pub fn le_encode<const N: usize>(v: u128) -> (r: [u8; N])
    ensures
        r@ == le_digits(v as nat, N as nat),
{
    let mut a: [u8; N] = vstd::array::array_fill_for_copy_types::<u8, N>(0u8);
    let mut x: u128 = v;
    let mut i: usize = 0;
    assert(pow256(0) == 1);
    while i < N
        invariant
            i <= N,
            a@.len() == N,
            x as nat == v as nat / pow256(i as nat),
            forall|j: int| 0 <= j < i ==> a@[j] == le_digits(v as nat, N as nat)[j],
        decreases N - i,
    {
        a[i] = (x % 256) as u8;
        proof {
            lemma_pow256_positive(i as nat);
            lemma_div_denominator(v as int, pow256(i as nat) as int, 256);
            assert(pow256((i + 1) as nat) == pow256(i as nat) * 256);
        }
        x = x / 256;
        i = i + 1;
    }
    assert(a@ =~= le_digits(v as nat, N as nat));
    a
}

/// Writes the `N` least significant base-256 digits of `v`, most significant first.
pub fn be_encode<const N: usize>(v: u128) -> (r: [u8; N])
    ensures
        r@ == be_digits(v as nat, N as nat),
{
    let mut a: [u8; N] = vstd::array::array_fill_for_copy_types::<u8, N>(0u8);
    let mut x: u128 = v;
    let mut i: usize = 0;
    assert(pow256(0) == 1);
    while i < N
        invariant
            i <= N,
            a@.len() == N,
            x as nat == v as nat / pow256(i as nat),
            forall|j: int| N - i <= j < N ==> a@[j] == be_digits(v as nat, N as nat)[j],
        decreases N - i,
    {
        a[N - 1 - i] = (x % 256) as u8;
        proof {
            lemma_pow256_positive(i as nat);
            lemma_div_denominator(v as int, pow256(i as nat) as int, 256);
            assert(pow256((i + 1) as nat) == pow256(i as nat) * 256);
        }
        x = x / 256;
        i = i + 1;
    }
    assert(a@ =~= be_digits(v as nat, N as nat));
    a
}

/// Reads at most sixteen base-256 digits, least significant first.
pub fn le_decode(b: &[u8]) -> (r: u128)
    requires
        b@.len() <= 16,
    ensures
        r as nat == le_value(b@),
{
    let mut v: u128 = 0;
    let mut i: usize = b.len();
    assert(b@.skip(i as int) =~= Seq::<u8>::empty());
    while i > 0
        invariant
            i <= b@.len() <= 16,
            v as nat == le_value(b@.skip(i as int)),
        decreases i,
    {
        i = i - 1;
        proof {
            assert(b@.skip(i as int).drop_first() =~= b@.skip(i + 1));
            lemma_le_value_bound(b@.skip(i + 1));
            lemma_pow256_monotonic((b@.len() - i - 1) as nat, 15);
            lemma_pow256_widths();
            reveal_with_fuel(pow256, 17);
        }
        v = v * 256 + b[i] as u128;
    }
    assert(b@.skip(0) =~= b@);
    v
}

/// Reads at most sixteen base-256 digits, most significant first.
pub fn be_decode(b: &[u8]) -> (r: u128)
    requires
        b@.len() <= 16,
    ensures
        r as nat == be_value(b@),
{
    let mut v: u128 = 0;
    let mut i: usize = 0;
    assert(b@.take(0) =~= Seq::<u8>::empty());
    while i < b.len()
        invariant
            i <= b@.len() <= 16,
            v as nat == be_value(b@.take(i as int)),
        decreases b@.len() - i,
    {
        proof {
            assert(b@.take(i + 1).drop_last() =~= b@.take(i as int));
            lemma_be_value_bound(b@.take(i as int));
            lemma_pow256_monotonic(i as nat, 15);
            lemma_pow256_widths();
            reveal_with_fuel(pow256, 17);
        }
        v = v * 256 + b[i] as u128;
        i = i + 1;
    }
    assert(b@.take(b@.len() as int) =~= b@);
    v
}

} // verus!
