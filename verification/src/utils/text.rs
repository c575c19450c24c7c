//! Building text: appending chars and decimal and hexadecimal numerals.
use vstd::prelude::*;

verus! {

/// Calls `String::push`, which appends one char to the string.
#[verifier::external_body]
pub(crate) fn push_char(s: &mut String, c: char)
    ensures
        final(s)@ == old(s)@.push(c),
{
    s.push(c)
}

/// Appends every char of `t`.
pub fn push_str(s: &mut String, t: &str)
    ensures
        final(s)@ == old(s)@ + t@,
{
    s.append(t);
}

/// The digit for `d` in base sixteen, lower case: `0`-`9` then `a`-`f`.
pub open spec fn digit_char(d: nat) -> char {
    if d < 10 {
        (48 + d) as char
    } else {
        (87 + d) as char
    }
}

/// The char for the digit `d` below sixteen.
pub fn digit(d: u8) -> (c: char)
    requires
        d < 16,
    ensures
        c == digit_char(d as nat),
{
    if d < 10 {
        (48 + d) as char
    } else {
        (87 + d) as char
    }
}

/// The decimal numeral of `v`, without leading zeros.
pub open spec fn decimal(v: nat) -> Seq<char>
    decreases v,
{
    if v < 10 {
        seq![digit_char(v)]
    } else {
        decimal(v / 10).push(digit_char(v % 10))
    }
}

/// The hexadecimal numeral of `v`, lower case, padded with zeros to at least
/// `width` digits.
pub open spec fn hex_numeral(v: nat, width: nat) -> Seq<char>
    decreases v, width,
{
    if v < 16 && width <= 1 {
        seq![digit_char(v)]
    } else {
        hex_numeral(v / 16, if width > 0 { (width - 1) as nat } else { 0 }).push(digit_char(v % 16))
    }
}

/// Appends the decimal numeral of `v`.
pub fn push_decimal(s: &mut String, v: u128)
    ensures
        final(s)@ == old(s)@ + decimal(v as nat),
    decreases v,
{
    if v >= 10 {
        push_decimal(s, v / 10);
    }
    push_char(s, digit((v % 10) as u8));
    proof {
        if v >= 10 {
            assert(final(s)@ =~= old(s)@ + decimal(v as nat));
        } else {
            assert(final(s)@ =~= old(s)@ + decimal(v as nat));
        }
    }
}

/// Appends the hexadecimal numeral of `v`, padded with zeros to at least `width` digits.
pub fn push_hex(s: &mut String, v: u128, width: usize)
    ensures
        final(s)@ == old(s)@ + hex_numeral(v as nat, width as nat),
    decreases v, width,
{
    if v >= 16 || width > 1 {
        push_hex(s, v / 16, if width > 0 { width - 1 } else { 0 });
    }
    push_char(s, digit((v % 16) as u8));
    assert(final(s)@ =~= old(s)@ + hex_numeral(v as nat, width as nat));
}

/// The decimal numeral of `v`.
pub fn decimal_string(v: u128) -> (r: String)
    ensures
        r@ == decimal(v as nat),
{
    let mut s = String::new();
    push_decimal(&mut s, v);
    assert(s@ =~= decimal(v as nat));
    s
}

/// The bytes of ascii text.
pub open spec fn ascii_bytes(t: Seq<char>) -> Seq<u8> {
    t.map_values(|c: char| c as u8)
}

/// Ten to the power `k`.
pub open spec fn pow10(k: nat) -> nat
    decreases k,
{
    if k == 0 {
        1
    } else {
        10 * pow10((k - 1) as nat)
    }
}

/// A value below `10^k` has a decimal numeral of at most `k` digits.
pub proof fn lemma_decimal_len(v: nat, k: nat)
    requires
        1 <= k,
        v < pow10(k),
    ensures
        decimal(v).len() <= k,
    decreases k,
{
    if v >= 10 {
        if k == 1 {
            assert(pow10(1) == 10) by {
                reveal_with_fuel(pow10, 2);
            }
        } else {
            lemma_decimal_len(v / 10, (k - 1) as nat);
        }
    }
}

/// Appends the ascii bytes of the decimal numeral of `v`.
pub fn push_decimal_ascii(out: &mut Vec<u8>, v: u128)
    ensures
        final(out)@ == old(out)@ + ascii_bytes(decimal(v as nat)),
    decreases v,
{
    if v >= 10 {
        push_decimal_ascii(out, v / 10);
    }
    out.push(48u8 + (v % 10) as u8);
    assert(final(out)@ =~= old(out)@ + ascii_bytes(decimal(v as nat)));
}

} // verus!
