//! Hex dumps of byte buffers, as they appear in error messages: each byte in
//! hexadecimal and as a char, in groups of four.
use vstd::prelude::*;
use super::text::{digit, digit_char, hex_numeral, push_char, push_hex};

verus! {

/// How a byte shows as a char: control codes show as `.`, every other byte as
/// the char with that code.
pub open spec fn shown_char(b: u8) -> char {
    if b < 0x20 || (0x7f <= b && b < 0xa0) {
        '.'
    } else {
        b as char
    }
}

/// The extra space after the cell of byte `i` of `n`: after every complete
/// group of four but the last cell.
pub open spec fn group_gap(i: int, n: int) -> Seq<char> {
    if (i + 1) % 4 == 0 && i + 1 < n {
        seq![' ']
    } else {
        seq![]
    }
}

/// The hexadecimal cells of the first `k` bytes of `b`: two digits and a space
/// each, with the gaps between groups.
pub open spec fn hex_cells(b: Seq<u8>, k: nat) -> Seq<char>
    decreases k,
{
    if k == 0 || k > b.len() {
        seq![]
    } else {
        let i = k - 1;
        hex_cells(b, i as nat) + seq![digit_char(b[i] as nat / 16), digit_char(b[i] as nat % 16), ' ']
            + group_gap(i, b.len() as int)
    }
}

/// The char cells of the first `k` bytes of `b`: a char and a space each, with
/// the gaps between groups.
pub open spec fn char_cells(b: Seq<u8>, k: nat) -> Seq<char>
    decreases k,
{
    if k == 0 || k > b.len() {
        seq![]
    } else {
        let i = k - 1;
        char_cells(b, i as nat) + seq![shown_char(b[i]), ' '] + group_gap(i, b.len() as int)
    }
}

/// One line of a dump: the offset of its first byte, its hexadecimal cells
/// (with one more space when the last group is short) and its char cells.
pub open spec fn hex_line_at(offset: nat, b: Seq<u8>) -> Seq<char> {
    hex_numeral(offset, 4) + seq![':', ' '] + hex_cells(b, b.len()) + (if b.len() % 4 != 0 {
        seq![' ']
    } else {
        seq![]
    }) + seq!['|', ' '] + char_cells(b, b.len())
}

/// The dump of `b` on a single line.
pub open spec fn hex_line(b: Seq<u8>) -> Seq<char> {
    hex_line_at(0, b)
}

/// The dump of `b` sixteen bytes per line, the first line at `offset`.
pub open spec fn hex_pretty_at(offset: nat, b: Seq<u8>) -> Seq<char>
    decreases b.len(),
{
    if b.len() <= 16 {
        hex_line_at(offset, b)
    } else {
        hex_line_at(offset, b.take(16)) + seq!['\n'] + hex_pretty_at(offset + 16, b.skip(16))
    }
}

/// The dump of `b` sixteen bytes per line.
pub open spec fn hex_pretty(b: Seq<u8>) -> Seq<char> {
    hex_pretty_at(0, b)
}

fn shown(b: u8) -> (c: char)
    ensures
        c == shown_char(b),
{
    if b < 0x20 || (0x7f <= b && b < 0xa0) {
        '.'
    } else {
        b as char
    }
}

/// Appends one line of a dump of `b`, which starts at `offset`.
fn push_hex_line(s: &mut String, offset: usize, b: &[u8])
    ensures
        final(s)@ == old(s)@ + hex_line_at(offset as nat, b@),
{
    let n = b.len();
    push_hex(s, offset as u128, 4);
    push_char(s, ':');
    push_char(s, ' ');
    let ghost head = s@;
    let mut i: usize = 0;
    while i < n
        invariant
            i <= n == b@.len(),
            s@ == head + hex_cells(b@, i as nat),
        decreases n - i,
    {
        push_char(s, digit(b[i] / 16));
        push_char(s, digit(b[i] % 16));
        push_char(s, ' ');
        if (i + 1) % 4 == 0 && i + 1 < n {
            push_char(s, ' ');
        }
        assert(s@ =~= head + hex_cells(b@, (i + 1) as nat));
        i = i + 1;
    }
    if n % 4 != 0 {
        push_char(s, ' ');
    }
    push_char(s, '|');
    push_char(s, ' ');
    let ghost mid = s@;
    let mut j: usize = 0;
    while j < n
        invariant
            j <= n == b@.len(),
            s@ == mid + char_cells(b@, j as nat),
        decreases n - j,
    {
        push_char(s, shown(b[j]));
        push_char(s, ' ');
        if (j + 1) % 4 == 0 && j + 1 < n {
            push_char(s, ' ');
        }
        assert(s@ =~= mid + char_cells(b@, (j + 1) as nat));
        j = j + 1;
    }
    assert(s@ =~= old(s)@ + hex_line_at(offset as nat, b@));
}

/// The dump of `bytes` on a single line.
pub fn to_hex_line(bytes: &[u8]) -> (r: String)
    ensures
        r@ == hex_line(bytes@),
{
    let mut s = String::new();
    push_hex_line(&mut s, 0, bytes);
    assert(s@ =~= hex_line(bytes@));
    s
}

/// The dump of `bytes` sixteen bytes per line.
pub fn to_hex_pretty(bytes: &[u8]) -> (r: String)
    ensures
        r@ == hex_pretty(bytes@),
{
    let mut s = String::new();
    let mut offset: usize = 0;
    let mut rest: &[u8] = bytes;
    let total = bytes.len();
    assert(bytes@.skip(0) =~= bytes@);
    while rest.len() > 16
        invariant
            offset as nat + rest@.len() == bytes@.len() == total,
            rest@ == bytes@.skip(offset as int),
            s@ + hex_pretty_at(offset as nat, rest@) == hex_pretty(bytes@),
        decreases rest@.len(),
    {
        let line = vstd::slice::slice_subrange(rest, 0, 16);
        push_hex_line(&mut s, offset, line);
        push_char(&mut s, '\n');
        let ghost before = rest@;
        rest = vstd::slice::slice_subrange(rest, 16, rest.len());
        assert(line@ =~= before.take(16));
        assert(rest@ =~= bytes@.skip(offset + 16));
        assert(s@ + hex_pretty_at((offset + 16) as nat, rest@) =~= hex_pretty(bytes@));
        offset = offset + 16;
    }
    push_hex_line(&mut s, offset, rest);
    assert(s@ =~= hex_pretty(bytes@));
    s
}

} // verus!
