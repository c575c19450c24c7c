//! Ascii strings and characters: a fixed-length string padded with a constant
//! byte, a variable-length string, a character, and a constant character.
use vstd::prelude::*;
use vstd::utf8::{decode_utf8, valid_utf8};
use crate::des_slice::{ByteDeserializeSlice, ByteDeserialized, ByteDeserializerSlice};
use crate::error::{Result, SerDesError};
use crate::ser_heap::{ByteSerializeHeap, ByteSerializerHeap};
use crate::ser_stack::{add_failure, ByteSerializeStack, ByteSerialized, ByteSerializerStack};
use crate::size::{ByteSerializedLenOf, ByteSerializedSizeOf};
use crate::utils::hex::{hex_line, hex_pretty, to_hex_line, to_hex_pretty};
use crate::utils::text::{
    ascii_bytes, decimal, hex_numeral, lemma_decimal_len, pow10, push_char, push_decimal, push_decimal_ascii, push_hex,
    push_str,
};

verus! {

/// The `len` bytes of `padding`.
pub open spec fn padding_run(len: nat, padding: u8) -> Seq<u8> {
    Seq::new(len, |i: int| padding)
}

/// The `len` bytes that a fixed-length string takes from `bytes`: at most
/// `len` bytes from the front, aligned to the right or to the left, and padded
/// with `padding` up to `len`.
pub open spec fn fixed_image(len: nat, padding: u8, right_align: bool, bytes: Seq<u8>) -> Seq<u8> {
    let take = if bytes.len() < len { bytes.len() } else { len };
    if right_align {
        padding_run((len - take) as nat, padding) + bytes.take(take as int)
    } else {
        bytes.take(take as int) + padding_run((len - take) as nat, padding)
    }
}

/// A string of ascii characters of `LEN` bytes, padded with `PADDING`,
/// aligned to the right when `RIGHT_ALIGN`, held inline as `[u8; LEN]`.
#[derive(PartialEq, Eq, Debug)]
pub struct StringAsciiFixed<const LEN: usize, const PADDING: u8, const RIGHT_ALIGN: bool>([u8; LEN]);

impl<const LEN: usize, const PADDING: u8, const RIGHT_ALIGN: bool> View for StringAsciiFixed<LEN, PADDING, RIGHT_ALIGN> {
    type V = Seq<u8>;

    /// The `LEN` bytes of the string, padding included.
    closed spec fn view(&self) -> Seq<u8> {
        self.0@
    }
}

impl<const LEN: usize, const PADDING: u8, const RIGHT_ALIGN: bool> StringAsciiFixed<LEN, PADDING, RIGHT_ALIGN> {
    /// The number of bytes held, `LEN`.
    pub fn len(&self) -> (r: usize)
        ensures
            r == LEN,
            r == self@.len(),
    {
        self.0.len()
    }

    /// Whether the string holds no bytes, that is whether `LEN` is zero.
    pub fn is_empty(&self) -> (r: bool)
        ensures
            r <==> LEN == 0,
            r <==> self@.len() == 0,
    {
        self.0.len() == 0
    }

    /// The bytes held, padding included.
    pub fn bytes(&self) -> (r: &[u8])
        ensures
            r@ == self@,
    {
        self.0.as_slice()
    }
}

impl<const LEN: usize, const PADDING: u8, const RIGHT_ALIGN: bool> Clone for StringAsciiFixed<LEN, PADDING, RIGHT_ALIGN> {
    /// A string holding the same bytes.
    fn clone(&self) -> (r: Self)
        ensures
            r@ == self@,
    {
        StringAsciiFixed(self.0)
    }
}

impl<const LEN: usize, const PADDING: u8, const RIGHT_ALIGN: bool> Default for StringAsciiFixed<LEN, PADDING, RIGHT_ALIGN> {
    /// The string of `LEN` padding bytes.
    fn default() -> (r: Self)
        ensures
            r@ == padding_run(LEN as nat, PADDING),
    {
        let r = StringAsciiFixed(vstd::array::array_fill_for_copy_types::<u8, LEN>(PADDING));
        assert(r@ =~= padding_run(LEN as nat, PADDING));
        r
    }
}

impl<const LEN: usize, const PADDING: u8, const RIGHT_ALIGN: bool> From<&[u8]> for StringAsciiFixed<LEN, PADDING, RIGHT_ALIGN> {
    /// Takes at most `LEN` bytes from the front of `bytes`, aligned and padded
    /// up to `LEN`; never more than fits.
    fn from(bytes: &[u8]) -> (r: Self)
        ensures
            r@ == fixed_image(LEN as nat, PADDING, RIGHT_ALIGN, bytes@),
    {
        let mut new = vstd::array::array_fill_for_copy_types::<u8, LEN>(PADDING);
        assert(new@ =~= padding_run(LEN as nat, PADDING));
        let take_len: usize = if bytes.len() < LEN { bytes.len() } else { LEN };
        let start: usize = if RIGHT_ALIGN { LEN - take_len } else { 0 };
        let mut i: usize = 0;
        while i < take_len
            invariant
                take_len <= LEN,
                take_len <= bytes@.len(),
                start + take_len <= LEN,
                i <= take_len,
                new@.len() == LEN,
                forall|k: int| 0 <= k < start ==> new@[k] == PADDING,
                forall|k: int| start + take_len <= k < LEN ==> new@[k] == PADDING,
                forall|k: int| start <= k < start + i ==> new@[k] == bytes@[k - start],
                forall|k: int| start + i <= k < start + take_len ==> new@[k] == PADDING,
            decreases take_len - i,
        {
            new[start + i] = bytes[i];
            i = i + 1;
        }
        let r = StringAsciiFixed(new);
        assert(r@ =~= fixed_image(LEN as nat, PADDING, RIGHT_ALIGN, bytes@));
        r
    }
}

impl<const LEN: usize, const PADDING: u8, const RIGHT_ALIGN: bool> vstd::std_specs::convert::FromSpecImpl<&[u8]> for StringAsciiFixed<LEN, PADDING, RIGHT_ALIGN> {
    open spec fn obeys_from_spec() -> bool {
        false
    }

    open spec fn from_spec(v: &[u8]) -> Self {
        arbitrary()
    }
}

impl<const LEN: usize, const PADDING: u8, const RIGHT_ALIGN: bool> From<&[u8; LEN]> for StringAsciiFixed<LEN, PADDING, RIGHT_ALIGN> {
    /// Takes all `LEN` bytes of the array.
    fn from(bytes: &[u8; LEN]) -> (r: Self)
        ensures
            r@ == bytes@,
    {
        let r = <Self as From<&[u8]>>::from(bytes.as_slice());
        assert(r@ =~= bytes@);
        r
    }
}

impl<const LEN: usize, const PADDING: u8, const RIGHT_ALIGN: bool> vstd::std_specs::convert::FromSpecImpl<&[u8; LEN]> for StringAsciiFixed<LEN, PADDING, RIGHT_ALIGN> {
    open spec fn obeys_from_spec() -> bool {
        false
    }

    open spec fn from_spec(v: &[u8; LEN]) -> Self {
        arbitrary()
    }
}

impl<const LEN: usize, const PADDING: u8, const RIGHT_ALIGN: bool> StringAsciiFixed<LEN, PADDING, RIGHT_ALIGN> {
    /// The decimal numeral of `value`, aligned and padded up to `LEN`; the
    /// numeral is whole, as `LEN` holds the five digits of any `u16`.
    pub fn from_u16(value: u16) -> (r: Self)
        requires
            LEN >= 5,
        ensures
            decimal(value as nat).len() <= LEN,
            r@ == fixed_image(LEN as nat, PADDING, RIGHT_ALIGN, ascii_bytes(decimal(value as nat))),
    {
        proof {
            reveal_with_fuel(pow10, 6);
            lemma_decimal_len(value as nat, 5);
        }
        let mut digits: Vec<u8> = Vec::new();
        push_decimal_ascii(&mut digits, value as u128);
        assert(digits@ =~= ascii_bytes(decimal(value as nat)));
        <Self as From<&[u8]>>::from(digits.as_slice())
    }

    /// The decimal numeral of `value`, aligned and padded up to `LEN`; the
    /// numeral is whole, as `LEN` holds the ten digits of any `u32`.
    pub fn from_u32(value: u32) -> (r: Self)
        requires
            LEN >= 10,
        ensures
            decimal(value as nat).len() <= LEN,
            r@ == fixed_image(LEN as nat, PADDING, RIGHT_ALIGN, ascii_bytes(decimal(value as nat))),
    {
        proof {
            reveal_with_fuel(pow10, 11);
            lemma_decimal_len(value as nat, 10);
        }
        let mut digits: Vec<u8> = Vec::new();
        push_decimal_ascii(&mut digits, value as u128);
        assert(digits@ =~= ascii_bytes(decimal(value as nat)));
        <Self as From<&[u8]>>::from(digits.as_slice())
    }

    /// The decimal numeral of `value`, aligned and padded up to `LEN`; the
    /// numeral is whole, as `LEN` holds the twenty digits of any `u64`.
    pub fn from_u64(value: u64) -> (r: Self)
        requires
            LEN >= 20,
        ensures
            decimal(value as nat).len() <= LEN,
            r@ == fixed_image(LEN as nat, PADDING, RIGHT_ALIGN, ascii_bytes(decimal(value as nat))),
    {
        proof {
            reveal_with_fuel(pow10, 21);
            lemma_decimal_len(value as nat, 20);
        }
        let mut digits: Vec<u8> = Vec::new();
        push_decimal_ascii(&mut digits, value as u128);
        assert(digits@ =~= ascii_bytes(decimal(value as nat)));
        <Self as From<&[u8]>>::from(digits.as_slice())
    }
}

impl<const LEN: usize, const PADDING: u8, const RIGHT_ALIGN: bool> ByteSerialized for StringAsciiFixed<LEN, PADDING, RIGHT_ALIGN> {
    /// All `LEN` bytes, padding included.
    open spec fn byte_image(&self) -> Seq<u8> {
        self@
    }
}

impl<const LEN: usize, const PADDING: u8, const RIGHT_ALIGN: bool> ByteSerializeStack for StringAsciiFixed<LEN, PADDING, RIGHT_ALIGN> {
    open spec fn byte_stack_error(&self, written: Seq<u8>, cap: nat) -> Seq<char> {
        add_failure(LEN as nat, cap, written)
    }

    fn byte_serialize_stack<const CAP: usize>(&self, ser: &mut ByteSerializerStack<CAP>) -> (r: Result<()>) {
        let _ = ser.len();
        ser.serialize_bytes_slice(self.0.as_slice())?;
        Ok(())
    }
}

impl<const LEN: usize, const PADDING: u8, const RIGHT_ALIGN: bool> ByteSerializeHeap for StringAsciiFixed<LEN, PADDING, RIGHT_ALIGN> {
    fn byte_serialize_heap(&self, ser: &mut ByteSerializerHeap) -> (r: Result<()>) {
        ser.serialize_bytes_slice(self.0.as_slice())?;
        Ok(())
    }
}

impl<const LEN: usize, const PADDING: u8, const RIGHT_ALIGN: bool> ByteDeserialized<StringAsciiFixed<LEN, PADDING, RIGHT_ALIGN>> for StringAsciiFixed<LEN, PADDING, RIGHT_ALIGN> {
    /// Takes the next `LEN` bytes, when there are that many.
    open spec fn byte_parse_len(bytes: Seq<u8>) -> Option<nat> {
        if LEN <= bytes.len() {
            Some(LEN as nat)
        } else {
            None
        }
    }

    /// The string holds the first `LEN` bytes as they are.
    open spec fn byte_parsed(bytes: Seq<u8>, v: StringAsciiFixed<LEN, PADDING, RIGHT_ALIGN>) -> bool {
        v@ == bytes.take(LEN as int)
    }
}

impl<const LEN: usize, const PADDING: u8, const RIGHT_ALIGN: bool> ByteDeserializeSlice<StringAsciiFixed<LEN, PADDING, RIGHT_ALIGN>> for StringAsciiFixed<LEN, PADDING, RIGHT_ALIGN> {
    fn byte_deserialize(des: &mut ByteDeserializerSlice) -> (r: Result<StringAsciiFixed<LEN, PADDING, RIGHT_ALIGN>>) {
        let bytes = des.deserialize_bytes_array_ref::<LEN>()?;
        Ok(StringAsciiFixed(*bytes))
    }
}

impl<const LEN: usize, const PADDING: u8, const RIGHT_ALIGN: bool> ByteSerializedLenOf for StringAsciiFixed<LEN, PADDING, RIGHT_ALIGN> {
    /// Always `LEN`.
    open spec fn byte_len_spec(&self) -> nat {
        LEN as nat
    }

    fn byte_len(&self) -> (r: usize) {
        LEN
    }
}

/// A string of ascii characters of any length, held on the heap.
#[derive(PartialEq, Eq, Debug)]
pub struct StringAscii(Vec<u8>);

impl View for StringAscii {
    type V = Seq<u8>;

    /// The bytes of the string.
    closed spec fn view(&self) -> Seq<u8> {
        self.0@
    }
}

impl StringAscii {
    /// The number of bytes held.
    pub fn len(&self) -> (r: usize)
        ensures
            r == self@.len(),
    {
        self.0.len()
    }

    /// Whether the string holds no bytes.
    pub fn is_empty(&self) -> (r: bool)
        ensures
            r <==> self@.len() == 0,
    {
        self.0.len() == 0
    }

    /// The bytes held.
    pub fn bytes(&self) -> (r: &[u8])
        ensures
            r@ == self@,
    {
        self.0.as_slice()
    }
}

impl Clone for StringAscii {
    /// A string holding the same bytes.
    fn clone(&self) -> (r: Self)
        ensures
            r@ == self@,
    {
        let r = StringAscii(self.0.clone());
        assert(r@ =~= self@);
        r
    }
}

impl From<&[u8]> for StringAscii {
    /// Takes all the bytes of the slice.
    fn from(bytes: &[u8]) -> (r: Self)
        ensures
            r@ == bytes@,
    {
        StringAscii(vstd::slice::slice_to_vec(bytes))
    }
}

impl vstd::std_specs::convert::FromSpecImpl<&[u8]> for StringAscii {
    open spec fn obeys_from_spec() -> bool {
        false
    }

    open spec fn from_spec(v: &[u8]) -> Self {
        arbitrary()
    }
}

impl<const LEN: usize> From<&[u8; LEN]> for StringAscii {
    /// Takes all the bytes of the array.
    fn from(bytes: &[u8; LEN]) -> (r: Self)
        ensures
            r@ == bytes@,
    {
        StringAscii(vstd::slice::slice_to_vec(bytes.as_slice()))
    }
}

impl<const LEN: usize> vstd::std_specs::convert::FromSpecImpl<&[u8; LEN]> for StringAscii {
    open spec fn obeys_from_spec() -> bool {
        false
    }

    open spec fn from_spec(v: &[u8; LEN]) -> Self {
        arbitrary()
    }
}

impl ByteSerialized for StringAscii {
    /// The bytes of the string, with no length before them.
    open spec fn byte_image(&self) -> Seq<u8> {
        self@
    }
}

impl ByteSerializeStack for StringAscii {
    open spec fn byte_stack_error(&self, written: Seq<u8>, cap: nat) -> Seq<char> {
        add_failure(self@.len(), cap, written)
    }

    fn byte_serialize_stack<const CAP: usize>(&self, ser: &mut ByteSerializerStack<CAP>) -> (r: Result<()>) {
        let _ = ser.len();
        ser.serialize_bytes_slice(self.0.as_slice())?;
        Ok(())
    }
}

impl ByteSerializeHeap for StringAscii {
    fn byte_serialize_heap(&self, ser: &mut ByteSerializerHeap) -> (r: Result<()>) {
        ser.serialize_bytes_slice(self.0.as_slice())?;
        Ok(())
    }
}

impl ByteDeserialized<StringAscii> for StringAscii {
    /// Greedy: takes all the remaining bytes.
    open spec fn byte_parse_len(bytes: Seq<u8>) -> Option<nat> {
        Some(bytes.len())
    }

    /// The string holds all the bytes.
    open spec fn byte_parsed(bytes: Seq<u8>, v: StringAscii) -> bool {
        v@ == bytes
    }
}

impl ByteDeserializeSlice<StringAscii> for StringAscii {
    fn byte_deserialize(des: &mut ByteDeserializerSlice) -> (r: Result<StringAscii>) {
        let _ = des.remaining();
        Ok(StringAscii(vstd::slice::slice_to_vec(des.deserialize_bytes_slice_remaining())))
    }
}

impl ByteSerializedLenOf for StringAscii {
    /// The number of bytes held.
    open spec fn byte_len_spec(&self) -> nat {
        self@.len()
    }

    fn byte_len(&self) -> (r: usize) {
        self.0.len()
    }
}

/// An ascii character, held as one byte.
#[derive(PartialEq, Eq, Structural, Clone, Copy, Debug)]
pub struct CharAscii(u8);

impl View for CharAscii {
    type V = u8;

    /// The byte of the character.
    closed spec fn view(&self) -> u8 {
        self.0
    }
}

impl CharAscii {
    /// The byte of the character, as an array of one.
    pub fn bytes(&self) -> (r: [u8; 1])
        ensures
            r@ == seq![self@],
    {
        let r = [self.0];
        assert(r@ =~= seq![self@]);
        r
    }

    /// The character of `byte`.
    pub fn new(byte: u8) -> (r: Self)
        ensures
            r@ == byte,
    {
        CharAscii(byte)
    }

    /// The character of the first byte of a non-empty slice; the bytes after
    /// it are ignored. This is the conversion from `&[u8]`, which needs a byte
    /// to take.
    pub fn from_slice(bytes: &[u8]) -> (r: Self)
        requires
            bytes@.len() >= 1,
        ensures
            r@ == bytes@[0],
    {
        CharAscii(bytes[0])
    }

    /// The byte of the character.
    pub fn as_byte(&self) -> (r: u8)
        ensures
            r == self@,
    {
        self.0
    }
}

impl From<u8> for CharAscii {
    /// The character of the byte.
    fn from(value: u8) -> (r: Self)
        ensures
            r@ == value,
    {
        CharAscii(value)
    }
}

impl vstd::std_specs::convert::FromSpecImpl<u8> for CharAscii {
    open spec fn obeys_from_spec() -> bool {
        false
    }

    open spec fn from_spec(v: u8) -> Self {
        arbitrary()
    }
}

impl From<&CharAscii> for u8 {
    /// The byte of the character.
    fn from(value: &CharAscii) -> (r: Self)
        ensures
            r == value@,
    {
        value.0
    }
}

impl vstd::std_specs::convert::FromSpecImpl<&CharAscii> for u8 {
    open spec fn obeys_from_spec() -> bool {
        false
    }

    open spec fn from_spec(v: &CharAscii) -> Self {
        arbitrary()
    }
}

impl ByteSerialized for CharAscii {
    /// The one byte of the character.
    open spec fn byte_image(&self) -> Seq<u8> {
        seq![self@]
    }
}

impl ByteSerializeStack for CharAscii {
    open spec fn byte_stack_error(&self, written: Seq<u8>, cap: nat) -> Seq<char> {
        add_failure(1, cap, written)
    }

    fn byte_serialize_stack<const CAP: usize>(&self, ser: &mut ByteSerializerStack<CAP>) -> (r: Result<()>) {
        let _ = ser.len();
        let b = [self.0];
        assert(b@ =~= seq![self@]);
        ser.serialize_bytes_slice(b.as_slice())?;
        Ok(())
    }
}

impl ByteSerializeHeap for CharAscii {
    fn byte_serialize_heap(&self, ser: &mut ByteSerializerHeap) -> (r: Result<()>) {
        let b = [self.0];
        assert(b@ =~= seq![self@]);
        ser.serialize_bytes_slice(b.as_slice())?;
        Ok(())
    }
}

impl ByteDeserialized<CharAscii> for CharAscii {
    /// Takes the next byte, when there is one.
    open spec fn byte_parse_len(bytes: Seq<u8>) -> Option<nat> {
        if 1 <= bytes.len() {
            Some(1)
        } else {
            None
        }
    }

    /// The character of the first byte.
    open spec fn byte_parsed(bytes: Seq<u8>, v: CharAscii) -> bool {
        v@ == bytes[0]
    }
}

impl ByteDeserializeSlice<CharAscii> for CharAscii {
    fn byte_deserialize(des: &mut ByteDeserializerSlice) -> (r: Result<CharAscii>) {
        let b = des.deserialize_u8()?;
        Ok(CharAscii(b))
    }
}

impl ByteSerializedLenOf for CharAscii {
    /// Always one.
    open spec fn byte_len_spec(&self) -> nat {
        1
    }

    fn byte_len(&self) -> (r: usize) {
        1
    }
}

/// The text that `Debug` writes for the char `c`: the char in single quotes,
/// escaped where it is not printable.
pub uninterp spec fn char_debug_text(c: char) -> Seq<char>;

/// Calls `<char as Debug>::fmt` (through `format!`). Printable ascii other
/// than the single quote and the backslash is written as it is, between single
/// quotes; what the escapes of other chars look like is left to the name.
#[verifier::external_body]
fn char_debug(c: char) -> (r: String)
    ensures
        r@ == char_debug_text(c),
        0x20 <= (c as u32) <= 0x7e && c != '\'' && c != '\\' ==> r@ == seq!['\'', c, '\''],
{
    format!("{:?}", c)
}

/// The message of a constant character that met another byte.
pub open spec fn const_char_mismatch_message(expected: u8, actual: u8) -> Seq<char> {
    "Type ConstCharAscii<"@ + decimal(expected as nat) + ">("@ + char_debug_text(expected as char) + ") expected: 0x"@
        + hex_numeral(expected as nat, 2) + " actual: 0x"@ + hex_numeral(actual as nat, 2)
}

/// The ascii character `CHAR`, a constant: it is written as that one byte and
/// reads only that byte.
#[derive(PartialEq, Eq, Debug)]
pub struct ConstCharAscii<const CHAR: u8>(u8);

impl<const CHAR: u8> View for ConstCharAscii<CHAR> {
    type V = u8;

    /// The byte held, which is always `CHAR`.
    closed spec fn view(&self) -> u8 {
        self.0
    }
}

impl<const CHAR: u8> ConstCharAscii<CHAR> {
    #[verifier::type_invariant]
    closed spec fn well_formed(self) -> bool {
        self.0 == CHAR
    }

    /// The byte of the character, as an array of one.
    pub fn bytes(&self) -> (r: [u8; 1])
        ensures
            r@ == seq![CHAR],
    {
        let r = [CHAR];
        assert(r@ =~= seq![CHAR]);
        r
    }

    /// The character `CHAR`.
    pub fn to_char() -> (r: char)
        ensures
            r == CHAR as char,
    {
        CHAR as char
    }

    /// The error of reading `actual` where `CHAR` was expected.
    fn mismatch(actual: u8) -> (e: SerDesError)
        ensures
            e.message@ == const_char_mismatch_message(CHAR, actual),
    {
        let mut s = String::new();
        push_str(&mut s, "Type ConstCharAscii<");
        push_decimal(&mut s, CHAR as u128);
        push_str(&mut s, ">(");
        let name = char_debug(CHAR as char);
        push_str(&mut s, name.as_str());
        push_str(&mut s, ") expected: 0x");
        push_hex(&mut s, CHAR as u128, 2);
        push_str(&mut s, " actual: 0x");
        push_hex(&mut s, actual as u128, 2);
        assert(s@ =~= const_char_mismatch_message(CHAR, actual));
        SerDesError { message: s }
    }
}

impl<const CHAR: u8> Clone for ConstCharAscii<CHAR> {
    /// The same constant character.
    fn clone(&self) -> (r: Self)
        ensures
            r@ == self@,
    {
        proof {
            use_type_invariant(self);
        }
        ConstCharAscii(self.0)
    }
}

impl<const CHAR: u8> Default for ConstCharAscii<CHAR> {
    /// The constant character.
    fn default() -> (r: Self)
        ensures
            r@ == CHAR,
    {
        ConstCharAscii(CHAR)
    }
}

impl<const CHAR: u8> ByteSerialized for ConstCharAscii<CHAR> {
    /// The one byte `CHAR`.
    open spec fn byte_image(&self) -> Seq<u8> {
        seq![CHAR]
    }
}

impl<const CHAR: u8> ByteSerializeStack for ConstCharAscii<CHAR> {
    open spec fn byte_stack_error(&self, written: Seq<u8>, cap: nat) -> Seq<char> {
        add_failure(1, cap, written)
    }

    fn byte_serialize_stack<const CAP: usize>(&self, ser: &mut ByteSerializerStack<CAP>) -> (r: Result<()>) {
        proof {
            use_type_invariant(self);
        }
        let _ = ser.len();
        let b = [self.0];
        assert(b@ =~= seq![CHAR]);
        ser.serialize_bytes_slice(b.as_slice())?;
        Ok(())
    }
}

impl<const CHAR: u8> ByteSerializeHeap for ConstCharAscii<CHAR> {
    fn byte_serialize_heap(&self, ser: &mut ByteSerializerHeap) -> (r: Result<()>) {
        proof {
            use_type_invariant(self);
        }
        let b = [self.0];
        assert(b@ =~= seq![CHAR]);
        ser.serialize_bytes_slice(b.as_slice())?;
        Ok(())
    }
}

impl<const CHAR: u8> ByteDeserialized<ConstCharAscii<CHAR>> for ConstCharAscii<CHAR> {
    /// Takes the next byte, when it is `CHAR`.
    open spec fn byte_parse_len(bytes: Seq<u8>) -> Option<nat> {
        if 1 <= bytes.len() && bytes[0] == CHAR {
            Some(1)
        } else {
            None
        }
    }

    /// There is one constant character.
    open spec fn byte_parsed(bytes: Seq<u8>, v: ConstCharAscii<CHAR>) -> bool {
        v@ == CHAR
    }
}

impl<const CHAR: u8> ByteDeserializeSlice<ConstCharAscii<CHAR>> for ConstCharAscii<CHAR> {
    /// Reads one byte; any byte other than `CHAR` is an error that names both.
    fn byte_deserialize(des: &mut ByteDeserializerSlice) -> (r: Result<ConstCharAscii<CHAR>>)
        ensures
            r matches Err(e) ==> old(des).rest().len() == 0 || e.message@ == const_char_mismatch_message(CHAR, old(des).rest()[0]),
    {
        let b = des.deserialize_u8()?;
        if b == CHAR {
            Ok(ConstCharAscii(CHAR))
        } else {
            Err(Self::mismatch(b))
        }
    }
}

impl<const CHAR: u8> ByteSerializedSizeOf for ConstCharAscii<CHAR> {
    /// Always one.
    open spec fn byte_size_spec() -> nat {
        1
    }

    fn byte_size() -> (r: usize) {
        1
    }
}

impl<const CHAR: u8> ByteSerializedLenOf for ConstCharAscii<CHAR> {
    /// Always one.
    open spec fn byte_len_spec(&self) -> nat {
        1
    }

    fn byte_len(&self) -> (r: usize) {
        1
    }
}

/// The text that `String::from_utf8_lossy` makes of `bytes`.
pub uninterp spec fn utf8_lossy_text(bytes: Seq<u8>) -> Seq<char>;

/// Calls `String::from_utf8_lossy`, which decodes UTF-8 and puts U+FFFD in
/// place of each invalid sequence. Valid UTF-8, ascii among it, decodes as it
/// is; what the replacements look like is left to the name.
#[verifier::external_body]
fn utf8_lossy(bytes: &[u8]) -> (r: String)
    ensures
        r@ == utf8_lossy_text(bytes@),
        valid_utf8(bytes@) ==> r@ == decode_utf8(bytes@),
{
    String::from_utf8_lossy(bytes).into_owned()
}

/// The bytes between brackets, in hex, on one line or laid out in rows.
pub open spec fn bracketed_hex(bytes: Seq<u8>, alternate: bool) -> Seq<char> {
    "("@ + (if alternate {
        "\n"@ + hex_pretty(bytes)
    } else {
        hex_line(bytes)
    }) + ")"@
}

/// Appends the bytes between brackets, in hex, on one line or in rows.
fn push_bracketed_hex(s: &mut String, bytes: &[u8], alternate: bool)
    ensures
        final(s)@ == old(s)@ + bracketed_hex(bytes@, alternate),
{
    push_str(s, "(");
    if alternate {
        push_str(s, "\n");
        push_str(s, to_hex_pretty(bytes).as_str());
    } else {
        push_str(s, to_hex_line(bytes).as_str());
    }
    push_str(s, ")");
    assert(final(s)@ =~= old(s)@ + bracketed_hex(bytes@, alternate));
}

/// A fixed-length string with its parameters and bytes, described as text.
pub open spec fn string_ascii_fixed_lower_hex(len: nat, padding: u8, right_align: bool, bytes: Seq<u8>, alternate: bool) -> Seq<char> {
    "StringAsciiFixed<0x"@ + hex_numeral(len, 2) + ", 0x"@ + hex_numeral(padding as nat, 2) + ", "@ + (if right_align {
        "'R'"@
    } else {
        "'L'"@
    }) + ">"@ + bracketed_hex(bytes, alternate)
}

impl<const LEN: usize, const PADDING: u8, const RIGHT_ALIGN: bool> StringAsciiFixed<LEN, PADDING, RIGHT_ALIGN> {
    /// The type's parameters and the bytes held, in hex: on one line, or laid
    /// out in rows when `alternate`.
    pub fn fmt_lower_hex(&self, alternate: bool) -> (r: String)
        ensures
            r@ == string_ascii_fixed_lower_hex(LEN as nat, PADDING, RIGHT_ALIGN, self@, alternate),
    {
        let mut s = String::new();
        push_str(&mut s, "StringAsciiFixed<0x");
        push_hex(&mut s, LEN as u128, 2);
        push_str(&mut s, ", 0x");
        push_hex(&mut s, PADDING as u128, 2);
        push_str(&mut s, ", ");
        if RIGHT_ALIGN {
            push_str(&mut s, "'R'");
        } else {
            push_str(&mut s, "'L'");
        }
        push_str(&mut s, ">");
        push_bracketed_hex(&mut s, self.0.as_slice(), alternate);
        assert(s@ =~= string_ascii_fixed_lower_hex(LEN as nat, PADDING, RIGHT_ALIGN, self@, alternate));
        s
    }

    /// The bytes held as text, decoded as UTF-8.
    pub fn fmt_display(&self) -> (r: String)
        ensures
            r@ == utf8_lossy_text(self@),
            valid_utf8(self@) ==> r@ == decode_utf8(self@),
    {
        utf8_lossy(self.0.as_slice())
    }
}

impl StringAscii {
    /// The bytes held, in hex: on one line, or laid out in rows when
    /// `alternate`.
    pub fn fmt_lower_hex(&self, alternate: bool) -> (r: String)
        ensures
            r@ == "StringAscii"@ + bracketed_hex(self@, alternate),
    {
        let mut s = String::new();
        push_str(&mut s, "StringAscii");
        push_bracketed_hex(&mut s, self.0.as_slice(), alternate);
        s
    }

    /// The bytes held as text, decoded as UTF-8.
    pub fn fmt_display(&self) -> (r: String)
        ensures
            r@ == utf8_lossy_text(self@),
            valid_utf8(self@) ==> r@ == decode_utf8(self@),
    {
        utf8_lossy(self.0.as_slice())
    }
}

impl CharAscii {
    /// The byte of the character in hex.
    pub fn fmt_lower_hex(&self) -> (r: String)
        ensures
            r@ == "CharAscii(0x"@ + hex_numeral(self@ as nat, 1) + ")"@,
    {
        let mut s = String::new();
        push_str(&mut s, "CharAscii(0x");
        push_hex(&mut s, self.0 as u128, 1);
        push_str(&mut s, ")");
        s
    }

    /// The character as text: the char whose code is the byte.
    pub fn fmt_display(&self) -> (r: String)
        ensures
            r@ == seq![self@ as char],
    {
        let mut s = String::new();
        push_char(&mut s, self.0 as char);
        s
    }
}

impl<const CHAR: u8> ConstCharAscii<CHAR> {
    /// The constant in decimal and its byte in hex.
    pub fn fmt_lower_hex(&self) -> (r: String)
        ensures
            r@ == "ConstCharAscii<"@ + decimal(CHAR as nat) + ">(0x"@ + hex_numeral(CHAR as nat, 1) + ")"@,
    {
        proof {
            use_type_invariant(self);
        }
        let mut s = String::new();
        push_str(&mut s, "ConstCharAscii<");
        push_decimal(&mut s, CHAR as u128);
        push_str(&mut s, ">(0x");
        push_hex(&mut s, self.0 as u128, 1);
        push_str(&mut s, ")");
        s
    }

    /// The character as text: the char whose code is `CHAR`.
    pub fn fmt_display(&self) -> (r: String)
        ensures
            r@ == seq![CHAR as char],
    {
        proof {
            use_type_invariant(self);
        }
        let mut s = String::new();
        push_char(&mut s, self.0 as char);
        s
    }
}

/// Each ascii type's serialized length, as `ByteSerializedLenOf` gives it, is
/// the number of bytes that the value occupies once serialized; the constant
/// character's size, as `ByteSerializedSizeOf` gives it, is too.
pub proof fn law_ascii_len_of_is_bytes_written<const LEN: usize, const PADDING: u8, const RIGHT_ALIGN: bool, const CHAR: u8>(
    fixed: StringAsciiFixed<LEN, PADDING, RIGHT_ALIGN>,
    string: StringAscii,
    ch: CharAscii,
    konst: ConstCharAscii<CHAR>,
)
    ensures
        fixed.byte_len_spec() == fixed.byte_image().len(),
        string.byte_len_spec() == string.byte_image().len(),
        ch.byte_len_spec() == ch.byte_image().len(),
        konst.byte_len_spec() == konst.byte_image().len(),
        <ConstCharAscii<CHAR> as ByteSerializedSizeOf>::byte_size_spec() == konst.byte_image().len(),
{
}

/// A fixed-length string written out and read back is the same string,
/// whatever bytes follow it, and reading it takes exactly its `LEN` bytes.
pub proof fn law_string_ascii_fixed_roundtrip<const LEN: usize, const PADDING: u8, const RIGHT_ALIGN: bool>(
    s: StringAsciiFixed<LEN, PADDING, RIGHT_ALIGN>,
    rest: Seq<u8>,
)
    ensures
        <StringAsciiFixed<LEN, PADDING, RIGHT_ALIGN> as ByteDeserialized<StringAsciiFixed<LEN, PADDING, RIGHT_ALIGN>>>::byte_parse_len(
            s.byte_image() + rest,
        ) == Some(s.byte_image().len()),
        forall|t: StringAsciiFixed<LEN, PADDING, RIGHT_ALIGN>|
            <StringAsciiFixed<LEN, PADDING, RIGHT_ALIGN> as ByteDeserialized<StringAsciiFixed<LEN, PADDING, RIGHT_ALIGN>>>::byte_parsed(
                s.byte_image() + rest,
                t,
            ) <==> t@ == s@,
{
    assert((s.byte_image() + rest).take(LEN as int) =~= s@);
}

/// A fixed-length string made from any bytes holds exactly `LEN` bytes: the
/// first `LEN` bytes when there are that many, else all the bytes, after or
/// before the padding as it is aligned.
pub proof fn law_string_ascii_fixed_from_takes_up_to_len(len: nat, padding: u8, right_align: bool, bytes: Seq<u8>)
    ensures
        fixed_image(len, padding, right_align, bytes).len() == len,
        len <= bytes.len() ==> fixed_image(len, padding, right_align, bytes) == bytes.take(len as int),
        bytes.len() < len && right_align ==> fixed_image(len, padding, right_align, bytes).skip(len - bytes.len()) == bytes
            && fixed_image(len, padding, right_align, bytes).take(len - bytes.len()) == padding_run((len - bytes.len()) as nat, padding),
        bytes.len() < len && !right_align ==> fixed_image(len, padding, right_align, bytes).take(bytes.len() as int) == bytes
            && fixed_image(len, padding, right_align, bytes).skip(bytes.len() as int) == padding_run((len - bytes.len()) as nat, padding),
{
    let img = fixed_image(len, padding, right_align, bytes);
    if len <= bytes.len() {
        assert(img =~= bytes.take(len as int));
    } else if right_align {
        assert(img.skip(len - bytes.len()) =~= bytes);
        assert(img.take(len - bytes.len()) =~= padding_run((len - bytes.len()) as nat, padding));
    } else {
        assert(img.take(bytes.len() as int) =~= bytes);
        assert(img.skip(bytes.len() as int) =~= padding_run((len - bytes.len()) as nat, padding));
    }
}

/// A variable-length string is read greedily: reading the image of a string
/// followed by more bytes gives a string of all of them, so a string written
/// last is read back as it was.
pub proof fn law_string_ascii_greedy(s: StringAscii, rest: Seq<u8>)
    ensures
        <StringAscii as ByteDeserialized<StringAscii>>::byte_parse_len(s.byte_image() + rest) == Some(s.byte_image().len() + rest.len()),
        forall|t: StringAscii| <StringAscii as ByteDeserialized<StringAscii>>::byte_parsed(s.byte_image() + rest, t) <==> t@ == s@ + rest,
        forall|t: StringAscii| <StringAscii as ByteDeserialized<StringAscii>>::byte_parsed(s.byte_image(), t) <==> t@ == s@,
{
}

/// A character written out and read back is the same character, whatever
/// bytes follow it, and reading it takes exactly its one byte.
pub proof fn law_char_ascii_roundtrip(c: CharAscii, rest: Seq<u8>)
    ensures
        <CharAscii as ByteDeserialized<CharAscii>>::byte_parse_len(c.byte_image() + rest) == Some(1nat),
        forall|t: CharAscii| <CharAscii as ByteDeserialized<CharAscii>>::byte_parsed(c.byte_image() + rest, t) <==> t == c,
{
    assert((c.byte_image() + rest)[0] == c@);
}

/// A constant character written out is read back, whatever bytes follow it;
/// a byte other than `CHAR` is never read as it.
pub proof fn law_const_char_ascii_roundtrip<const CHAR: u8>(c: ConstCharAscii<CHAR>, b: u8, rest: Seq<u8>)
    ensures
        <ConstCharAscii<CHAR> as ByteDeserialized<ConstCharAscii<CHAR>>>::byte_parse_len(c.byte_image() + rest) == Some(1nat),
        b != CHAR ==> <ConstCharAscii<CHAR> as ByteDeserialized<ConstCharAscii<CHAR>>>::byte_parse_len(seq![b] + rest) is None,
{
    assert((c.byte_image() + rest)[0] == CHAR);
    assert((seq![b] + rest)[0] == b);
}

} // verus!
