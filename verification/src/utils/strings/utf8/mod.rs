//! `String` and `char` in byte streams.
//!
//! A `String` is written as its length in bytes, eight bytes big endian,
//! followed by its UTF-8 bytes. A `char` is written as the length of its UTF-8
//! encoding in one byte, followed by that encoding.
use vstd::prelude::*;
use vstd::utf8::{decode_utf8, encode_utf8, valid_utf8, encode_utf8_valid_utf8, encode_utf8_decode_utf8, decode_utf8_encode_utf8};
use vstd::string::StrSliceExecFns;
use crate::error::{Result, SerDesError};
use crate::size::ByteSerializedLenOf;
use crate::ser_stack::{add_failure, ByteSerialized, ByteSerializeStack, ByteSerializerStack};
use crate::ser_heap::{ByteSerializeHeap, ByteSerializerHeap};
use crate::des_slice::{ByteDeserialized, ByteDeserializeSlice, ByteDeserializerSlice};
use crate::utils::hex::{hex_line, to_hex_line};
use crate::utils::numerics::be_bytes::ToBeBytes;
use crate::utils::numerics::digits::{be_digits, be_value, lemma_be_value_of_digits, lemma_pow256_widths};
use crate::utils::numerics::width::FixedWidth;
use crate::utils::text::{decimal, push_decimal, push_str};

pub mod bytes_des;

verus! {

/// Calls `String::from_utf8`, which succeeds exactly when the bytes are valid
/// UTF-8 and then gives the string that they encode.
#[verifier::external_body]
pub(crate) fn string_from_utf8(v: Vec<u8>) -> (r: Option<String>)
    ensures
        r is Some <==> valid_utf8(v@),
        r matches Some(s) ==> s@ == decode_utf8(v@),
{
    String::from_utf8(v).ok()
}

/// The number of bytes of the UTF-8 encoding of `c`: one to four, by the
/// range of its code point.
pub(crate) fn char_len_utf8(c: char) -> (r: usize)
    ensures
        r == encode_utf8(seq![c]).len(),
{
    proof {
        lemma_char_utf8_len(c);
    }
    let v = c as u32;
    if v < 0x80 {
        1
    } else if v < 0x800 {
        2
    } else if v < 0x10000 {
        3
    } else {
        4
    }
}

/// Calls `char::encode_utf8` on a buffer of four bytes, which the
/// documentation says is enough for any char, and hands back the buffer: its
/// first bytes are the UTF-8 encoding of `c`. The bytes after the encoding are
/// left unsaid.
#[verifier::external_body]
fn char_encode_utf8(c: char) -> (r: [u8; 4])
    ensures
        r@.take(encode_utf8(seq![c]).len() as int) == encode_utf8(seq![c]),
{
    let mut bytes = [0u8; 4];
    c.encode_utf8(&mut bytes);
    bytes
}

/// The UTF-8 encoding of one char takes between one and four bytes: the
/// encoding of its code point.
pub proof fn lemma_char_utf8_len(c: char)
    ensures
        1 <= encode_utf8(seq![c]).len() <= 4,
        encode_utf8(seq![c]) == vstd::utf8::encode_scalar(c as u32),
{
    assert(seq![c].drop_first() =~= Seq::<char>::empty());
    assert(encode_utf8(Seq::<char>::empty()) =~= Seq::<u8>::empty());
    assert(encode_utf8(seq![c]) =~= vstd::utf8::encode_scalar(c as u32));
}

/// The length in bytes that the first eight bytes of a serialized `String`
/// announce.
pub open spec fn string_body_len(bytes: Seq<u8>) -> nat {
    <usize as FixedWidth<8>>::from_bits(be_value(bytes.take(8))) as nat
}

/// The UTF-8 bytes of a serialized `String`, after its length.
pub open spec fn string_body(bytes: Seq<u8>) -> Seq<u8> {
    bytes.subrange(8, 8 + string_body_len(bytes) as int)
}

/// The UTF-8 bytes of a serialized `char`, after their count.
pub open spec fn char_body(bytes: Seq<u8>) -> Seq<u8> {
    bytes.subrange(1, 1 + bytes[0] as int)
}

/// The message of a failure to read a `String` whose bytes are not UTF-8.
pub open spec fn invalid_string_message(body: Seq<u8>) -> Seq<char> {
    "bytes slice is not a valid utf8 string bytes: "@ + hex_line(body)
}

/// The message of a failure to read a `char` whose length is not one to four.
pub open spec fn char_len_message(len: u8) -> Seq<char> {
    "max char len supported 4 but enchountered "@ + decimal(len as nat)
}

/// The message of a failure to read a `char` whose bytes are not UTF-8.
pub open spec fn invalid_char_message(body: Seq<u8>) -> Seq<char> {
    "byte slice is not a valid utf8 char. bytes: "@ + hex_line(body)
}

pub fn invalid_string(body: &[u8]) -> (e: SerDesError)
    ensures
        e.message@ == invalid_string_message(body@),
{
    let mut message = String::new();
    push_str(&mut message, "bytes slice is not a valid utf8 string bytes: ");
    push_str(&mut message, to_hex_line(body).as_str());
    assert(message@ =~= invalid_string_message(body@));
    SerDesError { message }
}

pub fn invalid_char_len(len: u8) -> (e: SerDesError)
    ensures
        e.message@ == char_len_message(len),
{
    let mut message = String::new();
    push_str(&mut message, "max char len supported 4 but enchountered ");
    push_decimal(&mut message, len as u128);
    assert(message@ =~= char_len_message(len));
    SerDesError { message }
}

pub fn invalid_char(body: &[u8]) -> (e: SerDesError)
    ensures
        e.message@ == invalid_char_message(body@),
{
    let mut message = String::new();
    push_str(&mut message, "byte slice is not a valid utf8 char. bytes: ");
    push_str(&mut message, to_hex_line(body).as_str());
    assert(message@ =~= invalid_char_message(body@));
    SerDesError { message }
}

/// The first char of a non-empty valid UTF-8 sequence.
pub fn first_char(s: &String) -> (c: char)
    requires
        s@.len() > 0,
    ensures
        c == s@[0],
{
    s.as_str().get_char(0)
}

impl ByteSerialized for String {
    open spec fn byte_image(&self) -> Seq<u8> {
        be_digits(encode_utf8(self@).len(), 8) + encode_utf8(self@)
    }
}

impl ByteSerializeStack for String {
    /// The length prefix fails when it does not fit; else the bytes fail.
    open spec fn byte_stack_error(&self, written: Seq<u8>, cap: nat) -> Seq<char> {
        let n = encode_utf8(self@).len();
        if written.len() + 8 > cap {
            add_failure(8, cap, written)
        } else {
            add_failure(n, cap, written + be_digits(n, 8))
        }
    }

    /// Writes the length, then the bytes. When only the length fits, it stays
    /// written; when not even the length fits, nothing is written.
    fn byte_serialize_stack<const CAP: usize>(&self, serializer: &mut ByteSerializerStack<CAP>) -> (r: Result<()>)
        ensures
            r is Err && old(serializer)@.len() + 8 <= CAP ==> final(serializer)@ == old(serializer)@ + be_digits(
                encode_utf8(self@).len(),
                8,
            ),
            r is Err && old(serializer)@.len() + 8 > CAP ==> final(serializer)@ == old(serializer)@,
    {
        let bytes: &[u8] = self.as_str().as_bytes();
        let len: usize = bytes.len();
        let prefix: [u8; 8] = ToBeBytes::to_bytes(&len);
        let _ = serializer.len();
        let ghost b0 = serializer.buffer();
        let ghost l0: int = serializer@.len() as int;
        serializer.serialize_bytes_slice(prefix.as_slice())?;
        let ghost b1 = serializer.buffer();
        assert(b1.skip(l0 + 8) =~= b0.skip(l0 + 8));
        serializer.serialize_bytes_slice(bytes)?;
        assert(serializer.buffer().skip(l0 + 8 + len) =~= b0.skip(l0 + 8 + len));
        Ok(())
    }
}

impl ByteSerializeHeap for String {
    fn byte_serialize_heap(&self, ser: &mut ByteSerializerHeap) -> (r: Result<()>) {
        let bytes: &[u8] = self.as_str().as_bytes();
        let len: usize = bytes.len();
        let prefix: [u8; 8] = ToBeBytes::to_bytes(&len);
        ser.serialize_bytes_slice(prefix.as_slice())?;
        ser.serialize_bytes_slice(bytes)?;
        Ok(())
    }
}

impl ByteDeserialized<String> for String {
    open spec fn byte_parse_len(bytes: Seq<u8>) -> Option<nat> {
        if bytes.len() < 8 || bytes.len() < 8 + string_body_len(bytes) || !valid_utf8(string_body(bytes)) {
            None
        } else {
            Some(8 + string_body_len(bytes))
        }
    }

    open spec fn byte_parsed(bytes: Seq<u8>, v: String) -> bool {
        v@ == decode_utf8(string_body(bytes))
    }
}

impl ByteDeserializeSlice<String> for String {
    /// Bytes that are not UTF-8 fail with a message that dumps them.
    fn byte_deserialize(deserializer: &mut ByteDeserializerSlice) -> (r: Result<String>)
        ensures
            r matches Err(e) ==> (8 <= old(deserializer).rest().len() && 8 + string_body_len(old(deserializer).rest())
                <= old(deserializer).rest().len() ==> e.message@ == invalid_string_message(
                string_body(old(deserializer).rest()),
            )),
    {
        let _ = deserializer.remaining();
        let ghost rest0 = deserializer.rest();
        let len: usize = deserializer.deserialize_be::<8, usize>()?;
        assert(deserializer.rest() =~= rest0.skip(8));
        let bytes = deserializer.deserialize_bytes_slice(len)?;
        assert(bytes@ =~= string_body(rest0));
        match string_from_utf8(vstd::slice::slice_to_vec(bytes)) {
            Some(s) => Ok(s),
            None => Err(invalid_string(bytes)),
        }
    }
}

impl ByteSerialized for char {
    open spec fn byte_image(&self) -> Seq<u8> {
        seq![encode_utf8(seq![*self]).len() as u8] + encode_utf8(seq![*self])
    }
}

impl ByteSerializeStack for char {
    /// The count fails when it does not fit; else the bytes fail.
    open spec fn byte_stack_error(&self, written: Seq<u8>, cap: nat) -> Seq<char> {
        let n = encode_utf8(seq![*self]).len();
        if written.len() + 1 > cap {
            add_failure(1, cap, written)
        } else {
            add_failure(n, cap, written + seq![n as u8])
        }
    }

    /// Writes the count of UTF-8 bytes, then the bytes. When only the count
    /// fits, it stays written; when not even the count fits, nothing is
    /// written.
    fn byte_serialize_stack<const CAP: usize>(&self, serializer: &mut ByteSerializerStack<CAP>) -> (r: Result<()>)
        ensures
            r is Err && old(serializer)@.len() + 1 <= CAP ==> final(serializer)@ == old(serializer)@ + seq![
                encode_utf8(seq![*self]).len() as u8,
            ],
            r is Err && old(serializer)@.len() + 1 > CAP ==> final(serializer)@ == old(serializer)@,
    {
        let len = char_len_utf8(*self);
        proof {
            lemma_char_utf8_len(*self);
        }
        let _ = serializer.len();
        let ghost b0 = serializer.buffer();
        let ghost l0: int = serializer@.len() as int;
        let count = [len as u8];
        assert(count@ =~= seq![len as u8]);
        serializer.serialize_bytes_slice(count.as_slice())?;
        let ghost b1 = serializer.buffer();
        assert(b1.skip(l0 + 1) =~= b0.skip(l0 + 1));
        let bytes = char_encode_utf8(*self);
        serializer.serialize_bytes_slice(vstd::slice::slice_subrange(bytes.as_slice(), 0, len))?;
        assert(serializer.buffer().skip(l0 + 1 + len) =~= b0.skip(l0 + 1 + len));
        assert(count@ =~= seq![len as u8]);
        Ok(())
    }
}

impl ByteSerializeHeap for char {
    fn byte_serialize_heap(&self, ser: &mut ByteSerializerHeap) -> (r: Result<()>) {
        let len = char_len_utf8(*self);
        proof {
            lemma_char_utf8_len(*self);
        }
        let count = [len as u8];
        ser.serialize_bytes_slice(count.as_slice())?;
        let bytes = char_encode_utf8(*self);
        ser.serialize_bytes_slice(vstd::slice::slice_subrange(bytes.as_slice(), 0, len))?;
        assert(count@ =~= seq![len as u8]);
        Ok(())
    }
}

impl ByteDeserialized<char> for char {
    open spec fn byte_parse_len(bytes: Seq<u8>) -> Option<nat> {
        if bytes.len() < 1 || bytes[0] < 1 || bytes[0] > 4 || bytes.len() < 1 + bytes[0] || !valid_utf8(char_body(bytes)) {
            None
        } else {
            Some(1 + bytes[0] as nat)
        }
    }

    open spec fn byte_parsed(bytes: Seq<u8>, v: char) -> bool {
        v == decode_utf8(char_body(bytes))[0]
    }
}

impl ByteDeserializeSlice<char> for char {
    /// A count other than one to four fails with a message that names it;
    /// bytes that are not UTF-8 fail with a message that dumps them.
    fn byte_deserialize(des: &mut ByteDeserializerSlice) -> (r: Result<char>)
        ensures
            r matches Err(e) ==> (1 <= old(des).rest().len() && !(1 <= old(des).rest()[0] <= 4) ==> e.message@
                == char_len_message(old(des).rest()[0])),
            r matches Err(e) ==> (1 <= old(des).rest().len() && 1 <= old(des).rest()[0] <= 4 && 1 + old(
                des,
            ).rest()[0] <= old(des).rest().len() ==> e.message@ == invalid_char_message(char_body(old(des).rest()))),
    {
        let _ = des.remaining();
        let ghost rest0 = des.rest();
        let len = des.deserialize_bytes_slice(1)?[0];
        assert(des.rest() =~= rest0.skip(1));
        if !(1 <= len && len <= 4) {
            return Err(invalid_char_len(len));
        }
        let bytes = des.deserialize_bytes_slice(len as usize)?;
        assert(bytes@ =~= char_body(rest0));
        match string_from_utf8(vstd::slice::slice_to_vec(bytes)) {
            Some(s) => {
                proof {
                    decode_utf8_encode_utf8(bytes@);
                    if s@.len() == 0 {
                        assert(encode_utf8(s@) =~= Seq::<u8>::empty());
                    }
                }
                Ok(first_char(&s))
            },
            None => Err(invalid_char(bytes)),
        }
    }
}

/// A `String`'s and a `char`'s serialized length, as `ByteSerializedLenOf`
/// gives it, is the number of bytes that they occupy once serialized, count
/// or length prefix included.
pub proof fn law_utf8_len_of_is_bytes_written(s: String, c: char)
    ensures
        s.byte_len_spec() == s.byte_image().len(),
        c.byte_len_spec() == c.byte_image().len(),
{
}

/// A `String` written out and read back is the same string, whatever bytes
/// follow it, and reading it takes exactly the bytes written.
pub proof fn law_string_roundtrip(s: String, rest: Seq<u8>)
    requires
        encode_utf8(s@).len() <= usize::MAX,
    ensures
        <String as ByteDeserialized<String>>::byte_parse_len(s.byte_image() + rest) == Some(s.byte_image().len()),
        forall|t: String| <String as ByteDeserialized<String>>::byte_parsed(s.byte_image() + rest, t) <==> t@ == s@,
{
    let body = encode_utf8(s@);
    let bytes = s.byte_image() + rest;
    crate::utils::numerics::be_bytes::law_be_bytes_roundtrip::<8, usize>(body.len() as usize, body + rest);
    assert(bytes =~= be_digits(body.len(), 8) + (body + rest));
    assert(string_body_len(bytes) == body.len());
    assert(string_body(bytes) =~= body);
    encode_utf8_valid_utf8(s@);
    encode_utf8_decode_utf8(s@);
}

/// A `char` written out and read back is the same char, whatever bytes follow
/// it, and reading it takes exactly the bytes written.
pub proof fn law_char_roundtrip(c: char, rest: Seq<u8>)
    ensures
        <char as ByteDeserialized<char>>::byte_parse_len(c.byte_image() + rest) == Some(c.byte_image().len()),
        forall|t: char| <char as ByteDeserialized<char>>::byte_parsed(c.byte_image() + rest, t) <==> t == c,
{
    let body = encode_utf8(seq![c]);
    let bytes = c.byte_image() + rest;
    lemma_char_utf8_len(c);
    assert(bytes[0] == body.len());
    assert(char_body(bytes) =~= body);
    encode_utf8_valid_utf8(seq![c]);
    encode_utf8_decode_utf8(seq![c]);
}

/// Bytes that read as a `String` start with the image of that string: writing
/// it out again gives back the bytes read, when the announced length fits in a
/// `usize` of the target.
pub proof fn law_string_reread(bytes: Seq<u8>, t: String)
    requires
        <String as ByteDeserialized<String>>::byte_parse_len(bytes) is Some,
        <String as ByteDeserialized<String>>::byte_parsed(bytes, t),
        be_value(bytes.take(8)) <= usize::MAX,
    ensures
        t.byte_image() == bytes.take(8 + string_body_len(bytes) as int),
{
    let n = string_body_len(bytes);
    decode_utf8_encode_utf8(string_body(bytes));
    crate::utils::numerics::digits::lemma_be_digits_of_value(bytes.take(8));
    assert(bytes.take(8).take(8) =~= bytes.take(8));
    assert(bytes.take(8 + n as int) =~= bytes.take(8) + string_body(bytes));
}

/// Bytes that read as a `char` start with the image of that char, when the
/// bytes they announce encode that one char alone.
pub proof fn law_char_reread(bytes: Seq<u8>, c: char)
    requires
        <char as ByteDeserialized<char>>::byte_parse_len(bytes) is Some,
        <char as ByteDeserialized<char>>::byte_parsed(bytes, c),
        decode_utf8(char_body(bytes)).len() == 1,
    ensures
        c.byte_image() == bytes.take(1 + bytes[0] as int),
{
    decode_utf8_encode_utf8(char_body(bytes));
    assert(decode_utf8(char_body(bytes)) =~= seq![c]);
    assert(bytes.take(1 + bytes[0] as int) =~= seq![bytes[0]] + char_body(bytes));
}

} // verus!
