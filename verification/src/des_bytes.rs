//! Deserialization from a `Bytes` buffer, front to back.
use vstd::prelude::*;
use bytes::Bytes;
use crate::buffers::{bytes_as_slice, bytes_clone, bytes_content, bytes_from_vec, bytes_len, bytes_split_off, bytes_split_to};
use crate::des_slice::{slice_as_array, ByteDeserialized};
use crate::ser_stack::ByteSerialized;
use crate::error::{Result, SerDesError};
use crate::utils::hex::{hex_line, hex_pretty, to_hex_line, to_hex_pretty};
use crate::utils::numerics::be_bytes::FromBeBytes;
use crate::utils::numerics::digits::{be_value, le_value, lemma_pow256_widths};
use crate::utils::numerics::le_bytes::FromLeBytes;
use crate::utils::numerics::ne_bytes::{ne_value, FromNeBytes};
use crate::utils::numerics::width::FixedWidth;
use crate::utils::text::{decimal, push_decimal, push_str};

verus! {

/// A cursor over a `Bytes` buffer: the bytes before the cursor have been read,
/// those after it remain to be read.
#[derive(Debug, PartialEq)]
pub struct ByteDeserializerBytes {
    bytes: Bytes,
    idx: usize,
}

/// A cursor over `data` at `pos`, described as text.
pub open spec fn bytes_lower_hex(data: Seq<u8>, pos: nat, alternate: bool) -> Seq<char> {
    "ByteDeserializerBytes { len: "@ + decimal(data.len()) + ", idx: "@ + decimal(pos) + ", remaining: "@
        + decimal((data.len() - pos) as nat) + ", bytes: "@ + (if alternate {
        "\n"@ + hex_pretty(data)
    } else {
        hex_line(data)
    }) + " }"@
}

/// The message of a failure to read `n` bytes.
pub open spec fn bytes_take_failure(n: nat, data: Seq<u8>, pos: nat) -> Seq<char> {
    "Failed to get a slice size: "@ + decimal(n) + " bytes from "@ + bytes_lower_hex(data, pos, false)
}

/// The message of a failure to peek at `n` bytes.
pub open spec fn bytes_peek_failure(n: nat, data: Seq<u8>, pos: nat) -> Seq<char> {
    "ByteDeserializerBytes len: "@ + decimal(data.len()) + ", idx: "@ + decimal(pos) + ", remaining: "@
        + decimal((data.len() - pos) as nat) + ", requested: "@ + decimal(n) + ", bytes:\n"@
        + bytes_lower_hex(data, pos, true)
}

impl Clone for ByteDeserializerBytes {
    /// Another cursor over the same bytes, at the same place.
    fn clone(&self) -> (r: Self)
        ensures
            r.data() == self.data(),
            r.pos() == self.pos(),
    {
        proof {
            use_type_invariant(self);
        }
        ByteDeserializerBytes { bytes: bytes_clone(&self.bytes), idx: self.idx }
    }
}

impl From<Vec<u8>> for ByteDeserializerBytes {
    /// A cursor at the front of the bytes of `value`.
    fn from(value: Vec<u8>) -> (r: Self)
        ensures
            r.data() == value@,
            r.pos() == 0,
    {
        ByteDeserializerBytes::new(bytes_from_vec(value))
    }
}

impl vstd::std_specs::convert::FromSpecImpl<Vec<u8>> for ByteDeserializerBytes {
    open spec fn obeys_from_spec() -> bool {
        false
    }

    open spec fn from_spec(v: Vec<u8>) -> Self {
        arbitrary()
    }
}

impl ByteDeserializerBytes {
    #[verifier::type_invariant]
    closed spec fn well_formed(self) -> bool {
        self.idx <= bytes_content(self.bytes).len()
    }

    /// All the bytes, read and unread.
    pub closed spec fn data(&self) -> Seq<u8> {
        bytes_content(self.bytes)
    }

    /// The number of bytes read so far.
    pub closed spec fn pos(&self) -> nat {
        self.idx as nat
    }

    /// The bytes that remain to be read.
    pub open spec fn rest(&self) -> Seq<u8> {
        self.data().skip(self.pos() as int)
    }

    /// A cursor at the front of `bytes`.
    pub fn new(bytes: Bytes) -> (r: ByteDeserializerBytes)
        ensures
            r.data() == bytes_content(bytes),
            r.pos() == 0,
    {
        ByteDeserializerBytes { bytes, idx: 0 }
    }

    /// The number of bytes read so far: the inverse of [Self::remaining()].
    pub fn idx(&self) -> (r: usize)
        ensures
            r == self.pos(),
            r <= self.data().len(),
    {
        proof {
            use_type_invariant(self);
        }
        self.idx
    }

    /// The number of bytes that remain to be read: the inverse of [Self::idx()].
    pub fn remaining(&self) -> (r: usize)
        ensures
            r == self.data().len() - self.pos(),
            r == self.rest().len(),
            self.pos() <= self.data().len(),
    {
        proof {
            use_type_invariant(self);
        }
        bytes_len(&self.bytes) - self.idx
    }

    /// The number of bytes, read and unread, which reading does not change.
    pub fn len(&self) -> (r: usize)
        ensures
            r == self.data().len(),
    {
        bytes_len(&self.bytes)
    }

    /// Whether no bytes remain to be read.
    pub fn is_empty(&self) -> (r: bool)
        ensures
            r == (self.rest().len() == 0),
            self.pos() <= self.data().len(),
    {
        self.remaining() == 0
    }

    /// The failure to read `n` more bytes.
    fn error(&self, n: usize) -> (e: SerDesError)
        ensures
            e.message@ == bytes_take_failure(n as nat, self.data(), self.pos()),
    {
        let mut message = String::new();
        push_str(&mut message, "Failed to get a slice size: ");
        push_decimal(&mut message, n as u128);
        push_str(&mut message, " bytes from ");
        push_str(&mut message, self.fmt_lower_hex(false).as_str());
        assert(message@ =~= bytes_take_failure(n as nat, self.data(), self.pos()));
        SerDesError { message }
    }

    /// The cursor described as text: the number of bytes, read and remaining,
    /// and a hex dump of all of them, on one line or, when `alternate`, sixteen
    /// bytes per line.
    pub fn fmt_lower_hex(&self, alternate: bool) -> (r: String)
        ensures
            r@ == bytes_lower_hex(self.data(), self.pos(), alternate),
    {
        let mut s = String::new();
        push_str(&mut s, "ByteDeserializerBytes { len: ");
        push_decimal(&mut s, self.len() as u128);
        push_str(&mut s, ", idx: ");
        push_decimal(&mut s, self.idx() as u128);
        push_str(&mut s, ", remaining: ");
        push_decimal(&mut s, self.remaining() as u128);
        push_str(&mut s, ", bytes: ");
        if alternate {
            push_str(&mut s, "\n");
            push_str(&mut s, to_hex_pretty(bytes_as_slice(&self.bytes)).as_str());
        } else {
            push_str(&mut s, to_hex_line(bytes_as_slice(&self.bytes)).as_str());
        }
        push_str(&mut s, " }");
        assert(s@ =~= bytes_lower_hex(self.data(), self.pos(), alternate));
        s
    }

    /// Reads all the remaining bytes.
    pub fn deserialize_bytes_slice_remaining(&mut self) -> (r: &[u8])
        ensures
            r@ == old(self).rest(),
            final(self).data() == old(self).data(),
            final(self).pos() == old(self).data().len(),
    {
        proof {
            use_type_invariant(&*self);
        }
        let all = bytes_as_slice(&self.bytes);
        let res = vstd::slice::slice_subrange(all, self.idx, all.len());
        self.idx = all.len();
        res
    }

    /// Reads the next `len` bytes, or fails, reading nothing, when fewer remain.
    pub fn deserialize_bytes_slice(&mut self, len: usize) -> (r: Result<&[u8]>)
        ensures
            r is Ok <==> len <= old(self).rest().len(),
            final(self).data() == old(self).data(),
            match r {
                Ok(s) => s@ == old(self).rest().take(len as int) && final(self).pos() == old(self).pos() + len,
                Err(e) => final(self).pos() == old(self).pos() && e.message@ == bytes_take_failure(len as nat, old(self).data(), old(self).pos()),
            },
    {
        proof {
            use_type_invariant(&*self);
        }
        let all = bytes_as_slice(&self.bytes);
        if len <= all.len() - self.idx {
            let s = vstd::slice::slice_subrange(all, self.idx, self.idx + len);
            assert(s@ =~= old(self).rest().take(len as int));
            self.idx = self.idx + len;
            Ok(s)
        } else {
            Err(self.error(len))
        }
    }

    /// Reads the next byte, or fails when none remains.
    pub fn deserialize_u8(&mut self) -> (r: Result<u8>)
        ensures
            r is Ok <==> old(self).rest().len() >= 1,
            final(self).data() == old(self).data(),
            match r {
                Ok(v) => v == old(self).rest()[0] && final(self).pos() == old(self).pos() + 1,
                Err(e) => final(self).pos() == old(self).pos() && e.message@ == bytes_take_failure(1, old(self).data(), old(self).pos()),
            },
    {
        proof {
            use_type_invariant(&*self);
        }
        let all = bytes_as_slice(&self.bytes);
        if self.idx < all.len() {
            let v = all[self.idx];
            self.idx = self.idx + 1;
            Ok(v)
        } else {
            Err(self.error(1))
        }
    }

    /// Reads the next byte as a signed byte, or fails when none remains.
    pub fn deserialize_i8(&mut self) -> (r: Result<i8>)
        ensures
            r is Ok <==> old(self).rest().len() >= 1,
            final(self).data() == old(self).data(),
            match r {
                Ok(v) => v == i8::from_bits(old(self).rest()[0] as nat) && final(self).pos() == old(self).pos() + 1,
                Err(e) => final(self).pos() == old(self).pos() && e.message@ == bytes_take_failure(1, old(self).data(), old(self).pos()),
            },
    {
        let b = self.deserialize_u8()?;
        proof {
            lemma_pow256_widths();
        }
        Ok(i8::of_bits(b as u128))
    }

    /// Moves the cursor forward by `len` bytes.
    fn advance_idx(&mut self, len: usize)
        requires
            old(self).pos() + len <= old(self).data().len(),
        ensures
            final(self).data() == old(self).data(),
            final(self).pos() == old(self).pos() + len,
    {
        proof {
            use_type_invariant(&*self);
        }
        let _ = bytes_len(&self.bytes);
        self.idx = self.idx + len;
    }

    /// The next `len` bytes, without reading them, or a failure when fewer remain.
    pub fn peek_bytes_slice(&self, len: usize) -> (r: Result<&[u8]>)
        ensures
            r is Ok <==> len <= self.rest().len(),
            r matches Ok(s) ==> s@ == self.rest().take(len as int),
            r matches Err(e) ==> e.message@ == bytes_peek_failure(len as nat, self.data(), self.pos()),
            self.pos() <= self.data().len(),
    {
        proof {
            use_type_invariant(self);
        }
        let all = bytes_as_slice(&self.bytes);
        if len <= all.len() - self.idx {
            let s = vstd::slice::slice_subrange(all, self.idx, self.idx + len);
            assert(s@ =~= self.rest().take(len as int));
            Ok(s)
        } else {
            let mut message = String::new();
            push_str(&mut message, "ByteDeserializerBytes len: ");
            push_decimal(&mut message, self.len() as u128);
            push_str(&mut message, ", idx: ");
            push_decimal(&mut message, self.idx as u128);
            push_str(&mut message, ", remaining: ");
            push_decimal(&mut message, self.remaining() as u128);
            push_str(&mut message, ", requested: ");
            push_decimal(&mut message, len as u128);
            push_str(&mut message, ", bytes:\n");
            push_str(&mut message, self.fmt_lower_hex(true).as_str());
            assert(message@ =~= bytes_peek_failure(len as nat, self.data(), self.pos()));
            Err(SerDesError { message })
        }
    }

    /// The next `at` bytes as a new `Bytes`, without reading them, or a
    /// failure, reading nothing, when fewer remain.
    pub fn peek_bytes(&self, at: usize) -> (r: Result<Bytes>)
        ensures
            r is Ok <==> at <= self.rest().len(),
            r matches Ok(b) ==> bytes_content(b) == self.rest().take(at as int),
            r matches Err(e) ==> e.message@ == bytes_take_failure(at as nat, self.data(), self.pos()),
    {
        proof {
            use_type_invariant(self);
        }
        let _ = bytes_len(&self.bytes);
        if self.remaining() < at {
            Err(self.error(at))
        } else {
            let mut all = bytes_clone(&self.bytes);
            let mut head = bytes_split_to(&mut all, self.idx + at);
            let tail = bytes_split_off(&mut head, self.idx);
            assert(bytes_content(tail) =~= self.rest().take(at as int));
            Ok(tail)
        }
    }

    /// Reads the next `N` bytes as an array, or fails, reading nothing, when fewer remain.
    pub fn deserialize_bytes_array_ref<const N: usize>(&mut self) -> (r: Result<&[u8; N]>)
        ensures
            r is Ok <==> N <= old(self).rest().len(),
            final(self).data() == old(self).data(),
            match r {
                Ok(a) => a@ == old(self).rest().take(N as int) && final(self).pos() == old(self).pos() + N,
                Err(e) => final(self).pos() == old(self).pos() && e.message@ == bytes_take_failure(N as nat, old(self).data(), old(self).pos()),
            },
    {
        proof {
            use_type_invariant(&*self);
        }
        let all = bytes_as_slice(&self.bytes);
        if N <= all.len() - self.idx {
            let s = vstd::slice::slice_subrange(all, self.idx, self.idx + N);
            assert(s@ =~= old(self).rest().take(N as int));
            self.idx = self.idx + N;
            Ok(slice_as_array::<N>(s))
        } else {
            Err(self.error(N))
        }
    }

    /// Reads a numeric from its next `N` native-endian bytes.
    pub fn deserialize_ne<const N: usize, T: FixedWidth<N> + FromNeBytes<N, T>>(&mut self) -> (r: Result<T>)
        ensures
            r is Ok <==> N <= old(self).rest().len(),
            final(self).data() == old(self).data(),
            match r {
                Ok(v) => {
                    &&& (v == T::from_bits(be_value(old(self).rest().take(N as int)))
                        || v == T::from_bits(le_value(old(self).rest().take(N as int))))
                    &&& v == T::from_bits(ne_value(old(self).rest().take(N as int)))
                    &&& final(self).pos() == old(self).pos() + N
                },
                Err(e) => final(self).pos() == old(self).pos() && e.message@ == bytes_take_failure(N as nat, old(self).data(), old(self).pos()),
            },
    {
        let r = self.deserialize_bytes_array_ref::<N>()?;
        Ok(<T as FromNeBytes<N, T>>::from_bytes_ref(r))
    }

    /// Reads a numeric from its next `N` little-endian bytes.
    pub fn deserialize_le<const N: usize, T: FixedWidth<N> + FromLeBytes<N, T>>(&mut self) -> (r: Result<T>)
        ensures
            r is Ok <==> N <= old(self).rest().len(),
            final(self).data() == old(self).data(),
            match r {
                Ok(v) => v == T::from_bits(le_value(old(self).rest().take(N as int))) && final(self).pos() == old(self).pos() + N,
                Err(e) => final(self).pos() == old(self).pos() && e.message@ == bytes_take_failure(N as nat, old(self).data(), old(self).pos()),
            },
    {
        let r = self.deserialize_bytes_array_ref::<N>()?;
        Ok(<T as FromLeBytes<N, T>>::from_bytes_ref(r))
    }

    /// Reads a numeric from its next `N` big-endian bytes.
    pub fn deserialize_be<const N: usize, T: FixedWidth<N> + FromBeBytes<N, T>>(&mut self) -> (r: Result<T>)
        ensures
            r is Ok <==> N <= old(self).rest().len(),
            final(self).data() == old(self).data(),
            match r {
                Ok(v) => v == T::from_bits(be_value(old(self).rest().take(N as int))) && final(self).pos() == old(self).pos() + N,
                Err(e) => final(self).pos() == old(self).pos() && e.message@ == bytes_take_failure(N as nat, old(self).data(), old(self).pos()),
            },
    {
        let r = self.deserialize_bytes_array_ref::<N>()?;
        Ok(<T as FromBeBytes<N, T>>::from_bytes_ref(r))
    }

    /// Reads a value of a type that implements [ByteDeserializeBytes], taking
    /// exactly the bytes that its image occupies.
    pub fn deserialize<T: ByteDeserializeBytes<T>>(&mut self) -> (r: Result<T>)
        ensures
            r is Err <==> T::byte_parse_len(old(self).rest()) is None,
            final(self).data() == old(self).data(),
            old(self).pos() <= final(self).pos(),
            r matches Ok(v) ==> T::byte_parse_len(old(self).rest()) == Some((final(self).pos() - old(self).pos()) as nat)
                && old(self).pos() <= final(self).pos() && T::byte_parsed(old(self).rest(), v),
    {
        T::byte_deserialize(self)
    }

    /// Reads a value of a type that implements [ByteDeserializeBytes] from the
    /// next `len` bytes alone, taking all `len` of them; it fails when fewer
    /// remain, and on failure nothing is read.
    pub fn deserialize_take<T: ByteDeserializeBytes<T>>(&mut self, len: usize) -> (r: Result<T>)
        ensures
            r is Ok <==> len <= old(self).rest().len() && T::byte_parse_len(old(self).rest().take(len as int)) is Some,
            final(self).data() == old(self).data(),
            match r {
                Ok(v) => T::byte_parsed(old(self).rest().take(len as int), v) && final(self).pos() == old(self).pos() + len,
                Err(_) => final(self).pos() == old(self).pos(),
            },
    {
        T::byte_deserialize_take(self, len)
    }
}

/// Types that can be read from a [ByteDeserializerBytes].
pub trait ByteDeserializeBytes<T>: ByteDeserialized<T> {
    /// Reads a `T`, taking exactly the bytes that it occupies.
    fn byte_deserialize(des: &mut ByteDeserializerBytes) -> (r: Result<T>)
        ensures
            r is Err <==> Self::byte_parse_len(old(des).rest()) is None,
            final(des).data() == old(des).data(),
            old(des).pos() <= final(des).pos(),
            r matches Ok(v) ==> Self::byte_parse_len(old(des).rest()) == Some((final(des).pos() - old(des).pos()) as nat)
                && old(des).pos() <= final(des).pos() && Self::byte_parsed(old(des).rest(), v),
    ;

    /// Reads a `T` from the next `len` bytes alone and takes all `len` of
    /// them; it fails when fewer remain. On failure nothing is read.
    fn byte_deserialize_take(des: &mut ByteDeserializerBytes, len: usize) -> (r: Result<T>)
        ensures
            r is Ok <==> len <= old(des).rest().len() && Self::byte_parse_len(old(des).rest().take(len as int)) is Some,
            final(des).data() == old(des).data(),
            match r {
                Ok(v) => Self::byte_parsed(old(des).rest().take(len as int), v) && final(des).pos() == old(des).pos() + len,
                Err(_) => final(des).pos() == old(des).pos(),
            },
    {
        let _ = des.remaining();
        let bytes = des.peek_bytes(len)?;
        let tmp_des = &mut ByteDeserializerBytes::new(bytes);
        assert(tmp_des.rest() =~= old(des).rest().take(len as int));
        let result = Self::byte_deserialize(tmp_des);
        match result {
            Ok(v) => {
                des.advance_idx(len);
                Ok(v)
            },
            Err(e) => Err(e),
        }
    }
}

impl ByteDeserialized<Bytes> for Bytes {
    open spec fn byte_parse_len(bytes: Seq<u8>) -> Option<nat> {
        Some(bytes.len())
    }

    open spec fn byte_parsed(bytes: Seq<u8>, v: Bytes) -> bool {
        bytes_content(v) == bytes
    }
}

/// Greedy: a `Bytes` takes all the remaining bytes.
impl ByteDeserializeBytes<Bytes> for Bytes {
    fn byte_deserialize(des: &mut ByteDeserializerBytes) -> (r: Result<Bytes>) {
        let bytes = des.peek_bytes(des.remaining())?;
        assert(des.rest().take(des.rest().len() as int) =~= des.rest());
        des.advance_idx(des.remaining());
        Ok(bytes)
    }
}

/// A `Bytes` is read greedily: reading the bytes of a `Bytes` followed by
/// more bytes gives all of them, so a `Bytes` written last is read back as it
/// was.
pub proof fn law_bytes_greedy(b: Bytes, rest: Seq<u8>)
    ensures
        <Bytes as ByteDeserialized<Bytes>>::byte_parse_len(b.byte_image() + rest) == Some(b.byte_image().len() + rest.len()),
        forall|t: Bytes| <Bytes as ByteDeserialized<Bytes>>::byte_parsed(b.byte_image() + rest, t) <==> bytes_content(t) == bytes_content(b) + rest,
        forall|t: Bytes| <Bytes as ByteDeserialized<Bytes>>::byte_parsed(b.byte_image(), t) <==> bytes_content(t) == bytes_content(b),
{
}

/// Reads a `T` from the front of `bytes`.
pub fn from_bytes<T: ByteDeserializeBytes<T>>(bytes: Bytes) -> (r: Result<T>)
    ensures
        r is Err <==> T::byte_parse_len(bytes_content(bytes)) is None,
        r matches Ok(v) ==> T::byte_parsed(bytes_content(bytes), v),
{
    let de = &mut ByteDeserializerBytes::new(bytes);
    assert(de.rest() =~= bytes_content(bytes));
    T::byte_deserialize(de)
}

} // verus!
