//! Deserialization from a borrowed slice of bytes, front to back.
use vstd::prelude::*;
use crate::error::{Result, SerDesError};
use crate::utils::numerics::digits::{be_value, le_value, lemma_pow256_widths};
use crate::utils::numerics::width::FixedWidth;
use crate::utils::numerics::be_bytes::FromBeBytes;
use crate::utils::numerics::le_bytes::FromLeBytes;
use crate::utils::numerics::ne_bytes::{ne_value, FromNeBytes};
use crate::ser_stack::ByteSerializerStack;
use crate::ser_heap::ByteSerializerHeap;
use crate::utils::hex::{hex_line, hex_pretty, to_hex_line, to_hex_pretty};
use crate::utils::text::{decimal, push_decimal, push_str};

verus! {

/// A cursor over a slice of bytes: the bytes before the cursor have been read,
/// those after it remain to be read.
#[derive(Debug, PartialEq)]
pub struct ByteDeserializerSlice<'bytes> {
    bytes: &'bytes [u8],
    idx: usize,
}

/// A cursor over `data` at `pos`, described as text.
pub open spec fn slice_lower_hex(data: Seq<u8>, pos: nat, alternate: bool) -> Seq<char> {
    "ByteDeserializerSlice { len: "@ + decimal(data.len()) + ", idx: "@ + decimal(pos) + ", remaining: "@
        + decimal((data.len() - pos) as nat) + ", bytes: "@ + (if alternate {
        "\n"@ + hex_pretty(data)
    } else {
        hex_line(data)
    }) + " }"@
}

/// The message of a failure to read `n` bytes.
pub open spec fn take_failure(n: nat, data: Seq<u8>, pos: nat) -> Seq<char> {
    "Failed to get a slice size: "@ + decimal(n) + " bytes from "@ + slice_lower_hex(data, pos, false)
}

/// The message of a failure to peek at `n` bytes.
pub open spec fn peek_failure(n: nat, data: Seq<u8>, pos: nat) -> Seq<char> {
    "requested: "@ + decimal(n) + ", bytes:\n"@ + slice_lower_hex(data, pos, true)
}

/// Calls `<&[u8; N]>::try_from` on a slice of exactly `N` bytes, which the
/// standard library documents to succeed and to view the same bytes.
#[verifier::external_body]
pub(crate) fn slice_as_array<const N: usize>(s: &[u8]) -> (r: &[u8; N])
    requires
        s@.len() == N,
    ensures
        r@ == s@,
{
    s.try_into().unwrap()
}

impl<'bytes> ByteDeserializerSlice<'bytes> {
    #[verifier::type_invariant]
    closed spec fn well_formed(self) -> bool {
        self.idx <= self.bytes@.len()
    }

    /// All the bytes, read and unread.
    pub closed spec fn data(&self) -> Seq<u8> {
        self.bytes@
    }

    /// The number of bytes read so far.
    pub closed spec fn pos(&self) -> nat {
        self.idx as nat
    }

    /// The bytes that remain to be read.
    pub open spec fn rest(&self) -> Seq<u8> {
        self.data().skip(self.pos() as int)
    }

    /// A cursor at the front of `bytes`.
    pub fn new(bytes: &[u8]) -> (r: ByteDeserializerSlice)
        ensures
            r.data() == bytes@,
            r.pos() == 0,
    {
        ByteDeserializerSlice { bytes, idx: 0 }
    }

    /// Moves the cursor back to the front.
    pub fn reset(&mut self)
        ensures
            final(self).data() == old(self).data(),
            final(self).pos() == 0,
    {
        self.idx = 0;
    }

    /// The number of bytes read so far: the inverse of [Self::remaining()].
    pub fn idx(&self) -> (r: usize)
        ensures
            r == self.pos(),
            r <= self.data().len(),
    {
        proof {
            use_type_invariant(self);
        }
        self.idx
    }

    /// The number of bytes that remain to be read: the inverse of [Self::idx()].
    pub fn remaining(&self) -> (r: usize)
        ensures
            r == self.data().len() - self.pos(),
            r == self.rest().len(),
            self.pos() <= self.data().len(),
    {
        proof {
            use_type_invariant(self);
        }
        self.bytes.len() - self.idx
    }

    /// The number of bytes, read and unread, which reading does not change.
    pub fn len(&self) -> (r: usize)
        ensures
            r == self.data().len(),
    {
        self.bytes.len()
    }

    /// Whether no bytes remain to be read.
    pub fn is_empty(&self) -> (r: bool)
        ensures
            r == (self.rest().len() == 0),
            self.pos() <= self.data().len(),
    {
        self.remaining() == 0
    }

    /// The failure to read `n` more bytes.
    fn error(&self, n: usize) -> (e: SerDesError)
        ensures
            e.message@ == take_failure(n as nat, self.data(), self.pos()),
    {
        let mut message = String::new();
        push_str(&mut message, "Failed to get a slice size: ");
        push_decimal(&mut message, n as u128);
        push_str(&mut message, " bytes from ");
        push_str(&mut message, self.fmt_lower_hex(false).as_str());
        assert(message@ =~= take_failure(n as nat, self.data(), self.pos()));
        SerDesError { message }
    }

    /// The cursor described as text: the number of bytes, read and remaining,
    /// and a hex dump of all of them, on one line or, when `alternate`, sixteen
    /// bytes per line.
    pub fn fmt_lower_hex(&self, alternate: bool) -> (r: String)
        ensures
            r@ == slice_lower_hex(self.data(), self.pos(), alternate),
    {
        let mut s = String::new();
        push_str(&mut s, "ByteDeserializerSlice { len: ");
        push_decimal(&mut s, self.len() as u128);
        push_str(&mut s, ", idx: ");
        push_decimal(&mut s, self.idx() as u128);
        push_str(&mut s, ", remaining: ");
        push_decimal(&mut s, self.remaining() as u128);
        push_str(&mut s, ", bytes: ");
        if alternate {
            push_str(&mut s, "\n");
            push_str(&mut s, to_hex_pretty(self.bytes).as_str());
        } else {
            push_str(&mut s, to_hex_line(self.bytes).as_str());
        }
        push_str(&mut s, " }");
        assert(s@ =~= slice_lower_hex(self.data(), self.pos(), alternate));
        s
    }

    /// Reads all the remaining bytes.
    pub fn deserialize_bytes_slice_remaining(&mut self) -> (r: &'bytes [u8])
        ensures
            r@ == old(self).rest(),
            final(self).data() == old(self).data(),
            final(self).pos() == old(self).data().len(),
    {
        proof {
            use_type_invariant(&*self);
        }
        let slice = vstd::slice::slice_subrange(self.bytes, self.idx, self.bytes.len());
        self.idx = self.bytes.len();
        slice
    }

    /// Reads the next `len` bytes, or fails, reading nothing, when fewer remain.
    pub fn deserialize_bytes_slice(&mut self, len: usize) -> (r: Result<&'bytes [u8]>)
        ensures
            r is Ok <==> len <= old(self).rest().len(),
            final(self).data() == old(self).data(),
            match r {
                Ok(s) => s@ == old(self).rest().take(len as int) && final(self).pos() == old(self).pos() + len,
                Err(e) => final(self).pos() == old(self).pos() && e.message@ == peek_failure(len as nat, old(self).data(), old(self).pos()),
            },
    {
        let res = self.peek_bytes_slice(len)?;
        self.advance_idx(len);
        Ok(res)
    }

    /// Reads the next byte, or fails when none remains.
    pub fn deserialize_u8(&mut self) -> (r: Result<u8>)
        ensures
            r is Ok <==> old(self).rest().len() >= 1,
            final(self).data() == old(self).data(),
            match r {
                Ok(v) => v == old(self).rest()[0] && final(self).pos() == old(self).pos() + 1,
                Err(e) => final(self).pos() == old(self).pos() && e.message@ == take_failure(1, old(self).data(), old(self).pos()),
            },
    {
        proof {
            use_type_invariant(&*self);
        }
        if self.idx < self.bytes.len() {
            let v = self.bytes[self.idx];
            self.idx = self.idx + 1;
            Ok(v)
        } else {
            Err(self.error(1))
        }
    }

    /// Reads the next byte as a signed byte, or fails when none remains.
    pub fn deserialize_i8(&mut self) -> (r: Result<i8>)
        ensures
            r is Ok <==> old(self).rest().len() >= 1,
            final(self).data() == old(self).data(),
            match r {
                Ok(v) => v == i8::from_bits(old(self).rest()[0] as nat) && final(self).pos() == old(self).pos() + 1,
                Err(e) => final(self).pos() == old(self).pos() && e.message@ == take_failure(1, old(self).data(), old(self).pos()),
            },
    {
        let b = self.deserialize_u8()?;
        proof {
            lemma_pow256_widths();
        }
        Ok(i8::of_bits(b as u128))
    }

    /// Moves the cursor forward by `len` bytes.
    fn advance_idx(&mut self, len: usize)
        requires
            old(self).pos() + len <= old(self).data().len(),
        ensures
            final(self).data() == old(self).data(),
            final(self).pos() == old(self).pos() + len,
    {
        proof {
            use_type_invariant(&*self);
            assert(self.bytes@.len() == vstd::slice::spec_slice_len(self.bytes));
        }
        self.idx = self.idx + len;
    }

    /// The next `len` bytes, without reading them, or a failure when fewer remain.
    pub fn peek_bytes_slice(&self, len: usize) -> (r: Result<&'bytes [u8]>)
        ensures
            r is Ok <==> len <= self.rest().len(),
            r matches Ok(s) ==> s@ == self.rest().take(len as int),
            r matches Err(e) ==> e.message@ == peek_failure(len as nat, self.data(), self.pos()),
            self.pos() <= self.data().len(),
    {
        proof {
            use_type_invariant(self);
        }
        if len <= self.bytes.len() - self.idx {
            let s = vstd::slice::slice_subrange(self.bytes, self.idx, self.idx + len);
            assert(s@ =~= self.rest().take(len as int));
            Ok(s)
        } else {
            Err(self.peek_error(len))
        }
    }

    /// The failure to peek at `len` more bytes.
    fn peek_error(&self, len: usize) -> (e: SerDesError)
        ensures
            e.message@ == peek_failure(len as nat, self.data(), self.pos()),
    {
        let mut message = String::new();
        push_str(&mut message, "requested: ");
        push_decimal(&mut message, len as u128);
        push_str(&mut message, ", bytes:\n");
        push_str(&mut message, self.fmt_lower_hex(true).as_str());
        assert(message@ =~= peek_failure(len as nat, self.data(), self.pos()));
        SerDesError { message }
    }

    /// Reads the next `N` bytes as an array, or fails, reading nothing, when fewer remain.
    pub fn deserialize_bytes_array_ref<const N: usize>(&mut self) -> (r: Result<&'bytes [u8; N]>)
        ensures
            r is Ok <==> N <= old(self).rest().len(),
            final(self).data() == old(self).data(),
            match r {
                Ok(a) => a@ == old(self).rest().take(N as int) && final(self).pos() == old(self).pos() + N,
                Err(e) => final(self).pos() == old(self).pos() && e.message@ == take_failure(N as nat, old(self).data(), old(self).pos()),
            },
    {
        proof {
            use_type_invariant(&*self);
        }
        if N <= self.bytes.len() - self.idx {
            let s = vstd::slice::slice_subrange(self.bytes, self.idx, self.idx + N);
            self.idx = self.idx + N;
            Ok(slice_as_array::<N>(s))
        } else {
            Err(self.error(N))
        }
    }

    /// Reads a numeric from its next `N` native-endian bytes.
    pub fn deserialize_ne<const N: usize, T: FixedWidth<N> + FromNeBytes<N, T>>(&mut self) -> (r: Result<T>)
        ensures
            r is Ok <==> N <= old(self).rest().len(),
            final(self).data() == old(self).data(),
            match r {
                Ok(v) => {
                    &&& (v == T::from_bits(be_value(old(self).rest().take(N as int)))
                        || v == T::from_bits(le_value(old(self).rest().take(N as int))))
                    &&& v == T::from_bits(ne_value(old(self).rest().take(N as int)))
                    &&& final(self).pos() == old(self).pos() + N
                },
                Err(e) => final(self).pos() == old(self).pos() && e.message@ == take_failure(N as nat, old(self).data(), old(self).pos()),
            },
    {
        let r = self.deserialize_bytes_array_ref::<N>()?;
        Ok(<T as FromNeBytes<N, T>>::from_bytes_ref(r))
    }

    /// Reads a numeric from its next `N` little-endian bytes.
    pub fn deserialize_le<const N: usize, T: FixedWidth<N> + FromLeBytes<N, T>>(&mut self) -> (r: Result<T>)
        ensures
            r is Ok <==> N <= old(self).rest().len(),
            final(self).data() == old(self).data(),
            match r {
                Ok(v) => v == T::from_bits(le_value(old(self).rest().take(N as int))) && final(self).pos() == old(self).pos() + N,
                Err(e) => final(self).pos() == old(self).pos() && e.message@ == take_failure(N as nat, old(self).data(), old(self).pos()),
            },
    {
        let r = self.deserialize_bytes_array_ref::<N>()?;
        Ok(<T as FromLeBytes<N, T>>::from_bytes_ref(r))
    }

    /// Reads a numeric from its next `N` big-endian bytes.
    pub fn deserialize_be<const N: usize, T: FixedWidth<N> + FromBeBytes<N, T>>(&mut self) -> (r: Result<T>)
        ensures
            r is Ok <==> N <= old(self).rest().len(),
            final(self).data() == old(self).data(),
            match r {
                Ok(v) => v == T::from_bits(be_value(old(self).rest().take(N as int))) && final(self).pos() == old(self).pos() + N,
                Err(e) => final(self).pos() == old(self).pos() && e.message@ == take_failure(N as nat, old(self).data(), old(self).pos()),
            },
    {
        let r = self.deserialize_bytes_array_ref::<N>()?;
        Ok(<T as FromBeBytes<N, T>>::from_bytes_ref(r))
    }

    /// Reads a value of a type that implements [ByteDeserializeSlice], taking
    /// exactly the bytes that its image occupies.
    pub fn deserialize<T: ByteDeserializeSlice<T>>(&mut self) -> (r: Result<T>)
        ensures
            r is Err <==> T::byte_parse_len(old(self).rest()) is None,
            final(self).data() == old(self).data(),
            old(self).pos() <= final(self).pos(),
            r matches Ok(v) ==> T::byte_parse_len(old(self).rest()) == Some((final(self).pos() - old(self).pos()) as nat)
                && old(self).pos() <= final(self).pos() && T::byte_parsed(old(self).rest(), v),
    {
        T::byte_deserialize(self)
    }

    /// Reads a value of a type that implements [ByteDeserializeSlice] from the
    /// next `len` bytes, taking all `len` of them; on failure nothing is read.
    pub fn deserialize_take<T: ByteDeserializeSlice<T>>(&mut self, len: usize) -> (r: Result<T>)
        ensures
            r is Ok <==> len <= old(self).rest().len() && T::byte_parse_len(old(self).rest().take(len as int)) is Some,
            final(self).data() == old(self).data(),
            match r {
                Ok(v) => T::byte_parsed(old(self).rest().take(len as int), v) && final(self).pos() == old(self).pos() + len,
                Err(_) => final(self).pos() == old(self).pos(),
            },
    {
        T::byte_deserialize_take(self, len)
    }
}

/// How a `T` is read from the front of a byte stream: shared by the slice and
/// the `Bytes` deserializers, so both read the same value from the same bytes.
pub trait ByteDeserialized<T> {
    /// The number of bytes that a `T` at the front of `bytes` occupies, or
    /// nothing when `bytes` does not start with the image of a `T`.
    spec fn byte_parse_len(bytes: Seq<u8>) -> Option<nat>;

    /// `v` is the value that reading a `T` from the front of `bytes` gives.
    spec fn byte_parsed(bytes: Seq<u8>, v: T) -> bool;
}

/// Types that can be read from a [ByteDeserializerSlice].
pub trait ByteDeserializeSlice<T>: ByteDeserialized<T> {
    /// Reads a `T`, taking exactly the bytes that it occupies.
    fn byte_deserialize(des: &mut ByteDeserializerSlice) -> (r: Result<T>)
        ensures
            r is Err <==> Self::byte_parse_len(old(des).rest()) is None,
            final(des).data() == old(des).data(),
            old(des).pos() <= final(des).pos(),
            r matches Ok(v) ==> Self::byte_parse_len(old(des).rest()) == Some((final(des).pos() - old(des).pos()) as nat)
                && old(des).pos() <= final(des).pos() && Self::byte_parsed(old(des).rest(), v),
    ;

    /// Reads a `T` from the next `len` bytes alone and takes all `len` of them.
    /// On failure nothing is read.
    fn byte_deserialize_take(des: &mut ByteDeserializerSlice, len: usize) -> (r: Result<T>)
        ensures
            r is Ok <==> len <= old(des).rest().len() && Self::byte_parse_len(old(des).rest().take(len as int)) is Some,
            final(des).data() == old(des).data(),
            match r {
                Ok(v) => Self::byte_parsed(old(des).rest().take(len as int), v) && final(des).pos() == old(des).pos() + len,
                Err(_) => final(des).pos() == old(des).pos(),
            },
    {
        let bytes = des.peek_bytes_slice(len)?;
        let tmp_des = &mut ByteDeserializerSlice::new(bytes);
        assert(tmp_des.rest() =~= bytes@);
        let result = Self::byte_deserialize(tmp_des);
        match result {
            Ok(v) => {
                des.advance_idx(bytes.len());
                Ok(v)
            },
            Err(e) => Err(e),
        }
    }
}

/// A `Vec<u8>` takes all the remaining bytes.
impl ByteDeserialized<Vec<u8>> for Vec<u8> {
    open spec fn byte_parse_len(bytes: Seq<u8>) -> Option<nat> {
        Some(bytes.len())
    }

    open spec fn byte_parsed(bytes: Seq<u8>, v: Vec<u8>) -> bool {
        v@ == bytes
    }
}

/// Greedy: a `Vec<u8>` takes all the remaining bytes.
impl ByteDeserializeSlice<Vec<u8>> for Vec<u8> {
    fn byte_deserialize(des: &mut ByteDeserializerSlice) -> (r: Result<Vec<u8>>) {
        let _ = des.remaining();
        Ok(vstd::slice::slice_to_vec(des.deserialize_bytes_slice_remaining()))
    }
}

/// Reads a `T` from the front of `bytes`.
pub fn from_slice<T: ByteDeserializeSlice<T>>(bytes: &[u8]) -> (r: Result<T>)
    ensures
        r is Err <==> T::byte_parse_len(bytes@) is None,
        r matches Ok(v) ==> T::byte_parsed(bytes@, v),
{
    let de = &mut ByteDeserializerSlice::new(bytes);
    assert(de.rest() =~= bytes@);
    T::byte_deserialize(de)
}

/// Reads a `T` from the front of the bytes written into `ser`.
pub fn from_serializer_stack<const CAP: usize, T: ByteDeserializeSlice<T>>(ser: &ByteSerializerStack<CAP>) -> (r: Result<T>)
    ensures
        r is Err <==> T::byte_parse_len(ser@) is None,
        r matches Ok(v) ==> T::byte_parsed(ser@, v),
{
    from_slice(ser.as_slice())
}

/// Reads a `T` from the front of the bytes written into `ser`.
pub fn from_serializer_heap<T: ByteDeserializeSlice<T>>(ser: &ByteSerializerHeap) -> (r: Result<T>)
    ensures
        r is Err <==> T::byte_parse_len(ser@) is None,
        r matches Ok(v) ==> T::byte_parsed(ser@, v),
{
    from_slice(ser.as_slice())
}

/// A run of reads on one cursor: each state is reached from the one before
/// it by a call other than `reset`, which keeps the bytes and does not move
/// the cursor back.
pub open spec fn is_read_run<'a>(states: Seq<ByteDeserializerSlice<'a>>) -> bool {
    forall|i: int|
        0 <= i < states.len() - 1 ==> #[trigger] states[i + 1].data() == states[i].data() && states[i].pos() <= states[
            i + 1
        ].pos()
}

/// Law: along a run of reads the bytes, and so the length, of a cursor never
/// change and its index never decreases.
pub proof fn law_read_run_keeps_len_and_moves_forward<'a>(states: Seq<ByteDeserializerSlice<'a>>)
    requires
        is_read_run(states),
    ensures
        forall|i: int, j: int|
            #![trigger states[i], states[j]]
            0 <= i <= j < states.len() ==> states[j].data() == states[i].data() && states[j].data().len()
                == states[i].data().len() && states[i].pos() <= states[j].pos(),
{
    assert forall|i: int, j: int| #![trigger states[i], states[j]]
        0 <= i <= j < states.len() implies states[j].data() == states[i].data() && states[j].data().len()
        == states[i].data().len() && states[i].pos() <= states[j].pos() by {
        lemma_read_run_from(states, i, j);
    }
}

proof fn lemma_read_run_from<'a>(states: Seq<ByteDeserializerSlice<'a>>, i: int, j: int)
    requires
        is_read_run(states),
        0 <= i <= j < states.len(),
    ensures
        states[j].data() == states[i].data(),
        states[i].pos() <= states[j].pos(),
    decreases j - i,
{
    if i < j {
        lemma_read_run_from(states, i, j - 1);
        assert(states[(j - 1) + 1].data() == states[j - 1].data());
    }
}

} // verus!
