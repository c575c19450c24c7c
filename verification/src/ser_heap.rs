//! Serialization into a growable buffer held on the heap.
use vstd::prelude::*;
use bytes::{Bytes, BytesMut};
use crate::buffers::{
    bytes_content, bytes_mut_content, bytes_mut_as_slice, bytes_mut_capacity, bytes_mut_clear,
    bytes_mut_clone, bytes_mut_extend_from_slice, bytes_mut_freeze, bytes_mut_len, bytes_mut_new,
    bytes_mut_with_capacity,
};
use crate::error::Result;
use crate::ser_stack::ByteSerialized;
use crate::utils::hex::{hex_line, hex_pretty, to_hex_line, to_hex_pretty};
use crate::utils::numerics::be_bytes::ToBeBytes;
use crate::utils::numerics::digits::{be_digits, le_digits};
use crate::utils::numerics::le_bytes::ToLeBytes;
use crate::utils::numerics::ne_bytes::{ne_digits, ToNeBytes};
use crate::utils::numerics::width::FixedWidth;
use crate::utils::text::{decimal, push_decimal, push_str};

verus! {

/// Values that can be appended to a [ByteSerializerHeap]. The buffer grows as
/// needed, so appending never fails while the buffer stays within
/// `isize::MAX` bytes.
pub trait ByteSerializeHeap: ByteSerialized {
    /// Appends the image of the value.
    fn byte_serialize_heap(&self, ser: &mut ByteSerializerHeap) -> (r: Result<()>)
        requires
            old(ser)@.len() + self.byte_image().len() <= isize::MAX,
        ensures
            r is Ok,
            final(ser)@ == old(ser)@ + self.byte_image(),
    ;
}

/// A byte buffer held on the heap that grows as bytes are written. It can be
/// reused by calling [Self::clear()].
#[derive(Debug)]
pub struct ByteSerializerHeap {
    bytes: BytesMut,
}

impl View for ByteSerializerHeap {
    type V = Seq<u8>;

    /// The bytes written so far.
    closed spec fn view(&self) -> Seq<u8> {
        bytes_mut_content(self.bytes)
    }
}

impl Default for ByteSerializerHeap {
    /// An empty buffer.
    fn default() -> (r: Self)
        ensures
            r@ == Seq::<u8>::empty(),
    {
        ByteSerializerHeap { bytes: bytes_mut_new() }
    }
}

impl Clone for ByteSerializerHeap {
    /// A new buffer holding the same bytes.
    fn clone(&self) -> (r: Self)
        ensures
            r@ == self@,
    {
        ByteSerializerHeap { bytes: bytes_mut_clone(&self.bytes) }
    }
}

/// A heap buffer holding `written`, described as text.
pub open spec fn heap_lower_hex(written: Seq<u8>, alternate: bool) -> Seq<char> {
    "ByteSerializerHeap { len: "@ + decimal(written.len()) + ", bytes: "@ + (if alternate {
        "\n"@ + hex_pretty(written)
    } else {
        hex_line(written)
    }) + " }"@
}

impl ByteSerializerHeap {
    /// An empty buffer with room for at least `cap` bytes before it grows.
    pub fn with_capacity(cap: usize) -> (r: Self)
        requires
            cap <= isize::MAX,
        ensures
            r@ == Seq::<u8>::empty(),
    {
        ByteSerializerHeap { bytes: bytes_mut_with_capacity(cap) }
    }

    /// Empties the buffer, keeping the room it has.
    pub fn clear(&mut self)
        ensures
            final(self)@ == Seq::<u8>::empty(),
    {
        bytes_mut_clear(&mut self.bytes);
    }

    /// Empties the buffer, as [Self::clear()] does.
    pub fn reset(&mut self)
        ensures
            final(self)@ == Seq::<u8>::empty(),
    {
        self.clear();
    }

    /// The number of bytes written.
    pub fn len(&self) -> (r: usize)
        ensures
            r == self@.len(),
    {
        bytes_mut_len(&self.bytes)
    }

    /// Whether nothing has been written.
    pub fn is_empty(&self) -> (r: bool)
        ensures
            r == (self@.len() == 0),
    {
        bytes_mut_len(&self.bytes) == 0
    }

    /// The number of bytes the buffer can hold before it grows: at least its length.
    pub fn capacity(&self) -> (r: usize)
        ensures
            r >= self@.len(),
    {
        bytes_mut_capacity(&self.bytes)
    }

    /// The number of bytes that can be written before the buffer grows:
    /// [Self::capacity()] - [Self::len()]. The capacity depends on what the
    /// allocator gave, so only a bound is stated of this number.
    pub fn available(&self) -> (r: usize)
        ensures
            r + self@.len() <= usize::MAX,
    {
        bytes_mut_capacity(&self.bytes) - bytes_mut_len(&self.bytes)
    }

    /// The bytes written.
    pub fn as_slice(&self) -> (r: &[u8])
        ensures
            r@ == self@,
    {
        bytes_mut_as_slice(&self.bytes)
    }

    /// The bytes written, as [Self::as_slice()] gives them.
    pub fn bytes(&self) -> (r: &[u8])
        ensures
            r@ == self@,
    {
        self.as_slice()
    }

    /// Appends all of `bytes`.
    pub fn serialize_bytes_slice(&mut self, bytes: &[u8]) -> (r: Result<&mut Self>)
        requires
            old(self)@.len() + bytes@.len() <= isize::MAX,
        ensures
            match r {
                Ok(s) => s@ == old(self)@ + bytes@ && *final(self) == *final(s),
                Err(_) => false,
            },
    {
        bytes_mut_extend_from_slice(&mut self.bytes, bytes);
        Ok(self)
    }

    /// Appends the native-endian bytes of a numeric.
    pub fn serialize_ne<const N: usize, T: ToNeBytes<N>>(&mut self, v: T) -> (r: Result<&mut Self>)
        requires
            old(self)@.len() + N <= isize::MAX,
        ensures
            match r {
                Ok(s) => {
                    &&& (s@ == old(self)@ + be_digits(v.bits(), N as nat) || s@ == old(self)@ + le_digits(v.bits(), N as nat))
                    &&& s@ == old(self)@ + ne_digits(v.bits(), N as nat)
                    &&& *final(self) == *final(s)
                },
                Err(_) => false,
            },
    {
        let b: [u8; N] = ToNeBytes::to_bytes(&v);
        self.serialize_bytes_slice(b.as_slice())
    }

    /// Appends the little-endian bytes of a numeric.
    pub fn serialize_le<const N: usize, T: ToLeBytes<N>>(&mut self, v: T) -> (r: Result<&mut Self>)
        requires
            old(self)@.len() + N <= isize::MAX,
        ensures
            match r {
                Ok(s) => s@ == old(self)@ + le_digits(v.bits(), N as nat) && *final(self) == *final(s),
                Err(_) => false,
            },
    {
        let b: [u8; N] = ToLeBytes::to_bytes(&v);
        self.serialize_bytes_slice(b.as_slice())
    }

    /// Appends the big-endian bytes of a numeric.
    pub fn serialize_be<const N: usize, T: ToBeBytes<N>>(&mut self, v: T) -> (r: Result<&mut Self>)
        requires
            old(self)@.len() + N <= isize::MAX,
        ensures
            match r {
                Ok(s) => s@ == old(self)@ + be_digits(v.bits(), N as nat) && *final(self) == *final(s),
                Err(_) => false,
            },
    {
        let b: [u8; N] = ToBeBytes::to_bytes(&v);
        self.serialize_bytes_slice(b.as_slice())
    }

    /// Appends the image of a value that implements [ByteSerializeHeap].
    pub fn serialize<T: ByteSerializeHeap>(&mut self, v: &T) -> (r: Result<&mut Self>)
        requires
            old(self)@.len() + v.byte_image().len() <= isize::MAX,
        ensures
            match r {
                Ok(s) => s@ == old(self)@ + v.byte_image() && *final(self) == *final(s),
                Err(_) => false,
            },
    {
        match v.byte_serialize_heap(self) {
            Ok(()) => Ok(self),
            Err(e) => Err(e),
        }
    }

    /// The buffer described as text: its length and a hex dump of the bytes
    /// written, on one line or, when `alternate`, sixteen bytes per line.
    pub fn fmt_lower_hex(&self, alternate: bool) -> (r: String)
        ensures
            r@ == heap_lower_hex(self@, alternate),
    {
        let mut s = String::new();
        push_str(&mut s, "ByteSerializerHeap { len: ");
        push_decimal(&mut s, self.len() as u128);
        push_str(&mut s, ", bytes: ");
        if alternate {
            push_str(&mut s, "\n");
            push_str(&mut s, to_hex_pretty(self.as_slice()).as_str());
        } else {
            push_str(&mut s, to_hex_line(self.as_slice()).as_str());
        }
        push_str(&mut s, " }");
        assert(s@ =~= heap_lower_hex(self@, alternate));
        s
    }
}

/// Serializes `v` into a fresh heap buffer.
pub fn to_serializer_heap<T: ByteSerializeHeap>(v: &T) -> (r: Result<ByteSerializerHeap>)
    requires
        v.byte_image().len() <= isize::MAX,
    ensures
        r matches Ok(s) && s@ == v.byte_image(),
{
    let mut ser = ByteSerializerHeap::default();
    match v.byte_serialize_heap(&mut ser) {
        Ok(()) => {
            assert(ser@ =~= v.byte_image());
            Ok(ser)
        },
        Err(e) => Err(e),
    }
}

/// Serializes `v` into a fresh heap buffer and hands back its bytes.
pub fn to_bytes_heap<T: ByteSerializeHeap>(v: &T) -> (r: Result<Bytes>)
    requires
        v.byte_image().len() <= isize::MAX,
    ensures
        r matches Ok(b) && bytes_content(b) == v.byte_image(),
{
    let ser = to_serializer_heap(v)?;
    Ok(bytes_mut_freeze(ser.bytes))
}

} // verus!
